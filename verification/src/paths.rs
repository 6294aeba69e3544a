//! Paths as sequences of components: putting one file beside another.
//!
//! A system takes the text of a path apart in its own way. What a component is does not depend
//! on that, nor does what becomes of the components when the file name is changed.

use vstd::prelude::*;

verus! {

/// A component of a path.
#[derive(Debug, PartialEq, Eq)]
pub enum PathComponent<N> {
    /// A prefix such as the name of a drive.
    Prefix(N),
    /// The root, with which an absolute path begins.
    RootDir,
    /// The current directory, where a path begins with it.
    CurDir,
    /// The directory above.
    ParentDir,
    /// The name of a file or a directory.
    Normal(N),
}

/// Whether a path ends in the name of a file.
pub open spec fn has_file_name<N>(path: Seq<PathComponent<N>>) -> bool {
    path.len() > 0 && path.last() is Normal
}

/// The path without its file name; the whole path, where it has none.
pub open spec fn directory_of<N>(path: Seq<PathComponent<N>>) -> Seq<PathComponent<N>> {
    if has_file_name(path) {
        path.drop_last()
    } else {
        path
    }
}

/// The path with the file name `name` in place of its own, or behind it where it has none.
pub open spec fn beside<N>(path: Seq<PathComponent<N>>, name: N) -> Seq<PathComponent<N>> {
    directory_of(path).push(PathComponent::Normal(name))
}

/// The path with the file name `name` in place of its own, or behind it where it has none.
pub fn with_file_name<N>(path: Vec<PathComponent<N>>, name: N) -> (r: Vec<PathComponent<N>>)
    ensures
        r@ == beside(path@, name),
{
    let mut r: Vec<PathComponent<N>> = path;
    let named: bool = if r.len() > 0 {
        match &r[r.len() - 1] {
            PathComponent::Normal(_) => true,
            _ => false,
        }
    } else {
        false
    };
    if named {
        let _ = r.pop();
    }
    r.push(PathComponent::Normal(name));
    r
}

/// The file that is put beside another has the given name and lies in the same directory.
pub proof fn file_beside_lies_in_the_same_directory<N>(path: Seq<PathComponent<N>>, name: N)
    ensures
        has_file_name(beside(path, name)),
        beside(path, name).last() == PathComponent::Normal(name),
        directory_of(beside(path, name)) == directory_of(path),
{
}

/// Of several files put in each other's place, the last one stays.
pub proof fn file_beside_a_file_beside<N>(path: Seq<PathComponent<N>>, first: N, second: N)
    ensures
        beside(beside(path, first), second) == beside(path, second),
{
    file_beside_lies_in_the_same_directory(path, first);
}

/// A file beside another takes the place of its name, and nothing before that changes.
pub proof fn file_beside_replaces_the_name_alone<N>(
    directory: Seq<PathComponent<N>>,
    old_name: N,
    name: N,
)
    ensures
        beside(directory.push(PathComponent::Normal(old_name)), name) == directory.push(
            PathComponent::Normal(name),
        ),
        directory_of(directory.push(PathComponent::Normal(old_name))) == directory,
{
    assert(directory.push(PathComponent::Normal(old_name)).drop_last() == directory);
}

/// A path that ends in no file name is a directory, and the file is put into it.
pub proof fn file_beside_is_put_behind_a_path_without_name<N>(
    path: Seq<PathComponent<N>>,
    name: N,
)
    requires
        path.len() == 0 || !(path.last() is Normal),
    ensures
        beside(path, name) == path.push(PathComponent::Normal(name)),
        directory_of(path) == path,
{
}

} // verus!

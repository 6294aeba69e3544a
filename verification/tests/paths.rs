use herdr::paths::{with_file_name, PathComponent};
use herdr::release_notes::{pending_path, PENDING_RELEASE_NOTES_PATH};
use std::path::{Component, Path, PathBuf};

fn parts(path: &Path) -> Vec<PathComponent<String>> {
    path.components()
        .map(|c| match c {
            Component::Prefix(prefix) => PathComponent::Prefix(prefix.as_os_str().to_str().unwrap().to_string()),
            Component::RootDir => PathComponent::RootDir,
            Component::CurDir => PathComponent::CurDir,
            Component::ParentDir => PathComponent::ParentDir,
            Component::Normal(name) => PathComponent::Normal(name.to_str().unwrap().to_string()),
        })
        .collect()
}

fn normal(name: &str) -> PathComponent<String> {
    PathComponent::Normal(name.to_string())
}

/// The standard library's own answer, over every short path of these characters.
#[test]
fn file_names_are_set_as_the_standard_library_sets_them() {
    let alphabet = ['a', '.', '/', '\\'];
    let mut last = vec![String::new()];
    for _ in 0..7 {
        let mut next = Vec::new();
        for s in &last {
            let mut expected = PathBuf::from(s);
            expected.set_file_name(PENDING_RELEASE_NOTES_PATH);
            assert_eq!(pending_path(parts(Path::new(s))), parts(&expected), "{:?}", s);
            for c in alphabet {
                let mut t = s.clone();
                t.push(c);
                next.push(t);
            }
        }
        last = next;
    }
}

#[test]
fn pending_notes_stand_beside_the_configuration() {
    assert_eq!(
        pending_path(parts(Path::new("/home/me/.config/herdr/config.toml"))),
        parts(Path::new("/home/me/.config/herdr/release-notes.json"))
    );
    assert_eq!(
        pending_path(vec![
            PathComponent::Prefix("C:".to_string()),
            PathComponent::RootDir,
            normal("config.toml"),
        ]),
        vec![
            PathComponent::Prefix("C:".to_string()),
            PathComponent::RootDir,
            normal("release-notes.json"),
        ]
    );
}

#[test]
fn a_path_without_a_file_name_gets_one() {
    let name = || normal("release-notes.json");
    assert_eq!(pending_path(vec![]), vec![name()]);
    assert_eq!(pending_path(vec![PathComponent::RootDir]), vec![PathComponent::RootDir, name()]);
    assert_eq!(pending_path(vec![PathComponent::CurDir]), vec![PathComponent::CurDir, name()]);
    assert_eq!(
        pending_path(vec![normal("herdr"), PathComponent::ParentDir]),
        vec![normal("herdr"), PathComponent::ParentDir, name()]
    );
}

#[test]
fn the_last_file_name_stays() {
    let once = with_file_name(vec![PathComponent::RootDir, PathComponent::Normal(1u8)], 2u8);
    assert_eq!(once, vec![PathComponent::RootDir, PathComponent::Normal(2u8)]);
    let twice = with_file_name(once, 3u8);
    assert_eq!(twice, vec![PathComponent::RootDir, PathComponent::Normal(3u8)]);
}

//! The release notes that wait to be shown, and those that a changelog holds.
//!
//! Pending notes are kept in one file beside the configuration. The functions here decide what
//! is to be in that file and what its contents mean; reading and writing it is left to the caller.

use crate::build_info;
use crate::paths;
use crate::paths::PathComponent;
use crate::text;
use crate::update;
use crate::update::BuildIdentity;
use vstd::prelude::*;
use vstd::string::*;

verus! {

/// The name of the file that holds the pending notes.
pub const PENDING_RELEASE_NOTES_PATH: &'static str = "release-notes.json";

/// Release notes as they are shown.
#[derive(Debug, Clone, PartialEq, Eq)]
pub struct ReleaseNotes {
    pub version: String,
    pub body: String,
    /// Whether the notes are of a version newer than the one that runs.
    pub preview: bool,
}

/// Release notes as they are kept.
#[derive(Debug, Clone, PartialEq, Eq)]
pub struct StoredReleaseNotes {
    pub version: String,
    pub body: String,
    pub show_on_startup: bool,
}

/// What is to become of the file of pending notes.
#[derive(Debug, Clone, PartialEq, Eq)]
pub enum PendingChange {
    /// There are no notes: the file is removed.
    Clear,
    /// The file holds these notes.
    Store(StoredReleaseNotes),
}

/// The contents of `ReleaseNotes`.
pub struct Notes {
    pub version: Seq<char>,
    pub body: Seq<char>,
    pub preview: bool,
}

/// The contents of `StoredReleaseNotes`.
pub struct Stored {
    pub version: Seq<char>,
    pub body: Seq<char>,
    pub show_on_startup: bool,
}

impl View for ReleaseNotes {
    type V = Notes;

    open spec fn view(&self) -> Notes {
        Notes { version: self.version@, body: self.body@, preview: self.preview }
    }
}

impl View for StoredReleaseNotes {
    type V = Stored;

    open spec fn view(&self) -> Stored {
        Stored {
            version: self.version@,
            body: self.body@,
            show_on_startup: self.show_on_startup,
        }
    }
}

impl View for PendingChange {
    type V = Option<Stored>;

    open spec fn view(&self) -> Option<Stored> {
        match self {
            PendingChange::Clear => None,
            PendingChange::Store(stored) => Some(stored@),
        }
    }
}

/// What optional stored notes hold.
pub open spec fn pending(stored: Option<StoredReleaseNotes>) -> Option<Stored> {
    match stored {
        Some(s) => Some(s@),
        None => None,
    }
}

/// What optional notes hold.
pub open spec fn shown(notes: Option<ReleaseNotes>) -> Option<Notes> {
    match notes {
        Some(n) => Some(n@),
        None => None,
    }
}

/// A body with no white space at the end of a line, nor at its own start and end.
pub open spec fn normalized(body: Seq<char>) -> Seq<char> {
    text::trimmed(text::joined(text::lines_trimmed_end(text::lines_of(body))))
}

/// What saving notes leaves in the file: nothing, if their body is blank.
pub open spec fn saved(version: Seq<char>, body: Seq<char>) -> Option<Stored> {
    if normalized(body).len() == 0 {
        None
    } else {
        Some(Stored { version, body: normalized(body), show_on_startup: true })
    }
}

/// Whether `version` is known to be newer than `current`.
pub open spec fn is_newer(version: Seq<char>, current: Seq<char>) -> bool {
    match (update::identity_of(version), update::identity_of(current)) {
        (Some(a), Some(b)) => update::newer(a, b) == Some(true),
        _ => false,
    }
}

/// The notes that the file gives to a build of version `current`.
pub open spec fn latest(file: Option<Stored>, current: Seq<char>) -> Option<Notes> {
    match file {
        Some(stored) => if normalized(stored.body).len() == 0 {
            None
        } else {
            Some(
                Notes {
                    version: stored.version,
                    body: normalized(stored.body),
                    preview: is_newer(stored.version, current),
                },
            )
        },
        None => None,
    }
}

/// The notes that replace the file when the notes of version `current` have been seen; none, if
/// the file stays as it is.
pub open spec fn newly_seen(file: Option<Stored>, current: Seq<char>) -> Option<Stored> {
    match file {
        Some(stored) => if stored.version == current && stored.show_on_startup {
            Some(Stored { version: stored.version, body: stored.body, show_on_startup: false })
        } else {
            None
        },
        None => None,
    }
}

/// The file after the notes of version `current` have been seen.
pub open spec fn after_seen(file: Option<Stored>, current: Seq<char>) -> Option<Stored> {
    match newly_seen(file, current) {
        Some(stored) => Some(stored),
        None => file,
    }
}

/// The beginning of the line that heads the section of `version` in a changelog.
pub open spec fn header_of(version: Seq<char>) -> Seq<char> {
    "## ["@ + version + "]"@
}

/// The lines behind the first one that begins with `header`.
pub open spec fn lines_after(lines: Seq<Seq<char>>, header: Seq<char>) -> Seq<Seq<char>>
    decreases lines.len(),
{
    if lines.len() == 0 {
        lines
    } else if header.is_prefix_of(lines[0]) {
        lines.skip(1)
    } else {
        lines_after(lines.skip(1), header)
    }
}

/// The lines before the first one that heads a section.
pub open spec fn lines_before_heading(lines: Seq<Seq<char>>) -> Seq<Seq<char>>
    decreases lines.len(),
{
    if lines.len() == 0 || "## ["@.is_prefix_of(lines[0]) {
        Seq::empty()
    } else {
        seq![lines[0]] + lines_before_heading(lines.skip(1))
    }
}

/// The lines of the section of `version`.
pub open spec fn section_lines(lines: Seq<Seq<char>>, version: Seq<char>) -> Seq<Seq<char>> {
    lines_before_heading(lines_after(lines, header_of(version)))
}

/// The section of `version` in a changelog, if there is one that is not blank.
pub open spec fn section_of(content: Seq<char>, version: Seq<char>) -> Option<Seq<char>> {
    let body = text::trimmed(text::joined(section_lines(text::lines_of(content), version)));
    if body.len() == 0 {
        None
    } else {
        Some(body)
    }
}

/// The notes of `version` as a changelog has them, shown before the version runs.
pub open spec fn changelog_notes(content: Seq<char>, version: Seq<char>) -> Option<Notes> {
    match section_of(content, version) {
        Some(body) => Some(Notes { version, body: normalized(body), preview: true }),
        None => None,
    }
}

/// The body with no white space at the end of a line, nor at its own start and end.
pub fn normalize_body(body: &str) -> (normal: String)
    ensures
        normal@ == normalized(body@),
{
    let lines = text::lines(body);
    let mut kept: Vec<String> = Vec::new();
    let mut i: usize = 0;
    while i < lines.len()
        invariant
            i <= lines.len(),
            text::contents(kept@) == text::lines_trimmed_end(text::contents(lines@)).take(i as int),
        decreases lines.len() - i,
    {
        let ghost before = kept@;
        kept.push(text::trim_end(lines[i].as_str()).to_string());
        proof {
            assert(text::contents(kept@) == text::contents(before).push(kept@.last()@));
        }
        i = i + 1;
    }
    proof {
        let all = text::lines_trimmed_end(text::contents(lines@));
        assert(all.take(i as int) == all);
    }
    let joined: String = text::join_lines(&kept);
    text::trim(joined.as_str()).to_string()
}

/// The section of `version` in a changelog, if there is one that is not blank.
pub fn extract_version_section(content: &str, version: &str) -> (section: Option<String>)
    ensures
        match section {
            Some(body) => section_of(content@, version@) == Some(body@),
            None => section_of(content@, version@) is None,
        },
{
    let mut header: String = "## [".to_string();
    header.append(version);
    header.append("]");
    let lines = text::lines(content);
    let ghost all = text::contents(lines@);
    let mut i: usize = 0;
    assert(all.skip(0) == all);
    while i < lines.len() && !text::starts_with(lines[i].as_str(), header.as_str())
        invariant
            i <= lines.len(),
            all == text::contents(lines@),
            lines_after(all, header@) == lines_after(all.skip(i as int), header@),
        decreases lines.len() - i,
    {
        proof {
            assert(all.skip(i as int).skip(1) == all.skip(i + 1));
        }
        i = i + 1;
    }
    if i < lines.len() {
        i = i + 1;
        proof {
            assert(all.skip(i - 1).skip(1) == all.skip(i as int));
        }
    }
    let mut section: Vec<String> = Vec::new();
    let ghost wanted = lines_before_heading(lines_after(all, header@));
    while i < lines.len() && !text::starts_with(lines[i].as_str(), "## [")
        invariant
            i <= lines.len(),
            all == text::contents(lines@),
            text::contents(section@) + lines_before_heading(all.skip(i as int)) == wanted,
        decreases lines.len() - i,
    {
        section.push(lines[i].clone());
        proof {
            assert(all.skip(i as int).skip(1) == all.skip(i + 1));
        }
        i = i + 1;
    }
    let joined: String = text::join_lines(&section);
    let body: &str = text::trim(joined.as_str());
    if body.is_empty() {
        None
    } else {
        Some(body.to_string())
    }
}

/// The path of the file of pending notes: it stands beside the configuration file, whose path is
/// given and returned as its components.
pub fn pending_path(config_path: Vec<PathComponent<String>>) -> (path: Vec<PathComponent<String>>)
    ensures
        path@.len() > 0,
        path@.drop_last() == paths::directory_of(config_path@),
        path@.last() matches PathComponent::Normal(name) && name@ == PENDING_RELEASE_NOTES_PATH@,
{
    paths::with_file_name(config_path, PENDING_RELEASE_NOTES_PATH.to_string())
}

/// Notes that say nothing else are shown on startup.
pub fn default_show_on_startup() -> (show: bool)
    ensures
        show,
{
    true
}

/// What is to become of the file of pending notes when the notes of `version` are saved.
pub fn save_pending(version: &str, body: &str) -> (change: PendingChange)
    ensures
        change@ == saved(version@, body@),
{
    let body: String = normalize_body(body);
    if body.as_str().is_empty() {
        PendingChange::Clear
    } else {
        PendingChange::Store(
            StoredReleaseNotes { version: version.to_string(), body, show_on_startup: true },
        )
    }
}

/// The notes that stored notes give to a build of version `current_version`.
pub fn release_notes_from_stored(stored: StoredReleaseNotes, current_version: &str) -> (notes: Option<
    ReleaseNotes,
>)
    ensures
        shown(notes) == latest(Some(stored@), current_version@),
{
    let body: String = normalize_body(stored.body.as_str());
    if body.as_str().is_empty() {
        return None;
    }
    let preview: bool = match (
        BuildIdentity::parse(stored.version.as_str()),
        BuildIdentity::parse(current_version),
    ) {
        // Builds that cannot be compared are no evidence of newer notes.
        (Some(stored_identity), Some(current_identity)) => match stored_identity.is_newer_than(
            &current_identity,
        ) {
            Some(yes) => yes,
            None => false,
        },
        // Neither is a version that cannot be read.
        _ => false,
    };
    Some(ReleaseNotes { version: stored.version, body, preview })
}

/// The notes that the file of pending notes gives to a build of version `current_version`.
pub fn load_latest_for(stored: Option<StoredReleaseNotes>, current_version: &str) -> (notes: Option<
    ReleaseNotes,
>)
    ensures
        shown(notes) == latest(pending(stored), current_version@),
{
    match stored {
        Some(stored) => release_notes_from_stored(stored, current_version),
        None => None,
    }
}

/// The notes that the file of pending notes gives to this build.
///
/// They are held against the full version of the build, its channel and build id included, so
/// that of two builds of one release the later one shows its notes.
pub fn load_latest(stored: Option<StoredReleaseNotes>) -> (notes: Option<ReleaseNotes>)
    ensures
        shown(notes) == latest(pending(stored), build_info::running_version()),
{
    load_latest_for(stored, build_info::version().as_str())
}

/// The notes to put in place of the stored ones once those of `current_version` have been seen;
/// none, if the stored ones stay.
pub fn mark_version_seen(stored: Option<StoredReleaseNotes>, current_version: &str) -> (seen: Option<
    StoredReleaseNotes,
>)
    ensures
        pending(seen) == newly_seen(pending(stored), current_version@),
{
    let stored: StoredReleaseNotes = match stored {
        Some(stored) => stored,
        None => return None,
    };
    if !text::same(stored.version.as_str(), current_version) || !stored.show_on_startup {
        return None;
    }
    Some(
        StoredReleaseNotes { version: stored.version, body: stored.body, show_on_startup: false },
    )
}

/// The notes to put in place of the stored ones once those of this build have been seen; none, if
/// the stored ones stay.
pub fn mark_current_version_seen(stored: Option<StoredReleaseNotes>) -> (seen: Option<
    StoredReleaseNotes,
>)
    ensures
        pending(seen) == newly_seen(pending(stored), build_info::running_version()),
{
    mark_version_seen(stored, build_info::version().as_str())
}

/// The notes of `version` in the text of a changelog.
pub fn load_preview_from_local_changelog(content: &str, version: &str) -> (notes: Option<
    ReleaseNotes,
>)
    ensures
        shown(notes) == changelog_notes(content@, version@),
{
    match extract_version_section(content, version) {
        Some(body) => Some(
            ReleaseNotes {
                version: version.to_string(),
                body: normalize_body(body.as_str()),
                preview: true,
            },
        ),
        None => None,
    }
}

} // verus!

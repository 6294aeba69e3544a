use herdr::build_info::version_from;
use herdr::release_notes::{
    default_show_on_startup, extract_version_section, load_latest, load_latest_for,
    load_preview_from_local_changelog, mark_current_version_seen, mark_version_seen,
    normalize_body, release_notes_from_stored, save_pending, PendingChange, StoredReleaseNotes,
};

fn stored(version: &str, body: &str) -> StoredReleaseNotes {
    StoredReleaseNotes {
        version: version.to_string(),
        body: body.to_string(),
        show_on_startup: true,
    }
}

/// What the file of pending notes holds once a change has been made to it.
fn file_after(change: PendingChange) -> Option<StoredReleaseNotes> {
    match change {
        PendingChange::Clear => None,
        PendingChange::Store(stored) => Some(stored),
    }
}

#[test]
fn a_newer_preview_build_is_reported_as_preview() {
    let stored = StoredReleaseNotes {
        version: "0.8.0-preview.124".to_string(),
        body: "### Changed\n- newer preview".to_string(),
        show_on_startup: true,
    };
    let notes = release_notes_from_stored(stored, "0.8.0-preview.123")
        .expect("newer notes must be reported");
    assert!(
        notes.preview,
        "0.8.0-preview.124 is newer than the running .123 and must read as preview"
    );
}

#[test]
fn a_newer_real_dated_preview_is_reported_as_preview() {
    let stored = StoredReleaseNotes {
        version: "0.8.0-preview.2026-06-09-fedcba654321".to_string(),
        body: "### Changed\n- newer dated preview".to_string(),
        show_on_startup: true,
    };
    let notes = release_notes_from_stored(stored, "0.8.0-preview.2026-06-02-abcdef123456")
        .expect("newer notes must be reported");
    assert!(
        notes.preview,
        "a preview built later must read as an available update"
    );
}

#[test]
fn an_older_real_dated_preview_is_not_reported_as_preview() {
    let stored = StoredReleaseNotes {
        version: "0.8.0-preview.2026-05-30-aaaaaaaaaaaa".to_string(),
        body: "### Changed\n- older dated preview".to_string(),
        show_on_startup: true,
    };
    let notes = release_notes_from_stored(stored, "0.8.0-preview.2026-06-02-abcdef123456")
        .expect("notes are still returned");
    assert!(!notes.preview, "an earlier build is not an update");
}

#[test]
fn an_older_preview_build_is_not_reported_as_preview() {
    let stored = StoredReleaseNotes {
        version: "0.8.0-preview.122".to_string(),
        body: "### Changed\n- older preview".to_string(),
        show_on_startup: true,
    };
    let notes = release_notes_from_stored(stored, "0.8.0-preview.123")
        .expect("notes are still returned");
    assert!(!notes.preview, "an older build is not an update");
}

/// Builds of two channels at one release have no order, and no order is not "newer".
#[test]
fn a_different_channel_at_the_same_release_is_not_preview() {
    let stored = StoredReleaseNotes {
        version: "0.8.0-preview.999".to_string(),
        body: "### Changed\n- other channel".to_string(),
        show_on_startup: true,
    };
    let notes =
        release_notes_from_stored(stored, "0.8.0-heb.1").expect("notes are still returned");
    assert!(
        !notes.preview,
        "no order across channels means no update claim"
    );
}

/// A stable release is newer than any pre-release of the same version.
#[test]
fn a_stable_release_outranks_the_running_prerelease() {
    let stored = StoredReleaseNotes {
        version: "0.8.0".to_string(),
        body: "### Changed\n- stable".to_string(),
        show_on_startup: true,
    };
    let notes = release_notes_from_stored(stored, "0.8.0-heb.1").expect("notes are returned");
    assert!(notes.preview, "0.8.0 is newer than 0.8.0-heb.1");
}

#[test]
fn extracts_version_section() {
    let changelog = "# Changelog\n\n## [0.2.3] - 2026-03-31\n\n### Changed\n- One\n\n## [0.2.2] - 2026-03-30\n\n### Fixed\n- Two\n";
    assert_eq!(
        extract_version_section(changelog, "0.2.3").as_deref(),
        Some("### Changed\n- One")
    );
}

#[test]
fn preserves_headings() {
    assert_eq!(
        normalize_body("### Changed\n- One\n\n### Fixed\n- Two"),
        "### Changed\n- One\n\n### Fixed\n- Two"
    );
}

#[test]
fn load_latest_keeps_future_version_previewable_before_restart() {
    let file = file_after(save_pending("0.3.2", "### Changed\n- One"));

    let notes = load_latest_for(file, "0.3.1").expect("latest notes");
    assert_eq!(notes.version, "0.3.2");
    assert_eq!(notes.body, "### Changed\n- One");
    assert!(notes.preview);
}

#[test]
fn load_latest_does_not_mark_older_saved_version_as_preview() {
    let file = file_after(save_pending("0.3.0", "### Changed\n- One"));

    let notes = load_latest_for(file, "0.3.1").expect("latest notes");
    assert_eq!(notes.version, "0.3.0");
    assert_eq!(notes.body, "### Changed\n- One");
    assert!(!notes.preview);
}

#[test]
fn marking_current_version_seen_preserves_latest_notes() {
    let file = file_after(save_pending("0.3.1", "### Changed\n- One"));

    let seen = mark_version_seen(file, "0.3.1").expect("stored notes");
    assert!(!seen.show_on_startup);

    let latest = load_latest_for(Some(seen), "0.3.1").expect("latest notes");
    assert_eq!(latest.version, "0.3.1");
    assert!(!latest.preview);
}

#[test]
fn notes_without_a_flag_are_shown_on_startup() {
    assert!(default_show_on_startup());
}

#[test]
fn malformed_versions_are_not_previews() {
    for (version, current) in [("0.9", "0.8.0"), ("0.9.0", "current"), ("", "")] {
        let notes = release_notes_from_stored(stored(version, "- One"), current).expect("notes");
        assert!(!notes.preview, "{version} against {current}");
        assert_eq!(notes.version, version);
    }
}

#[test]
fn the_running_version_is_no_preview_to_itself() {
    let notes = load_latest(Some(stored("0.8.0-heb.1", "- One"))).expect("notes");
    assert!(!notes.preview);
    let notes = load_latest(Some(stored("0.8.0-heb.2", "- One"))).expect("notes");
    assert!(notes.preview);
    assert_eq!(load_latest(None), None);
}

#[test]
fn blank_notes_are_not_reported() {
    assert_eq!(release_notes_from_stored(stored("0.9.0", " \n\t\r\n"), "0.8.0"), None);
    assert_eq!(load_latest_for(None, "0.8.0"), None);
}

#[test]
fn saving_blank_notes_clears_the_file() {
    assert_eq!(save_pending("0.9.0", ""), PendingChange::Clear);
    assert_eq!(save_pending("0.9.0", "\r\n  \n"), PendingChange::Clear);
}

#[test]
fn saved_notes_are_normalized_and_unseen() {
    assert_eq!(
        save_pending(" 0.9.0", "\n  # One  \r\n\r\n two\t\n\n"),
        PendingChange::Store(StoredReleaseNotes {
            version: " 0.9.0".to_string(),
            body: "# One\n\n two".to_string(),
            show_on_startup: true,
        })
    );
}

#[test]
fn saved_notes_are_read_back() {
    let body = "  # One  \r\n\r\n two\t\n\n";
    let notes = load_latest_for(file_after(save_pending("0.9.0", body)), "0.8.0").expect("notes");
    assert_eq!(notes.version, "0.9.0");
    assert_eq!(notes.body, normalize_body(body));
    assert!(notes.preview);
}

#[test]
fn only_unseen_notes_of_the_running_version_are_marked() {
    assert_eq!(mark_version_seen(None, "0.3.1"), None);
    assert_eq!(mark_version_seen(Some(stored("0.3.2", "- One")), "0.3.1"), None);
    let seen = mark_version_seen(Some(stored("0.3.1", " - One ")), "0.3.1").expect("unseen");
    assert_eq!(
        seen,
        StoredReleaseNotes {
            version: "0.3.1".to_string(),
            body: " - One ".to_string(),
            show_on_startup: false,
        }
    );
    assert_eq!(mark_version_seen(Some(seen), "0.3.1"), None);
}

#[test]
fn the_notes_of_this_build_are_marked() {
    let seen = mark_current_version_seen(Some(stored("0.8.0-heb.1", "- One"))).expect("unseen");
    assert!(!seen.show_on_startup);
    assert_eq!(mark_current_version_seen(Some(stored("0.8.0", "- One"))), None);
    assert_eq!(mark_current_version_seen(None), None);
}

#[test]
fn normalizing_agrees_with_the_standard_library() {
    let mut last = vec![String::new()];
    for _ in 0..7 {
        let mut next = Vec::new();
        for s in &last {
            let expected = s
                .lines()
                .map(str::trim_end)
                .collect::<Vec<_>>()
                .join("\n")
                .trim()
                .to_string();
            let normal = normalize_body(s);
            assert_eq!(normal, expected, "{:?}", s);
            assert_eq!(normalize_body(&normal), normal, "{:?}", s);
            for c in ['a', ' ', '\n', '\r'] {
                let mut t = s.clone();
                t.push(c);
                next.push(t);
            }
        }
        last = next;
    }
}

#[test]
fn normalizing_keeps_every_visible_character() {
    let body = "\u{3000} # A \u{2028}\r\n\r\n  b\u{a0}c \t\n\n";
    let visible = |s: &str| s.chars().filter(|c| !c.is_whitespace()).collect::<String>();
    assert_eq!(visible(&normalize_body(body)), visible(body));
    assert_eq!(normalize_body(body), "# A\n\n  b\u{a0}c");
}

#[test]
fn a_missing_or_blank_section_is_none() {
    assert_eq!(extract_version_section("", "1.0.0"), None);
    assert_eq!(extract_version_section("## [1.0.1]\n- One\n", "1.0.0"), None);
    assert_eq!(extract_version_section("## [1.0.0]", "1.0.0"), None);
    assert_eq!(extract_version_section("## [1.0.0]\n \n\n## [0.9.0]\n- One", "1.0.0"), None);
}

#[test]
fn a_section_reaches_to_the_next_heading_or_the_end() {
    let changelog = "## [1.0.0] - today\r\n\r\n- One\r\n## not a version\r\n\r\n## [0.9.0]\r\n- Two";
    assert_eq!(
        extract_version_section(changelog, "1.0.0").as_deref(),
        Some("- One\n## not a version")
    );
    assert_eq!(extract_version_section(changelog, "0.9.0").as_deref(), Some("- Two"));
    assert_eq!(extract_version_section(changelog, "0.9"), None);
}

#[test]
fn the_first_section_of_a_version_counts() {
    let changelog = " ## [1.0.0]\n- indented\n## [1.0.0]\n- One\n## [1.0.0]\n- Two\n";
    assert_eq!(extract_version_section(changelog, "1.0.0").as_deref(), Some("- One"));
}

#[test]
fn a_changelog_section_is_shown_as_a_preview() {
    let changelog = "# Changelog\n\n## [0.2.3]\n\n### Changed  \n- One\n";
    let notes = load_preview_from_local_changelog(changelog, "0.2.3").expect("section");
    assert_eq!(notes.version, "0.2.3");
    assert_eq!(notes.body, "### Changed\n- One");
    assert!(notes.preview);
    assert_eq!(load_preview_from_local_changelog(changelog, "0.2.2"), None);
}

/// What the version texts of two builds make of their notes, either way round.
#[test]
fn version_texts_decide_what_is_a_preview() {
    let preview = |version: &str, current: &str| {
        release_notes_from_stored(stored(version, "- One"), current)
            .expect("notes")
            .preview
    };
    let stable = version_from("1.4.0", None, None);
    let heb_1 = version_from("1.4.0", Some("heb"), Some("1"));
    let heb_2 = version_from("1.4.0", Some("heb"), Some("2"));
    let other = version_from("1.4.0", Some("preview"), Some("2026-06-02-abc"));
    assert!(preview(&heb_2, &heb_1));
    assert!(!preview(&heb_1, &heb_2));
    assert!(preview(&stable, &heb_2));
    assert!(!preview(&heb_2, &stable));
    assert!(!preview(&other, &heb_1));
    assert!(!preview(&heb_1, &other));
}

/// Neither what stands before the lines of a section nor what follows from the next heading on
/// changes it.
#[test]
fn a_section_does_not_depend_on_its_surroundings() {
    for content in [
        "## [1.0.0]\n- One",
        "## [1.0.0]\r\n- One\r",
        "intro\n## [1.0.0] today\n\n- One\n\n",
        "## [1.0.0]\n- One\n## [0.9.0]\n- Two",
        "## [1.0.0]",
    ] {
        let alone = extract_version_section(content, "1.0.0");
        for before in ["", "# Changelog\n\n", "## [2.0.0]\r\n- New\r\n", "\n"] {
            for behind in ["", "0.8.0]\n- Old\n", "1.0.0]\n- Again"] {
                let all = format!("{before}{content}\n## [{behind}");
                assert_eq!(extract_version_section(&all, "1.0.0"), alone, "{:?}", all);
            }
        }
    }
}

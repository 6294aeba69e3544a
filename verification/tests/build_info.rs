use herdr::build_info::{
    build_id, channel, channel_from, is_preview, is_preview_from, non_empty, version, version_from,
    BASE_VERSION,
};
use herdr::update::BuildIdentity;

#[test]
fn stable_version_defaults_to_cargo_version() {
    assert!(!version().is_empty());
}

/// The build must report its own identity, exactly.
#[test]
fn the_fork_identity_is_exact() {
    assert_eq!(channel(), "heb");
    assert_eq!(build_id(), Some("1"));
    assert_eq!(
        version(),
        format!("{}{}", BASE_VERSION, "-heb.1"),
        "the fork must report its own identity, never stock"
    );
    assert_ne!(version(), BASE_VERSION);
}

#[test]
fn this_build_is_no_preview() {
    assert!(!is_preview());
}

#[test]
fn a_blank_stamp_is_no_stamp() {
    assert_eq!(non_empty(None), None);
    assert_eq!(non_empty(Some("")), None);
    assert_eq!(non_empty(Some(" \t\n")), None);
    assert_eq!(non_empty(Some("  preview\n")), Some("preview"));
}

#[test]
fn a_build_without_a_stamp_is_stable() {
    assert_eq!(channel_from(None), "stable");
    assert_eq!(channel_from(Some("  ")), "stable");
    assert_eq!(channel_from(Some(" preview ")), "preview");
}

#[test]
fn only_the_channel_preview_is_preview() {
    assert!(is_preview_from(Some(" preview ")));
    assert!(!is_preview_from(Some("previews")));
    assert!(!is_preview_from(Some("heb")));
    assert!(!is_preview_from(None));
}

#[test]
fn the_version_text_names_channel_and_build() {
    assert_eq!(version_from("1.2.3", None, None), "1.2.3");
    assert_eq!(version_from("1.2.3", None, Some("7")), "1.2.3");
    assert_eq!(version_from("1.2.3", Some("stable"), Some("7")), "1.2.3");
    assert_eq!(version_from("1.2.3", Some("preview"), None), "1.2.3-preview");
    assert_eq!(version_from("1.2.3", Some("preview"), Some(" ")), "1.2.3-preview");
    assert_eq!(version_from("1.2.3", Some("preview"), Some("7")), "1.2.3-preview.7");
}

#[test]
fn a_version_text_is_read_back() {
    let identity = BuildIdentity::parse(&version()).expect("the running version is well formed");
    assert_eq!(identity.release, (0, 8, 0));
    assert_eq!(identity.channel.as_deref(), Some("heb"));
    assert_eq!(identity.build.as_deref(), Some("1"));

    let text = version_from("1.22.333", Some("preview"), Some("2026-06-02-abcdef123456"));
    let identity = BuildIdentity::parse(&text).expect("well formed");
    assert_eq!(identity.release, (1, 22, 333));
    assert_eq!(identity.channel.as_deref(), Some("preview"));
    assert_eq!(identity.build.as_deref(), Some("2026-06-02-abcdef123456"));

    let identity = BuildIdentity::parse(&version_from("1.2.3", None, None)).expect("well formed");
    assert_eq!(identity.channel, None);
    assert_eq!(identity.build, None);
}

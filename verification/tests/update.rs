use herdr::update::BuildIdentity;

fn newer(a: &str, b: &str) -> Option<bool> {
    let a = BuildIdentity::parse(a).expect("well formed");
    let b = BuildIdentity::parse(b).expect("well formed");
    a.is_newer_than(&b)
}

#[test]
fn malformed_versions_have_no_identity() {
    for text in [
        "", "1", "1.2", "1.2.", ".2.3", "1.2.3.4", "v1.2.3", "1.2.x", "1.2.3-", "1.2.3-.1",
        "1.2.3-heb.", "1.2.3-he b.1", "1.2.3-heb.1+2", " 1.2.3", "1.2.3 ", "-heb.1",
        "1.2.18446744073709551616",
    ] {
        assert!(BuildIdentity::parse(text).is_none(), "{text:?} must be refused");
    }
}

#[test]
fn numbers_are_read_up_to_their_limit() {
    let identity = BuildIdentity::parse("1.02.18446744073709551615").expect("well formed");
    assert_eq!(identity.release, (1, 2, u64::MAX));
}

#[test]
fn a_channel_may_stand_without_a_build() {
    let identity = BuildIdentity::parse("1.2.3-early-access").expect("well formed");
    assert_eq!(identity.channel.as_deref(), Some("early-access"));
    assert_eq!(identity.build, None);
}

#[test]
fn releases_compare_number_by_number() {
    assert_eq!(newer("0.10.0", "0.9.9"), Some(true));
    assert_eq!(newer("1.0.0", "0.99.99"), Some(true));
    assert_eq!(newer("0.3.1", "0.3.2"), Some(false));
    assert_eq!(newer("0.3.2", "0.3.1"), Some(true));
    assert_eq!(newer("0.9.0-preview.1", "0.8.0"), Some(true));
    assert_eq!(newer("0.8.0", "0.9.0-preview.1"), Some(false));
    assert_eq!(newer("0.9.0-preview.1", "0.8.0-heb.4"), Some(true));
}

#[test]
fn no_build_is_newer_than_itself() {
    for text in ["0.8.0", "0.8.0-heb", "0.8.0-heb.1", "0.8.0-preview.2026-06-02-abc", "0.8.0-x.y.z"] {
        assert_eq!(newer(text, text), Some(false));
    }
}

#[test]
fn build_numbers_compare_by_value() {
    assert_eq!(newer("0.8.0-preview.10", "0.8.0-preview.9"), Some(true));
    assert_eq!(newer("0.8.0-preview.9", "0.8.0-preview.10"), Some(false));
    assert_eq!(newer("0.8.0-preview.010", "0.8.0-preview.10"), Some(false));
}

#[test]
fn dated_builds_compare_by_date() {
    let early = "0.8.0-preview.2026-06-02-abcdef123456";
    assert_eq!(newer("0.8.0-preview.2026-06-09-000000000000", early), Some(true));
    assert_eq!(newer("0.8.0-preview.2026-10-01-000000000000", early), Some(true));
    assert_eq!(newer("0.8.0-preview.2027-01-01-000000000000", early), Some(true));
    assert_eq!(newer("0.8.0-preview.2025-12-31-ffffffffffff", early), Some(false));
}

#[test]
fn builds_without_an_order_are_not_comparable() {
    assert_eq!(newer("0.8.0-preview.2026-06-02-aaa", "0.8.0-preview.2026-06-02-bbb"), None);
    assert_eq!(newer("0.8.0-preview.5", "0.8.0-preview.2026-06-02-bbb"), None);
    assert_eq!(newer("0.8.0-preview.alpha", "0.8.0-preview.beta"), None);
    assert_eq!(newer("0.8.0-preview", "0.8.0-preview.1"), None);
    assert_eq!(newer("0.8.0-preview.1", "0.8.0-preview"), None);
    assert_eq!(newer("0.8.0-preview.9", "0.8.0-heb.1"), None);
    assert_eq!(newer("0.8.0-heb.1", "0.8.0-preview.9"), None);
}

#[test]
fn a_stable_release_is_newer_than_its_prereleases() {
    assert_eq!(newer("0.8.0", "0.8.0-heb.1"), Some(true));
    assert_eq!(newer("0.8.0-heb.1", "0.8.0"), Some(false));
}

/// Asymmetry, symmetry of comparability and transitivity on a set of versions.
#[test]
fn newer_is_an_order() {
    let texts = [
        "0.8.0", "0.8.1", "0.9.0-heb.1", "0.8.0-heb.1", "0.8.0-heb.2", "0.8.0-heb", "0.8.0-preview.3",
        "0.8.0-preview.2026-06-02-a", "0.8.0-preview.2026-06-03-a", "0.8.0-preview.2026-06-03-b",
        "0.8.0-preview.2026-07-01-a", "0.8.0-preview.name",
    ];
    for a in texts {
        for b in texts {
            if newer(a, b) == Some(true) {
                assert_eq!(newer(b, a), Some(false));
            }
            assert_eq!(newer(a, b).is_none(), newer(b, a).is_none());
            for c in texts {
                if newer(a, b) == Some(true) && newer(b, c) == Some(true) {
                    assert_eq!(newer(a, c), Some(true), "{a} {b} {c}");
                }
            }
        }
    }
}

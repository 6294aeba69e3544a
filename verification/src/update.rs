//! The identity of a build, read from its version text, and which of two builds is newer.
//!
//! A version text is `MAJOR.MINOR.PATCH` for a stable release, followed for any other build by
//! `-CHANNEL` or `-CHANNEL.BUILD`. A build id is a number (`0.8.0-heb.1`), a date with the commit
//! that was built (`0.8.0-preview.2026-06-02-abcdef123456`), or a name without an order.

use crate::text;
use vstd::prelude::*;
use vstd::string::*;

verus! {

/// A release number: major, minor, patch.
pub type Release = (u64, u64, u64);

/// What a version text says, over the characters of its parts.
pub struct Identity {
    pub release: Release,
    /// `None` for a stable release.
    pub channel: Option<Seq<char>>,
    pub build: Option<Seq<char>>,
}

/// A decimal digit.
pub open spec fn digit(c: char) -> bool {
    '0' <= c <= '9'
}

/// Nothing but decimal digits.
pub open spec fn all_digits(s: Seq<char>) -> bool {
    forall|i: int| 0 <= i < s.len() ==> digit(#[trigger] s[i])
}

/// The value of a decimal numeral.
pub open spec fn decimal(s: Seq<char>) -> nat
    decreases s.len(),
{
    if s.len() == 0 {
        0
    } else {
        decimal(s.drop_last()) * 10 + (s.last() as nat - '0' as nat) as nat
    }
}

/// The number that `s` writes in decimal, if it is a numeral of at most 64 bits.
pub open spec fn number(s: Seq<char>) -> Option<u64> {
    if s.len() > 0 && all_digits(s) && decimal(s) <= u64::MAX {
        Some(decimal(s) as u64)
    } else {
        None
    }
}

/// A character of a channel's name.
pub open spec fn name_char(c: char) -> bool {
    digit(c) || 'a' <= c <= 'z' || 'A' <= c <= 'Z' || c == '-'
}

/// The name of a channel: letters, digits and hyphens, at least one.
pub open spec fn channel_name(s: Seq<char>) -> bool {
    s.len() > 0 && forall|i: int| 0 <= i < s.len() ==> name_char(#[trigger] s[i])
}

/// A build id: letters, digits, hyphens and dots, at least one.
pub open spec fn build_name(s: Seq<char>) -> bool {
    s.len() > 0 && forall|i: int| 0 <= i < s.len() ==> name_char(#[trigger] s[i]) || s[i] == '.'
}

/// The release that `s` writes as three numbers with dots between them.
pub open spec fn release_of(s: Seq<char>) -> Option<Release> {
    let (major, behind) = text::parted(s, '.');
    match behind {
        Some(rest) => {
            let (minor, patch) = text::parted(rest, '.');
            match (number(major), number(minor), patch) {
                (Some(a), Some(b), Some(p)) => match number(p) {
                    Some(c) => Some((a, b, c)),
                    None => None,
                },
                _ => None,
            }
        },
        None => None,
    }
}

/// What the version text `s` says; nothing, if it is malformed.
pub open spec fn identity_of(s: Seq<char>) -> Option<Identity> {
    let (base, suffix) = text::parted(s, '-');
    match (release_of(base), suffix) {
        (None, _) => None,
        (Some(release), None) => Some(Identity { release, channel: None, build: None }),
        (Some(release), Some(rest)) => {
            let (channel, build) = text::parted(rest, '.');
            if !channel_name(channel) {
                None
            } else {
                match build {
                    None => Some(Identity { release, channel: Some(channel), build: None }),
                    Some(id) => if build_name(id) {
                        Some(Identity { release, channel: Some(channel), build: Some(id) })
                    } else {
                        None
                    },
                }
            }
        },
    }
}

/// Whether the triple `a` comes after `b`, the first number weighing most.
pub open spec fn after(a: (u64, u64, u64), b: (u64, u64, u64)) -> bool {
    a.0 > b.0 || (a.0 == b.0 && (a.1 > b.1 || (a.1 == b.1 && a.2 > b.2)))
}

/// The year, month and day with which a build id of the form `YYYY-MM-DD-COMMIT` begins.
pub open spec fn date_of(id: Seq<char>) -> Option<(u64, u64, u64)> {
    if id.len() > 11 && id[4] == '-' && id[7] == '-' && id[10] == '-' {
        match (number(id.subrange(0, 4)), number(id.subrange(5, 7)), number(id.subrange(8, 10))) {
            (Some(year), Some(month), Some(day)) => Some((year, month, day)),
            _ => None,
        }
    } else {
        None
    }
}

/// Whether the build id `a` is newer than `b`, both of one channel at one release. Numbers go by
/// their value and dated ids by their date. There is no order between two builds of one day, nor
/// between any other ids that differ.
pub open spec fn newer_id(a: Seq<char>, b: Seq<char>) -> Option<bool> {
    if a == b {
        Some(false)
    } else {
        match (number(a), number(b)) {
            (Some(m), Some(n)) => Some(m > n),
            _ => match (date_of(a), date_of(b)) {
                (Some(d), Some(e)) => if d == e {
                    None
                } else {
                    Some(after(d, e))
                },
                _ => None,
            },
        }
    }
}

/// Whether a build is newer than another; nothing, where the two cannot be compared.
///
/// A later release is newer whatever the channels. At one release the stable build is newer than
/// every other; two other builds compare within one channel only, by their build ids.
pub open spec fn newer(a: Identity, b: Identity) -> Option<bool> {
    if a.release != b.release {
        Some(after(a.release, b.release))
    } else {
        match (a.channel, b.channel) {
            (None, None) => Some(false),
            (None, Some(_)) => Some(true),
            (Some(_), None) => Some(false),
            (Some(x), Some(y)) => if x != y {
                None
            } else {
                match (a.build, b.build) {
                    (Some(i), Some(j)) => newer_id(i, j),
                    (None, None) => Some(false),
                    _ => None,
                }
            },
        }
    }
}

/// The contents of an optional string.
pub open spec fn optional(s: Option<String>) -> Option<Seq<char>> {
    match s {
        Some(t) => Some(t@),
        None => None,
    }
}

/// The identity of a build.
#[derive(Debug, PartialEq, Eq)]
pub struct BuildIdentity {
    pub release: Release,
    /// `None` for a stable release.
    pub channel: Option<String>,
    pub build: Option<String>,
}

impl View for BuildIdentity {
    type V = Identity;

    open spec fn view(&self) -> Identity {
        Identity {
            release: self.release,
            channel: optional(self.channel),
            build: optional(self.build),
        }
    }
}

/// The beginning of a numeral is worth no more than the whole.
proof fn lemma_decimal_prefix(s: Seq<char>, n: int)
    requires
        0 <= n <= s.len(),
        all_digits(s),
    ensures
        decimal(s.take(n)) <= decimal(s),
    decreases s.len() - n,
{
    if n == s.len() {
        assert(s.take(n) == s);
    } else {
        lemma_decimal_prefix(s, n + 1);
        assert(s.take(n + 1).drop_last() == s.take(n));
    }
}

/// Reads a decimal numeral.
fn parse_number(s: &str) -> (n: Option<u64>)
    ensures
        n == number(s@),
{
    let chars = text::to_chars(s);
    if chars.len() == 0 {
        return None;
    }
    let mut value: u64 = 0;
    let mut i: usize = 0;
    while i < chars.len()
        invariant
            i <= chars.len(),
            chars@ == s@,
            value == decimal(s@.take(i as int)),
            forall|j: int| 0 <= j < i ==> digit(#[trigger] s@[j]),
        decreases chars.len() - i,
    {
        let c: char = chars[i];
        if !('0' <= c && c <= '9') {
            return None;
        }
        let weight: u64 = c as u64 - '0' as u64;
        proof {
            assert(s@.take(i + 1).drop_last() == s@.take(i as int));
            if all_digits(s@) {
                lemma_decimal_prefix(s@, i + 1);
            }
        }
        if value > (u64::MAX - weight) / 10 {
            return None;
        }
        value = value * 10 + weight;
        i = i + 1;
    }
    assert(s@.take(i as int) == s@);
    Some(value)
}

/// Reads a release number.
fn parse_release(s: &str) -> (release: Option<Release>)
    ensures
        release == release_of(s@),
{
    let (major, behind) = text::part(s, '.');
    match behind {
        Some(rest) => {
            let (minor, patch) = text::part(rest, '.');
            match (parse_number(major), parse_number(minor), patch) {
                (Some(a), Some(b), Some(p)) => match parse_number(p) {
                    Some(c) => Some((a, b, c)),
                    None => None,
                },
                _ => None,
            }
        },
        None => None,
    }
}

/// Whether `s` is at least one letter, digit or hyphen, dots allowed among them if `dots` says so.
fn is_name(s: &str, dots: bool) -> (yes: bool)
    ensures
        yes == if dots {
            build_name(s@)
        } else {
            channel_name(s@)
        },
{
    let chars = text::to_chars(s);
    let mut i: usize = 0;
    while i < chars.len()
        invariant
            i <= chars.len(),
            chars@ == s@,
            forall|j: int| 0 <= j < i ==> name_char(#[trigger] s@[j]) || (dots && s@[j] == '.'),
        decreases chars.len() - i,
    {
        let c: char = chars[i];
        let named: bool = ('0' <= c && c <= '9') || ('a' <= c && c <= 'z') || ('A' <= c && c <= 'Z')
            || c == '-';
        if !named && !(dots && c == '.') {
            return false;
        }
        i = i + 1;
    }
    chars.len() > 0
}

/// Reads the date with which a build id begins.
fn parse_date(id: &str) -> (date: Option<(u64, u64, u64)>)
    ensures
        date == date_of(id@),
{
    let chars = text::to_chars(id);
    if chars.len() > 11 && chars[4] == '-' && chars[7] == '-' && chars[10] == '-' {
        match (
            parse_number(id.substring_char(0, 4)),
            parse_number(id.substring_char(5, 7)),
            parse_number(id.substring_char(8, 10)),
        ) {
            (Some(year), Some(month), Some(day)) => Some((year, month, day)),
            _ => None,
        }
    } else {
        None
    }
}

/// Whether the triple `a` comes after `b`, the first number weighing most.
fn is_after(a: (u64, u64, u64), b: (u64, u64, u64)) -> (yes: bool)
    ensures
        yes == after(a, b),
{
    a.0 > b.0 || (a.0 == b.0 && (a.1 > b.1 || (a.1 == b.1 && a.2 > b.2)))
}

/// Whether the build id `a` is newer than `b`.
fn is_newer_id(a: &str, b: &str) -> (yes: Option<bool>)
    ensures
        yes == newer_id(a@, b@),
{
    if text::same(a, b) {
        return Some(false);
    }
    match (parse_number(a), parse_number(b)) {
        (Some(m), Some(n)) => Some(m > n),
        _ => match (parse_date(a), parse_date(b)) {
            (Some(d), Some(e)) => if d.0 == e.0 && d.1 == e.1 && d.2 == e.2 {
                None
            } else {
                Some(is_after(d, e))
            },
            _ => None,
        },
    }
}

impl BuildIdentity {
    /// Reads a version text. A malformed one has no identity.
    pub fn parse(version: &str) -> (identity: Option<BuildIdentity>)
        ensures
            match identity {
                Some(b) => identity_of(version@) == Some(b@),
                None => identity_of(version@) is None,
            },
    {
        let (base, suffix) = text::part(version, '-');
        let release: Release = match parse_release(base) {
            Some(release) => release,
            None => return None,
        };
        let rest: &str = match suffix {
            Some(rest) => rest,
            None => return Some(BuildIdentity { release, channel: None, build: None }),
        };
        let (channel, build) = text::part(rest, '.');
        if !is_name(channel, false) {
            return None;
        }
        match build {
            None => Some(BuildIdentity { release, channel: Some(channel.to_string()), build: None }),
            Some(id) => if is_name(id, true) {
                Some(
                    BuildIdentity {
                        release,
                        channel: Some(channel.to_string()),
                        build: Some(id.to_string()),
                    },
                )
            } else {
                None
            },
        }
    }

    /// Whether this build is newer than `other`. `None` says that the two cannot be compared.
    pub fn is_newer_than(&self, other: &BuildIdentity) -> (yes: Option<bool>)
        ensures
            yes == newer(self@, other@),
    {
        let a: Release = self.release;
        let b: Release = other.release;
        if a.0 != b.0 || a.1 != b.1 || a.2 != b.2 {
            return Some(is_after(a, b));
        }
        match (&self.channel, &other.channel) {
            (None, None) => Some(false),
            (None, Some(_)) => Some(true),
            (Some(_), None) => Some(false),
            (Some(x), Some(y)) => if !text::same(x.as_str(), y.as_str()) {
                None
            } else {
                match (&self.build, &other.build) {
                    (Some(i), Some(j)) => is_newer_id(i.as_str(), j.as_str()),
                    (None, None) => Some(false),
                    _ => None,
                }
            },
        }
    }
}

/// No build is newer than itself.
pub proof fn newer_is_irreflexive(a: Identity)
    ensures
        newer(a, a) == Some(false),
{
}

/// Of two builds at most one is newer than the other.
pub proof fn newer_is_asymmetric(a: Identity, b: Identity)
    requires
        newer(a, b) == Some(true),
    ensures
        newer(b, a) == Some(false),
{
}

/// Whether two builds can be compared does not depend on which of them is asked.
pub proof fn comparable_is_symmetric(a: Identity, b: Identity)
    ensures
        newer(a, b) is None <==> newer(b, a) is None,
{
}

/// A build that is newer than a newer build is newer.
pub proof fn newer_is_transitive(a: Identity, b: Identity, c: Identity)
    requires
        newer(a, b) == Some(true),
        newer(b, c) == Some(true),
    ensures
        newer(a, c) == Some(true),
{
}

/// A stable release is newer than any pre-release of the same version.
pub proof fn stable_is_newer_than_its_prereleases(stable: Identity, other: Identity)
    requires
        stable.release == other.release,
        stable.channel is None,
        other.channel is Some,
    ensures
        newer(stable, other) == Some(true),
        newer(other, stable) == Some(false),
{
}

/// At one release, builds of different channels have no order.
pub proof fn channels_of_one_release_are_not_comparable(a: Identity, b: Identity)
    requires
        a.release == b.release,
        a.channel is Some,
        b.channel is Some,
        a.channel != b.channel,
    ensures
        newer(a, b) is None,
        newer(b, a) is None,
{
}

/// A later release is newer, and an earlier one is not, whatever the channels.
pub proof fn release_decides_first(a: Identity, b: Identity)
    requires
        a.release != b.release,
    ensures
        newer(a, b) == Some(after(a.release, b.release)),
        after(a.release, b.release) != after(b.release, a.release),
{
}

} // verus!

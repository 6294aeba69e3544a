//! Which build this is: its version, its channel and its build id.

use crate::text;
use crate::text_laws;
use crate::update;
use vstd::prelude::*;
use vstd::string::*;

verus! {

/// The release that this build is made from.
pub const BASE_VERSION: &'static str = "0.8.0";

/// The channel with which this build is stamped.
pub const BUILD_CHANNEL: &'static str = "heb";

/// The build id with which this build is stamped.
pub const BUILD_ID: &'static str = "1";

/// What an optional text holds.
pub open spec fn held(value: Option<&str>) -> Option<Seq<char>> {
    match value {
        Some(s) => Some(s@),
        None => None,
    }
}

/// A stamp without the white space around it; a blank stamp is no stamp.
pub open spec fn stamp_of(value: Option<Seq<char>>) -> Option<Seq<char>> {
    match value {
        Some(s) => if text::trimmed(s).len() == 0 {
            None
        } else {
            Some(text::trimmed(s))
        },
        None => None,
    }
}

/// The channel that a stamp names: `stable` without one.
pub open spec fn channel_of(stamp: Option<Seq<char>>) -> Seq<char> {
    match stamp_of(stamp) {
        Some(c) => c,
        None => "stable"@,
    }
}

/// The version text of a build: the release alone on the channel `stable`, and otherwise the
/// release, the channel and, where there is one, the build id.
pub open spec fn version_of(
    base: Seq<char>,
    channel: Seq<char>,
    build_id: Option<Seq<char>>,
) -> Seq<char> {
    if channel == "stable"@ {
        base
    } else {
        match build_id {
            Some(id) => base + "-"@ + channel + "."@ + id,
            None => base + "-"@ + channel,
        }
    }
}

/// The version text of this build.
pub open spec fn running_version() -> Seq<char> {
    version_of(BASE_VERSION@, channel_of(Some(BUILD_CHANNEL@)), stamp_of(Some(BUILD_ID@)))
}

/// The stamp without the white space around it, if it is not blank.
pub fn non_empty<'a>(value: Option<&'a str>) -> (stamp: Option<&'a str>)
    ensures
        held(stamp) == stamp_of(held(value)),
{
    match value {
        Some(s) => {
            let inner: &'a str = text::trim(s);
            if inner.is_empty() {
                None
            } else {
                Some(inner)
            }
        },
        None => None,
    }
}

/// The channel of a build with the given stamp.
pub fn channel_from<'a>(stamp: Option<&'a str>) -> (channel: &'a str)
    ensures
        channel@ == channel_of(held(stamp)),
{
    match non_empty(stamp) {
        Some(c) => c,
        None => "stable",
    }
}

/// The version text of a build of the release `base` with the given stamps.
pub fn version_from(base: &str, channel: Option<&str>, build_id: Option<&str>) -> (version: String)
    ensures
        version@ == version_of(base@, channel_of(held(channel)), stamp_of(held(build_id))),
{
    let channel: &str = channel_from(channel);
    let mut version: String = base.to_string();
    if text::same(channel, "stable") {
        return version;
    }
    version.append("-");
    version.append(channel);
    match non_empty(build_id) {
        Some(id) => {
            version.append(".");
            version.append(id);
        },
        None => {},
    }
    version
}

/// The channel of this build.
pub fn channel() -> (channel: &'static str)
    ensures
        channel@ == channel_of(Some(BUILD_CHANNEL@)),
        channel@ == "heb"@,
{
    proof {
        reveal_strlit("heb");
        text_laws::lemma_trimmed_keeps("heb"@);
    }
    channel_from(Some(BUILD_CHANNEL))
}

/// The build id of this build.
pub fn build_id() -> (id: Option<&'static str>)
    ensures
        held(id) == stamp_of(Some(BUILD_ID@)),
        held(id) == Some("1"@),
{
    proof {
        reveal_strlit("1");
        text_laws::lemma_trimmed_keeps("1"@);
    }
    non_empty(Some(BUILD_ID))
}

/// The version text of this build.
pub fn version() -> (version: String)
    ensures
        version@ == running_version(),
        version@ == BASE_VERSION@ + "-heb.1"@,
{
    proof {
        reveal_strlit("heb");
        reveal_strlit("1");
        reveal_strlit("stable");
        reveal_strlit("-");
        reveal_strlit(".");
        reveal_strlit("-heb.1");
        text_laws::lemma_trimmed_keeps("heb"@);
        text_laws::lemma_trimmed_keeps("1"@);
    }
    version_from(BASE_VERSION, Some(BUILD_CHANNEL), Some(BUILD_ID))
}

/// Whether a build with the given stamp is of the channel `preview`.
pub fn is_preview_from(stamp: Option<&str>) -> (yes: bool)
    ensures
        yes == (channel_of(held(stamp)) == "preview"@),
{
    text::same(channel_from(stamp), "preview")
}

/// Whether this build is of the channel `preview`.
pub fn is_preview() -> (yes: bool)
    ensures
        yes == (channel_of(Some(BUILD_CHANNEL@)) == "preview"@),
{
    is_preview_from(Some(BUILD_CHANNEL))
}

/// A release number holds no hyphen.
pub proof fn lemma_release_holds_no_hyphen(s: Seq<char>)
    requires
        update::release_of(s) is Some,
    ensures
        forall|i: int| 0 <= i < s.len() ==> s[i] != '-',
{
    let k = text::until(s, '.') as int;
    text_laws::lemma_until(s, '.');
    let rest = s.skip(k + 1);
    let m = text::until(rest, '.') as int;
    text_laws::lemma_until(rest, '.');
    assert forall|i: int| 0 <= i < s.len() implies s[i] != '-' by {
        if i < k {
            assert(update::digit(s.take(k)[i]));
        } else if k < i < k + 1 + m {
            assert(update::digit(rest.take(m)[i - k - 1]));
        } else if i > k + 1 + m {
            assert(update::digit(rest.skip(m + 1)[i - k - 1 - m - 1]));
        }
    }
}

/// The version text of a stable build says its release.
pub proof fn stable_version_is_read_back(base: Seq<char>, build_id: Option<Seq<char>>)
    requires
        update::release_of(base) is Some,
    ensures
        update::identity_of(version_of(base, "stable"@, build_id)) == Some(
            update::Identity {
                release: update::release_of(base).unwrap(),
                channel: None,
                build: None,
            },
        ),
{
    lemma_release_holds_no_hyphen(base);
    text_laws::lemma_parted_without_mark(base, '-');
}

/// The version text of any other build says its release, its channel and its build id.
pub proof fn stamped_version_is_read_back(
    base: Seq<char>,
    channel: Seq<char>,
    build_id: Option<Seq<char>>,
)
    requires
        update::release_of(base) is Some,
        update::channel_name(channel),
        channel != "stable"@,
        build_id matches Some(id) ==> update::build_name(id),
    ensures
        update::identity_of(version_of(base, channel, build_id)) == Some(
            update::Identity {
                release: update::release_of(base).unwrap(),
                channel: Some(channel),
                build: build_id,
            },
        ),
{
    reveal_strlit("-");
    reveal_strlit(".");
    lemma_release_holds_no_hyphen(base);
    assert forall|i: int| 0 <= i < channel.len() implies channel[i] != '.' by {
    }
    match build_id {
        Some(id) => {
            let rest = channel.push('.') + id;
            assert(base + "-"@ + channel + "."@ + id == base.push('-') + rest);
            text_laws::lemma_parted_at_mark(base, '-', rest);
            text_laws::lemma_parted_at_mark(channel, '.', id);
        },
        None => {
            assert(base + "-"@ + channel == base.push('-') + channel);
            text_laws::lemma_parted_at_mark(base, '-', channel);
            text_laws::lemma_parted_without_mark(channel, '.');
        },
    }
}

/// A stamp is the value that was given, whole, but for the white space around it. A value of white
/// space alone, or none, is no stamp.
pub proof fn stamps_are_kept_whole(left: Seq<char>, stamp: Seq<char>, right: Seq<char>)
    requires
        forall|i: int| 0 <= i < left.len() ==> text::white_space(#[trigger] left[i]),
        forall|i: int| 0 <= i < right.len() ==> text::white_space(#[trigger] right[i]),
        stamp.len() > 0 ==> !text::white_space(stamp[0]) && !text::white_space(stamp.last()),
    ensures
        stamp.len() > 0 ==> stamp_of(Some(left + stamp + right)) == Some(stamp),
        stamp.len() > 0 ==> stamp_of(Some(stamp)) == Some(stamp),
        stamp.len() == 0 ==> stamp_of(Some(left + stamp + right)) is None,
        stamp_of(None) is None,
{
    text_laws::trimming_leaves_what_white_space_surrounds(left, stamp, right);
    text_laws::lemma_trimmed_keeps(stamp);
}

/// A stamp is a stretch of the value that was given. It begins and ends in a visible character and
/// has every visible character of the value.
pub proof fn stamps_are_stretches_of_their_values(value: Seq<char>)
    ensures
        stamp_of(Some(value)) matches Some(stamp) ==> stamp.len() > 0 && !text::white_space(
            stamp[0],
        ) && !text::white_space(stamp.last()) && text_laws::visible(stamp) == text_laws::visible(
            value,
        ) && exists|from: int, to: int|
            0 <= from <= to <= value.len() && stamp == #[trigger] value.subrange(from, to),
        stamp_of(Some(value)) is None ==> text_laws::visible(value).len() == 0,
{
    text_laws::lemma_trimmed(value);
    text_laws::lemma_visible_empty(text::trimmed(value));
}

/// A build is of the channel with which it is stamped; without a stamp, or with a blank one, it is
/// of the channel `stable`.
pub proof fn channels_are_named_by_their_stamp(
    left: Seq<char>,
    stamp: Seq<char>,
    right: Seq<char>,
)
    requires
        forall|i: int| 0 <= i < left.len() ==> text::white_space(#[trigger] left[i]),
        forall|i: int| 0 <= i < right.len() ==> text::white_space(#[trigger] right[i]),
        stamp.len() > 0 ==> !text::white_space(stamp[0]) && !text::white_space(stamp.last()),
    ensures
        stamp.len() > 0 ==> channel_of(Some(left + stamp + right)) == stamp,
        stamp.len() == 0 ==> channel_of(Some(left + stamp + right)) == seq![
            's',
            't',
            'a',
            'b',
            'l',
            'e',
        ],
        channel_of(None) == seq!['s', 't', 'a', 'b', 'l', 'e'],
{
    stamps_are_kept_whole(left, stamp, right);
    reveal_strlit("stable");
}

/// The version text of a build begins with its release. On the channel `stable` that is all; on
/// every other the channel follows behind a hyphen and the build id, where there is one, behind a
/// dot.
pub proof fn versions_name_release_channel_and_build(
    base: Seq<char>,
    channel: Seq<char>,
    id: Seq<char>,
)
    requires
        channel != seq!['s', 't', 'a', 'b', 'l', 'e'],
    ensures
        version_of(base, seq!['s', 't', 'a', 'b', 'l', 'e'], Some(id)) == base,
        version_of(base, seq!['s', 't', 'a', 'b', 'l', 'e'], None) == base,
        version_of(base, channel, None) == base.push('-') + channel,
        version_of(base, channel, Some(id)) == base.push('-') + (channel.push('.') + id),
{
    reveal_strlit("stable");
    reveal_strlit("-");
    reveal_strlit(".");
    assert("stable"@ == seq!['s', 't', 'a', 'b', 'l', 'e']);
    assert(base + "-"@ + channel == base.push('-') + channel);
    assert(base + "-"@ + channel + "."@ + id == base.push('-') + (channel.push('.') + id));
}

/// What an optional text holds is the text.
pub proof fn texts_hold_their_characters(value: &str)
    ensures
        held(Some(value)) == Some(value@),
        held(None) is None,
{
}

} // verus!

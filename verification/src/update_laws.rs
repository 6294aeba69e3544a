//! What version texts say, character by character, and how the builds that they name compare.

use crate::build_info;
use crate::text;
use crate::text_laws;
use crate::update;
use vstd::prelude::*;

verus! {

/// A digit behind a numeral makes it worth ten times as much and the digit more.
pub proof fn digits_have_decimal_weight(s: Seq<char>, c: char)
    requires
        '0' <= c <= '9',
    ensures
        update::decimal(Seq::empty()) == 0,
        update::decimal(s.push(c)) == 10 * update::decimal(s) + (c as int - '0' as int),
{
    assert(s.push(c).drop_last() == s);
}

/// Two digits write less than a hundred, and four less than ten thousand.
proof fn lemma_decimal_bound(s: Seq<char>)
    requires
        update::all_digits(s),
    ensures
        s.len() <= 2 ==> update::decimal(s) < 100,
        s.len() <= 4 ==> update::decimal(s) < 10000,
{
    reveal_with_fuel(update::decimal, 5);
    if s.len() <= 4 {
        assert forall|i: int| 0 <= i < s.len() implies '0' <= #[trigger] s[i] <= '9' by {
            assert(update::digit(s[i]));
        }
    }
}

/// A number is read from its digits, as far as it fits in 64 bits, and from nothing else.
pub proof fn numbers_are_written_in_digits(s: Seq<char>)
    ensures
        s.len() > 0 && (forall|i: int| 0 <= i < s.len() ==> '0' <= #[trigger] s[i] <= '9')
            && update::decimal(s) <= u64::MAX ==> update::number(s) == Some(
            update::decimal(s) as u64,
        ),
        update::number(s) is Some ==> s.len() > 0 && (forall|i: int|
            0 <= i < s.len() ==> '0' <= #[trigger] s[i] <= '9') && update::decimal(s) <= u64::MAX,
{
}

/// Three numbers with dots between them are a release.
pub proof fn releases_are_three_numbers(a: Seq<char>, b: Seq<char>, c: Seq<char>)
    requires
        update::number(a) is Some,
        update::number(b) is Some,
        update::number(c) is Some,
    ensures
        update::release_of(a.push('.') + (b.push('.') + c)) == Some(
            (
                update::number(a).unwrap(),
                update::number(b).unwrap(),
                update::number(c).unwrap(),
            ),
        ),
{
    numbers_are_written_in_digits(a);
    numbers_are_written_in_digits(b);
    text_laws::lemma_parted_at_mark(a, '.', b.push('.') + c);
    text_laws::lemma_parted_at_mark(b, '.', c);
}

/// Nothing else is a release.
pub proof fn only_three_numbers_are_a_release(s: Seq<char>)
    requires
        update::release_of(s) is Some,
    ensures
        exists|a: Seq<char>, b: Seq<char>, c: Seq<char>|
            s == #[trigger] (a.push('.') + (b.push('.') + c)) && update::number(a) is Some
                && update::number(b) is Some && update::number(c) is Some,
{
    let k = text::until(s, '.') as int;
    text_laws::lemma_until(s, '.');
    let rest = s.skip(k + 1);
    let m = text::until(rest, '.') as int;
    text_laws::lemma_until(rest, '.');
    let (a, b, c) = (s.take(k), rest.take(m), rest.skip(m + 1));
    assert(rest == b.push('.') + c);
    assert(s == a.push('.') + (b.push('.') + c));
}

/// A release alone is a stable build. Behind a release and a hyphen, letters, digits and hyphens
/// name a channel; behind that and a dot, letters, digits, hyphens and dots are a build id.
pub proof fn versions_are_read(base: Seq<char>, channel: Seq<char>, id: Seq<char>)
    requires
        update::release_of(base) is Some,
        channel.len() > 0,
        forall|i: int|
            0 <= i < channel.len() ==> ('0' <= #[trigger] channel[i] <= '9' || 'a' <= channel[i]
                <= 'z' || 'A' <= channel[i] <= 'Z' || channel[i] == '-'),
        id.len() > 0,
        forall|i: int|
            0 <= i < id.len() ==> ('0' <= #[trigger] id[i] <= '9' || 'a' <= id[i] <= 'z' || 'A'
                <= id[i] <= 'Z' || id[i] == '-' || id[i] == '.'),
    ensures
        update::identity_of(base) == Some(
            (update::Identity {
                release: update::release_of(base).unwrap(),
                channel: None,
                build: None,
            }),
        ),
        update::identity_of(base.push('-') + channel) == Some(
            (update::Identity {
                release: update::release_of(base).unwrap(),
                channel: Some(channel),
                build: None,
            }),
        ),
        update::identity_of(base.push('-') + (channel.push('.') + id)) == Some(
            (update::Identity {
                release: update::release_of(base).unwrap(),
                channel: Some(channel),
                build: Some(id),
            }),
        ),
{
    build_info::lemma_release_holds_no_hyphen(base);
    text_laws::lemma_parted_without_mark(base, '-');
    text_laws::lemma_parted_at_mark(base, '-', channel);
    text_laws::lemma_parted_without_mark(channel, '.');
    text_laws::lemma_parted_at_mark(base, '-', channel.push('.') + id);
    text_laws::lemma_parted_at_mark(channel, '.', id);
}

/// Whatever is read of a version text stands in it, and nothing else does: the text is the
/// release, the channel behind a hyphen and the build id behind a dot, as far as they are there.
pub proof fn versions_hold_what_is_read(s: Seq<char>)
    requires
        update::identity_of(s) is Some,
    ensures
        ({
            let read = update::identity_of(s).unwrap();
            exists|base: Seq<char>| #[trigger]
                update::release_of(base) == Some(read.release) && match (read.channel, read.build) {
                    (None, None) => s == base,
                    (None, Some(_)) => false,
                    (Some(channel), None) => s == base.push('-') + channel,
                    (Some(channel), Some(id)) => s == base.push('-') + (channel.push('.') + id),
                }
        }),
        update::identity_of(s).unwrap().channel matches Some(channel) ==> channel.len() > 0 && (
        forall|i: int|
            0 <= i < channel.len() ==> ('0' <= #[trigger] channel[i] <= '9' || 'a' <= channel[i]
                <= 'z' || 'A' <= channel[i] <= 'Z' || channel[i] == '-')),
        update::identity_of(s).unwrap().build matches Some(id) ==> id.len() > 0 && (forall|i: int|
            0 <= i < id.len() ==> ('0' <= #[trigger] id[i] <= '9' || 'a' <= id[i] <= 'z' || 'A'
                <= id[i] <= 'Z' || id[i] == '-' || id[i] == '.')),
{
    let read = update::identity_of(s).unwrap();
    let (base, suffix) = text::parted(s, '-');
    text_laws::lemma_until(s, '-');
    assert(update::release_of(base) == Some(read.release));
    if suffix is Some {
        let rest = suffix.unwrap();
        assert(s == base.push('-') + rest);
        let (channel, build) = text::parted(rest, '.');
        text_laws::lemma_until(rest, '.');
        assert forall|i: int| 0 <= i < channel.len() implies ('0' <= #[trigger] channel[i] <= '9'
            || 'a' <= channel[i] <= 'z' || 'A' <= channel[i] <= 'Z' || channel[i] == '-') by {
            assert(update::name_char(channel[i]));
        }
        if build is Some {
            let id = build.unwrap();
            assert(rest == channel.push('.') + id);
            assert forall|i: int| 0 <= i < id.len() implies ('0' <= #[trigger] id[i] <= '9' || 'a'
                <= id[i] <= 'z' || 'A' <= id[i] <= 'Z' || id[i] == '-' || id[i] == '.') by {
                assert(update::name_char(id[i]) || id[i] == '.');
            }
        }
    }
}

/// Of two numbered builds the one with the greater number is newer.
pub proof fn numbered_builds_go_by_their_number(a: Seq<char>, b: Seq<char>)
    requires
        a.len() > 0,
        b.len() > 0,
        forall|i: int| 0 <= i < a.len() ==> '0' <= #[trigger] a[i] <= '9',
        forall|i: int| 0 <= i < b.len() ==> '0' <= #[trigger] b[i] <= '9',
        update::decimal(a) <= u64::MAX,
        update::decimal(b) <= u64::MAX,
    ensures
        update::newer_id(a, b) == Some(update::decimal(a) > update::decimal(b)),
{
    numbers_are_written_in_digits(a);
    numbers_are_written_in_digits(b);
}

/// A build id of four, two and two digits and anything else, with hyphens between them, has the
/// date that the digits write.
proof fn lemma_date(year: Seq<char>, month: Seq<char>, day: Seq<char>, commit: Seq<char>)
    requires
        year.len() == 4,
        month.len() == 2,
        day.len() == 2,
        commit.len() > 0,
        update::all_digits(year),
        update::all_digits(month),
        update::all_digits(day),
    ensures
        ({
            let id = year.push('-') + (month.push('-') + (day.push('-') + commit));
            update::number(id) is None && update::date_of(id) == Some(
                (
                    update::decimal(year) as u64,
                    update::decimal(month) as u64,
                    update::decimal(day) as u64,
                ),
            )
        }),
        update::decimal(year) <= u64::MAX,
        update::decimal(month) <= u64::MAX,
        update::decimal(day) <= u64::MAX,
{
    let id = year.push('-') + (month.push('-') + (day.push('-') + commit));
    lemma_decimal_bound(year);
    lemma_decimal_bound(month);
    lemma_decimal_bound(day);
    assert(id.subrange(0, 4) == year);
    assert(id.subrange(5, 7) == month);
    assert(id.subrange(8, 10) == day);
    assert(!update::digit(id[4]));
}

/// Of two dated builds the one with the later date is newer, whatever the commits; two builds of
/// one day have no order, unless they are the same.
pub proof fn dated_builds_go_by_their_date(
    a: (Seq<char>, Seq<char>, Seq<char>, Seq<char>),
    b: (Seq<char>, Seq<char>, Seq<char>, Seq<char>),
)
    requires
        a.0.len() == 4 && a.1.len() == 2 && a.2.len() == 2 && a.3.len() > 0,
        b.0.len() == 4 && b.1.len() == 2 && b.2.len() == 2 && b.3.len() > 0,
        forall|i: int| 0 <= i < 4 ==> '0' <= #[trigger] a.0[i] <= '9',
        forall|i: int| 0 <= i < 2 ==> '0' <= #[trigger] a.1[i] <= '9',
        forall|i: int| 0 <= i < 2 ==> '0' <= #[trigger] a.2[i] <= '9',
        forall|i: int| 0 <= i < 4 ==> '0' <= #[trigger] b.0[i] <= '9',
        forall|i: int| 0 <= i < 2 ==> '0' <= #[trigger] b.1[i] <= '9',
        forall|i: int| 0 <= i < 2 ==> '0' <= #[trigger] b.2[i] <= '9',
    ensures
        ({
            let first = a.0.push('-') + (a.1.push('-') + (a.2.push('-') + a.3));
            let second = b.0.push('-') + (b.1.push('-') + (b.2.push('-') + b.3));
            let (y, m, d) = (update::decimal(a.0), update::decimal(a.1), update::decimal(a.2));
            let (v, n, e) = (update::decimal(b.0), update::decimal(b.1), update::decimal(b.2));
            &&& y > v ==> update::newer_id(first, second) == Some(true)
            &&& y < v ==> update::newer_id(first, second) == Some(false)
            &&& y == v && m > n ==> update::newer_id(first, second) == Some(true)
            &&& y == v && m < n ==> update::newer_id(first, second) == Some(false)
            &&& y == v && m == n && d > e ==> update::newer_id(first, second) == Some(true)
            &&& y == v && m == n && d < e ==> update::newer_id(first, second) == Some(false)
            &&& y == v && m == n && d == e && first != second ==> update::newer_id(
                first,
                second,
            ) is None
        }),
{
    lemma_date(a.0, a.1, a.2, a.3);
    lemma_date(b.0, b.1, b.2, b.3);
    let first = a.0.push('-') + (a.1.push('-') + (a.2.push('-') + a.3));
    let second = b.0.push('-') + (b.1.push('-') + (b.2.push('-') + b.3));
    assert(first == second ==> update::date_of(first) == update::date_of(second));
}

/// Build ids that differ compare only if both are numbers or both begin with a date.
pub proof fn other_builds_have_no_order(a: Seq<char>, b: Seq<char>)
    requires
        a != b,
        update::newer_id(a, b) is Some,
    ensures
        update::number(a) is Some && update::number(b) is Some || forall|i: int|
            0 <= i < 11 ==> if i == 4 || i == 7 || i == 10 {
                a[i] == '-' && #[trigger] b[i] == '-'
            } else {
                '0' <= #[trigger] a[i] <= '9' && '0' <= b[i] <= '9'
            },
        update::number(a) is Some && update::number(b) is Some || a.len() > 11 && b.len() > 11,
{
    if !(update::number(a) is Some && update::number(b) is Some) {
        lemma_date_is_digits(a);
        lemma_date_is_digits(b);
    }
}

/// A date stands in digits and hyphens.
proof fn lemma_date_is_digits(id: Seq<char>)
    requires
        update::date_of(id) is Some,
    ensures
        id.len() > 11,
        forall|i: int|
            0 <= i < 11 ==> if i == 4 || i == 7 || i == 10 {
                #[trigger] id[i] == '-'
            } else {
                '0' <= id[i] <= '9'
            },
{
    assert forall|i: int| 0 <= i < 11 implies if i == 4 || i == 7 || i == 10 {
        #[trigger] id[i] == '-'
    } else {
        '0' <= id[i] <= '9'
    } by {
        if 0 <= i < 4 {
            assert(update::digit(id.subrange(0, 4)[i]));
        } else if 5 <= i < 7 {
            assert(update::digit(id.subrange(5, 7)[i - 5]));
        } else if 8 <= i < 10 {
            assert(update::digit(id.subrange(8, 10)[i - 8]));
        }
    }
}

/// The same build id is not newer than itself.
pub proof fn a_build_is_as_new_as_itself(id: Seq<char>)
    ensures
        update::newer_id(id, id) == Some(false),
{
}

/// A build of a later release is newer and one of an earlier release is not, whatever their
/// channels and build ids. The major number decides first, then the minor, then the patch.
pub proof fn later_releases_are_newer(a: update::Identity, b: update::Identity)
    ensures
        a.release.0 > b.release.0 ==> update::newer(a, b) == Some(true),
        a.release.0 < b.release.0 ==> update::newer(a, b) == Some(false),
        a.release.0 == b.release.0 && a.release.1 > b.release.1 ==> update::newer(a, b) == Some(
            true,
        ),
        a.release.0 == b.release.0 && a.release.1 < b.release.1 ==> update::newer(a, b) == Some(
            false,
        ),
        a.release.0 == b.release.0 && a.release.1 == b.release.1 && a.release.2 > b.release.2
            ==> update::newer(a, b) == Some(true),
        a.release.0 == b.release.0 && a.release.1 == b.release.1 && a.release.2 < b.release.2
            ==> update::newer(a, b) == Some(false),
{
}

/// Of two triples that differ, one comes after the other: the one whose first number that differs
/// is the greater.
pub proof fn triples_go_by_their_first_difference(a: (u64, u64, u64), b: (u64, u64, u64))
    ensures
        a.0 > b.0 ==> update::after(a, b) && !update::after(b, a),
        a.0 == b.0 && a.1 > b.1 ==> update::after(a, b) && !update::after(b, a),
        a.0 == b.0 && a.1 == b.1 && a.2 > b.2 ==> update::after(a, b) && !update::after(b, a),
        !update::after(a, a),
{
}

/// At one release, two builds of one channel compare as their build ids do. Where only one of them
/// has an id they do not compare; where neither has one, neither is newer.
pub proof fn builds_of_one_channel_go_by_their_ids(a: update::Identity, b: update::Identity)
    requires
        a.release == b.release,
        a.channel is Some,
        a.channel == b.channel,
    ensures
        a.build is Some && b.build is Some ==> update::newer(a, b) == update::newer_id(
            a.build.unwrap(),
            b.build.unwrap(),
        ),
        a.build is Some != b.build is Some ==> update::newer(a, b) is None,
        a.build is None && b.build is None ==> update::newer(a, b) == Some(false),
{
}

/// An identity consists of the release, the channel and the build id that its fields hold.
pub proof fn identities_consist_of_their_fields(b: update::BuildIdentity)
    ensures
        b@.release == b.release,
        b.channel matches Some(channel) ==> b@.channel == Some(channel@),
        b.channel is None ==> b@.channel is None,
        b.build matches Some(id) ==> b@.build == Some(id@),
        b.build is None ==> b@.build is None,
{
}

/// Of two stable builds of one release neither is newer.
pub proof fn stable_builds_of_one_release_are_as_new(a: update::Identity, b: update::Identity)
    requires
        a.release == b.release,
        a.channel is None,
        b.channel is None,
    ensures
        update::newer(a, b) == Some(false),
{
}

} // verus!

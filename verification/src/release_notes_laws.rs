//! What holds of release notes across saving, reading, marking and showing them.

use crate::build_info;
use crate::release_notes;
use crate::release_notes::{Notes, Stored};
use crate::text;
use crate::text_laws;
use crate::update;
use vstd::prelude::*;

verus! {

/// A normalized body has no white space at the end of a line, nor at its own start and end, and
/// it has every visible character of the body it comes from, in the same order.
pub proof fn normalizing_removes_only_white_space(body: Seq<char>)
    ensures
        text_laws::lines_end_visible(release_notes::normalized(body)),
        text_laws::ends_visible(release_notes::normalized(body)),
        text_laws::visible(release_notes::normalized(body)) == text_laws::visible(body),
{
    let lines = text::lines_of(body);
    let kept = text::lines_trimmed_end(lines);
    let all = text::joined(kept);
    text_laws::lemma_lines_hold_no_line_feed(body);
    assert forall|i: int| 0 <= i < kept.len() implies #[trigger] text_laws::line_ends_visible(
        kept[i],
    ) by {
        text_laws::lemma_trimmed_end(lines[i]);
        assert forall|j: int| 0 <= j < kept[i].len() implies kept[i][j] != '\n' by {
        }
    }
    text_laws::lemma_joined_ends(kept);
    text_laws::lemma_trimmed(all);
    text_laws::lemma_rejoin_visible(body);
    let normal = text::trimmed(all);
    assert forall|i: int|
        #![trigger normal[i]]
        0 <= i < normal.len() - 1 && normal[i + 1] == '\n' implies (normal[i] == '\n'
        || !text::white_space(normal[i])) by {
    }
}

/// Normalizing a normalized body changes nothing.
pub proof fn normalizing_twice_is_normalizing_once(body: Seq<char>)
    ensures
        release_notes::normalized(release_notes::normalized(body)) == release_notes::normalized(
            body,
        ),
{
    let normal = release_notes::normalized(body);
    normalizing_removes_only_white_space(body);
    text_laws::lemma_rejoin(normal);
    text_laws::lemma_trimmed_keeps(normal);
}

/// A body normalizes to nothing exactly when it holds nothing but white space.
pub proof fn only_blank_bodies_vanish(body: Seq<char>)
    ensures
        release_notes::normalized(body).len() == 0 <==> text_laws::visible(body).len() == 0,
{
    normalizing_removes_only_white_space(body);
    text_laws::lemma_visible_empty(release_notes::normalized(body));
}

/// Notes that are saved are read back with their version and their normalized body; notes with a
/// blank body are neither kept nor read.
pub proof fn saved_notes_are_read_back(version: Seq<char>, body: Seq<char>, current: Seq<char>)
    ensures
        release_notes::latest(release_notes::saved(version, body), current) == if text_laws::visible(
            body,
        ).len() == 0 {
            None
        } else {
            Some(
                Notes {
                    version,
                    body: release_notes::normalized(body),
                    preview: release_notes::is_newer(version, current),
                },
            )
        },
{
    normalizing_twice_is_normalizing_once(body);
    only_blank_bodies_vanish(body);
}

/// Marking notes as seen leaves the latest notes as they are, for every version that asks.
pub proof fn marking_seen_keeps_the_latest_notes(
    file: Option<Stored>,
    current: Seq<char>,
    asking: Seq<char>,
)
    ensures
        release_notes::latest(release_notes::after_seen(file, current), asking)
            == release_notes::latest(file, asking),
{
}

/// Notes that have been marked as seen are not marked again.
pub proof fn marking_seen_twice_changes_nothing(file: Option<Stored>, current: Seq<char>)
    ensures
        release_notes::newly_seen(release_notes::after_seen(file, current), current) is None,
        release_notes::after_seen(release_notes::after_seen(file, current), current)
            == release_notes::after_seen(file, current),
{
}

/// Marking the notes of one version as seen leaves the notes of every other version unseen.
pub proof fn marking_seen_spares_other_versions(stored: Stored, current: Seq<char>)
    requires
        stored.version != current,
    ensures
        release_notes::after_seen(Some(stored), current) == Some(stored),
{
}

/// Freshly saved notes of the running version are shown on startup until they are marked as seen.
pub proof fn saved_notes_show_until_seen(version: Seq<char>, body: Seq<char>)
    requires
        text_laws::visible(body).len() > 0,
    ensures
        release_notes::saved(version, body) matches Some(stored) && stored.show_on_startup,
        release_notes::after_seen(release_notes::saved(version, body), version) matches Some(stored)
            && !stored.show_on_startup,
{
    only_blank_bodies_vanish(body);
}

/// The notes of the version that runs are no preview.
pub proof fn own_notes_are_no_preview(version: Seq<char>)
    ensures
        !release_notes::is_newer(version, version),
{
}

/// Of two versions at most one is a preview to the other.
pub proof fn previews_are_one_sided(a: Seq<char>, b: Seq<char>)
    requires
        release_notes::is_newer(a, b),
    ensures
        !release_notes::is_newer(b, a),
{
    update::newer_is_asymmetric(
        update::identity_of(a).unwrap(),
        update::identity_of(b).unwrap(),
    );
}

/// A version that cannot be read makes no notes a preview.
pub proof fn malformed_versions_are_no_preview(version: Seq<char>, current: Seq<char>)
    requires
        update::identity_of(version) is None || update::identity_of(current) is None,
    ensures
        !release_notes::is_newer(version, current),
{
}

/// Of two builds of one release and channel, the one with the newer build id is a preview to the
/// other.
pub proof fn later_builds_are_previews(
    base: Seq<char>,
    channel: Seq<char>,
    later: Seq<char>,
    earlier: Seq<char>,
)
    requires
        update::release_of(base) is Some,
        update::channel_name(channel),
        channel != "stable"@,
        update::build_name(later),
        update::build_name(earlier),
        update::newer_id(later, earlier) == Some(true),
    ensures
        release_notes::is_newer(
            build_info::version_of(base, channel, Some(later)),
            build_info::version_of(base, channel, Some(earlier)),
        ),
{
    build_info::stamped_version_is_read_back(base, channel, Some(later));
    build_info::stamped_version_is_read_back(base, channel, Some(earlier));
}

/// A stable release is a preview to every other build of the same release.
pub proof fn stable_releases_are_previews(
    base: Seq<char>,
    channel: Seq<char>,
    build_id: Option<Seq<char>>,
)
    requires
        update::release_of(base) is Some,
        update::channel_name(channel),
        channel != "stable"@,
        build_id matches Some(id) ==> update::build_name(id),
    ensures
        release_notes::is_newer(
            build_info::version_of(base, "stable"@, None),
            build_info::version_of(base, channel, build_id),
        ),
{
    build_info::stable_version_is_read_back(base, None);
    build_info::stamped_version_is_read_back(base, channel, build_id);
}

/// Builds of one release on different channels are no previews to each other.
pub proof fn other_channels_are_no_previews(
    base: Seq<char>,
    a: Seq<char>,
    b: Seq<char>,
    build_a: Option<Seq<char>>,
    build_b: Option<Seq<char>>,
)
    requires
        update::release_of(base) is Some,
        update::channel_name(a),
        update::channel_name(b),
        a != b,
        a != "stable"@,
        b != "stable"@,
        build_a matches Some(id) ==> update::build_name(id),
        build_b matches Some(id) ==> update::build_name(id),
    ensures
        !release_notes::is_newer(
            build_info::version_of(base, a, build_a),
            build_info::version_of(base, b, build_b),
        ),
{
    build_info::stamped_version_is_read_back(base, a, build_a);
    build_info::stamped_version_is_read_back(base, b, build_b);
}

/// Whether one of the lines begins with `start`.
pub open spec fn some_line_begins(lines: Seq<Seq<char>>, start: Seq<char>) -> bool {
    exists|i: int| 0 <= i < lines.len() && start.is_prefix_of(#[trigger] lines[i])
}

/// The header is looked for in the first lines, and behind them only if they have none.
proof fn lemma_lines_after_concat(a: Seq<Seq<char>>, b: Seq<Seq<char>>, header: Seq<char>)
    ensures
        some_line_begins(a, header) ==> release_notes::lines_after(a + b, header)
            == release_notes::lines_after(a, header) + b,
        !some_line_begins(a, header) ==> release_notes::lines_after(a + b, header)
            == release_notes::lines_after(b, header),
    decreases a.len(),
{
    if a.len() > 0 {
        let rest = a.skip(1);
        assert((a + b).skip(1) == rest + b);
        lemma_lines_after_concat(rest, b, header);
        if !header.is_prefix_of(a[0]) && some_line_begins(a, header) {
            let i = choose|i: int| 0 <= i < a.len() && header.is_prefix_of(#[trigger] a[i]);
            assert(rest[i - 1] == a[i]);
        }
    }
}

/// The lines before a heading end in the first lines, if these have a heading.
proof fn lemma_lines_before_heading_concat(a: Seq<Seq<char>>, b: Seq<Seq<char>>)
    ensures
        some_line_begins(a, "## ["@) ==> release_notes::lines_before_heading(a + b)
            == release_notes::lines_before_heading(a),
        !some_line_begins(a, "## ["@) ==> release_notes::lines_before_heading(a + b) == a
            + release_notes::lines_before_heading(b) && release_notes::lines_before_heading(a) == a,
    decreases a.len(),
{
    let mark = "## ["@;
    if a.len() > 0 {
        let rest = a.skip(1);
        assert((a + b).skip(1) == rest + b);
        lemma_lines_before_heading_concat(rest, b);
        if !mark.is_prefix_of(a[0]) {
            if some_line_begins(a, mark) {
                let i = choose|i: int| 0 <= i < a.len() && mark.is_prefix_of(#[trigger] a[i]);
                assert(rest[i - 1] == a[i]);
            }
            assert(seq![a[0]] + rest == a);
        }
    }
}

/// The section of a version is what stands between the first line that heads it and the next
/// line that heads a section.
pub proof fn section_stands_between_headings(
    before: Seq<Seq<char>>,
    heading: Seq<char>,
    section: Seq<Seq<char>>,
    behind: Seq<Seq<char>>,
    version: Seq<char>,
)
    requires
        !some_line_begins(before, release_notes::header_of(version)),
        release_notes::header_of(version).is_prefix_of(heading),
        !some_line_begins(section, "## ["@),
        behind.len() > 0 ==> "## ["@.is_prefix_of(behind[0]),
    ensures
        release_notes::section_lines(before + seq![heading] + section + behind, version) == section,
{
    let header = release_notes::header_of(version);
    let rest = seq![heading] + (section + behind);
    assert(before + seq![heading] + section + behind == before + rest);
    lemma_lines_after_concat(before, rest, header);
    assert(rest.skip(1) == section + behind);
    lemma_lines_before_heading_concat(section, behind);
}

/// The section as it is shown does not change when its last line loses the carriage return at its
/// end.
proof fn lemma_section_without_last_cr(front: Seq<Seq<char>>, last: Seq<char>, version: Seq<char>)
    ensures
        text::trimmed(
            text::joined(
                release_notes::section_lines(front.push(text::without_cr(last)), version),
            ),
        ) == text::trimmed(
            text::joined(release_notes::section_lines(front.push(last), version)),
        ),
{
    let header = release_notes::header_of(version);
    let mark = "## ["@;
    let short = text::without_cr(last);
    reveal_strlit("## [");
    reveal_strlit("]");
    text_laws::lemma_prefix_without_cr(header, last);
    text_laws::lemma_prefix_without_cr(mark, last);
    assert(front.push(last) == front + seq![last]);
    assert(front.push(short) == front + seq![short]);
    lemma_lines_after_concat(front, seq![last], header);
    lemma_lines_after_concat(front, seq![short], header);
    let found = release_notes::lines_after(front, header);
    if some_line_begins(front, header) {
        lemma_lines_before_heading_concat(found, seq![last]);
        lemma_lines_before_heading_concat(found, seq![short]);
        if !some_line_begins(found, mark) && !mark.is_prefix_of(last) {
            reveal_with_fuel(release_notes::lines_before_heading, 2);
            assert((found + seq![last]).drop_last() == found);
            assert((found + seq![short]).drop_last() == found);
            let long_text = text::joined(found + seq![last]);
            let short_text = text::joined(found + seq![short]);
            if short != last {
                assert(long_text.drop_last() == short_text);
            }
        }
    } else {
        reveal_with_fuel(release_notes::lines_after, 2);
    }
}

/// The section as it is shown does not change when an empty line follows.
proof fn lemma_section_before_empty_line(lines: Seq<Seq<char>>, version: Seq<char>)
    requires
        some_line_begins(lines, release_notes::header_of(version)),
    ensures
        text::trimmed(
            text::joined(release_notes::section_lines(lines.push(Seq::empty()), version)),
        ) == text::trimmed(text::joined(release_notes::section_lines(lines, version))),
{
    let header = release_notes::header_of(version);
    let mark = "## ["@;
    let empty = Seq::<char>::empty();
    reveal_strlit("## [");
    assert(lines.push(empty) == lines + seq![empty]);
    lemma_lines_after_concat(lines, seq![empty], header);
    let found = release_notes::lines_after(lines, header);
    lemma_lines_before_heading_concat(found, seq![empty]);
    if !some_line_begins(found, mark) {
        reveal_with_fuel(release_notes::lines_before_heading, 2);
        assert((found + seq![empty]).drop_last() == found);
        if found.len() > 0 {
            let longer = text::joined(found + seq![empty]);
            assert(longer.drop_last() == text::joined(found));
        }
    }
}

/// What stands in a changelog before the lines that hold the heading of a version, and what
/// follows from the next heading on, does not change the section of that version.
pub proof fn section_does_not_depend_on_its_surroundings(
    before: Seq<char>,
    content: Seq<char>,
    behind: Seq<char>,
    version: Seq<char>,
)
    requires
        before.len() > 0 ==> before.last() == '\n',
        !some_line_begins(text::lines_of(before), release_notes::header_of(version)),
        some_line_begins(text::lines_of(content), release_notes::header_of(version)),
    ensures
        release_notes::section_of(before + content + "\n## ["@ + behind, version)
            == release_notes::section_of(content, version),
{
    let header = release_notes::header_of(version);
    let mark = "## ["@;
    reveal_strlit("## [");
    reveal_strlit("]");
    reveal_strlit("\n## [");
    let closed = content.push('\n');
    let rest = mark + behind;
    assert(before + content + "\n## ["@ + behind == before + (closed + rest));
    text_laws::lemma_lines_concat(before, closed + rest);
    text_laws::lemma_lines_concat(closed, rest);
    text_laws::lemma_lines_closed(content);
    text_laws::lemma_first_line(mark, behind);
    let open_lines = text::lines_of(content);
    let lines = text::lines_of(closed);
    let more = text::lines_of(rest);
    let at = choose|i: int|
        0 <= i < open_lines.len() && header.is_prefix_of(#[trigger] open_lines[i]);
    text_laws::lemma_prefix_without_cr(header, open_lines[at]);
    assert(header.is_prefix_of(lines[at]));
    lemma_lines_after_concat(text::lines_of(before), lines + more, header);
    lemma_lines_after_concat(lines, more, header);
    lemma_lines_before_heading_concat(release_notes::lines_after(lines, header), more);
    if content.last() == '\n' {
        lemma_section_before_empty_line(open_lines, version);
    } else {
        let front = open_lines.drop_last();
        assert(front.push(open_lines.last()) == open_lines);
        lemma_section_without_last_cr(front, open_lines.last(), version);
    }
}

/// Notes from a changelog are never empty.
pub proof fn changelog_notes_are_not_empty(content: Seq<char>, version: Seq<char>)
    ensures
        release_notes::changelog_notes(content, version) matches Some(notes) ==> notes.body.len()
            > 0,
{
    let body = text::joined(
        release_notes::section_lines(text::lines_of(content), version),
    );
    text_laws::lemma_trimmed(body);
    text_laws::lemma_visible_empty(text::trimmed(body));
    only_blank_bodies_vanish(text::trimmed(body));
}

/// A body without white space at its start, at its end or at the end of a line is kept as it is:
/// its lines, the blank ones among them, and the white space inside and at the start of a line.
pub proof fn clean_bodies_are_kept(body: Seq<char>)
    requires
        body.len() > 0 ==> !text::white_space(body[0]) && !text::white_space(body.last()),
        forall|i: int|
            0 < i < body.len() && #[trigger] body[i] == '\n' ==> (body[i - 1] == '\n'
                || !text::white_space(body[i - 1])),
    ensures
        release_notes::normalized(body) == body,
{
    assert forall|i: int|
        #![trigger body[i]]
        0 <= i < body.len() - 1 && body[i + 1] == '\n' implies (body[i] == '\n'
        || !text::white_space(body[i])) by {
        let j = i + 1;
        assert(body[j] == '\n');
    }
    text_laws::lemma_rejoin(body);
    text_laws::lemma_trimmed_keeps(body);
}

/// White space at the end of a line, the carriage return of its ending included, makes no
/// difference to the normalized body.
pub proof fn white_space_before_a_line_feed_is_dropped(
    a: Seq<char>,
    blanks: Seq<char>,
    b: Seq<char>,
)
    requires
        forall|i: int|
            0 <= i < blanks.len() ==> text::white_space(#[trigger] blanks[i]) && blanks[i] != '\n',
    ensures
        release_notes::normalized((a + blanks).push('\n') + b) == release_notes::normalized(
            a.push('\n') + b,
        ),
{
    text_laws::lemma_lines_with_white_space_at_an_end(a, blanks, b);
}

/// One more white space at the end makes no difference to the normalized body.
proof fn lemma_normalized_push(body: Seq<char>, c: char)
    requires
        text::white_space(c),
    ensures
        release_notes::normalized(body.push(c)) == release_notes::normalized(body),
{
    let lines = text::lines_of(body);
    let kept = text::lines_trimmed_end(lines);
    let more = text::lines_trimmed_end(text::lines_of(body.push(c)));
    let added = if c == '\n' {
        Seq::empty()
    } else {
        seq![c]
    };
    if c == '\n' {
        text_laws::lemma_lines_closed(body);
    } else {
        text_laws::lemma_lines_extended(body, c);
    }
    if body.len() == 0 || body.last() == '\n' {
        text_laws::lemma_trimmed_end_concat(Seq::empty(), added);
        assert(Seq::<char>::empty() + added == added);
        assert(text::trimmed_end(added) == Seq::<char>::empty());
        assert(more =~= kept.push(Seq::empty()));
        assert(more.drop_last() == kept);
        let all = text::joined(kept);
        if kept.len() > 0 {
            assert(text::joined(more) == all.push('\n'));
            text_laws::lemma_trimmed_concat(Seq::empty(), all, seq!['\n']);
            assert(Seq::<char>::empty() + all + seq!['\n'] == all.push('\n'));
        } else {
            assert(text::joined(more) == all);
        }
    } else {
        let last = lines.last();
        text_laws::lemma_trimmed_end_without_cr(last);
        text_laws::lemma_trimmed_end_concat(last, seq![c]);
        assert(last + seq![c] == last.push(c));
        assert(more =~= kept);
    }
}

/// One more white space at the start makes no difference to the normalized body.
proof fn lemma_normalized_prepend(c: char, body: Seq<char>)
    requires
        text::white_space(c),
    ensures
        release_notes::normalized(seq![c] + body) == release_notes::normalized(body),
{
    let empty = Seq::<char>::empty();
    let longer = seq![c] + body;
    let all = text::joined(text::lines_trimmed_end(text::lines_of(body)));
    let more = text::joined(text::lines_trimmed_end(text::lines_of(longer)));
    assert(more == all || more == seq![c] + all) by {
        let k = text::until(body, '\n') as int;
        text_laws::lemma_until(body, '\n');
        let line = body.take(k);
        let closed = k < body.len();
        let rest = if closed {
            text::lines_of(body.skip(k + 1))
        } else {
            Seq::empty()
        };
        let kept = text::lines_trimmed_end(rest);
        if c == '\n' {
            text_laws::lines_end_at_line_feeds(empty, body);
            assert(longer == empty.push('\n') + body);
            let lines = text::lines_of(body);
            assert(text::lines_trimmed_end(text::lines_of(longer)) =~= seq![empty]
                + text::lines_trimmed_end(lines));
            text_laws::joined_lines_have_line_feeds_between(
                empty,
                text::lines_trimmed_end(lines),
            );
            if lines.len() == 0 {
                assert(seq![empty] + text::lines_trimmed_end(lines) == seq![empty]);
            } else {
                assert(empty.push('\n') == seq![c]);
            }
        } else if body.len() == 0 {
            text_laws::lemma_trimmed_end_prepend(c, empty);
            assert(longer == seq![c]);
            text_laws::lines_end_at_line_feeds(longer, empty);
            assert(text::lines_trimmed_end(text::lines_of(longer)) =~= seq![empty]);
            assert(more == empty);
            assert(all == empty);
        } else {
            let first = seq![c] + line;
            let (short, long) = (text::trimmed_end(line), text::trimmed_end(first));
            text_laws::lemma_trimmed_end_prepend(c, line);
            text_laws::lemma_trimmed_end_without_cr(line);
            text_laws::lemma_trimmed_end_without_cr(first);
            if closed {
                let tail = body.skip(k + 1);
                assert(body == line.push('\n') + tail);
                assert(longer == first.push('\n') + tail);
                text_laws::lemma_lines_first(line, tail);
                text_laws::lemma_lines_first(first, tail);
            } else {
                assert(line == body);
                text_laws::lines_end_at_line_feeds(line, empty);
                text_laws::lines_end_at_line_feeds(first, empty);
                assert(seq![line] == seq![line] + rest);
                assert(seq![first] == seq![first] + rest);
            }
            assert(text::lines_trimmed_end(text::lines_of(body)) =~= seq![short] + kept);
            assert(text::lines_trimmed_end(text::lines_of(longer)) =~= seq![long] + kept);
            text_laws::joined_lines_have_line_feeds_between(short, kept);
            text_laws::joined_lines_have_line_feeds_between(long, kept);
            if kept.len() == 0 {
                assert(seq![short] + kept == seq![short]);
                assert(seq![long] + kept == seq![long]);
            } else if short.len() > 0 {
                assert(more == seq![c] + all);
            }
        }
    }
    text_laws::lemma_trimmed_concat(seq![c], all, empty);
    assert(seq![c] + all + empty == seq![c] + all);
}

/// White space at the start and at the end makes no difference to the normalized body.
pub proof fn white_space_around_a_body_is_dropped(
    left: Seq<char>,
    body: Seq<char>,
    right: Seq<char>,
)
    requires
        forall|i: int| 0 <= i < left.len() ==> text::white_space(#[trigger] left[i]),
        forall|i: int| 0 <= i < right.len() ==> text::white_space(#[trigger] right[i]),
    ensures
        release_notes::normalized(left + body + right) == release_notes::normalized(body),
    decreases left.len() + right.len(),
{
    if right.len() > 0 {
        let less = right.drop_last();
        assert(left + body + right == (left + body + less).push(right[right.len() - 1]));
        lemma_normalized_push(left + body + less, right[right.len() - 1]);
        white_space_around_a_body_is_dropped(left, body, less);
    } else if left.len() > 0 {
        let less = left.skip(1);
        assert forall|i: int| 0 <= i < less.len() implies text::white_space(
            #[trigger] less[i],
        ) by {
            assert(less[i] == left[i + 1]);
        }
        assert(left + body + right == seq![left[0]] + (less + body + right));
        lemma_normalized_prepend(left[0], less + body + right);
        white_space_around_a_body_is_dropped(less, body, right);
    } else {
        assert(left + body + right == body);
    }
}

/// No line begins with `start` if it stands neither at the start of the text nor behind a line
/// feed.
proof fn lemma_no_line_begins(s: Seq<char>, start: Seq<char>)
    requires
        start.len() > 0,
        forall|i: int|
            0 <= i < s.len() && (i == 0 || s[i - 1] == '\n') ==> !start.is_prefix_of(
                #[trigger] s.skip(i),
            ),
    ensures
        !some_line_begins(text::lines_of(s), start),
    decreases s.len(),
{
    if s.len() > 0 {
        text_laws::lemma_until(s, '\n');
        let k = text::until(s, '\n') as int;
        assert(s.skip(0) == s);
        if k < s.len() {
            let line = s.take(k);
            let rest = s.skip(k + 1);
            assert(s == line.push('\n') + rest);
            text_laws::lemma_lines_first(line, rest);
            assert forall|i: int|
                0 <= i < rest.len() && (i == 0 || rest[i - 1] == '\n') implies !start.is_prefix_of(
                #[trigger] rest.skip(i),
            ) by {
                assert(rest.skip(i) == s.skip(k + 1 + i));
                if i > 0 {
                    assert(rest[i - 1] == s[k + i]);
                }
            }
            lemma_no_line_begins(rest, start);
            if start.is_prefix_of(text::without_cr(line)) {
                assert(start =~= s.subrange(0, start.len() as int));
            }
            let lines = text::lines_of(s);
            assert forall|i: int| 0 <= i < lines.len() implies !start.is_prefix_of(
                #[trigger] lines[i],
            ) by {
                if i > 0 {
                    assert(lines[i] == text::lines_of(rest)[i - 1]);
                }
            }
        } else {
            text_laws::lines_end_at_line_feeds(s, Seq::empty());
        }
    }
}

/// In a changelog without a line that heads the section of a version, the version has no section.
pub proof fn versions_without_a_heading_have_no_section(content: Seq<char>, version: Seq<char>)
    requires
        forall|i: int|
            0 <= i < content.len() && (i == 0 || content[i - 1] == '\n') ==> !("## ["@ + version
                + "]"@).is_prefix_of(#[trigger] content.skip(i)),
    ensures
        release_notes::section_of(content, version) is None,
        release_notes::changelog_notes(content, version) is None,
{
    let header = release_notes::header_of(version);
    let lines = text::lines_of(content);
    reveal_strlit("]");
    lemma_no_line_begins(content, header);
    lemma_lines_after_concat(lines, Seq::empty(), header);
    assert(lines + Seq::empty() == lines);
    assert(text::joined(Seq::<Seq<char>>::empty()) == Seq::<char>::empty());
}

/// A heading with nothing behind it, or with the next heading on the next line, has no section.
pub proof fn a_heading_alone_has_no_section(
    before: Seq<char>,
    version: Seq<char>,
    tail: Seq<char>,
    behind: Seq<char>,
)
    requires
        before.len() > 0 ==> before.last() == '\n',
        forall|i: int|
            0 <= i < before.len() && (i == 0 || before[i - 1] == '\n') ==> !("## ["@ + version
                + "]"@).is_prefix_of(#[trigger] before.skip(i)),
        forall|i: int| 0 <= i < version.len() ==> version[i] != '\n',
        forall|i: int| 0 <= i < tail.len() ==> tail[i] != '\n',
    ensures
        ({
            let heading = "## ["@ + version + "]"@ + tail;
            &&& release_notes::section_of(before + heading, version) is None
            &&& release_notes::section_of(before + heading + "\n## ["@ + behind, version) is None
        }),
{
    let header = release_notes::header_of(version);
    let heading = "## ["@ + version + "]"@ + tail;
    let none = Seq::<Seq<char>>::empty();
    reveal_strlit("## [");
    reveal_strlit("]");
    lemma_no_line_begins(before, header);
    assert forall|i: int| 0 <= i < heading.len() implies heading[i] != '\n' by {
    }
    assert(header.is_prefix_of(heading));
    text_laws::lines_end_at_line_feeds(heading, Seq::empty());
    text_laws::lemma_lines_concat(before, heading);
    let lines = text::lines_of(before);
    assert(text::lines_of(before + heading) == lines + seq![heading] + none + none);
    assert(text::lines_of(heading) == none + seq![heading] + none + none);
    section_stands_between_headings(lines, heading, none, none, version);
    section_stands_between_headings(none, heading, none, none, version);
    assert(text::joined(none) == Seq::<char>::empty());
    assert(header.is_prefix_of(text::lines_of(heading)[0]));
    section_does_not_depend_on_its_surroundings(before, heading, behind, version);
}

/// The section of a version is made of the lines behind the line that begins with `## [`, the
/// version and `]`, up to the next line that begins with `## [` or to the end.
pub proof fn section_is_the_text_behind_its_heading(
    before: Seq<char>,
    version: Seq<char>,
    tail: Seq<char>,
    section: Seq<char>,
    behind: Seq<char>,
)
    requires
        before.len() > 0 ==> before.last() == '\n',
        forall|i: int|
            0 <= i < before.len() && (i == 0 || before[i - 1] == '\n') ==> !("## ["@ + version
                + "]"@).is_prefix_of(#[trigger] before.skip(i)),
        forall|i: int| 0 <= i < version.len() ==> version[i] != '\n',
        forall|i: int| 0 <= i < tail.len() ==> tail[i] != '\n',
        forall|i: int|
            0 <= i < section.len() && (i == 0 || section[i - 1] == '\n')
                ==> !"## ["@.is_prefix_of(#[trigger] section.skip(i)),
    ensures
        ({
            let heading = "## ["@ + version + "]"@ + tail;
            let content = heading.push('\n') + section;
            let body = text::trimmed(text::joined(text::lines_of(section)));
            let found = if body.len() == 0 {
                None
            } else {
                Some(body)
            };
            &&& release_notes::section_of(before + content, version) == found
            &&& release_notes::section_of(before + content + "\n## ["@ + behind, version) == found
        }),
{
    let header = release_notes::header_of(version);
    let heading = "## ["@ + version + "]"@ + tail;
    let content = heading.push('\n') + section;
    reveal_strlit("## [");
    reveal_strlit("]");
    lemma_no_line_begins(before, header);
    lemma_no_line_begins(section, "## ["@);
    assert forall|i: int| 0 <= i < heading.len() implies heading[i] != '\n' by {
    }
    assert(header.is_prefix_of(heading));
    text_laws::lemma_prefix_without_cr(header, heading);
    text_laws::lemma_lines_first(heading, section);
    text_laws::lemma_lines_concat(before, content);
    let first = text::without_cr(heading);
    let lines = text::lines_of(before) + seq![first] + text::lines_of(section) + Seq::empty();
    assert(text::lines_of(before + content) == lines);
    section_stands_between_headings(
        text::lines_of(before),
        first,
        text::lines_of(section),
        Seq::empty(),
        version,
    );
    let none = Seq::<Seq<char>>::empty();
    assert(text::lines_of(content) == none + seq![first] + text::lines_of(section) + none);
    section_stands_between_headings(none, first, text::lines_of(section), none, version);
    assert(header.is_prefix_of(text::lines_of(content)[0]));
    section_does_not_depend_on_its_surroundings(before, content, behind, version);
}

/// The section of a version is the text between its heading and the next line that begins with
/// `## [`, or the end of the changelog. It is given as it stands, every line of it, without the
/// white space around it; if there is nothing but white space, there is no section.
pub proof fn section_is_given_whole(
    before: Seq<char>,
    version: Seq<char>,
    tail: Seq<char>,
    left: Seq<char>,
    section: Seq<char>,
    right: Seq<char>,
    behind: Seq<char>,
)
    requires
        before.len() > 0 ==> before.last() == '\n',
        forall|i: int|
            0 <= i < before.len() && (i == 0 || before[i - 1] == '\n') ==> !("## ["@ + version
                + "]"@).is_prefix_of(#[trigger] before.skip(i)),
        forall|i: int| 0 <= i < version.len() ==> version[i] != '\n',
        forall|i: int| 0 <= i < tail.len() ==> tail[i] != '\n',
        forall|i: int| 0 <= i < left.len() ==> text::white_space(#[trigger] left[i]),
        forall|i: int| 0 <= i < right.len() ==> text::white_space(#[trigger] right[i]),
        section.len() > 0 ==> !text::white_space(section[0]) && !text::white_space(section.last()),
        ({
            let all = left + section + right;
            &&& forall|i: int|
                0 <= i < all.len() && (i == 0 || all[i - 1] == '\n') ==> !"## ["@.is_prefix_of(
                    #[trigger] all.skip(i),
                )
            &&& forall|i: int|
                0 <= i < all.len() - 1 && #[trigger] all[i] == '\r' ==> all[i + 1] != '\n'
        }),
    ensures
        ({
            let heading = "## ["@ + version + "]"@ + tail;
            let content = heading.push('\n') + (left + section + right);
            let found = if section.len() == 0 {
                None
            } else {
                Some(section)
            };
            &&& release_notes::section_of(before + content, version) == found
            &&& release_notes::section_of(before + content + "\n## ["@ + behind, version) == found
        }),
{
    let all = left + section + right;
    section_is_the_text_behind_its_heading(before, version, tail, all, behind);
    text_laws::lemma_rejoin_lines(all);
    text_laws::trimming_leaves_what_white_space_surrounds(left, section, right);
    if all.len() > 0 && all.last() == '\n' {
        text_laws::lemma_trimmed_concat(Seq::empty(), all.drop_last(), seq!['\n']);
        assert(Seq::<char>::empty() + all.drop_last() + seq!['\n'] == all);
    }
}

/// A version that holds a line feed has no section.
pub proof fn versions_of_several_lines_have_no_section(
    content: Seq<char>,
    version: Seq<char>,
    at: int,
)
    requires
        0 <= at < version.len(),
        version[at] == '\n',
    ensures
        release_notes::section_of(content, version) is None,
{
    let header = release_notes::header_of(version);
    let lines = text::lines_of(content);
    reveal_strlit("## [");
    assert(header[at + 4] == '\n');
    text_laws::lemma_lines_hold_no_line_feed(content);
    assert forall|i: int| 0 <= i < lines.len() implies !header.is_prefix_of(#[trigger] lines[i]) by {
        if header.is_prefix_of(lines[i]) {
            assert(header[at + 4] == lines[i][at + 4]);
        }
    }
    lemma_lines_after_concat(lines, Seq::empty(), header);
    assert(lines + Seq::empty() == lines);
    assert(text::joined(Seq::<Seq<char>>::empty()) == Seq::<char>::empty());
}

/// A changelog has the same sections with either kind of line ending.
pub proof fn sections_do_not_depend_on_line_endings(
    a: Seq<char>,
    b: Seq<char>,
    version: Seq<char>,
)
    requires
        a.len() > 0 ==> a.last() != '\r',
    ensures
        release_notes::section_of(a.push('\r').push('\n') + b, version)
            == release_notes::section_of(a.push('\n') + b, version),
{
    text_laws::either_line_ending_ends_a_line(a, b);
}

/// A section has every visible character of its lines, in the same order, and a visible character
/// at either end.
pub proof fn sections_lose_no_visible_character(content: Seq<char>, version: Seq<char>)
    ensures
        release_notes::section_of(content, version) matches Some(body) ==> text_laws::visible(body)
            == text_laws::visible(
            text::joined(release_notes::section_lines(text::lines_of(content), version)),
        ) && body.len() > 0 && !text::white_space(body[0]) && !text::white_space(body.last()),
        release_notes::section_of(content, version) is None ==> text_laws::visible(
            text::joined(release_notes::section_lines(text::lines_of(content), version)),
        ).len() == 0,
{
    let all = text::joined(release_notes::section_lines(text::lines_of(content), version));
    text_laws::lemma_trimmed(all);
    text_laws::lemma_visible_empty(text::trimmed(all));
}

/// The notes that a changelog gives for a version are a preview of that version, and their body is
/// the section of the version, normalized. There are notes exactly when there is a section.
pub proof fn changelog_notes_are_the_section(content: Seq<char>, version: Seq<char>)
    ensures
        release_notes::section_of(content, version) matches Some(section)
            ==> release_notes::changelog_notes(content, version) == Some(
            (Notes { version, body: release_notes::normalized(section), preview: true }),
        ) && text_laws::visible(release_notes::normalized(section)) == text_laws::visible(section),
        release_notes::section_of(content, version) is None ==> release_notes::changelog_notes(
            content,
            version,
        ) is None,
{
    if release_notes::section_of(content, version) is Some {
        normalizing_removes_only_white_space(release_notes::section_of(content, version).unwrap());
    }
}

/// Notes of a later release are a preview, and notes of an earlier one are not, whatever the
/// channels and build ids of the two versions.
pub proof fn later_releases_are_previews(version: Seq<char>, current: Seq<char>)
    requires
        update::identity_of(version) is Some,
        update::identity_of(current) is Some,
    ensures
        ({
            let a = update::identity_of(version).unwrap().release;
            let b = update::identity_of(current).unwrap().release;
            &&& a.0 > b.0 ==> release_notes::is_newer(version, current)
            &&& a.0 < b.0 ==> !release_notes::is_newer(version, current)
            &&& a.0 == b.0 && a.1 > b.1 ==> release_notes::is_newer(version, current)
            &&& a.0 == b.0 && a.1 < b.1 ==> !release_notes::is_newer(version, current)
            &&& a.0 == b.0 && a.1 == b.1 && a.2 > b.2 ==> release_notes::is_newer(version, current)
            &&& a.0 == b.0 && a.1 == b.1 && a.2 < b.2 ==> !release_notes::is_newer(version, current)
        }),
{
}

/// Whether notes are a preview is what the comparison of the two builds says; where it says
/// nothing, they are none.
pub proof fn previews_are_of_newer_builds(version: Seq<char>, current: Seq<char>)
    requires
        update::identity_of(version) is Some,
        update::identity_of(current) is Some,
    ensures
        ({
            let compared = update::newer(
                update::identity_of(version).unwrap(),
                update::identity_of(current).unwrap(),
            );
            &&& compared == Some(true) ==> release_notes::is_newer(version, current)
            &&& compared == Some(false) ==> !release_notes::is_newer(version, current)
            &&& compared is None ==> !release_notes::is_newer(version, current)
        }),
{
}

/// The latest notes are the stored ones: their version, their body, normalized, and whether they
/// are of a newer build than the one that asks. Notes with a blank body are none, and whether the
/// notes have been seen makes no difference.
pub proof fn latest_notes_are_the_stored_ones(stored: Stored, current: Seq<char>)
    ensures
        text_laws::visible(stored.body).len() > 0 ==> release_notes::latest(Some(stored), current)
            == Some(
            (Notes {
                version: stored.version,
                body: release_notes::normalized(stored.body),
                preview: update::identity_of(stored.version) is Some && update::identity_of(
                    current,
                ) is Some && update::newer(
                    update::identity_of(stored.version).unwrap(),
                    update::identity_of(current).unwrap(),
                ) == Some(true),
            }),
        ),
        text_laws::visible(stored.body).len() == 0 ==> release_notes::latest(
            Some(stored),
            current,
        ) is None,
        release_notes::latest(None, current) is None,
{
    only_blank_bodies_vanish(stored.body);
}

/// Saving keeps the version and a clean body as they are, to be shown on startup.
pub proof fn clean_notes_are_saved_as_they_are(version: Seq<char>, body: Seq<char>)
    requires
        body.len() > 0,
        !text::white_space(body[0]),
        !text::white_space(body.last()),
        forall|i: int|
            0 < i < body.len() && #[trigger] body[i] == '\n' ==> (body[i - 1] == '\n'
                || !text::white_space(body[i - 1])),
    ensures
        release_notes::saved(version, body) == Some(
            (Stored { version, body, show_on_startup: true }),
        ),
        forall|current: Seq<char>|
            (#[trigger] release_notes::latest(
                release_notes::saved(version, body),
                current,
            )) matches Some(notes) && notes.version == version && notes.body == body,
{
    clean_bodies_are_kept(body);
}

/// Notes are stored as they are normalized, and a blank body clears what is stored.
pub proof fn saved_notes_are_normalized(version: Seq<char>, body: Seq<char>)
    ensures
        text_laws::visible(body).len() > 0 ==> release_notes::saved(version, body) == Some(
            (Stored {
                version,
                body: release_notes::normalized(body),
                show_on_startup: true,
            }),
        ),
        text_laws::visible(body).len() == 0 ==> release_notes::saved(version, body) is None,
{
    only_blank_bodies_vanish(body);
}

/// Marking notes as seen takes place for unseen notes of the given version alone. It changes
/// nothing but whether they are shown on startup.
pub proof fn marking_seen_changes_nothing_else(stored: Stored, current: Seq<char>)
    ensures
        stored.version == current && stored.show_on_startup ==> release_notes::after_seen(
            Some(stored),
            current,
        ) == Some(
            (Stored { version: stored.version, body: stored.body, show_on_startup: false }),
        ),
        stored.version == current && stored.show_on_startup ==> release_notes::newly_seen(
            Some(stored),
            current,
        ) == release_notes::after_seen(Some(stored), current),
        stored.version != current || !stored.show_on_startup ==> release_notes::newly_seen(
            Some(stored),
            current,
        ) is None && release_notes::after_seen(Some(stored), current) == Some(stored),
        release_notes::newly_seen(None, current) is None,
        release_notes::after_seen(None, current) is None,
{
}

/// Notes consist of the version, the body and the mark that their fields hold.
pub proof fn notes_consist_of_their_fields(
    notes: release_notes::ReleaseNotes,
    stored: release_notes::StoredReleaseNotes,
)
    ensures
        notes@.version == notes.version@,
        notes@.body == notes.body@,
        notes@.preview == notes.preview,
        release_notes::shown(Some(notes)) == Some(notes@),
        release_notes::shown(None) is None,
        stored@.version == stored.version@,
        stored@.body == stored.body@,
        stored@.show_on_startup == stored.show_on_startup,
        release_notes::pending(Some(stored)) == Some(stored@),
        release_notes::pending(None) is None,
        release_notes::PendingChange::Store(stored)@ == Some(stored@),
        release_notes::PendingChange::Clear@ is None,
{
}

} // verus!

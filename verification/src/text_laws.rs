//! What holds of trimming, of lines and of their joining, for every text.

use crate::text;
use vstd::prelude::*;

verus! {

/// The characters of `s` that are no white space, in their order.
pub open spec fn visible(s: Seq<char>) -> Seq<char>
    decreases s.len(),
{
    if s.len() == 0 {
        Seq::empty()
    } else if text::white_space(s.last()) {
        visible(s.drop_last())
    } else {
        visible(s.drop_last()).push(s.last())
    }
}

/// No line of text ends in white space: before a line feed stands a visible character,
/// another line feed, or nothing.
pub open spec fn lines_end_visible(s: Seq<char>) -> bool {
    forall|i: int|
        #![trigger s[i]]
        0 <= i < s.len() - 1 && s[i + 1] == '\n' ==> (s[i] == '\n' || !text::white_space(s[i]))
}

/// Neither the first nor the last character is white space.
pub open spec fn ends_visible(s: Seq<char>) -> bool {
    s.len() > 0 ==> !text::white_space(s[0]) && !text::white_space(s.last())
}

/// Trimming the end leaves a beginning of the text, with a visible character last.
pub proof fn lemma_trimmed_end(s: Seq<char>)
    ensures
        text::trimmed_end(s).len() <= s.len(),
        text::trimmed_end(s) == s.take(text::trimmed_end(s).len() as int),
        text::trimmed_end(s).len() > 0 ==> !text::white_space(text::trimmed_end(s).last()),
        visible(text::trimmed_end(s)) == visible(s),
    decreases s.len(),
{
    if s.len() > 0 && text::white_space(s.last()) {
        lemma_trimmed_end(s.drop_last());
    }
}

/// Trimming the start leaves an ending of the text, with a visible character first.
pub proof fn lemma_trimmed_start(s: Seq<char>)
    ensures
        text::trimmed_start(s).len() <= s.len(),
        text::trimmed_start(s) == s.skip(s.len() - text::trimmed_start(s).len()),
        text::trimmed_start(s).len() > 0 ==> !text::white_space(text::trimmed_start(s)[0]),
        visible(text::trimmed_start(s)) == visible(s),
    decreases s.len(),
{
    if s.len() > 0 && text::white_space(s[0]) {
        lemma_trimmed_start(s.skip(1));
        lemma_visible_concat(s.take(1), s.skip(1));
        assert(s.take(1) + s.skip(1) == s);
        reveal_with_fuel(visible, 2);
    }
}

/// The visible characters of two texts put together are those of the first, then those of the
/// second.
pub proof fn lemma_visible_concat(a: Seq<char>, b: Seq<char>)
    ensures
        visible(a + b) == visible(a) + visible(b),
    decreases b.len(),
{
    if b.len() > 0 {
        lemma_visible_concat(a, b.drop_last());
        assert((a + b).drop_last() == a + b.drop_last());
    }
}

/// Text that has a character first or last which is no white space has a visible character.
pub proof fn lemma_visible_empty(s: Seq<char>)
    requires
        ends_visible(s),
    ensures
        visible(s).len() == 0 <==> s.len() == 0,
{
}

/// Trimming both ends leaves a stretch of the text with a visible character at either end, and
/// loses no visible character.
pub proof fn lemma_trimmed(s: Seq<char>)
    ensures
        ends_visible(text::trimmed(s)),
        text::trimmed(s).len() <= text::trimmed_end(s).len() <= s.len(),
        text::trimmed(s) == s.subrange(
            text::trimmed_end(s).len() - text::trimmed(s).len(),
            text::trimmed_end(s).len() as int,
        ),
        visible(text::trimmed(s)) == visible(s),
{
    lemma_trimmed_end(s);
    lemma_trimmed_start(text::trimmed_end(s));
}

/// Text with a visible character at either end is left as it is.
pub proof fn lemma_trimmed_keeps(s: Seq<char>)
    requires
        ends_visible(s),
    ensures
        text::trimmed(s) == s,
{
}

/// Before the place that `until` gives stands no `mark`, and at it stands one, unless the text
/// ends there.
pub proof fn lemma_until(s: Seq<char>, mark: char)
    ensures
        text::until(s, mark) <= s.len(),
        text::until(s, mark) < s.len() ==> s[text::until(s, mark) as int] == mark,
        forall|i: int| 0 <= i < text::until(s, mark) ==> s[i] != mark,
    decreases s.len(),
{
    if s.len() > 0 && s[0] != mark {
        lemma_until(s.skip(1), mark);
        assert forall|i: int| 0 <= i < text::until(s, mark) implies s[i] != mark by {
            if i > 0 {
                assert(s[i] == s.skip(1)[i - 1]);
            }
        }
    }
}

/// No line holds a line feed.
pub proof fn lemma_lines_hold_no_line_feed(s: Seq<char>)
    ensures
        forall|i: int, j: int|
            0 <= i < text::lines_of(s).len() && 0 <= j < text::lines_of(s)[i].len() ==> #[trigger] text::lines_of(
                s,
            )[i][j] != '\n',
    decreases s.len(),
{
    if s.len() > 0 {
        lemma_until(s, '\n');
        let k = text::until(s, '\n') as int;
        if k < s.len() {
            lemma_lines_hold_no_line_feed(s.skip(k + 1));
            assert forall|i: int, j: int|
                0 <= i < text::lines_of(s).len() && 0 <= j < text::lines_of(s)[i].len() implies #[trigger] text::lines_of(
                s,
            )[i][j] != '\n' by {
                if i > 0 {
                    assert(text::lines_of(s)[i] == text::lines_of(s.skip(k + 1))[i - 1]);
                }
            }
        }
    }
}

/// Joining one line and more lines puts the line, a line feed and the joined rest together.
pub proof fn lemma_joined_first(line: Seq<char>, rest: Seq<Seq<char>>)
    requires
        rest.len() > 0,
    ensures
        text::joined(seq![line] + rest) == line.push('\n') + text::joined(rest),
    decreases rest.len(),
{
    let all = seq![line] + rest;
    assert(all.drop_last() == seq![line] + rest.drop_last());
    if rest.len() == 1 {
        assert(text::joined(all.drop_last()) == line);
    } else {
        lemma_joined_first(line, rest.drop_last());
    }
}

/// A line as `lines_end_visible` has it: without a line feed, and with a visible character last.
pub open spec fn line_ends_visible(line: Seq<char>) -> bool {
    &&& forall|j: int| 0 <= j < line.len() ==> line[j] != '\n'
    &&& line.len() > 0 ==> !text::white_space(line.last())
}

/// Joining lines that end in visible characters gives text whose lines do.
pub proof fn lemma_joined_ends(lines: Seq<Seq<char>>)
    requires
        forall|i: int| 0 <= i < lines.len() ==> #[trigger] line_ends_visible(lines[i]),
    ensures
        lines_end_visible(text::joined(lines)),
        text::joined(lines).len() > 0 ==> (text::joined(lines).last() == '\n'
            || !text::white_space(text::joined(lines).last())),
    decreases lines.len(),
{
    if lines.len() == 1 {
        assert(line_ends_visible(lines[0]));
    } else if lines.len() > 1 {
        let front = lines.drop_last();
        assert forall|i: int| 0 <= i < front.len() implies #[trigger] line_ends_visible(
            front[i],
        ) by {
        }
        lemma_joined_ends(front);
        assert(line_ends_visible(lines[lines.len() - 1]));
        let start = text::joined(front);
        let all = text::joined(lines);
        assert forall|i: int|
            #![trigger all[i]]
            0 <= i < all.len() - 1 && all[i + 1] == '\n' implies (all[i] == '\n'
            || !text::white_space(all[i])) by {
            if i + 1 < start.len() {
                assert(all[i] == start[i]);
            }
        }
    }
}

/// The text behind a line feed has lines that end in visible characters, if the whole has, and so
/// does the line before it.
proof fn lemma_lines_end_visible_parts(line: Seq<char>, rest: Seq<char>)
    requires
        lines_end_visible(line.push('\n') + rest),
        forall|i: int| 0 <= i < line.len() ==> line[i] != '\n',
    ensures
        lines_end_visible(rest),
        line.len() > 0 ==> !text::white_space(line.last()),
{
    let s = line.push('\n') + rest;
    if line.len() > 0 {
        assert(s[line.len() - 1] == line.last());
        assert(s[line.len() as int] == '\n');
    }
    assert forall|i: int|
        #![trigger rest[i]]
        0 <= i < rest.len() - 1 && rest[i + 1] == '\n' implies (rest[i] == '\n'
        || !text::white_space(rest[i])) by {
        let at = line.len() + 1 + i;
        assert(s[at] == rest[i]);
        assert(s[at + 1] == rest[i + 1]);
    }
}

/// A line that ends in a visible character, before text that is got back from its lines, is got
/// back too.
proof fn lemma_rejoin_first(line: Seq<char>, rest: Seq<char>)
    requires
        forall|i: int| 0 <= i < line.len() ==> line[i] != '\n',
        line.len() > 0 ==> !text::white_space(line.last()),
        text::lines_of(rest).len() > 0,
        text::joined(text::lines_trimmed_end(text::lines_of(rest))) == rest,
    ensures
        text::joined(text::lines_trimmed_end(text::lines_of(line.push('\n') + rest)))
            == line.push('\n') + rest,
        text::lines_of(line.push('\n') + rest).len() > 0,
{
    lemma_lines_first(line, rest);
    lemma_lines_trimmed_end_first(line, text::lines_of(rest));
    lemma_joined_first(line, text::lines_trimmed_end(text::lines_of(rest)));
}

/// Text whose lines end in visible characters, and whose last character is visible, is got back
/// from its lines.
pub proof fn lemma_rejoin(s: Seq<char>)
    requires
        lines_end_visible(s),
        s.len() > 0 ==> !text::white_space(s.last()),
    ensures
        text::joined(text::lines_trimmed_end(text::lines_of(s))) == s,
        s.len() > 0 ==> text::lines_of(s).len() > 0,
    decreases s.len(),
{
    if s.len() > 0 {
        lemma_first_line_feed(s);
        let k = text::until(s, '\n') as int;
        if k < s.len() {
            let line = s.take(k);
            let rest = s.skip(k + 1);
            lemma_lines_end_visible_parts(line, rest);
            lemma_rejoin(rest);
            lemma_rejoin_first(line, rest);
        } else {
            lines_end_at_line_feeds(s, Seq::empty());
            assert(text::lines_trimmed_end(text::lines_of(s)) == seq![s]);
        }
    }
}

/// Splitting text into lines, trimming their ends and joining them again loses no visible
/// character.
pub proof fn lemma_rejoin_visible(s: Seq<char>)
    ensures
        visible(text::joined(text::lines_trimmed_end(text::lines_of(s)))) == visible(s),
        s.len() > 0 ==> text::lines_of(s).len() > 0,
    decreases s.len(),
{
    if s.len() > 0 {
        lemma_until(s, '\n');
        let k = text::until(s, '\n') as int;
        if k < s.len() {
            let line = s.take(k);
            let rest = s.skip(k + 1);
            let kept = text::trimmed_end(text::without_cr(line));
            let more = text::lines_trimmed_end(text::lines_of(rest));
            lemma_trimmed_end(text::without_cr(line));
            assert(text::lines_trimmed_end(text::lines_of(s)) == seq![kept] + more);
            assert(s == line.push('\n') + rest);
            lemma_visible_concat(line.push('\n'), rest);
            assert(line.push('\n').drop_last() == line);
            assert(visible(line.push('\n')) == visible(line));
            lemma_rejoin_visible(rest);
            if rest.len() > 0 {
                lemma_joined_first(kept, more);
                lemma_visible_concat(kept.push('\n'), text::joined(more));
                assert(kept.push('\n').drop_last() == kept);
            }
        } else {
            lemma_trimmed_end(s);
        }
    }
}

/// Text in which `mark` does not occur is not parted.
pub proof fn lemma_parted_without_mark(s: Seq<char>, mark: char)
    requires
        forall|i: int| 0 <= i < s.len() ==> s[i] != mark,
    ensures
        text::parted(s, mark) == (s, None::<Seq<char>>),
{
    lemma_until(s, mark);
}

/// A text, a `mark` and more text are parted into the two, if the first holds no `mark`.
pub proof fn lemma_parted_at_mark(before: Seq<char>, mark: char, behind: Seq<char>)
    requires
        forall|i: int| 0 <= i < before.len() ==> before[i] != mark,
    ensures
        text::parted(before.push(mark) + behind, mark) == (before, Some(behind)),
{
    let s = before.push(mark) + behind;
    lemma_until(s, mark);
    assert(s[before.len() as int] == mark);
}

/// The lines of two texts put together are those of the first, then those of the second, if the
/// first is empty or ends in a line feed.
pub proof fn lemma_lines_concat(a: Seq<char>, b: Seq<char>)
    requires
        a.len() > 0 ==> a.last() == '\n',
    ensures
        text::lines_of(a + b) == text::lines_of(a) + text::lines_of(b),
    decreases a.len(),
{
    if a.len() > 0 {
        lemma_until(a, '\n');
        let k = text::until(a, '\n') as int;
        let rest = a.skip(k + 1);
        lemma_until(a + b, '\n');
        assert((a + b)[k] == '\n');
        let m = text::until(a + b, '\n') as int;
        assert(m == k) by {
            if m < k {
                assert((a + b)[m] == a[m]);
            }
        }
        assert((a + b).take(k) == a.take(k));
        assert((a + b).skip(k + 1) == rest + b);
        lemma_lines_concat(rest, b);
    }
}

/// A line feed at the end of a text closes its last line, which loses a carriage return there;
/// where there is no line to close, it makes an empty one.
pub proof fn lemma_lines_closed(s: Seq<char>)
    ensures
        (s.len() == 0 || s.last() == '\n') ==> text::lines_of(s.push('\n')) == text::lines_of(
            s,
        ).push(Seq::empty()),
        (s.len() > 0 && s.last() != '\n') ==> text::lines_of(s).len() > 0 && text::lines_of(
            s.push('\n'),
        ) == text::lines_of(s).drop_last().push(text::without_cr(text::lines_of(s).last())),
    decreases s.len(),
{
    let closed = s.push('\n');
    lemma_until(s, '\n');
    lemma_until(closed, '\n');
    let k = text::until(s, '\n') as int;
    let m = text::until(closed, '\n') as int;
    assert(m == k) by {
        if m < k {
            assert(closed[m] == s[m]);
        } else if k < m {
            assert(closed[k] == '\n');
        }
    }
    assert(closed.take(k) == s.take(k));
    if k < s.len() {
        let rest = s.skip(k + 1);
        assert(closed.skip(k + 1) == rest.push('\n'));
        lemma_lines_closed(rest);
    } else {
        assert(s.take(k) == s);
        assert(closed.skip(k + 1) == Seq::<char>::empty());
        assert(text::lines_of(Seq::<char>::empty()) == Seq::<Seq<char>>::empty());
        if s.len() == 0 {
            assert(s == Seq::<char>::empty());
        }
    }
}

/// Text that begins with `start`, which holds no line feed and does not end in a carriage return,
/// has a first line that does.
pub proof fn lemma_first_line(start: Seq<char>, behind: Seq<char>)
    requires
        start.len() > 0,
        start.last() != '\r',
        forall|i: int| 0 <= i < start.len() ==> start[i] != '\n',
    ensures
        text::lines_of(start + behind).len() > 0,
        start.is_prefix_of(text::lines_of(start + behind)[0]),
{
    let s = start + behind;
    lemma_until(s, '\n');
    let k = text::until(s, '\n') as int;
    assert(k >= start.len()) by {
        if k < start.len() {
            assert(s[k] == start[k]);
        }
    }
    lemma_prefix_without_cr(start, s.take(k));
}

/// A beginning that does not end in a carriage return is one of a line with or without the
/// carriage return at its end.
pub proof fn lemma_prefix_without_cr(start: Seq<char>, line: Seq<char>)
    requires
        start.len() > 0,
        start.last() != '\r',
    ensures
        start.is_prefix_of(line) <==> start.is_prefix_of(text::without_cr(line)),
{
    if start.is_prefix_of(line) && line.last() == '\r' {
        assert(start.len() != line.len()) by {
            if start.len() == line.len() {
                assert(start.last() == line.last());
            }
        }
    }
}

/// White space at the end of a text makes no difference to trimming its end.
pub proof fn lemma_trimmed_end_concat(s: Seq<char>, right: Seq<char>)
    requires
        forall|i: int| 0 <= i < right.len() ==> text::white_space(#[trigger] right[i]),
    ensures
        text::trimmed_end(s + right) == text::trimmed_end(s),
    decreases right.len(),
{
    if right.len() == 0 {
        assert(s + right == s);
    } else {
        assert((s + right).drop_last() == s + right.drop_last());
        assert((s + right).last() == right[right.len() - 1]);
        lemma_trimmed_end_concat(s, right.drop_last());
    }
}

/// White space at the start of a text makes no difference to trimming its start.
pub proof fn lemma_trimmed_start_concat(left: Seq<char>, s: Seq<char>)
    requires
        forall|i: int| 0 <= i < left.len() ==> text::white_space(#[trigger] left[i]),
    ensures
        text::trimmed_start(left + s) == text::trimmed_start(s),
    decreases left.len(),
{
    if left.len() == 0 {
        assert(left + s == s);
    } else {
        assert((left + s).skip(1) == left.skip(1) + s);
        assert((left + s)[0] == left[0]);
        assert forall|i: int| 0 <= i < left.skip(1).len() implies text::white_space(
            #[trigger] left.skip(1)[i],
        ) by {
            assert(left.skip(1)[i] == left[i + 1]);
        }
        lemma_trimmed_start_concat(left.skip(1), s);
    }
}

/// Trimming a text gives what stands between the white space at its start and that at its end,
/// whatever that is.
pub proof fn trimming_leaves_what_white_space_surrounds(
    left: Seq<char>,
    s: Seq<char>,
    right: Seq<char>,
)
    requires
        forall|i: int| 0 <= i < left.len() ==> text::white_space(#[trigger] left[i]),
        forall|i: int| 0 <= i < right.len() ==> text::white_space(#[trigger] right[i]),
        s.len() > 0 ==> !text::white_space(s[0]) && !text::white_space(s.last()),
    ensures
        text::trimmed(left + s + right) == s,
        text::trimmed_end(left + s + right) == if s.len() > 0 {
            left + s
        } else {
            Seq::empty()
        },
{
    lemma_trimmed_end_concat(left + s, right);
    if s.len() > 0 {
        assert((left + s).last() == s.last());
        lemma_trimmed_start_concat(left, s);
    } else {
        assert(left + s == Seq::<char>::empty() + left);
        lemma_trimmed_end_concat(Seq::empty(), left);
        assert(text::trimmed_end(Seq::<char>::empty()) == Seq::<char>::empty());
        assert(text::trimmed_start(Seq::<char>::empty()) == Seq::<char>::empty());
    }
}

/// All that trimming takes away is white space.
pub proof fn lemma_trimmed_end_takes_white_space(s: Seq<char>)
    ensures
        forall|i: int|
            text::trimmed_end(s).len() <= i < s.len() ==> text::white_space(#[trigger] s[i]),
    decreases s.len(),
{
    if s.len() > 0 && text::white_space(s.last()) {
        lemma_trimmed_end_takes_white_space(s.drop_last());
        assert forall|i: int| text::trimmed_end(s).len() <= i < s.len() implies text::white_space(
            #[trigger] s[i],
        ) by {
            if i < s.len() - 1 {
                assert(s[i] == s.drop_last()[i]);
            }
        }
    }
}

/// All that trimming takes away is white space.
pub proof fn lemma_trimmed_start_takes_white_space(s: Seq<char>)
    ensures
        forall|i: int|
            0 <= i < s.len() - text::trimmed_start(s).len() ==> text::white_space(#[trigger] s[i]),
    decreases s.len(),
{
    if s.len() > 0 && text::white_space(s[0]) {
        lemma_trimmed_start_takes_white_space(s.skip(1));
        assert forall|i: int|
            0 <= i < s.len() - text::trimmed_start(s).len() implies text::white_space(
            #[trigger] s[i],
        ) by {
            if i > 0 {
                assert(s[i] == s.skip(1)[i - 1]);
            }
        }
    }
}

/// White space at either end of a text makes no difference to trimming it.
pub proof fn lemma_trimmed_concat(left: Seq<char>, s: Seq<char>, right: Seq<char>)
    requires
        forall|i: int| 0 <= i < left.len() ==> text::white_space(#[trigger] left[i]),
        forall|i: int| 0 <= i < right.len() ==> text::white_space(#[trigger] right[i]),
    ensures
        text::trimmed(left + s + right) == text::trimmed(s),
{
    lemma_trimmed(s);
    lemma_trimmed_end_takes_white_space(s);
    let end = text::trimmed_end(s);
    lemma_trimmed_end(s);
    lemma_trimmed_start_takes_white_space(end);
    let core = text::trimmed(s);
    let from = end.len() - core.len();
    let more_left = left + s.take(from);
    let more_right = s.skip(end.len() as int) + right;
    assert(left + s + right == more_left + core + more_right);
    assert forall|i: int| 0 <= i < more_left.len() implies text::white_space(
        #[trigger] more_left[i],
    ) by {
        if i < left.len() {
            assert(more_left[i] == left[i]);
        } else {
            assert(more_left[i] == end[i - left.len()]);
        }
    }
    assert forall|i: int| 0 <= i < more_right.len() implies text::white_space(
        #[trigger] more_right[i],
    ) by {
        if i < s.len() - end.len() {
            assert(more_right[i] == s[i + end.len()]);
        } else {
            assert(more_right[i] == right[i - (s.len() - end.len())]);
        }
    }
    trimming_leaves_what_white_space_surrounds(more_left, core, more_right);
}

/// A line feed ends a line, and so does a carriage return with a line feed; neither is part of
/// the line. The last line may have no ending, and there is no line behind the last ending.
pub proof fn lines_end_at_line_feeds(line: Seq<char>, rest: Seq<char>)
    requires
        forall|i: int| 0 <= i < line.len() ==> line[i] != '\n',
    ensures
        text::lines_of(Seq::empty()) == Seq::<Seq<char>>::empty(),
        line.len() > 0 ==> text::lines_of(line) == seq![line],
        line.len() == 0 || line.last() != '\r' ==> text::lines_of(line.push('\n') + rest)
            == seq![line] + text::lines_of(rest),
        text::lines_of(line.push('\r').push('\n') + rest) == seq![line] + text::lines_of(rest),
{
    lemma_parted_at_mark(line, '\n', rest);
    lemma_parted_at_mark(line.push('\r'), '\n', rest);
    lemma_parted_without_mark(line, '\n');
    assert(line.push('\r').drop_last() == line);
    lemma_until(line, '\n');
}

/// Joined lines stand one after the other with one line feed between each two.
pub proof fn joined_lines_have_line_feeds_between(line: Seq<char>, rest: Seq<Seq<char>>)
    ensures
        text::joined(Seq::empty()) == Seq::<char>::empty(),
        text::joined(seq![line]) == line,
        rest.len() > 0 ==> text::joined(seq![line] + rest) == line.push('\n') + text::joined(rest),
{
    if rest.len() > 0 {
        lemma_joined_first(line, rest);
    }
}

/// Joining lines and splitting them again gives the lines back, if there are some, none holds a
/// line feed or ends in a carriage return, and the last is not empty.
pub proof fn joined_lines_are_split_again(lines: Seq<Seq<char>>)
    requires
        lines.len() > 0,
        lines.last().len() > 0,
        forall|i: int, j: int|
            0 <= i < lines.len() && 0 <= j < lines[i].len() ==> #[trigger] lines[i][j] != '\n',
        forall|i: int|
            0 <= i < lines.len() && lines[i].len() > 0 ==> (#[trigger] lines[i]).last() != '\r',
    ensures
        text::lines_of(text::joined(lines)) == lines,
    decreases lines.len(),
{
    let line = lines[0];
    let rest = lines.skip(1);
    assert(lines == seq![line] + rest);
    assert forall|j: int| 0 <= j < line.len() implies line[j] != '\n' by {
        assert(lines[0][j] != '\n');
    }
    lines_end_at_line_feeds(line, text::joined(rest));
    if rest.len() > 0 {
        assert forall|i: int, j: int|
            0 <= i < rest.len() && 0 <= j < rest[i].len() implies #[trigger] rest[i][j] != '\n' by {
            assert(rest[i] == lines[i + 1]);
            assert(lines[i + 1][j] != '\n');
        }
        assert forall|i: int| 0 <= i < rest.len() && rest[i].len() > 0 implies (
        #[trigger] rest[i]).last() != '\r' by {
            assert(rest[i] == lines[i + 1]);
        }
        joined_lines_are_split_again(rest);
        lemma_joined_first(line, rest);
    } else {
        assert(lines == seq![line]);
    }
}

/// The carriage return of a line's ending is no part of what trimming the line's end leaves.
pub proof fn lemma_trimmed_end_without_cr(line: Seq<char>)
    ensures
        text::trimmed_end(text::without_cr(line)) == text::trimmed_end(line),
{
}

/// A character in front of a text stands in front of what trimming the end leaves of it, unless
/// that is nothing.
pub proof fn lemma_trimmed_end_prepend(c: char, s: Seq<char>)
    requires
        text::white_space(c),
    ensures
        text::trimmed_end(seq![c] + s) == if text::trimmed_end(s).len() == 0 {
            Seq::empty()
        } else {
            seq![c] + text::trimmed_end(s)
        },
{
    let kept = text::trimmed_end(s);
    let right = s.skip(kept.len() as int);
    lemma_trimmed_end(s);
    lemma_trimmed_end_takes_white_space(s);
    assert forall|i: int| 0 <= i < right.len() implies text::white_space(#[trigger] right[i]) by {
        assert(right[i] == s[i + kept.len()]);
    }
    assert(seq![c] + s == (seq![c] + kept) + right);
    lemma_trimmed_end_concat(seq![c] + kept, right);
    if kept.len() == 0 {
        assert(seq![c] + kept == seq![c]);
        assert(seq![c].drop_last() == Seq::<char>::empty());
        assert(text::trimmed_end(Seq::<char>::empty()) == Seq::<char>::empty());
    } else {
        assert((seq![c] + kept).last() == kept.last());
    }
}

/// A first line and the lines of the rest, with their ends trimmed, are the trimmed first line and
/// the trimmed lines of the rest.
proof fn lemma_lines_trimmed_end_first(line: Seq<char>, rest: Seq<Seq<char>>)
    ensures
        text::lines_trimmed_end(seq![line] + rest) == seq![text::trimmed_end(line)]
            + text::lines_trimmed_end(rest),
{
    let both = seq![line] + rest;
    assert(text::lines_trimmed_end(both) =~= seq![text::trimmed_end(line)]
        + text::lines_trimmed_end(rest));
}

/// The first line of a text that begins with `line` and a line feed is `line`, but for the carriage
/// return of its ending.
pub proof fn lemma_lines_first(line: Seq<char>, rest: Seq<char>)
    requires
        forall|i: int| 0 <= i < line.len() ==> line[i] != '\n',
    ensures
        text::lines_of(line.push('\n') + rest) == seq![text::without_cr(line)] + text::lines_of(
            rest,
        ),
{
    lemma_parted_at_mark(line, '\n', rest);
}

/// Where the first line feed of a text is, and what stands around it.
proof fn lemma_first_line_feed(s: Seq<char>)
    ensures
        forall|i: int| 0 <= i < s.take(text::until(s, '\n') as int).len() ==> s.take(
            text::until(s, '\n') as int,
        )[i] != '\n',
        text::until(s, '\n') <= s.len(),
        text::until(s, '\n') < s.len() ==> s == s.take(text::until(s, '\n') as int).push('\n')
            + s.skip(text::until(s, '\n') as int + 1),
        text::until(s, '\n') == s.len() ==> forall|i: int| 0 <= i < s.len() ==> s[i] != '\n',
{
    lemma_until(s, '\n');
    let k = text::until(s, '\n') as int;
    if k < s.len() {
        assert(s == s.take(k).push('\n') + s.skip(k + 1));
    }
}

/// White space before a line feed makes no difference to lines with their ends trimmed.
pub proof fn lemma_lines_with_white_space_at_an_end(
    a: Seq<char>,
    blanks: Seq<char>,
    b: Seq<char>,
)
    requires
        forall|i: int|
            0 <= i < blanks.len() ==> text::white_space(#[trigger] blanks[i]) && blanks[i] != '\n',
    ensures
        text::lines_trimmed_end(text::lines_of((a + blanks).push('\n') + b))
            == text::lines_trimmed_end(text::lines_of(a.push('\n') + b)),
    decreases a.len(),
{
    lemma_first_line_feed(a);
    let k = text::until(a, '\n') as int;
    if k < a.len() {
        let line = a.take(k);
        let rest = a.skip(k + 1);
        let long = (rest + blanks).push('\n') + b;
        let short = rest.push('\n') + b;
        assert((a + blanks).push('\n') + b == line.push('\n') + long);
        assert(a.push('\n') + b == line.push('\n') + short);
        lemma_lines_first(line, long);
        lemma_lines_first(line, short);
        lemma_lines_trimmed_end_first(text::without_cr(line), text::lines_of(long));
        lemma_lines_trimmed_end_first(text::without_cr(line), text::lines_of(short));
        lemma_lines_with_white_space_at_an_end(rest, blanks, b);
    } else {
        let line = a + blanks;
        assert forall|i: int| 0 <= i < line.len() implies line[i] != '\n' by {
            if i >= a.len() {
                assert(line[i] == blanks[i - a.len()]);
            }
        }
        lemma_lines_first(line, b);
        lemma_lines_first(a, b);
        lemma_lines_trimmed_end_first(text::without_cr(line), text::lines_of(b));
        lemma_lines_trimmed_end_first(text::without_cr(a), text::lines_of(b));
        lemma_trimmed_end_without_cr(line);
        lemma_trimmed_end_without_cr(a);
        lemma_trimmed_end_concat(a, blanks);
    }
}

/// A line feed and a carriage return with a line feed end a line alike.
pub proof fn either_line_ending_ends_a_line(a: Seq<char>, b: Seq<char>)
    requires
        a.len() > 0 ==> a.last() != '\r',
    ensures
        text::lines_of(a.push('\r').push('\n') + b) == text::lines_of(a.push('\n') + b),
    decreases a.len(),
{
    lemma_first_line_feed(a);
    let k = text::until(a, '\n') as int;
    if k < a.len() {
        let line = a.take(k);
        let rest = a.skip(k + 1);
        let long = rest.push('\r').push('\n') + b;
        let short = rest.push('\n') + b;
        assert(a.push('\r').push('\n') + b == line.push('\n') + long);
        assert(a.push('\n') + b == line.push('\n') + short);
        lemma_lines_first(line, long);
        lemma_lines_first(line, short);
        either_line_ending_ends_a_line(rest, b);
    } else {
        lines_end_at_line_feeds(a, b);
    }
}

/// A character that is no line feed, put behind a text, stands at the end of its last line; where
/// there is no line to extend, it makes one.
pub proof fn lemma_lines_extended(s: Seq<char>, c: char)
    requires
        c != '\n',
    ensures
        (s.len() == 0 || s.last() == '\n') ==> text::lines_of(s.push(c)) == text::lines_of(s).push(
            seq![c],
        ),
        (s.len() > 0 && s.last() != '\n') ==> text::lines_of(s).len() > 0 && text::lines_of(
            s.push(c),
        ) == text::lines_of(s).drop_last().push(text::lines_of(s).last().push(c)),
    decreases s.len(),
{
    lines_end_at_line_feeds(seq![c], Seq::empty());
    if s.len() == 0 || s.last() == '\n' {
        assert(s.push(c) == s + seq![c]);
        lemma_lines_concat(s, seq![c]);
    } else {
        lemma_first_line_feed(s);
        let k = text::until(s, '\n') as int;
        if k < s.len() {
            let line = s.take(k);
            let rest = s.skip(k + 1);
            assert(s.push(c) == line.push('\n') + rest.push(c));
            lemma_lines_first(line, rest);
            lemma_lines_first(line, rest.push(c));
            lemma_lines_extended(rest, c);
        } else {
            lines_end_at_line_feeds(s, Seq::empty());
            lines_end_at_line_feeds(s.push(c), Seq::empty());
        }
    }
}

/// A text without a carriage return before a line feed is got back from its lines, but for the line
/// feed at its end.
pub proof fn lemma_rejoin_lines(s: Seq<char>)
    requires
        forall|i: int| 0 <= i < s.len() - 1 && #[trigger] s[i] == '\r' ==> s[i + 1] != '\n',
    ensures
        s.len() > 0 && s.last() == '\n' ==> text::joined(text::lines_of(s)) == s.drop_last(),
        !(s.len() > 0 && s.last() == '\n') ==> text::joined(text::lines_of(s)) == s,
        s.len() > 0 ==> text::lines_of(s).len() > 0,
    decreases s.len(),
{
    if s.len() > 0 {
        lemma_first_line_feed(s);
        let k = text::until(s, '\n') as int;
        if k < s.len() {
            let line = s.take(k);
            let rest = s.skip(k + 1);
            lemma_lines_first(line, rest);
            if k > 0 {
                assert(s[k - 1] != '\r');
            }
            assert forall|i: int| 0 <= i < rest.len() - 1 && #[trigger] rest[i]
                == '\r' implies rest[i + 1] != '\n' by {
                assert(s[i + k + 1] == '\r');
            }
            lemma_rejoin_lines(rest);
            if rest.len() > 0 {
                lemma_joined_first(line, text::lines_of(rest));
            } else {
                assert(text::lines_of(rest) == Seq::<Seq<char>>::empty());
                assert(text::lines_of(s) == seq![line]);
            }
        } else {
            lines_end_at_line_feeds(s, Seq::empty());
        }
    }
}

/// The visible characters of a text are those that are no white space, each in its turn.
pub proof fn visible_characters_are_no_white_space(s: Seq<char>, c: char)
    ensures
        visible(Seq::empty()) == Seq::<char>::empty(),
        text::white_space(c) ==> visible(s.push(c)) == visible(s),
        !text::white_space(c) ==> visible(s.push(c)) == visible(s).push(c),
{
    assert(s.push(c).drop_last() == s);
}

/// A text is parted at the first `mark` and nowhere else.
pub proof fn texts_are_parted_at_the_first_mark(
    before: Seq<char>,
    mark: char,
    behind: Seq<char>,
)
    requires
        forall|i: int| 0 <= i < before.len() ==> before[i] != mark,
    ensures
        text::parted(before.push(mark) + behind, mark) == (before, Some(behind)),
        text::parted(before, mark) == (before, None::<Seq<char>>),
        text::until(before.push(mark) + behind, mark) == before.len(),
        text::until(before, mark) == before.len(),
{
    lemma_parted_at_mark(before, mark, behind);
    lemma_parted_without_mark(before, mark);
    lemma_until(before, mark);
    lemma_until(before.push(mark) + behind, mark);
}

/// What strings hold are their texts, one for each.
pub proof fn strings_hold_their_texts(strings: Seq<String>, at: int)
    requires
        0 <= at < strings.len(),
    ensures
        text::contents(strings).len() == strings.len(),
        text::contents(strings)[at] == strings[at]@,
{
}

} // verus!

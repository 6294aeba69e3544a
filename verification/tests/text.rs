use herdr::text::{
    is_white_space, join_lines, lines, part, same, starts_with, string_of, to_chars, trim, trim_end,
};

/// Every string of at most `longest` characters out of `alphabet`.
fn strings(alphabet: &[char], longest: usize) -> Vec<String> {
    let mut all = vec![String::new()];
    let mut last = vec![String::new()];
    for _ in 0..longest {
        let mut next = Vec::new();
        for s in &last {
            for c in alphabet {
                let mut t = s.clone();
                t.push(*c);
                next.push(t);
            }
        }
        all.extend(next.iter().cloned());
        last = next;
    }
    all
}

#[test]
fn white_space_is_what_the_standard_library_takes_for_it() {
    for c in '\u{0}'..=char::MAX {
        assert_eq!(is_white_space(c), c.is_whitespace(), "{:?}", c);
    }
}

#[test]
fn trimming_agrees_with_the_standard_library() {
    for s in strings(&['a', ' ', '\n', '\u{3000}'], 6) {
        assert_eq!(trim(&s), s.trim());
        assert_eq!(trim_end(&s), s.trim_end());
    }
}

#[test]
fn lines_agree_with_the_standard_library() {
    for s in strings(&['a', ' ', '\n', '\r'], 6) {
        let expected: Vec<String> = s.lines().map(str::to_string).collect();
        assert_eq!(lines(&s), expected, "{:?}", s);
    }
}

#[test]
fn a_trailing_carriage_return_is_part_of_the_last_line() {
    assert_eq!(lines("foo\nbar\r\n\nbaz\r"), ["foo", "bar", "", "baz\r"]);
}

#[test]
fn joining_puts_line_feeds_between() {
    assert_eq!(join_lines(&vec![]), "");
    assert_eq!(join_lines(&vec!["a".to_string()]), "a");
    let three = vec!["a".to_string(), "".to_string(), "b".to_string()];
    assert_eq!(join_lines(&three), "a\n\nb");
}

#[test]
fn prefixes_are_found() {
    assert!(starts_with("## [0.2.3] - today", "## [0.2.3]"));
    assert!(starts_with("abc", ""));
    assert!(starts_with("abc", "abc"));
    assert!(!starts_with("abc", "abcd"));
    assert!(!starts_with("abc", "b"));
}

#[test]
fn equal_text_is_the_same() {
    assert!(same("h\u{e9}rd", "h\u{e9}rd"));
    assert!(!same("herd", "herdr"));
    assert!(!same("herd", "herb"));
}

#[test]
fn text_is_parted_at_the_first_mark() {
    assert_eq!(part("a-b-c", '-'), ("a", Some("b-c")));
    assert_eq!(part("abc", '-'), ("abc", None));
    assert_eq!(part("-", '-'), ("", Some("")));
    assert_eq!(part("\u{e9}-\u{fc}", '-'), ("\u{e9}", Some("\u{fc}")));
}

#[test]
fn a_stretch_of_characters_becomes_a_string() {
    let chars = to_chars("h\u{e9}rdr");
    assert_eq!(chars, ['h', '\u{e9}', 'r', 'd', 'r']);
    assert_eq!(string_of(&chars, 1, 4), "\u{e9}rd");
    assert_eq!(string_of(&chars, 2, 2), "");
}

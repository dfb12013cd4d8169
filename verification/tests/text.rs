use chatlog::text::split_lines;

#[test]
fn lines_are_the_pieces_between_line_feeds() {
    assert_eq!(split_lines("a\nbc\nd"), vec!["a", "bc", "d"]);
    assert_eq!(split_lines("one line"), vec!["one line"]);
}

#[test]
fn a_trailing_line_feed_leaves_an_empty_last_line() {
    assert_eq!(split_lines("a\n"), vec!["a", ""]);
    assert_eq!(split_lines("\n"), vec!["", ""]);
    assert_eq!(split_lines("\n\n"), vec!["", "", ""]);
}

#[test]
fn the_empty_text_is_one_empty_line() {
    assert_eq!(split_lines(""), vec![""]);
}

#[test]
fn lines_agree_with_the_standard_split() {
    for content in ["", "x", "\n", "a\n\nb", "a\r\nb\r\n", "\u{e9}\n\u{1f408}\n", "no feed at all"] {
        let expected: Vec<&str> = content.split('\n').collect();
        assert_eq!(split_lines(content), expected);
        assert_eq!(split_lines(content).join("\n"), content);
    }
}

use exercises::error_handling::last_char_of_first_line;

#[test]
fn last_char_of_first_line_is_found() {
    assert_eq!(Some('d'), last_char_of_first_line("Hello, world\nHow are you today?"));
    assert_eq!(Some('x'), last_char_of_first_line("x"));
    assert_eq!(Some('\u{e9}'), last_char_of_first_line("caf\u{e9}\r\nnoir"));
    assert_eq!(Some('\r'), last_char_of_first_line("a\r"));
}

#[test]
fn last_char_of_first_line_may_be_missing() {
    assert_eq!(None, last_char_of_first_line(""));
    assert_eq!(None, last_char_of_first_line("\nhi"));
    assert_eq!(None, last_char_of_first_line("\r\nhi"));
}

#[test]
fn last_char_of_first_line_agrees_with_the_standard_library() {
    for text in ["", "\n", "a", "ab\ncd", "\r\n", "ab\r\ncd", "ab\r", "\u{1F600}\n", "x\ny\n"] {
        let expected = match text.lines().next() {
            Some(line) => line.chars().last(),
            None => None,
        };
        assert_eq!(expected, last_char_of_first_line(text), "for {text:?}");
    }
}

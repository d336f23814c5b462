use exercises::text::{cut_at_first, find_byte};

#[test]
fn find_byte_gives_the_first_place() {
    assert_eq!(2, find_byte(b"ab,cd,ef", b','));
    assert_eq!(0, find_byte(b",", b','));
    assert_eq!(3, find_byte(b"abc", b','));
    assert_eq!(0, find_byte(b"", b','));
}

#[test]
fn cut_at_first_cuts_before_the_mark() {
    assert_eq!(("key", "=value=more"), cut_at_first("key=value=more", b'='));
    assert_eq!(("", "=x"), cut_at_first("=x", b'='));
    assert_eq!(("no mark", ""), cut_at_first("no mark", b'='));
    assert_eq!(("", ""), cut_at_first("", b'='));
    assert_eq!(("\u{e9}\u{1F600}", "=\u{e9}"), cut_at_first("\u{e9}\u{1F600}=\u{e9}", b'='));
}

#[test]
fn cut_at_first_gives_back_the_whole_text() {
    for text in ["", "a", "a b", " a", "a ", "\u{2003}x y"] {
        let (before, rest) = cut_at_first(text, b' ');
        assert_eq!(text, format!("{before}{rest}"));
        assert!(!before.contains(' '));
        assert!(rest.is_empty() || rest.starts_with(' '));
    }
}

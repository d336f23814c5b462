use exercises::lifetimes::{longest, ImportantExcerpt};

#[test]
fn longest_picks_the_longer_text() {
    assert_eq!("abcd", longest("abcd", "xyz"));
    assert_eq!("long string is long", longest("long string is long", "xyz"));
    assert_eq!("wxyz", longest("abc", "wxyz"));
}

#[test]
fn longest_picks_the_second_of_two_equally_long_texts() {
    let first = String::from("abc");
    let second = String::from("xyz");
    assert_eq!("xyz", longest(&first, &second));
    assert_eq!("", longest("", ""));
}

#[test]
fn longest_counts_bytes() {
    assert_eq!("\u{e9}\u{e9}", longest("abc", "\u{e9}\u{e9}"));
    assert_eq!("abc", longest("\u{e9}", "abc"));
}

#[test]
fn first_sentence_ends_before_the_first_full_stop() {
    let novel = String::from("Call me Ishmael. Some years ago...");
    let excerpt = ImportantExcerpt::first_sentence(&novel);
    assert_eq!("Call me Ishmael", excerpt.part);
    assert_eq!(novel.split('.').next().unwrap(), excerpt.part);
    assert_eq!("no full stop", ImportantExcerpt::first_sentence("no full stop").part);
    assert_eq!("", ImportantExcerpt::first_sentence(".").part);
    assert_eq!("", ImportantExcerpt::first_sentence("").part);
}

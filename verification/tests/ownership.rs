use exercises::ownership::{calculate_length, change, dangle, first_word, gives_ownership, takes_and_gives_back};

#[test]
fn strings_are_given_and_given_back() {
    assert_eq!("yours", gives_ownership());
    assert_eq!("hello", takes_and_gives_back(String::from("hello")));
    assert_eq!("hello", dangle());
}

#[test]
fn calculate_length_counts_bytes() {
    assert_eq!(5, calculate_length(&String::from("hello")));
    assert_eq!(0, calculate_length(&String::new()));
    assert_eq!(24, calculate_length(&String::from("\u{417}\u{434}\u{440}\u{430}\u{432}\u{441}\u{442}\u{432}\u{443}\u{439}\u{442}\u{435}")));
}

#[test]
fn change_adds_world() {
    let mut s = String::from("hello");
    change(&mut s);
    assert_eq!("hello, world", s);
    let mut empty = String::new();
    change(&mut empty);
    assert_eq!(", world", empty);
}

#[test]
fn first_word_ends_before_the_first_space() {
    assert_eq!("hello", first_word("hello world"));
    assert_eq!("hello", first_word(&String::from("hello world")[0..6]));
    assert_eq!("helloworld", first_word("helloworld"));
    assert_eq!("", first_word(" hello"));
    assert_eq!("", first_word(""));
    assert_eq!("a", first_word("a b c"));
    assert_eq!("\u{e9}t\u{e9}", first_word("\u{e9}t\u{e9} chaud"));
    assert_eq!("tab\tkept", first_word("tab\tkept here"));
}

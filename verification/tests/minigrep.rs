use exercises::minigrep::lines::lines;
use exercises::minigrep::pattern::contains;
use exercises::minigrep::casefold::to_lowercase;
use exercises::minigrep::{filter, search, search_case_insensitive, Config};

#[test]
fn case_sensitive() {
    let query = "duct";
    let contents = "\
Rust:
safe, fast, productive.
Pick three.
Duct tape.";

    assert_eq!(vec!["safe, fast, productive."], search(query, contents));
}

#[test]
fn case_insensitive() {
    let query = "rUsT";
    let contents = "\
Rust:
safe, fast, productive.
Pick three.
Trust me.";

    assert_eq!(
        vec!["Rust:", "Trust me."],
        search_case_insensitive(query, contents)
    );
}

#[test]
fn filter_with_case_skips_the_capitalized_line() {
    let contents = "Rust:\nsafe, fast, productive.\nPick three.\nDuct tape.";
    assert_eq!(vec!["safe, fast, productive."], filter("duct", contents, false));
}

#[test]
fn filter_without_case_finds_both_lines() {
    let contents = "Rust:\nsafe, fast, productive.\nPick three.\nTrust me.";
    assert_eq!(vec!["Rust:", "Trust me."], filter("rUsT", contents, true));
}

#[test]
fn empty_document_has_no_matches() {
    assert_eq!(Vec::<&str>::new(), filter("anything", "", false));
    assert_eq!(Vec::<&str>::new(), filter("anything", "", true));
    assert_eq!(Vec::<&str>::new(), filter("", "", false));
    assert_eq!(Vec::<&str>::new(), filter("", "", true));
}

#[test]
fn empty_query_selects_every_line() {
    assert_eq!(vec!["one", "two", "three"], filter("", "one\ntwo\nthree", false));
    assert_eq!(vec!["one", "two", "three"], filter("", "one\ntwo\nthree", true));
    assert_eq!(vec!["", "", "x", ""], filter("", "\n\nx\n\n", false));
}

#[test]
fn query_over_a_line_break_never_matches() {
    let contents = "first\nsecond\nthird";
    assert_eq!(Vec::<&str>::new(), filter("first\nsecond", contents, false));
    assert_eq!(Vec::<&str>::new(), filter("first\nsecond", contents, true));
    assert_eq!(Vec::<&str>::new(), filter("t\ns", contents, false));
    assert_eq!(Vec::<&str>::new(), filter("T\nS", contents, true));
    assert_eq!(Vec::<&str>::new(), filter("\n", contents, false));
    assert_eq!(Vec::<&str>::new(), filter("\n", contents, true));
    assert_eq!(Vec::<&str>::new(), filter("firstsecond", contents, false));
}

#[test]
fn matches_keep_document_order_and_duplicates() {
    let contents = "b a\na\nc\nb a\na\nA";
    assert_eq!(vec!["b a", "a", "b a", "a"], filter("a", contents, false));
    assert_eq!(vec!["b a", "a", "b a", "a", "A"], filter("a", contents, true));
    assert_eq!(vec!["b a", "b a"], filter("b", contents, false));
}

#[test]
fn filter_gives_the_same_lines_when_called_again() {
    let contents = "Alpha\nbeta\nALPHABET\nalpha beta\n";
    let once = filter("alpha", contents, true);
    let again = filter("alpha", contents, true);
    assert_eq!(once, again);
    assert_eq!(vec!["Alpha", "ALPHABET", "alpha beta"], once);
    assert_eq!(filter("alpha", contents, false), filter("alpha", contents, false));
}

#[test]
fn search_with_case_finds_a_part_of_search_without_case() {
    let contents = "The duct\nDUCT TAPE\nproduct\nPRODUCTIVE\nnothing";
    let with_case = filter("duct", contents, false);
    let without_case = filter("duct", contents, true);
    assert_eq!(vec!["The duct", "product"], with_case);
    assert_eq!(vec!["The duct", "DUCT TAPE", "product", "PRODUCTIVE"], without_case);
    let mut rest = without_case.iter();
    for line in &with_case {
        assert!(rest.any(|other| other == line));
    }
}

#[test]
fn lines_are_cut_as_the_standard_library_cuts_them() {
    let texts = [
        "",
        "\n",
        "\r\n",
        "\r",
        "a",
        "a\n",
        "a\r\n",
        "a\r",
        "a\n\nb",
        "a\r\n\r\nb\r\n",
        "one\ntwo\nthree",
        "one\r\ntwo\rstill two\nthree\r",
        "\n\n\n",
        "tr\u{e8}s\nbien\r\n\u{2764}\u{fe0f}\n\u{1F600} fin",
        "no newline at all",
        "\r\r\n",
        "x\n\r",
    ];
    for text in texts {
        let expected: Vec<&str> = text.lines().collect();
        assert_eq!(expected, lines(text), "for {text:?}");
    }
}

#[test]
fn lines_hold_no_terminator() {
    assert_eq!(vec!["one", "two", "three"], lines("one\r\ntwo\nthree\n"));
    assert_eq!(vec!["a\rb"], lines("a\rb"));
    assert_eq!(vec!["a\r"], lines("a\r"));
    assert_eq!(vec!["a\r", "b"], lines("a\r\r\nb"));
}

#[test]
fn contains_agrees_with_the_standard_library() {
    let hays = ["", "a", "abc", "aab", "ababab", "tr\u{e8}s bien", "\u{1F600}\u{1F601}", "a\u{e8}"];
    let needles = ["", "a", "b", "ab", "abc", "abcd", "bab", "aab", "\u{e8}", "\u{e8}s", "\u{1F601}", "\u{1F600}\u{1F601}", "s b"];
    for hay in hays {
        for needle in needles {
            assert_eq!(hay.contains(needle), contains(hay, needle), "{hay:?} {needle:?}");
        }
    }
}

#[test]
fn contains_finds_a_match_at_each_end() {
    assert!(contains("abcdef", "abc"));
    assert!(contains("abcdef", "def"));
    assert!(contains("abcdef", "abcdef"));
    assert!(contains("abcdef", ""));
    assert!(contains("", ""));
    assert!(!contains("", "a"));
    assert!(!contains("abcdef", "abcdefg"));
    assert!(!contains("abcdef", "ace"));
}

#[test]
fn to_lowercase_lowers_each_character() {
    assert_eq!("", to_lowercase(""));
    assert_eq!("rust: safe, fast.", to_lowercase("RuSt: Safe, FAST."));
    assert_eq!("tr\u{e8}s", to_lowercase("TR\u{c8}S"));
    assert_eq!("i\u{307}", to_lowercase("\u{130}"));
    assert_eq!("\u{3c3}\u{3c3}", to_lowercase("\u{3a3}\u{3a3}"));
}

#[test]
fn search_without_case_handles_letters_beyond_ascii() {
    let contents = "TR\u{c8}S BIEN\ntres bien\n\u{c9}cole";
    assert_eq!(vec!["TR\u{c8}S BIEN"], search_case_insensitive("tr\u{e8}s", contents));
    assert_eq!(vec!["\u{c9}cole"], search_case_insensitive("\u{e9}COLE", contents));
    assert_eq!(Vec::<&str>::new(), search("tr\u{e8}s", contents));
}

#[test]
fn build_takes_query_and_path() {
    let args = vec![
        String::from("minigrep"),
        String::from("needle"),
        String::from("haystack.txt"),
    ];
    let config = Config::build(&args, false).unwrap();
    assert_eq!("needle", config.query);
    assert_eq!("haystack.txt", config.file_path);
    assert!(!config.ignore_case);
    let config = Config::build(&args, true).unwrap();
    assert!(config.ignore_case);
}

#[test]
fn build_ignores_further_arguments() {
    let args = vec![
        String::from("minigrep"),
        String::from("needle"),
        String::from("haystack.txt"),
        String::from("more"),
    ];
    let config = Config::build(&args, true).unwrap();
    assert_eq!("needle", config.query);
    assert_eq!("haystack.txt", config.file_path);
}

#[test]
fn build_fails_with_one_positional_argument() {
    let args = vec![String::from("minigrep"), String::from("needle")];
    let error = Config::build(&args, false).err().unwrap();
    assert_eq!("not enough arguments", error);
    assert!(error.contains("arguments"));
}

#[test]
fn build_fails_without_arguments() {
    assert_eq!(Some("not enough arguments"), Config::build(&[], false).err());
    assert_eq!(
        Some("not enough arguments"),
        Config::build(&[String::from("minigrep")], true).err()
    );
}

#[test]
fn filter_leaves_line_terminators_out() {
    assert_eq!(vec!["two"], filter("two", "one\r\ntwo\r\nthree\r\n", false));
    assert_eq!(vec!["one", "two"], filter("o", "one\r\ntwo\r\nthree", true));
    assert_eq!(Vec::<&str>::new(), filter("two\r", "one\r\ntwo\r\nthree\r\n", false));
    assert_eq!(vec!["two\rthree"], filter("two\r", "one\ntwo\rthree\n", false));
    assert_eq!(vec!["three\r"], filter("\r", "one\r\ntwo\r\nthree\r", false));
}

#[test]
fn search_agrees_with_a_scan_by_the_standard_library() {
    let documents = [
        "",
        "Rust:\nsafe, fast, productive.\nPick three.\nDuct tape.",
        "I'm nobody! Who are you?\nAre you nobody, too?\nThen there's a pair of us - don't tell!\n",
        "a\r\nab\r\nabc\r\n\r\nb",
        "na\u{ef}ve caf\u{e9}\nNA\u{cf}VE CAF\u{c9}\nplain\n",
        "\n\n\n",
    ];
    let queries = ["", "a", "A", "nobody", "NOBODY", "b", "\u{e9}", "\u{c9}", "you", "t", "T", " "];
    for contents in documents {
        for query in queries {
            let with_case: Vec<&str> = contents.lines().filter(|line| line.contains(query)).collect();
            assert_eq!(with_case, search(query, contents), "{query:?} in {contents:?}");
            let lowered = query.to_lowercase();
            let without_case: Vec<&str> = contents
                .lines()
                .filter(|line| line.to_lowercase().contains(&lowered))
                .collect();
            assert_eq!(without_case, search_case_insensitive(query, contents), "{query:?} in {contents:?}");
        }
    }
}

#[test]
fn results_are_slices_of_the_document() {
    let contents = String::from("alpha\nbeta\ngamma");
    let found = search("a", &contents);
    assert_eq!(vec!["alpha", "beta", "gamma"], found);
    let start = contents.as_ptr() as usize;
    let end = start + contents.len();
    for line in found {
        let at = line.as_ptr() as usize;
        assert!(start <= at && at + line.len() <= end);
    }
}

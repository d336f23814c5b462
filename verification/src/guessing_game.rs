//! A game of guessing a secret number from 1 to 100.
//!
//! The game keeps the secret and answers each line that the player types:
//! too small, too big, or won. A line that is no number gets no answer, and
//! the player is asked again.

use rand::Rng;
use vstd::prelude::*;

verus! {

/// The smallest secret.
pub const LOWEST: u32 = 1;

/// The largest secret.
pub const HIGHEST: u32 = 100;

/// A guess that has been checked: a number from 1 to 100.
pub struct Guess {
    value: i32,
}

impl Guess {
    /// The number guessed.
    pub closed spec fn spec_value(&self) -> i32 {
        self.value
    }

    #[verifier::type_invariant]
    spec fn in_range(&self) -> bool {
        1 <= self.value <= 100
    }

    /// The guess `value`, which has to be a number from 1 to 100.
    pub fn new(value: i32) -> (guess: Guess)
        requires
            1 <= value <= 100,
        ensures
            guess.spec_value() == value,
    {
        Guess { value }
    }

    /// The number guessed. It is from 1 to 100.
    #[verifier::when_used_as_spec(spec_value)]
    pub fn value(&self) -> (value: i32)
        ensures
            value == self.spec_value(),
            1 <= value <= 100,
    {
        proof {
            use_type_invariant(self);
        }
        self.value
    }
}

/// Whether `c` is white space, as Unicode defines it.
pub open spec fn is_whitespace(c: char) -> bool {
    ||| '\u{9}' <= c <= '\u{D}'
    ||| c == ' '
    ||| c == '\u{85}'
    ||| c == '\u{A0}'
    ||| c == '\u{1680}'
    ||| '\u{2000}' <= c <= '\u{200A}'
    ||| c == '\u{2028}'
    ||| c == '\u{2029}'
    ||| c == '\u{202F}'
    ||| c == '\u{205F}'
    ||| c == '\u{3000}'
}

/// `text` without the white space at its start.
pub open spec fn trim_start(text: Seq<char>) -> Seq<char>
    decreases text.len(),
{
    if text.len() > 0 && is_whitespace(text[0]) {
        trim_start(text.drop_first())
    } else {
        text
    }
}

/// `text` without the white space at its end.
pub open spec fn trim_end(text: Seq<char>) -> Seq<char>
    decreases text.len(),
{
    if text.len() > 0 && is_whitespace(text.last()) {
        trim_end(text.drop_last())
    } else {
        text
    }
}

/// `text` without the white space at its start and at its end.
pub open spec fn trim(text: Seq<char>) -> Seq<char> {
    trim_end(trim_start(text))
}

/// Whether `c` is one of the digits `0` to `9`.
pub open spec fn is_digit(c: char) -> bool {
    '0' <= c <= '9'
}

/// The number that a text of digits writes in base ten.
pub open spec fn number_of(digits: Seq<char>) -> nat
    decreases digits.len(),
{
    if digits.len() == 0 {
        0
    } else {
        (10 * number_of(digits.drop_last()) + (digits.last() as nat - '0' as nat)) as nat
    }
}

/// The number that `digits` writes, where it holds digits only, at least
/// one, and the number fits in 32 bits.
pub open spec fn parse_digits(digits: Seq<char>) -> Option<u32> {
    if digits.len() > 0 && (forall|i: int| 0 <= i < digits.len() ==> is_digit(digits[i]))
        && number_of(digits) <= u32::MAX {
        Some(number_of(digits) as u32)
    } else {
        None
    }
}

/// The number that `text` writes: digits, with or without a plus sign before
/// them, and nothing else. There is none where `text` is anything else, or
/// where the number is too large for 32 bits.
pub open spec fn parse_number(text: Seq<char>) -> Option<u32> {
    if text.len() > 0 && text[0] == '+' {
        parse_digits(text.drop_first())
    } else {
        parse_digits(text)
    }
}

/// What the game says of a guess.
#[derive(PartialEq, Eq, Structural, Debug)]
pub enum Verdict {
    TooSmall,
    TooBig,
    Win,
}

/// What the game says of `guess` when the secret is `secret`.
pub open spec fn verdict_of(guess: u32, secret: u32) -> Verdict {
    if guess < secret {
        Verdict::TooSmall
    } else if guess > secret {
        Verdict::TooBig
    } else {
        Verdict::Win
    }
}

/// What the game answers to a line of input.
#[derive(PartialEq, Eq, Structural, Debug)]
pub enum Reply {
    /// The line was no number: the player is asked again.
    Ignored,
    /// The line was this number, and the game says this of it.
    Judged(u32, Verdict),
}

/// What the game answers to the line `line` when the secret is `secret`.
pub open spec fn reply_to(secret: u32, line: Seq<char>) -> Reply {
    match parse_number(trim(line)) {
        Some(guess) => Reply::Judged(guess, verdict_of(guess, secret)),
        None => Reply::Ignored,
    }
}

/// The numbers written by a text grow with the text.
proof fn lemma_number_grows(digits: Seq<char>, n: int)
    requires
        0 <= n <= digits.len(),
        forall|i: int| 0 <= i < digits.len() ==> is_digit(digits[i]),
    ensures
        number_of(digits.take(n)) <= number_of(digits),
    decreases digits.len() - n,
{
    if n < digits.len() {
        lemma_number_grows(digits, n + 1);
        assert(digits.take(n + 1).drop_last() =~= digits.take(n));
        assert(digits.take(n + 1).last() == digits[n]);
    } else {
        assert(digits.take(n) =~= digits);
    }
}

/// Whether `c` is white space.
fn whitespace(c: char) -> (space: bool)
    ensures
        space == is_whitespace(c),
{
    ('\u{9}' <= c && c <= '\u{D}') || c == ' ' || c == '\u{85}' || c == '\u{A0}' || c == '\u{1680}'
        || ('\u{2000}' <= c && c <= '\u{200A}') || c == '\u{2028}' || c == '\u{2029}' || c
        == '\u{202F}' || c == '\u{205F}' || c == '\u{3000}'
}

/// The characters of `text`.
fn chars_of(text: &str) -> (chars: Vec<char>)
    ensures
        chars@ == text@,
{
    let mut chars: Vec<char> = Vec::new();
    for c in it: text.chars()
        invariant
            it.seq() == text@,
            chars@ == text@.take(it.index() as int),
    {
        chars.push(c);
    }
    proof {
        assert(text@.take(text@.len() as int) =~= text@);
    }
    chars
}

/// Where `text` begins and ends once the white space around it is left out.
fn trimmed_range(text: &[char]) -> (range: (usize, usize))
    ensures
        range.0 <= range.1 <= text@.len(),
        text@.subrange(range.0 as int, range.1 as int) == trim(text@),
{
    let n = text.len();
    let mut start: usize = 0;
    proof {
        assert(text@.subrange(0, n as int) =~= text@);
    }
    while start < n && whitespace(text[start])
        invariant
            start <= n == text@.len(),
            trim_start(text@) == trim_start(text@.subrange(start as int, n as int)),
        decreases n - start,
    {
        proof {
            assert(text@.subrange(start as int, n as int).drop_first() =~= text@.subrange(
                start + 1,
                n as int,
            ));
        }
        start += 1;
    }
    let mut end: usize = n;
    while end > start && whitespace(text[end - 1])
        invariant
            start <= end <= n == text@.len(),
            trim_start(text@) == text@.subrange(start as int, n as int),
            trim(text@) == trim_end(text@.subrange(start as int, end as int)),
        decreases end - start,
    {
        proof {
            assert(text@.subrange(start as int, end as int).drop_last() =~= text@.subrange(
                start as int,
                end - 1,
            ));
        }
        end -= 1;
    }
    (start, end)
}

/// The number that the characters of `text` from `start` up to `end` write.
fn parse_range(text: &[char], start: usize, end: usize) -> (number: Option<u32>)
    requires
        start <= end <= text@.len(),
    ensures
        number == parse_number(text@.subrange(start as int, end as int)),
{
    let ghost whole = text@.subrange(start as int, end as int);
    let first: usize = if start < end && text[start] == '+' {
        start + 1
    } else {
        start
    };
    let ghost digits = text@.subrange(first as int, end as int);
    proof {
        if first > start {
            assert(whole[0] == '+');
            assert(whole.drop_first() =~= digits);
        } else {
            assert(whole =~= digits);
            if whole.len() > 0 {
                assert(whole[0] == text@[start as int]);
            }
        }
    }
    if first == end {
        return None;
    }
    let mut total: u64 = 0;
    let mut at: usize = first;
    proof {
        assert(digits.take(0) =~= Seq::<char>::empty());
    }
    while at < end
        invariant
            first <= at <= end <= text@.len(),
            first < end,
            digits == text@.subrange(first as int, end as int),
            parse_number(text@.subrange(start as int, end as int)) == parse_digits(digits),
            forall|i: int| 0 <= i < at - first ==> is_digit(digits[i]),
            total == number_of(digits.take(at - first)),
            total <= u32::MAX,
        decreases end - at,
    {
        let c = text[at];
        proof {
            assert(digits[at - first] == c);
            assert(digits.take(at - first + 1).drop_last() =~= digits.take(at - first));
            assert(digits.take(at - first + 1).last() == c);
        }
        if !('0' <= c && c <= '9') {
            return None;
        }
        total = total * 10 + (c as u64 - '0' as u64);
        if total > u32::MAX as u64 {
            proof {
                if forall|i: int| 0 <= i < digits.len() ==> is_digit(digits[i]) {
                    lemma_number_grows(digits, at - first + 1);
                }
            }
            return None;
        }
        at += 1;
    }
    proof {
        assert(digits.take(digits.len() as int) =~= digits);
    }
    Some(total as u32)
}

/// The number that `line` writes once the white space around it is left
/// out, if it writes one.
pub fn parse_guess(line: &str) -> (guess: Option<u32>)
    ensures
        guess == parse_number(trim(line@)),
{
    let chars = chars_of(line);
    let (start, end) = trimmed_range(chars.as_slice());
    parse_range(chars.as_slice(), start, end)
}

/// What the game says of `guess` when the secret is `secret`.
pub fn judge(guess: u32, secret: u32) -> (verdict: Verdict)
    ensures
        verdict == verdict_of(guess, secret),
{
    if guess < secret {
        Verdict::TooSmall
    } else if guess > secret {
        Verdict::TooBig
    } else {
        Verdict::Win
    }
}

/// A number from `low` to `high`, drawn by `Rng::gen_range` of the crate
/// `rand` from the generator of the thread, `rand::thread_rng`. The contract
/// is believed, not proved: it says that the number lies in the range, which
/// holds of every draw, and nothing of which number comes.
#[verifier::external_body]
fn random_between(low: u32, high: u32) -> (number: u32)
    requires
        low <= high,
    ensures
        low <= number <= high,
{
    rand::thread_rng().gen_range(low..=high)
}

/// A game in play.
pub struct Game {
    secret: u32,
}

impl Game {
    /// The number to guess.
    pub closed spec fn spec_secret(&self) -> u32 {
        self.secret
    }

    #[verifier::type_invariant]
    spec fn in_range(&self) -> bool {
        LOWEST <= self.secret <= HIGHEST
    }

    /// A game with a secret drawn at random from 1 to 100.
    pub fn new() -> (game: Game)
        ensures
            LOWEST <= game.spec_secret() <= HIGHEST,
    {
        Game::with_secret(random_between(LOWEST, HIGHEST))
    }

    /// A game with the secret `secret`, which has to be a number from 1 to
    /// 100.
    pub fn with_secret(secret: u32) -> (game: Game)
        requires
            LOWEST <= secret <= HIGHEST,
        ensures
            game.spec_secret() == secret,
    {
        Game { secret }
    }

    /// The number to guess. It is from 1 to 100.
    #[verifier::when_used_as_spec(spec_secret)]
    pub fn secret(&self) -> (secret: u32)
        ensures
            secret == self.spec_secret(),
            LOWEST <= secret <= HIGHEST,
    {
        proof {
            use_type_invariant(self);
        }
        self.secret
    }

    /// The answer of the game to a line that the player typed.
    pub fn respond(&self, line: &str) -> (reply: Reply)
        ensures
            reply == reply_to(self.spec_secret(), line@),
    {
        match parse_guess(line) {
            Some(guess) => Reply::Judged(guess, judge(guess, self.secret)),
            None => Reply::Ignored,
        }
    }
}

} // verus!

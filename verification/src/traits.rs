//! Things that can be summed up in a line, and pairs that know their larger
//! member.

use std::cmp::Ordering;
use vstd::prelude::*;
use vstd::std_specs::cmp::PartialOrdSpec;
use vstd::string::StringExecFns;

verus! {

/// What can be summed up in a line of text.
pub trait Summary {
    /// The text that `summarize_author` returns.
    spec fn author(&self) -> Seq<char>;

    /// The text that `summarize` returns.
    spec fn summary(&self) -> Seq<char>;

    /// Who wrote it.
    fn summarize_author(&self) -> (author: String)
        ensures
            author@ == self.author(),
    ;

    /// The line that sums it up.
    fn summarize(&self) -> (summary: String)
        ensures
            summary@ == self.summary(),
    ;
}

/// The line that sums up a thing of which only the author is known.
pub open spec fn read_more_text(author: Seq<char>) -> Seq<char> {
    "(Read more from "@ + author + "...)"@
}

/// A line that points to the author of `item`, for types that have nothing
/// better to say in `summarize`.
pub fn read_more<T: Summary>(item: &T) -> (summary: String)
    ensures
        summary@ == read_more_text(item.author()),
{
    let mut summary = String::from_str("(Read more from ");
    let author = item.summarize_author();
    summary.append(author.as_str());
    summary.append("...)");
    summary
}

/// An article in a newspaper.
pub struct NewsArticle {
    pub headline: String,
    pub location: String,
    pub author: String,
    pub content: String,
}

impl Summary for NewsArticle {
    open spec fn author(&self) -> Seq<char> {
        "@"@ + self.author@
    }

    open spec fn summary(&self) -> Seq<char> {
        self.headline@ + ", by "@ + self.author@ + " ("@ + self.location@ + ")"@
    }

    fn summarize_author(&self) -> (author: String) {
        let mut author = String::from_str("@");
        author.append(self.author.as_str());
        author
    }

    fn summarize(&self) -> (summary: String) {
        let mut summary = self.headline.clone();
        summary.append(", by ");
        summary.append(self.author.as_str());
        summary.append(" (");
        summary.append(self.location.as_str());
        summary.append(")");
        summary
    }
}

/// A short public message.
pub struct Tweet {
    pub username: String,
    pub content: String,
    pub reply: bool,
    pub retweet: bool,
}

impl Summary for Tweet {
    open spec fn author(&self) -> Seq<char> {
        "@"@ + self.username@
    }

    open spec fn summary(&self) -> Seq<char> {
        self.username@ + ": "@ + self.content@
    }

    fn summarize_author(&self) -> (author: String) {
        let mut author = String::from_str("@");
        author.append(self.username.as_str());
        author
    }

    fn summarize(&self) -> (summary: String) {
        let mut summary = self.username.clone();
        summary.append(": ");
        summary.append(self.content.as_str());
        summary
    }
}

/// The announcement of `item`: `"Breaking news! "` and its summary.
pub fn breaking_news<T: Summary>(item: &T) -> (news: String)
    ensures
        news@ == "Breaking news! "@ + item.summary(),
{
    let mut news = String::from_str("Breaking news! ");
    let summary = item.summarize();
    news.append(summary.as_str());
    news
}

/// Something that can be summed up, without saying what it is.
pub fn returns_summarizable() -> (item: impl Summary)
    ensures
        item.author() == "@horse_ebooks"@,
        item.summary() == "horse_ebooks: of course, as you probably already know, people"@,
{
    let item = Tweet {
        username: String::from_str("horse_ebooks"),
        content: String::from_str("of course, as you probably already know, people"),
        reply: false,
        retweet: false,
    };
    proof {
        reveal_strlit("@");
        reveal_strlit("horse_ebooks");
        reveal_strlit("@horse_ebooks");
        reveal_strlit(": ");
        reveal_strlit("of course, as you probably already know, people");
        reveal_strlit("horse_ebooks: of course, as you probably already know, people");
        assert(item.author() =~= "@horse_ebooks"@);
        assert(item.summary() =~= "horse_ebooks: of course, as you probably already know, people"@);
    }
    item
}

/// Two values of one type.
pub struct Pair<T> {
    pub x: T,
    pub y: T,
}

/// One of the two members of a pair.
#[derive(PartialEq, Eq, Structural, Debug)]
pub enum Member {
    X,
    Y,
}

impl<T> Pair<T> {
    /// The pair of `x` and `y`.
    pub fn new(x: T, y: T) -> (pair: Self)
        ensures
            pair.x == x,
            pair.y == y,
    {
        Self { x, y }
    }
}

impl<T: PartialOrd> Pair<T> {
    /// Which member is the largest: `x` where it is greater than `y` or
    /// equal to it, else `y`.
    pub fn largest_member(&self) -> (member: Member)
        ensures
            T::obeys_partial_cmp_spec() ==> (member == Member::X <==> self.x.partial_cmp_spec(
                &self.y,
            ) matches Some(Ordering::Greater | Ordering::Equal)),
    {
        if self.x >= self.y {
            Member::X
        } else {
            Member::Y
        }
    }
}

} // verus!

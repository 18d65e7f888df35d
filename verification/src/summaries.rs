//! Summaries of articles and tweets, behind one trait.

use vstd::prelude::*;
use vstd::string::StringExecFns;

verus! {

/// Something that can describe itself in a sentence.
pub trait Summary {
    /// What the summary says.
    spec fn spec_summarize(&self) -> Seq<char>;

    /// What the author line says.
    spec fn spec_summarize_author(&self) -> Seq<char>;

    /// What the follow-up summary says.
    spec fn spec_summarize_again(&self) -> Seq<char>;

    fn summarize(&self) -> (r: String)
        ensures
            r@ == self.spec_summarize(),
    ;

    fn summarize_author(&self) -> (r: String)
        ensures
            r@ == self.spec_summarize_author(),
    ;

    fn summarize_again(&self) -> (r: String)
        ensures
            r@ == self.spec_summarize_again(),
    ;
}

/// A news article.
pub struct NewsArticle {
    pub headline: String,
    pub location: String,
    pub author: String,
    pub content: String,
}

impl Summary for NewsArticle {
    open spec fn spec_summarize(&self) -> Seq<char> {
        self.headline@ + ", by "@ + self.author@ + " ("@ + self.location@ + ")"@
    }

    open spec fn spec_summarize_author(&self) -> Seq<char> {
        self.author@
    }

    open spec fn spec_summarize_again(&self) -> Seq<char> {
        "(Read more from "@ + self.author@ + "...)"@
    }

    fn summarize(&self) -> (r: String) {
        let mut r = self.headline.clone();
        r.append(", by ");
        r.append(self.author.as_str());
        r.append(" (");
        r.append(self.location.as_str());
        r.append(")");
        r
    }

    fn summarize_author(&self) -> (r: String) {
        self.author.clone()
    }

    fn summarize_again(&self) -> (r: String) {
        let mut r = String::from_str("(Read more from ");
        r.append(self.author.as_str());
        r.append("...)");
        r
    }
}

/// A tweet.
pub struct Tweet {
    pub username: String,
    pub content: String,
    pub reply: bool,
    pub retweet: bool,
}

impl Summary for Tweet {
    open spec fn spec_summarize(&self) -> Seq<char> {
        self.username@ + ": "@ + self.content@
    }

    open spec fn spec_summarize_author(&self) -> Seq<char> {
        "@"@ + self.username@
    }

    open spec fn spec_summarize_again(&self) -> Seq<char> {
        "(moar super fun tweets from "@ + "@"@ + self.username@ + ")"@
    }

    fn summarize(&self) -> (r: String) {
        let mut r = self.username.clone();
        r.append(": ");
        r.append(self.content.as_str());
        r
    }

    fn summarize_author(&self) -> (r: String) {
        let mut r = String::from_str("@");
        r.append(self.username.as_str());
        r
    }

    fn summarize_again(&self) -> (r: String) {
        let mut r = String::from_str("(moar super fun tweets from ");
        r.append("@");
        r.append(self.username.as_str());
        r.append(")");
        r
    }
}

} // verus!

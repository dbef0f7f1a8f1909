//! One-line summaries of articles and posts.
use vstd::prelude::*;
use vstd::string::StringExecFns;

verus! {

/// Things that can be summarised in one line.
pub trait Summary {
    /// The summary, as text.
    spec fn summary_text(&self) -> Seq<char>;

    /// The summary of `self`.
    fn summarize(&self) -> (r: String)
        ensures
            r@ == self.summary_text(),
    ;
}

/// A news article.
pub struct NewsArticle {
    pub headline: String,
    pub location: String,
    pub author: String,
    pub content: String,
}

/// A short post.
pub struct Tweet {
    pub username: String,
    pub content: String,
    pub reply: bool,
    pub retweet: bool,
}

impl Summary for NewsArticle {
    /// `headline, by author (location)`.
    open spec fn summary_text(&self) -> Seq<char> {
        self.headline@ + ", by "@ + self.author@ + " ("@ + self.location@ + ")"@
    }

    fn summarize(&self) -> (r: String) {
        let r = String::from_str(self.headline.as_str()).concat(", by ").concat(
            self.author.as_str(),
        ).concat(" (").concat(self.location.as_str()).concat(")");
        proof {
            reveal_strlit(", by ");
            reveal_strlit(" (");
            reveal_strlit(")");
        }
        r
    }
}

impl Summary for Tweet {
    /// `username: content`.
    open spec fn summary_text(&self) -> Seq<char> {
        self.username@ + ": "@ + self.content@
    }

    fn summarize(&self) -> (r: String) {
        let r = String::from_str(self.username.as_str()).concat(": ").concat(
            self.content.as_str(),
        );
        proof {
            reveal_strlit(": ");
        }
        r
    }
}

/// Things whose summary is an invitation to read on.
pub trait Summary2 {
    /// The summary of `self`: `(Read more...)`.
    fn summarize(&self) -> (r: String)
        ensures
            r@ == "(Read more...)"@,
    {
        let r = String::from_str("(Read more...)");
        proof {
            reveal_strlit("(Read more...)");
        }
        r
    }
}

impl Summary2 for NewsArticle {
}

} // verus!

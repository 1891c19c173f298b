//! Arguments that name a key or carry an auth token.
use vstd::prelude::*;

verus! {

/// Anything that can be used as a cache key.
pub trait AsPaperKey {
    /// The key text.
    spec fn key_text(&self) -> Seq<char>;

    /// The key as a string slice.
    fn as_paper_key(&self) -> (k: &str)
        ensures
            k@ == self.key_text(),
    ;
}

/// Anything that can be used as an auth token.
pub trait AsPaperAuthToken {
    /// The token text.
    spec fn token_text(&self) -> Seq<char>;

    /// The token as a string slice.
    fn as_paper_auth_token(&self) -> (t: &str)
        ensures
            t@ == self.token_text(),
    ;
}

impl<'a> AsPaperKey for &'a str {
    open spec fn key_text(&self) -> Seq<char> {
        (**self)@
    }

    fn as_paper_key(&self) -> (k: &str) {
        *self
    }
}

impl AsPaperKey for String {
    open spec fn key_text(&self) -> Seq<char> {
        self@
    }

    fn as_paper_key(&self) -> (k: &str) {
        self.as_str()
    }
}

impl<'a> AsPaperKey for &'a String {
    open spec fn key_text(&self) -> Seq<char> {
        (**self)@
    }

    fn as_paper_key(&self) -> (k: &str) {
        self.as_str()
    }
}

impl<'a> AsPaperAuthToken for &'a str {
    open spec fn token_text(&self) -> Seq<char> {
        (**self)@
    }

    fn as_paper_auth_token(&self) -> (t: &str) {
        *self
    }
}

impl AsPaperAuthToken for String {
    open spec fn token_text(&self) -> Seq<char> {
        self@
    }

    fn as_paper_auth_token(&self) -> (t: &str) {
        self.as_str()
    }
}

impl<'a> AsPaperAuthToken for &'a String {
    open spec fn token_text(&self) -> Seq<char> {
        (**self)@
    }

    fn as_paper_auth_token(&self) -> (t: &str) {
        self.as_str()
    }
}

} // verus!

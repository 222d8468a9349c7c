//! Links, what a repository tells about them, and how it fails.

use vstd::prelude::*;

use crate::time::Duration;

verus! {

/// A short link. Its times are counted from the Unix epoch.
#[derive(Debug)]
pub struct ShortLink {
    pub code: String,
    pub target_url: String,
    pub created_at: Duration,
    pub expires_at: Option<Duration>,
}

/// A short link as a value.
pub ghost struct LinkView {
    pub code: Seq<char>,
    pub target_url: Seq<char>,
    pub created_at: nat,
    pub expires_at: Option<nat>,
}

/// The view of a time that may be absent.
pub open spec fn view_time(time: Option<Duration>) -> Option<nat> {
    match time {
        Some(t) => Some(t@),
        None => None,
    }
}

impl View for ShortLink {
    type V = LinkView;

    open spec fn view(&self) -> LinkView {
        LinkView {
            code: self.code@,
            target_url: self.target_url@,
            created_at: self.created_at@,
            expires_at: view_time(self.expires_at),
        }
    }
}

impl LinkView {
    /// Whether the lifetime of the link is over at `now`.
    pub open spec fn expired(self, now: nat) -> bool {
        self.expires_at matches Some(at) && at <= now
    }
}

impl ShortLink {
    /// A link that never expires.
    pub fn new(code: &str, target_url: &str, created_at: Duration) -> (link: Self)
        ensures
            link@ == (LinkView {
                code: code@,
                target_url: target_url@,
                created_at: created_at@,
                expires_at: None,
            }),
    {
        ShortLink {
            code: code.to_owned(),
            target_url: target_url.to_owned(),
            created_at,
            expires_at: None,
        }
    }

    /// The same link with a lifetime that ends at `at`.
    pub fn with_expires_at(self, at: Duration) -> (link: Self)
        ensures
            link@ == (LinkView { expires_at: Some(at@), ..self@ }),
    {
        ShortLink {
            code: self.code,
            target_url: self.target_url,
            created_at: self.created_at,
            expires_at: Some(at),
        }
    }

    /// Whether the lifetime of the link is over at `now`.
    pub fn is_expired(&self, now: Duration) -> (expired: bool)
        ensures
            expired == self@.expired(now@),
            expired <==> (self.expires_at matches Some(at) && at@ <= now@),
    {
        match self.expires_at {
            Some(at) => !now.is_shorter(at),
            None => false,
        }
    }
}

/// A link and how often it has been followed.
#[derive(Debug)]
pub struct LinkStats {
    pub link: ShortLink,
    pub hits: u64,
}

/// How often a link has been followed within some window.
#[derive(Debug)]
pub struct WindowStats {
    pub hits: u64,
}

/// One line of the ranking of links.
#[derive(Debug)]
pub struct TopLink {
    pub code: String,
    pub hits: u64,
}

/// Why a repository refused, with the code that it was asked about.
#[derive(Debug)]
pub enum RepoError {
    /// No link has this code.
    NotFound(String),
    /// A link has this code already.
    CodeTaken(String),
}

} // verus!

//! The pull-request description: what the user supplied, with the defaults
//! the creation step fills in.

use vstd::prelude::*;

verus! {

/// A pull request being put together: each part is either supplied by the
/// user or generated later.
#[derive(Debug, Clone)]
pub struct PullRequest {
    pub title: Option<String>,
    pub body: Option<String>,
    pub base: Option<String>,
}

impl PullRequest {
    /// A pull request with nothing supplied yet.
    pub fn new() -> (r: Self)
        ensures
            r.title is None,
            r.body is None,
            r.base is None,
    {
        PullRequest { title: None, body: None, base: None }
    }

    pub fn with_title(self, title: String) -> (r: Self)
        ensures
            r.title == Some(title),
            r.body == self.body,
            r.base == self.base,
    {
        PullRequest { title: Some(title), ..self }
    }

    pub fn with_body(self, body: String) -> (r: Self)
        ensures
            r.body == Some(body),
            r.title == self.title,
            r.base == self.base,
    {
        PullRequest { body: Some(body), ..self }
    }

    pub fn with_base(self, base: String) -> (r: Self)
        ensures
            r.base == Some(base),
            r.title == self.title,
            r.body == self.body,
    {
        PullRequest { base: Some(base), ..self }
    }

    /// The branch the pull request is made against: the configured one, or
    /// `main` when none was given.
    pub fn base_branch(&self) -> (r: &str)
        ensures
            match self.base {
                Some(b) => r@ == b@,
                None => r@ == "main"@,
            },
    {
        match &self.base {
            Some(b) => b.as_str(),
            None => "main",
        }
    }
}

} // verus!

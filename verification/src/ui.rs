//! The state shown by the terminal front end: a title and a body of text.

use vstd::prelude::*;

verus! {

/// What one screen displays.
#[derive(Debug, Clone)]
pub struct App {
    pub title: String,
    pub content: String,
}

impl App {
    pub fn new(title: String, content: String) -> (r: Self)
        ensures
            r.title == title,
            r.content == content,
    {
        App { title, content }
    }

    /// One update tick. The state carries no moving parts, so it never
    /// changes and the tick never fails.
    pub fn update(&mut self) -> (r: Result<(), ()>)
        ensures
            *final(self) == *old(self),
            r is Ok,
    {
        Ok(())
    }
}

} // verus!

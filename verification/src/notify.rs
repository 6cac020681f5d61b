//! User-facing notifications. The library only carries them; showing,
//! timing out and logging them is the surrounding shell's business.

use vstd::prelude::*;

verus! {

/// One notification: a fixed headline for the user and the underlying
/// error's text for a diagnostic log.
pub enum Notification {
    Warning(&'static str, String),
}

impl Notification {
    /// The headline shown to the user.
    pub fn content(&self) -> (r: &'static str)
        ensures
            self matches Notification::Warning(c, e) ==> r == c,
    {
        match self {
            Notification::Warning(content, _) => content,
        }
    }

    /// The underlying error's text, for a diagnostic log.
    pub fn error(&self) -> (r: &String)
        ensures
            self matches Notification::Warning(c, e) ==> r == e,
    {
        match self {
            Notification::Warning(_, error) => error,
        }
    }
}

} // verus!

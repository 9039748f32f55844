//! The library's error: a human-readable message.
use vstd::prelude::*;

verus! {

/// An error carrying the message shown to the user.
#[derive(Debug)]
pub struct Error {
    text: String,
}

/// Results whose error is a message.
pub type Result<T> = core::result::Result<T, Error>;

impl View for Error {
    type V = Seq<char>;

    /// The message.
    closed spec fn view(&self) -> Seq<char> {
        self.text@
    }
}

/// An error with the given message.
pub fn message(text: String) -> (e: Error)
    ensures
        e@ == text@,
{
    Error { text }
}

impl Error {
    /// The message.
    pub fn text(&self) -> (r: String)
        ensures
            r@ == self@,
    {
        self.text.clone()
    }
}

} // verus!

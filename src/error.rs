//! The error returned when pattern text cannot be compiled.
use vstd::prelude::*;

verus! {

/// A compile failure, carrying a message that names the offending segment
/// and what was wrong with it.
#[derive(Debug)]
pub struct Error {
    e: String,
}

impl View for Error {
    type V = Seq<char>;

    closed spec fn view(&self) -> Seq<char> {
        self.e@
    }
}

impl Error {
    /// An error with message `e`.
    pub fn new(e: String) -> (r: Error)
        ensures
            r@ == e@,
    {
        Error { e }
    }

    /// The message of this error.
    pub fn message(&self) -> (r: &str)
        ensures
            r@ == self@,
    {
        self.e.as_str()
    }
}

} // verus!

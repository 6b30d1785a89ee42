//! The one error type of the interpreter: a message, and nothing else.

use vstd::prelude::*;
use vstd::string::*;

verus! {

/// A failure of parsing or evaluation, carrying the text shown to the user.
#[derive(Debug)]
pub struct Error(String);

impl View for Error {
    type V = Seq<char>;

    /// The message.
    closed spec fn view(&self) -> Seq<char> {
        self.0@
    }
}

impl Error {
    /// An error with the given message.
    pub fn new(msg: &str) -> (e: Self)
        ensures
            e@ == msg@,
    {
        Error(String::from_str(msg))
    }

    /// An error that takes over an owned message.
    pub fn from_string(msg: String) -> (e: Self)
        ensures
            e@ == msg@,
    {
        Error(msg)
    }

    /// The message, as shown to the user.
    pub fn to_string(&self) -> (s: String)
        ensures
            s@ == self@,
    {
        self.0.clone()
    }
}

} // verus!

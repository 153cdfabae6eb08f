//! The error this bot raises on its own account.
use vstd::prelude::*;

verus! {

/// An error that carries nothing but its message.
#[derive(Debug)]
pub struct ZangraError {
    message: String,
}

impl ZangraError {
    /// The message as the contracts see it.
    pub closed spec fn text(&self) -> Seq<char> {
        self.message@
    }

    /// An error with the given message.
    pub fn new(message: &str) -> (error: ZangraError)
        ensures
            error.text() == message@,
    {
        ZangraError { message: message.to_owned() }
    }

    /// The message; it is also what the error is displayed as.
    pub fn message(&self) -> (message: &String)
        ensures
            message@ == self.text(),
    {
        &self.message
    }
}

} // verus!

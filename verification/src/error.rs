//! The one failure this crate knows: the output target refused a write.

use vstd::prelude::*;

verus! {

/// A write that the output target refused, with the target's own words.
#[derive(Debug, PartialEq, Eq)]
pub struct WriteError {
    pub message: String,
}

impl WriteError {
    /// An error that carries `message`.
    pub fn new(message: String) -> (error: WriteError)
        ensures
            error.message == message,
    {
        WriteError { message }
    }

    /// The target's words, for printing.
    pub fn message(&self) -> (text: String)
        ensures
            text == self.message,
    {
        self.message.clone()
    }
}

impl Clone for WriteError {
    fn clone(&self) -> (copy: WriteError)
        ensures
            copy == *self,
    {
        WriteError { message: self.message.clone() }
    }
}

} // verus!

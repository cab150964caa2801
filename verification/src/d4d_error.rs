//! The error type of the file reading helpers: a message.
use vstd::prelude::*;

verus! {

/// An error described by a message.
#[derive(Debug)]
pub struct D4dError {
    pub detail: String,
}

impl D4dError {
    /// The error with the message `msg`.
    pub fn new(msg: String) -> (r: D4dError)
        ensures
            r.detail@ == msg@,
    {
        D4dError { detail: msg }
    }

    /// The error with the message `msg`, boxed.
    pub fn new_box(msg: String) -> (r: Box<D4dError>)
        ensures
            r.detail@ == msg@,
    {
        Box::new(D4dError::new(msg))
    }
}

/// The error with the message `msg`.
pub fn new(msg: &str) -> (r: D4dError)
    ensures
        r.detail@ == msg@,
{
    D4dError { detail: msg.to_owned() }
}

} // verus!

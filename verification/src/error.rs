//! The library's error type. A structural fault in the event sequence is
//! fatal to that file's read: no partial collection is ever returned.

use vstd::prelude::*;

verus! {

/// A structural/syntax failure while dispatching parse events.
#[derive(Debug, PartialEq, Eq)]
pub enum Error {
    /// A required attribute was missing, or an element end arrived with no
    /// enclosing element start; the message names the fault.
    SyntaxError(String),
}

impl Error {
    /// The human-readable message carried by this error.
    pub fn message(&self) -> (r: &str)
        ensures
            self matches Error::SyntaxError(m) && r@ == m@,
    {
        match self {
            Error::SyntaxError(m) => m.as_str(),
        }
    }
}

} // verus!

//! Errors that the wrapping engine reports to its caller.
use vstd::prelude::*;

verus! {

/// What can go wrong inside the engine.
///
/// Failures of terminal input or output never reach this crate: they belong
/// to the program that drives it.
#[derive(Clone, Copy, Debug, PartialEq, Eq, Structural)]
pub enum PagerError {
    /// A line was to be wrapped into rows of width zero.
    InvalidWidth,
    /// A line number or a character range lies outside the buffer.
    BufferAccess,
}

impl PagerError {
    /// The sentence that tells a user of this error.
    pub open spec fn message_spec(self) -> Seq<char> {
        match self {
            PagerError::InvalidWidth => "the text area is zero columns wide"@,
            PagerError::BufferAccess => "a line or character range lies outside the buffer"@,
        }
    }

    /// The sentence that tells a user of this error.
    pub fn message(&self) -> (text: &'static str)
        ensures
            text@ == self.message_spec(),
    {
        match self {
            PagerError::InvalidWidth => "the text area is zero columns wide",
            PagerError::BufferAccess => "a line or character range lies outside the buffer",
        }
    }
}

} // verus!

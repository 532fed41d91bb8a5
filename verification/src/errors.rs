//! Failures that the decoder reports to its caller.

use vstd::prelude::*;

verus! {

/// Why no record could be produced.
#[derive(Debug, Clone, Copy, PartialEq, Eq)]
pub enum DecodeError {
    /// Bytes are present but not valid for their field: a code outside
    /// its table, or text that is not single-byte text.
    MalformedField,
    /// The source ended while a frame was only partially received.
    UnexpectedEndOfSource,
    /// The window is full and the unconsumed remainder is too large to
    /// be moved to its start: the window is undersized for the data.
    BufferCapacityError,
}

impl DecodeError {
    /// A one-line description of the failure.
    pub fn describe(&self) -> (r: &'static str)
        ensures
            r@ == match *self {
                DecodeError::MalformedField => "malformed field"@,
                DecodeError::UnexpectedEndOfSource => "unexpected end of source"@,
                DecodeError::BufferCapacityError => "window too small for the data"@,
            },
    {
        match self {
            DecodeError::MalformedField => "malformed field",
            DecodeError::UnexpectedEndOfSource => "unexpected end of source",
            DecodeError::BufferCapacityError => "window too small for the data",
        }
    }
}

} // verus!

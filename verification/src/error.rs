//! The error taxonomy shared by every decoder of the crate.

use vstd::prelude::*;

verus! {

/// Why a decoding step failed.
#[derive(Clone, Copy, Debug, PartialEq, Eq, Structural)]
pub enum Error {
    /// The backing storage ended before the bytes that were asked for.
    Io,
    /// A signature, an opcode or a fixed header is not what the format allows.
    Format,
    /// A chunk, frame or sub-chunk index is out of range.
    Index,
    /// The input looks well formed but describes data that is not there.
    Data,
}

impl Error {
    /// A short English description of the error.
    pub fn message(&self) -> (s: &'static str)
        ensures
            s@ == (match *self {
                Error::Io => "unexpected end of storage"@,
                Error::Format => "invalid format"@,
                Error::Index => "index out of bounds"@,
                Error::Data => "invalid data"@,
            }),
    {
        match self {
            Error::Io => "unexpected end of storage",
            Error::Format => "invalid format",
            Error::Index => "index out of bounds",
            Error::Data => "invalid data",
        }
    }
}

} // verus!

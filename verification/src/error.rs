//! The ways in which an operation of this crate can fail.

use vstd::prelude::*;

verus! {

/// Why an operation failed.
#[derive(Clone, Copy, Debug, PartialEq, Eq, Structural)]
pub enum Error {
    /// The bytes handed to a reader are not a property set of the supported
    /// shape: a wrong marker or version, a count or an offset that points
    /// outside the data, a repeated property id, an unknown value type, or a
    /// format identifier other than the expected one.
    InvalidFormat,
    /// A number stands where an entry of a fixed table is expected and is
    /// not in that table.
    UnsupportedValue,
    /// A value handed to a setter, or held by a set that is to be written,
    /// is outside what the field or the format can hold.
    ValidationError,
    /// A text has no representation in the code page in effect, or bytes
    /// are not a text of that code page.
    EncodingError,
}

impl Error {
    /// A short description of the failure, for messages.
    pub fn describe(&self) -> (text: &'static str)
        ensures
            text@ == match *self {
                Error::InvalidFormat => "invalid property set format"@,
                Error::UnsupportedValue => "unsupported value"@,
                Error::ValidationError => "value out of range"@,
                Error::EncodingError => "text cannot be encoded or decoded"@,
            },
    {
        match self {
            Error::InvalidFormat => "invalid property set format",
            Error::UnsupportedValue => "unsupported value",
            Error::ValidationError => "value out of range",
            Error::EncodingError => "text cannot be encoded or decoded",
        }
    }
}

} // verus!

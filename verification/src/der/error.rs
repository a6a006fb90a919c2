//! Error types.
use crate::der::tag::Tag;
use vstd::prelude::*;

verus! {

/// Error type
#[derive(Copy, Clone, Debug, Eq, PartialEq, Structural)]
pub enum Error {
    /// Operation attempted on a decoder or encoder which already failed
    Failed,
    /// Incorrect length
    Length {
        /// Tag type of the value being decoded
        tag: Tag,
    },
    /// Message is not canonically encoded
    Noncanonical,
    /// Malformed OID
    Oid,
    /// Integer overflow occurred (library bug!)
    Overflow,
    /// Message is longer than this library's internal limits support
    Overlength,
    /// Message is truncated
    Truncated,
    /// Unexpected tag
    UnexpectedTag {
        /// Tag the decoder was expecting (if there is a single such tag).
        expected: Option<Tag>,
        /// Actual tag encountered in the message
        actual: Tag,
    },
    /// Unknown/unsupported tag
    UnknownTag {
        /// Raw byte value of the tag
        byte: u8,
    },
    /// String is not valid UTF-8
    Utf8,
    /// Unexpected value
    Value {
        /// Tag of the unexpected value
        tag: Tag,
    },
}

/// Result type
pub type Result<T> = core::result::Result<T, Error>;

impl Error {
    /// A short description of the error.
    pub fn message(&self) -> (r: &'static str)
        ensures
            r@ == "ASN.1 error"@,
    {
        "ASN.1 error"
    }
}

} // verus!

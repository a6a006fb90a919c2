//! String slices which respect the [`Length::max`] limit.
use crate::der::error::{Error, Result};
use crate::der::length::Length;
use vstd::prelude::*;
use vstd::string::StringSliceAdditionalSpecFns;
use vstd::utf8::valid_utf8;

verus! {

/// Calls `core::str::from_utf8`, which std documents as accepting exactly the byte slices
/// that are valid UTF-8, and then returning a string slice over the same bytes.
#[verifier::external_body]
fn utf8_str<'a>(bytes: &'a [u8]) -> (r: Option<&'a str>)
    ensures
        match r {
            Some(s) => valid_utf8(bytes@) && s.spec_bytes() == bytes@,
            None => !valid_utf8(bytes@),
        },
{
    core::str::from_utf8(bytes).ok()
}

/// String slice newtype which respects the [`Length::max`] limit.
#[derive(Copy, Clone, Debug, Eq, PartialEq)]
pub struct StrSlice<'a> {
    /// Inner value
    inner: &'a str,
    /// Precomputed `Length` of the UTF-8 encoding
    length: Length,
}

impl<'a> View for StrSlice<'a> {
    type V = Seq<char>;

    closed spec fn view(&self) -> Seq<char> {
        self.inner@
    }
}

impl<'a> StrSlice<'a> {
    #[verifier::type_invariant]
    spec fn inv(self) -> bool {
        self.length@ == self.inner.spec_bytes().len()
    }

    /// The UTF-8 encoding of the string.
    pub closed spec fn spec_bytes(&self) -> Seq<u8> {
        self.inner.spec_bytes()
    }

    /// Create a new [`StrSlice`], failing with [`Error::Overflow`] when the UTF-8 encoding
    /// of `s` is longer than `0xFFFF` octets.
    pub fn new(s: &'a str) -> (r: Result<Self>)
        ensures
            match r {
                Ok(x) => s.spec_bytes().len() <= 0xFFFF && x@ == s@ && x.spec_bytes()
                    == s.spec_bytes(),
                Err(e) => s.spec_bytes().len() > 0xFFFF && e == Error::Overflow,
            },
    {
        let length = Length::try_from_usize(s.as_bytes().len())?;
        Ok(StrSlice { inner: s, length })
    }

    /// Parse a [`StrSlice`] from UTF-8 encoded bytes: [`Error::Utf8`] when they are not
    /// valid UTF-8, [`Error::Overflow`] when they are longer than `0xFFFF` octets.
    pub fn from_bytes(bytes: &'a [u8]) -> (r: Result<Self>)
        ensures
            match r {
                Ok(x) => valid_utf8(bytes@) && bytes@.len() <= 0xFFFF && x.spec_bytes() == bytes@,
                Err(e) => if !valid_utf8(bytes@) {
                    e == Error::Utf8
                } else {
                    bytes@.len() > 0xFFFF && e == Error::Overflow
                },
            },
    {
        match utf8_str(bytes) {
            Some(s) => StrSlice::new(s),
            None => Err(Error::Utf8),
        }
    }

    /// Borrow the inner `str`.
    pub fn as_str(&self) -> (r: &'a str)
        ensures
            r@ == self@,
            r.spec_bytes() == self.spec_bytes(),
    {
        self.inner
    }

    /// Borrow the inner byte slice.
    pub fn as_bytes(&self) -> (r: &'a [u8])
        ensures
            r@ == self.spec_bytes(),
    {
        self.inner.as_bytes()
    }

    /// Get the [`Length`] of this [`StrSlice`]'s UTF-8 encoding.
    pub fn len(self) -> (r: Length)
        ensures
            r@ == self.spec_bytes().len(),
    {
        proof {
            use_type_invariant(&self);
        }
        self.length
    }

    /// Is this [`StrSlice`] empty?
    pub fn is_empty(self) -> (r: bool)
        ensures
            r == (self.spec_bytes().len() == 0),
    {
        proof {
            use_type_invariant(&self);
        }
        self.length.to_usize() == 0
    }
}

} // verus!

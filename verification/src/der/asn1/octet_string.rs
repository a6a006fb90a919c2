//! ASN.1 `OCTET STRING` support.
use crate::der::any::{decode_via_any, lemma_any_roundtrip, Any};
use crate::der::decoder::Decoder;
use crate::der::encode::header_octets;
use crate::der::encoder::Encoder;
use crate::der::error::{Error, Result};
use crate::der::length::Length;
use crate::der::tag::Tag;
use crate::der::traits::{Decodable, Encodable, Tagged};
use vstd::prelude::*;

verus! {

/// An `OCTET STRING` from the tag and value of a tag-length-value triple.
pub open spec fn octet_string_from_any(tag: Tag, value: Seq<u8>) -> Result<Seq<u8>> {
    if tag != Tag::OctetString {
        Err(Error::UnexpectedTag { expected: Some(Tag::OctetString), actual: tag })
    } else {
        Ok(value)
    }
}

/// ASN.1 `OCTET STRING` type.
#[derive(Copy, Clone, Debug, Eq, PartialEq)]
pub struct OctetString<'a> {
    /// Inner value
    inner: &'a [u8],
}

impl<'a> View for OctetString<'a> {
    type V = Seq<u8>;

    closed spec fn view(&self) -> Seq<u8> {
        self.inner@
    }
}

impl<'a> OctetString<'a> {
    #[verifier::type_invariant]
    spec fn inv(self) -> bool {
        self.inner@.len() <= 0xFFFF
    }

    /// Create a new [`OctetString`] from a slice, failing with an [`Error::Length`] when it
    /// is longer than `0xFFFF` octets.
    pub fn new(slice: &'a [u8]) -> (r: Result<Self>)
        ensures
            match r {
                Ok(o) => slice@.len() <= 0xFFFF && o@ == slice@,
                Err(e) => slice@.len() > 0xFFFF && e == (Error::Length { tag: Tag::OctetString }),
            },
    {
        if slice.len() <= Length::max() {
            Ok(OctetString { inner: slice })
        } else {
            Err(Error::Length { tag: Tag::OctetString })
        }
    }

    /// Borrow the inner byte sequence.
    pub fn as_bytes(&self) -> (r: &'a [u8])
        ensures
            r@ == self@,
            r@.len() <= 0xFFFF,
    {
        proof {
            use_type_invariant(self);
        }
        self.inner
    }

    /// An `OCTET STRING` from an [`Any`] holding one.
    pub fn try_from(any: Any<'a>) -> (r: Result<OctetString<'a>>)
        ensures
            match r {
                Ok(o) => octet_string_from_any(any@.0, any@.1) == Ok::<Seq<u8>, Error>(o@),
                Err(e) => octet_string_from_any(any@.0, any@.1) == Err::<Seq<u8>, Error>(e),
            },
    {
        any.tag().assert_eq(Tag::OctetString)?;
        OctetString::new(any.value())
    }

    /// This `OCTET STRING` as an [`Any`].
    pub fn to_any(self) -> (r: Any<'a>)
        ensures
            r@ == (Tag::OctetString, self@),
    {
        Any::from_parts(Tag::OctetString, self.as_bytes())
    }
}

impl<'a> Tagged for OctetString<'a> {
    open spec fn spec_tag() -> Tag {
        Tag::OctetString
    }

    fn tag() -> (r: Tag) {
        Tag::OctetString
    }
}

impl<'a> Decodable<'a> for OctetString<'a> {
    open spec fn spec_decode(s: Seq<u8>) -> (Result<Seq<u8>>, nat) {
        decode_via_any(s, |t: Tag, v: Seq<u8>| octet_string_from_any(t, v))
    }

    fn decode(decoder: &mut Decoder<'a>) -> (r: Result<OctetString<'a>>) {
        let any = Any::decode(decoder)?;
        OctetString::try_from(any)
    }
}

impl<'a> Encodable for OctetString<'a> {
    open spec fn spec_encode(&self) -> Result<Seq<u8>> {
        Ok(header_octets(Tag::OctetString, self@.len()) + self@)
    }

    fn encoded_len(&self) -> (r: Result<Length>) {
        self.to_any().encoded_len()
    }

    fn encode(&self, encoder: &mut Encoder) -> (r: Result<()>) {
        self.to_any().encode(encoder)
    }
}

/// Decoding the encoding of an `OCTET STRING` gives it back, having read the whole
/// encoding.
pub proof fn lemma_octet_string_roundtrip(o: OctetString, rest: Seq<u8>)
    requires
        o@.len() <= 0xFFFF,
    ensures
        <OctetString as Decodable>::spec_decode(o.spec_encode()->Ok_0 + rest) == (
            Ok::<Seq<u8>, Error>(o@),
            o.spec_encode()->Ok_0.len(),
        ),
{
    lemma_any_roundtrip(Tag::OctetString, o@, rest);
}

} // verus!

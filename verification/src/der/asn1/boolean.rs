//! ASN.1 `BOOLEAN` support.
use crate::der::any::{decode_via_any, lemma_any_roundtrip, Any};
use crate::der::decoder::Decoder;
use crate::der::encode::header_octets;
use crate::der::encoder::{lemma_encoded_then, Encoder};
use crate::der::error::{Error, Result};
use crate::der::header::Header;
use crate::der::length::Length;
use crate::der::tag::Tag;
use crate::der::traits::{Decodable, Encodable, Tagged};
use vstd::prelude::*;

verus! {

/// Byte used to encode `true` in ASN.1 DER: all eight bits set (X.690 Section 11.1).
pub const TRUE_OCTET: u8 = 0b11111111;

/// Byte used to encode `false` in ASN.1 DER.
pub const FALSE_OCTET: u8 = 0b00000000;

/// A `BOOLEAN` from the tag and value of a tag-length-value triple: the value must be the
/// single octet `0x00` or `0xFF`.
pub open spec fn boolean_from_any(tag: Tag, value: Seq<u8>) -> Result<bool> {
    if tag != Tag::Boolean {
        Err(Error::UnexpectedTag { expected: Some(Tag::Boolean), actual: tag })
    } else if value == seq![FALSE_OCTET] {
        Ok(false)
    } else if value == seq![TRUE_OCTET] {
        Ok(true)
    } else {
        Err(Error::Noncanonical)
    }
}

/// ASN.1 `BOOLEAN` type.
#[derive(Copy, Clone, Debug, Eq, PartialEq, Structural)]
pub struct Boolean(bool);

impl View for Boolean {
    type V = bool;

    closed spec fn view(&self) -> bool {
        self.0
    }
}

impl Boolean {
    /// A `BOOLEAN` holding `value`.
    pub fn new(value: bool) -> (r: Boolean)
        ensures
            r@ == value,
    {
        Boolean(value)
    }

    /// The value of this `BOOLEAN`.
    pub fn to_bool(self) -> (r: bool)
        ensures
            r == self@,
    {
        self.0
    }

    /// Get the ASN.1 DER [`Header`] for this [`Boolean`] value.
    fn header(self) -> (r: Header)
        ensures
            r@ == (Tag::Boolean, 1nat),
    {
        Header { tag: Tag::Boolean, length: Length::one() }
    }

    /// A `BOOLEAN` from an [`Any`] holding one.
    pub fn try_from(any: Any<'_>) -> (r: Result<Boolean>)
        ensures
            res_bool(r) == boolean_from_any(any@.0, any@.1),
    {
        any.tag().assert_eq(Tag::Boolean)?;
        let bytes = any.value();
        if bytes.len() == 1 && bytes[0] == FALSE_OCTET {
            assert(bytes@ =~= seq![FALSE_OCTET]);
            Ok(Boolean(false))
        } else if bytes.len() == 1 && bytes[0] == TRUE_OCTET {
            assert(bytes@ =~= seq![TRUE_OCTET]);
            Ok(Boolean(true))
        } else {
            assert(bytes@ != seq![FALSE_OCTET]);
            assert(bytes@ != seq![TRUE_OCTET]);
            Err(Error::Noncanonical)
        }
    }
}

/// A `BOOLEAN` result with the value taken as a `bool`.
pub open spec fn res_bool(r: Result<Boolean>) -> Result<bool> {
    match r {
        Ok(b) => Ok(b@),
        Err(e) => Err(e),
    }
}

impl Tagged for Boolean {
    open spec fn spec_tag() -> Tag {
        Tag::Boolean
    }

    fn tag() -> (r: Tag) {
        Tag::Boolean
    }
}

impl<'a> Decodable<'a> for Boolean {
    open spec fn spec_decode(s: Seq<u8>) -> (Result<bool>, nat) {
        decode_via_any(s, |t: Tag, v: Seq<u8>| boolean_from_any(t, v))
    }

    fn decode(decoder: &mut Decoder<'a>) -> (r: Result<Boolean>) {
        let any = Any::decode(decoder)?;
        Boolean::try_from(any)
    }
}

impl Encodable for Boolean {
    open spec fn spec_encode(&self) -> Result<Seq<u8>> {
        Ok(seq![0x01u8, 0x01u8, if self@ { TRUE_OCTET } else { FALSE_OCTET }])
    }

    fn encoded_len(&self) -> (r: Result<Length>) {
        self.header().encoded_len()?.checked_add(Length::one())
    }

    fn encode(&self, encoder: &mut Encoder) -> (r: Result<()>) {
        let ghost e0 = *encoder;
        let ghost h = header_octets(Tag::Boolean, 1);
        let byte = if self.0 { TRUE_OCTET } else { FALSE_OCTET };
        let r1 = self.header().encode(encoder);
        let ghost e1 = *encoder;
        if r1.is_err() {
            proof {
                lemma_encoded_then(e0, e1, e1, r1, r1, h, seq![byte]);
                assert(h + seq![byte] =~= seq![0x01u8, 0x01u8, byte]);
            }
            return r1;
        }
        let r2 = encoder.byte(byte);
        proof {
            lemma_encoded_then(e0, e1, *encoder, r1, r2, h, seq![byte]);
            assert(h + seq![byte] =~= seq![0x01u8, 0x01u8, byte]);
        }
        r2
    }
}

/// Decoding the encoding of a `BOOLEAN` gives it back, having read the whole encoding.
pub proof fn lemma_boolean_roundtrip(b: Boolean, rest: Seq<u8>)
    ensures
        <Boolean as Decodable>::spec_decode(b.spec_encode()->Ok_0 + rest) == (
            Ok::<bool, Error>(b@),
            3nat,
        ),
{
    let byte = if b@ { TRUE_OCTET } else { FALSE_OCTET };
    assert(b.spec_encode()->Ok_0 =~= header_octets(Tag::Boolean, 1) + seq![byte]);
    lemma_any_roundtrip(Tag::Boolean, seq![byte], rest);
}

} // verus!

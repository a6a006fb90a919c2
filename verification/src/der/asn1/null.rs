//! ASN.1 `NULL` support.
use crate::der::any::{decode_via_any, lemma_any_roundtrip, Any};
use crate::der::decoder::Decoder;
use crate::der::encoder::Encoder;
use crate::der::error::{Error, Result};
use crate::der::length::Length;
use crate::der::tag::Tag;
use crate::der::traits::{Decodable, Encodable, Tagged};
use vstd::prelude::*;

verus! {

/// A `NULL` from the tag and value of a tag-length-value triple: the value must be empty.
pub open spec fn null_from_any(tag: Tag, value: Seq<u8>) -> Result<()> {
    if tag != Tag::Null {
        Err(Error::UnexpectedTag { expected: Some(Tag::Null), actual: tag })
    } else if value.len() == 0 {
        Ok(())
    } else {
        Err(Error::Length { tag: Tag::Null })
    }
}

/// ASN.1 `NULL` type.
#[derive(Copy, Clone, Debug, Eq, PartialEq, Structural)]
pub struct Null;

impl View for Null {
    type V = ();

    open spec fn view(&self) -> () {
        ()
    }
}

impl Null {
    /// A `NULL` from an [`Any`] holding one.
    pub fn try_from(any: Any<'_>) -> (r: Result<Null>)
        ensures
            match r {
                Ok(_) => null_from_any(any@.0, any@.1) == Ok::<(), Error>(()),
                Err(e) => null_from_any(any@.0, any@.1) == Err::<(), Error>(e),
            },
    {
        let tag = any.tag().assert_eq(Tag::Null)?;
        if any.is_empty() {
            Ok(Null)
        } else {
            Err(Error::Length { tag })
        }
    }

    /// This `NULL` as an [`Any`]: the `NULL` tag with an empty value.
    pub fn to_any<'a>(self) -> (r: Any<'a>)
        ensures
            r@ == (Tag::Null, Seq::<u8>::empty()),
    {
        let empty: &'a [u8] = &[];
        Any::from_parts(Tag::Null, empty)
    }
}

/// The tag that this type reports is that of `INTEGER`.
impl Tagged for Null {
    open spec fn spec_tag() -> Tag {
        Tag::Integer
    }

    fn tag() -> (r: Tag) {
        Tag::Integer
    }
}

impl<'a> Decodable<'a> for Null {
    open spec fn spec_decode(s: Seq<u8>) -> (Result<()>, nat) {
        decode_via_any(s, |t: Tag, v: Seq<u8>| null_from_any(t, v))
    }

    fn decode(decoder: &mut Decoder<'a>) -> (r: Result<Null>) {
        let any = Any::decode(decoder)?;
        Null::try_from(any)
    }
}

impl Encodable for Null {
    open spec fn spec_encode(&self) -> Result<Seq<u8>> {
        Ok(seq![0x05u8, 0x00u8])
    }

    fn encoded_len(&self) -> (r: Result<Length>) {
        let r = self.to_any().encoded_len();
        proof {
            assert(crate::der::encode::header_octets(Tag::Null, 0) + Seq::<u8>::empty() =~= seq![
                0x05u8,
                0x00u8,
            ]);
        }
        r
    }

    fn encode(&self, encoder: &mut Encoder) -> (r: Result<()>) {
        let r = self.to_any().encode(encoder);
        proof {
            assert(crate::der::encode::header_octets(Tag::Null, 0) + Seq::<u8>::empty() =~= seq![
                0x05u8,
                0x00u8,
            ]);
        }
        r
    }
}

/// Decoding the encoding of `NULL` gives it back, having read the whole encoding.
pub proof fn lemma_null_roundtrip(rest: Seq<u8>)
    ensures
        <Null as Decodable>::spec_decode(Null.spec_encode()->Ok_0 + rest) == (
            Ok::<(), Error>(()),
            2nat,
        ),
{
    assert(Null.spec_encode()->Ok_0 =~= crate::der::encode::header_octets(Tag::Null, 0)
        + Seq::<u8>::empty());
    lemma_any_roundtrip(Tag::Null, Seq::<u8>::empty(), rest);
}

} // verus!

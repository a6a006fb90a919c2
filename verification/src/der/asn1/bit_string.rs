//! ASN.1 `BIT STRING` support.
use crate::der::any::{decode_via_any, lemma_any_roundtrip, Any};
use crate::der::decoder::Decoder;
use crate::der::encode::header_octets;
use crate::der::encoder::{lemma_encoded_then, Encoder};
use crate::der::error::{Error, Result};
use crate::der::header::Header;
use crate::der::length::{length_octets, Length};
use crate::der::tag::Tag;
use crate::der::traits::{Decodable, Encodable, Tagged};
use vstd::prelude::*;

verus! {

/// A `BIT STRING` from the tag and value of a tag-length-value triple: the value must open
/// with a zero octet (no unused bits), which is not part of the bit string.
pub open spec fn bit_string_from_any(tag: Tag, value: Seq<u8>) -> Result<Seq<u8>> {
    if tag != Tag::BitString {
        Err(Error::UnexpectedTag { expected: Some(Tag::BitString), actual: tag })
    } else if value.len() == 0 || value[0] != 0 {
        Err(Error::Length { tag: Tag::BitString })
    } else {
        Ok(value.drop_first())
    }
}

/// ASN.1 `BIT STRING` type.
#[derive(Copy, Clone, Debug, Eq, PartialEq)]
pub struct BitString<'a> {
    /// Inner value
    inner: &'a [u8],
}

impl<'a> View for BitString<'a> {
    type V = Seq<u8>;

    closed spec fn view(&self) -> Seq<u8> {
        self.inner@
    }
}

impl<'a> BitString<'a> {
    #[verifier::type_invariant]
    spec fn inv(self) -> bool {
        self.inner@.len() <= 0xFFFF
    }

    /// Create a new ASN.1 `BIT STRING` from a byte slice, failing with an
    /// [`Error::Length`] when it is longer than `0xFFFF` octets.
    pub fn new(slice: &'a [u8]) -> (r: Result<Self>)
        ensures
            match r {
                Ok(b) => slice@.len() <= 0xFFFF && b@ == slice@,
                Err(e) => slice@.len() > 0xFFFF && e == (Error::Length { tag: Tag::BitString }),
            },
    {
        if slice.len() <= Length::max() {
            Ok(BitString { inner: slice })
        } else {
            Err(Error::Length { tag: Tag::BitString })
        }
    }

    /// Borrow the inner byte slice.
    pub fn as_bytes(&self) -> (r: &'a [u8])
        ensures
            r@ == self@,
            r@.len() <= 0xFFFF,
    {
        proof {
            use_type_invariant(self);
        }
        self.inner
    }

    /// Get the length of the inner byte slice.
    pub fn len(&self) -> (r: Length)
        ensures
            r@ == self@.len(),
    {
        proof {
            use_type_invariant(self);
        }
        Length::from_u16(self.inner.len() as u16)
    }

    /// Is the inner byte slice empty?
    pub fn is_empty(&self) -> (r: bool)
        ensures
            r == (self@.len() == 0),
    {
        self.inner.len() == 0
    }

    /// The header of this value's encoding: the value octets are the bit string and the
    /// leading unused-bits octet.
    fn header(self) -> (r: Result<Header>)
        ensures
            match r {
                Ok(h) => self@.len() + 1 <= 0xFFFF && h@ == (Tag::BitString, self@.len() + 1),
                Err(e) => self@.len() + 1 > 0xFFFF && e == Error::Overflow,
            },
    {
        Ok(Header { tag: Tag::BitString, length: self.len().checked_add(Length::one())? })
    }

    /// A `BIT STRING` from an [`Any`] holding one: see [`bit_string_from_any`].
    pub fn try_from(any: Any<'a>) -> (r: Result<BitString<'a>>)
        ensures
            match r {
                Ok(b) => bit_string_from_any(any@.0, any@.1) == Ok::<Seq<u8>, Error>(b@),
                Err(e) => bit_string_from_any(any@.0, any@.1) == Err::<Seq<u8>, Error>(e),
            },
    {
        any.tag().assert_eq(Tag::BitString)?;
        let bytes = any.value();
        if bytes.len() > 0 && bytes[0] == 0 {
            let bs = vstd::slice::slice_subrange(bytes, 1, bytes.len());
            proof {
                assert(bs@ =~= any@.1.drop_first());
            }
            return BitString::new(bs);
        }
        Err(Error::Length { tag: Tag::BitString })
    }
}

impl<'a> Tagged for BitString<'a> {
    open spec fn spec_tag() -> Tag {
        Tag::BitString
    }

    fn tag() -> (r: Tag) {
        Tag::BitString
    }
}

impl<'a> Decodable<'a> for BitString<'a> {
    open spec fn spec_decode(s: Seq<u8>) -> (Result<Seq<u8>>, nat) {
        decode_via_any(s, |t: Tag, v: Seq<u8>| bit_string_from_any(t, v))
    }

    fn decode(decoder: &mut Decoder<'a>) -> (r: Result<BitString<'a>>) {
        let any = Any::decode(decoder)?;
        BitString::try_from(any)
    }
}

impl<'a> Encodable for BitString<'a> {
    open spec fn spec_encode(&self) -> Result<Seq<u8>> {
        if self@.len() + 1 > 0xFFFF {
            Err(Error::Overflow)
        } else {
            Ok(header_octets(Tag::BitString, self@.len() + 1) + seq![0u8] + self@)
        }
    }

    fn encoded_len(&self) -> (r: Result<Length>) {
        let header = self.header()?;
        let r = header.encoded_len()?.checked_add(Length::one())?.checked_add(self.len());
        proof {
            assert((header_octets(Tag::BitString, self@.len() + 1) + seq![0u8] + self@).len()
                == 1 + length_octets(self@.len() + 1).len() + 1 + self@.len());
            if let Ok(l) = r {
                l.lemma_bound();
            }
        }
        r
    }

    fn encode(&self, encoder: &mut Encoder) -> (r: Result<()>) {
        let header = self.header()?;
        let ghost h = header_octets(Tag::BitString, self@.len() + 1);
        let ghost e0 = *encoder;
        let r1 = header.encode(encoder);
        let ghost e1 = *encoder;
        if r1.is_err() {
            proof {
                lemma_encoded_then(e0, e1, e1, r1, r1, h, seq![0u8] + self@);
                assert(h + (seq![0u8] + self@) =~= h + seq![0u8] + self@);
            }
            return r1;
        }
        let r2 = encoder.byte(0);
        let ghost e2 = *encoder;
        if r2.is_err() {
            proof {
                lemma_encoded_then(e1, e2, e2, r2, r2, seq![0u8], self@);
                lemma_encoded_then(e0, e1, e2, r1, r2, h, seq![0u8] + self@);
                assert(h + (seq![0u8] + self@) =~= h + seq![0u8] + self@);
            }
            return r2;
        }
        let r3 = encoder.bytes(self.as_bytes());
        proof {
            lemma_encoded_then(e1, e2, *encoder, r2, r3, seq![0u8], self@);
            lemma_encoded_then(e0, e1, *encoder, r1, r3, h, seq![0u8] + self@);
            assert(h + (seq![0u8] + self@) =~= h + seq![0u8] + self@);
        }
        r3
    }
}

/// Decoding the encoding of a `BIT STRING` gives it back, having read the whole encoding.
pub proof fn lemma_bit_string_roundtrip(b: BitString, rest: Seq<u8>)
    requires
        b@.len() + 1 <= 0xFFFF,
    ensures
        <BitString as Decodable>::spec_decode(b.spec_encode()->Ok_0 + rest) == (
            Ok::<Seq<u8>, Error>(b@),
            b.spec_encode()->Ok_0.len(),
        ),
{
    let v = seq![0u8] + b@;
    assert(b.spec_encode()->Ok_0 =~= header_octets(Tag::BitString, v.len()) + v);
    lemma_any_roundtrip(Tag::BitString, v, rest);
    assert(v.drop_first() =~= b@);
}

} // verus!

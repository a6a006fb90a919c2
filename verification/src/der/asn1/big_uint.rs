//! "Big" unsigned ASN.1 `INTEGER` values, given by their big-endian octets.
use crate::der::any::{decode_via_any, lemma_any_roundtrip, Any};
use crate::der::decoder::Decoder;
use crate::der::encode::header_octets;
use crate::der::encoder::{lemma_encoded_then, Encoder};
use crate::der::error::{Error, Result};
use crate::der::header::Header;
use crate::der::length::{length_octets, Length};
use crate::der::tag::Tag;
use crate::der::traits::{Decodable, Encodable, Tagged};
use vstd::prelude::*;

verus! {

/// `s` without its leading zero octets (all of them: zero itself becomes empty).
pub open spec fn strip_zeros(s: Seq<u8>) -> Seq<u8>
    decreases s.len(),
{
    if s.len() > 0 && s[0] == 0 {
        strip_zeros(s.drop_first())
    } else {
        s
    }
}

/// The octets of a big unsigned integer of at most `n` octets made from `s`: `s` without
/// its leading zeros, or an [`Error::Length`] when that is too long.
pub open spec fn big_uint_new(s: Seq<u8>, n: nat) -> Result<Seq<u8>> {
    let t = strip_zeros(s);
    if t.len() > n || t.len() > 0xFFFF {
        Err(Error::Length { tag: Tag::Integer })
    } else {
        Ok(t)
    }
}

/// A big unsigned integer of at most `n` octets from the tag and value of a tag-length-value
/// triple. A first octet of `0x80` or more would make the `INTEGER` negative; one octet more than
/// `n` is allowed only as a leading zero.
pub open spec fn big_uint_from_any(tag: Tag, value: Seq<u8>, n: nat) -> Result<Seq<u8>> {
    if tag != Tag::Integer {
        Err(Error::UnexpectedTag { expected: Some(Tag::Integer), actual: tag })
    } else if value.len() > 0 && value[0] >= 0x80 {
        Err(Error::Value { tag: Tag::Integer })
    } else if value.len() > n {
        if value.len() != n + 1 {
            Err(Error::Length { tag: Tag::Integer })
        } else if value[0] != 0 {
            Err(Error::Value { tag: Tag::Integer })
        } else {
            big_uint_new(value.drop_first(), n)
        }
    } else {
        big_uint_new(value, n)
    }
}

/// Does the `INTEGER` encoding of the unsigned number with the minimal octets `s` need a
/// leading zero octet (for zero, or for a first octet with its top bit set)?
pub open spec fn big_uint_needs_zero(s: Seq<u8>) -> bool {
    s.len() == 0 || s[0] >= 0x80
}

/// The value octets of the `INTEGER` encoding of the unsigned number with minimal octets `s`.
pub open spec fn big_uint_value(s: Seq<u8>) -> Seq<u8> {
    if big_uint_needs_zero(s) {
        seq![0u8] + s
    } else {
        s
    }
}

/// "Big" unsigned ASN.1 `INTEGER` type of at most `N` octets, for very large integers such
/// as those of cryptography.
#[derive(Copy, Clone, Debug, Eq, PartialEq)]
pub struct BigUInt<'a, const N: usize> {
    /// Big-endian octets without leading zeros
    inner: &'a [u8],
}

impl<'a, const N: usize> View for BigUInt<'a, N> {
    type V = Seq<u8>;

    closed spec fn view(&self) -> Seq<u8> {
        self.inner@
    }
}

impl<'a, const N: usize> BigUInt<'a, N> {
    #[verifier::type_invariant]
    spec fn inv(self) -> bool {
        &&& self.inner@.len() <= N
        &&& self.inner@.len() <= 0xFFFF
        &&& strip_zeros(self.inner@) == self.inner@
    }

    /// Create a new [`BigUInt`] from a big-endian byte slice of at most `N` octets once its
    /// leading zeros are removed.
    pub fn new(input: &'a [u8]) -> (r: Result<Self>)
        ensures
            match r {
                Ok(b) => big_uint_new(input@, N as nat) == Ok::<Seq<u8>, Error>(b@),
                Err(e) => big_uint_new(input@, N as nat) == Err::<Seq<u8>, Error>(e),
            },
    {
        let mut bytes = input;
        while bytes.len() > 0 && bytes[0] == 0
            invariant
                strip_zeros(bytes@) == strip_zeros(input@),
            decreases bytes@.len(),
        {
            let rest = vstd::slice::slice_subrange(bytes, 1, bytes.len());
            proof {
                assert(rest@ =~= bytes@.drop_first());
            }
            bytes = rest;
        }
        if bytes.len() > N || bytes.len() > Length::max() {
            return Err(Error::Length { tag: Tag::Integer });
        }
        Ok(BigUInt { inner: bytes })
    }

    /// Borrow the inner byte slice.
    pub fn as_bytes(&self) -> (r: &'a [u8])
        ensures
            r@ == self@,
            r@.len() <= 0xFFFF,
            r@.len() <= N,
            strip_zeros(r@) == r@,
    {
        proof {
            use_type_invariant(self);
        }
        self.inner
    }

    /// Get the length of the inner byte slice.
    pub fn len(&self) -> (r: Length)
        ensures
            r@ == self@.len(),
    {
        proof {
            use_type_invariant(self);
        }
        Length::from_u16(self.inner.len() as u16)
    }

    /// Is the inner byte slice empty (the value zero)?
    pub fn is_empty(&self) -> (r: bool)
        ensures
            r == (self@.len() == 0),
    {
        self.inner.len() == 0
    }

    /// Get the length of the inner integer value when encoded: one more than the octets
    /// when a leading zero is needed.
    fn inner_len(self) -> (r: Result<Length>)
        ensures
            match r {
                Ok(l) => big_uint_value(self@).len() <= 0xFFFF && l@ == big_uint_value(self@).len(),
                Err(e) => big_uint_value(self@).len() > 0xFFFF && e == Error::Overflow,
            },
    {
        let extra: u8 = if self.inner.len() == 0 || self.inner[0] >= 0x80 {
            1
        } else {
            0
        };
        self.len().checked_add(Length::from_u8(extra))
    }

    /// Get the ASN.1 DER [`Header`] for this [`BigUInt`] value.
    fn header(self) -> (r: Result<Header>)
        ensures
            match r {
                Ok(h) => big_uint_value(self@).len() <= 0xFFFF && h@ == (
                    Tag::Integer,
                    big_uint_value(self@).len(),
                ),
                Err(e) => big_uint_value(self@).len() > 0xFFFF && e == Error::Overflow,
            },
    {
        Ok(Header { tag: Tag::Integer, length: self.inner_len()? })
    }

    /// A big unsigned integer from an [`Any`] holding an `INTEGER`.
    pub fn try_from(any: Any<'a>) -> (r: Result<BigUInt<'a, N>>)
        ensures
            match r {
                Ok(b) => big_uint_from_any(any@.0, any@.1, N as nat) == Ok::<Seq<u8>, Error>(b@),
                Err(e) => big_uint_from_any(any@.0, any@.1, N as nat) == Err::<Seq<u8>, Error>(e),
            },
    {
        any.tag().assert_eq(Tag::Integer)?;
        let bytes = any.value();
        if bytes.len() > 0 && bytes[0] >= 0x80 {
            return Err(Error::Value { tag: Tag::Integer });
        }
        if bytes.len() > N {
            if bytes.len() - 1 != N {
                return Err(Error::Length { tag: Tag::Integer });
            }
            if bytes[0] != 0 {
                return Err(Error::Value { tag: Tag::Integer });
            }
            let rest = vstd::slice::slice_subrange(bytes, 1, bytes.len());
            proof {
                assert(rest@ =~= any@.1.drop_first());
            }
            return Self::new(rest);
        }
        Self::new(bytes)
    }
}

impl<'a, const N: usize> Tagged for BigUInt<'a, N> {
    open spec fn spec_tag() -> Tag {
        Tag::Integer
    }

    fn tag() -> (r: Tag) {
        Tag::Integer
    }
}

impl<'a, const N: usize> Decodable<'a> for BigUInt<'a, N> {
    open spec fn spec_decode(s: Seq<u8>) -> (Result<Seq<u8>>, nat) {
        decode_via_any(s, |t: Tag, v: Seq<u8>| big_uint_from_any(t, v, N as nat))
    }

    fn decode(decoder: &mut Decoder<'a>) -> (r: Result<BigUInt<'a, N>>) {
        let any = Any::decode(decoder)?;
        Self::try_from(any)
    }
}

impl<'a, const N: usize> Encodable for BigUInt<'a, N> {
    open spec fn spec_encode(&self) -> Result<Seq<u8>> {
        let v = big_uint_value(self@);
        if v.len() > 0xFFFF {
            Err(Error::Overflow)
        } else {
            Ok(header_octets(Tag::Integer, v.len()) + v)
        }
    }

    fn encoded_len(&self) -> (r: Result<Length>) {
        let header = self.header()?;
        let r = header.encoded_len()?.checked_add(self.inner_len()?);
        proof {
            let v = big_uint_value(self@);
            assert((header_octets(Tag::Integer, v.len()) + v).len() == 1 + length_octets(
                v.len(),
            ).len() + v.len());
            if let Ok(l) = r {
                l.lemma_bound();
            }
        }
        r
    }

    fn encode(&self, encoder: &mut Encoder) -> (r: Result<()>) {
        let header = self.header()?;
        let ghost v = big_uint_value(self@);
        let ghost h = header_octets(Tag::Integer, v.len());
        let ghost e0 = *encoder;
        let r1 = header.encode(encoder);
        let ghost e1 = *encoder;
        if r1.is_err() {
            proof {
                lemma_encoded_then(e0, e1, e1, r1, r1, h, v);
            }
            return r1;
        }
        let bytes = self.as_bytes();
        if bytes.len() == 0 || bytes[0] >= 0x80 {
            let r2 = encoder.byte(0);
            let ghost e2 = *encoder;
            if r2.is_err() {
                proof {
                    lemma_encoded_then(e1, e2, e2, r2, r2, seq![0u8], self@);
                    lemma_encoded_then(e0, e1, e2, r1, r2, h, v);
                }
                return r2;
            }
            let r3 = encoder.bytes(bytes);
            proof {
                lemma_encoded_then(e1, e2, *encoder, r2, r3, seq![0u8], self@);
                lemma_encoded_then(e0, e1, *encoder, r1, r3, h, v);
            }
            r3
        } else {
            let r2 = encoder.bytes(bytes);
            proof {
                lemma_encoded_then(e0, e1, *encoder, r1, r2, h, v);
            }
            r2
        }
    }
}

/// Decoding the encoding of a big unsigned integer gives it back, having read the whole
/// encoding.
pub proof fn lemma_big_uint_roundtrip<const N: usize>(x: BigUInt<N>, rest: Seq<u8>)
    requires
        x@.len() <= N,
        strip_zeros(x@) == x@,
        big_uint_value(x@).len() <= 0xFFFF,
    ensures
        <BigUInt<N> as Decodable>::spec_decode(x.spec_encode()->Ok_0 + rest) == (
            Ok::<Seq<u8>, Error>(x@),
            x.spec_encode()->Ok_0.len(),
        ),
{
    let v = big_uint_value(x@);
    lemma_any_roundtrip(Tag::Integer, v, rest);
    if big_uint_needs_zero(x@) {
        assert(v[0] == 0u8);
        assert(v.drop_first() =~= x@);
        assert(strip_zeros(v) == strip_zeros(v.drop_first()));
    } else {
        if x@[0] == 0u8 {
            lemma_strip_zeros_len(x@.drop_first());
        }
    }
}

/// Removing leading zeros makes a sequence no longer.
pub proof fn lemma_strip_zeros_len(s: Seq<u8>)
    ensures
        strip_zeros(s).len() <= s.len(),
    decreases s.len(),
{
    if s.len() > 0 && s[0] == 0 {
        lemma_strip_zeros_len(s.drop_first());
    }
}


/// The DER encoding of a big unsigned integer is the `INTEGER` tag, the length, and its
/// octets, with one zero octet in front exactly when there are none or the first has its top
/// bit set, so that the `INTEGER` reads as non-negative; no other zero octet is added.
pub proof fn lemma_big_uint_encoding<const N: usize>(x: BigUInt<N>)
    requires
        x@.len() < 0xFFFF,
    ensures
        x@.len() > 0 && x@[0] < 0x80 ==> x.spec_encode() == Ok::<Seq<u8>, Error>(
            seq![0x02u8] + length_octets(x@.len()) + x@,
        ),
        x@.len() == 0 || x@[0] >= 0x80 ==> x.spec_encode() == Ok::<Seq<u8>, Error>(
            seq![0x02u8] + length_octets(x@.len() + 1) + seq![0u8] + x@,
        ),
{
    if x@.len() == 0 || x@[0] >= 0x80 {
        assert(seq![0x02u8] + length_octets(x@.len() + 1) + (seq![0u8] + x@) =~= seq![0x02u8]
            + length_octets(x@.len() + 1) + seq![0u8] + x@);
    }
}

} // verus!

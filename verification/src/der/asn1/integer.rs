//! ASN.1 `INTEGER` support for `i8` and `i16`, and the [`Integer`] type.
use crate::der::any::{decode_via_any, lemma_any_canonical, parse_any, Any};
use crate::der::decoder::Decoder;
use crate::der::encode::header_octets;
use crate::der::encoder::{encoded, lemma_encoded_then, Encoder};
use crate::der::error::{Error, Result};
use crate::der::header::{parse_header, Header};
use crate::der::length::Length;
use crate::der::tag::Tag;
use crate::der::traits::{Decodable, Encodable, Tagged};
use vstd::prelude::*;

verus! {

/// An `i8` from the tag and value of a tag-length-value triple: a single octet, read as a
/// two's complement number.
pub open spec fn i8_from_any(tag: Tag, value: Seq<u8>) -> Result<i8> {
    if tag != Tag::Integer {
        Err(Error::UnexpectedTag { expected: Some(Tag::Integer), actual: tag })
    } else if value.len() == 1 {
        Ok(value[0] as i8)
    } else {
        Err(Error::Length { tag: Tag::Integer })
    }
}

/// The two's complement number with the big-endian octets `hi`, `lo`.
pub open spec fn be_i16(hi: u8, lo: u8) -> i16 {
    (hi as int * 256 + lo as int - (if hi >= 0x80 { 0x10000int } else { 0int })) as i16
}

/// An `i16` from the tag and value of a tag-length-value triple: one octet, or two octets
/// that are the fewest for their value (the first is not a needless sign extension: neither
/// a zero before an octet below `0x80` nor `0xFF` before an octet of `0x80` or more), read
/// as a two's complement number.
pub open spec fn i16_from_any(tag: Tag, value: Seq<u8>) -> Result<i16> {
    if tag != Tag::Integer {
        Err(Error::UnexpectedTag { expected: Some(Tag::Integer), actual: tag })
    } else if value.len() == 1 {
        Ok(value[0] as i8 as i16)
    } else if value.len() == 2 {
        if (value[0] == 0 && value[1] < 0x80) || (value[0] == 0xFF && value[1] >= 0x80) {
            Err(Error::Noncanonical)
        } else {
            Ok(be_i16(value[0], value[1]))
        }
    } else {
        Err(Error::Length { tag: Tag::Integer })
    }
}

/// The DER encoding of an `i8`: the `INTEGER` tag, length one, and the octet.
pub open spec fn i8_encoding(v: i8) -> Seq<u8> {
    seq![0x02u8, 0x01u8, v as u8]
}

/// The two's complement value of an `i16` as an unsigned number below `0x10000`.
pub open spec fn i16_unsigned(v: i16) -> nat {
    (if v < 0 { v + 0x10000 } else { v as int }) as nat
}

/// The DER encoding of an `i16`: as an `i8` when it fits, else the `INTEGER` tag, length
/// two, and its two octets big-endian.
pub open spec fn i16_encoding(v: i16) -> Seq<u8> {
    if -128 <= v <= 127 {
        i8_encoding(v as i8)
    } else {
        seq![0x02u8, 0x02u8, (i16_unsigned(v) / 256) as u8, (i16_unsigned(v) % 256) as u8]
    }
}

/// Reading `hi`, `lo` as a big-endian `u16` and taking it as an `i16`.
proof fn lemma_be_i16(hi: u8, lo: u8)
    by (bit_vector)
    ensures
        ((((hi as u16) << 8u16) | (lo as u16)) as i16) == (hi as int * 256 + lo as int - (if hi
            >= 0x80 {
            0x10000int
        } else {
            0int
        })) as i16,
{
}

/// The octets of an `i16`, big-endian.
proof fn lemma_i16_octets(v: i16)
    by (bit_vector)
    ensures
        (((v as u16) >> 8u16) as u8) == (((if v < 0 { v + 0x10000int } else { v as int }) / 256) as u8),
        ((v as u16) as u8) == (((if v < 0 { v + 0x10000int } else { v as int }) % 256) as u8),
{
}

/// An `i8` from an [`Any`] holding an `INTEGER`.
pub fn i8_try_from(any: Any<'_>) -> (r: Result<i8>)
    ensures
        r == i8_from_any(any@.0, any@.1),
{
    let tag = any.tag().assert_eq(Tag::Integer)?;
    let bytes = any.value();
    if bytes.len() == 1 {
        Ok(bytes[0] as i8)
    } else {
        Err(Error::Length { tag })
    }
}

/// An `i16` from an [`Any`] holding an `INTEGER`.
pub fn i16_try_from(any: Any<'_>) -> (r: Result<i16>)
    ensures
        r == i16_from_any(any@.0, any@.1),
{
    let tag = any.tag().assert_eq(Tag::Integer)?;
    let bytes = any.value();
    if bytes.len() == 1 {
        let x = i8_try_from(any)?;
        Ok(x as i16)
    } else if bytes.len() == 2 {
        let hi = bytes[0];
        let lo = bytes[1];
        if (hi == 0 && lo < 0x80) || (hi == 0xFF && lo >= 0x80) {
            Err(Error::Noncanonical)
        } else {
            proof {
                lemma_be_i16(hi, lo);
            }
            Ok((((hi as u16) << 8u16) | (lo as u16)) as i16)
        }
    } else {
        Err(Error::Length { tag })
    }
}

/// Encode the header and the given octets of an `INTEGER` value.
fn encode_integer(encoder: &mut Encoder, octets: &[u8]) -> (r: Result<()>)
    requires
        1 <= octets@.len() <= 2,
    ensures
        encoded(
            *old(encoder),
            *final(encoder),
            r,
            Ok::<Seq<u8>, Error>(header_octets(Tag::Integer, octets@.len()) + octets@),
        ),
{
    let ghost e0 = *encoder;
    let ghost h = header_octets(Tag::Integer, octets@.len());
    let header = Header { tag: Tag::Integer, length: Length::from_u8(octets.len() as u8) };
    let r1 = header.encode(encoder);
    let ghost e1 = *encoder;
    if r1.is_err() {
        proof {
            lemma_encoded_then(e0, e1, e1, r1, r1, h, octets@);
        }
        return r1;
    }
    let r2 = encoder.bytes(octets);
    proof {
        lemma_encoded_then(e0, e1, *encoder, r1, r2, h, octets@);
    }
    r2
}

impl Tagged for i8 {
    open spec fn spec_tag() -> Tag {
        Tag::Integer
    }

    fn tag() -> (r: Tag) {
        Tag::Integer
    }
}

impl<'a> Decodable<'a> for i8 {
    open spec fn spec_decode(s: Seq<u8>) -> (Result<i8>, nat) {
        decode_via_any(s, |t: Tag, v: Seq<u8>| i8_from_any(t, v))
    }

    fn decode(decoder: &mut Decoder<'a>) -> (r: Result<i8>) {
        let any = Any::decode(decoder)?;
        i8_try_from(any)
    }
}

impl Encodable for i8 {
    open spec fn spec_encode(&self) -> Result<Seq<u8>> {
        Ok(i8_encoding(*self))
    }

    fn encoded_len(&self) -> (r: Result<Length>) {
        let header = Header { tag: Tag::Integer, length: Length::one() };
        header.encoded_len()?.checked_add(Length::one())
    }

    fn encode(&self, encoder: &mut Encoder) -> (r: Result<()>) {
        let octets = [*self as u8];
        let r = encode_integer(encoder, &octets);
        proof {
            assert(header_octets(Tag::Integer, 1) + octets@ =~= i8_encoding(*self));
        }
        r
    }
}

impl Tagged for i16 {
    open spec fn spec_tag() -> Tag {
        Tag::Integer
    }

    fn tag() -> (r: Tag) {
        Tag::Integer
    }
}

impl<'a> Decodable<'a> for i16 {
    open spec fn spec_decode(s: Seq<u8>) -> (Result<i16>, nat) {
        decode_via_any(s, |t: Tag, v: Seq<u8>| i16_from_any(t, v))
    }

    fn decode(decoder: &mut Decoder<'a>) -> (r: Result<i16>) {
        let any = Any::decode(decoder)?;
        i16_try_from(any)
    }
}

impl Encodable for i16 {
    open spec fn spec_encode(&self) -> Result<Seq<u8>> {
        Ok(i16_encoding(*self))
    }

    fn encoded_len(&self) -> (r: Result<Length>) {
        let inner: u8 = if -128 <= *self && *self <= 127 {
            1
        } else {
            2
        };
        let header = Header { tag: Tag::Integer, length: Length::from_u8(inner) };
        header.encoded_len()?.checked_add(Length::from_u8(inner))
    }

    fn encode(&self, encoder: &mut Encoder) -> (r: Result<()>) {
        if -128 <= *self && *self <= 127 {
            return (*self as i8).encode(encoder);
        }
        let v = *self;
        proof {
            lemma_i16_octets(v);
        }
        let octets = [((v as u16) >> 8u16) as u8, (v as u16) as u8];
        let r = encode_integer(encoder, &octets);
        proof {
            assert(header_octets(Tag::Integer, 2) + octets@ =~= i16_encoding(v));
        }
        r
    }
}

/// ASN.1 `INTEGER` type, presently constrained to `i8`.
#[derive(Copy, Clone, Debug, Eq, PartialEq, Structural)]
pub struct Integer(i8);

impl View for Integer {
    type V = i8;

    closed spec fn view(&self) -> i8 {
        self.0
    }
}

impl Integer {
    /// An `INTEGER` holding `x`.
    pub fn new(x: i8) -> (r: Integer)
        ensures
            r@ == x,
    {
        Integer(x)
    }

    /// The value of this `INTEGER`.
    pub fn to_i8(self) -> (r: i8)
        ensures
            r == self@,
    {
        self.0
    }

    /// Get the ASN.1 DER [`Header`] for this [`Integer`] value.
    fn header(self) -> (r: Header)
        ensures
            r@ == (Tag::Integer, 1nat),
    {
        Header { tag: Tag::Integer, length: Length::one() }
    }

    /// An `INTEGER` from an [`Any`] holding one.
    pub fn try_from(any: Any<'_>) -> (r: Result<Integer>)
        ensures
            match r {
                Ok(i) => i8_from_any(any@.0, any@.1) == Ok::<i8, Error>(i@),
                Err(e) => i8_from_any(any@.0, any@.1) == Err::<i8, Error>(e),
            },
    {
        let x = i8_try_from(any)?;
        Ok(Integer(x))
    }
}

impl Tagged for Integer {
    open spec fn spec_tag() -> Tag {
        Tag::Integer
    }

    fn tag() -> (r: Tag) {
        Tag::Integer
    }
}

impl<'a> Decodable<'a> for Integer {
    open spec fn spec_decode(s: Seq<u8>) -> (Result<i8>, nat) {
        decode_via_any(s, |t: Tag, v: Seq<u8>| i8_from_any(t, v))
    }

    fn decode(decoder: &mut Decoder<'a>) -> (r: Result<Integer>) {
        let any = Any::decode(decoder)?;
        Integer::try_from(any)
    }
}

impl Encodable for Integer {
    open spec fn spec_encode(&self) -> Result<Seq<u8>> {
        Ok(i8_encoding(self@))
    }

    fn encoded_len(&self) -> (r: Result<Length>) {
        self.header().encoded_len()?.checked_add(Length::one())
    }

    fn encode(&self, encoder: &mut Encoder) -> (r: Result<()>) {
        self.0.encode(encoder)
    }
}

/// Decoding the DER encoding of an `i8` gives it back, having read the whole encoding.
pub proof fn lemma_i8_roundtrip(v: i8, rest: Seq<u8>)
    ensures
        <i8 as Decodable>::spec_decode(i8_encoding(v) + rest) == (Ok::<i8, Error>(v), 3nat),
{
    let s = i8_encoding(v) + rest;
    assert(s[0] == 0x02u8 && s[1] == 0x01u8 && s[2] == v as u8);
    assert(s.drop_first()[0] == 0x01u8);
    assert(parse_header(s) == (Ok::<(Tag, nat), Error>((Tag::Integer, 1nat)), 2nat));
    assert(s.subrange(2, 3) =~= seq![v as u8]);
    assert(parse_any(s) == (Ok::<(Tag, Seq<u8>), Error>((Tag::Integer, seq![v as u8])), 3nat));
    assert((v as u8) as i8 == v) by (bit_vector);
}

/// Decoding the DER encoding of an `i16` gives it back, having read the whole encoding.
pub proof fn lemma_i16_roundtrip(v: i16, rest: Seq<u8>)
    ensures
        <i16 as Decodable>::spec_decode(i16_encoding(v) + rest) == (
            Ok::<i16, Error>(v),
            i16_encoding(v).len(),
        ),
{
    let s = i16_encoding(v) + rest;
    if -128 <= v <= 127 {
        let w = v as i8;
        assert(s[0] == 0x02u8 && s[1] == 0x01u8 && s[2] == w as u8);
        assert(s.drop_first()[0] == 0x01u8);
        assert(parse_header(s) == (Ok::<(Tag, nat), Error>((Tag::Integer, 1nat)), 2nat));
        assert(s.subrange(2, 3) =~= seq![w as u8]);
        assert(((w as u8) as i8) as i16 == v) by (bit_vector)
            requires
                w == v as i8,
                -128 <= v <= 127,
        ;
    } else {
        let u = i16_unsigned(v);
        let hi = (u / 256) as u8;
        let lo = (u % 256) as u8;
        assert(s[0] == 0x02u8 && s[1] == 0x02u8 && s[2] == hi && s[3] == lo);
        assert(s.drop_first()[0] == 0x02u8);
        assert(parse_header(s) == (Ok::<(Tag, nat), Error>((Tag::Integer, 2nat)), 2nat));
        assert(s.subrange(2, 4) =~= seq![hi, lo]);
        lemma_be_i16_inverse(v);
    }
}

/// What is read as an `i16` is the DER encoding of the value read: each `i16` has exactly one
/// encoding that the decoder accepts, the fewest octets for its value.
pub proof fn lemma_i16_canonical(s: Seq<u8>)
    ensures
        <i16 as Decodable>::spec_decode(s).0 matches Ok(v) ==> s.subrange(
            0,
            <i16 as Decodable>::spec_decode(s).1 as int,
        ) == i16_encoding(v),
{
    if let Ok(v) = <i16 as Decodable>::spec_decode(s).0 {
        lemma_any_canonical(s);
        let (t, val) = parse_any(s).0->Ok_0;
        let n = parse_any(s).1;
        assert(t == Tag::Integer);
        if val.len() == 1 {
            let b = val[0];
            assert(v == b as i8 as i16);
            assert(-128 <= v <= 127 && (v as i8) as u8 == b) by (bit_vector)
                requires
                    v == b as i8 as i16,
            ;
            assert(header_octets(t, 1) + val =~= i16_encoding(v));
        } else {
            let hi = val[0];
            let lo = val[1];
            assert(val.len() == 2);
            lemma_be_i16_octets(hi, lo);
            assert(header_octets(t, 2) + val =~= i16_encoding(v));
        }
    }
}

/// Two octets that are the fewest for their value read as an `i16` outside the `i8` range,
/// whose big-endian octets they are.
proof fn lemma_be_i16_octets(hi: u8, lo: u8)
    requires
        !(hi == 0 && lo < 0x80),
        !(hi == 0xFF && lo >= 0x80),
    ensures
        !(-128 <= be_i16(hi, lo) <= 127),
        (i16_unsigned(be_i16(hi, lo)) / 256) as u8 == hi,
        (i16_unsigned(be_i16(hi, lo)) % 256) as u8 == lo,
{
    let x = hi as int * 256 + lo as int;
    let w = x - (if hi >= 0x80 { 0x10000int } else { 0int });
    assert(-0x8000 <= w < 0x8000);
    assert(be_i16(hi, lo) == w);
    assert(i16_unsigned(be_i16(hi, lo)) == x);
}

/// The big-endian octets of an `i16` outside the `i8` range read back as it, and do not
/// open with a needless sign extension.
proof fn lemma_be_i16_inverse(v: i16)
    requires
        !(-128 <= v <= 127),
    ensures
        be_i16((i16_unsigned(v) / 256) as u8, (i16_unsigned(v) % 256) as u8) == v,
        !((i16_unsigned(v) / 256) as u8 == 0 && ((i16_unsigned(v) % 256) as u8) < 0x80),
        !((i16_unsigned(v) / 256) as u8 == 0xFF && ((i16_unsigned(v) % 256) as u8) >= 0x80),
{
    let u = i16_unsigned(v);
    let hi = u / 256;
    let lo = u % 256;
    assert(hi * 256 + lo == u);
    assert(hi < 256);
    if v < 0 {
        assert(u >= 0x8000);
        assert(u < 0xFF80);
        assert(hi >= 0x80);
    } else {
        assert(u >= 128);
        assert(u < 0x8000);
    }
}


/// The DER encoding of an `i16` is the `INTEGER` tag, the length, and one or two value octets,
/// two only when one cannot hold the value, and then without a needless sign extension: no
/// zero octet before an octet below `0x80`, and no `0xFF` octet before one of `0x80` or more.
pub proof fn lemma_i16_encoding_minimal(v: i16)
    ensures
        i16_encoding(v)[0] == 0x02,
        i16_encoding(v).len() == 3 || i16_encoding(v).len() == 4,
        i16_encoding(v)[1] == i16_encoding(v).len() - 2,
        i16_encoding(v).len() == 3 <==> -128 <= v <= 127,
        i16_encoding(v).len() == 4 ==> !(i16_encoding(v)[2] == 0 && i16_encoding(v)[3] < 0x80),
        i16_encoding(v).len() == 4 ==> !(i16_encoding(v)[2] == 0xFF && i16_encoding(v)[3] >= 0x80),
{
    if !(-128 <= v <= 127) {
        lemma_be_i16_inverse(v);
    }
}

} // verus!

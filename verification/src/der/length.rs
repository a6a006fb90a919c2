//! Lengths of encoded ASN.1 DER values.
use crate::der::decoder::Decoder;
use crate::der::encoder::{lemma_encoded_then, Encoder};
use crate::der::error::{Error, Result};
use crate::der::traits::{Decodable, Encodable};
use vstd::prelude::*;

verus! {

/// The DER length octets of `len` (which must be at most `0xFFFF`): a single octet below
/// `0x80`, otherwise `0x81` or `0x82` followed by the minimal number of big-endian octets.
pub open spec fn length_octets(len: nat) -> Seq<u8> {
    if len < 0x80 {
        seq![len as u8]
    } else if len <= 0xFF {
        seq![0x81u8, len as u8]
    } else {
        seq![0x82u8, (len / 256) as u8, (len % 256) as u8]
    }
}

/// Reading a DER length from the start of `s`: the length and the number of octets it takes,
/// or the error. Lengths of more than two octets, the indefinite length and non-minimal
/// encodings are refused.
pub open spec fn parse_length(s: Seq<u8>) -> Result<(nat, nat)> {
    if s.len() == 0 {
        Err(Error::Truncated)
    } else if s[0] < 0x80 {
        Ok((s[0] as nat, 1))
    } else if s[0] == 0x81 {
        if s.len() < 2 {
            Err(Error::Truncated)
        } else if s[1] >= 0x80 {
            Ok((s[1] as nat, 2))
        } else {
            Err(Error::Noncanonical)
        }
    } else if s[0] == 0x82 {
        if s.len() < 3 {
            Err(Error::Truncated)
        } else if s[1] as nat * 256 + s[2] as nat > 0xFF {
            Ok((s[1] as nat * 256 + s[2] as nat, 3))
        } else {
            Err(Error::Noncanonical)
        }
    } else {
        Err(Error::Overlength)
    }
}

/// The number of octets that reading a length from the start of `s` consumes, whether it
/// succeeds or not.
pub open spec fn length_read(s: Seq<u8>) -> nat {
    if s.len() == 0 {
        0
    } else if s[0] == 0x81 {
        if s.len() < 2 {
            1
        } else {
            2
        }
    } else if s[0] == 0x82 {
        if s.len() < 3 {
            s.len()
        } else {
            3
        }
    } else {
        1
    }
}

/// Two octets as a big-endian number, and a number below `0x10000` as two octets.
pub proof fn lemma_two_octets(hi: usize, lo: usize, len: usize)
    by (bit_vector)
    requires
        hi < 256,
        lo < 256,
        len <= 0xFFFF,
    ensures
        (hi << 8usize) | lo == hi * 256 + lo,
        len >> 8usize == len / 256,
        len & 0xFFusize == len % 256,
{
}

/// A length's octets read back as that length, and a length read from octets is the length
/// whose octets they are: the DER length encoding is a bijection.
pub proof fn lemma_length_roundtrip(len: nat, rest: Seq<u8>, s: Seq<u8>)
    requires
        len <= 0xFFFF,
    ensures
        parse_length(length_octets(len) + rest) == Ok::<(nat, nat), Error>(
            (len, length_octets(len).len()),
        ),
        parse_length(s) matches Ok((v, n)) ==> v <= 0xFFFF && n <= s.len() && s.subrange(0, n as int)
            == length_octets(v),
{
    let o = length_octets(len);
    assert((o + rest)[0] == o[0]);
    if len >= 0x80 {
        assert((o + rest)[1] == o[1]);
    }
    if len > 0xFF {
        assert((o + rest)[2] == o[2]);
        assert((len / 256) * 256 + len % 256 == len);
    }
    if let Ok((v, n)) = parse_length(s) {
        if s[0] < 0x80 {
            assert(s.subrange(0, 1) =~= length_octets(v));
        } else if s[0] == 0x81 {
            assert(s.subrange(0, 2) =~= length_octets(v));
        } else {
            assert(v / 256 == s[1] as nat);
            assert(v % 256 == s[2] as nat);
            assert(s.subrange(0, 3) =~= length_octets(v));
        }
    }
}

/// ASN.1-encoded length, presently constrained to the range `0..=65535`.
#[derive(Copy, Clone, Debug, Default, Eq, PartialEq, Structural)]
pub struct Length(u16);

impl View for Length {
    type V = nat;

    closed spec fn view(&self) -> nat {
        self.0 as nat
    }
}

impl Length {
    /// Every length is at most `0xFFFF`.
    pub proof fn lemma_bound(self)
        ensures
            self@ <= 0xFFFF,
    {
    }

    /// Lengths with the same value are equal.
    pub proof fn lemma_eq(self, other: Length)
        ensures
            (self@ == other@) == (self == other),
    {
    }

    /// Return a length of `0`.
    pub fn zero() -> (r: Self)
        ensures
            r@ == 0,
    {
        Length(0)
    }

    /// Return a length of `1`.
    pub fn one() -> (r: Self)
        ensures
            r@ == 1,
    {
        Length(1)
    }

    /// Get the maximum length supported by this crate.
    pub fn max() -> (r: usize)
        ensures
            r == 0xFFFF,
    {
        u16::MAX as usize
    }

    /// The length as a `usize`.
    pub fn to_usize(self) -> (r: usize)
        ensures
            r == self@,
    {
        self.0 as usize
    }

    /// The length as a `u16`.
    pub fn to_u16(self) -> (r: u16)
        ensures
            r == self@,
    {
        self.0
    }

    /// A length from a `u8`.
    pub fn from_u8(len: u8) -> (r: Length)
        ensures
            r@ == len,
    {
        Length(len as u16)
    }

    /// A length from a `u16`.
    pub fn from_u16(len: u16) -> (r: Length)
        ensures
            r@ == len,
    {
        Length(len)
    }

    /// A length from a `usize`, failing with [`Error::Overflow`] above `0xFFFF`.
    pub fn try_from_usize(len: usize) -> (r: Result<Length>)
        ensures
            match r {
                Ok(l) => len <= 0xFFFF && l@ == len,
                Err(e) => len > 0xFFFF && e == Error::Overflow,
            },
    {
        if len <= 0xFFFF {
            Ok(Length(len as u16))
        } else {
            Err(Error::Overflow)
        }
    }

    /// The sum of two lengths, failing with [`Error::Overflow`] above `0xFFFF`.
    pub fn checked_add(self, other: Length) -> (r: Result<Length>)
        ensures
            match r {
                Ok(l) => self@ + other@ <= 0xFFFF && l@ == self@ + other@,
                Err(e) => self@ + other@ > 0xFFFF && e == Error::Overflow,
            },
    {
        match self.0.checked_add(other.0) {
            Some(v) => Ok(Length(v)),
            None => Err(Error::Overflow),
        }
    }

    /// The sum of this length and a `usize`, failing with [`Error::Overflow`] above
    /// `0xFFFF`.
    pub fn checked_add_usize(self, other: usize) -> (r: Result<Length>)
        ensures
            match r {
                Ok(l) => self@ + other <= 0xFFFF && l@ == self@ + other,
                Err(e) => self@ + other > 0xFFFF && e == Error::Overflow,
            },
    {
        let other = Length::try_from_usize(other)?;
        self.checked_add(other)
    }

    /// The number of octets of the DER encoding of this length.
    pub fn encoded_len(&self) -> (r: Result<Length>)
        ensures
            r matches Ok(l) && l@ == length_octets(self@).len(),
    {
        if self.0 <= 0x7F {
            Ok(Length(1))
        } else if self.0 <= 0xFF {
            Ok(Length(2))
        } else {
            Ok(Length(3))
        }
    }

    /// The length of a complete TLV encoding whose value is `self` octets long: one tag octet,
    /// the length octets and the value.
    pub fn for_tlv(self) -> (r: Result<Length>)
        ensures
            match r {
                Ok(l) => l@ == 1 + length_octets(self@).len() + self@,
                Err(e) => 1 + length_octets(self@).len() + self@ > 0xFFFF && e == Error::Overflow,
            },
    {
        let header = Length::one().checked_add(self.encoded_len()?)?;
        header.checked_add(self)
    }
}

impl<'a> Decodable<'a> for Length {
    open spec fn spec_decode(s: Seq<u8>) -> (Result<nat>, nat) {
        match parse_length(s) {
            Ok((v, n)) => (Ok(v), n),
            Err(e) => (Err(e), length_read(s)),
        }
    }

    fn decode(decoder: &mut Decoder<'a>) -> (r: Result<Length>) {
        let ghost d0 = *decoder;
        let first = decoder.byte()?;
        proof {
            assert(decoder.rest() =~= d0.rest().drop_first());
        }
        if first < 0x80 {
            return Ok(Length::from_u8(first));
        }
        if first == 0x81 {
            let len = decoder.byte()?;
            if len >= 0x80 {
                Ok(Length::from_u8(len))
            } else {
                Err(Error::Noncanonical)
            }
        } else if first == 0x82 {
            let ghost d1 = *decoder;
            let hi = decoder.byte()?;
            proof {
                assert(decoder.rest() =~= d1.rest().drop_first());
            }
            let lo = decoder.byte()?;
            let len: u16 = ((hi as u16) << 8u16) | (lo as u16);
            proof {
                lemma_two_octets_u16(hi, lo);
            }
            if len > 0xFF {
                Ok(Length::from_u16(len))
            } else {
                Err(Error::Noncanonical)
            }
        } else {
            Err(Error::Overlength)
        }
    }
}

/// Two octets as a big-endian `u16`.
proof fn lemma_two_octets_u16(hi: u8, lo: u8)
    by (bit_vector)
    ensures
        ((hi as u16) << 8u16) | (lo as u16) == hi * 256 + lo,
{
}

impl Encodable for Length {
    open spec fn spec_encode(&self) -> Result<Seq<u8>> {
        Ok(length_octets(self@))
    }

    fn encoded_len(&self) -> (r: Result<Length>) {
        Length::encoded_len(self)
    }

    fn encode(&self, encoder: &mut Encoder) -> (r: Result<()>) {
        let ghost e0 = *encoder;
        if self.0 <= 0x7F {
            encoder.byte(self.0 as u8)
        } else if self.0 <= 0xFF {
            let r1 = encoder.byte(0x81);
            let ghost e1 = *encoder;
            if r1.is_err() {
                proof {
                    lemma_encoded_then(e0, e1, e1, r1, r1, seq![0x81u8], seq![self.0 as u8]);
                    assert(seq![0x81u8] + seq![self.0 as u8] =~= length_octets(self@));
                }
                return r1;
            }
            let r2 = encoder.byte(self.0 as u8);
            proof {
                lemma_encoded_then(e0, e1, *encoder, r1, r2, seq![0x81u8], seq![self.0 as u8]);
                assert(seq![0x81u8] + seq![self.0 as u8] =~= length_octets(self@));
            }
            r2
        } else {
            let hi = (self.0 >> 8u16) as u8;
            let lo = (self.0 & 0xFFu16) as u8;
            proof {
                lemma_split_u16(self.0);
            }
            let ghost a = seq![0x82u8];
            let ghost b = seq![hi];
            let ghost c = seq![lo];
            let r1 = encoder.byte(0x82);
            let ghost e1 = *encoder;
            if r1.is_err() {
                proof {
                    lemma_encoded_then(e0, e1, e1, r1, r1, a, b + c);
                    assert(a + (b + c) =~= length_octets(self@));
                }
                return r1;
            }
            let r2 = encoder.byte(hi);
            let ghost e2 = *encoder;
            if r2.is_err() {
                proof {
                    lemma_encoded_then(e1, e2, e2, r2, r2, b, c);
                    lemma_encoded_then(e0, e1, e2, r1, r2, a, b + c);
                    assert(a + (b + c) =~= length_octets(self@));
                }
                return r2;
            }
            let r3 = encoder.byte(lo);
            proof {
                lemma_encoded_then(e1, e2, *encoder, r2, r3, b, c);
                lemma_encoded_then(e0, e1, *encoder, r1, r3, a, b + c);
                assert(a + (b + c) =~= length_octets(self@));
            }
            r3
        }
    }
}

/// The two octets of a `u16`, big-endian.
proof fn lemma_split_u16(v: u16)
    by (bit_vector)
    ensures
        (v >> 8u16) as u8 == v / 256,
        (v & 0xFFu16) as u8 == v % 256,
{
}


/// DER length octets are the definite form with the fewest octets: the short form (one octet,
/// the length itself) exactly for lengths below `0x80`, and otherwise a first octet `0x80 + k`
/// followed by `k` big-endian octets of the length, the first of them not zero.
pub proof fn lemma_length_octets_minimal(len: nat)
    requires
        len <= 0xFFFF,
    ensures
        length_octets(len).len() >= 1,
        len < 0x80 <==> length_octets(len)[0] < 0x80,
        length_octets(len)[0] < 0x80 ==> length_octets(len).len() == 1 && length_octets(len)[0]
            == len,
        length_octets(len)[0] >= 0x80 ==> {
            let o = length_octets(len);
            &&& o.len() == 1 + (o[0] - 0x80)
            &&& o.len() == 2 || o.len() == 3
            &&& o[1] != 0
            &&& o.len() == 2 ==> o[1] == len
            &&& o.len() == 3 ==> o[1] * 256 + o[2] == len
        },
{
}

} // verus!

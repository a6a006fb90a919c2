//! Unsigned integers given by their big-endian octets, as ASN.1 DER `INTEGER`s.
use crate::der::any::Any;
use crate::der::encode::header_octets;
use crate::der::encoder::{encoded, lemma_encoded_then, Encoder};
use crate::der::error::{Error, Result};
use crate::der::header::Header;
use crate::der::length::Length;
use crate::der::tag::Tag;
use crate::der::traits::Encodable;
use vstd::prelude::*;

verus! {

/// `s` without needless leading zero octets: zeros are removed while another octet follows.
pub open spec fn strip_leading(s: Seq<u8>) -> Seq<u8>
    decreases s.len(),
{
    if s.len() > 1 && s[0] == 0 {
        strip_leading(s.drop_first())
    } else {
        s
    }
}

/// Does an unsigned number with these (stripped) octets need a leading zero to stay
/// non-negative as an `INTEGER`?
pub open spec fn needs_zero(s: Seq<u8>) -> bool {
    s.len() > 0 && s[0] >= 0x80
}

/// The value octets of the `INTEGER` encoding of the unsigned number with octets `s`.
pub open spec fn uint_value(s: Seq<u8>) -> Seq<u8> {
    let t = strip_leading(s);
    if needs_zero(t) {
        seq![0u8] + t
    } else {
        t
    }
}

/// `s` padded on the left with zeros to `n` octets (`s` must not be longer).
pub open spec fn pad_left(s: Seq<u8>, n: nat) -> Seq<u8> {
    Seq::new(n, |i: int| if i < n - s.len() { 0u8 } else { s[i - (n - s.len())] })
}

/// An unsigned number of `n` octets from the tag and value of a tag-length-value triple,
/// big-endian and padded to `n` octets. A first octet of `0x80` or more would make the `INTEGER`
/// negative; one octet more than `n` is allowed only as a leading zero.
pub open spec fn uint_from_any(tag: Tag, value: Seq<u8>, n: nat) -> Result<Seq<u8>> {
    if tag != Tag::Integer {
        Err(Error::UnexpectedTag { expected: Some(Tag::Integer), actual: tag })
    } else if value.len() > 0 && value[0] >= 0x80 {
        Err(Error::Value { tag: Tag::Integer })
    } else if value.len() > n {
        if value.len() != n + 1 {
            Err(Error::Length { tag: Tag::Integer })
        } else if value[0] != 0 {
            Err(Error::Value { tag: Tag::Integer })
        } else {
            Ok(pad_left(value.drop_first(), n))
        }
    } else {
        Ok(pad_left(value, n))
    }
}

/// Decode an unsigned integer of `N` octets from an [`Any`] holding an `INTEGER`, as its
/// big-endian octets.
pub fn decode<const N: usize>(any: Any<'_>) -> (r: Result<Vec<u8>>)
    ensures
        match r {
            Ok(v) => uint_from_any(any@.0, any@.1, N as nat) == Ok::<Seq<u8>, Error>(v@),
            Err(e) => uint_from_any(any@.0, any@.1, N as nat) == Err::<Seq<u8>, Error>(e),
        },
{
    any.tag().assert_eq(Tag::Integer)?;
    let mut input = any.value();
    if input.len() > 0 && input[0] >= 0x80 {
        return Err(Error::Value { tag: Tag::Integer });
    }
    if input.len() > N {
        if input.len() - 1 != N {
            return Err(Error::Length { tag: Tag::Integer });
        }
        if input[0] != 0 {
            return Err(Error::Value { tag: Tag::Integer });
        }
        input = vstd::slice::slice_subrange(input, 1, input.len());
    }
    let ghost src = input@;
    proof {
        if any@.1.len() > N {
            assert(src =~= any@.1.drop_first());
        }
    }
    let start = N - input.len();
    let mut output: Vec<u8> = Vec::new();
    let mut i: usize = 0;
    while i < N
        invariant
            input@ == src,
            src.len() <= N,
            start == N - src.len(),
            i <= N,
            output@.len() == i,
            forall|j: int| 0 <= j < i ==> output@[j] == pad_left(src, N as nat)[j],
        decreases N - i,
    {
        if i < start {
            output.push(0);
        } else {
            output.push(input[i - start]);
        }
        i = i + 1;
    }
    proof {
        assert(output@ =~= pad_left(src, N as nat));
    }
    Ok(output)
}

/// Encode the given big-endian octets of an unsigned integer as an ASN.1 DER `INTEGER`.
pub fn encode(encoder: &mut Encoder, input: &[u8]) -> (r: Result<()>)
    ensures
        ({
            let v = uint_value(input@);
            if strip_leading(input@).len() > 0xFFFF || v.len() > 0xFFFF {
                r == Err::<(), Error>(Error::Overflow)
            } else {
                encoded(
                    *old(encoder),
                    *final(encoder),
                    r,
                    Ok::<Seq<u8>, Error>(header_octets(Tag::Integer, v.len()) + v),
                )
            }
        }),
{
    let bytes = strip_leading_zeroes(input);
    let leading_zero = needs_leading_zero(bytes);
    let extra: u8 = if leading_zero {
        1
    } else {
        0
    };
    let len = Length::try_from_usize(bytes.len())?.checked_add(Length::from_u8(extra))?;
    let header = Header { tag: Tag::Integer, length: len };
    let ghost v = uint_value(input@);
    let ghost h = header_octets(Tag::Integer, v.len());
    let ghost e0 = *encoder;
    let r1 = header.encode(encoder);
    let ghost e1 = *encoder;
    if r1.is_err() {
        proof {
            lemma_encoded_then(e0, e1, e1, r1, r1, h, v);
        }
        return r1;
    }
    if leading_zero {
        let r2 = encoder.byte(0);
        let ghost e2 = *encoder;
        if r2.is_err() {
            proof {
                lemma_encoded_then(e1, e2, e2, r2, r2, seq![0u8], bytes@);
                lemma_encoded_then(e0, e1, e2, r1, r2, h, v);
            }
            return r2;
        }
        let r3 = encoder.bytes(bytes);
        proof {
            lemma_encoded_then(e1, e2, *encoder, r2, r3, seq![0u8], bytes@);
            lemma_encoded_then(e0, e1, *encoder, r1, r3, h, v);
        }
        r3
    } else {
        let r2 = encoder.bytes(bytes);
        proof {
            lemma_encoded_then(e0, e1, *encoder, r1, r2, h, v);
        }
        r2
    }
}

/// Get the length of the value octets of the `INTEGER` encoding of the unsigned integer
/// with the given big-endian octets.
pub fn encoded_len(bytes: &[u8]) -> (r: Result<Length>)
    ensures
        match r {
            Ok(l) => strip_leading(bytes@).len() <= 0xFFFF && uint_value(bytes@).len() <= 0xFFFF
                && l@ == uint_value(bytes@).len(),
            Err(e) => (strip_leading(bytes@).len() > 0xFFFF || uint_value(bytes@).len() > 0xFFFF)
                && e == Error::Overflow,
        },
{
    let bytes = strip_leading_zeroes(bytes);
    let extra: u8 = if needs_leading_zero(bytes) {
        1
    } else {
        0
    };
    Length::try_from_usize(bytes.len())?.checked_add(Length::from_u8(extra))
}

/// Strip the needless leading zeroes from the given byte slice.
pub fn strip_leading_zeroes(input: &[u8]) -> (r: &[u8])
    ensures
        r@ == strip_leading(input@),
{
    let mut bytes = input;
    while bytes.len() > 1 && bytes[0] == 0
        invariant
            strip_leading(bytes@) == strip_leading(input@),
        decreases bytes@.len(),
    {
        let rest = vstd::slice::slice_subrange(bytes, 1, bytes.len());
        proof {
            assert(rest@ =~= bytes@.drop_first());
        }
        bytes = rest;
    }
    bytes
}

/// Does the given integer need a leading zero?
pub fn needs_leading_zero(bytes: &[u8]) -> (r: bool)
    ensures
        r == needs_zero(bytes@),
{
    bytes.len() > 0 && bytes[0] >= 0x80
}


/// Removing needless leading zeros keeps a tail of the octets, non-empty when they are, and
/// what is removed is zeros only.
proof fn lemma_strip_leading_suffix(x: Seq<u8>)
    ensures
        strip_leading(x).len() <= x.len(),
        x.len() > 0 ==> strip_leading(x).len() > 0,
        strip_leading(x) == x.skip(x.len() - strip_leading(x).len()),
        forall|i: int| 0 <= i < x.len() - strip_leading(x).len() ==> x[i] == 0,
        strip_leading(x).len() > 1 ==> strip_leading(x)[0] != 0,
    decreases x.len(),
{
    if x.len() > 1 && x[0] == 0 {
        let t = x.drop_first();
        lemma_strip_leading_suffix(t);
        assert(x.skip(x.len() - strip_leading(x).len()) =~= t.skip(t.len() - strip_leading(t).len()));
        assert forall|i: int| 0 <= i < x.len() - strip_leading(x).len() implies x[i] == 0 by {
            if i > 0 {
                assert(x[i] == t[i - 1]);
            }
        }
    } else {
        assert(x.skip(0) =~= x);
    }
}

/// For every unsigned number of `n` big-endian octets, reading the value octets of its
/// `INTEGER` encoding back as a number of `n` octets gives the same octets.
pub proof fn lemma_uint_roundtrip(x: Seq<u8>, n: nat)
    requires
        x.len() == n,
    ensures
        uint_from_any(Tag::Integer, uint_value(x), n) == Ok::<Seq<u8>, Error>(x),
{
    lemma_strip_leading_suffix(x);
    let s = strip_leading(x);
    let v = uint_value(x);
    let k = n - s.len();
    if needs_zero(s) {
        if s.len() == n {
            assert(s =~= x);
            assert(v.drop_first() =~= s);
            assert(pad_left(v.drop_first(), n) =~= x);
        } else {
            assert(v.len() <= n);
            assert forall|i: int| 0 <= i < n implies #[trigger] pad_left(v, n)[i] == x[i] by {
                if i >= k {
                    assert(x[i] == s[i - k]);
                }
            }
            assert(pad_left(v, n) =~= x);
        }
    } else {
        assert forall|i: int| 0 <= i < n implies #[trigger] pad_left(s, n)[i] == x[i] by {
            if i >= k {
                assert(x[i] == s[i - k]);
            }
        }
        assert(pad_left(s, n) =~= x);
    }
}

/// An `INTEGER` of `n + 1` octets whose first octet is zero reads as an unsigned number of
/// `n` octets: its last `n` octets.
pub proof fn lemma_uint_extra_zero(v: Seq<u8>, n: nat)
    requires
        v.len() == n + 1,
        v[0] == 0,
    ensures
        uint_from_any(Tag::Integer, v, n) == Ok::<Seq<u8>, Error>(v.subrange(1, n as int + 1)),
{
    assert(pad_left(v.drop_first(), n) =~= v.subrange(1, n as int + 1));
}


/// The value octets of the `INTEGER` encoding of an unsigned number of at least one octet are
/// as few as possible: they read as non-negative (the first octet is below `0x80`), and a
/// leading zero octet stands only before an octet of `0x80` or more.
pub proof fn lemma_uint_value_minimal(x: Seq<u8>)
    requires
        x.len() > 0,
    ensures
        uint_value(x).len() > 0,
        uint_value(x)[0] < 0x80,
        uint_value(x).len() > 1 && uint_value(x)[0] == 0 ==> uint_value(x)[1] >= 0x80,
{
    lemma_strip_leading_suffix(x);
}

} // verus!

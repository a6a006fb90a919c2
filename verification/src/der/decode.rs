//! ASN.1 DER decoding over byte slices: each function reads from the front of a slice and
//! moves the slice past what it read.
use crate::der::asn1::oid::{oid_ber_accepted, ObjectIdentifier};
use crate::der::error::{Error, Result};
use crate::der::length::{lemma_two_octets, length_read, parse_length};
use crate::der::tag::{tag_of_byte, Tag};
use vstd::prelude::*;

verus! {

/// Reading a tag from the start of `s`.
pub open spec fn parse_tag(s: Seq<u8>) -> Result<Tag> {
    if s.len() == 0 {
        Err(Error::Truncated)
    } else {
        match tag_of_byte(s[0]) {
            Some(t) => Ok(t),
            None => Err(Error::UnknownTag { byte: s[0] }),
        }
    }
}

/// Reading a tag-length-value triple from the start of `s`: the tag, the value and the number
/// of octets the triple takes, or the error.
pub open spec fn parse_tlv(s: Seq<u8>) -> Result<(Tag, Seq<u8>, nat)> {
    match parse_tag(s) {
        Err(e) => Err(e),
        Ok(t) => match parse_length(s.drop_first()) {
            Err(e) => Err(e),
            Ok((len, n)) => if 1 + n + len > s.len() {
                Err(Error::Length { tag: t })
            } else {
                Ok((t, s.subrange(1 + n as int, 1 + n + len as int), 1 + n + len))
            },
        },
    }
}

/// The number of octets that reading a tag-length-value triple from the start of `s`
/// consumes, whether it succeeds or not.
pub open spec fn tlv_read(s: Seq<u8>) -> nat {
    match parse_tag(s) {
        Err(_) => if s.len() == 0 {
            0
        } else {
            1
        },
        Ok(t) => match parse_length(s.drop_first()) {
            Err(_) => 1 + length_read(s.drop_first()),
            Ok((len, n)) => if 1 + n + len > s.len() {
                1 + n
            } else {
                1 + n + len
            },
        },
    }
}

/// Extract the leading byte from a slice, failing with [`Error::Truncated`] when it is
/// empty.
pub fn byte(bytes: &mut &[u8]) -> (r: Result<u8>)
    ensures
        match r {
            Ok(b) => old(bytes)@.len() > 0 && b == old(bytes)@[0] && final(bytes)@ == old(
                bytes,
            )@.drop_first(),
            Err(e) => old(bytes)@.len() == 0 && e == Error::Truncated && final(bytes)@ == old(
                bytes,
            )@,
        },
{
    if bytes.len() == 0 {
        return Err(Error::Truncated);
    }
    let b = bytes[0];
    *bytes = vstd::slice::slice_subrange(*bytes, 1, bytes.len());
    Ok(b)
}

/// Decode a [`Tag`] value.
pub fn tag(bytes: &mut &[u8]) -> (r: Result<Tag>)
    ensures
        r == parse_tag(old(bytes)@),
        final(bytes)@ == old(bytes)@.skip(if old(bytes)@.len() == 0 { 0 } else { 1 }),
{
    let b = byte(bytes)?;
    Tag::try_from(b)
}

/// Parse a DER-encoded length, up to 65,535.
pub fn length(bytes: &mut &[u8]) -> (r: Result<usize>)
    ensures
        match parse_length(old(bytes)@) {
            Ok((v, n)) => r == Ok::<usize, Error>(v as usize) && final(bytes)@ == old(bytes)@.skip(
                n as int,
            ),
            Err(e) => r == Err::<usize, Error>(e) && final(bytes)@ == old(bytes)@.skip(
                length_read(old(bytes)@) as int,
            ),
        },
{
    let ghost s = old(bytes)@;
    let first = byte(bytes)?;
    if first < 0x80 {
        return Ok(first as usize);
    }
    match first {
        0x81 => {
            let len = byte(bytes)? as usize;
            if len >= 0x80 {
                Ok(len)
            } else {
                Err(Error::Noncanonical)
            }
        },
        0x82 => {
            let len_hi = byte(bytes)? as usize;
            let lo = byte(bytes)? as usize;
            let len = (len_hi << 8usize) | lo;
            proof {
                lemma_two_octets(len_hi, lo, 0);
                assert(s.len() >= 3);
            }
            if len > 0xFF {
                Ok(len)
            } else {
                Err(Error::Noncanonical)
            }
        },
        _ => Err(Error::Overlength),
    }
}

/// Read a tag-length-value triple, returning the tag and the value.
fn read_tlv<'a>(bytes: &mut &'a [u8]) -> (r: Result<(Tag, &'a [u8])>)
    ensures
        match parse_tlv(old(bytes)@) {
            Ok((t, v, n)) => r matches Ok((rt, rv)) && rt == t && rv@ == v && final(bytes)@ == old(
                bytes,
            )@.skip(n as int),
            Err(e) => r == Err::<(Tag, &'a [u8]), Error>(e) && final(bytes)@ == old(bytes)@.skip(
                tlv_read(old(bytes)@) as int,
            ),
        },
{
    let ghost s = old(bytes)@;
    let t = tag(bytes)?;
    proof {
        assert(bytes@ == s.drop_first());
    }
    let len = length(bytes)?;
    if len > bytes.len() {
        proof {
            assert(bytes@ == s.skip(tlv_read(s) as int));
        }
        return Err(Error::Length { tag: t });
    }
    let head = vstd::slice::slice_subrange(*bytes, 0, len);
    let tail = vstd::slice::slice_subrange(*bytes, len, bytes.len());
    *bytes = tail;
    proof {
        let (l, n) = parse_length(s.drop_first()).unwrap();
        assert(head@ =~= s.subrange(1 + n as int, 1 + n + l as int));
        assert(tail@ =~= s.skip(1 + n + l as int));
    }
    Ok((t, head))
}

/// Decode `INTEGER` with a one-octet value.
pub fn integer(bytes: &mut &[u8]) -> (r: Result<usize>)
    ensures
        match parse_tag(old(bytes)@) {
            Err(e) => r == Err::<usize, Error>(e) && final(bytes)@ == old(bytes)@.skip(
                if old(bytes)@.len() == 0 { 0 } else { 1 },
            ),
            Ok(t) => if t != Tag::Integer {
                r == Err::<usize, Error>(Error::UnexpectedTag { expected: Some(Tag::Integer), actual: t })
                    && final(bytes)@ == old(bytes)@.skip(1)
            } else {
                match parse_length(old(bytes)@.drop_first()) {
                    Err(e) => r == Err::<usize, Error>(e) && final(bytes)@ == old(bytes)@.skip(
                        1 + length_read(old(bytes)@.drop_first()) as int,
                    ),
                    Ok((len, n)) => if len != 1 {
                        r == Err::<usize, Error>(Error::Length { tag: Tag::Integer })
                            && final(bytes)@ == old(bytes)@.skip(1 + n as int)
                    } else if old(bytes)@.len() < 2 + n {
                        r == Err::<usize, Error>(Error::Truncated) && final(bytes)@ == old(
                            bytes,
                        )@.skip(1 + n as int)
                    } else {
                        r == Ok::<usize, Error>(old(bytes)@[1 + n as int] as usize) && final(bytes)@ == old(
                            bytes,
                        )@.skip(2 + n as int)
                    },
                }
            },
        },
{
    let ghost s = old(bytes)@;
    let tag = tag(bytes)?.assert_eq(Tag::Integer)?;
    proof {
        assert(bytes@ == s.drop_first());
    }
    let len = length(bytes)?;
    proof {
        let (l, n) = parse_length(s.drop_first()).unwrap();
        assert(bytes@ =~= s.skip(1 + n as int));
    }
    if len == 1 {
        proof {
            let (l, n) = parse_length(s.drop_first()).unwrap();
            assert(bytes@ =~= s.skip(1 + n as int));
        }
        let b = byte(bytes)?;
        proof {
            let (l, n) = parse_length(s.drop_first()).unwrap();
            assert(bytes@ =~= s.skip(2 + n as int));
        }
        Ok(b as usize)
    } else {
        Err(Error::Length { tag })
    }
}

/// Decode an ANY tag-length-value triple, calling `f` with the tag and the value and
/// returning its result.
pub fn any<'a, F, T>(bytes: &mut &'a [u8], f: F) -> (r: Result<T>) where
    F: FnOnce(Tag, &'a [u8]) -> Result<T>,

    requires
        parse_tlv(old(bytes)@) matches Ok((t, v, n)) ==> forall|sl: &'a [u8]|
            sl@ == v ==> #[trigger] f.requires((t, sl)),
    ensures
        match parse_tlv(old(bytes)@) {
            Ok((t, v, n)) => final(bytes)@ == old(bytes)@.skip(n as int) && exists|sl: &'a [u8]|
                sl@ == v && #[trigger] f.ensures((t, sl), r),
            Err(e) => r == Err::<T, Error>(e) && final(bytes)@ == old(bytes)@.skip(
                tlv_read(old(bytes)@) as int,
            ),
        },
{
    let (t, value) = read_tlv(bytes)?;
    f(t, value)
}

/// Parse an `OPTIONAL` value: `None` when `bytes` is empty, otherwise the result of
/// [`any`].
pub fn optional<'a, F, T>(bytes: &mut &'a [u8], f: F) -> (r: Result<Option<T>>) where
    F: FnOnce(Tag, &'a [u8]) -> Result<T>,

    requires
        parse_tlv(old(bytes)@) matches Ok((t, v, n)) ==> forall|sl: &'a [u8]|
            sl@ == v ==> #[trigger] f.requires((t, sl)),
    ensures
        old(bytes)@.len() == 0 ==> r == Ok::<Option<T>, Error>(None) && final(bytes)@ == old(bytes)@,
        old(bytes)@.len() > 0 ==> match parse_tlv(old(bytes)@) {
            Ok((t, v, n)) => final(bytes)@ == old(bytes)@.skip(n as int) && exists|
                sl: &'a [u8],
                fr: Result<T>,
            |
                sl@ == v && #[trigger] f.ensures((t, sl), fr) && r == match fr {
                    Ok(x) => Ok::<Option<T>, Error>(Some(x)),
                    Err(e) => Err::<Option<T>, Error>(e),
                },
            Err(e) => r == Err::<Option<T>, Error>(e) && final(bytes)@ == old(bytes)@.skip(
                tlv_read(old(bytes)@) as int,
            ),
        },
{
    if bytes.len() == 0 {
        Ok(None)
    } else {
        let (t, value) = read_tlv(bytes)?;
        match f(t, value) {
            Ok(x) => Ok(Some(x)),
            Err(e) => Err(e),
        }
    }
}

/// Expect a tag-length-value triple with the given tag, calling `f` with the value when the
/// tag matches.
pub fn tagged<'a, F, T>(bytes: &mut &'a [u8], expected_tag: Tag, f: F) -> (r: Result<T>) where
    F: FnOnce(&'a [u8]) -> Result<T>,

    requires
        parse_tlv(old(bytes)@) matches Ok((t, v, n)) ==> forall|sl: &'a [u8]|
            sl@ == v ==> #[trigger] f.requires((sl,)),
    ensures
        match parse_tlv(old(bytes)@) {
            Ok((t, v, n)) => final(bytes)@ == old(bytes)@.skip(n as int) && if t == expected_tag {
                exists|sl: &'a [u8]| sl@ == v && #[trigger] f.ensures((sl,), r)
            } else {
                r == Err::<T, Error>(Error::UnexpectedTag { expected: Some(expected_tag), actual: t })
            },
            Err(e) => r == Err::<T, Error>(e) && final(bytes)@ == old(bytes)@.skip(
                tlv_read(old(bytes)@) as int,
            ),
        },
{
    let (t, value) = read_tlv(bytes)?;
    t.assert_eq(expected_tag)?;
    f(value)
}

/// The value of a tag-length-value triple with the given tag.
fn tagged_value<'a>(bytes: &mut &'a [u8], expected_tag: Tag) -> (r: Result<&'a [u8]>)
    ensures
        match parse_tlv(old(bytes)@) {
            Ok((t, v, n)) => final(bytes)@ == old(bytes)@.skip(n as int) && if t == expected_tag {
                r matches Ok(rv) && rv@ == v
            } else {
                r == Err::<&'a [u8], Error>(
                    Error::UnexpectedTag { expected: Some(expected_tag), actual: t },
                )
            },
            Err(e) => r == Err::<&'a [u8], Error>(e) && final(bytes)@ == old(bytes)@.skip(
                tlv_read(old(bytes)@) as int,
            ),
        },
{
    let (t, value) = read_tlv(bytes)?;
    t.assert_eq(expected_tag)?;
    Ok(value)
}

/// Decode `BIT STRING`, returning its value octets.
pub fn bit_string<'a>(bytes: &mut &'a [u8]) -> (r: Result<&'a [u8]>)
    ensures
        match parse_tlv(old(bytes)@) {
            Ok((t, v, n)) => final(bytes)@ == old(bytes)@.skip(n as int) && if t == Tag::BitString {
                r matches Ok(rv) && rv@ == v
            } else {
                r == Err::<&'a [u8], Error>(
                    Error::UnexpectedTag { expected: Some(Tag::BitString), actual: t },
                )
            },
            Err(e) => r == Err::<&'a [u8], Error>(e) && final(bytes)@ == old(bytes)@.skip(
                tlv_read(old(bytes)@) as int,
            ),
        },
{
    tagged_value(bytes, Tag::BitString)
}

/// Decode `OCTET STRING`, returning its value octets.
pub fn octet_string<'a>(bytes: &mut &'a [u8]) -> (r: Result<&'a [u8]>)
    ensures
        match parse_tlv(old(bytes)@) {
            Ok((t, v, n)) => final(bytes)@ == old(bytes)@.skip(n as int) && if t == Tag::OctetString {
                r matches Ok(rv) && rv@ == v
            } else {
                r == Err::<&'a [u8], Error>(
                    Error::UnexpectedTag { expected: Some(Tag::OctetString), actual: t },
                )
            },
            Err(e) => r == Err::<&'a [u8], Error>(e) && final(bytes)@ == old(bytes)@.skip(
                tlv_read(old(bytes)@) as int,
            ),
        },
{
    tagged_value(bytes, Tag::OctetString)
}

/// Decode `SEQUENCE`, calling `f` with its value octets.
pub fn sequence<'a, F, T>(bytes: &mut &'a [u8], f: F) -> (r: Result<T>) where
    F: FnOnce(&'a [u8]) -> Result<T>,

    requires
        parse_tlv(old(bytes)@) matches Ok((t, v, n)) ==> forall|sl: &'a [u8]|
            sl@ == v ==> #[trigger] f.requires((sl,)),
    ensures
        match parse_tlv(old(bytes)@) {
            Ok((t, v, n)) => final(bytes)@ == old(bytes)@.skip(n as int) && if t == Tag::Sequence {
                exists|sl: &'a [u8]| sl@ == v && #[trigger] f.ensures((sl,), r)
            } else {
                r == Err::<T, Error>(Error::UnexpectedTag { expected: Some(Tag::Sequence), actual: t })
            },
            Err(e) => r == Err::<T, Error>(e) && final(bytes)@ == old(bytes)@.skip(
                tlv_read(old(bytes)@) as int,
            ),
        },
{
    tagged(bytes, Tag::Sequence, f)
}

/// Decode an `OBJECT IDENTIFIER`: a tag-length-value triple with that tag whose value is a
/// well-formed identifier encoding, else [`Error::Oid`].
pub fn oid(bytes: &mut &[u8]) -> (r: Result<ObjectIdentifier>)
    ensures
        match parse_tlv(old(bytes)@) {
            Ok((t, v, n)) => final(bytes)@ == old(bytes)@.skip(n as int) && if t
                == Tag::ObjectIdentifier {
                match r {
                    Ok(o) => oid_ber_accepted(v) && o@ == v,
                    Err(e) => !oid_ber_accepted(v) && e == Error::Oid,
                }
            } else {
                r == Err::<ObjectIdentifier, Error>(
                    Error::UnexpectedTag { expected: Some(Tag::ObjectIdentifier), actual: t },
                )
            },
            Err(e) => r == Err::<ObjectIdentifier, Error>(e) && final(bytes)@ == old(bytes)@.skip(
                tlv_read(old(bytes)@) as int,
            ),
        },
{
    let value = tagged_value(bytes, Tag::ObjectIdentifier)?;
    ObjectIdentifier::from_ber(value)
}

} // verus!

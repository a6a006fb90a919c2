//! ASN.1 DER encoding into byte buffers.
use crate::der::asn1::oid::ObjectIdentifier;
use crate::der::error::{Error, Result};
use crate::der::length::{lemma_two_octets, length_octets};
use crate::der::tag::{tag_byte, Tag};
use vstd::prelude::*;

verus! {

/// `buf` with the octets of `data` written from position `off` on, as far as `buf` reaches.
pub open spec fn overwrite(buf: Seq<u8>, off: int, data: Seq<u8>) -> Seq<u8> {
    Seq::new(buf.len(), |i: int| if off <= i < off + data.len() { data[i - off] } else { buf[i] })
}

/// The DER header octets of a value with tag `tag` and `len` value octets.
pub open spec fn header_octets(tag: Tag, len: nat) -> Seq<u8> {
    seq![tag_byte(tag)] + length_octets(len)
}

/// Encode a single byte at the given offset, failing with [`Error::Overlength`] when the
/// buffer is too short.
fn byte(buffer: &mut [u8], offset: usize, value: u8) -> (r: Result<()>)
    ensures
        final(buffer)@ == overwrite(old(buffer)@, offset as int, seq![value]),
        r == (if offset < old(buffer)@.len() {
            Ok::<(), Error>(())
        } else {
            Err::<(), Error>(Error::Overlength)
        }),
{
    if offset < buffer.len() {
        buffer[offset] = value;
        assert(buffer@ =~= overwrite(old(buffer)@, offset as int, seq![value]));
        Ok(())
    } else {
        assert(buffer@ =~= overwrite(old(buffer)@, offset as int, seq![value]));
        Err(Error::Overlength)
    }
}

/// Encode the DER length octets of `len` at `offset`, supporting lengths up to 65,535.
fn length_at(buffer: &mut [u8], offset: usize, len: usize) -> (r: Result<usize>)
    requires
        offset <= old(buffer)@.len(),
    ensures
        len > 0xFFFF ==> r == Err::<usize, Error>(Error::Overlength) && final(buffer)@ == old(
            buffer,
        )@,
        len <= 0xFFFF ==> {
            let o = length_octets(len as nat);
            &&& final(buffer)@ == overwrite(old(buffer)@, offset as int, o)
            &&& r == (if offset + o.len() <= old(buffer)@.len() {
                Ok::<usize, Error>(o.len() as usize)
            } else {
                Err::<usize, Error>(Error::Overlength)
            })
        },
{
    let ghost b0 = buffer@;
    let blen = buffer.len();
    if len <= 0x7F {
        byte(buffer, offset, len as u8)?;
        assert(buffer@ =~= overwrite(b0, offset as int, length_octets(len as nat)));
        Ok(1)
    } else if len <= 0xFF {
        let r0 = byte(buffer, offset, 0x81);
        let ghost b1 = buffer@;
        if r0.is_err() {
            assert(buffer@ =~= overwrite(b0, offset as int, length_octets(len as nat)));
            return Err(Error::Overlength);
        }
        let r1 = byte(buffer, offset + 1, len as u8);
        assert(buffer@ =~= overwrite(b0, offset as int, length_octets(len as nat)));
        r1?;
        Ok(2)
    } else if len <= 0xFFFF {
        proof {
            lemma_two_octets(0, 0, len);
        }
        let r0 = byte(buffer, offset, 0x82);
        if r0.is_err() {
            assert(buffer@ =~= overwrite(b0, offset as int, length_octets(len as nat)));
            return Err(Error::Overlength);
        }
        let r1 = byte(buffer, offset + 1, (len >> 8usize) as u8);
        if r1.is_err() {
            assert(buffer@ =~= overwrite(b0, offset as int, length_octets(len as nat)));
            return Err(Error::Overlength);
        }
        let r2 = byte(buffer, offset + 2, (len & 0xFFusize) as u8);
        assert(buffer@ =~= overwrite(b0, offset as int, length_octets(len as nat)));
        r2?;
        Ok(3)
    } else {
        Err(Error::Overlength)
    }
}

/// Encode a tag and a length header at the start of `buffer`, returning its size.
pub fn header(buffer: &mut [u8], tag: Tag, len: usize) -> (r: Result<usize>)
    ensures
        len > 0xFFFF ==> r == Err::<usize, Error>(Error::Overlength) && final(buffer)@ == overwrite(
            old(buffer)@,
            0,
            seq![tag_byte(tag)],
        ),
        len <= 0xFFFF ==> {
            let h = header_octets(tag, len as nat);
            &&& final(buffer)@ == overwrite(old(buffer)@, 0, h)
            &&& r == (if h.len() <= old(buffer)@.len() {
                Ok::<usize, Error>(h.len() as usize)
            } else {
                Err::<usize, Error>(Error::Overlength)
            })
        },
{
    let ghost b0 = buffer@;
    let t = tag.to_byte();
    let r0 = byte(buffer, 0, t);
    if r0.is_err() {
        assert(buffer@ =~= overwrite(b0, 0, header_octets(tag, len as nat)));
        assert(buffer@ =~= overwrite(b0, 0, seq![tag_byte(tag)]));
        return Err(Error::Overlength);
    }
    let ghost b1 = buffer@;
    let n = length_at(buffer, 1, len);
    proof {
        if len <= 0xFFFF {
            assert(buffer@ =~= overwrite(b0, 0, header_octets(tag, len as nat)));
        }
    }
    let n = n?;
    match n.checked_add(1) {
        Some(total) => Ok(total),
        None => Err(Error::Overflow),
    }
}

/// Encode a nested value (e.g. `OCTET STRING`, `SEQUENCE`): the header and then `data`,
/// returning the total size.
pub fn nested(buffer: &mut [u8], tag: Tag, data: &[u8]) -> (r: Result<usize>)
    ensures
        data@.len() > 0xFFFF ==> r == Err::<usize, Error>(Error::Overlength) && final(buffer)@
            == overwrite(old(buffer)@, 0, seq![tag_byte(tag)]),
        data@.len() <= 0xFFFF ==> {
            let h = header_octets(tag, data@.len());
            if h.len() + data@.len() <= old(buffer)@.len() {
                &&& r == Ok::<usize, Error>((h.len() + data@.len()) as usize)
                &&& final(buffer)@ == overwrite(old(buffer)@, 0, h + data@)
            } else {
                &&& r == Err::<usize, Error>(Error::Overlength)
                &&& final(buffer)@ == overwrite(old(buffer)@, 0, h)
            }
        },
{
    let ghost b0 = buffer@;
    let offset = header(buffer, tag, data.len())?;
    let ghost b1 = buffer@;
    let blen = buffer.len();
    if blen - offset < data.len() {
        return Err(Error::Overlength);
    }
    let mut i: usize = 0;
    while i < data.len()
        invariant
            offset + data@.len() <= buffer@.len(),
            buffer@.len() == b1.len(),
            buffer@.len() == blen,
            i <= data@.len(),
            forall|j: int| 0 <= j < offset ==> buffer@[j] == b1[j],
            forall|j: int| 0 <= j < i ==> buffer@[offset + j] == data@[j],
            forall|j: int| offset + data@.len() <= j < buffer@.len() ==> buffer@[j] == b1[j],
        decreases data@.len() - i,
    {
        buffer[offset + i] = data[i];
        i = i + 1;
    }
    proof {
        let h = header_octets(tag, data@.len());
        assert(b1 =~= overwrite(b0, 0, h));
        assert(offset == h.len());
        assert forall|j: int| 0 <= j < buffer@.len() implies buffer@[j] == overwrite(
            b0,
            0,
            h + data@,
        )[j] by {
            if j < offset {
                assert(buffer@[j] == b1[j]);
            } else if j < offset + data@.len() {
                assert(buffer@[offset + (j - offset)] == data@[j - offset]);
            } else {
                assert(buffer@[j] == b1[j]);
            }
        }
        assert(buffer@ =~= overwrite(b0, 0, h + data@));
    }
    Ok(offset + data.len())
}

/// Encode an `OBJECT IDENTIFIER`: the header and then its BER octets, returning the total
/// size. Octets that do not fit after the header are an [`Error::Oid`].
pub fn oid(buffer: &mut [u8], id: &ObjectIdentifier) -> (r: Result<usize>)
    ensures
        id@.len() > 0xFFFF ==> r == Err::<usize, Error>(Error::Overlength),
        id@.len() <= 0xFFFF ==> {
            let h = header_octets(Tag::ObjectIdentifier, id@.len());
            if h.len() > old(buffer)@.len() {
                r == Err::<usize, Error>(Error::Overlength) && final(buffer)@ == overwrite(
                    old(buffer)@,
                    0,
                    h,
                )
            } else if h.len() + id@.len() <= old(buffer)@.len() {
                &&& r == Ok::<usize, Error>((h.len() + id@.len()) as usize)
                &&& final(buffer)@ == overwrite(old(buffer)@, 0, h + id@)
            } else {
                &&& r == Err::<usize, Error>(Error::Oid)
                &&& final(buffer)@ == overwrite(old(buffer)@, 0, h)
            }
        },
{
    let ghost b0 = buffer@;
    let ber = id.as_bytes();
    let offset = header(buffer, Tag::ObjectIdentifier, ber.len())?;
    let ghost b1 = buffer@;
    let blen = buffer.len();
    if blen - offset < ber.len() {
        return Err(Error::Oid);
    }
    let mut i: usize = 0;
    while i < ber.len()
        invariant
            offset + ber@.len() <= buffer@.len(),
            buffer@.len() == b1.len(),
            buffer@.len() == blen,
            i <= ber@.len(),
            forall|j: int| 0 <= j < buffer@.len() ==> buffer@[j] == (if offset <= j < offset + i {
                ber@[j - offset]
            } else {
                b1[j]
            }),
        decreases ber@.len() - i,
    {
        buffer[offset + i] = ber[i];
        i = i + 1;
    }
    proof {
        let h = header_octets(Tag::ObjectIdentifier, ber@.len());
        assert(b1 =~= overwrite(b0, 0, h));
        assert(buffer@ =~= overwrite(b0, 0, h + ber@));
    }
    Ok(offset + ber.len())
}

} // verus!

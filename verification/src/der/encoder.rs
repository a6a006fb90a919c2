//! DER encoder: writes into an owned buffer and refuses further work once an error has
//! occurred.
use crate::der::asn1::bit_string::BitString;
use crate::der::asn1::null::Null;
use crate::der::asn1::octet_string::OctetString;
use crate::der::asn1::sequence::encoded_len_inner;
use crate::der::asn1::oid::ObjectIdentifier;
use crate::der::encode::{header_octets, overwrite};
use crate::der::error::{Error, Result};
use crate::der::header::Header;
use crate::der::length::Length;
use crate::der::tag::Tag;
use crate::der::traits::Encodable;
use vstd::prelude::*;

verus! {

/// What an encoding step did to an encoder, from `old` to `new`, with the outcome `r`, when
/// the value's encoding is `spec`.
///
/// An error of the value itself comes first. Otherwise a failed encoder answers
/// [`Error::Failed`] and stays failed; a buffer longer than `0xFFFF` octets gives
/// [`Error::Overflow`]; an encoding which does not fit in the rest of the buffer gives
/// [`Error::Overlength`] and fails the encoder; and an encoding which fits is written at the
/// cursor, which moves past it.
pub open spec fn encoded(old: Encoder, new: Encoder, r: Result<()>, spec: Result<Seq<u8>>) -> bool {
    match spec {
        Err(e) => r == Err::<(), Error>(e),
        Ok(b) => if old.failed() {
            r == Err::<(), Error>(Error::Failed) && new.failed()
        } else if old.buf().len() > 0xFFFF {
            r == Err::<(), Error>(Error::Overflow)
        } else if old.pos() + b.len() <= old.buf().len() {
            &&& r == Ok::<(), Error>(())
            &&& !new.failed()
            &&& new.buf() == overwrite(old.buf(), old.pos() as int, b)
            &&& new.pos() == old.pos() + b.len()
        } else {
            r == Err::<(), Error>(Error::Overlength) && new.failed()
        },
    }
}

/// `r` is the length of the encoding `spec`: its number of octets, [`Error::Overflow`] when
/// that exceeds `0xFFFF`, or the error of the encoding.
pub open spec fn encoded_len_of(r: Result<Length>, spec: Result<Seq<u8>>) -> bool {
    match spec {
        Err(e) => r == Err::<Length, Error>(e),
        Ok(b) => if b.len() <= 0xFFFF {
            r matches Ok(l) && l@ == b.len()
        } else {
            r == Err::<Length, Error>(Error::Overflow)
        },
    }
}

/// Encoding `a` and then, if that succeeded, `b`, is encoding `a + b`.
pub proof fn lemma_encoded_then(
    e0: Encoder,
    e1: Encoder,
    e2: Encoder,
    r1: Result<()>,
    r2: Result<()>,
    a: Seq<u8>,
    b: Seq<u8>,
)
    requires
        encoded(e0, e1, r1, Ok::<Seq<u8>, Error>(a)),
        r1 is Ok ==> encoded(e1, e2, r2, Ok::<Seq<u8>, Error>(b)),
    ensures
        r1 is Ok ==> encoded(e0, e2, r2, Ok::<Seq<u8>, Error>(a + b)),
        r1 is Err ==> encoded(e0, e1, r1, Ok::<Seq<u8>, Error>(a + b)),
{
    if r1 is Ok {
        assert(overwrite(overwrite(e0.buf(), e0.pos() as int, a), (e0.pos() + a.len()) as int, b) =~= overwrite(
            e0.buf(),
            e0.pos() as int,
            a + b,
        ));
    }
}

/// The length that `encoded_len` reports for an encoding `spec`.
pub open spec fn len_of(spec: Result<Seq<u8>>) -> Result<nat> {
    match spec {
        Err(e) => Err(e),
        Ok(b) => if b.len() > 0xFFFF {
            Err(Error::Overflow)
        } else {
            Ok(b.len())
        },
    }
}

/// The total encoded length of the fields of a `SEQUENCE`, summed from the first field to
/// the last: a field whose length is an error makes the total that error, and otherwise the
/// first error stays; a sum above `0xFFFF` is [`Error::Overflow`].
pub open spec fn fields_len(fields: Seq<&dyn Encodable>) -> Result<nat>
    decreases fields.len(),
{
    if fields.len() == 0 {
        Ok(0)
    } else {
        match len_of(fields.last().spec_encode()) {
            Err(e) => Err(e),
            Ok(l) => match fields_len(fields.drop_last()) {
                Err(e) => Err(e),
                Ok(sum) => if sum + l > 0xFFFF {
                    Err(Error::Overflow)
                } else {
                    Ok(sum + l)
                },
            },
        }
    }
}

/// The concatenated encodings of the fields of a `SEQUENCE` (the encodings of those which
/// have one).
pub open spec fn fields_bytes(fields: Seq<&dyn Encodable>) -> Seq<u8>
    decreases fields.len(),
{
    if fields.len() == 0 {
        Seq::empty()
    } else {
        fields_bytes(fields.drop_last()) + match fields.last().spec_encode() {
            Ok(b) => b,
            Err(_) => Seq::empty(),
        }
    }
}

/// When the fields' total length is `l`, each field has an encoding and their
/// concatenation is `l` octets long.
pub proof fn lemma_fields_len(fields: Seq<&dyn Encodable>)
    ensures
        fields_len(fields) matches Ok(l) ==> {
            &&& fields_bytes(fields).len() == l
            &&& l <= 0xFFFF
            &&& forall|i: int| 0 <= i < fields.len() ==> #[trigger] fields[i].spec_encode() is Ok
        },
    decreases fields.len(),
{
    if fields.len() > 0 {
        lemma_fields_len(fields.drop_last());
        if fields_len(fields) is Ok {
            assert forall|i: int| 0 <= i < fields.len() implies #[trigger] fields[i].spec_encode() is Ok by {
                if i < fields.len() - 1 {
                    assert(fields.drop_last()[i] == fields[i]);
                }
            }
        }
    }
}

/// The encodings of the first `j + 1` fields are those of the first `j` and then the next,
/// and none is longer than all of them together.
pub proof fn lemma_fields_prefix(fields: Seq<&dyn Encodable>, j: int)
    requires
        0 <= j < fields.len(),
        forall|k: int| 0 <= k < fields.len() ==> #[trigger] fields[k].spec_encode() is Ok,
    ensures
        fields_bytes(fields.take(j + 1)) == fields_bytes(fields.take(j)) + fields[j].spec_encode()->Ok_0,
        fields_bytes(fields.take(j + 1)).len() <= fields_bytes(fields).len(),
    decreases fields.len() - j,
{
    assert(fields.take(j + 1).drop_last() =~= fields.take(j));
    assert(fields.take(j + 1).last() == fields[j]);
    if j + 1 < fields.len() {
        lemma_fields_prefix(fields, j + 1);
    } else {
        assert(fields.take(j + 1) =~= fields);
    }
}

/// An encoding that failed for lack of room fails in the same way when it is longer.
pub proof fn lemma_encoded_longer(old: Encoder, new: Encoder, r: Result<()>, a: Seq<u8>, b: Seq<u8>)
    requires
        encoded(old, new, r, Ok::<Seq<u8>, Error>(a)),
        r is Err,
        a.len() <= b.len(),
    ensures
        encoded(old, new, r, Ok::<Seq<u8>, Error>(b)),
{
}

/// DER encoder.
pub struct Encoder {
    /// Buffer into which the DER-encoded message is written; `None` once an error occurred.
    bytes: Option<Vec<u8>>,
    /// Total number of bytes written to the buffer so far.
    position: Length,
}

impl Encoder {
    #[verifier::type_invariant]
    spec fn inv(self) -> bool {
        match self.bytes {
            Some(b) => self.position@ <= b@.len(),
            None => true,
        }
    }

    /// Has an error occurred?
    pub closed spec fn failed(&self) -> bool {
        self.bytes is None
    }

    /// The buffer (empty once failed).
    pub closed spec fn buf(&self) -> Seq<u8> {
        match self.bytes {
            Some(b) => b@,
            None => Seq::empty(),
        }
    }

    /// The number of octets written so far.
    pub closed spec fn pos(&self) -> nat {
        self.position@
    }

    /// Create a new encoder with the given buffer as backing storage.
    pub fn new(bytes: Vec<u8>) -> (r: Self)
        ensures
            !r.failed(),
            r.buf() == bytes@,
            r.pos() == 0,
    {
        Encoder { bytes: Some(bytes), position: Length::zero() }
    }

    /// Return an error with the given kind, marking the encoder failed.
    pub fn error<T>(&mut self, kind: Error) -> (r: Result<T>)
        ensures
            r == Err::<T, Error>(kind),
            final(self).failed(),
            final(self).pos() == old(self).pos(),
    {
        self.bytes = None;
        Err(kind)
    }

    /// Encode a value which impls the [`Encodable`] trait; an error fails the encoder.
    pub fn encode<T: Encodable>(&mut self, value: &T) -> (r: Result<()>)
        ensures
            old(self).failed() ==> r == Err::<(), Error>(Error::Failed) && final(self).failed(),
            !old(self).failed() ==> encoded(*old(self), *final(self), r, value.spec_encode()),
            r is Err ==> final(self).failed(),
    {
        if self.is_failed() {
            return self.error(Error::Failed);
        }
        match value.encode(self) {
            Ok(()) => Ok(()),
            Err(e) => self.error(e),
        }
    }

    /// Encode the given octets as an ASN.1 `BIT STRING`; octets too long for one fail the
    /// encoder with an [`Error::Value`].
    pub fn bit_string(&mut self, value: &[u8]) -> (r: Result<()>)
        ensures
            value@.len() > 0xFFFF ==> r == Err::<(), Error>(Error::Value { tag: Tag::BitString })
                && final(self).failed(),
            value@.len() <= 0xFFFF && old(self).failed() ==> r == Err::<(), Error>(Error::Failed)
                && final(self).failed(),
            value@.len() <= 0xFFFF && !old(self).failed() ==> encoded(
                *old(self),
                *final(self),
                r,
                if value@.len() + 1 > 0xFFFF {
                    Err::<Seq<u8>, Error>(Error::Overflow)
                } else {
                    Ok::<Seq<u8>, Error>(
                        header_octets(Tag::BitString, value@.len() + 1) + seq![0u8] + value@,
                    )
                },
            ),
            r is Err ==> final(self).failed(),
    {
        let bs = match BitString::new(value) {
            Ok(bs) => bs,
            Err(_) => return self.error(Error::Value { tag: Tag::BitString }),
        };
        self.encode(&bs)
    }

    /// Encode an ASN.1 `NULL` value.
    pub fn null(&mut self) -> (r: Result<()>)
        ensures
            old(self).failed() ==> r == Err::<(), Error>(Error::Failed) && final(self).failed(),
            !old(self).failed() ==> encoded(
                *old(self),
                *final(self),
                r,
                Ok::<Seq<u8>, Error>(seq![0x05u8, 0x00u8]),
            ),
            r is Err ==> final(self).failed(),
    {
        self.encode(&Null)
    }

    /// Encode the given octets as an ASN.1 `OCTET STRING`; octets too long for one fail the
    /// encoder with an [`Error::Value`].
    pub fn octet_string(&mut self, value: &[u8]) -> (r: Result<()>)
        ensures
            value@.len() > 0xFFFF ==> r == Err::<(), Error>(Error::Value { tag: Tag::OctetString })
                && final(self).failed(),
            value@.len() <= 0xFFFF && old(self).failed() ==> r == Err::<(), Error>(Error::Failed)
                && final(self).failed(),
            value@.len() <= 0xFFFF && !old(self).failed() ==> encoded(
                *old(self),
                *final(self),
                r,
                Ok::<Seq<u8>, Error>(header_octets(Tag::OctetString, value@.len()) + value@),
            ),
            r is Err ==> final(self).failed(),
    {
        let os = match OctetString::new(value) {
            Ok(os) => os,
            Err(_) => return self.error(Error::Value { tag: Tag::OctetString }),
        };
        self.encode(&os)
    }

    /// Encode an ASN.1 `OBJECT IDENTIFIER`: its header, then its BER octets.
    pub fn oid(&mut self, oid: &ObjectIdentifier) -> (r: Result<()>)
        ensures
            oid@.len() > 0xFFFF ==> r == Err::<(), Error>(Error::Overflow),
            oid@.len() <= 0xFFFF ==> encoded(
                *old(self),
                *final(self),
                r,
                Ok::<Seq<u8>, Error>(header_octets(Tag::ObjectIdentifier, oid@.len()) + oid@),
            ),
    {
        let ber = oid.as_bytes();
        let header = Header::new(Tag::ObjectIdentifier, ber.len())?;
        let ghost e0 = *self;
        let ghost h = header_octets(Tag::ObjectIdentifier, oid@.len());
        let r1 = header.encode(self);
        let ghost e1 = *self;
        if r1.is_err() {
            proof {
                lemma_encoded_then(e0, e1, e1, r1, r1, h, oid@);
            }
            return r1;
        }
        let r2 = self.bytes(ber);
        proof {
            lemma_encoded_then(e0, e1, *self, r1, r2, h, oid@);
        }
        r2
    }

    /// Encode a `SEQUENCE` of the given fields: its header, then each field's encoding. An
    /// error in the fields' lengths comes first, without touching the encoder.
    pub fn sequence(&mut self, fields: &[&dyn Encodable]) -> (r: Result<()>)
        ensures
            fields_len(fields@) matches Err(e) ==> r == Err::<(), Error>(e),
            fields_len(fields@) matches Ok(l) ==> encoded(
                *old(self),
                *final(self),
                r,
                Ok::<Seq<u8>, Error>(header_octets(Tag::Sequence, l) + fields_bytes(fields@)),
            ),
    {
        let ghost fs = fields@;
        let total = encoded_len_inner(fields)?;
        proof {
            lemma_fields_len(fs);
        }
        let header = Header { tag: Tag::Sequence, length: total };
        let ghost h = header_octets(Tag::Sequence, total@);
        let ghost e0 = *self;
        let r1 = header.encode(self);
        let ghost e1 = *self;
        if r1.is_err() {
            proof {
                lemma_encoded_then(e0, e1, e1, r1, r1, h, fields_bytes(fs));
            }
            return r1;
        }
        proof {
            assert(overwrite(e1.buf(), e1.pos() as int, Seq::<u8>::empty()) =~= e1.buf());
            assert(fs.take(0) =~= Seq::<&dyn Encodable>::empty());
        }
        let mut j: usize = 0;
        while j < fields.len()
            invariant
                fs == fields@,
                j <= fs.len(),
                fields_len(fs) == Ok::<nat, Error>(total@),
                forall|k: int| 0 <= k < fs.len() ==> #[trigger] fs[k].spec_encode() is Ok,
                fields_bytes(fs).len() == total@,
                encoded(e1, *self, Ok::<(), Error>(()), Ok::<Seq<u8>, Error>(fields_bytes(fs.take(j as int)))),
                !e1.failed(),
                encoded(e0, e1, r1, Ok::<Seq<u8>, Error>(h)),
                r1 is Ok,
                e0 == *old(self),
                h == header_octets(Tag::Sequence, total@),
            decreases fs.len() - j,
        {
            proof {
                lemma_fields_prefix(fs, j as int);
            }
            let field = fields[j];
            let ghost before = *self;
            let rj = field.encode(self);
            proof {
                assert(fs[j as int] == field);
                assert(fs.take(j + 1).drop_last() =~= fs.take(j as int));
                assert(fs.take(j + 1).last() == field);
                let b = field.spec_encode()->Ok_0;
                lemma_encoded_then(e1, before, *self, Ok::<(), Error>(()), rj, fields_bytes(fs.take(j as int)), b);
            }
            if rj.is_err() {
                proof {
                    lemma_encoded_longer(e1, *self, rj, fields_bytes(fs.take(j + 1)), fields_bytes(fs));
                    lemma_encoded_then(e0, e1, *self, r1, rj, h, fields_bytes(fs));
                }
                return rj;
            }
            j = j + 1;
        }
        proof {
            assert(fs.take(fs.len() as int) =~= fs);
            lemma_encoded_then(e0, e1, *self, r1, Ok::<(), Error>(()), h, fields_bytes(fs));
        }
        Ok(())
    }

    /// Did the encoding operation fail due to an error?
    pub fn is_failed(&self) -> (r: bool)
        ensures
            r == self.failed(),
    {
        self.bytes.is_none()
    }

    /// Finish encoding, returning the octets written to the buffer.
    pub fn finish(self) -> (r: Result<Vec<u8>>)
        ensures
            self.failed() ==> r == Err::<Vec<u8>, Error>(Error::Failed),
            !self.failed() ==> (r matches Ok(v) && v@ == self.buf().take(self.pos() as int)),
    {
        proof {
            use_type_invariant(&self);
        }
        let position = self.position.to_usize();
        match self.bytes {
            Some(bytes) => {
                let mut out: Vec<u8> = Vec::new();
                let mut i: usize = 0;
                while i < position
                    invariant
                        position <= bytes@.len(),
                        i <= position,
                        out@ == bytes@.take(i as int),
                    decreases position - i,
                {
                    out.push(bytes[i]);
                    i = i + 1;
                    assert(out@ =~= bytes@.take(i as int));
                }
                Ok(out)
            },
            None => Err(Error::Failed),
        }
    }

    /// Take the buffer out, leaving the encoder without one at the same position.
    fn take_bytes(&mut self) -> (r: Option<Vec<u8>>)
        ensures
            final(self).failed(),
            final(self).pos() == old(self).pos(),
            r == old(self).bytes,
    {
        let mut taken = Encoder { bytes: None, position: self.position };
        core::mem::swap(self, &mut taken);
        taken.bytes
    }

    /// Reserve `len` octets at the cursor, returning where they start and moving the cursor
    /// past them.
    fn reserve(&mut self, len: usize) -> (r: Result<usize>)
        ensures
            !old(self).failed() ==> old(self).pos() <= old(self).buf().len(),
            len > 0xFFFF ==> r == Err::<usize, Error>(Error::Overflow) && final(self).failed(),
            len <= 0xFFFF && old(self).failed() ==> r == Err::<usize, Error>(Error::Failed)
                && final(self).failed(),
            len <= 0xFFFF && !old(self).failed() ==> if old(self).buf().len() > 0xFFFF {
                r == Err::<usize, Error>(Error::Overflow) && *final(self) == *old(self)
            } else if old(self).pos() + len > old(self).buf().len() {
                r == Err::<usize, Error>(Error::Overlength) && final(self).failed()
            } else {
                &&& r == Ok::<usize, Error>(old(self).pos() as usize)
                &&& !final(self).failed()
                &&& final(self).buf() == old(self).buf()
                &&& final(self).pos() == old(self).pos() + len
            },
    {
        proof {
            use_type_invariant(&*self);
        }
        let len = match Length::try_from_usize(len) {
            Ok(l) => l,
            Err(_) => return self.error(Error::Overflow),
        };
        let remaining = self.remaining_len()?;
        if len.to_usize() > remaining.to_usize() {
            return self.error(Error::Overlength);
        }
        let start = self.position.to_usize();
        let end = match self.position.checked_add(len) {
            Ok(e) => e,
            Err(e) => return self.error(e),
        };
        self.position = end;
        Ok(start)
    }

    /// Get the size of the buffer in bytes: [`Error::Failed`] once failed, and
    /// [`Error::Overflow`] when it is longer than `0xFFFF` octets.
    fn buffer_len(&self) -> (r: Result<Length>)
        ensures
            self.failed() ==> r == Err::<Length, Error>(Error::Failed),
            !self.failed() && self.buf().len() > 0xFFFF ==> r == Err::<Length, Error>(Error::Overflow),
            !self.failed() && self.buf().len() <= 0xFFFF ==> (r matches Ok(l) && l@ == self.buf().len()),
    {
        match &self.bytes {
            Some(b) => Length::try_from_usize(b.len()),
            None => Err(Error::Failed),
        }
    }

    /// Get the number of bytes still remaining in the buffer.
    fn remaining_len(&self) -> (r: Result<Length>)
        ensures
            self.failed() ==> r == Err::<Length, Error>(Error::Failed),
            !self.failed() && self.buf().len() > 0xFFFF ==> r == Err::<Length, Error>(Error::Overflow),
            !self.failed() && self.buf().len() <= 0xFFFF ==> (r matches Ok(l) && l@ == self.buf().len()
                - self.pos()),
    {
        proof {
            use_type_invariant(self);
        }
        let total = self.buffer_len()?;
        let position = self.position.to_usize();
        let total = total.to_usize();
        if position > total {
            return Err(Error::Truncated);
        }
        Length::try_from_usize(total - position)
    }

    /// Encode a single byte into the backing buffer.
    pub(crate) fn byte(&mut self, byte: u8) -> (r: Result<()>)
        ensures
            encoded(*old(self), *final(self), r, Ok::<Seq<u8>, Error>(seq![byte])),
    {
        let start = self.reserve(1)?;
        proof {
            use_type_invariant(&*self);
        }
        let mut b = match self.take_bytes() {
            Some(b) => b,
            None => return Err(Error::Failed),
        };
        b.set(start, byte);
        self.bytes = Some(b);
        proof {
            assert(self.buf() =~= overwrite(old(self).buf(), old(self).pos() as int, seq![byte]));
        }
        Ok(())
    }

    /// Encode the provided byte slice into the backing buffer.
    pub(crate) fn bytes(&mut self, slice: &[u8]) -> (r: Result<()>)
        requires
            slice@.len() <= 0xFFFF,
        ensures
            encoded(*old(self), *final(self), r, Ok::<Seq<u8>, Error>(slice@)),
    {
        let start = self.reserve(slice.len())?;
        proof {
            use_type_invariant(&*self);
        }
        let mut b = match self.take_bytes() {
            Some(b) => b,
            None => return Err(Error::Failed),
        };
        let ghost b0 = b@;
        let blen = b.len();
        let mut i: usize = 0;
        while i < slice.len()
            invariant
                start + slice@.len() <= b@.len(),
                b@.len() == blen,
                b@.len() == b0.len(),
                i <= slice@.len(),
                forall|j: int| 0 <= j < b@.len() ==> b@[j] == (if start <= j < start + i {
                    slice@[j - start]
                } else {
                    b0[j]
                }),
            decreases slice@.len() - i,
        {
            b.set(start + i, slice[i]);
            i = i + 1;
        }
        self.bytes = Some(b);
        proof {
            assert(self.buf() =~= overwrite(old(self).buf(), old(self).pos() as int, slice@));
        }
        Ok(())
    }
}

} // verus!

//! DER decoder: a cursor over a byte slice which refuses further work once an error has
//! occurred.
use crate::der::error::{Error, Result};
use crate::der::any::Any;
use crate::der::asn1::bit_string::BitString;
use crate::der::asn1::integer::Integer;
use crate::der::asn1::null::Null;
use crate::der::asn1::octet_string::OctetString;
use crate::der::asn1::oid::ObjectIdentifier;
use crate::der::asn1::sequence::Sequence;
use crate::der::length::Length;
use crate::der::traits::{Decodable, Tagged};
use vstd::prelude::*;

verus! {

/// A result with its value taken by its view.
pub open spec fn res_view<T: View>(r: Result<T>) -> Result<T::V> {
    match r {
        Ok(v) => Ok(v@),
        Err(e) => Err(e),
    }
}

/// An optional result with its present value taken by its view.
pub open spec fn opt_view<T: View>(r: Result<Option<T>>) -> Result<T::V> {
    match r {
        Ok(Some(v)) => Ok(v@),
        Ok(None) => Err(Error::Failed),
        Err(e) => Err(e),
    }
}

/// What a decoding step did to a decoder, from `old` to `new`, with the outcome `r`, when
/// reading the value from the decoder's remaining octets gives `spec` (the outcome, and the
/// number of octets read).
///
/// A failed decoder answers [`Error::Failed`] and stays failed. Otherwise the outcome is
/// `spec`'s, and a success moves the cursor past what was read, which is at least one
/// octet. Only when what is read would take the cursor past `0xFFFF` (on an input longer
/// than that) may the decoder give up with another error (positions are [`Length`]s, and
/// moving past `0xFFFF` fails with [`Error::Overflow`]). After an error the decoder is
/// either failed or has moved past what was read.
pub open spec fn decoded<V>(old: Decoder, new: Decoder, r: Result<V>, spec: (Result<V>, nat)) -> bool {
    if old.failed() {
        r == Err::<V, Error>(Error::Failed) && new.failed()
    } else {
        match r {
            Ok(v) => {
                &&& spec.0 == Ok::<V, Error>(v)
                &&& !new.failed()
                &&& new.input() == old.input()
                &&& new.pos() == old.pos() + spec.1
                &&& new.pos() <= new.input().len()
                &&& spec.1 > 0
            },
            Err(e) => if old.input().len() > 0xFFFF && old.pos() + spec.1 > 0xFFFF {
                new.failed() || new.input() == old.input()
            } else {
                &&& spec.0 == Err::<V, Error>(e)
                &&& (new.failed() || (new.input() == old.input() && new.pos() == old.pos()
                    + spec.1))
            },
        }
    }
}

/// DER decoder.
pub struct Decoder<'a> {
    /// Byte slice being decoded; `None` once an error was encountered, which prevents further
    /// decoding while in a bad state.
    bytes: Option<&'a [u8]>,
    /// Position within the decoded slice.
    position: Length,
}

impl<'a> Decoder<'a> {
    #[verifier::type_invariant]
    spec fn inv(self) -> bool {
        match self.bytes {
            Some(b) => self.position@ <= b@.len(),
            None => true,
        }
    }

    /// Has an error occurred?
    pub closed spec fn failed(&self) -> bool {
        self.bytes is None
    }

    /// The octets being decoded (empty once failed).
    pub closed spec fn input(&self) -> Seq<u8> {
        match self.bytes {
            Some(b) => b@,
            None => Seq::empty(),
        }
    }

    /// The position of the cursor.
    pub closed spec fn pos(&self) -> nat {
        self.position@
    }

    /// The octets not yet decoded.
    pub open spec fn rest(&self) -> Seq<u8> {
        self.input().skip(self.pos() as int)
    }

    /// Create a new decoder for the given byte slice.
    pub fn new(bytes: &'a [u8]) -> (r: Self)
        ensures
            !r.failed(),
            r.input() == bytes@,
            r.pos() == 0,
    {
        Decoder { bytes: Some(bytes), position: Length::zero() }
    }

    /// Return an error with the given kind, marking the decoder failed.
    pub fn error<T>(&mut self, kind: Error) -> (r: Result<T>)
        ensures
            r == Err::<T, Error>(kind),
            final(self).failed(),
            final(self).pos() == old(self).pos(),
    {
        self.bytes = None;
        Err(kind)
    }

    /// Decode a value which impls the [`Decodable`] trait; an error fails the decoder.
    pub fn decode<T: Decodable<'a>>(&mut self) -> (r: Result<T>)
        ensures
            decoded(*old(self), *final(self), res_view(r), T::spec_decode(old(self).rest())),
            r is Err ==> final(self).failed(),
    {
        if self.is_failed() {
            return self.error(Error::Failed);
        }
        match T::decode(self) {
            Ok(v) => Ok(v),
            Err(e) => self.error(e),
        }
    }

    /// Finish decoding, returning the given value if there is no remaining data:
    /// [`Error::Failed`] after an error, and an [`Error::Length`] of `T`'s tag when octets
    /// remain.
    pub fn finish<T: Tagged>(self, value: T) -> (r: Result<T>)
        ensures
            self.failed() ==> r == Err::<T, Error>(Error::Failed),
            !self.failed() && self.rest().len() > 0 ==> r == Err::<T, Error>(
                Error::Length { tag: T::spec_tag() },
            ),
            !self.failed() && self.rest().len() == 0 ==> r == Ok::<T, Error>(value),
    {
        if self.is_failed() {
            Err(Error::Failed)
        } else if !self.is_finished() {
            Err(Error::Length { tag: T::tag() })
        } else {
            Ok(value)
        }
    }

    /// Attempt to decode an ASN.1 `OPTIONAL` value: `None` when no octets remain.
    pub fn optional<T: Decodable<'a>>(&mut self) -> (r: Result<Option<T>>)
        ensures
            old(self).failed() ==> r == Err::<Option<T>, Error>(Error::Failed) && final(self).failed(),
            !old(self).failed() && old(self).rest().len() == 0 ==> r == Ok::<Option<T>, Error>(None)
                && *final(self) == *old(self),
            !old(self).failed() && old(self).rest().len() > 0 ==> {
                &&& decoded(*old(self), *final(self), opt_view(r), T::spec_decode(old(self).rest()))
                &&& r matches Ok(o) ==> o is Some
                &&& r is Err ==> final(self).failed()
            },
    {
        if self.is_failed() {
            return self.error(Error::Failed);
        }
        if self.is_finished() {
            return Ok(None);
        }
        match T::decode(self) {
            Ok(v) => Ok(Some(v)),
            Err(e) => self.error(e),
        }
    }

    /// Attempt to decode an ASN.1 `ANY` value.
    pub fn any(&mut self) -> (r: Result<Any<'a>>)
        ensures
            decoded(
                *old(self),
                *final(self),
                res_view(r),
                <Any<'a> as Decodable<'a>>::spec_decode(old(self).rest()),
            ),
            r is Err ==> final(self).failed(),
    {
        self.decode()
    }

    /// Attempt to decode an ASN.1 `BIT STRING`.
    pub fn bit_string(&mut self) -> (r: Result<BitString<'a>>)
        ensures
            decoded(
                *old(self),
                *final(self),
                res_view(r),
                <BitString<'a> as Decodable<'a>>::spec_decode(old(self).rest()),
            ),
            r is Err ==> final(self).failed(),
    {
        self.decode()
    }

    /// Attempt to decode an ASN.1 `INTEGER`.
    pub fn integer(&mut self) -> (r: Result<Integer>)
        ensures
            decoded(
                *old(self),
                *final(self),
                res_view(r),
                <Integer as Decodable<'a>>::spec_decode(old(self).rest()),
            ),
            r is Err ==> final(self).failed(),
    {
        self.decode()
    }

    /// Attempt to decode an ASN.1 `NULL` value.
    pub fn null(&mut self) -> (r: Result<Null>)
        ensures
            decoded(
                *old(self),
                *final(self),
                res_view(r),
                <Null as Decodable<'a>>::spec_decode(old(self).rest()),
            ),
            r is Err ==> final(self).failed(),
    {
        self.decode()
    }

    /// Attempt to decode an ASN.1 `OCTET STRING`.
    pub fn octet_string(&mut self) -> (r: Result<OctetString<'a>>)
        ensures
            decoded(
                *old(self),
                *final(self),
                res_view(r),
                <OctetString<'a> as Decodable<'a>>::spec_decode(old(self).rest()),
            ),
            r is Err ==> final(self).failed(),
    {
        self.decode()
    }

    /// Attempt to decode an ASN.1 `OBJECT IDENTIFIER`.
    pub fn oid(&mut self) -> (r: Result<ObjectIdentifier>)
        ensures
            decoded(
                *old(self),
                *final(self),
                res_view(r),
                <ObjectIdentifier as Decodable<'a>>::spec_decode(old(self).rest()),
            ),
            r is Err ==> final(self).failed(),
    {
        self.decode()
    }

    /// Attempt to decode an ASN.1 `SEQUENCE`, calling `f` with a new decoder over its
    /// contents; an error of `f` fails this decoder.
    pub fn sequence<F, T>(&mut self, f: F) -> (r: Result<T>) where
        F: FnOnce(Decoder<'a>) -> Result<T>,

        requires
            !old(self).failed() ==> (<Sequence<'a> as Decodable<'a>>::spec_decode(
                old(self).rest(),
            ).0 matches Ok(v) ==> forall|d: Decoder<'a>|
                !d.failed() && d.input() == v && d.pos() == 0 ==> #[trigger] f.requires((d,))),
        ensures
            old(self).failed() ==> (r matches Err(e) && e == Error::Failed && final(self).failed()),
            !old(self).failed() ==> ({
                let (sp, n) = <Sequence<'a> as Decodable<'a>>::spec_decode(old(self).rest());
                &&& match sp {
                    Ok(v) => (old(self).input().len() <= 0xFFFF || old(self).pos() + n <= 0xFFFF
                        || r is Ok) ==> exists|
                        d: Decoder<'a>,
                    |
                        !d.failed() && d.input() == v && d.pos() == 0 && #[trigger] f.ensures(
                            (d,),
                            r,
                        ),
                    Err(e) => (old(self).input().len() <= 0xFFFF || old(self).pos() + n <= 0xFFFF)
                        ==> (r matches Err(e2) && e2 == e),
                }
                &&& r is Ok ==> !final(self).failed() && final(self).input() == old(self).input()
                    && final(self).pos() == old(self).pos() + n
                &&& r is Err && !final(self).failed() ==> (old(self).input().len() > 0xFFFF
                    && old(self).pos() + n > 0xFFFF) || (
                sp is Err && final(self).pos() == old(self).pos() + n)
            }),
    {
        let seq = Sequence::decode(self)?;
        match f(seq.decoder()) {
            Ok(v) => Ok(v),
            Err(e) => self.error(e),
        }
    }

    /// Did the decoding operation fail due to an error?
    pub fn is_failed(&self) -> (r: bool)
        ensures
            r == self.failed(),
    {
        self.bytes.is_none()
    }

    /// Have we decoded all of the bytes in this decoder? `false` after an error.
    pub fn is_finished(&self) -> (r: bool)
        ensures
            r == (!self.failed() && self.rest().len() == 0),
    {
        proof {
            use_type_invariant(self);
        }
        match self.bytes {
            Some(b) => self.position.to_usize() == b.len(),
            None => false,
        }
    }

    /// The octets not yet decoded, or [`Error::Truncated`] once failed.
    pub fn remaining(&self) -> (r: Result<&'a [u8]>)
        ensures
            self.failed() ==> r == Err::<&'a [u8], Error>(Error::Truncated),
            !self.failed() ==> (r matches Ok(s) && s@ == self.rest()),
    {
        proof {
            use_type_invariant(self);
        }
        match self.bytes {
            Some(b) => Ok(vstd::slice::slice_subrange(b, self.position.to_usize(), b.len())),
            None => Err(Error::Truncated),
        }
    }

    /// Take `len` octets from the cursor position: [`Error::Failed`] (staying failed) on a
    /// failed decoder, [`Error::Truncated`] when fewer remain, [`Error::Overflow`] when the
    /// new position would exceed `0xFFFF`.
    pub(crate) fn bytes(&mut self, len: usize) -> (r: Result<&'a [u8]>)
        ensures
            old(self).failed() ==> r == Err::<&'a [u8], Error>(Error::Failed) && final(self).failed(),
            !old(self).failed() ==> old(self).pos() <= old(self).input().len(),
            !final(self).failed() ==> final(self).pos() <= final(self).input().len(),
            !old(self).failed() ==> {
                &&& !final(self).failed()
                &&& final(self).input() == old(self).input()
                &&& if len > old(self).rest().len() {
                    r == Err::<&'a [u8], Error>(Error::Truncated) && final(self).pos() == old(
                        self,
                    ).pos()
                } else if old(self).pos() + len > 0xFFFF {
                    r == Err::<&'a [u8], Error>(Error::Overflow) && final(self).pos() == old(
                        self,
                    ).pos()
                } else {
                    &&& r matches Ok(s) && s@ == old(self).rest().take(len as int)
                    &&& final(self).pos() == old(self).pos() + len
                }
            },
    {
        proof {
            use_type_invariant(&*self);
        }
        if self.is_failed() {
            return self.error(Error::Failed);
        }
        let b = match self.bytes {
            Some(b) => b,
            None => return Err(Error::Truncated),
        };
        let pos = self.position.to_usize();
        if len > b.len() - pos {
            return Err(Error::Truncated);
        }
        let end = self.position.checked_add_usize(len)?;
        let result = vstd::slice::slice_subrange(b, pos, pos + len);
        proof {
            assert(result@ =~= old(self).rest().take(len as int));
        }
        self.position = end;
        Ok(result)
    }

    /// Decode a single byte, updating the internal cursor.
    pub(crate) fn byte(&mut self) -> (r: Result<u8>)
        ensures
            old(self).failed() ==> r == Err::<u8, Error>(Error::Failed) && final(self).failed(),
            !old(self).failed() ==> old(self).pos() <= old(self).input().len(),
            !final(self).failed() ==> final(self).pos() <= final(self).input().len(),
            !old(self).failed() ==> {
                &&& !final(self).failed()
                &&& final(self).input() == old(self).input()
                &&& if old(self).rest().len() == 0 {
                    r == Err::<u8, Error>(Error::Truncated) && final(self).pos() == old(self).pos()
                } else if old(self).pos() + 1 > 0xFFFF {
                    r == Err::<u8, Error>(Error::Overflow) && final(self).pos() == old(self).pos()
                } else {
                    r == Ok::<u8, Error>(old(self).rest()[0]) && final(self).pos() == old(
                        self,
                    ).pos() + 1
                }
            },
    {
        let s = self.bytes(1)?;
        if s.len() == 1 {
            Ok(s[0])
        } else {
            self.error(Error::Truncated)
        }
    }
}

} // verus!

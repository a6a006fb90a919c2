//! ASN.1 `SEQUENCE` support.
use crate::der::any::{decode_via_any, Any};
use crate::der::decoder::{decoded, res_view, Decoder};
use crate::der::encode::header_octets;
use crate::der::encoder::{fields_bytes, fields_len, lemma_fields_len};
use crate::der::traits::Encodable;
use crate::der::error::{Error, Result};
use crate::der::length::{length_octets, Length};
use crate::der::tag::Tag;
use crate::der::traits::{Decodable, Tagged};
use core::marker::PhantomData;
use vstd::prelude::*;

verus! {

/// A `SEQUENCE` from the tag and value of a tag-length-value triple: its value octets.
pub open spec fn sequence_from_any(tag: Tag, value: Seq<u8>) -> Result<Seq<u8>> {
    if tag != Tag::Sequence {
        Err(Error::UnexpectedTag { expected: Some(Tag::Sequence), actual: tag })
    } else {
        Ok(value)
    }
}

/// ASN.1 `SEQUENCE`.
#[derive(Copy, Clone, Debug, Eq, PartialEq)]
pub struct Sequence<'a> {
    /// Inner value
    inner: &'a [u8],
}

impl<'a> View for Sequence<'a> {
    type V = Seq<u8>;

    closed spec fn view(&self) -> Seq<u8> {
        self.inner@
    }
}

impl<'a> Sequence<'a> {
    #[verifier::type_invariant]
    spec fn inv(self) -> bool {
        self.inner@.len() <= 0xFFFF
    }

    /// Create a new [`Sequence`] from a slice, failing with an [`Error::Length`] when it is
    /// longer than `0xFFFF` octets.
    pub fn new(slice: &'a [u8]) -> (r: Result<Self>)
        ensures
            match r {
                Ok(s) => slice@.len() <= 0xFFFF && s@ == slice@,
                Err(e) => slice@.len() > 0xFFFF && e == (Error::Length { tag: Tag::Sequence }),
            },
    {
        if slice.len() <= Length::max() {
            Ok(Sequence { inner: slice })
        } else {
            Err(Error::Length { tag: Tag::Sequence })
        }
    }

    /// Borrow the inner byte sequence.
    pub fn as_bytes(&self) -> (r: &'a [u8])
        ensures
            r@ == self@,
            r@.len() <= 0xFFFF,
    {
        proof {
            use_type_invariant(self);
        }
        self.inner
    }

    /// Obtain a [`Decoder`] for the data in this [`Sequence`].
    pub fn decoder(&self) -> (r: Decoder<'a>)
        ensures
            !r.failed(),
            r.input() == self@,
            r.pos() == 0,
    {
        Decoder::new(self.inner)
    }

    /// A `SEQUENCE` from an [`Any`] holding one.
    pub fn try_from(any: Any<'a>) -> (r: Result<Sequence<'a>>)
        ensures
            match r {
                Ok(s) => sequence_from_any(any@.0, any@.1) == Ok::<Seq<u8>, Error>(s@),
                Err(e) => sequence_from_any(any@.0, any@.1) == Err::<Seq<u8>, Error>(e),
            },
    {
        any.tag().assert_eq(Tag::Sequence)?;
        Sequence::new(any.value())
    }
}

impl<'a> Tagged for Sequence<'a> {
    open spec fn spec_tag() -> Tag {
        Tag::Sequence
    }

    fn tag() -> (r: Tag) {
        Tag::Sequence
    }
}

impl<'a> Decodable<'a> for Sequence<'a> {
    open spec fn spec_decode(s: Seq<u8>) -> (Result<Seq<u8>>, nat) {
        decode_via_any(s, |t: Tag, v: Seq<u8>| sequence_from_any(t, v))
    }

    fn decode(decoder: &mut Decoder<'a>) -> (r: Result<Sequence<'a>>) {
        let any = Any::decode(decoder)?;
        Sequence::try_from(any)
    }
}

/// The total encoded length of the fields of a `SEQUENCE`, as [`fields_len`] says.
pub fn encoded_len_inner(fields: &[&dyn Encodable]) -> (r: Result<Length>)
    ensures
        match fields_len(fields@) {
            Ok(l) => r matches Ok(t) && t@ == l,
            Err(e) => r == Err::<Length, Error>(e),
        },
{
    let ghost fs = fields@;
    let mut total: Result<Length> = Ok(Length::zero());
    let mut i: usize = 0;
    while i < fields.len()
        invariant
            fs == fields@,
            i <= fs.len(),
            match total {
                Ok(t) => fields_len(fs.take(i as int)) == Ok::<nat, Error>(t@),
                Err(e) => fields_len(fs.take(i as int)) == Err::<nat, Error>(e),
            },
        decreases fs.len() - i,
    {
        let field = fields[i];
        let l = field.encoded_len();
        proof {
            assert(fs[i as int] == field);
            assert(fs.take(i + 1).drop_last() =~= fs.take(i as int));
            assert(fs.take(i + 1).last() == field);
            if let Ok(ll) = l {
                ll.lemma_bound();
            }
        }
        total = match l {
            Err(e) => Err(e),
            Ok(len) => match total {
                Err(e) => Err(e),
                Ok(sum) => sum.checked_add(len),
            },
        };
        i = i + 1;
    }
    proof {
        assert(fs.take(fs.len() as int) =~= fs);
    }
    total
}

/// The encoded length of a `SEQUENCE` of the given fields: its header and the fields'
/// encodings, or the error of [`encoded_len_inner`], or [`Error::Overflow`] above `0xFFFF`.
pub fn encoded_len(fields: &[&dyn Encodable]) -> (r: Result<Length>)
    ensures
        match fields_len(fields@) {
            Ok(l) => {
                let total = (header_octets(Tag::Sequence, l) + fields_bytes(fields@)).len();
                if total <= 0xFFFF {
                    r matches Ok(t) && t@ == total
                } else {
                    r == Err::<Length, Error>(Error::Overflow)
                }
            },
            Err(e) => r == Err::<Length, Error>(e),
        },
{
    let inner = encoded_len_inner(fields)?;
    let r = inner.for_tlv();
    proof {
        lemma_fields_len(fields@);
        let l = inner@;
        assert((header_octets(Tag::Sequence, l) + fields_bytes(fields@)).len() == 1
            + length_octets(l).len() + l);
        if let Ok(t) = r {
            t.lemma_bound();
        }
    }
    r
}

/// ASN.1 `SEQUENCE` iterator over the homogeneously typed values of a `SEQUENCE`.
pub struct SequenceIter<'a, T> {
    /// Sequence decoder
    decoder: Decoder<'a>,
    /// Type being decoded
    decodable: PhantomData<T>,
}

impl<'a, T: Decodable<'a>> SequenceIter<'a, T> {
    /// The decoder that the iterator reads from.
    pub closed spec fn source(&self) -> Decoder<'a> {
        self.decoder
    }

    /// Create a new sequence iterator reading from the given decoder.
    pub fn new(decoder: Decoder<'a>) -> (r: Self)
        ensures
            r.source() == decoder,
    {
        SequenceIter { decoder, decodable: PhantomData }
    }

    /// The next value: `None` once the decoder is finished, otherwise the result of decoding
    /// one value (an error, on a failed decoder).
    pub fn next(&mut self) -> (r: Option<Result<T>>)
        ensures
            !old(self).source().failed() && old(self).source().rest().len() == 0 ==> r is None
                && final(self).source() == old(self).source(),
            old(self).source().failed() || old(self).source().rest().len() > 0 ==> (r matches Some(
                x,
            ) && decoded(
                old(self).source(),
                final(self).source(),
                res_view(x),
                T::spec_decode(old(self).source().rest()),
            )),
    {
        if self.decoder.is_finished() {
            None
        } else {
            Some(T::decode(&mut self.decoder))
        }
    }
}

} // verus!

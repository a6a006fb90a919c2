//! ASN.1 `SET OF`: a collection of zero or more values of one type, in ascending order.
use crate::der::any::{decode_via_any, Any};
use crate::der::decoder::{decoded, res_view, Decoder};
use crate::der::encode::header_octets;
use crate::der::encoder::Encoder;
use crate::der::error::{Error, Result};
use crate::der::length::Length;
use crate::der::tag::Tag;
use crate::der::traits::{Decodable, Encodable, Tagged};
use core::marker::PhantomData;
use vstd::prelude::*;
use vstd::std_specs::cmp::{PartialOrdIs, PartialOrdSpec};

verus! {

/// Reading values of type `T` one after another until `s` is used up: their views, or the
/// first error.
pub open spec fn set_elements<'a, T: Decodable<'a>>(s: Seq<u8>) -> Result<Seq<T::V>>
    decreases s.len(),
{
    if s.len() == 0 {
        Ok(Seq::empty())
    } else {
        let (r, n) = T::spec_decode(s);
        match r {
            Err(e) => Err(e),
            Ok(v) => if n == 0 || n > s.len() {
                Err(Error::Failed)
            } else {
                match set_elements::<T>(s.skip(n as int)) {
                    Err(e) => Err(e),
                    Ok(rest) => Ok(seq![v] + rest),
                }
            },
        }
    }
}

/// No value of `vals` is greater than or equal to the next one, by `T`'s `PartialOrd`.
pub open spec fn strictly_ascending<T: PartialOrd>(vals: Seq<T>) -> bool {
    forall|i: int| 0 <= i < vals.len() - 1 ==> !(#[trigger] vals[i]).is_ge(&vals[i + 1])
}

/// Any two values of `T` whose views come one after the other in `vs` are in strictly
/// ascending order, by `T`'s `PartialOrd`.
pub open spec fn views_ascending<T: View + PartialOrd>(vs: Seq<T::V>) -> bool {
    forall|i: int, a: T, b: T|
        #![trigger vs[i], a@, b@]
        0 <= i < vs.len() - 1 && a@ == vs[i] && b@ == vs[i + 1] ==> !a.is_ge(&b)
}

/// The first `k` values read from `s` one after another (their views) and what remains after
/// them, or `None` when one of them cannot be read.
pub open spec fn first_elements<'a, T: Decodable<'a>>(s: Seq<u8>, k: nat) -> Option<
    (Seq<T::V>, Seq<u8>),
>
    decreases k,
{
    if k == 0 {
        Some((Seq::empty(), s))
    } else {
        match first_elements::<T>(s, (k - 1) as nat) {
            None => None,
            Some((vs, rest)) => {
                let (r, n) = T::spec_decode(rest);
                if rest.len() > 0 && r is Ok && 0 < n <= rest.len() {
                    Some((vs.push(r->Ok_0), rest.skip(n as int)))
                } else {
                    None
                }
            },
        }
    }
}

/// Two values of `T` found out of order among the first values read from `s`: the values
/// read first, of which the last but one is greater than or equal to the last.
pub open spec fn out_of_order_prefix<'a, T: Decodable<'a> + PartialOrd>(s: Seq<u8>) -> bool {
    exists|vals: Seq<T>|
        #![trigger first_elements::<T>(s, vals.len())]
        vals.len() >= 2 && (first_elements::<T>(s, vals.len()) matches Some((vs, _)) && vs
            == views(vals)) && vals[vals.len() - 2].is_ge(&vals[vals.len() - 1])
}

/// The views of a sequence of values.
pub open spec fn views<T: View>(vals: Seq<T>) -> Seq<T::V> {
    vals.map_values(|v: T| v@)
}

/// A `SET OF` from the tag and value of a tag-length-value triple.
pub open spec fn set_of_from_any(tag: Tag, value: Seq<u8>) -> Result<Seq<u8>> {
    if tag != Tag::SetOf {
        Err(Error::UnexpectedTag { expected: Some(Tag::SetOf), actual: tag })
    } else {
        Ok(value)
    }
}

/// For a type whose values are determined by their views, values in strictly ascending order
/// have views in strictly ascending order.
pub proof fn lemma_views_ascending<T: View + PartialOrd>(vals: Seq<T>)
    requires
        forall|a: T, b: T| #![trigger a@, b@] a@ == b@ ==> a == b,
        strictly_ascending(vals),
    ensures
        views_ascending::<T>(views(vals)),
{
    assert forall|i: int, a: T, b: T|
        #![trigger views(vals)[i], a@, b@]
        0 <= i < views(vals).len() - 1 && a@ == views(vals)[i] && b@ == views(vals)[i + 1]
            implies !a.is_ge(&b) by {
        assert(views(vals)[i] == vals[i]@);
        assert(views(vals)[i + 1] == vals[i + 1]@);
        assert(a == vals[i]);
        assert(b == vals[i + 1]);
    }
}

/// One more element read: the elements of the whole input are those read so far, this one,
/// and the elements of what remains.
proof fn lemma_set_step<'a, T: Decodable<'a>>(
    whole: Seq<u8>,
    d0: Decoder<'a>,
    d1: Decoder<'a>,
    prior: Seq<T::V>,
    v: T::V,
)
    requires
        !d0.failed(),
        d0.rest().len() > 0,
        decoded(d0, d1, Ok::<T::V, Error>(v), T::spec_decode(d0.rest())),
        set_elements::<T>(whole) == match set_elements::<T>(d0.rest()) {
            Ok(rest) => Ok::<Seq<T::V>, Error>(prior + rest),
            Err(e) => Err::<Seq<T::V>, Error>(e),
        },
        first_elements::<T>(whole, prior.len()) == Some((prior, d0.rest())),
    ensures
        set_elements::<T>(whole) == match set_elements::<T>(d1.rest()) {
            Ok(rest) => Ok::<Seq<T::V>, Error>(prior.push(v) + rest),
            Err(e) => Err::<Seq<T::V>, Error>(e),
        },
        first_elements::<T>(whole, prior.len() + 1) == Some((prior.push(v), d1.rest())),
{
    let n = T::spec_decode(d0.rest()).1;
    assert(d1.rest() =~= d0.rest().skip(n as int));
    if let Ok(rest) = set_elements::<T>(d1.rest()) {
        assert(prior + (seq![v] + rest) =~= prior.push(v) + rest);
    }
}

/// ASN.1 `SET OF` backed by a byte slice containing serialized DER.
#[derive(Debug)]
pub struct SetOfRef<'a, T> {
    /// DER-encoded elements
    inner: &'a [u8],
    /// Set element type
    element_type: PhantomData<T>,
}

impl<'a, T> View for SetOfRef<'a, T> {
    type V = Seq<u8>;

    closed spec fn view(&self) -> Seq<u8> {
        self.inner@
    }
}

impl<'a, T> SetOfRef<'a, T> {
    #[verifier::type_invariant]
    spec fn inv(self) -> bool {
        self.inner@.len() <= 0xFFFF
    }
}

impl<'a, T: Decodable<'a> + PartialOrd> SetOfRef<'a, T> {
    /// Create a new [`SetOfRef`] from a slice, checking that all its elements decode and
    /// come in strictly ascending order, as DER requires. A slice longer than `0xFFFF`
    /// octets is an [`Error::Length`] of the `SET` tag. The elements are read in order, and
    /// the first that fails to decode, or that is not greater than the one before it
    /// ([`Error::Noncanonical`]), ends the check. Where `T`'s `PartialOrd` keeps its
    /// specification, a slice whose elements all decode in strictly ascending order is
    /// accepted, and [`Error::Noncanonical`] comes only from an element's own decoding or
    /// from two elements out of order.
    #[verifier::spinoff_prover]
    #[verifier::rlimit(40)]
    pub fn new(slice: &'a [u8]) -> (r: Result<Self>)
        ensures
            slice@.len() > 0xFFFF ==> r == Err::<Self, Error>(Error::Length { tag: Tag::SetOf }),
            slice@.len() <= 0xFFFF ==> match r {
                Ok(s) => s@ == slice@ && set_elements::<T>(slice@) is Ok,
                Err(e) => set_elements::<T>(slice@) matches Err(e2) && e2 == e || e
                    == Error::Noncanonical,
            },
            slice@.len() <= 0xFFFF && T::obeys_partial_cmp_spec() && (set_elements::<T>(
                slice@,
            ) matches Ok(vs) && views_ascending::<T>(vs)) ==> (r matches Ok(s) && s@ == slice@),
            slice@.len() <= 0xFFFF && T::obeys_partial_cmp_spec() && r == Err::<Self, Error>(
                Error::Noncanonical,
            ) ==> set_elements::<T>(slice@) == Err::<Seq<T::V>, Error>(Error::Noncanonical)
                || out_of_order_prefix::<T>(slice@),
            T::obeys_partial_cmp_spec() && slice@.len() <= 0xFFFF ==> (r is Ok ==> exists|
                vals: Seq<T>,
            |
                set_elements::<T>(slice@) == Ok::<Seq<T::V>, Error>(views(vals))
                    && #[trigger] strictly_ascending(vals)),
    {
        if slice.len() > Length::max() {
            return Err(Error::Length { tag: Tag::SetOf });
        }
        let mut decoder = Decoder::new(slice);
        let mut last: Option<T> = None;
        let ghost mut vals: Seq<T> = Seq::empty();
        proof {
            assert(decoder.rest() =~= slice@);
        }
        while !decoder.is_finished()
            invariant
                !decoder.failed(),
                decoder.input() == slice@,
                decoder.pos() <= slice@.len(),
                slice@.len() <= 0xFFFF,
                set_elements::<T>(slice@) == match set_elements::<T>(decoder.rest()) {
                    Ok(rest) => Ok::<Seq<T::V>, Error>(views(vals) + rest),
                    Err(e) => Err::<Seq<T::V>, Error>(e),
                },
                match last {
                    Some(l) => vals.len() > 0 && vals.last() == l,
                    None => vals.len() == 0,
                },
                T::obeys_partial_cmp_spec() ==> strictly_ascending(vals),
                first_elements::<T>(slice@, vals.len()) == Some((views(vals), decoder.rest())),
            decreases slice@.len() - decoder.pos(),
        {
            let ghost d0 = decoder;
            proof {
                if set_elements::<T>(slice@) is Ok {
                    assert(set_elements::<T>(d0.rest()) is Ok);
                    assert(T::spec_decode(d0.rest()).0 is Ok);
                }
            }
            let value: T = decoder.decode()?;
            proof {
                lemma_set_step::<T>(slice@, d0, decoder, views(vals), value@);
                assert(views(vals.push(value)) =~= views(vals).push(value@));
                assert(first_elements::<T>(slice@, vals.push(value).len()) == Some(
                    (views(vals.push(value)), decoder.rest()),
                ));
            }
            match &last {
                Some(l) => {
                    if l.ge(&value) {
                        proof {
                            let w = vals.push(value);
                            assert(w[w.len() - 2] == *l);
                            assert(first_elements::<T>(slice@, w.len()) == Some(
                                (views(w), decoder.rest()),
                            ));
                            if let Ok(es) = set_elements::<T>(slice@) {
                                let k = vals.len() - 1;
                                assert(es == views(w) + set_elements::<T>(decoder.rest())->Ok_0);
                                assert(es[k] == views(w)[k]);
                                assert(es[k + 1] == views(w)[k + 1]);
                                assert(l@ == es[k]);
                                assert(value@ == es[k + 1]);
                            }
                        }
                        return Err(Error::Noncanonical);
                    }
                },
                None => {},
            }
            proof {
                vals = vals.push(value);
            }
            last = Some(value);
        }
        proof {
            assert(decoder.rest().len() == 0);
            assert(views(vals) + Seq::<T::V>::empty() =~= views(vals));
        }
        Ok(SetOfRef { inner: slice, element_type: PhantomData })
    }

    /// Borrow the inner byte sequence.
    pub fn as_bytes(&self) -> (r: &'a [u8])
        ensures
            r@ == self@,
            r@.len() <= 0xFFFF,
    {
        proof {
            use_type_invariant(self);
        }
        self.inner
    }

    /// A `SET OF` from an [`Any`] holding one, checked as [`SetOfRef::new`] does.
    pub fn try_from(any: Any<'a>) -> (r: Result<SetOfRef<'a, T>>)
        ensures
            any@.0 != Tag::SetOf ==> r == Err::<SetOfRef<'a, T>, Error>(
                Error::UnexpectedTag { expected: Some(Tag::SetOf), actual: any@.0 },
            ),
            any@.0 == Tag::SetOf ==> match r {
                Ok(s) => s@ == any@.1 && set_elements::<T>(any@.1) is Ok,
                Err(e) => set_elements::<T>(any@.1) matches Err(e2) && e2 == e || e
                    == Error::Noncanonical,
            },
            any@.0 == Tag::SetOf && T::obeys_partial_cmp_spec() && (set_elements::<T>(
                any@.1,
            ) matches Ok(vs) && views_ascending::<T>(vs)) ==> (r matches Ok(s) && s@ == any@.1),
            any@.0 == Tag::SetOf && T::obeys_partial_cmp_spec() && r == Err::<
                SetOfRef<'a, T>,
                Error,
            >(Error::Noncanonical) ==> set_elements::<T>(any@.1) == Err::<Seq<T::V>, Error>(
                Error::Noncanonical,
            ) || out_of_order_prefix::<T>(any@.1),
    {
        any.tag().assert_eq(Tag::SetOf)?;
        SetOfRef::new(any.value())
    }

}

/// ASN.1 `SET OF`: a collection of zero or more occurrences of a given type, which DER
/// orders.
pub trait SetOf<'a, T> {
    /// Iterator over the elements of the set
    type Iter;

    /// Iterate over the elements of the set.
    fn elements(&self) -> Self::Iter;
}

impl<'a, T: Decodable<'a> + PartialOrd> SetOf<'a, T> for SetOfRef<'a, T> {
    type Iter = SetOfRefIter<'a, T>;

    fn elements(&self) -> (r: SetOfRefIter<'a, T>)
        ensures
            !r.source().failed(),
            r.source().input() == self@,
            r.source().pos() == 0,
    {
        SetOfRefIter::new(self)
    }
}

impl<'a, T> Tagged for SetOfRef<'a, T> {
    open spec fn spec_tag() -> Tag {
        Tag::SetOf
    }

    fn tag() -> (r: Tag) {
        Tag::SetOf
    }
}

impl<'a, T: Decodable<'a> + PartialOrd> Encodable for SetOfRef<'a, T> {
    open spec fn spec_encode(&self) -> Result<Seq<u8>> {
        Ok(header_octets(Tag::SetOf, self@.len()) + self@)
    }

    fn encoded_len(&self) -> (r: Result<Length>) {
        Any::from_parts(Tag::SetOf, self.as_bytes()).encoded_len()
    }

    fn encode(&self, encoder: &mut Encoder) -> (r: Result<()>) {
        Any::from_parts(Tag::SetOf, self.as_bytes()).encode(encoder)
    }
}

/// Iterator over the elements of a [`SetOfRef`].
pub struct SetOfRefIter<'a, T> {
    /// Decoder which iterates over the elements of the message
    decoder: Decoder<'a>,
    /// Element type
    element_type: PhantomData<T>,
}

impl<'a, T: Decodable<'a> + PartialOrd> SetOfRefIter<'a, T> {
    /// The decoder that the iterator reads from.
    pub closed spec fn source(&self) -> Decoder<'a> {
        self.decoder
    }

    /// An iterator over the elements of `set`.
    pub fn new(set: &SetOfRef<'a, T>) -> (r: Self)
        ensures
            !r.source().failed(),
            r.source().input() == set@,
            r.source().pos() == 0,
    {
        SetOfRefIter { decoder: Decoder::new(set.as_bytes()), element_type: PhantomData }
    }

    /// The next element: `None` once all have been read, otherwise the result of decoding
    /// one.
    pub fn next(&mut self) -> (r: Option<Result<T>>)
        ensures
            !old(self).source().failed() && old(self).source().rest().len() == 0 ==> r is None
                && final(self).source() == old(self).source(),
            old(self).source().failed() || old(self).source().rest().len() > 0 ==> (r matches Some(
                x,
            ) && decoded(
                old(self).source(),
                final(self).source(),
                res_view(x),
                T::spec_decode(old(self).source().rest()),
            )),
    {
        if self.decoder.is_finished() {
            None
        } else {
            Some(T::decode(&mut self.decoder))
        }
    }
}

} // verus!

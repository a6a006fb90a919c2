//! ASN.1 `OBJECT IDENTIFIER` support; the encoding of the identifiers themselves is checked
//! and produced by the `const-oid` crate.
use crate::der::any::{decode_via_any, lemma_any_roundtrip, Any};
use crate::der::decoder::Decoder;
use crate::der::encode::header_octets;
use crate::der::encoder::Encoder;
use crate::der::error::{Error, Result};
use crate::der::length::Length;
use crate::der::tag::Tag;
use crate::der::traits::{Decodable, Encodable, Tagged};
use vstd::prelude::*;

verus! {

/// Whether `const_oid::ObjectIdentifier::from_bytes` accepts `ber` as the BER encoding
/// (value octets only) of an object identifier.
pub uninterp spec fn oid_ber_accepted(ber: Seq<u8>) -> bool;

/// The BER encoding (value octets only) that `const_oid::ObjectIdentifier::new` gives for a
/// dotted string, or `None` when it refuses the string.
pub uninterp spec fn oid_ber_of_str(s: Seq<char>) -> Option<Seq<u8>>;

/// Asks `const_oid::ObjectIdentifier::from_bytes` whether `ber` is a well-formed object
/// identifier encoding. Claimed: the answer depends on the octets alone.
#[verifier::external_body]
fn check_oid_ber(ber: &[u8]) -> (r: bool)
    ensures
        r == oid_ber_accepted(ber@),
{
    const_oid::ObjectIdentifier::from_bytes(ber).is_ok()
}

/// Parses a dotted object identifier with `const_oid::ObjectIdentifier::new` and hands back
/// its BER octets (`as_bytes`). Claimed: the result depends on the string alone.
#[verifier::external_body]
fn parse_oid_str(s: &str) -> (r: Option<Vec<u8>>)
    ensures
        match r {
            Some(v) => oid_ber_of_str(s@) == Some(v@),
            None => oid_ber_of_str(s@) is None,
        },
{
    match const_oid::ObjectIdentifier::new(s) {
        Ok(oid) => Some(oid.as_bytes().to_vec()),
        Err(_) => None,
    }
}

/// An `OBJECT IDENTIFIER` from the tag and value of a tag-length-value triple: the value
/// must be an encoding that `const-oid` accepts, else [`Error::Oid`].
pub open spec fn oid_from_any(tag: Tag, value: Seq<u8>) -> Result<Seq<u8>> {
    if tag != Tag::ObjectIdentifier {
        Err(Error::UnexpectedTag { expected: Some(Tag::ObjectIdentifier), actual: tag })
    } else if oid_ber_accepted(value) {
        Ok(value)
    } else {
        Err(Error::Oid)
    }
}

/// ASN.1 `OBJECT IDENTIFIER`, held as its BER encoding (value octets only).
#[derive(Debug, Eq, PartialEq)]
pub struct ObjectIdentifier {
    /// BER encoding, accepted by `const-oid`
    ber: Vec<u8>,
}

impl View for ObjectIdentifier {
    type V = Seq<u8>;

    closed spec fn view(&self) -> Seq<u8> {
        self.ber@
    }
}

impl ObjectIdentifier {
    #[verifier::type_invariant]
    spec fn inv(self) -> bool {
        oid_ber_accepted(self.ber@)
    }

    /// Parse an object identifier from its dotted string form, such as `1.2.840.113549`,
    /// failing with [`Error::Oid`] on a string that is not one.
    pub fn parse(s: &str) -> (r: Result<ObjectIdentifier>)
        ensures
            match r {
                Ok(o) => oid_ber_of_str(s@) == Some(o@) && oid_ber_accepted(o@),
                Err(e) => e == Error::Oid && match oid_ber_of_str(s@) {
                    Some(b) => !oid_ber_accepted(b),
                    None => true,
                },
            },
    {
        match parse_oid_str(s) {
            Some(ber) => {
                if check_oid_ber(ber.as_slice()) {
                    Ok(ObjectIdentifier { ber })
                } else {
                    Err(Error::Oid)
                }
            },
            None => Err(Error::Oid),
        }
    }

    /// An object identifier from its BER encoding (value octets only), failing with
    /// [`Error::Oid`] when it is malformed.
    pub fn from_ber(ber: &[u8]) -> (r: Result<ObjectIdentifier>)
        ensures
            match r {
                Ok(o) => oid_ber_accepted(ber@) && o@ == ber@,
                Err(e) => !oid_ber_accepted(ber@) && e == Error::Oid,
            },
    {
        if check_oid_ber(ber) {
            let mut v: Vec<u8> = Vec::new();
            let mut i: usize = 0;
            while i < ber.len()
                invariant
                    i <= ber@.len(),
                    v@ == ber@.take(i as int),
                decreases ber@.len() - i,
            {
                v.push(ber[i]);
                i = i + 1;
                assert(v@ =~= ber@.take(i as int));
            }
            assert(v@ =~= ber@);
            Ok(ObjectIdentifier { ber: v })
        } else {
            Err(Error::Oid)
        }
    }

    /// The BER encoding (value octets only) of this object identifier.
    pub fn as_bytes(&self) -> (r: &[u8])
        ensures
            r@ == self@,
            oid_ber_accepted(r@),
    {
        proof {
            use_type_invariant(self);
        }
        self.ber.as_slice()
    }

    /// The length of the BER encoding of this object identifier.
    pub fn ber_len(&self) -> (r: usize)
        ensures
            r == self@.len(),
    {
        self.ber.len()
    }

    /// An object identifier from an [`Any`] holding one.
    pub fn try_from(any: Any<'_>) -> (r: Result<ObjectIdentifier>)
        ensures
            match r {
                Ok(o) => oid_from_any(any@.0, any@.1) == Ok::<Seq<u8>, Error>(o@),
                Err(e) => oid_from_any(any@.0, any@.1) == Err::<Seq<u8>, Error>(e),
            },
    {
        any.tag().assert_eq(Tag::ObjectIdentifier)?;
        ObjectIdentifier::from_ber(any.value())
    }

    /// This object identifier as an [`Any`], failing with an [`Error::Length`] when its
    /// encoding is longer than `0xFFFF` octets.
    pub fn to_any(&self) -> (r: Result<Any<'_>>)
        ensures
            match r {
                Ok(a) => self@.len() <= 0xFFFF && a@ == (Tag::ObjectIdentifier, self@),
                Err(e) => self@.len() > 0xFFFF && e == (Error::Length { tag: Tag::ObjectIdentifier }),
            },
    {
        Any::new(Tag::ObjectIdentifier, self.ber.as_slice())
    }
}

impl Tagged for ObjectIdentifier {
    open spec fn spec_tag() -> Tag {
        Tag::ObjectIdentifier
    }

    fn tag() -> (r: Tag) {
        Tag::ObjectIdentifier
    }
}

impl<'a> Decodable<'a> for ObjectIdentifier {
    open spec fn spec_decode(s: Seq<u8>) -> (Result<Seq<u8>>, nat) {
        decode_via_any(s, |t: Tag, v: Seq<u8>| oid_from_any(t, v))
    }

    fn decode(decoder: &mut Decoder<'a>) -> (r: Result<ObjectIdentifier>) {
        let any = Any::decode(decoder)?;
        ObjectIdentifier::try_from(any)
    }
}

impl Encodable for ObjectIdentifier {
    open spec fn spec_encode(&self) -> Result<Seq<u8>> {
        if self@.len() > 0xFFFF {
            Err(Error::Length { tag: Tag::ObjectIdentifier })
        } else {
            Ok(header_octets(Tag::ObjectIdentifier, self@.len()) + self@)
        }
    }

    fn encoded_len(&self) -> (r: Result<Length>) {
        self.to_any()?.encoded_len()
    }

    fn encode(&self, encoder: &mut Encoder) -> (r: Result<()>) {
        self.to_any()?.encode(encoder)
    }
}

/// Decoding the encoding of an `OBJECT IDENTIFIER` gives it back, having read the whole
/// encoding.
pub proof fn lemma_oid_roundtrip(o: ObjectIdentifier, rest: Seq<u8>)
    requires
        oid_ber_accepted(o@),
        o@.len() <= 0xFFFF,
    ensures
        <ObjectIdentifier as Decodable>::spec_decode(o.spec_encode()->Ok_0 + rest) == (
            Ok::<Seq<u8>, Error>(o@),
            o.spec_encode()->Ok_0.len(),
        ),
{
    lemma_any_roundtrip(Tag::ObjectIdentifier, o@, rest);
}

} // verus!

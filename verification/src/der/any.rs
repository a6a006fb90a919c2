//! ASN.1 `ANY` type: any tag-length-value encoded value.
use crate::der::decoder::Decoder;
use crate::der::encode::header_octets;
use crate::der::encoder::{lemma_encoded_then, Encoder};
use crate::der::error::{Error, Result};
use crate::der::header::{lemma_header_roundtrip, parse_header, Header};
use crate::der::length::{lemma_length_roundtrip, length_octets, Length};
use crate::der::tag::{lemma_tag_byte_roundtrip, tag_byte, tag_known, Tag};
use crate::der::traits::{Decodable, Encodable};
use vstd::prelude::*;

verus! {

/// Reading a tag-length-value triple from the start of `s`: the tag and the value octets or
/// the error, and the number of octets read. A value running past the end of `s` is an
/// [`Error::Length`] of its tag.
pub open spec fn parse_any(s: Seq<u8>) -> (Result<(Tag, Seq<u8>)>, nat) {
    let (h, n) = parse_header(s);
    match h {
        Err(e) => (Err(e), n),
        Ok((t, len)) => if n + len > s.len() {
            (Err(Error::Length { tag: t }), n)
        } else {
            (Ok((t, s.subrange(n as int, (n + len) as int))), n + len)
        },
    }
}

/// Reading a value carried in a tag-length-value triple from the start of `s`, where
/// `convert` turns the triple's tag and value into the value or an error: the result, and
/// the number of octets read.
pub open spec fn decode_via_any<V>(s: Seq<u8>, convert: spec_fn(Tag, Seq<u8>) -> Result<V>) -> (
    Result<V>,
    nat,
) {
    let (a, n) = parse_any(s);
    match a {
        Err(e) => (Err(e), n),
        Ok((t, v)) => (convert(t, v), n),
    }
}

/// ASN.1 `ANY` type: represents any ASN.1 value.
#[derive(Copy, Clone, Debug, Eq, PartialEq)]
pub struct Any<'a> {
    /// Tag representing the type of the encoded value
    tag: Tag,
    /// Inner value encoded as bytes
    value: &'a [u8],
}

impl<'a> View for Any<'a> {
    type V = (Tag, Seq<u8>);

    closed spec fn view(&self) -> (Tag, Seq<u8>) {
        (self.tag, self.value@)
    }
}

impl<'a> Any<'a> {
    #[verifier::type_invariant]
    spec fn inv(self) -> bool {
        self.value@.len() <= 0xFFFF
    }

    /// Create a new [`Any`] from the provided tag and slice, failing with an
    /// [`Error::Length`] of the tag when the slice is longer than `0xFFFF` octets.
    pub fn new(tag: Tag, value: &'a [u8]) -> (r: Result<Self>)
        ensures
            match r {
                Ok(a) => value@.len() <= 0xFFFF && a@ == (tag, value@),
                Err(e) => value@.len() > 0xFFFF && e == (Error::Length { tag }),
            },
    {
        if value.len() <= Length::max() {
            Ok(Any { tag, value })
        } else {
            Err(Error::Length { tag })
        }
    }

    /// An [`Any`] from a tag and a value known to fit.
    pub(crate) fn from_parts(tag: Tag, value: &'a [u8]) -> (r: Self)
        requires
            value@.len() <= 0xFFFF,
        ensures
            r@ == (tag, value@),
    {
        Any { tag, value }
    }

    /// Get the tag for this [`Any`] type.
    pub fn tag(self) -> (r: Tag)
        ensures
            r == self@.0,
    {
        self.tag
    }

    /// Get the value for this [`Any`] type as a byte slice.
    pub fn value(self) -> (r: &'a [u8])
        ensures
            r@ == self@.1,
            r@.len() <= 0xFFFF,
    {
        proof {
            use_type_invariant(&self);
        }
        self.value
    }

    /// Get the length of the value.
    pub fn len(self) -> (r: Length)
        ensures
            r@ == self@.1.len(),
    {
        proof {
            use_type_invariant(&self);
        }
        Length::from_u16(self.value.len() as u16)
    }

    /// Is the value empty?
    pub fn is_empty(self) -> (r: bool)
        ensures
            r == (self@.1.len() == 0),
    {
        self.value.len() == 0
    }
}

impl<'a> Decodable<'a> for Any<'a> {
    open spec fn spec_decode(s: Seq<u8>) -> (Result<(Tag, Seq<u8>)>, nat) {
        parse_any(s)
    }

    fn decode(decoder: &mut Decoder<'a>) -> (r: Result<Any<'a>>) {
        let ghost d0 = *decoder;
        let header = Header::decode(decoder)?;
        let ghost d1 = *decoder;
        proof {
            let n = parse_header(d0.rest()).1;
            assert(d1.rest() =~= d0.rest().skip(n as int));
        }
        let tag = header.tag;
        let len = header.length.to_usize();
        let value = match decoder.bytes(len) {
            Ok(v) => v,
            Err(_) => return Err(Error::Length { tag }),
        };
        proof {
            let n = parse_header(d0.rest()).1;
            assert(value@ =~= d0.rest().subrange(n as int, n + len));
        }
        Any::new(tag, value)
    }
}

impl<'a> Encodable for Any<'a> {
    open spec fn spec_encode(&self) -> Result<Seq<u8>> {
        Ok(header_octets(self@.0, self@.1.len()) + self@.1)
    }

    fn encoded_len(&self) -> (r: Result<Length>) {
        let r = self.len().for_tlv();
        proof {
            let b = header_octets(self@.0, self@.1.len()) + self@.1;
            assert(b.len() == 1 + length_octets(self@.1.len()).len() + self@.1.len());
            if let Ok(l) = r {
                l.lemma_bound();
            }
        }
        r
    }

    fn encode(&self, encoder: &mut Encoder) -> (r: Result<()>) {
        proof {
            use_type_invariant(self);
        }
        let ghost e0 = *encoder;
        let header = Header { tag: self.tag, length: self.len() };
        let r1 = header.encode(encoder);
        let ghost e1 = *encoder;
        if r1.is_err() {
            proof {
                lemma_encoded_then(e0, e1, e1, r1, r1, header_octets(self@.0, self@.1.len()), self@.1);
            }
            return r1;
        }
        let r2 = encoder.bytes(self.value);
        proof {
            lemma_encoded_then(e0, e1, *encoder, r1, r2, header_octets(self@.0, self@.1.len()), self@.1);
        }
        r2
    }
}

/// Reading back the encoding of a tag-length-value triple gives its tag and value, having
/// read exactly the encoding.
pub proof fn lemma_any_roundtrip(t: Tag, v: Seq<u8>, rest: Seq<u8>)
    requires
        tag_known(t),
        v.len() <= 0xFFFF,
    ensures
        parse_any(header_octets(t, v.len()) + v + rest) == (
            Ok::<(Tag, Seq<u8>), Error>((t, v)),
            header_octets(t, v.len()).len() + v.len(),
        ),
{
    let h = header_octets(t, v.len());
    let s = h + v + rest;
    assert(s =~= h + (v + rest));
    lemma_header_roundtrip(t, v.len(), v + rest);
    assert(s.subrange(h.len() as int, (h.len() + v.len()) as int) =~= v);
}

/// What is read as a tag-length-value triple is the encoding of what was read: each triple
/// has exactly one encoding that the decoder accepts.
pub proof fn lemma_any_canonical(s: Seq<u8>)
    ensures
        parse_any(s).0 matches Ok((t, v)) ==> {
            &&& tag_known(t)
            &&& v.len() <= 0xFFFF
            &&& s.subrange(0, parse_any(s).1 as int) == header_octets(t, v.len()) + v
        },
{
    if let Ok((t, v)) = parse_any(s).0 {
        lemma_tag_byte_roundtrip(Tag::Boolean, s[0]);
        lemma_length_roundtrip(0, Seq::empty(), s.drop_first());
        let (len, m) = crate::der::length::parse_length(s.drop_first())->Ok_0;
        assert(s.drop_first().subrange(0, m as int) == length_octets(len));
        assert(s.subrange(0, parse_any(s).1 as int) =~= header_octets(t, v.len()) + v);
    }
}

} // verus!

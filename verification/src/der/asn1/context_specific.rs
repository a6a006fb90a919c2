//! Context-specific fields: a value of any type behind a context-specific tag.
use crate::der::any::{lemma_any_roundtrip, parse_any, Any};
use crate::der::decoder::Decoder;
use crate::der::encode::header_octets;
use crate::der::encoder::{lemma_encoded_then, Encoder};
use crate::der::error::{Error, Result};
use crate::der::header::{lemma_header_roundtrip, parse_header, Header};
use crate::der::length::{length_octets, Length};
use crate::der::tag::{tag_known, Tag, TagNumber};
use crate::der::traits::{Decodable, Encodable};
use vstd::prelude::*;

verus! {

/// Reading a context-specific field from the start of `s`: a header whose tag is
/// context-specific, followed by a complete tag-length-value triple, which is the field's
/// value. The result is the tag number and the value, or the error, and the number of octets
/// read.
pub open spec fn parse_context_specific(s: Seq<u8>) -> (Result<(u8, (Tag, Seq<u8>))>, nat) {
    let (h, n) = parse_header(s);
    match h {
        Err(e) => (Err(e), n),
        Ok((t, len)) => match t {
            Tag::ContextSpecific(num) => {
                let (a, m) = parse_any(s.skip(n as int));
                match a {
                    Err(e) => (Err(e), n + m),
                    Ok(v) => (Ok((num.spec_value(), v)), n + m),
                }
            },
            _ => (Err(Error::UnexpectedTag { expected: None, actual: t }), n),
        },
    }
}

/// The DER encoding of an [`Any`] value with tag `t` and value octets `v`.
pub open spec fn any_encoding(t: Tag, v: Seq<u8>) -> Seq<u8> {
    header_octets(t, v.len()) + v
}

/// Context-specific field: a field specific to a particular context, with a special
/// context-specific tag (numbers 0 to 30 can be built, and 0 to 3 are read back), whose
/// value is itself a complete tag-length-value encoding.
#[derive(Copy, Clone, Debug, Eq, PartialEq)]
pub struct ContextSpecific<'a> {
    /// Context-specific tag number, sans the leading class bits and constructed flag.
    tag: u8,
    /// Value of the field.
    value: Any<'a>,
}

impl<'a> View for ContextSpecific<'a> {
    type V = (u8, (Tag, Seq<u8>));

    closed spec fn view(&self) -> (u8, (Tag, Seq<u8>)) {
        (self.tag, self.value@)
    }
}

impl<'a> ContextSpecific<'a> {
    #[verifier::type_invariant]
    spec fn inv(self) -> bool {
        self.tag <= 30
    }

    /// Create a new context-specific field; the tag number must not exceed 30, else
    /// [`Error::UnknownTag`].
    pub fn new(tag: u8, value: Any<'a>) -> (r: Result<Self>)
        ensures
            match r {
                Ok(c) => tag <= 30 && c@ == (tag, value@),
                Err(e) => tag > 30 && e == (Error::UnknownTag { byte: tag }),
            },
    {
        Tag::context_specific(tag)?;
        Ok(ContextSpecific { tag, value })
    }

    /// Get the context-specific tag number of this field.
    pub fn tag(self) -> (r: u8)
        ensures
            r == self@.0,
            r <= 30,
    {
        proof {
            use_type_invariant(&self);
        }
        self.tag
    }

    /// Get the value of this field.
    pub fn value(self) -> (r: Any<'a>)
        ensures
            r@ == self@.1,
    {
        self.value
    }
}

impl<'a> Decodable<'a> for ContextSpecific<'a> {
    open spec fn spec_decode(s: Seq<u8>) -> (Result<(u8, (Tag, Seq<u8>))>, nat) {
        parse_context_specific(s)
    }

    /// A header whose tag is not context-specific fails the decoder with
    /// [`Error::UnexpectedTag`].
    fn decode(decoder: &mut Decoder<'a>) -> (r: Result<ContextSpecific<'a>>)
        ensures
            !old(decoder).failed() && (old(decoder).input().len() <= 0xFFFF || old(decoder).pos()
                + parse_header(old(decoder).rest()).1 <= 0xFFFF) ==> (parse_header(
                old(decoder).rest(),
            ).0 matches Ok((t, _)) ==> (!(t is ContextSpecific) ==> r == Err::<
                ContextSpecific<'a>,
                Error,
            >(Error::UnexpectedTag { expected: None, actual: t }) && final(decoder).failed())),
    {
        let ghost d0 = *decoder;
        let header = Header::decode(decoder)?;
        let ghost d1 = *decoder;
        proof {
            let n = parse_header(d0.rest()).1;
            assert(d1.rest() =~= d0.rest().skip(n as int));
        }
        let tag = match header.tag {
            Tag::ContextSpecific(number) => number.value(),
            _ => {
                return decoder.error(Error::UnexpectedTag { expected: None, actual: header.tag });
            },
        };
        let value = decoder.decode::<Any<'a>>()?;
        proof {
            let n = parse_header(d0.rest()).1;
            let m = parse_any(d1.rest()).1;
            assert(decoder.pos() == d0.pos() + n + m);
        }
        ContextSpecific::new(tag, value)
    }
}

impl<'a> Encodable for ContextSpecific<'a> {
    open spec fn spec_encode(&self) -> Result<Seq<u8>> {
        let inner = any_encoding(self@.1.0, self@.1.1);
        if inner.len() > 0xFFFF {
            Err(Error::Overflow)
        } else {
            Ok(header_octets(Tag::ContextSpecific(TagNumber::spec_new(self@.0)), inner.len()) + inner)
        }
    }

    fn encoded_len(&self) -> (r: Result<Length>) {
        let r = self.value.encoded_len()?.for_tlv();
        proof {
            let inner = any_encoding(self@.1.0, self@.1.1);
            let t = Tag::ContextSpecific(TagNumber::spec_new(self@.0));
            assert((header_octets(t, inner.len()) + inner).len() == 1 + length_octets(
                inner.len(),
            ).len() + inner.len());
            if let Ok(l) = r {
                l.lemma_bound();
            }
        }
        r
    }

    fn encode(&self, encoder: &mut Encoder) -> (r: Result<()>) {
        proof {
            use_type_invariant(self);
            TagNumber::lemma_spec_new(self.tag);
        }
        let tag = Tag::context_specific(self.tag)?;
        let inner_len = self.value.encoded_len()?;
        let header = Header { tag, length: inner_len };
        let ghost inner = any_encoding(self@.1.0, self@.1.1);
        let ghost h = header_octets(tag, inner.len());
        let ghost e0 = *encoder;
        let r1 = header.encode(encoder);
        let ghost e1 = *encoder;
        if r1.is_err() {
            proof {
                lemma_encoded_then(e0, e1, e1, r1, r1, h, inner);
            }
            return r1;
        }
        let r2 = self.value.encode(encoder);
        proof {
            lemma_encoded_then(e0, e1, *encoder, r1, r2, h, inner);
        }
        r2
    }
}

/// Decoding the encoding of a context-specific field gives it back, having read the whole
/// encoding.
pub proof fn lemma_context_specific_roundtrip(c: ContextSpecific, rest: Seq<u8>)
    requires
        c@.0 <= 3,
        tag_known(c@.1.0),
        c@.1.1.len() <= 0xFFFF,
        any_encoding(c@.1.0, c@.1.1).len() <= 0xFFFF,
    ensures
        <ContextSpecific as Decodable>::spec_decode(c.spec_encode()->Ok_0 + rest) == (
            Ok::<(u8, (Tag, Seq<u8>)), Error>(c@),
            c.spec_encode()->Ok_0.len(),
        ),
{
    let inner = any_encoding(c@.1.0, c@.1.1);
    let t = Tag::ContextSpecific(TagNumber::spec_new(c@.0));
    TagNumber::lemma_spec_new(c@.0);
    let h = header_octets(t, inner.len());
    let s = h + inner + rest;
    assert(c.spec_encode()->Ok_0 + rest =~= h + (inner + rest));
    lemma_header_roundtrip(t, inner.len(), inner + rest);
    assert(s.skip(h.len() as int) =~= inner + rest);
    lemma_any_roundtrip(c@.1.0, c@.1.1, rest);
}

} // verus!

//! ASN.1 DER headers: the tag and length of a tag-length-value encoding.
use crate::der::decode::parse_tag;
use crate::der::decoder::Decoder;
use crate::der::encode::header_octets;
use crate::der::encoder::{lemma_encoded_then, Encoder};
use crate::der::error::{Error, Result};
use crate::der::length::{lemma_length_roundtrip, length_octets, length_read, parse_length, Length};
use crate::der::tag::{lemma_tag_byte_roundtrip, tag_byte, tag_known, Tag};
use crate::der::traits::{Decodable, Encodable};
use vstd::prelude::*;

verus! {

/// Reading a header from the start of `s`: the tag and the length or the error, and the
/// number of octets read. A length of more than two octets is reported as an
/// [`Error::Length`] of the tag.
pub open spec fn parse_header(s: Seq<u8>) -> (Result<(Tag, nat)>, nat) {
    match parse_tag(s) {
        Err(e) => (Err(e), if s.len() == 0 { 0 } else { 1 }),
        Ok(t) => match parse_length(s.drop_first()) {
            Err(e) => (
                Err(if e == Error::Overlength { Error::Length { tag: t } } else { e }),
                1 + length_read(s.drop_first()),
            ),
            Ok((len, n)) => (Ok((t, len)), 1 + n),
        },
    }
}

/// ASN.1 DER headers: tag + length component of TLV-encoded values.
#[derive(Copy, Clone, Debug, Eq, PartialEq, Structural)]
pub struct Header {
    /// Tag representing the type of the encoded value
    pub tag: Tag,
    /// Length of the encoded value
    pub length: Length,
}

impl View for Header {
    type V = (Tag, nat);

    open spec fn view(&self) -> (Tag, nat) {
        (self.tag, self.length@)
    }
}

impl Header {
    /// A header with the given tag and length, failing with [`Error::Overflow`] when the
    /// length exceeds `0xFFFF`.
    pub fn new(tag: Tag, length: usize) -> (r: Result<Header>)
        ensures
            match r {
                Ok(h) => length <= 0xFFFF && h@ == (tag, length as nat),
                Err(e) => length > 0xFFFF && e == Error::Overflow,
            },
    {
        let length = Length::try_from_usize(length)?;
        Ok(Header { tag, length })
    }
}

impl<'a> Decodable<'a> for Header {
    open spec fn spec_decode(s: Seq<u8>) -> (Result<(Tag, nat)>, nat) {
        parse_header(s)
    }

    fn decode(decoder: &mut Decoder<'a>) -> (r: Result<Header>) {
        let ghost d0 = *decoder;
        let tag = Tag::decode(decoder)?;
        proof {
            assert(decoder.rest() =~= d0.rest().drop_first());
        }
        let length = match Length::decode(decoder) {
            Ok(l) => l,
            Err(e) => {
                if e == Error::Overlength {
                    return Err(Error::Length { tag });
                }
                return Err(e);
            },
        };
        Ok(Header { tag, length })
    }
}

impl Encodable for Header {
    open spec fn spec_encode(&self) -> Result<Seq<u8>> {
        Ok(header_octets(self.tag, self.length@))
    }

    fn encoded_len(&self) -> (r: Result<Length>) {
        Length::one().checked_add(self.length.encoded_len()?)
    }

    fn encode(&self, encoder: &mut Encoder) -> (r: Result<()>) {
        let ghost e0 = *encoder;
        let r1 = self.tag.encode(encoder);
        let ghost e1 = *encoder;
        if r1.is_err() {
            proof {
                lemma_encoded_then(e0, e1, e1, r1, r1, seq![tag_byte(self.tag)], length_octets(self.length@));
            }
            return r1;
        }
        let r2 = self.length.encode(encoder);
        proof {
            lemma_encoded_then(e0, e1, *encoder, r1, r2, seq![tag_byte(self.tag)], length_octets(self.length@));
        }
        r2
    }
}

/// Reading back the header octets of a tag and a length gives that tag and length, having
/// read exactly those octets.
pub proof fn lemma_header_roundtrip(t: Tag, len: nat, rest: Seq<u8>)
    requires
        tag_known(t),
        len <= 0xFFFF,
    ensures
        parse_header(header_octets(t, len) + rest) == (
            Ok::<(Tag, nat), Error>((t, len)),
            header_octets(t, len).len(),
        ),
{
    let s = header_octets(t, len) + rest;
    lemma_tag_byte_roundtrip(t, tag_byte(t));
    assert(s[0] == tag_byte(t));
    assert(s.drop_first() =~= length_octets(len) + rest);
    lemma_length_roundtrip(len, rest, length_octets(len) + rest);
}

} // verus!

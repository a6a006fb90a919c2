//! Decoding, encoding and tagging traits.
use crate::der::decoder::{decoded, res_view, Decoder};
use crate::der::encode::overwrite;
use crate::der::encoder::{encoded, encoded_len_of, Encoder};
use crate::der::error::{Error, Result};
use crate::der::length::Length;
use crate::der::tag::Tag;
use vstd::prelude::*;

verus! {

/// Decoding trait.
pub trait Decodable<'a>: Sized + View {
    /// Reading a value from the start of `s`: its view or the error, and the number of
    /// octets read.
    spec fn spec_decode(s: Seq<u8>) -> (Result<<Self as View>::V>, nat);

    /// Attempt to decode this value using the provided decoder.
    fn decode(decoder: &mut Decoder<'a>) -> (r: Result<Self>)
        ensures
            decoded(*old(decoder), *final(decoder), res_view(r), Self::spec_decode(old(decoder).rest())),
    ;

}

/// Decoding a value from a byte slice that holds exactly its encoding.
pub trait DecodeBytes<'a>: Decodable<'a> + Tagged {
    /// Decode a value from `bytes`, which must hold nothing else: a value followed by more
    /// octets is an [`Error::Length`] of the type's tag.
    fn from_bytes(bytes: &'a [u8]) -> (r: Result<Self>)
        ensures
            bytes@.len() <= 0xFFFF ==> res_view(r) == from_bytes_result::<Self::V>(
                Self::spec_decode(bytes@),
                bytes@.len(),
                Self::spec_tag(),
            ),
            r is Ok ==> res_view(r) == from_bytes_result::<Self::V>(
                Self::spec_decode(bytes@),
                bytes@.len(),
                Self::spec_tag(),
            ),
    {
        let mut decoder = Decoder::new(bytes);
        proof {
            assert(decoder.rest() =~= bytes@);
        }
        let result = Self::decode(&mut decoder)?;
        proof {
            assert(decoder.rest().len() == bytes@.len() - decoder.pos());
        }
        decoder.finish(result)
    }
}

impl<'a, T: Decodable<'a> + Tagged> DecodeBytes<'a> for T {

}

/// Encoding a value into a byte slice.
pub trait EncodeToSlice: Encodable {
    /// Encode this value as ASN.1 DER at the start of `buffer`, returning the encoding.
    fn encode_to_slice(&self, buffer: &mut [u8]) -> (r: Result<Vec<u8>>)
        ensures
            match self.spec_encode() {
                Err(e) => r == Err::<Vec<u8>, Error>(e),
                Ok(b) => if old(buffer)@.len() > 0xFFFF {
                    r == Err::<Vec<u8>, Error>(Error::Overflow)
                } else if b.len() <= old(buffer)@.len() {
                    &&& r matches Ok(v) && v@ == b
                    &&& final(buffer)@ == overwrite(old(buffer)@, 0, b)
                } else {
                    r == Err::<Vec<u8>, Error>(Error::Overlength)
                },
            },
    {
        let mut copy: Vec<u8> = Vec::new();
        let mut i: usize = 0;
        while i < buffer.len()
            invariant
                i <= buffer@.len(),
                buffer@ == old(buffer)@,
                copy@ == buffer@.take(i as int),
            decreases buffer@.len() - i,
        {
            copy.push(buffer[i]);
            i = i + 1;
            assert(copy@ =~= buffer@.take(i as int));
        }
        assert(copy@ =~= buffer@);
        let mut encoder = Encoder::new(copy);
        self.encode(&mut encoder)?;
        let out = encoder.finish()?;
        let ghost b0 = buffer@;
        let mut j: usize = 0;
        while j < out.len()
            invariant
                j <= out@.len(),
                out@.len() <= buffer@.len(),
                buffer@.len() == b0.len(),
                forall|k: int| 0 <= k < buffer@.len() ==> buffer@[k] == (if k < j {
                    out@[k]
                } else {
                    b0[k]
                }),
            decreases out@.len() - j,
        {
            buffer[j] = out[j];
            j = j + 1;
        }
        assert(buffer@ =~= overwrite(b0, 0, out@));
        Ok(out)
    }
}

impl<T: Encodable> EncodeToSlice for T {

}

/// Decoding a whole input of `len` octets whose reading is `spec`: the value when it takes
/// all the octets, an [`Error::Length`] of `tag` when octets remain, or the error.
pub open spec fn from_bytes_result<V>(spec: (Result<V>, nat), len: nat, tag: Tag) -> Result<V> {
    match spec.0 {
        Ok(v) => if spec.1 == len {
            Ok(v)
        } else {
            Err(Error::Length { tag })
        },
        Err(e) => Err(e),
    }
}

/// Encoding trait.
pub trait Encodable {
    /// The DER encoding of this value, or the error that encoding it gives.
    spec fn spec_encode(&self) -> Result<Seq<u8>>;

    /// Compute the length of this value in bytes when encoded as ASN.1 DER.
    fn encoded_len(&self) -> (r: Result<Length>)
        ensures
            encoded_len_of(r, self.spec_encode()),
    ;

    /// Encode this value as ASN.1 DER using the provided encoder.
    fn encode(&self, encoder: &mut Encoder) -> (r: Result<()>)
        ensures
            encoded(*old(encoder), *final(encoder), r, self.spec_encode()),
    ;

}

/// Messages encoded as an ASN.1 `SEQUENCE`: a pattern for decoders and encoders which map
/// `SEQUENCE` types to structs. An implementation calls `f` with the message's fields.
pub trait Message<'a>: Decodable<'a> {
    /// Call the provided function with the fields of this message.
    fn fields<F, T>(&self, f: F) -> Result<T> where F: FnOnce(&[&dyn Encodable]) -> Result<T>;
}

/// Types with an associated ASN.1 [`Tag`].
pub trait Tagged {
    /// The ASN.1 tag of this type.
    spec fn spec_tag() -> Tag;

    /// The ASN.1 tag of this type.
    fn tag() -> (r: Tag)
        ensures
            r == Self::spec_tag(),
    ;
}

} // verus!

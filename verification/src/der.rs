//! ASN.1 DER (Distinguished Encoding Rules) decoding and encoding, specialized for values
//! shorter than 64 KiB.

pub mod any;
pub mod asn1;
pub mod asn1_type;
pub mod decode;
pub mod decoder;
pub mod encode;
pub mod encoder;
pub mod error;
pub mod header;
pub mod length;
pub mod str_slice;
pub mod tag;
pub mod traits;

pub use any::Any;
pub use asn1::big_uint::BigUInt;
pub use asn1::bit_string::BitString;
pub use asn1::boolean::Boolean;
pub use asn1::context_specific::ContextSpecific;
pub use asn1::integer::Integer;
pub use asn1::null::Null;
pub use asn1::octet_string::OctetString;
pub use asn1::oid::ObjectIdentifier;
pub use asn1::sequence::{Sequence, SequenceIter};
pub use asn1::set_of::{SetOf, SetOfRef, SetOfRefIter};
pub use decoder::Decoder;
pub use encoder::Encoder;
pub use error::{Error, Result};
pub use header::Header;
pub use length::Length;
pub use str_slice::StrSlice;
pub use tag::{Tag, TagNumber};
pub use traits::{DecodeBytes, Decodable, EncodeToSlice, Encodable, Message, Tagged};

//! ASN.1 types, each with its DER decoding and encoding.

pub mod big_uint;
pub mod bit_string;
pub mod boolean;
pub mod context_specific;
pub mod integer;
pub mod null;
pub mod octet_string;
pub mod oid;
pub mod sequence;
pub mod set_of;
pub mod uint;

//! Constant-time utilities, block doubling over binary fields, a block buffer for hash
//! functions, and ASN.1 DER encoding and decoding.

pub mod choice;
pub mod ct_option;
mod cmov_ops;
pub mod ordering;
pub mod traits;
pub mod array;
pub mod slice;
pub mod bytes;

pub use choice::Choice;
pub use ct_option::CtOption;
pub use bytes::{BytesCtAssign, BytesCtEq, BytesCtSelect};
pub use traits::{
    CtAssign, CtAssignSlice, CtEq, CtEqSlice, CtFind, CtGt, CtLookup, CtLt, CtNeg, CtSelect,
    CtSelectArray, CtSelectUsingCtAssign,
};
pub mod dbl;
pub mod digest_buffer;
pub mod der;

//! Constant-time comparison, assignment, selection and search traits.

pub mod ct_assign;
pub mod ct_eq;
pub mod ct_select;

pub use ct_assign::{CtAssign, CtAssignSlice};
pub use ct_eq::{CtEq, CtEqSlice};
pub use ct_select::{CtSelect, CtSelectArray, CtSelectUsingCtAssign};
pub mod ct_gt;
pub mod ct_lt;
pub mod ct_neg;

pub use ct_gt::CtGt;
pub use ct_lt::CtLt;
pub use ct_neg::CtNeg;
pub mod ct_find;

pub use ct_find::CtFind;
pub mod ct_lookup;

pub use ct_lookup::CtLookup;

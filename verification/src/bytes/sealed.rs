//! The sealing trait of the byte helper traits.
use vstd::prelude::*;

verus! {

/// Sealed trait to prevent others from adding impls of the byte helper traits.
pub trait Sealed {
}

impl Sealed for [u8] {
}

impl<const N: usize> Sealed for [u8; N] {
}

} // verus!

//! `Choice`: the constant-time analogue of `bool`.
use crate::cmov_ops::{cmoveq_u8, cmovnz_u8};
use crate::traits::{CtAssign, CtEq, CtSelect};
use vstd::prelude::*;

verus! {

/// Constant-time analogue of `bool` providing a "best effort" optimization barrier.
///
/// The inner byte is always `0` (falsy) or `1` (truthy).
#[derive(Copy, Clone, Debug, PartialEq, Eq)]
pub struct Choice(u8);

/// `x <= y` as a single bit, and `x < y` as a single bit, for `u32`; `d` is `y - x` modulo
/// `2^32`.
proof fn lemma_cmp_u32(x: u32, y: u32, d: u32)
    by (bit_vector)
    requires
        (y >= x && d == y - x) || (y < x && d + x == y + 0x1_0000_0000),
    ensures
        (((!x) | y) & ((x ^ y) | !d)) >> 31u32 == (if x <= y { 1u32 } else { 0u32 }),
        (((!y) & x) | (((!y) | x) & d)) >> 31u32 == (if y < x { 1u32 } else { 0u32 }),
{
}

/// Non-zero test and least significant bit for `u32`; `n` is `-v` modulo `2^32`.
proof fn lemma_nz_lsb_u32(v: u32, n: u32)
    by (bit_vector)
    requires
        (v == 0 && n == 0) || (v != 0 && n + v == 0x1_0000_0000),
    ensures
        (v | n) >> 31u32 == (if v != 0 { 1u32 } else { 0u32 }),
        v & 1u32 <= 1u32,
        (v & 1u32 == 1u32) == (v % 2 == 1),
{
}

/// `u64` version of [`lemma_cmp_u32`].
proof fn lemma_cmp_u64(x: u64, y: u64, d: u64)
    by (bit_vector)
    requires
        (y >= x && d == y - x) || (y < x && d + x == y + 0x1_0000_0000_0000_0000),
    ensures
        (((!x) | y) & ((x ^ y) | !d)) >> 63u32 == (if x <= y { 1u64 } else { 0u64 }),
        (((!y) & x) | (((!y) | x) & d)) >> 63u32 == (if y < x { 1u64 } else { 0u64 }),
{
}

/// `u64` version of [`lemma_nz_lsb_u32`].
proof fn lemma_nz_lsb_u64(v: u64, n: u64)
    by (bit_vector)
    requires
        (v == 0 && n == 0) || (v != 0 && n + v == 0x1_0000_0000_0000_0000),
    ensures
        (v | n) >> 63u32 == (if v != 0 { 1u64 } else { 0u64 }),
        v & 1u64 <= 1u64,
        (v & 1u64 == 1u64) == (v % 2 == 1),
{
}

/// `u128` version of [`lemma_cmp_u32`].
proof fn lemma_cmp_u128(x: u128, y: u128, d: u128)
    by (bit_vector)
    requires
        (y >= x && d == y - x) || (y < x && d + x == y
            + 0x1_0000_0000_0000_0000_0000_0000_0000_0000),
    ensures
        (((!x) | y) & ((x ^ y) | !d)) >> 127u32 == (if x <= y { 1u128 } else { 0u128 }),
        (((!y) & x) | (((!y) | x) & d)) >> 127u32 == (if y < x { 1u128 } else { 0u128 }),
{
}

/// `u128` version of [`lemma_nz_lsb_u32`].
proof fn lemma_nz_lsb_u128(v: u128, n: u128)
    by (bit_vector)
    requires
        (v == 0 && n == 0) || (v != 0 && n + v == 0x1_0000_0000_0000_0000_0000_0000_0000_0000),
    ensures
        (v | n) >> 127u32 == (if v != 0 { 1u128 } else { 0u128 }),
        v & 1u128 <= 1u128,
        (v & 1u128 == 1u128) == (v % 2 == 1),
{
}

/// Masked selection: an all-zero mask keeps `a`, an all-one mask gives `b`.
proof fn lemma_select_masks(a32: u32, b32: u32, a64: u64, b64: u64, a128: u128, b128: u128)
    by (bit_vector)
    ensures
        a32 ^ (0u32 & (a32 ^ b32)) == a32,
        a32 ^ (0xFFFF_FFFFu32 & (a32 ^ b32)) == b32,
        a64 ^ (0u64 & (a64 ^ b64)) == a64,
        a64 ^ (0xFFFF_FFFF_FFFF_FFFFu64 & (a64 ^ b64)) == b64,
        a128 ^ (0u128 & (a128 ^ b128)) == a128,
        a128 ^ (0xFFFF_FFFF_FFFF_FFFF_FFFF_FFFF_FFFF_FFFFu128 & (a128 ^ b128)) == b128,
        (1u8 & 1u8) == 1u8,
        (0u8 & 1u8) == 0u8,
        (1u8 | 0u8) == 1u8,
        (1u8 ^ 1u8) == 0u8,
        (0u8 ^ 1u8) == 1u8,
        (1u8 ^ 0u8) == 1u8,
        (0u8 ^ 0u8) == 0u8,
        (0u8 | 0u8) == 0u8,
        (1u8 | 1u8) == 1u8,
        (0u8 | 1u8) == 1u8,
        (1u8 & 0u8) == 0u8,
        (0u8 & 0u8) == 0u8,
{
}

/// Identity function that the optimizer is asked not to see through.
///
/// Calls `core::hint::black_box`, which std documents as returning its argument unchanged.
#[verifier::external_body]
fn black_box_u8(value: u8) -> (r: u8)
    ensures
        r == value,
{
    core::hint::black_box(value)
}

impl View for Choice {
    type V = bool;

    /// A choice is truthy exactly when its byte is `1`.
    closed spec fn view(&self) -> bool {
        self.0 == 1
    }
}

impl Choice {
    #[verifier::type_invariant]
    spec fn inv(self) -> bool {
        self.0 <= 1
    }

    /// The byte that represents a boolean: `1` for `true`, `0` for `false`.
    pub open spec fn byte_of(b: bool) -> u8 {
        if b {
            1u8
        } else {
            0u8
        }
    }

    /// Create a new [`Choice`] from the given `u8` value, which MUST be either `0` or `1`.
    pub fn new(value: u8) -> (r: Choice)
        requires
            value <= 1,
        ensures
            r@ == (value == 1),
    {
        Choice(value)
    }

    /// Initialize from the least significant bit of a `u8`.
    pub fn from_u8_lsb(value: u8) -> (r: Choice)
        ensures
            r@ == (value % 2 == 1),
    {
        Self::from_u32_lsb(value as u32)
    }

    /// Convert `Choice` into a `bool`.
    pub fn to_bool(self) -> (r: bool)
        ensures
            r == self@,
    {
        self.to_u8() != 0
    }

    /// Convert [`Choice`] to a `u8`, attempting to apply a "best effort" optimization barrier.
    pub fn to_u8(self) -> (r: u8)
        ensures
            r == Self::byte_of(self@),
    {
        proof {
            use_type_invariant(&self);
        }
        black_box_u8(self.0)
    }

    /// Convert `Choice` into a `bool` without the optimization barrier.
    pub fn to_bool_vartime(self) -> (r: bool)
        ensures
            r == self@,
    {
        proof {
            use_type_invariant(&self);
        }
        self.0 != 0
    }

    /// Convert `Choice` into a `u8` without the optimization barrier.
    pub fn to_u8_vartime(self) -> (r: u8)
        ensures
            r == Self::byte_of(self@),
    {
        proof {
            use_type_invariant(&self);
        }
        self.0
    }

    /// Apply an `and` conditional to the given [`Choice`]s.
    pub fn and(self, rhs: Choice) -> (r: Choice)
        ensures
            r@ == (self@ && rhs@),
    {
        proof {
            use_type_invariant(&self);
            use_type_invariant(&rhs);
            lemma_select_masks(0, 0, 0, 0, 0, 0);
        }
        Choice(self.0 & rhs.0)
    }

    /// Apply an `or` conditional to the given [`Choice`]s.
    pub fn or(self, rhs: Choice) -> (r: Choice)
        ensures
            r@ == (self@ || rhs@),
    {
        proof {
            use_type_invariant(&self);
            use_type_invariant(&rhs);
            lemma_select_masks(0, 0, 0, 0, 0, 0);
        }
        Choice(self.0 | rhs.0)
    }

    /// Apply an `xor` conditional to the given [`Choice`]s.
    pub fn xor(self, rhs: Choice) -> (r: Choice)
        ensures
            r@ == (self@ != rhs@),
    {
        proof {
            use_type_invariant(&self);
            use_type_invariant(&rhs);
            lemma_select_masks(0, 0, 0, 0, 0, 0);
        }
        Choice(self.0 ^ rhs.0)
    }

    /// Compute the boolean inverse of `self`.
    pub fn not(self) -> (r: Choice)
        ensures
            r@ == !self@,
    {
        proof {
            use_type_invariant(&self);
            lemma_select_masks(0, 0, 0, 0, 0, 0);
        }
        Choice(self.0 ^ 1)
    }

    /// Equality of two choices, as a choice.
    pub fn eq(self, other: Self) -> (r: Self)
        ensures
            r@ == (self@ == other@),
    {
        Self::ne(self, other).not()
    }

    /// Inequality of two choices, as a choice.
    pub fn ne(self, other: Self) -> (r: Self)
        ensures
            r@ == (self@ != other@),
    {
        Self::xor(self, other)
    }

    /// Returns the truthy value if `x == y`, and the falsy value otherwise.
    pub fn from_i64_eq(x: i64, y: i64) -> (r: Self)
        ensures
            r@ == (x == y),
    {
        proof {
            assert(((x as u64 ^ y as u64) == 0u64) == (x == y)) by (bit_vector);
        }
        Self::from_u64_nz(x as u64 ^ y as u64).not()
    }

    /// Returns the truthy value if `x == y`, and the falsy value otherwise.
    pub fn from_u32_eq(x: u32, y: u32) -> (r: Self)
        ensures
            r@ == (x == y),
    {
        proof {
            assert((x ^ y == 0u32) == (x == y)) by (bit_vector);
        }
        Self::from_u32_nz(x ^ y).not()
    }

    /// Returns the truthy value if `x <= y` and the falsy value otherwise.
    pub fn from_u32_le(x: u32, y: u32) -> (r: Self)
        ensures
            r@ == (x <= y),
    {
        let d = y.wrapping_sub(x);
        proof {
            lemma_cmp_u32(x, y, d);
        }
        Self::from_u32_lsb((((!x) | y) & ((x ^ y) | !d)) >> 31u32)
    }

    /// Initialize from the least significant bit of a `u32`.
    pub fn from_u32_lsb(value: u32) -> (r: Self)
        ensures
            r@ == (value % 2 == 1),
    {
        let n = 0u32.wrapping_sub(value);
        proof {
            lemma_nz_lsb_u32(value, n);
        }
        Self::new((value & 0x1) as u8)
    }

    /// Returns the truthy value if `x < y`, and the falsy value otherwise.
    pub fn from_u32_lt(x: u32, y: u32) -> (r: Self)
        ensures
            r@ == (x < y),
    {
        let d = x.wrapping_sub(y);
        proof {
            lemma_cmp_u32(y, x, d);
        }
        Self::from_u32_lsb((((!x) & y) | (((!x) | y) & d)) >> 31u32)
    }

    /// Returns the truthy value if `value != 0`, and the falsy value otherwise.
    pub fn from_u32_nz(value: u32) -> (r: Self)
        ensures
            r@ == (value != 0),
    {
        let n = 0u32.wrapping_sub(value);
        proof {
            lemma_nz_lsb_u32(value, n);
        }
        Self::from_u32_lsb((value | n) >> 31u32)
    }

    /// Returns the truthy value if `x == y`, and the falsy value otherwise.
    pub fn from_u64_eq(x: u64, y: u64) -> (r: Self)
        ensures
            r@ == (x == y),
    {
        proof {
            assert((x ^ y == 0u64) == (x == y)) by (bit_vector);
        }
        Self::from_u64_nz(x ^ y).not()
    }

    /// Returns the truthy value if `x <= y` and the falsy value otherwise.
    pub fn from_u64_le(x: u64, y: u64) -> (r: Self)
        ensures
            r@ == (x <= y),
    {
        let d = y.wrapping_sub(x);
        proof {
            lemma_cmp_u64(x, y, d);
        }
        Self::from_u64_lsb((((!x) | y) & ((x ^ y) | !d)) >> 63u32)
    }

    /// Initialize from the least significant bit of a `u64`.
    pub fn from_u64_lsb(value: u64) -> (r: Self)
        ensures
            r@ == (value % 2 == 1),
    {
        let n = 0u64.wrapping_sub(value);
        proof {
            lemma_nz_lsb_u64(value, n);
        }
        Self::new((value & 0x1) as u8)
    }

    /// Returns the truthy value if `x < y`, and the falsy value otherwise.
    pub fn from_u64_lt(x: u64, y: u64) -> (r: Self)
        ensures
            r@ == (x < y),
    {
        let d = x.wrapping_sub(y);
        proof {
            lemma_cmp_u64(y, x, d);
        }
        Self::from_u64_lsb((((!x) & y) | (((!x) | y) & d)) >> 63u32)
    }

    /// Returns the truthy value if `value != 0`, and the falsy value otherwise.
    pub fn from_u64_nz(value: u64) -> (r: Self)
        ensures
            r@ == (value != 0),
    {
        let n = 0u64.wrapping_sub(value);
        proof {
            lemma_nz_lsb_u64(value, n);
        }
        Self::from_u64_lsb((value | n) >> 63u32)
    }

    /// Returns the truthy value if `x == y`, and the falsy value otherwise.
    pub fn from_u128_eq(x: u128, y: u128) -> (r: Self)
        ensures
            r@ == (x == y),
    {
        proof {
            assert((x ^ y == 0u128) == (x == y)) by (bit_vector);
        }
        Self::from_u128_nz(x ^ y).not()
    }

    /// Returns the truthy value if `x <= y` and the falsy value otherwise.
    pub fn from_u128_le(x: u128, y: u128) -> (r: Self)
        ensures
            r@ == (x <= y),
    {
        let d = y.wrapping_sub(x);
        proof {
            lemma_cmp_u128(x, y, d);
        }
        Self::from_u128_lsb((((!x) | y) & ((x ^ y) | !d)) >> 127u32)
    }

    /// Initialize from the least significant bit of a `u128`.
    pub fn from_u128_lsb(value: u128) -> (r: Self)
        ensures
            r@ == (value % 2 == 1),
    {
        let n = 0u128.wrapping_sub(value);
        proof {
            lemma_nz_lsb_u128(value, n);
        }
        Self::new((value & 1) as u8)
    }

    /// Returns the truthy value if `x < y`, and the falsy value otherwise.
    pub fn from_u128_lt(x: u128, y: u128) -> (r: Self)
        ensures
            r@ == (x < y),
    {
        let d = x.wrapping_sub(y);
        proof {
            lemma_cmp_u128(y, x, d);
        }
        Self::from_u128_lsb((((!x) & y) | (((!x) | y) & d)) >> 127u32)
    }

    /// Returns the truthy value if `value != 0`, and the falsy value otherwise.
    pub fn from_u128_nz(value: u128) -> (r: Self)
        ensures
            r@ == (value != 0),
    {
        let n = 0u128.wrapping_sub(value);
        proof {
            lemma_nz_lsb_u128(value, n);
        }
        Self::from_u128_lsb((value | n) >> 127u32)
    }

    /// Return `b` if `self` is truthy, otherwise return `a`.
    pub fn select_i64(self, a: i64, b: i64) -> (r: i64)
        ensures
            r == (if self@ { b } else { a }),
    {
        let r = self.select_u64(a as u64, b as u64);
        proof {
            assert((a as u64) as i64 == a) by (bit_vector);
            assert((b as u64) as i64 == b) by (bit_vector);
        }
        r as i64
    }

    /// Return `b` if `self` is truthy, otherwise return `a`.
    pub fn select_u32(self, a: u32, b: u32) -> (r: u32)
        ensures
            r == (if self@ { b } else { a }),
    {
        proof {
            lemma_select_masks(a, b, 0, 0, 0, 0);
        }
        a ^ (self.to_u32_mask() & (a ^ b))
    }

    /// Return `b` if `self` is truthy, otherwise return `a`.
    pub fn select_u64(self, a: u64, b: u64) -> (r: u64)
        ensures
            r == (if self@ { b } else { a }),
    {
        proof {
            lemma_select_masks(0, 0, a, b, 0, 0);
        }
        a ^ (self.to_u64_mask() & (a ^ b))
    }

    /// Return `b` if `self` is truthy, otherwise return `a`.
    pub fn select_u128(self, a: u128, b: u128) -> (r: u128)
        ensures
            r == (if self@ { b } else { a }),
    {
        proof {
            lemma_select_masks(0, 0, 0, 0, a, b);
        }
        a ^ (self.to_u128_mask() & (a ^ b))
    }

    /// Create a `u32` bitmask: `0` for the falsy choice, `u32::MAX` for the truthy one.
    pub fn to_u32_mask(self) -> (r: u32)
        ensures
            r == (if self@ { u32::MAX } else { 0u32 }),
    {
        proof {
            use_type_invariant(&self);
            lemma_select_masks(0, 0, 0, 0, 0, 0);
            lemma_nz_lsb_u32(self.0 as u32, if self.0 == 0 { 0 } else { (0x1_0000_0000 - 1) as u32 });
        }
        0u32.wrapping_sub(self.0 as u32 & 1)
    }

    /// Create a `u64` bitmask: `0` for the falsy choice, `u64::MAX` for the truthy one.
    pub fn to_u64_mask(self) -> (r: u64)
        ensures
            r == (if self@ { u64::MAX } else { 0u64 }),
    {
        proof {
            use_type_invariant(&self);
            lemma_nz_lsb_u64(self.0 as u64, if self.0 == 0 { 0 } else { (0x1_0000_0000_0000_0000 - 1) as u64 });
        }
        0u64.wrapping_sub(self.0 as u64 & 1)
    }

    /// Create a `u128` bitmask: `0` for the falsy choice, `u128::MAX` for the truthy one.
    pub fn to_u128_mask(self) -> (r: u128)
        ensures
            r == (if self@ { u128::MAX } else { 0u128 }),
    {
        proof {
            use_type_invariant(&self);
            lemma_nz_lsb_u128(self.0 as u128, if self.0 == 0 { 0 } else { (0x1_0000_0000_0000_0000_0000_0000_0000_0000 - 1) as u128 });
        }
        0u128.wrapping_sub(self.0 as u128 & 1)
    }
}

impl CtEq for Choice {
    open spec fn ct_eq_spec(&self, other: &Self) -> bool {
        self@ == other@
    }

    fn ct_eq(&self, other: &Self) -> (r: Choice) {
        proof {
            use_type_invariant(self);
            use_type_invariant(other);
        }
        let mut ret = 0u8;
        cmoveq_u8(&self.0, &other.0, 1, &mut ret);
        Choice(ret)
    }
}

impl CtAssign for Choice {
    fn ct_assign(&mut self, src: &Self, choice: Choice) {
        proof {
            use_type_invariant(&*self);
            use_type_invariant(src);
            use_type_invariant(&choice);
        }
        let mut byte = self.0;
        cmovnz_u8(&mut byte, &src.0, choice.0);
        *self = Choice(byte);
    }
}

impl CtSelect for Choice {
    fn ct_select(&self, other: &Self, choice: Choice) -> (r: Self) {
        proof {
            use_type_invariant(self);
            use_type_invariant(other);
            use_type_invariant(&choice);
        }
        let mut byte = self.0;
        cmovnz_u8(&mut byte, &other.0, choice.0);
        Choice(byte)
    }
}

impl Choice {
    /// The choice whose value is `b`.
    pub closed spec fn of_bool(b: bool) -> Choice {
        Choice(Self::byte_of(b))
    }

    /// The choice whose value is `b` has the value `b`.
    pub proof fn lemma_of_bool(b: bool)
        ensures
            Choice::of_bool(b)@ == b,
    {
    }
}

impl core::ops::BitAnd for Choice {
    type Output = Choice;

    fn bitand(self, rhs: Choice) -> (r: Choice) {
        let r = self.and(rhs);
        proof {
            use_type_invariant(&r);
        }
        r
    }
}

impl vstd::std_specs::ops::BitAndSpecImpl for Choice {
    open spec fn obeys_bitand_spec() -> bool {
        true
    }

    open spec fn bitand_req(self, rhs: Choice) -> bool {
        true
    }

    open spec fn bitand_spec(self, rhs: Choice) -> Choice {
        Choice::of_bool(self@ && rhs@)
    }
}

impl core::ops::BitOr for Choice {
    type Output = Choice;

    fn bitor(self, rhs: Choice) -> (r: Choice) {
        let r = self.or(rhs);
        proof {
            use_type_invariant(&r);
        }
        r
    }
}

impl vstd::std_specs::ops::BitOrSpecImpl for Choice {
    open spec fn obeys_bitor_spec() -> bool {
        true
    }

    open spec fn bitor_req(self, rhs: Choice) -> bool {
        true
    }

    open spec fn bitor_spec(self, rhs: Choice) -> Choice {
        Choice::of_bool(self@ || rhs@)
    }
}

impl core::ops::BitXor for Choice {
    type Output = Choice;

    fn bitxor(self, rhs: Choice) -> (r: Choice) {
        let r = self.xor(rhs);
        proof {
            use_type_invariant(&r);
        }
        r
    }
}

impl vstd::std_specs::ops::BitXorSpecImpl for Choice {
    open spec fn obeys_bitxor_spec() -> bool {
        true
    }

    open spec fn bitxor_req(self, rhs: Choice) -> bool {
        true
    }

    open spec fn bitxor_spec(self, rhs: Choice) -> Choice {
        Choice::of_bool(self@ != rhs@)
    }
}

impl From<Choice> for u8 {
    fn from(choice: Choice) -> (r: u8) {
        choice.to_u8()
    }
}

impl vstd::std_specs::convert::FromSpecImpl<Choice> for u8 {
    open spec fn obeys_from_spec() -> bool {
        true
    }

    open spec fn from_spec(v: Choice) -> u8 {
        Choice::byte_of(v@)
    }
}

impl From<Choice> for bool {
    fn from(choice: Choice) -> (r: bool) {
        choice.to_bool()
    }
}

impl vstd::std_specs::convert::FromSpecImpl<Choice> for bool {
    open spec fn obeys_from_spec() -> bool {
        true
    }

    open spec fn from_spec(v: Choice) -> bool {
        v@
    }
}

impl core::ops::BitAndAssign for Choice {
    fn bitand_assign(&mut self, rhs: Choice)
        ensures
            final(self)@ == (old(self)@ && rhs@),
    {
        *self = *self & rhs;
    }
}

impl core::ops::BitOrAssign for Choice {
    fn bitor_assign(&mut self, rhs: Choice)
        ensures
            final(self)@ == (old(self)@ || rhs@),
    {
        *self = *self | rhs;
    }
}

impl core::ops::BitXorAssign for Choice {
    fn bitxor_assign(&mut self, rhs: Choice)
        ensures
            final(self)@ == (old(self)@ != rhs@),
    {
        *self = *self ^ rhs;
    }
}

} // verus!

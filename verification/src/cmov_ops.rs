//! Conditional moves and equality-conditional moves of the `cmov` crate, one wrapper per type.
use cmov::{Cmov, CmovEq};
use vstd::prelude::*;

verus! {

/// Calls `<u8 as cmov::Cmov>::cmovnz`, which moves `value` into `dst` when `condition` is
/// non-zero and leaves `dst` unchanged otherwise.
#[verifier::external_body]
pub(crate) fn cmovnz_u8(dst: &mut u8, value: &u8, condition: u8)
    ensures
        *final(dst) == (if condition != 0 { *value } else { *old(dst) }),
{
    dst.cmovnz(value, condition);
}

/// Calls `<u8 as cmov::CmovEq>::cmoveq`, which moves `input` into `output` when `a` and `b`
/// are equal and leaves `output` unchanged otherwise.
#[verifier::external_body]
pub(crate) fn cmoveq_u8(a: &u8, b: &u8, input: u8, output: &mut u8)
    ensures
        *final(output) == (if *a == *b { input } else { *old(output) }),
{
    a.cmoveq(b, input, output);
}

/// Calls `<u16 as cmov::Cmov>::cmovnz`, which moves `value` into `dst` when `condition` is
/// non-zero and leaves `dst` unchanged otherwise.
#[verifier::external_body]
pub(crate) fn cmovnz_u16(dst: &mut u16, value: &u16, condition: u8)
    ensures
        *final(dst) == (if condition != 0 { *value } else { *old(dst) }),
{
    dst.cmovnz(value, condition);
}

/// Calls `<u16 as cmov::CmovEq>::cmoveq`, which moves `input` into `output` when `a` and `b`
/// are equal and leaves `output` unchanged otherwise.
#[verifier::external_body]
pub(crate) fn cmoveq_u16(a: &u16, b: &u16, input: u8, output: &mut u8)
    ensures
        *final(output) == (if *a == *b { input } else { *old(output) }),
{
    a.cmoveq(b, input, output);
}

/// Calls `<u32 as cmov::Cmov>::cmovnz`, which moves `value` into `dst` when `condition` is
/// non-zero and leaves `dst` unchanged otherwise.
#[verifier::external_body]
pub(crate) fn cmovnz_u32(dst: &mut u32, value: &u32, condition: u8)
    ensures
        *final(dst) == (if condition != 0 { *value } else { *old(dst) }),
{
    dst.cmovnz(value, condition);
}

/// Calls `<u32 as cmov::CmovEq>::cmoveq`, which moves `input` into `output` when `a` and `b`
/// are equal and leaves `output` unchanged otherwise.
#[verifier::external_body]
pub(crate) fn cmoveq_u32(a: &u32, b: &u32, input: u8, output: &mut u8)
    ensures
        *final(output) == (if *a == *b { input } else { *old(output) }),
{
    a.cmoveq(b, input, output);
}

/// Calls `<u64 as cmov::Cmov>::cmovnz`, which moves `value` into `dst` when `condition` is
/// non-zero and leaves `dst` unchanged otherwise.
#[verifier::external_body]
pub(crate) fn cmovnz_u64(dst: &mut u64, value: &u64, condition: u8)
    ensures
        *final(dst) == (if condition != 0 { *value } else { *old(dst) }),
{
    dst.cmovnz(value, condition);
}

/// Calls `<u64 as cmov::CmovEq>::cmoveq`, which moves `input` into `output` when `a` and `b`
/// are equal and leaves `output` unchanged otherwise.
#[verifier::external_body]
pub(crate) fn cmoveq_u64(a: &u64, b: &u64, input: u8, output: &mut u8)
    ensures
        *final(output) == (if *a == *b { input } else { *old(output) }),
{
    a.cmoveq(b, input, output);
}

/// Calls `<u128 as cmov::Cmov>::cmovnz`, which moves `value` into `dst` when `condition` is
/// non-zero and leaves `dst` unchanged otherwise.
#[verifier::external_body]
pub(crate) fn cmovnz_u128(dst: &mut u128, value: &u128, condition: u8)
    ensures
        *final(dst) == (if condition != 0 { *value } else { *old(dst) }),
{
    dst.cmovnz(value, condition);
}

/// Calls `<u128 as cmov::CmovEq>::cmoveq`, which moves `input` into `output` when `a` and `b`
/// are equal and leaves `output` unchanged otherwise.
#[verifier::external_body]
pub(crate) fn cmoveq_u128(a: &u128, b: &u128, input: u8, output: &mut u8)
    ensures
        *final(output) == (if *a == *b { input } else { *old(output) }),
{
    a.cmoveq(b, input, output);
}

/// Calls `<usize as cmov::Cmov>::cmovnz`, which moves `value` into `dst` when `condition` is
/// non-zero and leaves `dst` unchanged otherwise.
#[verifier::external_body]
pub(crate) fn cmovnz_usize(dst: &mut usize, value: &usize, condition: u8)
    ensures
        *final(dst) == (if condition != 0 { *value } else { *old(dst) }),
{
    dst.cmovnz(value, condition);
}

/// Calls `<usize as cmov::CmovEq>::cmoveq`, which moves `input` into `output` when `a` and `b`
/// are equal and leaves `output` unchanged otherwise.
#[verifier::external_body]
pub(crate) fn cmoveq_usize(a: &usize, b: &usize, input: u8, output: &mut u8)
    ensures
        *final(output) == (if *a == *b { input } else { *old(output) }),
{
    a.cmoveq(b, input, output);
}

/// Calls `<i8 as cmov::Cmov>::cmovnz`, which moves `value` into `dst` when `condition` is
/// non-zero and leaves `dst` unchanged otherwise.
#[verifier::external_body]
pub(crate) fn cmovnz_i8(dst: &mut i8, value: &i8, condition: u8)
    ensures
        *final(dst) == (if condition != 0 { *value } else { *old(dst) }),
{
    dst.cmovnz(value, condition);
}

/// Calls `<i8 as cmov::CmovEq>::cmoveq`, which moves `input` into `output` when `a` and `b`
/// are equal and leaves `output` unchanged otherwise.
#[verifier::external_body]
pub(crate) fn cmoveq_i8(a: &i8, b: &i8, input: u8, output: &mut u8)
    ensures
        *final(output) == (if *a == *b { input } else { *old(output) }),
{
    a.cmoveq(b, input, output);
}

/// Calls `<i16 as cmov::Cmov>::cmovnz`, which moves `value` into `dst` when `condition` is
/// non-zero and leaves `dst` unchanged otherwise.
#[verifier::external_body]
pub(crate) fn cmovnz_i16(dst: &mut i16, value: &i16, condition: u8)
    ensures
        *final(dst) == (if condition != 0 { *value } else { *old(dst) }),
{
    dst.cmovnz(value, condition);
}

/// Calls `<i16 as cmov::CmovEq>::cmoveq`, which moves `input` into `output` when `a` and `b`
/// are equal and leaves `output` unchanged otherwise.
#[verifier::external_body]
pub(crate) fn cmoveq_i16(a: &i16, b: &i16, input: u8, output: &mut u8)
    ensures
        *final(output) == (if *a == *b { input } else { *old(output) }),
{
    a.cmoveq(b, input, output);
}

/// Calls `<i32 as cmov::Cmov>::cmovnz`, which moves `value` into `dst` when `condition` is
/// non-zero and leaves `dst` unchanged otherwise.
#[verifier::external_body]
pub(crate) fn cmovnz_i32(dst: &mut i32, value: &i32, condition: u8)
    ensures
        *final(dst) == (if condition != 0 { *value } else { *old(dst) }),
{
    dst.cmovnz(value, condition);
}

/// Calls `<i32 as cmov::CmovEq>::cmoveq`, which moves `input` into `output` when `a` and `b`
/// are equal and leaves `output` unchanged otherwise.
#[verifier::external_body]
pub(crate) fn cmoveq_i32(a: &i32, b: &i32, input: u8, output: &mut u8)
    ensures
        *final(output) == (if *a == *b { input } else { *old(output) }),
{
    a.cmoveq(b, input, output);
}

/// Calls `<i64 as cmov::Cmov>::cmovnz`, which moves `value` into `dst` when `condition` is
/// non-zero and leaves `dst` unchanged otherwise.
#[verifier::external_body]
pub(crate) fn cmovnz_i64(dst: &mut i64, value: &i64, condition: u8)
    ensures
        *final(dst) == (if condition != 0 { *value } else { *old(dst) }),
{
    dst.cmovnz(value, condition);
}

/// Calls `<i64 as cmov::CmovEq>::cmoveq`, which moves `input` into `output` when `a` and `b`
/// are equal and leaves `output` unchanged otherwise.
#[verifier::external_body]
pub(crate) fn cmoveq_i64(a: &i64, b: &i64, input: u8, output: &mut u8)
    ensures
        *final(output) == (if *a == *b { input } else { *old(output) }),
{
    a.cmoveq(b, input, output);
}

/// Calls `<i128 as cmov::Cmov>::cmovnz`, which moves `value` into `dst` when `condition` is
/// non-zero and leaves `dst` unchanged otherwise.
#[verifier::external_body]
pub(crate) fn cmovnz_i128(dst: &mut i128, value: &i128, condition: u8)
    ensures
        *final(dst) == (if condition != 0 { *value } else { *old(dst) }),
{
    dst.cmovnz(value, condition);
}

/// Calls `<i128 as cmov::CmovEq>::cmoveq`, which moves `input` into `output` when `a` and `b`
/// are equal and leaves `output` unchanged otherwise.
#[verifier::external_body]
pub(crate) fn cmoveq_i128(a: &i128, b: &i128, input: u8, output: &mut u8)
    ensures
        *final(output) == (if *a == *b { input } else { *old(output) }),
{
    a.cmoveq(b, input, output);
}

/// Calls `<isize as cmov::Cmov>::cmovnz`, which moves `value` into `dst` when `condition` is
/// non-zero and leaves `dst` unchanged otherwise.
#[verifier::external_body]
pub(crate) fn cmovnz_isize(dst: &mut isize, value: &isize, condition: u8)
    ensures
        *final(dst) == (if condition != 0 { *value } else { *old(dst) }),
{
    dst.cmovnz(value, condition);
}

/// Calls `<isize as cmov::CmovEq>::cmoveq`, which moves `input` into `output` when `a` and `b`
/// are equal and leaves `output` unchanged otherwise.
#[verifier::external_body]
pub(crate) fn cmoveq_isize(a: &isize, b: &isize, input: u8, output: &mut u8)
    ensures
        *final(output) == (if *a == *b { input } else { *old(output) }),
{
    a.cmoveq(b, input, output);
}

/// Calls `<[u8] as cmov::Cmov>::cmovnz`, which copies `value` into `dst` when `condition` is
/// non-zero and leaves `dst` unchanged otherwise. It panics when the lengths differ, which the
/// precondition rules out.
#[verifier::external_body]
pub(crate) fn cmovnz_bytes(dst: &mut [u8], value: &[u8], condition: u8)
    requires
        old(dst)@.len() == value@.len(),
    ensures
        final(dst)@ == (if condition != 0 { value@ } else { old(dst)@ }),
{
    dst.cmovnz(value, condition);
}

/// Calls `<[u8] as cmov::CmovEq>::cmoveq`, which moves `input` into `output` when the two byte
/// slices have the same length and contents, and leaves `output` unchanged otherwise.
#[verifier::external_body]
pub(crate) fn cmoveq_bytes(a: &[u8], b: &[u8], input: u8, output: &mut u8)
    ensures
        *final(output) == (if a@ == b@ { input } else { *old(output) }),
{
    a.cmoveq(b, input, output);
}

} // verus!

//! Double and inverse double over GF(2^n) for 64, 128 and 256 bit blocks, in big-endian order.
use vstd::prelude::*;

verus! {

/// Non-leading coefficients of the reduction polynomial for 64-bit blocks.
pub const C64: u64 = 0b1_1011;

/// Non-leading coefficients of the reduction polynomial for 128-bit blocks.
pub const C128: u64 = 0b1000_0111;

/// Non-leading coefficients of the reduction polynomial for 256-bit blocks.
pub const C256: u64 = 0b100_0010_0101;

/// The top bit of a `u64`.
pub const TOP_BIT: u64 = 0x8000_0000_0000_0000;

/// The big-endian `u64` made of the eight bytes of `b` starting at `off`.
pub open spec fn be_word(b: Seq<u8>, off: int) -> u64 {
    ((b[off] as u64) << 56u64) | ((b[off + 1] as u64) << 48u64) | ((b[off + 2] as u64) << 40u64)
        | ((b[off + 3] as u64) << 32u64) | ((b[off + 4] as u64) << 24u64) | ((b[off + 5] as u64)
        << 16u64) | ((b[off + 6] as u64) << 8u64) | (b[off + 7] as u64)
}

/// The eight big-endian bytes of `w`.
pub open spec fn word_bytes(w: u64) -> Seq<u8> {
    seq![
        (w >> 56u64) as u8,
        (w >> 48u64) as u8,
        (w >> 40u64) as u8,
        (w >> 32u64) as u8,
        (w >> 24u64) as u8,
        (w >> 16u64) as u8,
        (w >> 8u64) as u8,
        w as u8,
    ]
}

/// Doubling of a 64-bit block given as a word.
pub open spec fn dbl64(w: u64) -> u64 {
    (w << 1u64) ^ (((w >> 63u64) * C64) as u64)
}

/// Inverse doubling of a 64-bit block given as a word.
pub open spec fn inv_dbl64(w: u64) -> u64 {
    (w >> 1u64) ^ (((w & 1u64) * (TOP_BIT ^ (C64 >> 1u64))) as u64)
}

/// High word of the doubling of the 128-bit block `(a, b)`.
pub open spec fn dbl128_hi(a: u64, b: u64) -> u64 {
    (a << 1u64) ^ (b >> 63u64)
}

/// Low word of the doubling of the 128-bit block `(a, b)`.
pub open spec fn dbl128_lo(a: u64, b: u64) -> u64 {
    (b << 1u64) ^ (((a >> 63u64) * C128) as u64)
}

/// High word of the inverse doubling of the 128-bit block `(a, b)`.
pub open spec fn inv_dbl128_hi(a: u64, b: u64) -> u64 {
    (a >> 1u64) ^ (((b & 1u64) * TOP_BIT) as u64)
}

/// Low word of the inverse doubling of the 128-bit block `(a, b)`.
pub open spec fn inv_dbl128_lo(a: u64, b: u64) -> u64 {
    (b >> 1u64) ^ ((a & 1u64) << 63u64) ^ (((b & 1u64) * (C128 >> 1u64)) as u64)
}

/// Most significant word of the doubling of the 256-bit block `(a, b, c, d)`.
pub open spec fn dbl256_w0(a: u64, b: u64) -> u64 {
    (a << 1u64) ^ (b >> 63u64)
}

/// Second word of the doubling of the 256-bit block `(a, b, c, d)`.
pub open spec fn dbl256_w1(b: u64, c: u64) -> u64 {
    (b << 1u64) ^ (c >> 63u64)
}

/// Third word of the doubling of the 256-bit block `(a, b, c, d)`.
pub open spec fn dbl256_w2(c: u64, d: u64) -> u64 {
    (c << 1u64) ^ (d >> 63u64)
}

/// Least significant word of the doubling of the 256-bit block `(a, b, c, d)`.
pub open spec fn dbl256_w3(a: u64, d: u64) -> u64 {
    (d << 1u64) ^ (((a >> 63u64) * C256) as u64)
}

/// Most significant word of the inverse doubling of the 256-bit block `(a, b, c, d)`.
pub open spec fn inv_dbl256_w0(a: u64, d: u64) -> u64 {
    (a >> 1u64) ^ (((d & 1u64) * TOP_BIT) as u64)
}

/// Second word of the inverse doubling of the 256-bit block `(a, b, c, d)`.
pub open spec fn inv_dbl256_w1(a: u64, b: u64) -> u64 {
    (b >> 1u64) ^ ((a & 1u64) << 63u64)
}

/// Third word of the inverse doubling of the 256-bit block `(a, b, c, d)`.
pub open spec fn inv_dbl256_w2(b: u64, c: u64) -> u64 {
    (c >> 1u64) ^ ((b & 1u64) << 63u64)
}

/// Least significant word of the inverse doubling of the 256-bit block `(a, b, c, d)`.
pub open spec fn inv_dbl256_w3(c: u64, d: u64) -> u64 {
    (d >> 1u64) ^ ((c & 1u64) << 63u64) ^ (((d & 1u64) * (C256 >> 1u64)) as u64)
}

/// Doubling of a big-endian 8-byte block.
pub open spec fn dbl_block8(b: Seq<u8>) -> Seq<u8> {
    word_bytes(dbl64(be_word(b, 0)))
}

/// Inverse doubling of a big-endian 8-byte block.
pub open spec fn inv_dbl_block8(b: Seq<u8>) -> Seq<u8> {
    word_bytes(inv_dbl64(be_word(b, 0)))
}

/// Doubling of a big-endian 16-byte block.
pub open spec fn dbl_block16(b: Seq<u8>) -> Seq<u8> {
    let (x, y) = (be_word(b, 0), be_word(b, 8));
    word_bytes(dbl128_hi(x, y)) + word_bytes(dbl128_lo(x, y))
}

/// Inverse doubling of a big-endian 16-byte block.
pub open spec fn inv_dbl_block16(b: Seq<u8>) -> Seq<u8> {
    let (x, y) = (be_word(b, 0), be_word(b, 8));
    word_bytes(inv_dbl128_hi(x, y)) + word_bytes(inv_dbl128_lo(x, y))
}

/// Doubling of a big-endian 32-byte block.
pub open spec fn dbl_block32(b: Seq<u8>) -> Seq<u8> {
    let (w0, w1, w2, w3) = (be_word(b, 0), be_word(b, 8), be_word(b, 16), be_word(b, 24));
    word_bytes(dbl256_w0(w0, w1)) + word_bytes(dbl256_w1(w1, w2)) + word_bytes(
        dbl256_w2(w2, w3),
    ) + word_bytes(dbl256_w3(w0, w3))
}

/// Inverse doubling of a big-endian 32-byte block.
pub open spec fn inv_dbl_block32(b: Seq<u8>) -> Seq<u8> {
    let (w0, w1, w2, w3) = (be_word(b, 0), be_word(b, 8), be_word(b, 16), be_word(b, 24));
    word_bytes(inv_dbl256_w0(w0, w3)) + word_bytes(inv_dbl256_w1(w0, w1)) + word_bytes(
        inv_dbl256_w2(w1, w2),
    ) + word_bytes(inv_dbl256_w3(w2, w3))
}

/// Reading back the bytes of a word gives the word.
proof fn lemma_word_bytes_roundtrip(w: u64)
    ensures
        be_word(word_bytes(w), 0) == w,
{
    assert(((((w >> 56u64) as u8) as u64) << 56u64) | ((((w >> 48u64) as u8) as u64) << 48u64)
        | ((((w >> 40u64) as u8) as u64) << 40u64) | ((((w >> 32u64) as u8) as u64) << 32u64)
        | ((((w >> 24u64) as u8) as u64) << 24u64) | ((((w >> 16u64) as u8) as u64) << 16u64)
        | ((((w >> 8u64) as u8) as u64) << 8u64) | ((w as u8) as u64) == w) by (bit_vector);
}

/// The bytes of the word read from eight bytes are those eight bytes.
proof fn lemma_be_word_bytes(b0: u8, b1: u8, b2: u8, b3: u8, b4: u8, b5: u8, b6: u8, b7: u8)
    by (bit_vector)
    ensures
        ({
            let w = ((b0 as u64) << 56u64) | ((b1 as u64) << 48u64) | ((b2 as u64) << 40u64) | ((
            b3 as u64) << 32u64) | ((b4 as u64) << 24u64) | ((b5 as u64) << 16u64) | ((b6 as u64)
                << 8u64) | (b7 as u64);
            &&& (w >> 56u64) as u8 == b0
            &&& (w >> 48u64) as u8 == b1
            &&& (w >> 40u64) as u8 == b2
            &&& (w >> 32u64) as u8 == b3
            &&& (w >> 24u64) as u8 == b4
            &&& (w >> 16u64) as u8 == b5
            &&& (w >> 8u64) as u8 == b6
            &&& w as u8 == b7
        }),
{
}

/// The bytes of the word read at `off` are the eight bytes of `b` starting at `off`.
proof fn lemma_word_of_bytes(b: Seq<u8>, off: int)
    requires
        0 <= off,
        off + 8 <= b.len(),
    ensures
        word_bytes(be_word(b, off)) == b.subrange(off, off + 8),
{
    lemma_be_word_bytes(b[off], b[off + 1], b[off + 2], b[off + 3], b[off + 4], b[off + 5], b[off + 6], b[off + 7]);
    assert(word_bytes(be_word(b, off)) =~= b.subrange(off, off + 8));
}

/// The word read at `8 * i` from a concatenation of word bytes is the `i`-th word.
proof fn lemma_concat_words(x: Seq<u8>, y: Seq<u8>)
    requires
        x.len() % 8 == 0,
        y.len() == 8,
    ensures
        be_word(x + y, x.len() as int) == be_word(y, 0),
        forall|off: int| 0 <= off && off + 8 <= x.len() ==> be_word(x + y, off) == be_word(x, off),
{
    assert forall|off: int| 0 <= off && off + 8 <= x.len() implies be_word(x + y, off) == be_word(x, off) by {
        assert((x + y)[off] == x[off]);
        assert((x + y)[off + 1] == x[off + 1]);
        assert((x + y)[off + 2] == x[off + 2]);
        assert((x + y)[off + 3] == x[off + 3]);
        assert((x + y)[off + 4] == x[off + 4]);
        assert((x + y)[off + 5] == x[off + 5]);
        assert((x + y)[off + 6] == x[off + 6]);
        assert((x + y)[off + 7] == x[off + 7]);
    }
}

/// Inverse doubling undoes doubling, and doubling undoes inverse doubling, on words.
proof fn lemma_dbl_words_inverse(a: u64, b: u64, c: u64, d: u64)
    by (bit_vector)
    ensures
        inv_dbl64(dbl64(a)) == a,
        dbl64(inv_dbl64(a)) == a,
        inv_dbl128_hi(dbl128_hi(a, b), dbl128_lo(a, b)) == a,
        inv_dbl128_lo(dbl128_hi(a, b), dbl128_lo(a, b)) == b,
        dbl128_hi(inv_dbl128_hi(a, b), inv_dbl128_lo(a, b)) == a,
        dbl128_lo(inv_dbl128_hi(a, b), inv_dbl128_lo(a, b)) == b,
        a >> 63u64 <= 1u64,
        a & 1u64 <= 1u64,
        TOP_BIT ^ (C64 >> 1u64) == 0x8000_0000_0000_000Du64,
        C128 >> 1u64 == 0x43u64,
        C256 >> 1u64 == 0x212u64,
{
}

/// Inverse doubling undoes doubling, and doubling undoes inverse doubling, on 256-bit blocks
/// given as four words.
proof fn lemma_dbl256_words_inverse(a: u64, b: u64, c: u64, d: u64)
    by (bit_vector)
    ensures
        ({
            let (x0, x1, x2, x3) = (dbl256_w0(a, b), dbl256_w1(b, c), dbl256_w2(c, d), dbl256_w3(a, d));
            &&& inv_dbl256_w0(x0, x3) == a
            &&& inv_dbl256_w1(x0, x1) == b
            &&& inv_dbl256_w2(x1, x2) == c
            &&& inv_dbl256_w3(x2, x3) == d
        }),
        ({
            let (y0, y1, y2, y3) = (inv_dbl256_w0(a, d), inv_dbl256_w1(a, b), inv_dbl256_w2(b, c), inv_dbl256_w3(c, d));
            &&& dbl256_w0(y0, y1) == a
            &&& dbl256_w1(y1, y2) == b
            &&& dbl256_w2(y2, y3) == c
            &&& dbl256_w3(y0, y3) == d
        }),
{
}


/// The weight of one word in a big-endian number: 2^64.
pub open spec fn word_base() -> int {
    0x1_0000_0000_0000_0000
}

/// The number whose big-endian octets are `b`.
pub open spec fn be_nat(b: Seq<u8>) -> int
    decreases b.len(),
{
    if b.len() == 0 {
        0
    } else {
        be_nat(b.drop_last()) * 256 + b.last()
    }
}

/// 256 to the power `n`: the weight of the octet `n` places from the end.
pub open spec fn byte_weight(n: nat) -> int
    decreases n,
{
    if n == 0 {
        1
    } else {
        256 * byte_weight((n - 1) as nat)
    }
}

/// Doubling in GF(2^n) of the number `v` below `m` = 2^n (multiplication by x): `v << 1`
/// without the bit shifted out, XORed with the reduction constant `c` when that bit was set.
/// As `c` lies within the lowest word, the XOR changes only that word.
pub open spec fn gf_dbl(v: int, m: int, c: u64) -> int {
    let w = (2 * v) % m;
    let low = w % word_base();
    w - low + ((low as u64) ^ (if v >= m / 2 { c } else { 0u64 })) as int
}

/// A big-endian number read from two parts: the first part's number shifted past the second.
proof fn lemma_be_nat_append(x: Seq<u8>, y: Seq<u8>)
    ensures
        be_nat(x + y) == be_nat(x) * byte_weight(y.len()) + be_nat(y),
    decreases y.len(),
{
    if y.len() == 0 {
        assert(x + y =~= x);
    } else {
        let y1 = y.drop_last();
        lemma_be_nat_append(x, y1);
        assert((x + y).drop_last() =~= x + y1);
        assert((x + y).last() == y.last());
        let (bx, w1) = (be_nat(x), byte_weight(y1.len()));
        assert(bx * w1 * 256 == bx * (256 * w1)) by (nonlinear_arith);
    }
}

/// The number of eight big-endian octets is their word.
proof fn lemma_be_nat_word(b: Seq<u8>, off: int)
    requires
        0 <= off,
        off + 8 <= b.len(),
    ensures
        be_nat(b.subrange(off, off + 8)) == be_word(b, off) as int,
{
    let s = b.subrange(off, off + 8);
    reveal_with_fuel(be_nat, 9);
    assert(s.drop_last().drop_last().drop_last().drop_last().drop_last().drop_last().drop_last().drop_last().len() == 0);
    let (b0, b1, b2, b3, b4, b5, b6, b7) = (b[off], b[off + 1], b[off + 2], b[off + 3], b[off + 4], b[off + 5], b[off + 6], b[off + 7]);
    assert(be_nat(s) == ((((((b0 as int * 256 + b1) * 256 + b2) * 256 + b3) * 256 + b4) * 256 + b5) * 256 + b6) * 256 + b7);
    assert((((b0 as u64) << 56u64) | ((b1 as u64) << 48u64) | ((b2 as u64) << 40u64) | ((b3 as u64) << 32u64)
        | ((b4 as u64) << 24u64) | ((b5 as u64) << 16u64) | ((b6 as u64) << 8u64) | (b7 as u64)) as int
        == ((((((b0 as int * 256 + b1) * 256 + b2) * 256 + b3) * 256 + b4) * 256 + b5) * 256 + b6) * 256 + b7)
        by (bit_vector);
}

/// The number of a block of `8 * k` octets, word by word.
proof fn lemma_be_nat_words(b: Seq<u8>)
    requires
        b.len() == 8 || b.len() == 16 || b.len() == 32,
    ensures
        b.len() == 8 ==> be_nat(b) == be_word(b, 0),
        b.len() == 16 ==> be_nat(b) == be_word(b, 0) * word_base() + be_word(b, 8),
        b.len() == 32 ==> be_nat(b) == ((be_word(b, 0) * word_base() + be_word(b, 8)) * word_base()
            + be_word(b, 16)) * word_base() + be_word(b, 24),
{
    assert(byte_weight(8) == word_base()) by {
        reveal_with_fuel(byte_weight, 9);
    }
    lemma_be_nat_word(b, 0);
    if b.len() == 8 {
        assert(b.subrange(0, 8) =~= b);
    } else {
        lemma_be_nat_word(b, 8);
        lemma_be_nat_append(b.subrange(0, 8), b.subrange(8, 16));
        assert(b.subrange(0, 8) + b.subrange(8, 16) =~= b.subrange(0, 16));
        if b.len() == 16 {
            assert(b.subrange(0, 16) =~= b);
        } else {
            lemma_be_nat_word(b, 16);
            lemma_be_nat_word(b, 24);
            lemma_be_nat_append(b.subrange(0, 16), b.subrange(16, 24));
            assert(b.subrange(0, 16) + b.subrange(16, 24) =~= b.subrange(0, 24));
            lemma_be_nat_append(b.subrange(0, 24), b.subrange(24, 32));
            assert(b.subrange(0, 24) + b.subrange(24, 32) =~= b);
        }
    }
}

/// Shifting words left by one: the bit shifted out, the even remainder, and the bit carried in
/// from the next word.
proof fn lemma_shift_word(x: u64, y: u64, c: u64)
    by (bit_vector)
    ensures
        2 * (x as int) == (x >> 63u64) as int * 0x1_0000_0000_0000_0000int + (x << 1u64) as int,
        ((x << 1u64) ^ (y >> 63u64)) as int == (x << 1u64) as int + (y >> 63u64) as int,
        ((x << 1u64) as int + (y >> 63u64) as int) < 0x1_0000_0000_0000_0000int,
        x >= 0x8000_0000_0000_0000u64 <==> (x >> 63u64) == 1u64,
        x >> 63u64 <= 1u64,
        (((x >> 63u64) * c) as u64) == (if x >= 0x8000_0000_0000_0000u64 { c } else { 0u64 }),
{
}

/// Double and inverse double over GF(2^n), for 64, 128 and 256 bit blocks in big-endian order.
pub trait Dbl: Sized + View<V = Seq<u8>> {
    /// Doubling of the block's bytes.
    spec fn dbl_seq(b: Seq<u8>) -> Seq<u8>;

    /// Inverse doubling of the block's bytes.
    spec fn inv_dbl_seq(b: Seq<u8>) -> Seq<u8>;

    /// Double block (multiply it by x): `block << 1`, reduced by the block size's polynomial
    /// when the most significant bit was set.
    fn dbl(self) -> (r: Self)
        ensures
            r@ == Self::dbl_seq(self@),
    ;

    /// Reverse double block (divide it by x): `block >> 1`, with the reduction undone when the
    /// least significant bit was set.
    fn inv_dbl(self) -> (r: Self)
        ensures
            r@ == Self::inv_dbl_seq(self@),
    ;
}

/// The big-endian word made of the eight bytes of `b` starting at `off`.
fn load_be(b: &[u8], off: usize) -> (r: u64)
    requires
        off + 8 <= b@.len(),
    ensures
        r == be_word(b@, off as int),
{
    ((b[off] as u64) << 56u64) | ((b[off + 1] as u64) << 48u64) | ((b[off + 2] as u64) << 40u64)
        | ((b[off + 3] as u64) << 32u64) | ((b[off + 4] as u64) << 24u64) | ((b[off + 5] as u64)
        << 16u64) | ((b[off + 6] as u64) << 8u64) | (b[off + 7] as u64)
}

/// The big-endian bytes of one word.
fn store_be8(w: u64) -> (r: [u8; 8])
    ensures
        r@ == word_bytes(w),
{
    let r = [
        (w >> 56u64) as u8,
        (w >> 48u64) as u8,
        (w >> 40u64) as u8,
        (w >> 32u64) as u8,
        (w >> 24u64) as u8,
        (w >> 16u64) as u8,
        (w >> 8u64) as u8,
        w as u8
    ];
    assert(r@ =~= word_bytes(w));
    r
}

/// The big-endian bytes of two words.
fn store_be16(w0: u64, w1: u64) -> (r: [u8; 16])
    ensures
        r@ == word_bytes(w0) + word_bytes(w1),
{
    let r = [
        (w0 >> 56u64) as u8,
        (w0 >> 48u64) as u8,
        (w0 >> 40u64) as u8,
        (w0 >> 32u64) as u8,
        (w0 >> 24u64) as u8,
        (w0 >> 16u64) as u8,
        (w0 >> 8u64) as u8,
        w0 as u8,
        (w1 >> 56u64) as u8,
        (w1 >> 48u64) as u8,
        (w1 >> 40u64) as u8,
        (w1 >> 32u64) as u8,
        (w1 >> 24u64) as u8,
        (w1 >> 16u64) as u8,
        (w1 >> 8u64) as u8,
        w1 as u8
    ];
    assert(r@ =~= word_bytes(w0) + word_bytes(w1));
    r
}

/// The big-endian bytes of four words.
fn store_be32(w0: u64, w1: u64, w2: u64, w3: u64) -> (r: [u8; 32])
    ensures
        r@ == word_bytes(w0) + word_bytes(w1) + word_bytes(w2) + word_bytes(w3),
{
    let r = [
        (w0 >> 56u64) as u8,
        (w0 >> 48u64) as u8,
        (w0 >> 40u64) as u8,
        (w0 >> 32u64) as u8,
        (w0 >> 24u64) as u8,
        (w0 >> 16u64) as u8,
        (w0 >> 8u64) as u8,
        w0 as u8,
        (w1 >> 56u64) as u8,
        (w1 >> 48u64) as u8,
        (w1 >> 40u64) as u8,
        (w1 >> 32u64) as u8,
        (w1 >> 24u64) as u8,
        (w1 >> 16u64) as u8,
        (w1 >> 8u64) as u8,
        w1 as u8,
        (w2 >> 56u64) as u8,
        (w2 >> 48u64) as u8,
        (w2 >> 40u64) as u8,
        (w2 >> 32u64) as u8,
        (w2 >> 24u64) as u8,
        (w2 >> 16u64) as u8,
        (w2 >> 8u64) as u8,
        w2 as u8,
        (w3 >> 56u64) as u8,
        (w3 >> 48u64) as u8,
        (w3 >> 40u64) as u8,
        (w3 >> 32u64) as u8,
        (w3 >> 24u64) as u8,
        (w3 >> 16u64) as u8,
        (w3 >> 8u64) as u8,
        w3 as u8
    ];
    assert(r@ =~= word_bytes(w0) + word_bytes(w1) + word_bytes(w2) + word_bytes(w3));
    r
}

impl Dbl for [u8; 8] {
    open spec fn dbl_seq(b: Seq<u8>) -> Seq<u8> {
        dbl_block8(b)
    }

    open spec fn inv_dbl_seq(b: Seq<u8>) -> Seq<u8> {
        inv_dbl_block8(b)
    }

    fn dbl(self) -> (r: Self) {
        let mut val = load_be(&self, 0);
        proof {
            lemma_dbl_words_inverse(val, 0, 0, 0);
        }
        let a = val >> 63u64;
        val = val << 1u64;
        val = val ^ (a * C64);
        let r = store_be8(val);
        assert(r@ == Self::dbl_seq(self@));
        r
    }

    fn inv_dbl(self) -> (r: Self) {
        let mut val = load_be(&self, 0);
        proof {
            lemma_dbl_words_inverse(val, 0, 0, 0);
        }
        let a = val & 1u64;
        val = val >> 1u64;
        val = val ^ (a * (TOP_BIT ^ (C64 >> 1u64)));
        let r = store_be8(val);
        assert(r@ == Self::inv_dbl_seq(self@));
        r
    }
}

impl Dbl for [u8; 16] {
    open spec fn dbl_seq(b: Seq<u8>) -> Seq<u8> {
        dbl_block16(b)
    }

    open spec fn inv_dbl_seq(b: Seq<u8>) -> Seq<u8> {
        inv_dbl_block16(b)
    }

    fn dbl(self) -> (r: Self) {
        let mut v0 = load_be(&self, 0);
        let mut v1 = load_be(&self, 8);
        proof {
            lemma_dbl_words_inverse(v0, v1, 0, 0);
            lemma_dbl_words_inverse(v1, v0, 0, 0);
        }
        let b = v1 >> 63u64;
        let a = v0 >> 63u64;
        v0 = v0 << 1u64;
        v0 = v0 ^ b;
        v1 = v1 << 1u64;
        v1 = v1 ^ (a * C128);
        let r = store_be16(v0, v1);
        assert(r@ == Self::dbl_seq(self@));
        r
    }

    fn inv_dbl(self) -> (r: Self) {
        let mut v0 = load_be(&self, 0);
        let mut v1 = load_be(&self, 8);
        proof {
            lemma_dbl_words_inverse(v0, v1, 0, 0);
            lemma_dbl_words_inverse(v1, v0, 0, 0);
        }
        let a = (v0 & 1u64) << 63u64;
        let b = v1 & 1u64;
        v0 = v0 >> 1u64;
        v1 = v1 >> 1u64;
        v1 = v1 ^ a;
        v0 = v0 ^ (b * TOP_BIT);
        v1 = v1 ^ (b * (C128 >> 1u64));
        let r = store_be16(v0, v1);
        assert(r@ == Self::inv_dbl_seq(self@));
        r
    }
}

impl Dbl for [u8; 32] {
    open spec fn dbl_seq(b: Seq<u8>) -> Seq<u8> {
        dbl_block32(b)
    }

    open spec fn inv_dbl_seq(b: Seq<u8>) -> Seq<u8> {
        inv_dbl_block32(b)
    }

    fn dbl(self) -> (r: Self) {
        let mut v0 = load_be(&self, 0);
        let mut v1 = load_be(&self, 8);
        let mut v2 = load_be(&self, 16);
        let mut v3 = load_be(&self, 24);
        proof {
            lemma_dbl_words_inverse(v0, 0, 0, 0);
            lemma_dbl_words_inverse(v1, 0, 0, 0);
            lemma_dbl_words_inverse(v2, 0, 0, 0);
            lemma_dbl_words_inverse(v3, 0, 0, 0);
        }
        let a = v0 >> 63u64;
        let b = v1 >> 63u64;
        let c = v2 >> 63u64;
        let d = v3 >> 63u64;
        v0 = v0 << 1u64;
        v0 = v0 ^ b;
        v1 = v1 << 1u64;
        v1 = v1 ^ c;
        v2 = v2 << 1u64;
        v2 = v2 ^ d;
        v3 = v3 << 1u64;
        v3 = v3 ^ (a * C256);
        let r = store_be32(v0, v1, v2, v3);
        assert(r@ == Self::dbl_seq(self@));
        r
    }

    fn inv_dbl(self) -> (r: Self) {
        let mut v0 = load_be(&self, 0);
        let mut v1 = load_be(&self, 8);
        let mut v2 = load_be(&self, 16);
        let mut v3 = load_be(&self, 24);
        proof {
            lemma_dbl_words_inverse(v3, 0, 0, 0);
        }
        let a = (v0 & 1u64) << 63u64;
        let b = (v1 & 1u64) << 63u64;
        let c = (v2 & 1u64) << 63u64;
        let d = v3 & 1u64;
        v0 = v0 >> 1u64;
        v1 = v1 >> 1u64;
        v2 = v2 >> 1u64;
        v3 = v3 >> 1u64;
        v1 = v1 ^ a;
        v2 = v2 ^ b;
        v3 = v3 ^ c;
        v0 = v0 ^ (d * TOP_BIT);
        v3 = v3 ^ (d * (C256 >> 1u64));
        let r = store_be32(v0, v1, v2, v3);
        assert(r@ == Self::inv_dbl_seq(self@));
        r
    }
}

/// Doubling and inverse doubling of 64-bit blocks undo each other.
pub proof fn lemma_dbl_inverse_8(b: Seq<u8>)
    requires
        b.len() == 8,
    ensures
        inv_dbl_block8(dbl_block8(b)) == b,
        dbl_block8(inv_dbl_block8(b)) == b,
{
    let w = be_word(b, 0);
    lemma_dbl_words_inverse(w, 0, 0, 0);
    lemma_word_bytes_roundtrip(dbl64(w));
    lemma_word_bytes_roundtrip(inv_dbl64(w));
    lemma_word_of_bytes(b, 0);
    assert(b.subrange(0, 8) =~= b);
}

/// Doubling and inverse doubling of 128-bit blocks undo each other.
pub proof fn lemma_dbl_inverse_16(b: Seq<u8>)
    requires
        b.len() == 16,
    ensures
        inv_dbl_block16(dbl_block16(b)) == b,
        dbl_block16(inv_dbl_block16(b)) == b,
{
    let x = be_word(b, 0);
    let y = be_word(b, 8);
    lemma_dbl_words_inverse(x, y, 0, 0);
    lemma_word_of_bytes(b, 0);
    lemma_word_of_bytes(b, 8);
    assert(b.subrange(0, 8) + b.subrange(8, 16) =~= b);
    let (h, l) = (dbl128_hi(x, y), dbl128_lo(x, y));
    lemma_word_bytes_roundtrip(h);
    lemma_word_bytes_roundtrip(l);
    lemma_concat_words(word_bytes(h), word_bytes(l));
    let (h2, l2) = (inv_dbl128_hi(x, y), inv_dbl128_lo(x, y));
    lemma_word_bytes_roundtrip(h2);
    lemma_word_bytes_roundtrip(l2);
    lemma_concat_words(word_bytes(h2), word_bytes(l2));
}

/// The four words of a concatenation of four words' bytes.
proof fn lemma_words_of_four(w0: u64, w1: u64, w2: u64, w3: u64)
    ensures
        ({
            let s = word_bytes(w0) + word_bytes(w1) + word_bytes(w2) + word_bytes(w3);
            &&& s.len() == 32
            &&& be_word(s, 0) == w0
            &&& be_word(s, 8) == w1
            &&& be_word(s, 16) == w2
            &&& be_word(s, 24) == w3
        }),
{
    let a = word_bytes(w0);
    let b = word_bytes(w1);
    let c = word_bytes(w2);
    let d = word_bytes(w3);
    lemma_word_bytes_roundtrip(w0);
    lemma_word_bytes_roundtrip(w1);
    lemma_word_bytes_roundtrip(w2);
    lemma_word_bytes_roundtrip(w3);
    lemma_concat_words(a, b);
    lemma_concat_words(a + b, c);
    lemma_concat_words(a + b + c, d);
}

/// Doubling and inverse doubling of 256-bit blocks undo each other.
pub proof fn lemma_dbl_inverse_32(b: Seq<u8>)
    requires
        b.len() == 32,
    ensures
        inv_dbl_block32(dbl_block32(b)) == b,
        dbl_block32(inv_dbl_block32(b)) == b,
{
    let (w0, w1, w2, w3) = (be_word(b, 0), be_word(b, 8), be_word(b, 16), be_word(b, 24));
    lemma_dbl256_words_inverse(w0, w1, w2, w3);
    lemma_word_of_bytes(b, 0);
    lemma_word_of_bytes(b, 8);
    lemma_word_of_bytes(b, 16);
    lemma_word_of_bytes(b, 24);
    assert(b.subrange(0, 8) + b.subrange(8, 16) + b.subrange(16, 24) + b.subrange(24, 32) =~= b);
    lemma_words_of_four(dbl256_w0(w0, w1), dbl256_w1(w1, w2), dbl256_w2(w2, w3), dbl256_w3(w0, w3));
    lemma_words_of_four(
        inv_dbl256_w0(w0, w3),
        inv_dbl256_w1(w0, w1),
        inv_dbl256_w2(w1, w2),
        inv_dbl256_w3(w2, w3),
    );
}

/// Doubling a 64-bit block multiplies it by x in GF(2^64): read as a big-endian number, the
/// result is the number shifted left by one, reduced by `C64` when its top bit was set.
pub proof fn lemma_dbl_value_8(b: Seq<u8>)
    requires
        b.len() == 8,
    ensures
        be_nat(dbl_block8(b)) == gf_dbl(be_nat(b), word_base(), C64),
        be_nat(dbl_block8(b)) == (((be_nat(b) as u64) << 1u64) ^ (if be_nat(b) as u64
            >= 0x8000_0000_0000_0000u64 {
            C64
        } else {
            0u64
        })) as int,
{
    let a = be_word(b, 0);
    lemma_be_nat_words(b);
    lemma_shift_word(a, 0, C64);
    lemma_word_bytes_roundtrip(dbl64(a));
    lemma_be_nat_words(dbl_block8(b));
    let m = word_base();
    vstd::arithmetic::div_mod::lemma_fundamental_div_mod_converse(
        2 * a,
        m,
        (a >> 63u64) as int,
        (a << 1u64) as int,
    );
    vstd::arithmetic::div_mod::lemma_fundamental_div_mod_converse((a << 1u64) as int, m, 0, (a << 1u64) as int);
}

/// Doubling a 128-bit block multiplies it by x in GF(2^128): read as a big-endian number, the
/// result is the number shifted left by one, reduced by `C128` when its top bit was set.
pub proof fn lemma_dbl_value_16(b: Seq<u8>)
    requires
        b.len() == 16,
    ensures
        be_nat(dbl_block16(b)) == gf_dbl(
            be_nat(b),
            word_base() * word_base(),
            C128,
        ),
        be_nat(dbl_block16(b)) == (((be_nat(b) as u128) << 1u128) ^ (if be_nat(b) as u128
            >= 0x8000_0000_0000_0000_0000_0000_0000_0000u128 {
            C128 as u128
        } else {
            0u128
        })) as int,
{
    let (x, y) = (be_word(b, 0), be_word(b, 8));
    let (h, l) = (dbl128_hi(x, y), dbl128_lo(x, y));
    lemma_be_nat_words(b);
    lemma_shift_word(x, y, C128);
    lemma_shift_word(y, 0, C128);
    lemma_word_bytes_roundtrip(h);
    lemma_word_bytes_roundtrip(l);
    lemma_concat_words(word_bytes(h), word_bytes(l));
    lemma_be_nat_words(dbl_block16(b));
    let bb = word_base();
    let m = bb * bb;
    let v = x * bb + y;
    let r = h * bb + (y << 1u64) as int;
    assert(2 * v == (x >> 63u64) as int * m + r);
    vstd::arithmetic::div_mod::lemma_fundamental_div_mod_converse(2 * v, m, (x >> 63u64) as int, r);
    vstd::arithmetic::div_mod::lemma_fundamental_div_mod_converse(r, bb, h as int, (y << 1u64) as int);
    assert(v >= m / 2 <==> x >= 0x8000_0000_0000_0000u64);
    lemma_dbl128_u128(x, y);
}

/// A 128-bit block held as two words, doubled with one 128-bit shift and XOR.
proof fn lemma_dbl128_u128(x: u64, y: u64)
    by (bit_vector)
    ensures
        ({
            let v = ((x as u128) << 64u128) | (y as u128);
            &&& v as int == x as int * 0x1_0000_0000_0000_0000int + y as int
            &&& (((v << 1u128) ^ (if v >= 0x8000_0000_0000_0000_0000_0000_0000_0000u128 {
                C128 as u128
            } else {
                0u128
            })) as int) == dbl128_hi(x, y) as int * 0x1_0000_0000_0000_0000int + dbl128_lo(
                x,
                y,
            ) as int
        }),
{
}

/// Doubling a 256-bit block multiplies it by x in GF(2^256): read as a big-endian number, the
/// result is the number shifted left by one, reduced by `C256` when its top bit was set.
pub proof fn lemma_dbl_value_32(b: Seq<u8>)
    requires
        b.len() == 32,
    ensures
        be_nat(dbl_block32(b)) == gf_dbl(
            be_nat(b),
            word_base() * word_base() * word_base() * word_base(),
            C256,
        ),
{
    let (w0, w1, w2, w3) = (be_word(b, 0), be_word(b, 8), be_word(b, 16), be_word(b, 24));
    let (x0, x1, x2, x3) = (dbl256_w0(w0, w1), dbl256_w1(w1, w2), dbl256_w2(w2, w3), dbl256_w3(w0, w3));
    lemma_be_nat_words(b);
    lemma_shift_word(w0, w1, C256);
    lemma_shift_word(w1, w2, C256);
    lemma_shift_word(w2, w3, C256);
    lemma_shift_word(w3, 0, C256);
    lemma_words_of_four(x0, x1, x2, x3);
    lemma_be_nat_words(dbl_block32(b));
    let bb = word_base();
    let m = bb * bb * bb * bb;
    let v = ((w0 * bb + w1) * bb + w2) * bb + w3;
    let r = ((x0 * bb + x1) * bb + x2) * bb + (w3 << 1u64) as int;
    let (t0, t1, t2, t3) = ((w0 >> 63u64) as int, (w1 >> 63u64) as int, (w2 >> 63u64) as int, (w3 >> 63u64) as int);
    let (s0, s1, s2, s3) = ((w0 << 1u64) as int, (w1 << 1u64) as int, (w2 << 1u64) as int, (w3 << 1u64) as int);
    let p = w0 * bb + w1;
    let q = p * bb + w2;
    assert(2 * p == t0 * (bb * bb) + x0 * bb + s1) by (nonlinear_arith)
        requires
            p == w0 * bb + w1,
            2 * w0 == t0 * bb + s0,
            2 * w1 == t1 * bb + s1,
            x0 == s0 + t1,
    ;
    assert(2 * q == t0 * (bb * bb * bb) + x0 * (bb * bb) + x1 * bb + s2) by (nonlinear_arith)
        requires
            q == p * bb + w2,
            2 * p == t0 * (bb * bb) + x0 * bb + s1,
            2 * w2 == t2 * bb + s2,
            x1 == s1 + t2,
    ;
    assert(2 * v == t0 * m + r) by (nonlinear_arith)
        requires
            v == q * bb + w3,
            2 * q == t0 * (bb * bb * bb) + x0 * (bb * bb) + x1 * bb + s2,
            2 * w3 == t3 * bb + s3,
            x2 == s2 + t3,
            m == bb * bb * bb * bb,
            r == ((x0 * bb + x1) * bb + x2) * bb + s3,
    ;
    assert(0 <= r < m) by (nonlinear_arith)
        requires
            r == ((x0 * bb + x1) * bb + x2) * bb + s3,
            m == bb * bb * bb * bb,
            bb > 0,
            0 <= x0 < bb,
            0 <= x1 < bb,
            0 <= x2 < bb,
            0 <= s3 < bb,
    ;
    vstd::arithmetic::div_mod::lemma_fundamental_div_mod_converse(2 * v, m, t0, r);
    vstd::arithmetic::div_mod::lemma_fundamental_div_mod_converse(
        r,
        bb,
        (x0 * bb + x1) * bb + x2,
        (w3 << 1u64) as int,
    );
    assert(v >= m / 2 <==> w0 >= 0x8000_0000_0000_0000u64);
}

} // verus!

//! A fixed-size block buffer for hash functions which process their input block by block.
use vstd::prelude::*;

verus! {

/// The bytes of `blocks`, one block after the other.
pub open spec fn concat_blocks<const N: usize>(blocks: Seq<[u8; N]>) -> Seq<u8>
    decreases blocks.len(),
{
    if blocks.len() == 0 {
        Seq::empty()
    } else {
        concat_blocks(blocks.drop_last()) + blocks.last()@
    }
}

/// `s` with the positions `from..to` set to zero.
pub open spec fn zeroed(s: Seq<u8>, from: int, to: int) -> Seq<u8> {
    Seq::new(s.len(), |i: int| if from <= i < to { 0u8 } else { s[i] })
}

/// Calls `byte_tools::zero` on `buf[from..to]`, which sets every byte of that range to zero and
/// does not panic on a range within the array.
#[verifier::external_body]
fn zero_range<const N: usize>(buf: &mut [u8; N], from: usize, to: usize)
    requires
        from <= to <= N,
    ensures
        final(buf)@ == zeroed(old(buf)@, from as int, to as int),
    no_unwind
{
    byte_tools::zero(&mut buf[from..to]);
}

/// The bytes of `blocks` are `N` to a block, and the `k`-th block is the `k`-th run of `N`
/// of them.
proof fn lemma_concat_blocks<const N: usize>(bs: Seq<[u8; N]>)
    ensures
        concat_blocks(bs).len() == bs.len() * N,
        forall|k: int|
            0 <= k < bs.len() ==> concat_blocks(bs).subrange(k * N, (k + 1) * N) == (
            #[trigger] bs[k])@,
    decreases bs.len(),
{
    if bs.len() > 0 {
        let p = bs.drop_last();
        lemma_concat_blocks(p);
        let c = concat_blocks(bs);
        let n = N as int;
        let pl = p.len() as int;
        assert((pl + 1) * n == pl * n + n) by (nonlinear_arith);
        assert forall|k: int| 0 <= k < bs.len() implies c.subrange(k * n, (k + 1) * n) == (
        #[trigger] bs[k])@ by {
            if k < pl {
                assert((k + 1) * n <= pl * n) by (nonlinear_arith)
                    requires
                        k + 1 <= pl,
                        n >= 0,
                ;
                assert(0 <= k * n) by (nonlinear_arith)
                    requires
                        k >= 0,
                        n >= 0,
                ;
                assert((k + 1) * n == k * n + n) by (nonlinear_arith);
                assert(c.subrange(k * n, (k + 1) * n) =~= concat_blocks(p).subrange(
                    k * n,
                    (k + 1) * n,
                ));
                assert(p[k] == bs[k]);
            } else {
                assert(k == pl);
                assert(c.subrange(k * n, (k + 1) * n) =~= bs.last()@);
            }
        }
    }
}

/// Data cut into blocks of `N` followed by fewer than `N` leftover bytes: there are
/// `len / N` blocks, the `k`-th holding bytes `k * N .. (k + 1) * N`, and the leftover bytes
/// are the last `len % N`.
proof fn lemma_cut_blocks<const N: usize>(d: Seq<u8>, bs: Seq<[u8; N]>, rest: Seq<u8>)
    requires
        N > 0,
        concat_blocks(bs) + rest == d,
        rest.len() < N,
    ensures
        bs.len() == d.len() / (N as nat),
        rest.len() == d.len() % (N as nat),
        forall|k: int|
            0 <= k < bs.len() ==> (#[trigger] bs[k])@ == d.subrange(k * N, (k + 1) * N),
        rest == d.subrange(d.len() - rest.len(), d.len() as int),
{
    lemma_concat_blocks(bs);
    let c = concat_blocks(bs);
    vstd::arithmetic::div_mod::lemma_fundamental_div_mod_converse(
        d.len() as int,
        N as int,
        bs.len() as int,
        rest.len() as int,
    );
    assert forall|k: int| 0 <= k < bs.len() implies (#[trigger] bs[k])@ == d.subrange(
        k * N,
        (k + 1) * N,
    ) by {
        let n = N as int;
        assert((k + 1) * n <= bs.len() * n) by (nonlinear_arith)
            requires
                k + 1 <= bs.len(),
                n >= 0,
        ;
        assert(0 <= k * n) by (nonlinear_arith)
            requires
                k >= 0,
                n >= 0,
        ;
        assert(c.len() == bs.len() * n);
        assert(d == c + rest);
        assert((k + 1) * n == k * n + n) by (nonlinear_arith);
        assert forall|i: int| 0 <= i < n implies #[trigger] d.subrange(k * n, (k + 1) * n)[i]
            == c.subrange(k * n, (k + 1) * n)[i] by {
            assert(d[k * n + i] == c[k * n + i]);
        }
        assert(d.subrange(k * n, (k + 1) * n) =~= c.subrange(k * n, (k + 1) * n));
    }
    assert(rest =~= d.subrange(d.len() - rest.len(), d.len() as int));
}

/// A buffer of `N` bytes which collects input until a full block of `N` bytes is available.
#[derive(Clone, Copy)]
pub struct DigestBuffer<const N: usize> {
    buffer: [u8; N],
    pos: usize,
}

impl<const N: usize> DigestBuffer<N> {
    #[verifier::type_invariant]
    spec fn inv(self) -> bool {
        self.pos <= N
    }

    /// All `N` bytes of the buffer.
    pub closed spec fn spec_buffer(self) -> Seq<u8> {
        self.buffer@
    }

    /// The number of bytes written into the buffer since it was last emptied.
    pub closed spec fn spec_pos(self) -> nat {
        self.pos as nat
    }

    /// The bytes written into the buffer since it was last emptied.
    pub open spec fn pending(self) -> Seq<u8> {
        self.spec_buffer().subrange(0, self.spec_pos() as int)
    }

    /// An empty buffer of zeroes.
    pub fn new() -> (r: Self)
        ensures
            r.spec_pos() == 0,
            r.spec_buffer() == Seq::new(N as nat, |i: int| 0u8),
            r.spec_buffer().len() == N,
    {
        let r = DigestBuffer { buffer: [0u8; N], pos: 0 };
        assert(r.buffer@ =~= Seq::new(N as nat, |i: int| 0u8));
        r
    }

    /// Append `input` to the buffer. Every time `N` bytes are available they form a block;
    /// the blocks are returned in order and the remaining bytes stay in the buffer.
    pub fn input(&mut self, input: &[u8]) -> (blocks: Vec<[u8; N]>)
        requires
            N > 0,
        ensures
            concat_blocks(blocks@) + final(self).pending() == old(self).pending() + input@,
            final(self).spec_pos() < N,
            final(self).spec_buffer().len() == N,
            final(self).pending().len() == final(self).spec_pos(),
            blocks@.len() * N + final(self).spec_pos() == old(self).spec_pos() + input@.len(),
            ({
                let d = old(self).pending() + input@;
                &&& blocks@.len() == d.len() / (N as nat)
                &&& final(self).spec_pos() == d.len() % (N as nat)
                &&& forall|k: int|
                    0 <= k < blocks@.len() ==> (#[trigger] blocks@[k])@ == d.subrange(
                        k * N,
                        (k + 1) * N,
                    )
                &&& final(self).pending() == d.subrange(
                    d.len() - final(self).spec_pos(),
                    d.len() as int,
                )
            }),
    {
        proof {
            use_type_invariant(&*self);
        }
        let ghost data = old(self).pending() + input@;
        let mut blocks: Vec<[u8; N]> = Vec::new();
        let mut start: usize = 0;
        if self.pos != 0 {
            let rem = N - self.pos;
            if input.len() >= rem {
                let mut i: usize = 0;
                while i < rem
                    invariant
                        self.pos + rem == N,
                        i <= rem,
                        rem <= input@.len(),
                        self.buffer@.len() == N,
                        self.pos == old(self).pos,
                        self.buffer@.subrange(0, self.pos as int) == old(self).pending(),
                        forall|j: int| 0 <= j < i ==> self.buffer@[self.pos + j] == input@[j],
                    decreases rem - i,
                {
                    let ghost before = self.buffer@;
                    self.buffer[self.pos + i] = input[i];
                    assert(self.buffer@.subrange(0, self.pos as int) =~= before.subrange(
                        0,
                        self.pos as int,
                    ));
                    i = i + 1;
                }
                proof {
                    assert(self.buffer@ =~= old(self).pending() + input@.subrange(0, rem as int));
                }
                self.pos = 0;
                blocks.push(self.buffer);
                start = rem;
                proof {
                    assert(blocks@.drop_last() =~= Seq::<[u8; N]>::empty());
                    assert(concat_blocks(Seq::<[u8; N]>::empty()) =~= Seq::<u8>::empty());
                    assert(concat_blocks(blocks@) =~= data.subrange(
                        0,
                        old(self).spec_pos() + start,
                    ));
                }
            } else {
                let end = self.pos + input.len();
                let mut i: usize = 0;
                while i < input.len()
                    invariant
                        self.pos + input@.len() == end,
                        end < N,
                        i <= input@.len(),
                        self.buffer@.len() == N,
                        self.pos == old(self).pos,
                        self.buffer@.subrange(0, self.pos as int) == old(self).pending(),
                        forall|j: int| 0 <= j < i ==> self.buffer@[self.pos + j] == input@[j],
                    decreases input@.len() - i,
                {
                    let ghost before = self.buffer@;
                    self.buffer[self.pos + i] = input[i];
                    assert(self.buffer@.subrange(0, self.pos as int) =~= before.subrange(
                        0,
                        self.pos as int,
                    ));
                    i = i + 1;
                }
                self.pos = end;
                proof {
                    assert(self.pending() =~= data);
                    assert(concat_blocks(blocks@) =~= Seq::<u8>::empty());
                    lemma_cut_blocks(data, blocks@, self.pending());
                }
                return blocks;
            }
        }
        proof {
            if old(self).pos == 0 {
                assert(concat_blocks(blocks@) =~= data.subrange(0, old(self).spec_pos() + start));
            }
            assert(data.len() == old(self).spec_pos() + input@.len());
        }
        while input.len() - start >= N
            invariant
                start <= input@.len(),
                self.pos == 0,
                data == old(self).pending() + input@,
                data.len() == old(self).spec_pos() + input@.len(),
                old(self).spec_pos() + start == blocks@.len() * N,
                concat_blocks(blocks@) == data.subrange(0, old(self).spec_pos() + start),
                N > 0,
            decreases input@.len() - start,
        {
            let mut block = [0u8; N];
            let mut i: usize = 0;
            while i < N
                invariant
                    i <= N,
                    start <= input@.len(),
                    start + N <= input@.len(),
                    input@.len() <= usize::MAX,
                    forall|j: int| 0 <= j < i ==> block@[j] == input@[start + j],
                decreases N - i,
            {
                block[i] = input[start + i];
                i = i + 1;
            }
            let ghost old_blocks = blocks@;
            blocks.push(block);
            proof {
                assert(blocks@.drop_last() =~= old_blocks);
                assert(block@ =~= data.subrange(
                    old(self).spec_pos() + start,
                    old(self).spec_pos() + start + N,
                ));
                assert(concat_blocks(blocks@) =~= data.subrange(
                    0,
                    old(self).spec_pos() + start + N,
                ));
                let k = old_blocks.len() as int;
                assert((k + 1) * (N as int) == k * (N as int) + (N as int)) by (nonlinear_arith);
            }
            start = start + N;
        }
        let n = input.len() - start;
        let mut i: usize = 0;
        while i < n
            invariant
                n == input@.len() - start,
                start <= input@.len(),
                input@.len() <= usize::MAX,
                n < N,
                i <= n,
                self.buffer@.len() == N,
                self.pos == 0,
                forall|j: int| 0 <= j < i ==> self.buffer@[j] == input@[start + j],
            decreases n - i,
        {
            self.buffer[i] = input[start + i];
            i = i + 1;
        }
        self.pos = n;
        proof {
            assert(self.pending() =~= input@.subrange(start as int, input@.len() as int));
            assert(data.subrange(0, old(self).spec_pos() + start) + self.pending() =~= data);
            lemma_cut_blocks(data, blocks@, self.pending());
        }
        blocks
    }

    /// Forget the buffered bytes.
    pub fn reset(&mut self)
        ensures
            final(self).spec_pos() == 0,
            final(self).spec_buffer() == old(self).spec_buffer(),
    {
        self.pos = 0;
    }

    /// Fill the buffer with zeroes up to position `idx`, which becomes the position.
    pub fn zero_until(&mut self, idx: usize)
        requires
            old(self).spec_pos() <= idx <= N,
        ensures
            final(self).spec_pos() == idx,
            final(self).spec_buffer() == zeroed(
                old(self).spec_buffer(),
                old(self).spec_pos() as int,
                idx as int,
            ),
    {
        zero_range(&mut self.buffer, self.pos, idx);
        self.pos = idx;
    }

    /// Write `data` at the current position and advance past it.
    pub fn next(&mut self, data: &[u8])
        requires
            old(self).spec_pos() + data@.len() <= N,
        ensures
            final(self).spec_pos() == old(self).spec_pos() + data@.len(),
            final(self).spec_buffer() == old(self).spec_buffer().subrange(
                0,
                old(self).spec_pos() as int,
            ) + data@ + old(self).spec_buffer().subrange(
                (old(self).spec_pos() + data@.len()) as int,
                N as int,
            ),
    {
        proof {
            use_type_invariant(&*self);
        }
        let mut i: usize = 0;
        while i < data.len()
            invariant
                self.pos == old(self).pos,
                self.pos + data@.len() <= N,
                i <= data@.len(),
                self.buffer@.len() == N,
                forall|j: int| 0 <= j < self.pos ==> self.buffer@[j] == old(self).buffer@[j],
                forall|j: int| 0 <= j < i ==> self.buffer@[self.pos + j] == data@[j],
                forall|j: int|
                    self.pos + data@.len() <= j < N ==> self.buffer@[j] == old(self).buffer@[j],
            decreases data@.len() - i,
        {
            self.buffer[self.pos + i] = data[i];
            i = i + 1;
        }
        self.pos = self.pos + data.len();
        proof {
            assert(self.buffer@ =~= old(self).spec_buffer().subrange(0, old(self).spec_pos() as int)
                + data@ + old(self).spec_buffer().subrange(
                (old(self).spec_pos() + data@.len()) as int,
                N as int,
            ));
        }
    }

    /// Take the full buffer as a block; the buffer must be full.
    pub fn full_buffer(&mut self) -> (r: [u8; N])
        requires
            old(self).spec_pos() == N,
        ensures
            r@ == old(self).spec_buffer(),
            final(self).spec_pos() == 0,
            final(self).spec_buffer() == old(self).spec_buffer(),
    {
        self.pos = 0;
        self.buffer
    }

    /// Take the buffered bytes, emptying the buffer.
    pub fn current_buffer(&mut self) -> (r: Vec<u8>)
        ensures
            r@ == old(self).pending(),
            final(self).spec_pos() == 0,
            final(self).spec_buffer() == old(self).spec_buffer(),
    {
        proof {
            use_type_invariant(&*self);
        }
        let tmp = self.pos;
        self.pos = 0;
        let mut r: Vec<u8> = Vec::new();
        let mut i: usize = 0;
        while i < tmp
            invariant
                tmp <= N,
                self.buffer@.len() == N,
                i <= tmp,
                r@ == self.buffer@.subrange(0, i as int),
            decreases tmp - i,
        {
            r.push(self.buffer[i]);
            i = i + 1;
            assert(r@ =~= self.buffer@.subrange(0, i as int));
        }
        r
    }

    /// The number of buffered bytes; the buffer holds `N` bytes, of which the first
    /// `position()` are pending.
    pub fn position(&self) -> (r: usize)
        ensures
            r == self.spec_pos(),
            r <= N,
            self.spec_buffer().len() == N,
            self.pending().len() == r,
    {
        proof {
            use_type_invariant(self);
        }
        self.pos
    }

    /// The number of bytes that still fit in the buffer.
    pub fn remaining(&self) -> (r: usize)
        ensures
            r == N - self.spec_pos(),
    {
        proof {
            use_type_invariant(self);
        }
        self.size() - self.pos
    }

    /// Append the standard padding: a `0x80` byte, then zeroes up to `N - rem` bytes, with a
    /// full block emitted first when fewer than `rem` bytes are left after the `0x80` byte.
    pub fn standard_padding(&mut self, rem: usize) -> (flushed: Option<[u8; N]>)
        requires
            old(self).spec_pos() < N,
            rem <= N,
        ensures
            ({
                let p = old(self).spec_pos() as int;
                let marked = old(self).spec_buffer().update(p, 0x80u8);
                if N - (p + 1) < rem {
                    &&& flushed matches Some(b) && b@ == zeroed(marked, p + 1, N as int)
                    &&& final(self).spec_buffer() == zeroed(zeroed(marked, p + 1, N as int), 0, N - rem)
                } else {
                    &&& flushed is None
                    &&& final(self).spec_buffer() == zeroed(marked, p + 1, N - rem)
                }
            }),
            final(self).spec_pos() == N - rem,
    {
        let size = self.size();
        self.next(&[128u8]);
        let mut flushed = None;
        if self.remaining() < rem {
            self.zero_until(size);
            flushed = Some(self.full_buffer());
        }
        self.zero_until(size - rem);
        flushed
    }

    /// The block size `N`.
    pub fn size(&self) -> (r: usize)
        ensures
            r == N,
    {
        N
    }
}

impl<const N: usize> Default for DigestBuffer<N> {
    fn default() -> (r: Self)
        ensures
            r.spec_pos() == 0,
            r.spec_buffer() == Seq::new(N as nat, |i: int| 0u8),
            r.spec_buffer().len() == N,
    {
        Self::new()
    }
}

} // verus!

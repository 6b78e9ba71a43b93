//! The 32-element, 8-bit symmetric block format. Each block stores one
//! half-precision scale, one half-precision sum-of-quants value and 32
//! signed byte codes, 36 bytes in all. The scale values are carried as raw
//! half-precision bit patterns; all arithmetic on them is numeric work that
//! lives outside this library, while the byte layout and the integer code
//! algebra are pinned down here.
use vstd::prelude::*;

use crate::error::ErrorKind;

verus! {

/// Elements per block.
pub const Q8_1_BLOCK_ELEMS: usize = 32;

/// Bytes per block: scale (2) + sum value (2) + 32 codes.
pub const Q8_1_BLOCK_BYTES: usize = 36;

/// The `u16` encoded little-endian by the byte pair `(lo, hi)`.
pub open spec fn le16(lo: u8, hi: u8) -> u16 {
    (lo + hi * 256) as u16
}

/// Integer dot product of the first `n` entries of two code sequences.
pub open spec fn dot_codes(a: Seq<i8>, b: Seq<i8>, n: int) -> int
    decreases n,
{
    if n <= 0 {
        0
    } else {
        dot_codes(a, b, n - 1) + a[n - 1] * b[n - 1]
    }
}

/// A product of two signed byte values stays within `[-16384, 16384]`.
pub proof fn lemma_code_mul_bound(x: int, y: int)
    by (nonlinear_arith)
    requires
        -128 <= x <= 127,
        -128 <= y <= 127,
    ensures
        -16384 <= x * y <= 16384,
{
}

/// Splitting a `u16` into its little-endian byte pair and reassembling it
/// with `le16` gives the value back.
pub proof fn lemma_le16_split(x: u16)
    ensures
        le16((x % 256) as u8, (x / 256) as u8) == x,
{
    assert(((x % 256) as u8) as int == x % 256);
    assert(((x / 256) as u8) as int == x / 256);
    assert(x == (x / 256) * 256 + x % 256);
}

/// One 32-element block: half-precision scale bits `d`, half-precision
/// `d * sum(qs)` bits `s`, and the signed byte codes `qs`.
#[derive(Clone, Debug)]
pub struct BlockQ8_1 {
    pub d: u16,
    pub s: u16,
    pub qs: Vec<i8>,
}

impl BlockQ8_1 {
    pub open spec fn wf(&self) -> bool {
        self.qs@.len() == Q8_1_BLOCK_ELEMS
    }

    /// Assembles a block from scale bits and codes. Rejected inputs: a code
    /// vector whose length is not the block element count.
    pub fn new(d: u16, s: u16, qs: Vec<i8>) -> (r: Result<BlockQ8_1, ErrorKind>)
        ensures
            r is Ok <==> qs@.len() == Q8_1_BLOCK_ELEMS,
            r is Err ==> r == Result::<BlockQ8_1, ErrorKind>::Err(ErrorKind::InvalidArgument),
            r is Ok ==> {
                &&& r->Ok_0.wf()
                &&& r->Ok_0.d == d
                &&& r->Ok_0.s == s
                &&& r->Ok_0.qs@ == qs@
            },
    {
        if qs.len() != Q8_1_BLOCK_ELEMS {
            return Err(ErrorKind::InvalidArgument);
        }
        Ok(BlockQ8_1 { d, s, qs })
    }
}

/// True when `blk` is laid out at byte offset `base` of `data`: scale bits
/// first, then the sum bits, then the codes, all little-endian.
pub open spec fn q8_1_block_at(blk: BlockQ8_1, data: Seq<u8>, base: int) -> bool {
    &&& blk.d == le16(data[base], data[base + 1])
    &&& blk.s == le16(data[base + 2], data[base + 3])
    &&& blk.qs@.len() == Q8_1_BLOCK_ELEMS
    &&& forall|j: int| 0 <= j < Q8_1_BLOCK_ELEMS ==> blk.qs@[j] == data[base + 4 + j] as i8
}

/// The byte layout determines the block: two blocks laid out over the
/// same bytes hold the same fields, so parsing serialized blocks gives
/// the original blocks back.
pub proof fn lemma_q8_1_block_at_determined(b1: BlockQ8_1, b2: BlockQ8_1, data: Seq<u8>, base: int)
    requires
        q8_1_block_at(b1, data, base),
        q8_1_block_at(b2, data, base),
    ensures
        b1.d == b2.d,
        b1.s == b2.s,
        b1.qs@ == b2.qs@,
{
    assert(b1.qs@ =~= b2.qs@);
}

/// An ordered sequence of `BlockQ8_1` blocks.
#[derive(Clone, Debug)]
pub struct QuantBufQ8_1 {
    pub blocks: Vec<BlockQ8_1>,
}

impl QuantBufQ8_1 {
    pub open spec fn wf(&self) -> bool {
        &&& forall|k: int| 0 <= k < self.blocks@.len() ==> (#[trigger] self.blocks@[k]).wf()
        &&& self.blocks@.len() * Q8_1_BLOCK_ELEMS <= usize::MAX
    }

    /// Element count of the buffer.
    pub open spec fn spec_len(&self) -> int {
        self.blocks@.len() * Q8_1_BLOCK_ELEMS
    }

    /// Assembles a buffer from blocks. Rejected inputs: a malformed block,
    /// or a block count whose element count does not fit in `usize`.
    pub fn from_blocks(blocks: Vec<BlockQ8_1>) -> (r: Result<QuantBufQ8_1, ErrorKind>)
        ensures
            r is Ok <==> (forall|k: int| 0 <= k < blocks@.len() ==> (#[trigger] blocks@[k]).wf())
                && blocks@.len() * Q8_1_BLOCK_ELEMS <= usize::MAX,
            r is Err ==> r == Result::<QuantBufQ8_1, ErrorKind>::Err(ErrorKind::InvalidArgument),
            r is Ok ==> {
                &&& r->Ok_0.wf()
                &&& r->Ok_0.blocks@ == blocks@
                &&& r->Ok_0.spec_len() == blocks@.len() * Q8_1_BLOCK_ELEMS
            },
    {
        if blocks.len().checked_mul(Q8_1_BLOCK_ELEMS).is_none() {
            return Err(ErrorKind::InvalidArgument);
        }
        let n: usize = blocks.len();
        let mut k: usize = 0;
        while k < n
            invariant
                n == blocks@.len(),
                0 <= k <= n,
                forall|k2: int| 0 <= k2 < k ==> (#[trigger] blocks@[k2]).wf(),
            decreases n - k,
        {
            if blocks[k].qs.len() != Q8_1_BLOCK_ELEMS {
                return Err(ErrorKind::InvalidArgument);
            }
            k += 1;
        }
        Ok(QuantBufQ8_1 { blocks })
    }

    /// Reinterprets raw bytes as a sequence of blocks. Rejected inputs: a
    /// length that is not an exact multiple of the block byte size.
    pub fn from_bytes(data: &[u8]) -> (r: Result<QuantBufQ8_1, ErrorKind>)
        ensures
            r is Ok <==> data@.len() % (Q8_1_BLOCK_BYTES as nat) == 0,
            r is Err ==> r == Result::<QuantBufQ8_1, ErrorKind>::Err(ErrorKind::InvalidArgument),
            r is Ok ==> {
                &&& r->Ok_0.wf()
                &&& r->Ok_0.blocks@.len() == data@.len() / (Q8_1_BLOCK_BYTES as nat)
                &&& forall|k: int|
                    0 <= k < r->Ok_0.blocks@.len() ==> q8_1_block_at(
                        #[trigger] r->Ok_0.blocks@[k],
                        data@,
                        k * Q8_1_BLOCK_BYTES,
                    )
            },
    {
        let total: usize = data.len();
        if total % Q8_1_BLOCK_BYTES != 0 {
            return Err(ErrorKind::InvalidArgument);
        }
        let n: usize = total / Q8_1_BLOCK_BYTES;
        let mut blocks: Vec<BlockQ8_1> = Vec::new();
        let mut k: usize = 0;
        while k < n
            invariant
                n == data@.len() / (Q8_1_BLOCK_BYTES as nat),
                data@.len() % (Q8_1_BLOCK_BYTES as nat) == 0,
                data@.len() == n * Q8_1_BLOCK_BYTES,
                data@.len() <= usize::MAX,
                0 <= k <= n,
                blocks@.len() == k,
                forall|k2: int| 0 <= k2 < k ==> (#[trigger] blocks@[k2]).wf(),
                forall|k2: int|
                    0 <= k2 < k ==> q8_1_block_at(
                        #[trigger] blocks@[k2],
                        data@,
                        k2 * Q8_1_BLOCK_BYTES,
                    ),
            decreases n - k,
        {
            proof {
                lemma_block_offset_in_range(k as int, n as int, Q8_1_BLOCK_BYTES as int);
            }
            let base: usize = k * Q8_1_BLOCK_BYTES;
            let d: u16 = (data[base] as u16) + (data[base + 1] as u16) * 256;
            let s: u16 = (data[base + 2] as u16) + (data[base + 3] as u16) * 256;
            let mut qs: Vec<i8> = Vec::new();
            let mut j: usize = 0;
            while j < Q8_1_BLOCK_ELEMS
                invariant
                    data@.len() == n * Q8_1_BLOCK_BYTES,
                    data@.len() <= usize::MAX,
                    0 <= k < n,
                    base == k * Q8_1_BLOCK_BYTES,
                    0 <= j <= Q8_1_BLOCK_ELEMS,
                    qs@.len() == j,
                    forall|j2: int| 0 <= j2 < j ==> qs@[j2] == data@[base + 4 + j2] as i8,
                decreases Q8_1_BLOCK_ELEMS - j,
            {
                proof {
                    lemma_block_offset_in_range(k as int, n as int, Q8_1_BLOCK_BYTES as int);
                }
                qs.push(data[base + 4 + j] as i8);
                j += 1;
            }
            blocks.push(BlockQ8_1 { d, s, qs });
            proof {
                lemma_block_offset_in_range(k as int, n as int, Q8_1_BLOCK_BYTES as int);
            }
            k += 1;
        }
        proof {
            lemma_count_times_elems_bounded(
                n as int,
                data@.len() as int,
                Q8_1_BLOCK_BYTES as int,
                Q8_1_BLOCK_ELEMS as int,
            );
        }
        Ok(QuantBufQ8_1 { blocks })
    }

    /// Serializes the blocks back to their byte layout; the result's length
    /// is always an exact multiple of the block byte size.
    pub fn to_bytes(&self) -> (r: Vec<u8>)
        requires
            self.wf(),
            self.blocks@.len() * Q8_1_BLOCK_BYTES <= usize::MAX,
        ensures
            r@.len() == self.blocks@.len() * Q8_1_BLOCK_BYTES,
            forall|k: int|
                0 <= k < self.blocks@.len() ==> q8_1_block_at(
                    #[trigger] self.blocks@[k],
                    r@,
                    k * Q8_1_BLOCK_BYTES,
                ),
    {
        let n: usize = self.blocks.len();
        let mut out: Vec<u8> = Vec::new();
        let mut k: usize = 0;
        while k < n
            invariant
                self.wf(),
                n == self.blocks@.len(),
                n * Q8_1_BLOCK_BYTES <= usize::MAX,
                0 <= k <= n,
                out@.len() == k * Q8_1_BLOCK_BYTES,
                forall|k2: int|
                    0 <= k2 < k ==> q8_1_block_at(
                        #[trigger] self.blocks@[k2],
                        out@,
                        k2 * Q8_1_BLOCK_BYTES,
                    ),
            decreases n - k,
        {
            proof {
                lemma_block_offset_in_range(k as int, n as int, Q8_1_BLOCK_BYTES as int);
                assert(self.blocks@[k as int].wf());
            }
            let d: u16 = self.blocks[k].d;
            let s: u16 = self.blocks[k].s;
            out.push((d % 256) as u8);
            out.push((d / 256) as u8);
            out.push((s % 256) as u8);
            out.push((s / 256) as u8);
            let mut j: usize = 0;
            while j < Q8_1_BLOCK_ELEMS
                invariant
                    self.wf(),
                    n == self.blocks@.len(),
                    0 <= k < n,
                    d == self.blocks@[k as int].d,
                    s == self.blocks@[k as int].s,
                    0 <= j <= Q8_1_BLOCK_ELEMS,
                    out@.len() == k * Q8_1_BLOCK_BYTES + 4 + j,
                    out@[k * Q8_1_BLOCK_BYTES] == (d % 256) as u8,
                    out@[k * Q8_1_BLOCK_BYTES + 1] == (d / 256) as u8,
                    out@[k * Q8_1_BLOCK_BYTES + 2] == (s % 256) as u8,
                    out@[k * Q8_1_BLOCK_BYTES + 3] == (s / 256) as u8,
                    forall|j2: int|
                        0 <= j2 < j ==> out@[k * Q8_1_BLOCK_BYTES + 4 + j2] == self.blocks@[
                            k as int
                        ].qs@[j2] as u8,
                    forall|k2: int|
                        0 <= k2 < k ==> q8_1_block_at(
                            #[trigger] self.blocks@[k2],
                            out@,
                            k2 * Q8_1_BLOCK_BYTES,
                        ),
                decreases Q8_1_BLOCK_ELEMS - j,
            {
                proof {
                    assert(self.blocks@[k as int].wf());
                }
                out.push(self.blocks[k].qs[j] as u8);
                j += 1;
            }
            k += 1;
            proof {
                assert forall|k2: int| 0 <= k2 < k implies q8_1_block_at(
                    #[trigger] self.blocks@[k2],
                    out@,
                    k2 * Q8_1_BLOCK_BYTES,
                ) by {
                    if k2 < k - 1 {
                        lemma_block_offset_in_range(k2, k as int - 1, Q8_1_BLOCK_BYTES as int);
                    } else {
                        let blk2 = self.blocks@[k2];
                        let base = k2 * Q8_1_BLOCK_BYTES;
                        lemma_le16_split(blk2.d);
                        lemma_le16_split(blk2.s);
                        assert forall|j2: int| 0 <= j2 < Q8_1_BLOCK_ELEMS implies blk2.qs@[j2]
                            == out@[base + 4 + j2] as i8 by {
                            let c = blk2.qs@[j2];
                            assert(c == (c as u8) as i8) by (bit_vector);
                        }
                    }
                }
            }
        }
        out
    }

    /// Element count of the buffer.
    pub fn len(&self) -> (r: usize)
        requires
            self.wf(),
        ensures
            r == self.spec_len(),
    {
        self.blocks.len() * Q8_1_BLOCK_ELEMS
    }

    pub fn is_empty(&self) -> (r: bool)
        requires
            self.wf(),
        ensures
            r == (self.blocks@.len() == 0),
    {
        self.blocks.is_empty()
    }

    pub fn blocks(&self) -> (r: &Vec<BlockQ8_1>)
        ensures
            r@ == self.blocks@,
    {
        &self.blocks
    }
}

/// Integer core of the block dot product: the exact sum of the pairwise
/// code products of two blocks. The surrounding scale arithmetic is
/// numeric work done by the caller; this sum is exact and overflow-free.
pub fn q8_1_block_dot(a: &BlockQ8_1, b: &BlockQ8_1) -> (r: i32)
    requires
        a.wf(),
        b.wf(),
    ensures
        r == dot_codes(a.qs@, b.qs@, Q8_1_BLOCK_ELEMS as int),
{
    let mut acc: i32 = 0;
    let mut i: usize = 0;
    while i < Q8_1_BLOCK_ELEMS
        invariant
            a.wf(),
            b.wf(),
            0 <= i <= Q8_1_BLOCK_ELEMS,
            acc == dot_codes(a.qs@, b.qs@, i as int),
            -16384 * i <= acc <= 16384 * i,
        decreases Q8_1_BLOCK_ELEMS - i,
    {
        proof {
            lemma_code_mul_bound(a.qs@[i as int] as int, b.qs@[i as int] as int);
        }
        acc = acc + (a.qs[i] as i32) * (b.qs[i] as i32);
        i += 1;
    }
    acc
}

/// For `0 <= k < n`, the block at index `k` ends within `n` blocks' bytes.
pub proof fn lemma_block_offset_in_range(k: int, n: int, bytes: int)
    by (nonlinear_arith)
    requires
        0 <= k < n,
        bytes >= 1,
    ensures
        k * bytes + bytes <= n * bytes,
        0 <= k * bytes,
{
}

/// A nonnegative multiple of `b` is divisible by `b`.
pub proof fn lemma_mul_mod_zero(n: int, b: int)
    by (nonlinear_arith)
    requires
        b > 0,
        n >= 0,
    ensures
        (n * b) % b == 0,
{
}

/// Block size invariant: the element count of a `QuantBufQ8_1` is an
/// exact multiple of the block element count, and its serialized byte
/// length an exact multiple of the block byte size.
pub proof fn lemma_q8_1_block_size_invariant(b: QuantBufQ8_1)
    ensures
        b.spec_len() % (Q8_1_BLOCK_ELEMS as int) == 0,
        (b.blocks@.len() * Q8_1_BLOCK_BYTES) % (Q8_1_BLOCK_BYTES as int) == 0,
{
    lemma_mul_mod_zero(b.blocks@.len() as int, Q8_1_BLOCK_ELEMS as int);
    lemma_mul_mod_zero(b.blocks@.len() as int, Q8_1_BLOCK_BYTES as int);
}

/// With `total == n * bytes` and `elems <= bytes`, the element count
/// `n * elems` is bounded by `total`.
pub proof fn lemma_count_times_elems_bounded(n: int, total: int, bytes: int, elems: int)
    by (nonlinear_arith)
    requires
        n >= 0,
        total == n * bytes,
        0 <= elems <= bytes,
    ensures
        n * elems <= total,
{
}

} // verus!

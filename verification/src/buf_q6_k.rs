//! The hierarchical 6-bit block format. A block covers 256 elements split
//! into sixteen 16-element sub-blocks: 128 bytes of packed low nibbles, 64
//! bytes of packed high bit pairs, 16 signed byte sub-block scale codes and
//! one trailing half-precision super-block scale, 210 bytes in all. The
//! scale is carried as a raw half-precision bit pattern; the numeric
//! scale arithmetic lives outside this library, while the bit packing,
//! the byte layout and the integer code algebra are pinned down here.
use vstd::prelude::*;

use crate::buf_q8_1::le16;
use crate::buf_q8_1::lemma_block_offset_in_range;
use crate::buf_q8_1::lemma_code_mul_bound;
use crate::error::ErrorKind;

verus! {

/// Elements per block.
pub const Q6K_BLOCK_ELEMS: usize = 256;

/// Bytes per block: low nibbles (128) + high pairs (64) + sub-block scale
/// codes (16) + super-block scale (2).
pub const Q6K_BLOCK_BYTES: usize = 210;

/// The raw 6-bit code (in `0..64`) of element `i` of a block, as packed in
/// the low-nibble array `ql` and the high-pair array `qh`. Each 128-element
/// half uses 64 low-nibble bytes and 32 high-pair bytes; within a half, the
/// four 32-element quarters share bytes as the layout prescribes.
pub open spec fn q6k_raw_code(ql: Seq<u8>, qh: Seq<u8>, i: int) -> u8 {
    let h = i / 128;
    let l = i % 32;
    let g = (i % 128) / 32;
    let lo: u8 = if g == 0 {
        ql[64 * h + l] & 0xF
    } else if g == 1 {
        ql[64 * h + l + 32] & 0xF
    } else if g == 2 {
        ql[64 * h + l] >> 4
    } else {
        ql[64 * h + l + 32] >> 4
    };
    let hi: u8 = if g == 0 {
        qh[32 * h + l] & 3
    } else if g == 1 {
        (qh[32 * h + l] >> 2) & 3
    } else if g == 2 {
        (qh[32 * h + l] >> 4) & 3
    } else {
        (qh[32 * h + l] >> 6) & 3
    };
    lo | (hi << 4)
}

/// The centered code of element `i`: the raw 6-bit code shifted to
/// `[-32, 31]`.
pub open spec fn q6k_code(ql: Seq<u8>, qh: Seq<u8>, i: int) -> int {
    q6k_raw_code(ql, qh, i) - 32
}

/// Index of the sub-block scale that applies to element `i`.
pub open spec fn spec_q6k_scale_index(i: int) -> int {
    8 * (i / 128) + 2 * ((i % 128) / 32) + (i % 32) / 16
}

/// Raw codes are always below 64, whatever the packed bytes hold.
pub proof fn lemma_q6k_code_bound(ql: Seq<u8>, qh: Seq<u8>, i: int)
    requires
        ql.len() == 128,
        qh.len() == 64,
        0 <= i < 256,
    ensures
        0 <= q6k_raw_code(ql, qh, i) < 64,
{
    let h = i / 128;
    let l = i % 32;
    let x1 = ql[64 * h + l];
    let x2 = ql[64 * h + l + 32];
    let y = qh[32 * h + l];
    assert(((x1 & 0xF) | ((y & 3) << 4)) < 64 && ((x2 & 0xF) | (((y >> 2) & 3) << 4)) < 64 && ((x1
        >> 4) | (((y >> 4) & 3) << 4)) < 64 && ((x2 >> 4) | (((y >> 6) & 3) << 4)) < 64)
        by (bit_vector);
}

/// One 256-element block: packed low nibbles `ql`, packed high pairs `qh`,
/// sub-block scale codes `scales`, and the half-precision super-block
/// scale bits `d`.
#[derive(Clone, Debug)]
pub struct BlockQ6K {
    pub ql: Vec<u8>,
    pub qh: Vec<u8>,
    pub scales: Vec<i8>,
    pub d: u16,
}

impl BlockQ6K {
    pub open spec fn wf(&self) -> bool {
        &&& self.ql@.len() == 128
        &&& self.qh@.len() == 64
        &&& self.scales@.len() == 16
    }

    /// The raw 6-bit code of element `i`.
    pub fn code(&self, i: usize) -> (r: u8)
        requires
            self.wf(),
            i < Q6K_BLOCK_ELEMS,
        ensures
            r == q6k_raw_code(self.ql@, self.qh@, i as int),
            r < 64,
    {
        proof {
            lemma_q6k_code_bound(self.ql@, self.qh@, i as int);
        }
        let h: usize = i / 128;
        let l: usize = i % 32;
        let g: usize = (i % 128) / 32;
        let lo: u8 = if g == 0 {
            self.ql[64 * h + l] & 0xF
        } else if g == 1 {
            self.ql[64 * h + l + 32] & 0xF
        } else if g == 2 {
            self.ql[64 * h + l] >> 4
        } else {
            self.ql[64 * h + l + 32] >> 4
        };
        let hi: u8 = if g == 0 {
            self.qh[32 * h + l] & 3
        } else if g == 1 {
            (self.qh[32 * h + l] >> 2) & 3
        } else if g == 2 {
            (self.qh[32 * h + l] >> 4) & 3
        } else {
            (self.qh[32 * h + l] >> 6) & 3
        };
        lo | (hi << 4)
    }

    /// All 256 centered codes of the block, in element order.
    pub fn codes(&self) -> (r: Vec<i8>)
        requires
            self.wf(),
        ensures
            r@.len() == Q6K_BLOCK_ELEMS,
            forall|i: int|
                0 <= i < Q6K_BLOCK_ELEMS ==> r@[i] == q6k_code(self.ql@, self.qh@, i),
    {
        let mut r: Vec<i8> = Vec::new();
        let mut i: usize = 0;
        while i < Q6K_BLOCK_ELEMS
            invariant
                self.wf(),
                0 <= i <= Q6K_BLOCK_ELEMS,
                r@.len() == i,
                forall|i2: int| 0 <= i2 < i ==> r@[i2] == q6k_code(self.ql@, self.qh@, i2),
            decreases Q6K_BLOCK_ELEMS - i,
        {
            let c: u8 = self.code(i);
            r.push((c as i16 - 32) as i8);
            i += 1;
        }
        r
    }

    /// Index of the sub-block scale that applies to element `i`.
    pub fn scale_index(i: usize) -> (r: usize)
        requires
            i < Q6K_BLOCK_ELEMS,
        ensures
            r == spec_q6k_scale_index(i as int),
            r < 16,
    {
        8 * (i / 128) + 2 * ((i % 128) / 32) + (i % 32) / 16
    }

    /// Packs 256 raw 6-bit codes, the sub-block scale codes and the
    /// super-block scale bits into a block. Rejected inputs: a code count or
    /// scale count different from the layout's, or a code outside `0..64`.
    /// Unpacking the result gives every code back unchanged.
    pub fn from_codes(codes: &Vec<u8>, scales: Vec<i8>, d: u16) -> (r: Result<BlockQ6K, ErrorKind>)
        ensures
            r is Ok <==> codes@.len() == Q6K_BLOCK_ELEMS && scales@.len() == 16 && (forall|i: int|
                0 <= i < codes@.len() ==> codes@[i] < 64),
            r is Err ==> r == Result::<BlockQ6K, ErrorKind>::Err(ErrorKind::InvalidArgument),
            r is Ok ==> {
                &&& r->Ok_0.wf()
                &&& r->Ok_0.d == d
                &&& r->Ok_0.scales@ == scales@
                &&& forall|i: int|
                    0 <= i < Q6K_BLOCK_ELEMS ==> q6k_raw_code(r->Ok_0.ql@, r->Ok_0.qh@, i)
                        == codes@[i]
            },
    {
        if codes.len() != Q6K_BLOCK_ELEMS || scales.len() != 16 {
            return Err(ErrorKind::InvalidArgument);
        }
        let mut i: usize = 0;
        while i < Q6K_BLOCK_ELEMS
            invariant
                codes@.len() == Q6K_BLOCK_ELEMS,
                0 <= i <= Q6K_BLOCK_ELEMS,
                forall|i2: int| 0 <= i2 < i ==> codes@[i2] < 64,
            decreases Q6K_BLOCK_ELEMS - i,
        {
            if codes[i] >= 64 {
                return Err(ErrorKind::InvalidArgument);
            }
            i += 1;
        }
        let mut ql: Vec<u8> = vec![0u8; 128];
        let mut qh: Vec<u8> = vec![0u8; 64];
        let mut h: usize = 0;
        while h < 2
            invariant
                codes@.len() == Q6K_BLOCK_ELEMS,
                forall|i2: int| 0 <= i2 < Q6K_BLOCK_ELEMS ==> codes@[i2] < 64,
                0 <= h <= 2,
                ql@.len() == 128,
                qh@.len() == 64,
                forall|i2: int|
                    0 <= i2 < 256 && i2 / 128 < h ==> q6k_raw_code(ql@, qh@, i2) == codes@[i2],
            decreases 2 - h,
        {
            let mut l: usize = 0;
            while l < 32
                invariant
                    codes@.len() == Q6K_BLOCK_ELEMS,
                    forall|i2: int| 0 <= i2 < Q6K_BLOCK_ELEMS ==> codes@[i2] < 64,
                    0 <= h < 2,
                    0 <= l <= 32,
                    ql@.len() == 128,
                    qh@.len() == 64,
                    forall|i2: int|
                        0 <= i2 < 256 && i2 / 128 < h ==> q6k_raw_code(ql@, qh@, i2) == codes@[i2],
                    forall|i2: int|
                        0 <= i2 < 256 && i2 / 128 == h && i2 % 32 < l ==> q6k_raw_code(ql@, qh@, i2)
                            == codes@[i2],
                decreases 32 - l,
            {
                let c0: u8 = codes[128 * h + l];
                let c1: u8 = codes[128 * h + l + 32];
                let c2: u8 = codes[128 * h + l + 64];
                let c3: u8 = codes[128 * h + l + 96];
                ql.set(64 * h + l, (c0 & 0xF) | ((c2 & 0xF) << 4));
                ql.set(64 * h + l + 32, (c1 & 0xF) | ((c3 & 0xF) << 4));
                qh.set(
                    32 * h + l,
                    (c0 >> 4) | ((c1 >> 4) << 2) | ((c2 >> 4) << 4) | ((c3 >> 4) << 6),
                );
                proof {
                    let a = ql@[64 * h + l];
                    let b = ql@[64 * h + l + 32];
                    let e = qh@[32 * h + l];
                    assert(((a & 0xF) | ((e & 3) << 4)) == c0 && ((b & 0xF) | (((e >> 2) & 3) << 4))
                        == c1 && ((a >> 4) | (((e >> 4) & 3) << 4)) == c2 && ((b >> 4) | (((e >> 6)
                        & 3) << 4)) == c3) by (bit_vector)
                        requires
                            a == (c0 & 0xF) | ((c2 & 0xF) << 4),
                            b == (c1 & 0xF) | ((c3 & 0xF) << 4),
                            e == (c0 >> 4) | ((c1 >> 4) << 2) | ((c2 >> 4) << 4) | ((c3 >> 4) << 6),
                            c0 < 64,
                            c1 < 64,
                            c2 < 64,
                            c3 < 64,
                    ;
                    assert forall|i2: int|
                        0 <= i2 < 256 && (i2 / 128 < h || (i2 / 128 == h && i2 % 32 < l
                            + 1)) implies q6k_raw_code(ql@, qh@, i2) == codes@[i2] by {
                        let hh = i2 / 128;
                        let ll = i2 % 32;
                        let gg = (i2 % 128) / 32;
                        assert(i2 == 128 * hh + 32 * gg + ll);
                        if hh == h && ll == l {
                            if gg == 0 {
                                assert(q6k_raw_code(ql@, qh@, i2) == (a & 0xF) | ((e & 3) << 4));
                            } else if gg == 1 {
                                assert(q6k_raw_code(ql@, qh@, i2) == (b & 0xF) | (((e >> 2) & 3)
                                    << 4));
                            } else if gg == 2 {
                                assert(q6k_raw_code(ql@, qh@, i2) == (a >> 4) | (((e >> 4) & 3)
                                    << 4));
                            } else {
                                assert(q6k_raw_code(ql@, qh@, i2) == (b >> 4) | (((e >> 6) & 3)
                                    << 4));
                            }
                        } else {
                            assert(64 * hh + ll != 64 * h + l);
                            assert(64 * hh + ll != 64 * h + l + 32);
                            assert(64 * hh + ll + 32 != 64 * h + l);
                            assert(64 * hh + ll + 32 != 64 * h + l + 32);
                            assert(32 * hh + ll != 32 * h + l);
                        }
                    }
                }
                l += 1;
            }
            h += 1;
        }
        Ok(BlockQ6K { ql, qh, scales, d })
    }
}

/// True when `blk` is laid out at byte offset `base` of `data`: low
/// nibbles, high pairs, scale codes, then the super-block scale bits,
/// little-endian.
pub open spec fn q6k_block_at(blk: BlockQ6K, data: Seq<u8>, base: int) -> bool {
    &&& blk.ql@.len() == 128
    &&& blk.qh@.len() == 64
    &&& blk.scales@.len() == 16
    &&& forall|j: int| 0 <= j < 128 ==> blk.ql@[j] == data[base + j]
    &&& forall|j: int| 0 <= j < 64 ==> blk.qh@[j] == data[base + 128 + j]
    &&& forall|j: int| 0 <= j < 16 ==> blk.scales@[j] == data[base + 192 + j] as i8
    &&& blk.d == le16(data[base + 208], data[base + 209])
}

/// The byte layout determines the block: two blocks laid out over the
/// same bytes hold the same fields, so parsing serialized blocks gives
/// the original blocks back.
pub proof fn lemma_q6k_block_at_determined(b1: BlockQ6K, b2: BlockQ6K, data: Seq<u8>, base: int)
    requires
        q6k_block_at(b1, data, base),
        q6k_block_at(b2, data, base),
    ensures
        b1.ql@ == b2.ql@,
        b1.qh@ == b2.qh@,
        b1.scales@ == b2.scales@,
        b1.d == b2.d,
{
    assert(b1.ql@ =~= b2.ql@);
    assert(b1.qh@ =~= b2.qh@);
    assert(b1.scales@ =~= b2.scales@);
}

/// An ordered sequence of `BlockQ6K` blocks.
#[derive(Clone, Debug)]
pub struct QuantBufQ6K {
    pub blocks: Vec<BlockQ6K>,
}

impl QuantBufQ6K {
    pub open spec fn wf(&self) -> bool {
        &&& forall|k: int| 0 <= k < self.blocks@.len() ==> (#[trigger] self.blocks@[k]).wf()
        &&& self.blocks@.len() * Q6K_BLOCK_ELEMS <= usize::MAX
    }

    /// Element count of the buffer.
    pub open spec fn spec_len(&self) -> int {
        self.blocks@.len() * Q6K_BLOCK_ELEMS
    }

    /// Assembles a buffer from blocks. Rejected inputs: a malformed block,
    /// or a block count whose element count does not fit in `usize`.
    pub fn from_blocks(blocks: Vec<BlockQ6K>) -> (r: Result<QuantBufQ6K, ErrorKind>)
        ensures
            r is Ok <==> (forall|k: int| 0 <= k < blocks@.len() ==> (#[trigger] blocks@[k]).wf())
                && blocks@.len() * Q6K_BLOCK_ELEMS <= usize::MAX,
            r is Err ==> r == Result::<QuantBufQ6K, ErrorKind>::Err(ErrorKind::InvalidArgument),
            r is Ok ==> {
                &&& r->Ok_0.wf()
                &&& r->Ok_0.blocks@ == blocks@
                &&& r->Ok_0.spec_len() == blocks@.len() * Q6K_BLOCK_ELEMS
            },
    {
        if blocks.len().checked_mul(Q6K_BLOCK_ELEMS).is_none() {
            return Err(ErrorKind::InvalidArgument);
        }
        let n: usize = blocks.len();
        let mut k: usize = 0;
        while k < n
            invariant
                n == blocks@.len(),
                0 <= k <= n,
                forall|k2: int| 0 <= k2 < k ==> (#[trigger] blocks@[k2]).wf(),
            decreases n - k,
        {
            let blk = &blocks[k];
            if blk.ql.len() != 128 || blk.qh.len() != 64 || blk.scales.len() != 16 {
                return Err(ErrorKind::InvalidArgument);
            }
            k += 1;
        }
        Ok(QuantBufQ6K { blocks })
    }

    /// Reinterprets raw bytes as a sequence of blocks. Rejected inputs: a
    /// length that is not an exact multiple of the block byte size.
    pub fn from_bytes(data: &[u8]) -> (r: Result<QuantBufQ6K, ErrorKind>)
        ensures
            r is Ok <==> data@.len() % (Q6K_BLOCK_BYTES as nat) == 0 && (data@.len() / (
            Q6K_BLOCK_BYTES as nat)) * Q6K_BLOCK_ELEMS <= usize::MAX,
            r is Err ==> r == Result::<QuantBufQ6K, ErrorKind>::Err(ErrorKind::InvalidArgument),
            r is Ok ==> {
                &&& r->Ok_0.wf()
                &&& r->Ok_0.blocks@.len() == data@.len() / (Q6K_BLOCK_BYTES as nat)
                &&& forall|k: int|
                    0 <= k < r->Ok_0.blocks@.len() ==> q6k_block_at(
                        #[trigger] r->Ok_0.blocks@[k],
                        data@,
                        k * Q6K_BLOCK_BYTES,
                    )
            },
    {
        let total: usize = data.len();
        if total % Q6K_BLOCK_BYTES != 0 {
            return Err(ErrorKind::InvalidArgument);
        }
        let n: usize = total / Q6K_BLOCK_BYTES;
        if n.checked_mul(Q6K_BLOCK_ELEMS).is_none() {
            return Err(ErrorKind::InvalidArgument);
        }
        let mut blocks: Vec<BlockQ6K> = Vec::new();
        let mut k: usize = 0;
        while k < n
            invariant
                n == data@.len() / (Q6K_BLOCK_BYTES as nat),
                data@.len() % (Q6K_BLOCK_BYTES as nat) == 0,
                data@.len() == n * Q6K_BLOCK_BYTES,
                data@.len() <= usize::MAX,
                0 <= k <= n,
                blocks@.len() == k,
                forall|k2: int| 0 <= k2 < k ==> (#[trigger] blocks@[k2]).wf(),
                forall|k2: int|
                    0 <= k2 < k ==> q6k_block_at(
                        #[trigger] blocks@[k2],
                        data@,
                        k2 * Q6K_BLOCK_BYTES,
                    ),
            decreases n - k,
        {
            proof {
                lemma_block_offset_in_range(k as int, n as int, Q6K_BLOCK_BYTES as int);
            }
            let base: usize = k * Q6K_BLOCK_BYTES;
            let mut ql: Vec<u8> = Vec::new();
            let mut j: usize = 0;
            while j < 128
                invariant
                    data@.len() == n * Q6K_BLOCK_BYTES,
                    data@.len() <= usize::MAX,
                    0 <= k < n,
                    base == k * Q6K_BLOCK_BYTES,
                    base + Q6K_BLOCK_BYTES <= data@.len(),
                    0 <= j <= 128,
                    ql@.len() == j,
                    forall|j2: int| 0 <= j2 < j ==> ql@[j2] == data@[base + j2],
                decreases 128 - j,
            {
                ql.push(data[base + j]);
                j += 1;
            }
            let mut qh: Vec<u8> = Vec::new();
            let mut j: usize = 0;
            while j < 64
                invariant
                    data@.len() == n * Q6K_BLOCK_BYTES,
                    data@.len() <= usize::MAX,
                    0 <= k < n,
                    base == k * Q6K_BLOCK_BYTES,
                    base + Q6K_BLOCK_BYTES <= data@.len(),
                    0 <= j <= 64,
                    qh@.len() == j,
                    forall|j2: int| 0 <= j2 < j ==> qh@[j2] == data@[base + 128 + j2],
                decreases 64 - j,
            {
                qh.push(data[base + 128 + j]);
                j += 1;
            }
            let mut scales: Vec<i8> = Vec::new();
            let mut j: usize = 0;
            while j < 16
                invariant
                    data@.len() == n * Q6K_BLOCK_BYTES,
                    data@.len() <= usize::MAX,
                    0 <= k < n,
                    base == k * Q6K_BLOCK_BYTES,
                    base + Q6K_BLOCK_BYTES <= data@.len(),
                    0 <= j <= 16,
                    scales@.len() == j,
                    forall|j2: int| 0 <= j2 < j ==> scales@[j2] == data@[base + 192 + j2] as i8,
                decreases 16 - j,
            {
                scales.push(data[base + 192 + j] as i8);
                j += 1;
            }
            let d: u16 = (data[base + 208] as u16) + (data[base + 209] as u16) * 256;
            blocks.push(BlockQ6K { ql, qh, scales, d });
            k += 1;
        }
        Ok(QuantBufQ6K { blocks })
    }

    /// Serializes the blocks back to their byte layout; the result's length
    /// is always an exact multiple of the block byte size.
    pub fn to_bytes(&self) -> (r: Vec<u8>)
        requires
            self.wf(),
            self.blocks@.len() * Q6K_BLOCK_BYTES <= usize::MAX,
        ensures
            r@.len() == self.blocks@.len() * Q6K_BLOCK_BYTES,
            forall|k: int|
                0 <= k < self.blocks@.len() ==> q6k_block_at(
                    #[trigger] self.blocks@[k],
                    r@,
                    k * Q6K_BLOCK_BYTES,
                ),
    {
        let n: usize = self.blocks.len();
        let mut out: Vec<u8> = Vec::new();
        let mut k: usize = 0;
        while k < n
            invariant
                self.wf(),
                n == self.blocks@.len(),
                n * Q6K_BLOCK_BYTES <= usize::MAX,
                0 <= k <= n,
                out@.len() == k * Q6K_BLOCK_BYTES,
                forall|k2: int|
                    0 <= k2 < k ==> q6k_block_at(
                        #[trigger] self.blocks@[k2],
                        out@,
                        k2 * Q6K_BLOCK_BYTES,
                    ),
            decreases n - k,
        {
            proof {
                lemma_block_offset_in_range(k as int, n as int, Q6K_BLOCK_BYTES as int);
                assert(self.blocks@[k as int].wf());
            }
            let mut j: usize = 0;
            while j < 128
                invariant
                    self.wf(),
                    n == self.blocks@.len(),
                    0 <= k < n,
                    0 <= j <= 128,
                    out@.len() == k * Q6K_BLOCK_BYTES + j,
                    forall|j2: int|
                        0 <= j2 < j ==> out@[k * Q6K_BLOCK_BYTES + j2] == self.blocks@[
                            k as int
                        ].ql@[j2],
                    forall|k2: int|
                        0 <= k2 < k ==> q6k_block_at(
                            #[trigger] self.blocks@[k2],
                            out@,
                            k2 * Q6K_BLOCK_BYTES,
                        ),
                decreases 128 - j,
            {
                proof {
                    assert(self.blocks@[k as int].wf());
                }
                out.push(self.blocks[k].ql[j]);
                j += 1;
            }
            let mut j: usize = 0;
            while j < 64
                invariant
                    self.wf(),
                    n == self.blocks@.len(),
                    0 <= k < n,
                    0 <= j <= 64,
                    out@.len() == k * Q6K_BLOCK_BYTES + 128 + j,
                    forall|j2: int|
                        0 <= j2 < 128 ==> out@[k * Q6K_BLOCK_BYTES + j2] == self.blocks@[
                            k as int
                        ].ql@[j2],
                    forall|j2: int|
                        0 <= j2 < j ==> out@[k * Q6K_BLOCK_BYTES + 128 + j2] == self.blocks@[
                            k as int
                        ].qh@[j2],
                    forall|k2: int|
                        0 <= k2 < k ==> q6k_block_at(
                            #[trigger] self.blocks@[k2],
                            out@,
                            k2 * Q6K_BLOCK_BYTES,
                        ),
                decreases 64 - j,
            {
                proof {
                    assert(self.blocks@[k as int].wf());
                }
                out.push(self.blocks[k].qh[j]);
                j += 1;
            }
            let mut j: usize = 0;
            while j < 16
                invariant
                    self.wf(),
                    n == self.blocks@.len(),
                    0 <= k < n,
                    0 <= j <= 16,
                    out@.len() == k * Q6K_BLOCK_BYTES + 192 + j,
                    forall|j2: int|
                        0 <= j2 < 128 ==> out@[k * Q6K_BLOCK_BYTES + j2] == self.blocks@[
                            k as int
                        ].ql@[j2],
                    forall|j2: int|
                        0 <= j2 < 64 ==> out@[k * Q6K_BLOCK_BYTES + 128 + j2] == self.blocks@[
                            k as int
                        ].qh@[j2],
                    forall|j2: int|
                        0 <= j2 < j ==> out@[k * Q6K_BLOCK_BYTES + 192 + j2] == self.blocks@[
                            k as int
                        ].scales@[j2] as u8,
                    forall|k2: int|
                        0 <= k2 < k ==> q6k_block_at(
                            #[trigger] self.blocks@[k2],
                            out@,
                            k2 * Q6K_BLOCK_BYTES,
                        ),
                decreases 16 - j,
            {
                proof {
                    assert(self.blocks@[k as int].wf());
                }
                out.push(self.blocks[k].scales[j] as u8);
                j += 1;
            }
            let d: u16 = self.blocks[k].d;
            out.push((d % 256) as u8);
            out.push((d / 256) as u8);
            k += 1;
            proof {
                assert forall|k2: int| 0 <= k2 < k implies q6k_block_at(
                    #[trigger] self.blocks@[k2],
                    out@,
                    k2 * Q6K_BLOCK_BYTES,
                ) by {
                    if k2 < k - 1 {
                        lemma_block_offset_in_range(k2, k as int - 1, Q6K_BLOCK_BYTES as int);
                    } else {
                        let blk2 = self.blocks@[k2];
                        let base = k2 * Q6K_BLOCK_BYTES;
                        crate::buf_q8_1::lemma_le16_split(blk2.d);
                        assert forall|j2: int| 0 <= j2 < 16 implies blk2.scales@[j2] == out@[base
                            + 192 + j2] as i8 by {
                            let c = blk2.scales@[j2];
                            assert(c == (c as u8) as i8) by (bit_vector);
                        }
                    }
                }
            }
        }
        out
    }

    /// Element count of the buffer.
    pub fn len(&self) -> (r: usize)
        requires
            self.wf(),
        ensures
            r == self.spec_len(),
    {
        self.blocks.len() * Q6K_BLOCK_ELEMS
    }

    pub fn is_empty(&self) -> (r: bool)
        requires
            self.wf(),
        ensures
            r == (self.blocks@.len() == 0),
    {
        self.blocks.is_empty()
    }

    pub fn blocks(&self) -> (r: &Vec<BlockQ6K>)
        ensures
            r@ == self.blocks@,
    {
        &self.blocks
    }
}

/// Block size invariant: the element count of a `QuantBufQ6K` is an
/// exact multiple of the block element count, and its serialized byte
/// length an exact multiple of the block byte size.
pub proof fn lemma_q6k_block_size_invariant(b: QuantBufQ6K)
    ensures
        b.spec_len() % (Q6K_BLOCK_ELEMS as int) == 0,
        (b.blocks@.len() * Q6K_BLOCK_BYTES) % (Q6K_BLOCK_BYTES as int) == 0,
{
    crate::buf_q8_1::lemma_mul_mod_zero(b.blocks@.len() as int, Q6K_BLOCK_ELEMS as int);
    crate::buf_q8_1::lemma_mul_mod_zero(b.blocks@.len() as int, Q6K_BLOCK_BYTES as int);
}

/// Sum of the pairwise products of the first `n` of sub-block `j`'s 16
/// partner codes and centered block codes.
pub open spec fn q6k_group_dot(ql: Seq<u8>, qh: Seq<u8>, b: Seq<i8>, j: int, n: int) -> int
    decreases n,
{
    if n <= 0 {
        0
    } else {
        q6k_group_dot(ql, qh, b, j, n - 1) + b[16 * j + n - 1] * q6k_code(ql, qh, 16 * j + n - 1)
    }
}

/// Integer core of the paired dot product of a 6-bit block against a
/// 256-code 8-bit partner: for each of the 16 sub-blocks, the exact sum of
/// the pairwise products of partner codes and centered codes. The caller
/// folds these with the sub-block and super-block scales, which is numeric
/// work outside this library.
pub fn q6k_q8k_group_sums(a: &BlockQ6K, b_qs: &Vec<i8>) -> (r: Vec<i32>)
    requires
        a.wf(),
        b_qs@.len() == Q6K_BLOCK_ELEMS,
    ensures
        r@.len() == 16,
        forall|j: int| 0 <= j < 16 ==> r@[j] == q6k_group_dot(a.ql@, a.qh@, b_qs@, j, 16),
{
    let mut r: Vec<i32> = Vec::new();
    let mut j: usize = 0;
    while j < 16
        invariant
            a.wf(),
            b_qs@.len() == Q6K_BLOCK_ELEMS,
            0 <= j <= 16,
            r@.len() == j,
            forall|j2: int| 0 <= j2 < j ==> r@[j2] == q6k_group_dot(a.ql@, a.qh@, b_qs@, j2, 16),
        decreases 16 - j,
    {
        let mut acc: i32 = 0;
        let mut l: usize = 0;
        while l < 16
            invariant
                a.wf(),
                b_qs@.len() == Q6K_BLOCK_ELEMS,
                0 <= j < 16,
                0 <= l <= 16,
                acc == q6k_group_dot(a.ql@, a.qh@, b_qs@, j as int, l as int),
                -16384 * l <= acc <= 16384 * l,
            decreases 16 - l,
        {
            let c: u8 = a.code(16 * j + l);
            let code: i32 = c as i32 - 32;
            proof {
                lemma_code_mul_bound(b_qs@[16 * j + l] as int, code as int);
            }
            acc = acc + (b_qs[16 * j + l] as i32) * code;
            l += 1;
        }
        r.push(acc);
        j += 1;
    }
    r
}

} // verus!

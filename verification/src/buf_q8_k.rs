//! The 256-element, 8-bit partner format used as the accumulation side of
//! the hierarchical 6-bit dot product. A block stores one single-precision
//! scale (carried as a raw bit pattern), 256 signed byte codes and the 16
//! per-sub-block code sums.
use vstd::prelude::*;

use crate::error::ErrorKind;

verus! {

/// Elements per block.
pub const Q8K_BLOCK_ELEMS: usize = 256;

/// Sum of the first `n` codes of sub-block `j`.
pub open spec fn q8k_group_sum(qs: Seq<i8>, j: int, n: int) -> int
    decreases n,
{
    if n <= 0 {
        0
    } else {
        q8k_group_sum(qs, j, n - 1) + qs[16 * j + n - 1]
    }
}

/// One 256-element block: single-precision scale bits `d`, the signed byte
/// codes `qs`, and the sixteen per-sub-block code sums `bsums`.
#[derive(Clone, Debug)]
pub struct BlockQ8K {
    pub d: u32,
    pub qs: Vec<i8>,
    pub bsums: Vec<i16>,
}

impl BlockQ8K {
    pub open spec fn wf(&self) -> bool {
        &&& self.qs@.len() == Q8K_BLOCK_ELEMS
        &&& self.bsums@.len() == 16
        &&& forall|j: int| 0 <= j < 16 ==> self.bsums@[j] == q8k_group_sum(self.qs@, j, 16)
    }

    /// Assembles a block from scale bits and codes, computing the sub-block
    /// sums. Rejected inputs: a code vector whose length is not the block
    /// element count.
    pub fn new(d: u32, qs: Vec<i8>) -> (r: Result<BlockQ8K, ErrorKind>)
        ensures
            r is Ok <==> qs@.len() == Q8K_BLOCK_ELEMS,
            r is Err ==> r == Result::<BlockQ8K, ErrorKind>::Err(ErrorKind::InvalidArgument),
            r is Ok ==> {
                &&& r->Ok_0.wf()
                &&& r->Ok_0.d == d
                &&& r->Ok_0.qs@ == qs@
            },
    {
        if qs.len() != Q8K_BLOCK_ELEMS {
            return Err(ErrorKind::InvalidArgument);
        }
        let mut bsums: Vec<i16> = Vec::new();
        let mut j: usize = 0;
        while j < 16
            invariant
                qs@.len() == Q8K_BLOCK_ELEMS,
                0 <= j <= 16,
                bsums@.len() == j,
                forall|j2: int| 0 <= j2 < j ==> bsums@[j2] == q8k_group_sum(qs@, j2, 16),
            decreases 16 - j,
        {
            let mut acc: i16 = 0;
            let mut l: usize = 0;
            while l < 16
                invariant
                    qs@.len() == Q8K_BLOCK_ELEMS,
                    0 <= j < 16,
                    0 <= l <= 16,
                    acc == q8k_group_sum(qs@, j as int, l as int),
                    -128 * l <= acc <= 127 * l,
                decreases 16 - l,
            {
                acc = acc + qs[16 * j + l] as i16;
                l += 1;
            }
            bsums.push(acc);
            j += 1;
        }
        Ok(BlockQ8K { d, qs, bsums })
    }
}

/// Copies a code vector.
fn clone_codes(v: &Vec<i8>) -> (r: Vec<i8>)
    ensures
        r@ == v@,
{
    let mut r: Vec<i8> = Vec::new();
    let mut i: usize = 0;
    while i < v.len()
        invariant
            0 <= i <= v@.len(),
            r@ == v@.take(i as int),
        decreases v@.len() - i,
    {
        r.push(v[i]);
        proof {
            assert(v@.take(i as int).push(v@[i as int]) =~= v@.take(i as int + 1));
        }
        i += 1;
    }
    proof {
        assert(v@.take(v@.len() as int) =~= v@);
    }
    r
}

/// An ordered sequence of `BlockQ8K` blocks.
#[derive(Clone, Debug)]
pub struct QuantBufQ8K {
    pub blocks: Vec<BlockQ8K>,
}

impl QuantBufQ8K {
    pub open spec fn wf(&self) -> bool {
        &&& forall|k: int| 0 <= k < self.blocks@.len() ==> (#[trigger] self.blocks@[k]).wf()
        &&& self.blocks@.len() * Q8K_BLOCK_ELEMS <= usize::MAX
    }

    /// Element count of the buffer.
    pub open spec fn spec_len(&self) -> int {
        self.blocks@.len() * Q8K_BLOCK_ELEMS
    }

    /// Assembles a buffer from blocks. Rejected inputs: a malformed block,
    /// or a block count whose element count does not fit in `usize`.
    pub fn from_blocks(blocks: Vec<BlockQ8K>) -> (r: Result<QuantBufQ8K, ErrorKind>)
        ensures
            r is Ok <==> (forall|k: int| 0 <= k < blocks@.len() ==> (#[trigger] blocks@[k]).wf())
                && blocks@.len() * Q8K_BLOCK_ELEMS <= usize::MAX,
            r is Err ==> r == Result::<QuantBufQ8K, ErrorKind>::Err(ErrorKind::InvalidArgument),
            r is Ok ==> {
                &&& r->Ok_0.wf()
                &&& r->Ok_0.blocks@ == blocks@
                &&& r->Ok_0.spec_len() == blocks@.len() * Q8K_BLOCK_ELEMS
            },
    {
        if blocks.len().checked_mul(Q8K_BLOCK_ELEMS).is_none() {
            return Err(ErrorKind::InvalidArgument);
        }
        let n: usize = blocks.len();
        let mut k: usize = 0;
        while k < n
            invariant
                n == blocks@.len(),
                0 <= k <= n,
                forall|k2: int| 0 <= k2 < k ==> (#[trigger] blocks@[k2]).wf(),
            decreases n - k,
        {
            if blocks[k].qs.len() != Q8K_BLOCK_ELEMS || blocks[k].bsums.len() != 16 {
                return Err(ErrorKind::InvalidArgument);
            }
            let recomputed = BlockQ8K::new(blocks[k].d, clone_codes(&blocks[k].qs))?;
            let mut j: usize = 0;
            while j < 16
                invariant
                    n == blocks@.len(),
                    0 <= k < n,
                    blocks@[k as int].qs@.len() == Q8K_BLOCK_ELEMS,
                    blocks@[k as int].bsums@.len() == 16,
                    recomputed.wf(),
                    recomputed.qs@ == blocks@[k as int].qs@,
                    0 <= j <= 16,
                    forall|j2: int|
                        0 <= j2 < j ==> blocks@[k as int].bsums@[j2] == q8k_group_sum(
                            blocks@[k as int].qs@,
                            j2,
                            16,
                        ),
                decreases 16 - j,
            {
                if blocks[k].bsums[j] != recomputed.bsums[j] {
                    proof {
                        assert(recomputed.bsums@[j as int] == q8k_group_sum(
                            recomputed.qs@,
                            j as int,
                            16,
                        ));
                        assert(!blocks@[k as int].wf());
                    }
                    return Err(ErrorKind::InvalidArgument);
                }
                j += 1;
            }
            proof {
                assert(blocks@[k as int].wf());
            }
            k += 1;
        }
        Ok(QuantBufQ8K { blocks })
    }

    /// Element count of the buffer.
    pub fn len(&self) -> (r: usize)
        requires
            self.wf(),
        ensures
            r == self.spec_len(),
    {
        self.blocks.len() * Q8K_BLOCK_ELEMS
    }

    pub fn is_empty(&self) -> (r: bool)
        requires
            self.wf(),
        ensures
            r == (self.blocks@.len() == 0),
    {
        self.blocks.is_empty()
    }

    pub fn blocks(&self) -> (r: &Vec<BlockQ8K>)
        ensures
            r@ == self.blocks@,
    {
        &self.blocks
    }
}

} // verus!

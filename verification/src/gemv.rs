//! Shape validation and index arithmetic of the batched matrix-vector
//! kernels. A kernel call multiplies a rank-2 or rank-3 tensor A against a
//! contiguous tensor B of rank one less, producing one output element per
//! (batch, row) pair; every output element is the dot product of one
//! strided row of A against one vector of B. The numeric inner loops are
//! float work that lives outside this library; everything they depend on —
//! which calls are accepted, the plan's dimensions, and the element
//! offsets each output position reads — is pinned down here.
use vstd::prelude::*;

use crate::error::ErrorKind;
use crate::strider::TensorStrider;

verus! {

/// True when a pair of views is accepted by the kernel entry: A of rank 2
/// or 3, B contiguous of rank one less, matching inner dimensions, and a
/// contiguous A in the rank-2 case.
pub open spec fn spec_gemv_accepted(s1: TensorStrider, s2: TensorStrider) -> bool {
    &&& (s1.spec_dims() == 2 || s1.spec_dims() == 3)
    &&& s2.spec_dims() == s1.spec_dims() - 1
    &&& s2.spec_is_contiguous()
    &&& if s1.spec_dims() == 2 {
        s1.spec_is_contiguous() && s1.spec_shape()[1] == s2.spec_shape()[0]
    } else {
        s1.spec_shape()[2] == s2.spec_shape()[1]
    }
}

/// The dimensions and strides one kernel call runs with: A holds
/// `a_batch` matrices of `m` rows by `k` columns addressed through the
/// three strides, B holds `b_batch` vectors of length `k`, and the output
/// holds `b_batch * m` elements.
#[derive(Clone, Copy, Debug, PartialEq, Eq, Structural)]
pub struct GemvPlan {
    pub a_batch: usize,
    pub b_batch: usize,
    pub m: usize,
    pub k: usize,
    pub bi_stride: usize,
    pub mi_stride: usize,
    pub ki_stride: usize,
}

impl GemvPlan {
    pub open spec fn wf(&self) -> bool {
        &&& self.a_batch >= 1
        &&& self.b_batch >= 1
        &&& self.m >= 1
        &&& self.k >= 1
    }

    /// Element offset into A read for output element `i`: batch `i / m`
    /// (folded into A's batches by the broadcasting rule) at row `i % m`.
    pub open spec fn spec_row_offset(&self, i: int) -> int {
        ((i / self.m as int) % self.a_batch as int) * self.bi_stride + (i % self.m as int)
            * self.mi_stride
    }

    /// Element offset into A read by the column-wise strategy for batch
    /// `bi` at column `ki`.
    pub open spec fn spec_col_offset(&self, bi: int, ki: int) -> int {
        (bi % self.a_batch as int) * self.bi_stride + ki * self.ki_stride
    }

    /// Number of output elements, or `None` when it does not fit in
    /// `usize`.
    pub fn out_len_checked(&self) -> (r: Option<usize>)
        ensures
            r is Some <==> self.b_batch * self.m <= usize::MAX,
            r is Some ==> r->0 == self.b_batch * self.m,
    {
        self.b_batch.checked_mul(self.m)
    }

    /// Element offset into A read for output element `i`.
    pub fn row_offset(&self, i: usize) -> (r: usize)
        requires
            self.wf(),
            self.spec_row_offset(i as int) <= usize::MAX,
        ensures
            r == self.spec_row_offset(i as int),
    {
        let bi: usize = (i / self.m) % self.a_batch;
        let mi: usize = i % self.m;
        proof {
            crate::strider::lemma_mul_nonneg(bi as int, self.bi_stride as int);
            crate::strider::lemma_mul_nonneg(mi as int, self.mi_stride as int);
        }
        bi * self.bi_stride + mi * self.mi_stride
    }

    /// Element offset into A read by the column-wise strategy for batch
    /// `bi` at column `ki`.
    pub fn col_offset(&self, bi: usize, ki: usize) -> (r: usize)
        requires
            self.wf(),
            self.spec_col_offset(bi as int, ki as int) <= usize::MAX,
        ensures
            r == self.spec_col_offset(bi as int, ki as int),
    {
        proof {
            crate::strider::lemma_mul_nonneg(
                (bi as int) % (self.a_batch as int),
                self.bi_stride as int,
            );
            crate::strider::lemma_mul_nonneg(ki as int, self.ki_stride as int);
        }
        (bi % self.a_batch) * self.bi_stride + ki * self.ki_stride
    }
}

/// Batch broadcasting: with a single A batch, every output batch reads
/// the same A matrix — the row offset depends only on the row index.
pub proof fn lemma_gemv_broadcast_single_batch(plan: GemvPlan, i: int)
    requires
        plan.wf(),
        plan.a_batch == 1,
    ensures
        plan.spec_row_offset(i) == (i % plan.m as int) * plan.mi_stride,
{
    assert((i / plan.m as int) % 1int == 0);
}

/// Validates a kernel call and extracts its plan. Accepted exactly when
/// `spec_gemv_accepted` holds of the two views; the error is always
/// `InvalidArgument` and nothing is computed before validation.
pub fn gemv_check(strider1: &TensorStrider, strider2: &TensorStrider) -> (r: Result<
    GemvPlan,
    ErrorKind,
>)
    requires
        strider1.wf(),
        strider2.wf(),
    ensures
        r is Ok <==> spec_gemv_accepted(*strider1, *strider2),
        r is Err ==> r == Result::<GemvPlan, ErrorKind>::Err(ErrorKind::InvalidArgument),
        r is Ok ==> {
            &&& r->Ok_0.wf()
            &&& if strider1.spec_dims() == 2 {
                &&& r->Ok_0.a_batch == 1
                &&& r->Ok_0.b_batch == 1
                &&& r->Ok_0.m == strider1.spec_shape()[0]
                &&& r->Ok_0.k == strider1.spec_shape()[1]
                &&& r->Ok_0.bi_stride == 0
                &&& r->Ok_0.mi_stride == strider1.spec_strides()[0]
                &&& r->Ok_0.ki_stride == strider1.spec_strides()[1]
            } else {
                &&& r->Ok_0.a_batch == strider1.spec_shape()[0]
                &&& r->Ok_0.b_batch == strider2.spec_shape()[0]
                &&& r->Ok_0.m == strider1.spec_shape()[1]
                &&& r->Ok_0.k == strider1.spec_shape()[2]
                &&& r->Ok_0.bi_stride == strider1.spec_strides()[0]
                &&& r->Ok_0.mi_stride == strider1.spec_strides()[1]
                &&& r->Ok_0.ki_stride == strider1.spec_strides()[2]
            }
        },
{
    let dims1 = strider1.dims();
    let dims2 = strider2.dims();
    if dims1 != 2 && dims1 != 3 {
        return Err(ErrorKind::InvalidArgument);
    }
    if dims2 != dims1 - 1 {
        return Err(ErrorKind::InvalidArgument);
    }
    if !strider2.is_contiguous() {
        return Err(ErrorKind::InvalidArgument);
    }
    if dims1 == 2 {
        if !strider1.is_contiguous() {
            return Err(ErrorKind::InvalidArgument);
        }
        if strider1.shape()[1] != strider2.shape()[0] {
            return Err(ErrorKind::InvalidArgument);
        }
        Ok(
            GemvPlan {
                a_batch: 1,
                b_batch: 1,
                m: strider1.shape()[0],
                k: strider1.shape()[1],
                bi_stride: 0,
                mi_stride: strider1.strides()[0],
                ki_stride: strider1.strides()[1],
            },
        )
    } else {
        if strider1.shape()[2] != strider2.shape()[1] {
            return Err(ErrorKind::InvalidArgument);
        }
        Ok(
            GemvPlan {
                a_batch: strider1.shape()[0],
                b_batch: strider2.shape()[0],
                m: strider1.shape()[1],
                k: strider1.shape()[2],
                bi_stride: strider1.strides()[0],
                mi_stride: strider1.strides()[1],
                ki_stride: strider1.strides()[2],
            },
        )
    }
}

} // verus!

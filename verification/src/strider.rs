//! Shape/stride descriptor for N-dimensional tensors layered over a flat
//! buffer. A strider never owns data: it is pure addressing metadata, with
//! contiguity derived from the shape.
use vstd::prelude::*;

use crate::error::ErrorKind;

verus! {

/// Product of all entries of `s`, as an unbounded integer.
pub open spec fn prod(s: Seq<usize>) -> int
    decreases s.len(),
{
    if s.len() == 0 {
        1
    } else {
        s[0] * prod(s.drop_first())
    }
}

/// The row-major stride of dimension `j` for `shape`: the product of all
/// dimensions after `j`.
pub open spec fn row_major_stride(shape: Seq<usize>, j: int) -> int {
    prod(shape.skip(j + 1))
}

/// True when `strides` are exactly the row-major strides implied by `shape`.
pub open spec fn contiguous_strides(shape: Seq<usize>, strides: Seq<usize>) -> bool {
    &&& strides.len() == shape.len()
    &&& forall|j: int| 0 <= j < shape.len() ==> strides[j] == row_major_stride(shape, j)
}

/// One past the largest element offset the view can address:
/// `1 + sum_i (shape[i] - 1) * strides[i]`.
pub open spec fn span_of(shape: Seq<usize>, strides: Seq<usize>) -> int
    decreases shape.len(),
{
    if shape.len() == 0 {
        1
    } else {
        span_of(shape.drop_first(), strides.drop_first()) + (shape[0] - 1) * strides[0]
    }
}

/// Commutativity of integer multiplication, for the stride accumulators.
pub proof fn lemma_mul_comm(a: int, b: int)
    by (nonlinear_arith)
    ensures
        a * b == b * a,
{
}

/// A product of nonnegative integers is nonnegative.
pub proof fn lemma_mul_nonneg(a: int, b: int)
    by (nonlinear_arith)
    requires
        0 <= a,
        0 <= b,
    ensures
        0 <= a * b,
{
}

/// `prod` of a sequence of positive dimensions is positive.
pub proof fn lemma_prod_pos(s: Seq<usize>)
    requires
        forall|i: int| 0 <= i < s.len() ==> s[i] >= 1,
    ensures
        prod(s) >= 1,
    decreases s.len(),
{
    if s.len() > 0 {
        assert(forall|i: int|
            0 <= i < s.drop_first().len() ==> #[trigger] s.drop_first()[i] >= 1);
        lemma_prod_pos(s.drop_first());
        assert(s[0] * prod(s.drop_first()) >= 1) by (nonlinear_arith)
            requires
                s[0] >= 1,
                prod(s.drop_first()) >= 1,
        ;
    }
}

/// Splitting off the head of a suffix: `prod(s.skip(j)) == s[j] * prod(s.skip(j + 1))`.
pub proof fn lemma_prod_skip(s: Seq<usize>, j: int)
    requires
        0 <= j < s.len(),
    ensures
        prod(s.skip(j)) == s[j] * prod(s.skip(j + 1)),
{
    assert(s.skip(j).drop_first() =~= s.skip(j + 1));
    assert(s.skip(j)[0] == s[j]);
}

/// With positive dimensions, the product of any suffix is bounded by the
/// product of the whole sequence.
pub proof fn lemma_prod_skip_le(s: Seq<usize>, j: int)
    requires
        0 <= j <= s.len(),
        forall|i: int| 0 <= i < s.len() ==> s[i] >= 1,
    ensures
        prod(s.skip(j)) <= prod(s),
    decreases j,
{
    if j == 0 {
        assert(s.skip(0) =~= s);
    } else {
        lemma_prod_skip_le(s, j - 1);
        lemma_prod_skip(s, j - 1);
        lemma_prod_pos(s.skip(j));
        assert(prod(s.skip(j)) <= s[j - 1] * prod(s.skip(j))) by (nonlinear_arith)
            requires
                s[j - 1] >= 1,
                prod(s.skip(j)) >= 1,
        ;
    }
}

/// Shape/stride descriptor. Invariant: one stride per dimension, every
/// dimension positive, and the element count fits in `usize`.
#[derive(Debug)]
pub struct TensorStrider {
    shape: Vec<usize>,
    strides: Vec<usize>,
}

impl TensorStrider {
    pub closed spec fn spec_shape(&self) -> Seq<usize> {
        self.shape@
    }

    pub closed spec fn spec_strides(&self) -> Seq<usize> {
        self.strides@
    }

    pub open spec fn wf(&self) -> bool {
        &&& self.spec_shape().len() == self.spec_strides().len()
        &&& forall|i: int| 0 <= i < self.spec_shape().len() ==> self.spec_shape()[i] >= 1
        &&& prod(self.spec_shape()) <= usize::MAX
    }

    pub open spec fn spec_dims(&self) -> int {
        self.spec_shape().len() as int
    }

    /// Number of elements addressed by the view.
    pub open spec fn spec_len(&self) -> int {
        prod(self.spec_shape())
    }

    pub open spec fn spec_is_contiguous(&self) -> bool {
        contiguous_strides(self.spec_shape(), self.spec_strides())
    }

    pub open spec fn spec_span(&self) -> int {
        span_of(self.spec_shape(), self.spec_strides())
    }

    /// Builds a contiguous (row-major) strider for `shape`.
    /// Rejected inputs: a zero dimension, or an element count that does not
    /// fit in `usize`.
    pub fn new(shape: Vec<usize>) -> (r: Result<TensorStrider, ErrorKind>)
        ensures
            r is Ok <==> (forall|i: int| 0 <= i < shape@.len() ==> shape@[i] >= 1) && prod(shape@)
                <= usize::MAX,
            r is Err ==> r == Result::<TensorStrider, ErrorKind>::Err(ErrorKind::InvalidArgument),
            r is Ok ==> {
                &&& r->Ok_0.wf()
                &&& r->Ok_0.spec_shape() == shape@
                &&& r->Ok_0.spec_is_contiguous()
            },
    {
        let n: usize = shape.len();
        let mut i: usize = 0;
        while i < n
            invariant
                n == shape@.len(),
                0 <= i <= n,
                forall|j: int| 0 <= j < i ==> shape@[j] >= 1,
            decreases n - i,
        {
            if shape[i] == 0 {
                return Err(ErrorKind::InvalidArgument);
            }
            i += 1;
        }
        let mut strides: Vec<usize> = Vec::new();
        let mut k: usize = 0;
        while k < n
            invariant
                n == shape@.len(),
                0 <= k <= n,
                strides@.len() == k,
            decreases n - k,
        {
            strides.push(0);
            k += 1;
        }
        proof {
            assert(shape@.skip(n as int) =~= Seq::<usize>::empty());
        }
        let mut acc: usize = 1;
        let mut j: usize = n;
        while j > 0
            invariant
                n == shape@.len(),
                strides@.len() == n,
                0 <= j <= n,
                forall|i2: int| 0 <= i2 < n ==> shape@[i2] >= 1,
                acc == prod(shape@.skip(j as int)),
                forall|i2: int| j <= i2 < n ==> strides@[i2] == row_major_stride(shape@, i2),
            decreases j,
        {
            j -= 1;
            strides.set(j, acc);
            proof {
                lemma_prod_skip(shape@, j as int);
                lemma_prod_pos(shape@.skip(j as int));
                lemma_mul_comm(acc as int, shape@[j as int] as int);
            }
            match acc.checked_mul(shape[j]) {
                Some(next) => {
                    acc = next;
                },
                None => {
                    proof {
                        lemma_prod_skip_le(shape@, j as int);
                    }
                    return Err(ErrorKind::InvalidArgument);
                },
            }
        }
        proof {
            assert(shape@.skip(0) =~= shape@);
        }
        Ok(TensorStrider { shape, strides })
    }

    /// Builds a strider with explicit strides. Rejected inputs: a stride
    /// count different from the dimension count, a zero dimension, or an
    /// element count that does not fit in `usize`.
    pub fn with_strides(shape: Vec<usize>, strides: Vec<usize>) -> (r: Result<
        TensorStrider,
        ErrorKind,
    >)
        ensures
            r is Ok <==> {
                &&& strides@.len() == shape@.len()
                &&& forall|i: int| 0 <= i < shape@.len() ==> shape@[i] >= 1
                &&& prod(shape@) <= usize::MAX
            },
            r is Err ==> r == Result::<TensorStrider, ErrorKind>::Err(ErrorKind::InvalidArgument),
            r is Ok ==> {
                &&& r->Ok_0.wf()
                &&& r->Ok_0.spec_shape() == shape@
                &&& r->Ok_0.spec_strides() == strides@
            },
    {
        if strides.len() != shape.len() {
            return Err(ErrorKind::InvalidArgument);
        }
        let probe = TensorStrider::new(shape)?;
        let TensorStrider { shape, strides: _discard } = probe;
        Ok(TensorStrider { shape, strides })
    }

    pub fn dims(&self) -> (r: usize)
        ensures
            r == self.spec_dims(),
    {
        self.shape.len()
    }

    pub fn shape(&self) -> (r: &Vec<usize>)
        ensures
            r@ == self.spec_shape(),
    {
        &self.shape
    }

    pub fn strides(&self) -> (r: &Vec<usize>)
        ensures
            r@ == self.spec_strides(),
    {
        &self.strides
    }

    /// Number of elements addressed by the view.
    pub fn len(&self) -> (r: usize)
        requires
            self.wf(),
        ensures
            r == self.spec_len(),
    {
        let n: usize = self.shape.len();
        proof {
            assert(self.spec_shape().skip(n as int) =~= Seq::<usize>::empty());
        }
        let mut acc: usize = 1;
        let mut j: usize = n;
        while j > 0
            invariant
                self.wf(),
                n == self.spec_shape().len(),
                0 <= j <= n,
                acc == prod(self.spec_shape().skip(j as int)),
            decreases j,
        {
            j -= 1;
            proof {
                lemma_prod_skip(self.spec_shape(), j as int);
                lemma_prod_pos(self.spec_shape().skip(j as int));
                lemma_prod_skip_le(self.spec_shape(), j as int);
                lemma_mul_comm(acc as int, self.spec_shape()[j as int] as int);
            }
            acc = acc * self.shape[j];
        }
        proof {
            assert(self.spec_shape().skip(0) =~= self.spec_shape());
        }
        acc
    }

    /// True when the strides are exactly the row-major strides implied by
    /// the shape.
    pub fn is_contiguous(&self) -> (r: bool)
        requires
            self.wf(),
        ensures
            r == self.spec_is_contiguous(),
    {
        let n: usize = self.shape.len();
        proof {
            assert(self.spec_shape().skip(n as int) =~= Seq::<usize>::empty());
        }
        let mut acc: usize = 1;
        let mut j: usize = n;
        while j > 0
            invariant
                self.wf(),
                n == self.spec_shape().len(),
                0 <= j <= n,
                acc == prod(self.spec_shape().skip(j as int)),
                forall|i2: int| j <= i2 < n ==> self.spec_strides()[i2] == row_major_stride(
                    self.spec_shape(),
                    i2,
                ),
            decreases j,
        {
            j -= 1;
            if self.strides[j] != acc {
                return false;
            }
            proof {
                lemma_prod_skip(self.spec_shape(), j as int);
                lemma_prod_pos(self.spec_shape().skip(j as int));
                lemma_prod_skip_le(self.spec_shape(), j as int);
                lemma_mul_comm(acc as int, self.spec_shape()[j as int] as int);
            }
            acc = acc * self.shape[j];
        }
        true
    }

    /// A copy of the descriptor with the same shape and strides.
    pub fn dup(&self) -> (r: TensorStrider)
        ensures
            r.spec_shape() == self.spec_shape(),
            r.spec_strides() == self.spec_strides(),
    {
        let mut shape: Vec<usize> = Vec::new();
        let mut i: usize = 0;
        while i < self.shape.len()
            invariant
                0 <= i <= self.shape@.len(),
                shape@ == self.shape@.take(i as int),
            decreases self.shape@.len() - i,
        {
            shape.push(self.shape[i]);
            proof {
                assert(self.shape@.take(i as int).push(self.shape@[i as int]) =~= self.shape@.take(
                    i as int + 1,
                ));
            }
            i += 1;
        }
        let mut strides: Vec<usize> = Vec::new();
        let mut i: usize = 0;
        while i < self.strides.len()
            invariant
                0 <= i <= self.strides@.len(),
                strides@ == self.strides@.take(i as int),
            decreases self.strides@.len() - i,
        {
            strides.push(self.strides[i]);
            proof {
                assert(self.strides@.take(i as int).push(self.strides@[i as int])
                    =~= self.strides@.take(i as int + 1));
            }
            i += 1;
        }
        proof {
            assert(self.shape@.take(self.shape@.len() as int) =~= self.shape@);
            assert(self.strides@.take(self.strides@.len() as int) =~= self.strides@);
        }
        TensorStrider { shape, strides }
    }

    /// One past the largest element offset the view can address, or `None`
    /// when that bound does not fit in `usize`.
    pub fn span_checked(&self) -> (r: Option<usize>)
        requires
            self.wf(),
        ensures
            r is Some <==> self.spec_span() <= usize::MAX,
            r is Some ==> r->0 == self.spec_span(),
    {
        let n: usize = self.shape.len();
        let mut acc: usize = 1;
        let mut j: usize = n;
        proof {
            assert(self.spec_shape().skip(n as int) =~= Seq::<usize>::empty());
            assert(self.spec_strides().skip(n as int) =~= Seq::<usize>::empty());
            lemma_span_pos(self.spec_shape(), self.spec_strides());
        }
        while j > 0
            invariant
                self.wf(),
                n == self.spec_shape().len(),
                0 <= j <= n,
                acc == span_of(
                    self.spec_shape().skip(j as int),
                    self.spec_strides().skip(j as int),
                ),
            decreases j,
        {
            j -= 1;
            proof {
                lemma_span_skip(self.spec_shape(), self.spec_strides(), j as int);
                lemma_span_pos(
                    self.spec_shape().skip(j as int),
                    self.spec_strides().skip(j as int),
                );
                lemma_span_skip_le(self.spec_shape(), self.spec_strides(), j as int);
            }
            let d: usize = self.shape[j];
            let s: usize = self.strides[j];
            let step = match (d - 1).checked_mul(s) {
                Some(v) => v,
                None => {
                    return None;
                },
            };
            acc = match acc.checked_add(step) {
                Some(v) => v,
                None => {
                    return None;
                },
            };
        }
        proof {
            assert(self.spec_shape().skip(0) =~= self.spec_shape());
            assert(self.spec_strides().skip(0) =~= self.spec_strides());
        }
        Some(acc)
    }
}

/// `span_of` of positive dimensions is positive.
pub proof fn lemma_span_pos(shape: Seq<usize>, strides: Seq<usize>)
    requires
        forall|i: int| 0 <= i < shape.len() ==> shape[i] >= 1,
    ensures
        span_of(shape, strides) >= 1,
    decreases shape.len(),
{
    if shape.len() > 0 {
        lemma_span_pos(shape.drop_first(), strides.drop_first());
    }
}

/// Splitting off the head of a suffix of `span_of`.
pub proof fn lemma_span_skip(shape: Seq<usize>, strides: Seq<usize>, j: int)
    requires
        0 <= j < shape.len(),
        shape.len() == strides.len(),
    ensures
        span_of(shape.skip(j), strides.skip(j)) == span_of(shape.skip(j + 1), strides.skip(j + 1))
            + (shape[j] - 1) * strides[j],
{
    assert(shape.skip(j).drop_first() =~= shape.skip(j + 1));
    assert(strides.skip(j).drop_first() =~= strides.skip(j + 1));
    assert(shape.skip(j)[0] == shape[j]);
    assert(strides.skip(j)[0] == strides[j]);
}

/// With positive dimensions, the span of a suffix is bounded by the whole
/// span.
pub proof fn lemma_span_skip_le(shape: Seq<usize>, strides: Seq<usize>, j: int)
    requires
        0 <= j <= shape.len(),
        shape.len() == strides.len(),
        forall|i: int| 0 <= i < shape.len() ==> shape[i] >= 1,
    ensures
        span_of(shape.skip(j), strides.skip(j)) <= span_of(shape, strides),
    decreases j,
{
    if j == 0 {
        assert(shape.skip(0) =~= shape);
        assert(strides.skip(0) =~= strides);
    } else {
        lemma_span_skip_le(shape, strides, j - 1);
        lemma_span_skip(shape, strides, j - 1);
    }
}

} // verus!

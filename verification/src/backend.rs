//! The CPU backend: a registry of typed buffers addressed by integer ids,
//! tensors as (buffer, strided view) pairs, a pool with exclusive
//! checkout/return, and the validated entry points of the op surface.
use std::collections::HashMap;

use vstd::prelude::*;

use crate::buf::CpuTensorBuf;
use crate::error::ErrorKind;
use crate::strider::TensorStrider;

verus! {

broadcast use vstd::std_specs::hash::group_hash_axioms;

/// Identifier of a buffer registered with a pool or backend.
pub type TensorBufID = usize;

/// A tensor reference as the op surface hands it over: a buffer id plus
/// the strided view to read it through.
#[derive(Debug)]
pub struct TensorOpVar {
    pub buf_id: TensorBufID,
    pub strider: TensorStrider,
}

/// The opaque operations the op-dispatch layer can request. Kinds without
/// an implemented path are rejected, never silently ignored.
pub enum TensorOp {
    AddInplace { lhs: TensorOpVar, rhs: TensorOpVar },
    MulInplace { lhs: TensorOpVar, rhs: TensorOpVar },
}

/// A tensor: a borrowed typed buffer read through a strided view whose
/// span fits the buffer.
#[derive(Debug)]
pub struct CpuTensor<'a> {
    buf: &'a CpuTensorBuf,
    strider: TensorStrider,
}

impl<'a> CpuTensor<'a> {
    pub closed spec fn spec_buf(&self) -> CpuTensorBuf {
        *self.buf
    }

    pub closed spec fn spec_strider(&self) -> TensorStrider {
        self.strider
    }

    pub open spec fn wf(&self) -> bool {
        &&& self.spec_buf().wf()
        &&& self.spec_strider().wf()
        &&& self.spec_strider().spec_span() <= self.spec_buf().spec_len()
    }

    /// Pairs a buffer with a view. Rejected inputs: a view whose span
    /// exceeds the buffer's element count.
    pub fn new(buf: &'a CpuTensorBuf, strider: TensorStrider) -> (r: Result<
        CpuTensor<'a>,
        ErrorKind,
    >)
        requires
            buf.wf(),
            strider.wf(),
        ensures
            r is Ok <==> strider.spec_span() <= buf.spec_len(),
            r is Err ==> r == Result::<CpuTensor<'a>, ErrorKind>::Err(ErrorKind::InvalidArgument),
            r is Ok ==> {
                &&& r->Ok_0.wf()
                &&& r->Ok_0.spec_buf() == *buf
                &&& r->Ok_0.spec_strider() == strider
            },
    {
        let buf_len = buf.len();
        let span = match strider.span_checked() {
            Some(v) => v,
            None => {
                return Err(ErrorKind::InvalidArgument);
            },
        };
        if span > buf_len {
            return Err(ErrorKind::InvalidArgument);
        }
        Ok(CpuTensor { buf, strider })
    }

    pub fn buf(&self) -> (r: &CpuTensorBuf)
        ensures
            *r == self.spec_buf(),
    {
        self.buf
    }

    pub fn strider(&self) -> (r: &TensorStrider)
        ensures
            *r == self.spec_strider(),
    {
        &self.strider
    }
}

/// An exclusively checked-out pool entry: the owned buffer, the view it
/// was checked out with, and the id it must be returned under.
#[derive(Debug)]
pub struct PooledCpuTensorRef {
    buf_id: TensorBufID,
    buf: CpuTensorBuf,
    strider: TensorStrider,
}

impl PooledCpuTensorRef {
    pub closed spec fn spec_buf_id(&self) -> TensorBufID {
        self.buf_id
    }

    pub closed spec fn spec_buf(&self) -> CpuTensorBuf {
        self.buf
    }

    /// The id this entry was checked out under.
    pub fn buf_id(&self) -> (r: TensorBufID)
        ensures
            r == self.spec_buf_id(),
    {
        self.buf_id
    }

    pub closed spec fn spec_strider(&self) -> TensorStrider {
        self.strider
    }

    pub fn buf(&self) -> (r: &CpuTensorBuf)
        ensures
            *r == self.spec_buf(),
    {
        &self.buf
    }

    /// Read/write access to the checked-out buffer.
    pub fn buf_mut(&mut self) -> (r: &mut CpuTensorBuf)
        ensures
            *r == old(self).spec_buf(),
            final(self).spec_buf() == *final(r),
            final(self).spec_buf_id() == old(self).spec_buf_id(),
            final(self).spec_strider() == old(self).spec_strider(),
    {
        &mut self.buf
    }

    pub fn strider(&self) -> (r: &TensorStrider)
        ensures
            *r == self.spec_strider(),
    {
        &self.strider
    }
}

/// A process-local registry of owned buffers under monotonically assigned
/// ids, with exclusive checkout. While an id is checked out it is absent
/// from the map; returning the handle re-registers the same buffer under
/// the same id.
pub struct CpuTensorPool {
    bufs: HashMap<TensorBufID, CpuTensorBuf>,
    next_buf_id: TensorBufID,
}

impl CpuTensorPool {
    /// The buffers currently available for checkout, by id.
    pub closed spec fn spec_bufs(&self) -> Map<TensorBufID, CpuTensorBuf> {
        self.bufs@
    }

    /// The next id to be assigned; every registered id is below it.
    pub closed spec fn spec_next(&self) -> int {
        self.next_buf_id as int
    }

    pub open spec fn wf(&self) -> bool {
        forall|id: TensorBufID| #[trigger]
            self.spec_bufs().contains_key(id) ==> id < self.spec_next() && self.spec_bufs()[
                id
            ].wf()
    }

    pub fn new() -> (r: CpuTensorPool)
        ensures
            r.wf(),
            r.spec_bufs() == Map::<TensorBufID, CpuTensorBuf>::empty(),
            r.spec_next() == 0,
    {
        CpuTensorPool { bufs: HashMap::new(), next_buf_id: 0 }
    }

    /// The next id to be assigned.
    pub fn next_buf_id(&self) -> (r: TensorBufID)
        ensures
            r == self.spec_next(),
    {
        self.next_buf_id
    }

    /// Takes ownership of a buffer and registers it under the next
    /// sequential id.
    pub fn import(&mut self, buf: CpuTensorBuf) -> (id: TensorBufID)
        requires
            old(self).wf(),
            buf.wf(),
            old(self).spec_next() < usize::MAX,
        ensures
            final(self).wf(),
            id == old(self).spec_next(),
            final(self).spec_next() == old(self).spec_next() + 1,
            final(self).spec_bufs() == old(self).spec_bufs().insert(id, buf),
    {
        let id = self.next_buf_id;
        self.bufs.insert(id, buf);
        proof {
            assert(vstd::std_specs::hash::obeys_key_model::<TensorBufID>());
            assert(self.bufs@ == old(self).spec_bufs().insert(id, buf));
        }
        self.next_buf_id = id + 1;
        id
    }

    /// Checks the referenced buffer out exclusively, bound to the given
    /// view. Fails with `NotFound` for an id that was never assigned, with
    /// `AlreadyCheckedOut` for an id whose buffer is currently checked out,
    /// and with `InvalidArgument` for a view whose span exceeds the
    /// buffer; on failure the pool is unchanged.
    pub fn load(&mut self, op_var: &TensorOpVar) -> (r: Result<PooledCpuTensorRef, ErrorKind>)
        requires
            old(self).wf(),
            op_var.strider.wf(),
        ensures
            final(self).wf(),
            final(self).spec_next() == old(self).spec_next(),
            r is Ok <==> old(self).spec_bufs().contains_key(op_var.buf_id)
                && op_var.strider.spec_span() <= old(self).spec_bufs()[op_var.buf_id].spec_len(),
            r is Ok ==> {
                &&& r->Ok_0.spec_buf_id() == op_var.buf_id
                &&& r->Ok_0.spec_buf() == old(self).spec_bufs()[op_var.buf_id]
                &&& r->Ok_0.spec_strider().spec_shape() == op_var.strider.spec_shape()
                &&& r->Ok_0.spec_strider().spec_strides() == op_var.strider.spec_strides()
                &&& final(self).spec_bufs() == old(self).spec_bufs().remove(op_var.buf_id)
            },
            r is Err ==> final(self).spec_bufs() == old(self).spec_bufs(),
            r is Err ==> r->Err_0 == (if op_var.buf_id >= old(self).spec_next() {
                ErrorKind::NotFound
            } else if !old(self).spec_bufs().contains_key(op_var.buf_id) {
                ErrorKind::AlreadyCheckedOut
            } else {
                ErrorKind::InvalidArgument
            }),
    {
        let id = op_var.buf_id;
        if id >= self.next_buf_id {
            return Err(ErrorKind::NotFound);
        }
        let fits: bool = match self.bufs.get(&id) {
            Some(buf) => {
                let buf_len = buf.len();
                let span = match op_var.strider.span_checked() {
                    Some(v) => v,
                    None => {
                        return Err(ErrorKind::InvalidArgument);
                    },
                };
                span <= buf_len
            },
            None => {
                return Err(ErrorKind::AlreadyCheckedOut);
            },
        };
        if !fits {
            return Err(ErrorKind::InvalidArgument);
        }
        let removed = self.bufs.remove(&id);
        proof {
            assert(vstd::std_specs::hash::obeys_key_model::<TensorBufID>());
            assert(self.bufs@ == old(self).spec_bufs().remove(id));
        }
        match removed {
            Some(buf) => Ok(PooledCpuTensorRef { buf_id: id, buf, strider: op_var.strider.dup() }),
            None => Err(ErrorKind::AlreadyCheckedOut),
        }
    }

    /// Returns a checked-out buffer to the pool under its original id;
    /// this is the sole way an id becomes available again.
    pub fn unload(&mut self, r: PooledCpuTensorRef)
        requires
            old(self).wf(),
            r.spec_buf().wf(),
            r.spec_buf_id() < old(self).spec_next(),
            !old(self).spec_bufs().contains_key(r.spec_buf_id()),
        ensures
            final(self).wf(),
            final(self).spec_next() == old(self).spec_next(),
            final(self).spec_bufs() == old(self).spec_bufs().insert(
                r.spec_buf_id(),
                r.spec_buf(),
            ),
    {
        let PooledCpuTensorRef { buf_id, buf, strider: _strider } = r;
        self.bufs.insert(buf_id, buf);
        proof {
            assert(vstd::std_specs::hash::obeys_key_model::<TensorBufID>());
        }
    }
}

/// Pool discipline: removing a checked-out entry and re-inserting the same
/// buffer under the same id restores the registry exactly, so a returned
/// handle makes the id checkout-able again with the same contents.
pub proof fn lemma_checkout_return_restores(m: Map<TensorBufID, CpuTensorBuf>, id: TensorBufID)
    requires
        m.contains_key(id),
    ensures
        m.remove(id).insert(id, m[id]) == m,
{
    assert(m.remove(id).insert(id, m[id]) =~= m);
}

/// True when two size vectors hold the same entries.
fn usize_vecs_equal(a: &Vec<usize>, b: &Vec<usize>) -> (r: bool)
    ensures
        r == (a@ =~= b@),
{
    if a.len() != b.len() {
        return false;
    }
    let mut i: usize = 0;
    while i < a.len()
        invariant
            a@.len() == b@.len(),
            0 <= i <= a@.len(),
            forall|j: int| 0 <= j < i ==> a@[j] == b@[j],
        decreases a@.len() - i,
    {
        if a[i] != b[i] {
            return false;
        }
        i += 1;
    }
    true
}

/// The backend registry: owned buffers in assignment order, addressed by
/// their index.
pub struct CpuTensorBackend {
    bufs: Vec<CpuTensorBuf>,
}

impl CpuTensorBackend {
    /// The registered buffers, in import order.
    pub closed spec fn spec_bufs(&self) -> Seq<CpuTensorBuf> {
        self.bufs@
    }

    pub open spec fn wf(&self) -> bool {
        forall|i: int| 0 <= i < self.spec_bufs().len() ==> (#[trigger] self.spec_bufs()[i]).wf()
    }

    pub fn new() -> (r: CpuTensorBackend)
        ensures
            r.wf(),
            r.spec_bufs().len() == 0,
    {
        CpuTensorBackend { bufs: Vec::new() }
    }

    /// Takes ownership of a buffer; its id is its import rank.
    pub fn import_buf(&mut self, buf: CpuTensorBuf) -> (r: Result<TensorBufID, ErrorKind>)
        requires
            old(self).wf(),
            buf.wf(),
        ensures
            final(self).wf(),
            r is Ok,
            r->Ok_0 == old(self).spec_bufs().len(),
            final(self).spec_bufs() == old(self).spec_bufs().push(buf),
    {
        let next_buf_id = self.bufs.len();
        self.bufs.push(buf);
        proof {
            assert forall|i: int| 0 <= i < self.bufs@.len() implies (
            #[trigger] self.bufs@[i]).wf() by {
                if i < old(self).spec_bufs().len() {
                    assert(old(self).spec_bufs()[i].wf());
                }
            }
        }
        Ok(next_buf_id)
    }

    /// The tensor referenced by `op_var`, read through its view. Fails
    /// with `NotFound` for an unknown id and with `InvalidArgument` for a
    /// view whose span exceeds the buffer.
    pub fn get_tensor(&self, op_var: &TensorOpVar) -> (r: Result<CpuTensor<'_>, ErrorKind>)
        requires
            self.wf(),
            op_var.strider.wf(),
        ensures
            r is Ok <==> op_var.buf_id < self.spec_bufs().len()
                && op_var.strider.spec_span() <= self.spec_bufs()[op_var.buf_id as int].spec_len(),
            r is Ok ==> {
                &&& r->Ok_0.wf()
                &&& r->Ok_0.spec_buf() == self.spec_bufs()[op_var.buf_id as int]
                &&& r->Ok_0.spec_strider().spec_shape() == op_var.strider.spec_shape()
                &&& r->Ok_0.spec_strider().spec_strides() == op_var.strider.spec_strides()
            },
            r is Err ==> r->Err_0 == (if op_var.buf_id >= self.spec_bufs().len() {
                ErrorKind::NotFound
            } else {
                ErrorKind::InvalidArgument
            }),
    {
        if op_var.buf_id >= self.bufs.len() {
            return Err(ErrorKind::NotFound);
        }
        let buf = &self.bufs[op_var.buf_id];
        CpuTensor::new(buf, op_var.strider.dup())
    }

    /// The tensor referenced by `op_var`, for consumption by an op; same
    /// contract as `get_tensor`.
    pub fn take(&self, op_var: &TensorOpVar) -> (r: Result<CpuTensor<'_>, ErrorKind>)
        requires
            self.wf(),
            op_var.strider.wf(),
        ensures
            r is Ok <==> op_var.buf_id < self.spec_bufs().len()
                && op_var.strider.spec_span() <= self.spec_bufs()[op_var.buf_id as int].spec_len(),
            r is Ok ==> {
                &&& r->Ok_0.wf()
                &&& r->Ok_0.spec_buf() == self.spec_bufs()[op_var.buf_id as int]
                &&& r->Ok_0.spec_strider().spec_shape() == op_var.strider.spec_shape()
                &&& r->Ok_0.spec_strider().spec_strides() == op_var.strider.spec_strides()
            },
            r is Err ==> r->Err_0 == (if op_var.buf_id >= self.spec_bufs().len() {
                ErrorKind::NotFound
            } else {
                ErrorKind::InvalidArgument
            }),
    {
        self.get_tensor(op_var)
    }

    /// Validates an in-place binary op before any element is touched:
    /// both operands must resolve to tensors and their shapes must match.
    pub fn check_binary_inplace(&self, lhs: &TensorOpVar, rhs: &TensorOpVar) -> (r: Result<
        (),
        ErrorKind,
    >)
        requires
            self.wf(),
            lhs.strider.wf(),
            rhs.strider.wf(),
        ensures
            r is Ok <==> {
                &&& lhs.buf_id < self.spec_bufs().len()
                &&& lhs.strider.spec_span() <= self.spec_bufs()[lhs.buf_id as int].spec_len()
                &&& rhs.buf_id < self.spec_bufs().len()
                &&& rhs.strider.spec_span() <= self.spec_bufs()[rhs.buf_id as int].spec_len()
                &&& lhs.strider.spec_shape() =~= rhs.strider.spec_shape()
            },
            r is Err ==> r->Err_0 == (if lhs.buf_id >= self.spec_bufs().len() || rhs.buf_id
                >= self.spec_bufs().len() {
                ErrorKind::NotFound
            } else {
                ErrorKind::InvalidArgument
            }),
    {
        if lhs.buf_id >= self.bufs.len() || rhs.buf_id >= self.bufs.len() {
            return Err(ErrorKind::NotFound);
        }
        if self.get_tensor(lhs).is_err() || self.get_tensor(rhs).is_err() {
            return Err(ErrorKind::InvalidArgument);
        }
        if !usize_vecs_equal(lhs.strider.shape(), rhs.strider.shape()) {
            return Err(ErrorKind::InvalidArgument);
        }
        Ok(())
    }

    /// Exports a plain float buffer's raw bit patterns into `dst`,
    /// consuming the backend: export is a one-shot finalize. Fails with
    /// `InvalidArgument` when the id is unknown, the stored format is not
    /// plain float, or the destination length differs; nothing is written
    /// before all checks pass.
    pub fn export_buf(self, buf_id: TensorBufID, dst: &mut Vec<u32>) -> (r: Result<(), ErrorKind>)
        requires
            self.wf(),
        ensures
            r is Ok <==> buf_id < self.spec_bufs().len() && (self.spec_bufs()[buf_id as int]
                matches CpuTensorBuf::F32(v) && v@.len() == old(dst)@.len()),
            r is Err ==> r == Result::<(), ErrorKind>::Err(ErrorKind::InvalidArgument),
            r is Ok ==> (self.spec_bufs()[buf_id as int] matches CpuTensorBuf::F32(v)
                && final(dst)@ == v@),
            r is Err ==> final(dst)@ == old(dst)@,
    {
        if buf_id >= self.bufs.len() {
            return Err(ErrorKind::InvalidArgument);
        }
        let buf = match self.bufs[buf_id].as_f32_bits() {
            Ok(v) => v,
            Err(_) => {
                return Err(ErrorKind::InvalidArgument);
            },
        };
        if buf.len() != dst.len() {
            return Err(ErrorKind::InvalidArgument);
        }
        let n: usize = buf.len();
        let mut i: usize = 0;
        while i < n
            invariant
                n == buf@.len(),
                dst@.len() == n,
                0 <= i <= n,
                forall|j: int| 0 <= j < i ==> dst@[j] == buf@[j],
            decreases n - i,
        {
            dst.set(i, buf[i]);
            i += 1;
        }
        proof {
            assert(dst@ =~= buf@);
        }
        Ok(())
    }

    /// The backend's name.
    pub fn name(&self) -> (r: &'static str)
        ensures
            r@ == "cpu"@,
    {
        "cpu"
    }
}

} // verus!

//! The closed set of storage representations a tensor buffer can have:
//! plain 32-bit float, half-precision float, and the quantized block
//! formats. Float and half values are carried as raw bit patterns; the
//! numeric codec arithmetic lives outside this library. Every buffer
//! answers the same structural questions: length, storage type, and the
//! designated partner type for its dot-product path.
use vstd::prelude::*;

use crate::buf_q6_k::QuantBufQ6K;
use crate::buf_q8_1::QuantBufQ8_1;
use crate::buf_q8_k::QuantBufQ8K;
use crate::error::ErrorKind;

verus! {

/// Storage type tags of the closed buffer union.
#[derive(Clone, Copy, Debug, PartialEq, Eq, Structural)]
pub enum BufType {
    F32,
    F16,
    Q8_1,
    Q8K,
    Q6K,
}

/// A typed tensor buffer: one variant per storage representation. The
/// float variants hold raw bit patterns (32-bit and 16-bit respectively).
#[derive(Clone, Debug)]
pub enum CpuTensorBuf {
    F32(Vec<u32>),
    F16(Vec<u16>),
    Q8_1(QuantBufQ8_1),
    Q8K(QuantBufQ8K),
    Q6K(QuantBufQ6K),
}

impl CpuTensorBuf {
    pub open spec fn wf(&self) -> bool {
        match self {
            CpuTensorBuf::F32(_) => true,
            CpuTensorBuf::F16(_) => true,
            CpuTensorBuf::Q8_1(b) => b.wf(),
            CpuTensorBuf::Q8K(b) => b.wf(),
            CpuTensorBuf::Q6K(b) => b.wf(),
        }
    }

    /// Element count of the buffer.
    pub open spec fn spec_len(&self) -> int {
        match self {
            CpuTensorBuf::F32(v) => v@.len() as int,
            CpuTensorBuf::F16(v) => v@.len() as int,
            CpuTensorBuf::Q8_1(b) => b.spec_len(),
            CpuTensorBuf::Q8K(b) => b.spec_len(),
            CpuTensorBuf::Q6K(b) => b.spec_len(),
        }
    }

    pub open spec fn spec_typ(&self) -> BufType {
        match self {
            CpuTensorBuf::F32(_) => BufType::F32,
            CpuTensorBuf::F16(_) => BufType::F16,
            CpuTensorBuf::Q8_1(_) => BufType::Q8_1,
            CpuTensorBuf::Q8K(_) => BufType::Q8K,
            CpuTensorBuf::Q6K(_) => BufType::Q6K,
        }
    }

    /// The designated partner storage type used as the right-hand side of
    /// this buffer's dot-product path.
    pub open spec fn spec_vec_dot_rhs_dtype(&self) -> BufType {
        match self {
            CpuTensorBuf::F32(_) => BufType::F32,
            CpuTensorBuf::F16(_) => BufType::F16,
            CpuTensorBuf::Q8_1(_) => BufType::Q8_1,
            CpuTensorBuf::Q8K(_) => BufType::Q8K,
            CpuTensorBuf::Q6K(_) => BufType::Q8K,
        }
    }

    /// Elements per block of this buffer's storage format; the float
    /// formats are element-addressable.
    pub open spec fn spec_block_elems(&self) -> int {
        match self {
            CpuTensorBuf::F32(_) => 1,
            CpuTensorBuf::F16(_) => 1,
            CpuTensorBuf::Q8_1(_) => crate::buf_q8_1::Q8_1_BLOCK_ELEMS as int,
            CpuTensorBuf::Q8K(_) => crate::buf_q8_k::Q8K_BLOCK_ELEMS as int,
            CpuTensorBuf::Q6K(_) => crate::buf_q6_k::Q6K_BLOCK_ELEMS as int,
        }
    }

    /// Elements per block of this buffer's storage format.
    pub fn block_elems(&self) -> (r: usize)
        ensures
            r == self.spec_block_elems(),
    {
        match self {
            CpuTensorBuf::F32(_) => 1,
            CpuTensorBuf::F16(_) => 1,
            CpuTensorBuf::Q8_1(_) => crate::buf_q8_1::Q8_1_BLOCK_ELEMS,
            CpuTensorBuf::Q8K(_) => crate::buf_q8_k::Q8K_BLOCK_ELEMS,
            CpuTensorBuf::Q6K(_) => crate::buf_q6_k::Q6K_BLOCK_ELEMS,
        }
    }

    /// Validates an element offset for this buffer's codec paths: it must
    /// be aligned to the format's block element count and lie within the
    /// buffer.
    pub fn check_offset(&self, offset: usize) -> (r: Result<(), ErrorKind>)
        requires
            self.wf(),
        ensures
            r is Ok <==> (offset as int) % self.spec_block_elems() == 0 && offset
                <= self.spec_len(),
            r is Err ==> r == Result::<(), ErrorKind>::Err(ErrorKind::InvalidArgument),
    {
        if offset % self.block_elems() == 0 && offset <= self.len() {
            Ok(())
        } else {
            Err(ErrorKind::InvalidArgument)
        }
    }

    pub fn typ(&self) -> (r: BufType)
        ensures
            r == self.spec_typ(),
    {
        match self {
            CpuTensorBuf::F32(_) => BufType::F32,
            CpuTensorBuf::F16(_) => BufType::F16,
            CpuTensorBuf::Q8_1(_) => BufType::Q8_1,
            CpuTensorBuf::Q8K(_) => BufType::Q8K,
            CpuTensorBuf::Q6K(_) => BufType::Q6K,
        }
    }

    /// The designated partner storage type used as the right-hand side of
    /// this buffer's dot-product path.
    pub fn vec_dot_rhs_dtype(&self) -> (r: BufType)
        ensures
            r == self.spec_vec_dot_rhs_dtype(),
    {
        match self {
            CpuTensorBuf::F32(_) => BufType::F32,
            CpuTensorBuf::F16(_) => BufType::F16,
            CpuTensorBuf::Q8_1(_) => BufType::Q8_1,
            CpuTensorBuf::Q8K(_) => BufType::Q8K,
            CpuTensorBuf::Q6K(_) => BufType::Q8K,
        }
    }

    /// Element count of the buffer.
    pub fn len(&self) -> (r: usize)
        requires
            self.wf(),
        ensures
            r == self.spec_len(),
    {
        match self {
            CpuTensorBuf::F32(v) => v.len(),
            CpuTensorBuf::F16(v) => v.len(),
            CpuTensorBuf::Q8_1(b) => b.len(),
            CpuTensorBuf::Q8K(b) => b.len(),
            CpuTensorBuf::Q6K(b) => b.len(),
        }
    }

    pub fn is_empty(&self) -> (r: bool)
        requires
            self.wf(),
        ensures
            r == (self.spec_len() == 0),
    {
        self.len() == 0
    }

    /// The raw 32-bit patterns of a plain float buffer. Rejected inputs:
    /// any other storage type.
    pub fn as_f32_bits(&self) -> (r: Result<&Vec<u32>, ErrorKind>)
        ensures
            r is Ok <==> self.spec_typ() == BufType::F32,
            r is Err ==> r == Result::<&Vec<u32>, ErrorKind>::Err(ErrorKind::InvalidArgument),
            r is Ok ==> *self == CpuTensorBuf::F32(*r->Ok_0),
    {
        match self {
            CpuTensorBuf::F32(v) => Ok(v),
            _ => Err(ErrorKind::InvalidArgument),
        }
    }
}

/// True when a buffer of type `src` can be converted to type `dst` by the
/// codec layer: conversion is the identity, or starts from plain float.
/// Converting one quantized format directly to another is unsupported and
/// must round-trip through plain float.
pub open spec fn spec_conversion_supported(src: BufType, dst: BufType) -> bool {
    dst == src || src == BufType::F32
}

/// Decides `spec_conversion_supported`: whether the codec layer has a path
/// from storage type `src` to storage type `dst`.
pub fn conversion_supported(src: BufType, dst: BufType) -> (r: bool)
    ensures
        r == spec_conversion_supported(src, dst),
{
    src == dst || src == BufType::F32
}

/// Validates a requested conversion. Rejected inputs: exactly the pairs
/// for which no codec path exists.
pub fn check_conversion(src: BufType, dst: BufType) -> (r: Result<(), ErrorKind>)
    ensures
        r is Ok <==> spec_conversion_supported(src, dst),
        r is Err ==> r == Result::<(), ErrorKind>::Err(ErrorKind::UnsupportedOperation),
{
    if conversion_supported(src, dst) {
        Ok(())
    } else {
        Err(ErrorKind::UnsupportedOperation)
    }
}

impl CpuTensorBuf {
    /// Validates a dot-product pairing: the right-hand buffer must be in
    /// this buffer's designated partner format, or the request is
    /// unsupported.
    pub fn check_vec_dot_pair(&self, other: &CpuTensorBuf) -> (r: Result<(), ErrorKind>)
        ensures
            r is Ok <==> other.spec_typ() == self.spec_vec_dot_rhs_dtype(),
            r is Err ==> r == Result::<(), ErrorKind>::Err(ErrorKind::UnsupportedOperation),
    {
        if other.typ() == self.vec_dot_rhs_dtype() {
            Ok(())
        } else {
            Err(ErrorKind::UnsupportedOperation)
        }
    }
}

} // verus!

use crabml_core::backend::CpuTensorBackend;
use crabml_core::backend::CpuTensorPool;
use crabml_core::backend::TensorOpVar;
use crabml_core::buf::BufType;
use crabml_core::buf::CpuTensorBuf;
use crabml_core::buf::check_conversion;
use crabml_core::error::ErrorKind;
use crabml_core::strider::TensorStrider;

#[test]
fn test_cpu_backend() {}

fn f32_buf(values: &[f32]) -> CpuTensorBuf {
    CpuTensorBuf::F32(values.iter().map(|v| v.to_bits()).collect())
}

fn op_var(buf_id: usize, shape: Vec<usize>) -> TensorOpVar {
    TensorOpVar { buf_id, strider: TensorStrider::new(shape).unwrap() }
}

#[test]
fn test_backend_import_get_take() {
    let mut backend = CpuTensorBackend::new();
    let id = backend.import_buf(f32_buf(&[1.0, 2.0, 3.0, 4.0])).unwrap();
    assert_eq!(id, 0);

    let t = backend.get_tensor(&op_var(0, vec![2, 2])).unwrap();
    assert_eq!(t.strider().shape(), &vec![2, 2]);
    assert_eq!(t.buf().len(), 4);
    assert!(backend.take(&op_var(0, vec![4])).is_ok());

    // unknown id and oversized view are rejected before anything happens
    assert_eq!(backend.get_tensor(&op_var(1, vec![4])).unwrap_err(), ErrorKind::NotFound);
    assert_eq!(
        backend.get_tensor(&op_var(0, vec![5])).unwrap_err(),
        ErrorKind::InvalidArgument
    );
}

#[test]
fn test_backend_check_binary_inplace() {
    let mut backend = CpuTensorBackend::new();
    backend.import_buf(f32_buf(&[1.0, 2.0, 3.0, 4.0])).unwrap();
    backend.import_buf(f32_buf(&[5.0, 6.0, 7.0, 8.0])).unwrap();
    assert!(backend.check_binary_inplace(&op_var(0, vec![4]), &op_var(1, vec![4])).is_ok());
    assert_eq!(
        backend
            .check_binary_inplace(&op_var(0, vec![4]), &op_var(1, vec![2]))
            .unwrap_err(),
        ErrorKind::InvalidArgument
    );
    assert_eq!(
        backend
            .check_binary_inplace(&op_var(0, vec![4]), &op_var(2, vec![4]))
            .unwrap_err(),
        ErrorKind::NotFound
    );
}

#[test]
fn test_backend_export() {
    let values = [1.5f32, -2.25, 0.0];
    let mut backend = CpuTensorBackend::new();
    backend.import_buf(f32_buf(&values)).unwrap();
    let mut dst: Vec<u32> = vec![0; 3];
    backend.export_buf(0, &mut dst).unwrap();
    let exported: Vec<f32> = dst.iter().map(|&b| f32::from_bits(b)).collect();
    assert_eq!(exported, values.to_vec());
}

#[test]
fn test_backend_export_rejections() {
    // unknown id
    let backend = CpuTensorBackend::new();
    let mut dst: Vec<u32> = vec![0; 1];
    assert_eq!(backend.export_buf(0, &mut dst).unwrap_err(), ErrorKind::InvalidArgument);

    // length mismatch
    let mut backend = CpuTensorBackend::new();
    backend.import_buf(f32_buf(&[1.0, 2.0])).unwrap();
    let mut short: Vec<u32> = vec![0; 1];
    assert_eq!(backend.export_buf(0, &mut short).unwrap_err(), ErrorKind::InvalidArgument);

    // only plain float buffers can be exported
    let mut backend = CpuTensorBackend::new();
    backend.import_buf(CpuTensorBuf::F16(vec![0u16; 2])).unwrap();
    let mut dst2: Vec<u32> = vec![0; 2];
    assert_eq!(backend.export_buf(0, &mut dst2).unwrap_err(), ErrorKind::InvalidArgument);
}

#[test]
fn test_pool_checkout_discipline() {
    let mut pool = CpuTensorPool::new();
    let id = pool.import(f32_buf(&[1.0, 2.0, 3.0, 4.0]));
    assert_eq!(id, 0);

    // unknown ids were never assigned
    assert_eq!(pool.load(&op_var(7, vec![4])).unwrap_err(), ErrorKind::NotFound);

    let handle = pool.load(&op_var(0, vec![2, 2])).unwrap();
    assert_eq!(handle.buf_id(), 0);
    assert_eq!(handle.buf().len(), 4);

    // a second checkout of the same id fails while the handle is out
    assert_eq!(pool.load(&op_var(0, vec![4])).unwrap_err(), ErrorKind::AlreadyCheckedOut);

    // returning the handle makes the id available again with the same contents
    pool.unload(handle);
    let again = pool.load(&op_var(0, vec![4])).unwrap();
    match again.buf() {
        CpuTensorBuf::F32(bits) => {
            let values: Vec<f32> = bits.iter().map(|&b| f32::from_bits(b)).collect();
            assert_eq!(values, vec![1.0, 2.0, 3.0, 4.0]);
        }
        _ => panic!("stored format changed across checkout"),
    }
}

#[test]
fn test_pool_rejects_oversized_view() {
    let mut pool = CpuTensorPool::new();
    pool.import(f32_buf(&[1.0, 2.0]));
    assert_eq!(pool.load(&op_var(0, vec![3])).unwrap_err(), ErrorKind::InvalidArgument);
    // the failed checkout left the buffer available
    assert!(pool.load(&op_var(0, vec![2])).is_ok());
}

#[test]
fn test_buf_types_and_pairing() {
    let b = f32_buf(&[1.0]);
    assert_eq!(b.typ(), BufType::F32);
    assert_eq!(b.vec_dot_rhs_dtype(), BufType::F32);
    assert!(b.as_f32_bits().is_ok());
    assert!(!b.is_empty());

    let h = CpuTensorBuf::F16(vec![]);
    assert_eq!(h.typ(), BufType::F16);
    assert!(h.is_empty());
    assert_eq!(h.as_f32_bits().unwrap_err(), ErrorKind::InvalidArgument);

    // the 6-bit hierarchical format pairs with the 8-bit partner format
    assert!(check_conversion(BufType::F32, BufType::Q6K).is_ok());
    assert!(check_conversion(BufType::F16, BufType::F16).is_ok());
    assert_eq!(
        check_conversion(BufType::Q6K, BufType::Q8_1).unwrap_err(),
        ErrorKind::UnsupportedOperation
    );
    assert_eq!(
        h.check_vec_dot_pair(&f32_buf(&[1.0])).unwrap_err(),
        ErrorKind::UnsupportedOperation
    );
    assert!(h.check_vec_dot_pair(&CpuTensorBuf::F16(vec![0])).is_ok());
}

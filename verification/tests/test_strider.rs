use crabml_core::error::ErrorKind;
use crabml_core::gemv::GemvPlan;
use crabml_core::gemv::gemv_check;
use crabml_core::strider::TensorStrider;

#[test]
fn test_strider_row_major() {
    let s = TensorStrider::new(vec![2, 3, 4]).unwrap();
    assert_eq!(s.dims(), 3);
    assert_eq!(s.shape(), &vec![2, 3, 4]);
    assert_eq!(s.strides(), &vec![12, 4, 1]);
    assert_eq!(s.len(), 24);
    assert!(s.is_contiguous());
    assert_eq!(s.span_checked(), Some(24));
}

#[test]
fn test_strider_rejects_zero_dim() {
    assert_eq!(TensorStrider::new(vec![2, 0, 4]).unwrap_err(), ErrorKind::InvalidArgument);
}

#[test]
fn test_strider_with_strides() {
    // a transposed 3x2 view over a row-major 2x3 buffer
    let s = TensorStrider::with_strides(vec![3, 2], vec![1, 3]).unwrap();
    assert!(!s.is_contiguous());
    assert_eq!(s.len(), 6);
    assert_eq!(s.span_checked(), Some(6));
    assert_eq!(
        TensorStrider::with_strides(vec![3, 2], vec![1]).unwrap_err(),
        ErrorKind::InvalidArgument
    );
}

#[test]
fn test_strider_span_of_gapped_view() {
    // 2 rows of 2 elements, rows 4 apart: touches offsets {0,1,4,5}
    let s = TensorStrider::with_strides(vec![2, 2], vec![4, 1]).unwrap();
    assert_eq!(s.span_checked(), Some(6));
}

#[test]
fn test_gemv_check_3d() {
    let a = TensorStrider::new(vec![2, 3, 4]).unwrap();
    let b = TensorStrider::new(vec![2, 4]).unwrap();
    let plan = gemv_check(&a, &b).unwrap();
    assert_eq!(
        plan,
        GemvPlan {
            a_batch: 2,
            b_batch: 2,
            m: 3,
            k: 4,
            bi_stride: 12,
            mi_stride: 4,
            ki_stride: 1,
        }
    );
    // output is shaped (batch, m)
    assert_eq!(plan.out_len_checked(), Some(6));
}

#[test]
fn test_gemv_check_2d() {
    let a = TensorStrider::new(vec![3, 4]).unwrap();
    let b = TensorStrider::new(vec![4]).unwrap();
    let plan = gemv_check(&a, &b).unwrap();
    assert_eq!(plan.m, 3);
    assert_eq!(plan.k, 4);
    assert_eq!(plan.a_batch, 1);
    assert_eq!(plan.out_len_checked(), Some(3));
}

#[test]
fn test_gemv_check_rejections() {
    let a = TensorStrider::new(vec![2, 3, 4]).unwrap();
    // mismatched inner dimension
    let b_short = TensorStrider::new(vec![2, 5]).unwrap();
    assert_eq!(gemv_check(&a, &b_short).unwrap_err(), ErrorKind::InvalidArgument);
    // B must be contiguous
    let b_strided = TensorStrider::with_strides(vec![2, 4], vec![1, 2]).unwrap();
    assert_eq!(gemv_check(&a, &b_strided).unwrap_err(), ErrorKind::InvalidArgument);
    // B must have rank one less than A
    let b_deep = TensorStrider::new(vec![2, 3, 4]).unwrap();
    assert_eq!(gemv_check(&a, &b_deep).unwrap_err(), ErrorKind::InvalidArgument);
    // A must be rank 2 or 3
    let a_flat = TensorStrider::new(vec![4]).unwrap();
    let b_scalarish = TensorStrider::new(vec![4]).unwrap();
    assert_eq!(gemv_check(&a_flat, &b_scalarish).unwrap_err(), ErrorKind::InvalidArgument);
}

#[test]
fn test_gemv_row_offsets_broadcast() {
    // A batched (2, 3, 4), B batched (2, 4): each output element i reads
    // the row at ((i/m) % a_batch) * bi_stride + (i%m) * mi_stride
    let plan = GemvPlan {
        a_batch: 2,
        b_batch: 2,
        m: 3,
        k: 4,
        bi_stride: 12,
        mi_stride: 4,
        ki_stride: 1,
    };
    assert_eq!(plan.row_offset(0), 0);
    assert_eq!(plan.row_offset(2), 8);
    assert_eq!(plan.row_offset(3), 12);
    assert_eq!(plan.row_offset(5), 20);
    assert_eq!(plan.col_offset(1, 2), 14);

    // broadcasting: a single A batch serves every output batch
    let shared = GemvPlan { a_batch: 1, ..plan };
    assert_eq!(shared.row_offset(0), shared.row_offset(3));
    assert_eq!(shared.row_offset(2), shared.row_offset(5));
}

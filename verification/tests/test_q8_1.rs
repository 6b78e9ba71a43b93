use crabml_core::buf_q8_1::BlockQ8_1;
use crabml_core::buf_q8_1::QuantBufQ8_1;
use crabml_core::buf_q8_1::Q8_1_BLOCK_BYTES;
use crabml_core::buf_q8_1::Q8_1_BLOCK_ELEMS;
use crabml_core::buf_q8_1::q8_1_block_dot;
use crabml_core::error::ErrorKind;
use half::f16;

fn sample_block_bytes() -> [u8; 36] {
    let mut blk = [0x1u8; 36];
    let d_bytes = f16::from_f32(3.0).to_bits().to_le_bytes();
    let s_bytes = f16::from_f32(96.0).to_bits().to_le_bytes();
    blk[0] = d_bytes[0];
    blk[1] = d_bytes[1];
    blk[2] = s_bytes[0];
    blk[3] = s_bytes[1];
    blk[4] = 2;
    blk[5] = 3;
    blk[6] = 4;
    blk[35] = 7;
    blk
}

#[test]
fn test_q8_1_block_layout() {
    assert_eq!(Q8_1_BLOCK_BYTES, 2 + 2 + 32, "wrong q8_1 block size/padding");

    let mut buf = [0u8; 72];
    buf[0..36].copy_from_slice(&sample_block_bytes());
    buf[36..72].copy_from_slice(&sample_block_bytes());

    let bf = QuantBufQ8_1::from_bytes(&buf).unwrap();
    assert_eq!(bf.blocks.len(), 2);
    assert_eq!(bf.len(), 64);
    assert!(!bf.is_empty());

    let blk = &bf.blocks[0];
    assert_eq!(f16::from_bits(blk.d).to_f32(), 3.0);
    assert_eq!(f16::from_bits(blk.s).to_f32(), 96.0);
    assert_eq!(
        blk.qs,
        vec![
            2, 3, 4, 1, 1, 1, 1, 1, 1, 1, 1, 1, 1, 1, 1, 1, 1, 1, 1, 1, 1, 1, 1, 1, 1, 1, 1, 1, 1,
            1, 1, 7
        ]
    );

    // dequantized values, scale applied per code
    let d = f16::from_bits(blk.d).to_f32();
    let dequantized: Vec<f32> = blk.qs.iter().map(|&q| q as f32 * d).collect();
    let mut expected = vec![3.0f32; 32];
    expected[0] = 6.0;
    expected[1] = 9.0;
    expected[2] = 12.0;
    expected[31] = 21.0;
    assert_eq!(dequantized, expected);
}

#[test]
fn test_q8_1_to_bytes_round_trip() {
    let mut buf = [0u8; 72];
    buf[0..36].copy_from_slice(&sample_block_bytes());
    buf[36..72].copy_from_slice(&sample_block_bytes());
    let bf = QuantBufQ8_1::from_bytes(&buf).unwrap();
    assert_eq!(bf.to_bytes(), buf.to_vec());
    assert_eq!(bf.to_bytes().len() % Q8_1_BLOCK_BYTES, 0);
}

#[test]
fn test_q8_1_from_bytes_rejects_partial_block() {
    let buf = [0u8; 40];
    assert_eq!(QuantBufQ8_1::from_bytes(&buf).unwrap_err(), ErrorKind::InvalidArgument);
}

#[test]
fn test_q8_1_block_new_rejects_wrong_code_count() {
    assert_eq!(
        BlockQ8_1::new(0, 0, vec![0i8; 31]).unwrap_err(),
        ErrorKind::InvalidArgument
    );
    let blk = BlockQ8_1::new(7, 9, vec![5i8; 32]).unwrap();
    assert_eq!(blk.d, 7);
    assert_eq!(blk.s, 9);
    assert_eq!(blk.qs.len(), Q8_1_BLOCK_ELEMS);
}

#[test]
fn test_q8_1_from_blocks() {
    let good = BlockQ8_1::new(1, 2, vec![0i8; 32]).unwrap();
    let bf = QuantBufQ8_1::from_blocks(vec![good]).unwrap();
    assert_eq!(bf.len(), 32);

    let malformed = BlockQ8_1 { d: 0, s: 0, qs: vec![0i8; 3] };
    assert_eq!(
        QuantBufQ8_1::from_blocks(vec![malformed]).unwrap_err(),
        ErrorKind::InvalidArgument
    );
}

/// The fused dot product (exact integer inner product scaled once per
/// block) agrees with a naive dot of the dequantized vectors.
#[test]
fn test_q8_1_dot_consistency() {
    let a = BlockQ8_1::new(
        f16::from_f32(0.5).to_bits(),
        0,
        (0..32).map(|i| (i * 3 - 48) as i8).collect(),
    )
    .unwrap();
    let b = BlockQ8_1::new(
        f16::from_f32(0.25).to_bits(),
        0,
        (0..32).map(|i| (40 - i * 2) as i8).collect(),
    )
    .unwrap();
    let ad = f16::from_bits(a.d).to_f32();
    let bd = f16::from_bits(b.d).to_f32();

    let mut naive = 0.0f32;
    for i in 0..32 {
        naive += (a.qs[i] as f32 * ad) * (b.qs[i] as f32 * bd);
    }
    let fused = q8_1_block_dot(&a, &b) as f32 * ad * bd;
    let rel = (fused - naive).abs() / naive.abs().max(1e-6);
    assert!(rel < 1e-5, "fused {fused} vs naive {naive}");
}

#[test]
fn test_q8_1_block_dot() {
    let a = BlockQ8_1::new(0, 0, (0..32).map(|i| i as i8).collect()).unwrap();
    let b = BlockQ8_1::new(0, 0, vec![2i8; 32]).unwrap();
    // 2 * (0 + 1 + ... + 31) = 2 * 496
    assert_eq!(q8_1_block_dot(&a, &b), 992);
    let c = BlockQ8_1::new(0, 0, vec![-128i8; 32]).unwrap();
    let d = BlockQ8_1::new(0, 0, vec![127i8; 32]).unwrap();
    assert_eq!(q8_1_block_dot(&c, &d), -128 * 127 * 32);
}

use crabml_core::buf_q6_k::BlockQ6K;
use crabml_core::buf_q6_k::QuantBufQ6K;
use crabml_core::buf_q6_k::Q6K_BLOCK_BYTES;
use crabml_core::buf_q6_k::Q6K_BLOCK_ELEMS;
use crabml_core::buf_q6_k::q6k_q8k_group_sums;
use crabml_core::buf_q8_k::BlockQ8K;
use crabml_core::buf_q8_k::QuantBufQ8K;
use crabml_core::error::ErrorKind;
use half::f16;

#[test]
fn test_q6_k_block() {
    assert_eq!(Q6K_BLOCK_BYTES, 2 + 128 + 64 + 16, "wrong q6_k block size/padding");

    let mut buf: [u8; 210] = [0x1; 210];
    let delta = f16::from_f32(3.0).to_bits().to_le_bytes();
    let min_val = f16::from_f32(1.0).to_bits().to_le_bytes();

    buf[0] = delta[0];
    buf[1] = delta[1];
    buf[2] = min_val[0];
    buf[3] = min_val[1];
    buf[4] = 2;
    buf[5] = 3;
    buf[6] = 4;
    buf[4 + 15] = 7;
    buf[208] = 10;

    let blocks = QuantBufQ6K::from_bytes(&buf[0..210]).unwrap().blocks;
    assert_eq!(f16::from_bits(blocks[0].d).to_f32(), 1.5854836e-5);
    assert_eq!(blocks[0].ql[0..16], [0, 66, 0, 60, 2, 3, 4, 1, 1, 1, 1, 1, 1, 1, 1, 1]);
    assert_eq!(blocks[0].qh[48..64], [1, 1, 1, 1, 1, 1, 1, 1, 1, 1, 1, 1, 1, 1, 1, 1]);
}

#[test]
fn test_q6_k_to_bytes_round_trip() {
    let mut buf = vec![0u8; 420];
    for (i, b) in buf.iter_mut().enumerate() {
        *b = (i % 251) as u8;
    }
    let parsed = QuantBufQ6K::from_bytes(&buf).unwrap();
    assert_eq!(parsed.blocks.len(), 2);
    assert_eq!(parsed.len(), 2 * Q6K_BLOCK_ELEMS);
    assert_eq!(parsed.to_bytes(), buf);
    assert_eq!(parsed.to_bytes().len() % Q6K_BLOCK_BYTES, 0);
}

#[test]
fn test_q6_k_from_bytes_rejects_partial_block() {
    let buf: [u8; 200] = [0; 200];
    assert_eq!(QuantBufQ6K::from_bytes(&buf).unwrap_err(), ErrorKind::InvalidArgument);
}

#[test]
fn test_q6_k_pack_unpack_round_trip() {
    // every 6-bit code value appears several times across the block
    let codes: Vec<u8> = (0..256u32).map(|i| (i % 64) as u8).collect();
    let scales: Vec<i8> = vec![3; 16];
    let blk = BlockQ6K::from_codes(&codes, scales, 0x1234).unwrap();
    assert_eq!(blk.d, 0x1234);
    assert_eq!(blk.scales, vec![3i8; 16]);
    for i in 0..Q6K_BLOCK_ELEMS {
        assert_eq!(blk.code(i), codes[i]);
    }
    let centered = blk.codes();
    for i in 0..Q6K_BLOCK_ELEMS {
        assert_eq!(centered[i] as i32, codes[i] as i32 - 32);
    }
}

#[test]
fn test_q6_k_from_codes_rejects_wide_code() {
    let mut codes: Vec<u8> = vec![0; 256];
    codes[100] = 64;
    let r = BlockQ6K::from_codes(&codes, vec![0; 16], 0);
    assert_eq!(r.unwrap_err(), ErrorKind::InvalidArgument);
    let r2 = BlockQ6K::from_codes(&vec![0u8; 255], vec![0; 16], 0);
    assert_eq!(r2.unwrap_err(), ErrorKind::InvalidArgument);
}

#[test]
fn test_q8_k_block_sums() {
    let qs: Vec<i8> = (0..256u32).map(|i| (i % 16) as i8).collect();
    let blk = BlockQ8K::new(0, qs).unwrap();
    // every 16-element sub-block holds 0..=15, which sums to 120
    assert_eq!(blk.bsums, vec![120i16; 16]);
    let buf = QuantBufQ8K::from_blocks(vec![blk]).unwrap();
    assert_eq!(buf.len(), 256);
    assert!(!buf.is_empty());

    // a block whose recorded sums disagree with its codes is rejected
    let mut bad = BlockQ8K::new(0, vec![1i8; 256]).unwrap();
    bad.bsums[3] = 0;
    assert_eq!(
        QuantBufQ8K::from_blocks(vec![bad]).unwrap_err(),
        ErrorKind::InvalidArgument
    );
}

#[test]
fn test_q6_k_scale_index_layout() {
    // first half: groups of 32 elements step the scale index by 2,
    // sub-groups of 16 by 1; the second half starts at index 8
    assert_eq!(BlockQ6K::scale_index(0), 0);
    assert_eq!(BlockQ6K::scale_index(15), 0);
    assert_eq!(BlockQ6K::scale_index(16), 1);
    assert_eq!(BlockQ6K::scale_index(32), 2);
    assert_eq!(BlockQ6K::scale_index(96), 6);
    assert_eq!(BlockQ6K::scale_index(127), 7);
    assert_eq!(BlockQ6K::scale_index(128), 8);
    assert_eq!(BlockQ6K::scale_index(255), 15);
}

/// An 8-element-wide ramp repeated across a 256-element chunk, packed at
/// full sub-block scale resolution, dequantizes to the input exactly.
#[test]
fn test_q6_k_exact_ramp_round_trip() {
    let data: Vec<f32> = (0..256).map(|i| (i % 16) as f32 - 8.0).collect();
    // with super-block scale -1/512 and sub-block scale code -128 the
    // quantization step is exactly 1/4, so codes are 4*v + 32
    let d_bits = f16::from_f32(-0.001953125).to_bits();
    let scales: Vec<i8> = vec![-128; 16];
    let codes: Vec<u8> = data.iter().map(|v| (4.0 * v + 32.0) as u8).collect();
    let blk = BlockQ6K::from_codes(&codes, scales, d_bits).unwrap();

    let delta = f16::from_bits(blk.d).to_f32();
    let centered = blk.codes();
    let mut dequantized = [0.0f32; 256];
    for i in 0..256 {
        let scale = blk.scales[BlockQ6K::scale_index(i)] as f32;
        dequantized[i] = delta * scale * centered[i] as f32;
    }
    assert_eq!(dequantized[0..128], data[0..128]);
    assert_eq!(dequantized[128..256], data[128..256]);
}

/// The fused block dot product (sub-block scales applied once per
/// sub-block over the exact integer sums) agrees with a naive dot of the
/// dequantized vectors within a small relative tolerance.
#[test]
fn test_q6_k_q8_k_dot_consistency() {
    let codes: Vec<u8> = (0..256u32).map(|i| ((i * 7 + 3) % 64) as u8).collect();
    let scales: Vec<i8> = (0..16).map(|j| (j as i8) - 8).collect();
    let d = f16::from_f32(0.5).to_bits();
    let blk = BlockQ6K::from_codes(&codes, scales, d).unwrap();

    let b_qs: Vec<i8> = (0..256u32).map(|i| ((i * 5) % 200) as i8).collect();
    let bd = 0.25f32;

    // naive: dequantize both sides, then a plain float dot product
    let delta = f16::from_bits(blk.d).to_f32();
    let centered = blk.codes();
    let mut naive = 0.0f32;
    for i in 0..256 {
        let a_val = delta * blk.scales[BlockQ6K::scale_index(i)] as f32 * centered[i] as f32;
        let b_val = bd * b_qs[i] as f32;
        naive += a_val * b_val;
    }

    // fused: exact integer sums per sub-block, scales applied once each
    let sums = q6k_q8k_group_sums(&blk, &b_qs);
    let mut fused = 0.0f32;
    for j in 0..16 {
        fused += blk.scales[j] as f32 * sums[j] as f32;
    }
    fused *= delta * bd;

    let rel = (fused - naive).abs() / naive.abs().max(1e-6);
    assert!(rel < 1e-2, "fused {fused} vs naive {naive}");
}

#[test]
fn test_q6_k_q8_k_group_sums() {
    // block with all centered codes equal to 1 (raw code 33)
    let codes: Vec<u8> = vec![33; 256];
    let blk = BlockQ6K::from_codes(&codes, vec![0; 16], 0).unwrap();
    // partner codes 0,1,2,... within each 16-element sub-block
    let b_qs: Vec<i8> = (0..256u32).map(|i| (i % 16) as i8).collect();
    let sums = q6k_q8k_group_sums(&blk, &b_qs);
    assert_eq!(sums.len(), 16);
    for j in 0..16 {
        // sum of 0..=15, each multiplied by centered code 1
        assert_eq!(sums[j], 120);
    }
}

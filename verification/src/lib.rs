//! CPU-resident tensor compute backend for quantized inference: block
//! codecs for compact binary storage formats, typed buffers, strided
//! views, a buffer pool with exclusive checkout, the shape and index
//! logic of the batched matrix-vector kernels, and the token
//! encode/decode capability with its UTF-8 repair buffer.
pub mod backend;
pub mod buf;
pub mod buf_q6_k;
pub mod buf_q8_1;
pub mod buf_q8_k;
pub mod error;
pub mod gemv;
pub mod strider;
pub mod tokenizer;

//! Elementwise array arithmetic with lazy, fused evaluation and buffer reuse.
pub mod applicator;
pub mod array;
pub mod binding;
pub mod dimension;
pub mod error;
pub mod expr;
pub mod kernel;
pub mod laws;
pub mod scalar;
pub mod shape;
pub mod storage;
pub mod types;

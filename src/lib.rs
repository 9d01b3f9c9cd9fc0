//! Tensor storage with a pluggable allocator, and an image resampling engine (resize
//! and affine warp with bilinear or nearest interpolation) built on it.

pub mod allocator;
pub mod image;
pub mod interpolation;
pub mod resize;
pub mod serialization;
pub mod storage;
pub mod tensor;
pub mod warp;

//! Low-level support kernels for a columnar array compute layer.
//!
//! The crate provides the bit- and index-level mechanics that higher-level
//! compute kernels depend on:
//!
//! - combining the optional validity (null) bitmaps of two arrays with a
//!   bitwise operator, respecting byte-aligned slicing offsets;
//! - re-deriving value indices and offsets when gathering elements out of a
//!   variable-length list array;
//! - building per-lane validity masks for fixed-width lane groups, and
//!   loading lane groups with invalid lanes replaced by a fill value.

pub mod array_data;
pub mod bit_util;
pub mod bitmap;
pub mod bitmap_combine;
pub mod buffer_ops;
pub mod error;
pub mod list_gather;
pub mod primitive_array;
pub mod simd_mask;

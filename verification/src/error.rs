//! The error reported by the kernels in this crate.

use vstd::prelude::*;

verus! {

/// The one recoverable error the kernels report: a validity bitmap whose bit
/// offset is not byte-aligned was handed to a bitmap combination.
#[derive(Clone, Copy, Debug, PartialEq, Eq, Structural)]
pub enum ArrowError {
    ComputeError,
}

} // verus!

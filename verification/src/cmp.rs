//! Comparison interface shared by the scene types.

use vstd::prelude::*;

verus! {

/// Comparison used throughout the renderer in place of `==`: the scalar
/// types of the embedding renderer compare within a small tolerance, while
/// exact types coincide with equality. Implementations on exact data must
/// make `apx_eq` agree with `==`.
pub trait ApproxEq {
    /// Compares two values for approximate equality.
    fn apx_eq(&self, other: &Self) -> bool;
}

} // verus!

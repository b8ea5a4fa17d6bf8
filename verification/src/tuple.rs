//! The point/vector tag of homogeneous tuples.
//!
//! A tuple `(x, y, z, w)` is a position when `w == 1` and a direction when
//! `w == 0`. Addition and subtraction of tuples add and subtract the `w`
//! components as well, and a combination is geometrically meaningful exactly
//! when the resulting `w` is again 0 or 1: point + vector and vector +
//! vector are allowed, point + point is not; point - point yields a vector,
//! vector - point is not allowed. This module carries that tag algebra; the
//! coordinate arithmetic itself lives with the embedding renderer.

use crate::cmp::ApproxEq;
use vstd::prelude::*;

verus! {

/// Which kind of homogeneous tuple a value is.
#[derive(Debug, PartialEq, Eq, Structural, Clone, Copy)]
pub enum TuplType {
    /// A position; homogeneous coordinate `w == 1`.
    Point,
    /// A direction; homogeneous coordinate `w == 0`.
    Vector,
}

/// The homogeneous `w` coordinate that the tag stands for.
pub open spec fn w_of(t: TuplType) -> int {
    match t {
        TuplType::Point => 1,
        TuplType::Vector => 0,
    }
}

impl TuplType {
    /// The homogeneous `w` coordinate: 1 for a point, 0 for a vector.
    pub fn w(&self) -> (w: i8)
        ensures
            w as int == w_of(*self),
    {
        match self {
            TuplType::Point => 1,
            TuplType::Vector => 0,
        }
    }

    /// The tag of the sum of two tuples: defined exactly when the `w`
    /// coordinates sum to 0 or 1, so adding two points is rejected.
    pub fn add(self, rhs: TuplType) -> (r: Option<TuplType>)
        ensures
            r is Some <==> w_of(self) + w_of(rhs) <= 1,
            forall|t: TuplType| r == Some(t) ==> w_of(t) == w_of(self) + w_of(rhs),
    {
        match (self, rhs) {
            (TuplType::Point, TuplType::Point) => None,
            (TuplType::Point, TuplType::Vector) => Some(TuplType::Point),
            (TuplType::Vector, TuplType::Point) => Some(TuplType::Point),
            (TuplType::Vector, TuplType::Vector) => Some(TuplType::Vector),
        }
    }

    /// The tag of the difference of two tuples: defined exactly when the
    /// `w` coordinates subtract to 0 or 1, so vector - point is rejected.
    pub fn sub(self, rhs: TuplType) -> (r: Option<TuplType>)
        ensures
            r is Some <==> w_of(self) - w_of(rhs) >= 0,
            forall|t: TuplType| r == Some(t) ==> w_of(t) == w_of(self) - w_of(rhs),
    {
        match (self, rhs) {
            (TuplType::Point, TuplType::Point) => Some(TuplType::Vector),
            (TuplType::Point, TuplType::Vector) => Some(TuplType::Point),
            (TuplType::Vector, TuplType::Point) => None,
            (TuplType::Vector, TuplType::Vector) => Some(TuplType::Vector),
        }
    }
}

impl ApproxEq for TuplType {
    /// On an exact tag, approximate equality is equality.
    fn apx_eq(&self, other: &Self) -> (r: bool)
        ensures
            r == (self == other),
    {
        match (self, other) {
            (TuplType::Point, TuplType::Point) => true,
            (TuplType::Vector, TuplType::Vector) => true,
            _ => false,
        }
    }
}

} // verus!

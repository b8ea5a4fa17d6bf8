//! Canonical unit shapes.
//!
//! Every shape kernel of the renderer works on a canonical primitive at the
//! origin: the unit sphere, the x-z plane and the axis-aligned unit cube.
//! The primitives carry no state of their own; a placed object pairs one of
//! them with a transformation and a material in the embedding renderer.

use vstd::prelude::*;

verus! {

/// The unit sphere: radius 1, centred at the origin.
#[derive(Debug, PartialEq, Eq, Structural, Clone, Copy)]
pub struct Sphere {}

/// The unit plane: the x-z plane `y = 0`, infinite in x and z.
#[derive(Debug, PartialEq, Eq, Structural, Clone, Copy)]
pub struct Plane {}

/// The unit cube: axis-aligned, corners at (-1,-1,-1) and (1,1,1).
#[derive(Debug, PartialEq, Eq, Structural, Clone, Copy)]
pub struct Cube {}

/// Sphere at the origin of radius 1.
pub fn sphere() -> (s: Sphere)
    ensures
        s == (Sphere {}),
{
    Sphere {}
}

impl Sphere {
    /// The unit sphere; all spheres are the same canonical primitive.
    pub fn new() -> (s: Self)
        ensures
            s == (Sphere {}),
    {
        Sphere {}
    }
}

impl Default for Sphere {
    fn default() -> (s: Self)
        ensures
            s == (Sphere {}),
    {
        Sphere {}
    }
}

} // verus!

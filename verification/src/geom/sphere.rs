//! The unit sphere centred on the origin of its own object space.

use vstd::prelude::*;

verus! {

/// A unit sphere at the origin. It has no parameters of its own: size and
/// placement come from the transform of the shape that carries it.
#[derive(Clone, Copy, Debug, PartialEq, Eq, Structural)]
pub struct Sphere {}

impl Sphere {
    /// The unit sphere.
    pub fn new() -> (s: Sphere)
        ensures
            s == (Sphere {}),
    {
        Sphere {}
    }
}

} // verus!

//! The parametric line along which light is followed.

use crate::vector::Vector3;
use vstd::prelude::*;

verus! {

/// A ray: the points `origin + t * direction`. The direction need not have
/// unit length; whoever needs a unit vector normalises at the point of use.
#[derive(Clone, Copy, Debug, PartialEq, Eq, Structural)]
pub struct Ray {
    pub origin: Vector3,
    pub direction: Vector3,
}

impl Ray {
    /// The ray that starts at `origin` and runs along `direction`.
    pub fn new(origin: Vector3, direction: Vector3) -> (ray: Self)
        ensures
            ray.origin == origin,
            ray.direction == direction,
    {
        Self { origin, direction }
    }
}

} // verus!

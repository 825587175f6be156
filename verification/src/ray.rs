use crate::vec3::Vec3;
use vstd::prelude::*;

verus! {

/// A ray: an origin and a direction.
#[derive(Clone, Copy, Debug, PartialEq, Eq, Structural)]
pub struct Ray {
    pub origin: Vec3,
    pub direction: Vec3,
}

impl Ray {
    pub fn new(origin: Vec3, direction: Vec3) -> (r: Ray)
        ensures
            r.origin == origin,
            r.direction == direction,
    {
        Ray { origin, direction }
    }
}

/// A ray-surface interaction: the point hit and the outward surface normal,
/// the two values the scattering model reads.
#[derive(Clone, Copy, Debug, PartialEq, Eq, Structural)]
pub struct Hit {
    pub point: Vec3,
    pub normal: Vec3,
}

impl Hit {
    pub fn new(point: Vec3, normal: Vec3) -> (r: Hit)
        ensures
            r.point == point,
            r.normal == normal,
    {
        Hit { point, normal }
    }
}

} // verus!

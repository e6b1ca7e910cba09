//! The point light.

use vstd::prelude::*;
use crate::types::pixel::MAX_COORD;

verus! {

/// A point light: position in world space and a nonnegative scalar
/// intensity.  Attenuation falls off linearly with distance.
#[derive(Clone, Copy, Debug)]
pub struct Light {
    pub x: i64,
    pub y: i64,
    pub z: i64,
    pub intensity: i64,
}

impl Light {
    /// A light the renderer accepts: bounded position, intensity between
    /// zero and the coordinate bound.
    pub open spec fn wf(self) -> bool {
        &&& -MAX_COORD <= self.x <= MAX_COORD
        &&& -MAX_COORD <= self.y <= MAX_COORD
        &&& -MAX_COORD <= self.z <= MAX_COORD
        &&& 0 <= self.intensity <= MAX_COORD
    }
}

} // verus!

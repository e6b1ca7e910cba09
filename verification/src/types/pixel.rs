//! A single point sample ("splat") of the cloud.

use vstd::prelude::*;
use crate::fixed::SCALE;

verus! {

/// Largest magnitude, in fixed-point units, that a stored coordinate, a
/// camera or light offset, a view scale or a size factor may take.
pub const MAX_COORD: i64 = 0x400_0000;

/// One colored, sized point of the cloud.  Position is in world space;
/// color channels and the alpha channel run from `0` to [`SCALE`]; the size
/// factor controls the splat footprint at unit distance.
#[derive(Clone, Copy, Debug)]
pub struct Pixel {
    pub id: u32,
    pub x: i64,
    pub y: i64,
    pub z: i64,
    pub r: i64,
    pub g: i64,
    pub b: i64,
    pub a: i64,
    pub size_factor: i64,
}

impl Pixel {
    /// A pixel the renderer accepts: bounded position, channels in range,
    /// nonnegative bounded size factor.
    pub open spec fn wf(self) -> bool {
        &&& -MAX_COORD <= self.x <= MAX_COORD
        &&& -MAX_COORD <= self.y <= MAX_COORD
        &&& -MAX_COORD <= self.z <= MAX_COORD
        &&& 0 <= self.r <= SCALE
        &&& 0 <= self.g <= SCALE
        &&& 0 <= self.b <= SCALE
        &&& 0 <= self.a <= SCALE
        &&& 0 <= self.size_factor <= MAX_COORD
    }
}

} // verus!

//! Evaluated trigonometry for one frame's orientation.

use vstd::prelude::*;
use crate::fixed::SCALE;

verus! {

/// The sines and cosines of an orientation's three Euler angles, in fixed
/// point.  The host evaluates them once per frame; the verified pipeline
/// only requires each value to lie in `[-SCALE, SCALE]`, which holds of any
/// sine or cosine.
#[derive(Clone, Copy, Debug)]
pub struct Rotation {
    pub sin_x: i64,
    pub cos_x: i64,
    pub sin_y: i64,
    pub cos_y: i64,
    pub sin_z: i64,
    pub cos_z: i64,
}

impl Rotation {
    /// Every entry lies within the range of a sine or cosine.
    pub open spec fn wf(self) -> bool {
        &&& -SCALE <= self.sin_x <= SCALE
        &&& -SCALE <= self.cos_x <= SCALE
        &&& -SCALE <= self.sin_y <= SCALE
        &&& -SCALE <= self.cos_y <= SCALE
        &&& -SCALE <= self.sin_z <= SCALE
        &&& -SCALE <= self.cos_z <= SCALE
    }

    /// The rotation by zero radians about every axis: all sines zero, all
    /// cosines one.
    pub open spec fn is_identity(self) -> bool {
        &&& self.sin_x == 0 && self.cos_x == SCALE
        &&& self.sin_y == 0 && self.cos_y == SCALE
        &&& self.sin_z == 0 && self.cos_z == SCALE
    }

    /// Construct the identity rotation.
    pub fn identity() -> (r: Rotation)
        ensures
            r.wf(),
            r.is_identity(),
    {
        Rotation {
            sin_x: 0,
            cos_x: SCALE,
            sin_y: 0,
            cos_y: SCALE,
            sin_z: 0,
            cos_z: SCALE,
        }
    }
}

/// The evaluated trigonometry a frame needs: one rotation for the object
/// orientation and one for the camera orientation.  The host evaluates the
/// camera rotation at the negated camera angles, as the pipeline's camera
/// stage expects.
#[derive(Clone, Copy, Debug)]
pub struct FrameRotations {
    pub object: Rotation,
    pub camera: Rotation,
}

impl FrameRotations {
    /// Both rotations carry sines and cosines in range.
    pub open spec fn wf(self) -> bool {
        self.object.wf() && self.camera.wf()
    }
}

} // verus!

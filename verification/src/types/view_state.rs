//! Camera and object positioning for one frame.

use vstd::prelude::*;
use crate::types::pixel::MAX_COORD;

verus! {

/// Largest magnitude an orientation angle may take, in fixed-point radians.
/// Interaction deltas saturate here; the bound is far beyond any angle a
/// session of dragging can accumulate, so saturation is unobservable.
pub const ANGLE_LIMIT: i64 = 0x100_0000_0000;

/// The per-frame view parameters: object orientation, camera orientation,
/// camera position, reference offset, field-of-view scale and near-clip
/// threshold.  Angles are radians in fixed point; the host evaluates their
/// sines and cosines into a [`crate::types::rotation::Rotation`] before a
/// frame is rendered.
#[derive(Clone, Copy, Debug)]
pub struct ViewState {
    pub angle_x: i64,
    pub angle_y: i64,
    pub angle_z: i64,
    pub c_angle_x: i64,
    pub c_angle_y: i64,
    pub c_angle_z: i64,
    pub camera_x: i64,
    pub camera_y: i64,
    pub camera_z: i64,
    pub ref_x: i64,
    pub ref_y: i64,
    pub ref_z: i64,
    pub scale: i64,
    pub z_offset: i64,
}

impl ViewState {
    /// A view the renderer accepts: every offset bounded, scale and
    /// near-clip threshold nonnegative and bounded.
    pub open spec fn wf(self) -> bool {
        &&& -ANGLE_LIMIT <= self.angle_x <= ANGLE_LIMIT
        &&& -ANGLE_LIMIT <= self.angle_y <= ANGLE_LIMIT
        &&& -ANGLE_LIMIT <= self.angle_z <= ANGLE_LIMIT
        &&& -ANGLE_LIMIT <= self.c_angle_x <= ANGLE_LIMIT
        &&& -ANGLE_LIMIT <= self.c_angle_y <= ANGLE_LIMIT
        &&& -ANGLE_LIMIT <= self.c_angle_z <= ANGLE_LIMIT
        &&& -MAX_COORD <= self.camera_x <= MAX_COORD
        &&& -MAX_COORD <= self.camera_y <= MAX_COORD
        &&& -MAX_COORD <= self.camera_z <= MAX_COORD
        &&& -MAX_COORD <= self.ref_x <= MAX_COORD
        &&& -MAX_COORD <= self.ref_y <= MAX_COORD
        &&& -MAX_COORD <= self.ref_z <= MAX_COORD
        &&& 0 <= self.scale <= MAX_COORD
        &&& 0 <= self.z_offset <= MAX_COORD
    }
}

} // verus!

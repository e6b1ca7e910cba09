//! The per-frame constants handed to the parallel compute passes.

use vstd::prelude::*;
use crate::types::light::Light;
use crate::types::view_state::ViewState;

verus! {

/// Everything a compute pass needs that is constant over one frame,
/// gathered from the view state, the light and the canvas dimensions.
/// The host serializes this for the device; building it is pure bookkeeping
/// and is verified field for field.
#[derive(Clone, Copy, Debug)]
pub struct Uniforms {
    pub angle_x: i64,
    pub angle_y: i64,
    pub angle_z: i64,
    pub c_angle_x: i64,
    pub c_angle_y: i64,
    pub c_angle_z: i64,
    pub scale: i64,
    pub canvas_width: u32,
    pub canvas_height: u32,
    pub light_x: i64,
    pub light_y: i64,
    pub light_z: i64,
    pub intensity: i64,
    pub camera_x: i64,
    pub camera_y: i64,
    pub camera_z: i64,
    pub ref_x: i64,
    pub ref_y: i64,
    pub ref_z: i64,
    pub z_offset: i64,
}

impl Uniforms {
    /// Gather the frame constants.  Every field of the result equals the
    /// corresponding source value.
    pub fn gather(view_state: &ViewState, light: &Light, canvas_width: u32, canvas_height: u32) -> (u: Uniforms)
        ensures
            u.angle_x == view_state.angle_x,
            u.angle_y == view_state.angle_y,
            u.angle_z == view_state.angle_z,
            u.c_angle_x == view_state.c_angle_x,
            u.c_angle_y == view_state.c_angle_y,
            u.c_angle_z == view_state.c_angle_z,
            u.scale == view_state.scale,
            u.canvas_width == canvas_width,
            u.canvas_height == canvas_height,
            u.light_x == light.x,
            u.light_y == light.y,
            u.light_z == light.z,
            u.intensity == light.intensity,
            u.camera_x == view_state.camera_x,
            u.camera_y == view_state.camera_y,
            u.camera_z == view_state.camera_z,
            u.ref_x == view_state.ref_x,
            u.ref_y == view_state.ref_y,
            u.ref_z == view_state.ref_z,
            u.z_offset == view_state.z_offset,
    {
        Uniforms {
            angle_x: view_state.angle_x,
            angle_y: view_state.angle_y,
            angle_z: view_state.angle_z,
            c_angle_x: view_state.c_angle_x,
            c_angle_y: view_state.c_angle_y,
            c_angle_z: view_state.c_angle_z,
            scale: view_state.scale,
            canvas_width,
            canvas_height,
            light_x: light.x,
            light_y: light.y,
            light_z: light.z,
            intensity: light.intensity,
            camera_x: view_state.camera_x,
            camera_y: view_state.camera_y,
            camera_z: view_state.camera_z,
            ref_x: view_state.ref_x,
            ref_y: view_state.ref_y,
            ref_z: view_state.ref_z,
            z_offset: view_state.z_offset,
        }
    }
}

} // verus!

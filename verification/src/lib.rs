//! Point-splat rasterization core.
//!
//! Renders an unordered set of colored, sized points ("splats") into a 2D
//! raster under a movable camera and point light.  All geometry is carried in
//! 16.16 fixed-point integers; the host converts to and from floating point at
//! the boundary and supplies evaluated sines and cosines for the frame's
//! angles.  The depth convention is uniform across the crate: a point's depth
//! is its distance in front of the camera, and a strictly smaller depth wins a
//! pixel; equal depths leave the earlier winner in place.

use vstd::prelude::*;

pub mod config;
pub mod events;
pub mod fixed;
pub mod graphics;
pub mod helpers;
pub mod renderer;
pub mod resolve;
pub mod types;

verus! {

} // verus!

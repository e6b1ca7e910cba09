//! A named group of points with its own placement.

use vstd::prelude::*;
use crate::types::pixel::Pixel;

verus! {

/// A group of points sharing an origin and orientation.
pub struct Object {
    pub id: u32,
    pub x: i64,
    pub y: i64,
    pub z: i64,
    pub angle_x: i64,
    pub angle_y: i64,
    pub angle_z: i64,
    pub pixels: Vec<Pixel>,
}

} // verus!

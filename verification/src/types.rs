//! Plain data carried through the rendering pipeline.
//!
//! Every geometric quantity is a 16.16 fixed-point scalar (see
//! [`crate::fixed`]); color channels run from `0` to [`crate::fixed::SCALE`],
//! standing for `0.0` to `1.0`.

pub mod event_callback;
pub mod light;
pub mod object;
pub mod pixel;
pub mod rotation;
pub mod uniforms;
pub mod view_state;

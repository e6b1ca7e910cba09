//! The rendering pipeline: shared math, the serial rasterizer and the
//! batched-parallel rasterizer plan.

pub mod cpu_renderer;
pub mod frame;
pub mod gpu_renderer;
pub mod operations;

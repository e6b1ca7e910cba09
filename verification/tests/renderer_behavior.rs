//! Depth resolution and whole frames on concrete point sets.

use splat_engine::fixed::SCALE;
use splat_engine::graphics::cpu_renderer::CpuRenderer;
use splat_engine::graphics::gpu_renderer::{batch_bounds, num_batches};
use splat_engine::graphics::operations::Operations;
use splat_engine::renderer::Renderer;
use splat_engine::resolve::{DEPTH_EMPTY, NO_OWNER};
use splat_engine::types::light::Light;
use splat_engine::types::pixel::Pixel;
use splat_engine::types::rotation::{FrameRotations, Rotation};
use splat_engine::types::uniforms::Uniforms;
use splat_engine::types::view_state::ViewState;

fn blank_buffers(n: usize) -> (Vec<i64>, Vec<i64>) {
    (vec![NO_OWNER; n], vec![DEPTH_EMPTY; n])
}

fn zero_view() -> ViewState {
    ViewState {
        angle_x: 0,
        angle_y: 0,
        angle_z: 0,
        c_angle_x: 0,
        c_angle_y: 0,
        c_angle_z: 0,
        camera_x: 0,
        camera_y: 0,
        camera_z: 0,
        ref_x: 0,
        ref_y: 0,
        ref_z: 0,
        scale: 0,
        z_offset: 0,
    }
}

fn identity_rotations() -> FrameRotations {
    FrameRotations { object: Rotation::identity(), camera: Rotation::identity() }
}

fn point_at_origin() -> Pixel {
    Pixel { id: 0, x: 0, y: 0, z: 0, r: SCALE, g: 0, b: 0, a: SCALE, size_factor: SCALE }
}

#[test]
fn nearest_point_wins_the_pixel_in_any_order() {
    // Three points all claim canvas pixel (10, 10); the smallest depth must
    // win whatever the submission order.
    let orders: [[usize; 3]; 6] =
        [[0, 1, 2], [0, 2, 1], [1, 0, 2], [1, 2, 0], [2, 0, 1], [2, 1, 0]];
    let depths: [i64; 3] = [1, 5, 2];
    for order in orders.iter() {
        let (mut owners, mut dbuf) = blank_buffers(400);
        for &i in order.iter() {
            Operations::draw_pixel(&mut owners, &mut dbuf, 20, 20, 10, 10, 1, depths[i], i as u32);
        }
        let pix = 10 * 20 + 10;
        assert_eq!(dbuf[pix], 1);
        assert_eq!(owners[pix], 0);
    }
}

#[test]
fn resolution_is_order_independent_without_ties() {
    // Overlapping footprints with pairwise distinct depths: both submission
    // orders leave identical depth and owner buffers.
    let claims: [(i64, i64, i64, i64, u32); 3] =
        [(1, 1, 3, 70, 0), (2, 2, 3, 50, 1), (0, 0, 2, 90, 2)];
    let (mut o1, mut d1) = blank_buffers(64);
    for &(x, y, bs, depth, idx) in claims.iter() {
        Operations::draw_pixel(&mut o1, &mut d1, 8, 8, x, y, bs, depth, idx);
    }
    let (mut o2, mut d2) = blank_buffers(64);
    for &(x, y, bs, depth, idx) in claims.iter().rev() {
        Operations::draw_pixel(&mut o2, &mut d2, 8, 8, x, y, bs, depth, idx);
    }
    assert_eq!(o1, o2);
    assert_eq!(d1, d2);
}

#[test]
fn footprints_are_clipped_at_the_canvas_edge() {
    let (mut owners, mut dbuf) = blank_buffers(16);
    // A large footprint anchored off-canvas: only in-bounds cells change.
    Operations::draw_pixel(&mut owners, &mut dbuf, 4, 4, -2, -2, 100, 7, 3);
    for p in 0..16 {
        assert_eq!(dbuf[p], 7);
        assert_eq!(owners[p], 3);
    }
    let (mut o2, mut d2) = blank_buffers(16);
    Operations::draw_pixel(&mut o2, &mut d2, 4, 4, 4, 0, 2, 7, 3);
    for p in 0..16 {
        assert_eq!(d2[p], DEPTH_EMPTY);
        assert_eq!(o2[p], NO_OWNER);
    }
}

#[test]
fn rendered_frame_has_four_bytes_per_pixel_after_resize() {
    let mut r = CpuRenderer::new(4, 4);
    r.load_pixels(vec![point_at_origin()]);
    r.resize(7, 5);
    let view = zero_view();
    let light = Light { x: 0, y: 0, z: 0, intensity: 0 };
    let fb = r.render(&view, &identity_rotations(), &light);
    assert_eq!(fb.len(), 7 * 5 * 4);
}

#[test]
fn single_point_frame_lights_the_center_pixel() {
    let mut r = CpuRenderer::new(5, 5);
    r.load_pixels(vec![point_at_origin()]);
    let view = ViewState { camera_z: 10 * SCALE, scale: 10 * SCALE, ..zero_view() };
    let light = Light { x: 0, y: 0, z: SCALE, intensity: SCALE };
    let fb = r.render(&view, &identity_rotations(), &light);
    assert_eq!(fb.len(), 100);
    let base = (2 * 5 + 2) * 4;
    assert_eq!(fb[base], 255); // alpha
    assert_eq!(fb[base + 1], 0); // blue
    assert_eq!(fb[base + 2], 0); // green
    assert_eq!(fb[base + 3], 255); // red
    // Every other pixel stays transparent black.
    for p in 0..25 {
        if p != 2 * 5 + 2 {
            for c in 0..4 {
                assert_eq!(fb[p * 4 + c], 0);
            }
        }
    }
}

#[test]
fn culled_points_leave_an_empty_frame() {
    let mut r = CpuRenderer::new(4, 4);
    r.load_pixels(vec![point_at_origin()]);
    // The near threshold exceeds the point's depth: everything is culled.
    let view = ViewState {
        camera_z: 10 * SCALE,
        scale: 10 * SCALE,
        z_offset: 11 * SCALE,
        ..zero_view()
    };
    let light = Light { x: 0, y: 0, z: SCALE, intensity: SCALE };
    let fb = r.render(&view, &identity_rotations(), &light);
    assert!(fb.iter().all(|&b| b == 0));
}

#[test]
fn loading_points_appends() {
    let mut r = CpuRenderer::new(4, 4);
    r.load_pixels(vec![point_at_origin()]);
    r.load_pixels(vec![point_at_origin(), point_at_origin()]);
    assert_eq!(r.pixels.len(), 3);
}

#[test]
fn batching_covers_the_cloud_in_order() {
    assert_eq!(num_batches(10, 4), 3);
    assert_eq!(num_batches(8, 4), 2);
    assert_eq!(num_batches(0, 4), 0);
    assert_eq!(batch_bounds(0, 10, 4), (0, 4));
    assert_eq!(batch_bounds(1, 10, 4), (4, 8));
    assert_eq!(batch_bounds(2, 10, 4), (8, 10));
}

#[test]
fn uniforms_gather_the_frame_constants() {
    let view = ViewState { camera_z: 600 * SCALE, scale: 300 * SCALE, ..zero_view() };
    let light = Light { x: 30 * SCALE, y: 0, z: 100 * SCALE, intensity: 60 * SCALE };
    let u = Uniforms::gather(&view, &light, 800, 600);
    assert_eq!(u.camera_z, 600 * SCALE);
    assert_eq!(u.scale, 300 * SCALE);
    assert_eq!(u.canvas_width, 800);
    assert_eq!(u.canvas_height, 600);
    assert_eq!(u.light_x, 30 * SCALE);
    assert_eq!(u.intensity, 60 * SCALE);
}

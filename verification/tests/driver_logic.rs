//! Input decoding, startup configuration and the generated cube cloud.

use splat_engine::config::{
    frame_sleep_ms, parse_arg, resolve_dimension, StartupArg, DEFAULT_WIDTH, FRAME_DURATION_MS,
};
use splat_engine::events::event_handler::{Button, EventHandler, InputEvent, Key};
use splat_engine::fixed::SCALE;
use splat_engine::helpers::test_helper::TestHelper;
use splat_engine::types::event_callback::EventCallback;
use splat_engine::types::light::Light;
use splat_engine::types::view_state::ViewState;

fn start_view() -> ViewState {
    ViewState {
        angle_x: 0,
        angle_y: 0,
        angle_z: 0,
        c_angle_x: 0,
        c_angle_y: 0,
        c_angle_z: 0,
        camera_x: 0,
        camera_y: 0,
        camera_z: 600 * SCALE,
        ref_x: 0,
        ref_y: 0,
        ref_z: 0,
        scale: 300 * SCALE,
        z_offset: 0,
    }
}

fn start_light() -> Light {
    Light { x: 30 * SCALE, y: 0, z: 100 * SCALE, intensity: 60 * SCALE }
}

#[test]
fn scroll_down_at_zero_intensity_stays_at_zero() {
    let mut h = EventHandler::new();
    let mut view = start_view();
    let mut light = Light { intensity: 0, ..start_light() };
    let cb = h.handle_events(&vec![InputEvent::MouseWheel(-3)], &mut view, &mut light);
    assert_eq!(cb, EventCallback::Next);
    assert_eq!(light.intensity, 0);
}

#[test]
fn scroll_moves_intensity_by_half_units() {
    let mut h = EventHandler::new();
    let mut view = start_view();
    let mut light = Light { intensity: 2 * SCALE, ..start_light() };
    h.handle_events(&vec![InputEvent::MouseWheel(1)], &mut view, &mut light);
    assert_eq!(light.intensity, 2 * SCALE + SCALE / 2);
    h.handle_events(&vec![InputEvent::MouseWheel(-5)], &mut view, &mut light);
    assert_eq!(light.intensity, 0);
}

#[test]
fn quit_and_escape_end_the_loop() {
    let mut h = EventHandler::new();
    let mut view = start_view();
    let mut light = start_light();
    assert_eq!(
        h.handle_events(&vec![InputEvent::Quit], &mut view, &mut light),
        EventCallback::Quit
    );
    assert_eq!(
        h.handle_events(&vec![InputEvent::KeyDown(Key::Escape)], &mut view, &mut light),
        EventCallback::Quit
    );
}

#[test]
fn resize_short_circuits_the_iteration() {
    let mut h = EventHandler::new();
    let mut view = start_view();
    let mut light = Light { intensity: 2 * SCALE, ..start_light() };
    let cb = h.handle_events(
        &vec![
            InputEvent::MouseWheel(1),
            InputEvent::WindowResized(640, 480),
            InputEvent::MouseWheel(1),
        ],
        &mut view,
        &mut light,
    );
    assert_eq!(cb, EventCallback::Resized(640, 480));
    // Only the wheel event before the resize was applied.
    assert_eq!(light.intensity, 2 * SCALE + SCALE / 2);
}

#[test]
fn left_drag_turns_the_object() {
    let mut h = EventHandler::new();
    let mut view = start_view();
    let mut light = start_light();
    let cb = h.handle_events(
        &vec![
            InputEvent::MouseDown(Button::Left, 0, 0),
            InputEvent::MouseMotion(100, 50),
        ],
        &mut view,
        &mut light,
    );
    assert_eq!(cb, EventCallback::Next);
    // A hundredth of a radian per pixel dragged.
    assert_eq!(view.angle_y, SCALE);
    assert_eq!(view.angle_x, SCALE / 2);
}

#[test]
fn right_drag_moves_the_light() {
    let mut h = EventHandler::new();
    let mut view = start_view();
    let mut light = start_light();
    h.handle_events(
        &vec![
            InputEvent::MouseDown(Button::Right, 10, 10),
            InputEvent::MouseMotion(14, 16),
        ],
        &mut view,
        &mut light,
    );
    // Half a unit per pixel: +2 in x, -3 in y.
    assert_eq!(light.x, 30 * SCALE + 2 * SCALE);
    assert_eq!(light.y, -3 * SCALE);
}

#[test]
fn released_drag_stops_moving() {
    let mut h = EventHandler::new();
    let mut view = start_view();
    let mut light = start_light();
    h.handle_events(
        &vec![
            InputEvent::MouseDown(Button::Left, 0, 0),
            InputEvent::MouseUp(Button::Left),
            InputEvent::MouseMotion(100, 50),
        ],
        &mut view,
        &mut light,
    );
    assert_eq!(view.angle_x, 0);
    assert_eq!(view.angle_y, 0);
}

#[test]
fn held_keys_move_camera_and_reference() {
    let mut h = EventHandler::new();
    let mut view = start_view();
    let mut light = start_light();
    h.handle_events(&vec![InputEvent::KeyDown(Key::W)], &mut view, &mut light);
    assert_eq!(view.camera_z, 600 * SCALE - 2 * SCALE);
    // The key stays held across iterations until released.
    h.handle_events(&vec![], &mut view, &mut light);
    assert_eq!(view.camera_z, 600 * SCALE - 4 * SCALE);
    h.handle_events(&vec![InputEvent::KeyUp(Key::W)], &mut view, &mut light);
    assert_eq!(view.camera_z, 600 * SCALE - 4 * SCALE);
    h.handle_events(&vec![InputEvent::KeyDown(Key::Left)], &mut view, &mut light);
    assert_eq!(view.ref_x, -2 * SCALE);
}

#[test]
fn arguments_parse_exactly() {
    assert_eq!(parse_arg(&b"gpu".to_vec()), StartupArg::Gpu);
    assert_eq!(parse_arg(&b"cpu".to_vec()), StartupArg::Cpu);
    assert_eq!(parse_arg(&b"framerate".to_vec()), StartupArg::Framerate);
    assert_eq!(parse_arg(&b"fullscreen".to_vec()), StartupArg::Fullscreen);
    assert_eq!(parse_arg(&b"w=800".to_vec()), StartupArg::Width(800));
    assert_eq!(parse_arg(&b"h=600".to_vec()), StartupArg::Height(600));
    assert_eq!(parse_arg(&b"w=0000800".to_vec()), StartupArg::Width(800));
    assert_eq!(parse_arg(&b"w=4294967295".to_vec()), StartupArg::Width(u32::MAX));
    assert_eq!(parse_arg(&b"w=4294967296".to_vec()), StartupArg::Invalid);
    assert_eq!(parse_arg(&b"w=".to_vec()), StartupArg::Invalid);
    assert_eq!(parse_arg(&b"w=12a".to_vec()), StartupArg::Invalid);
    assert_eq!(parse_arg(&b"bogus".to_vec()), StartupArg::Invalid);
    assert_eq!(parse_arg(&b"".to_vec()), StartupArg::Invalid);
}

#[test]
fn dimensions_resolve_from_request_then_display_then_default() {
    assert_eq!(resolve_dimension(Some(1024), false, 1920, DEFAULT_WIDTH), 1024);
    assert_eq!(resolve_dimension(None, true, 1920, DEFAULT_WIDTH), 1920);
    assert_eq!(resolve_dimension(None, false, 1920, DEFAULT_WIDTH), DEFAULT_WIDTH);
}

#[test]
fn frame_pacing_sleeps_the_remainder() {
    assert_eq!(frame_sleep_ms(10, FRAME_DURATION_MS), FRAME_DURATION_MS - 10);
    assert_eq!(frame_sleep_ms(FRAME_DURATION_MS, FRAME_DURATION_MS), 0);
    assert_eq!(frame_sleep_ms(100, FRAME_DURATION_MS), 0);
}

#[test]
fn cube_cloud_keeps_only_face_cells() {
    let (pixels, count) = TestHelper::generate_cube_pixels(8, 4 * SCALE);
    assert_eq!(count, 8);
    assert_eq!(pixels.len(), 8);
    let first = pixels[0];
    assert_eq!((first.x, first.y, first.z), (-SCALE, -SCALE, -SCALE));
    assert_eq!((first.r, first.g, first.b, first.a), (SCALE, 0, 0, SCALE));
    assert_eq!(first.size_factor, 2 * SCALE);
    let last = pixels[7];
    assert_eq!((last.x, last.y, last.z), (SCALE, SCALE, SCALE));
    assert_eq!((last.r, last.g, last.b), (SCALE, SCALE, 0));

    let (inner, count27) = TestHelper::generate_cube_pixels(27, 4 * SCALE);
    assert_eq!(count27, 26);
    assert_eq!(inner.len(), 26);

    let (none, zero) = TestHelper::generate_cube_pixels(0, 4 * SCALE);
    assert_eq!(zero, 0);
    assert!(none.is_empty());
}

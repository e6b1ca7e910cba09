//! The scalar and per-point operations on concrete values.

use splat_engine::fixed::{fx_ceil, fx_div, fx_mul, icbrt, isqrt, sat_add, tdiv_i64, trem_i64, SCALE};
use splat_engine::graphics::operations::Operations;
use splat_engine::types::rotation::Rotation;

fn identity() -> Rotation {
    Rotation::identity()
}

#[test]
fn fixed_point_products_truncate_toward_zero() {
    assert_eq!(fx_mul(SCALE, SCALE), SCALE);
    assert_eq!(fx_mul(3, -SCALE), -3);
    assert_eq!(fx_mul(-1, 3), 0);
    assert_eq!(fx_mul(2 * SCALE, 3 * SCALE), 6 * SCALE);
}

#[test]
fn fixed_point_division_and_ceiling() {
    assert_eq!(fx_div(1, 3), 21845);
    assert_eq!(fx_div(SCALE, SCALE), SCALE);
    assert_eq!(fx_ceil(0), 0);
    assert_eq!(fx_ceil(1), 1);
    assert_eq!(fx_ceil(SCALE), 1);
    assert_eq!(fx_ceil(SCALE + 1), 2);
}

#[test]
fn truncating_division_and_remainder() {
    assert_eq!(tdiv_i64(-7, 2), -3);
    assert_eq!(tdiv_i64(7, 2), 3);
    assert_eq!(trem_i64(-7, 3), -1);
    assert_eq!(trem_i64(7, 3), 1);
}

#[test]
fn saturating_add_clamps() {
    assert_eq!(sat_add(5, 10, 0, 12), 12);
    assert_eq!(sat_add(5, -10, 0, 12), 0);
    assert_eq!(sat_add(5, 3, 0, 12), 8);
}

#[test]
fn integer_roots() {
    assert_eq!(isqrt(16), 4);
    assert_eq!(isqrt(15), 3);
    assert_eq!(isqrt(0), 0);
    assert_eq!(icbrt(27), 3);
    assert_eq!(icbrt(26), 2);
    assert_eq!(icbrt(0), 0);
}

#[test]
fn rotate_by_zero_angles_is_identity() {
    let v = (SCALE, 2 * SCALE, 3 * SCALE);
    let r = Operations::rotate(v, &identity());
    assert_eq!(r, v);
    let w = (-5 * SCALE, 7, -1);
    assert_eq!(Operations::rotate(w, &identity()), w);
}

#[test]
fn rotate_quarter_turn_about_z_preserves_length() {
    let rot = Rotation { sin_z: SCALE, cos_z: 0, ..identity() };
    let v = (SCALE, 0, 0);
    let r = Operations::rotate(v, &rot);
    assert_eq!(r, (0, SCALE, 0));
}

#[test]
fn rotate_quarter_turn_about_x() {
    let rot = Rotation { sin_x: SCALE, cos_x: 0, ..identity() };
    let v = (0, SCALE, 0);
    let r = Operations::rotate(v, &rot);
    assert_eq!(r, (0, 0, SCALE));
}

#[test]
fn projection_centers_the_camera_axis() {
    let r = Operations::project((0, 0, 5 * SCALE), 12345, 800, 600);
    assert_eq!(r, (400, 300));
    let r2 = Operations::project((0, 0, -3), SCALE, 801, 601);
    assert_eq!(r2, (400, 300));
}

#[test]
fn projection_scales_and_inverts_y() {
    let half = SCALE / 2;
    let r = Operations::project((2 * SCALE, 3 * SCALE, 0), half, 800, 600);
    assert_eq!(r, (401, 299));
}

#[test]
fn lighting_at_zero_intensity_is_black() {
    let lit = Operations::apply_lighting(
        (0, 0, 0),
        (SCALE, SCALE / 2, 123),
        (7 * SCALE, -3 * SCALE, SCALE),
        0,
    );
    assert_eq!(lit, (0, 0, 0));
}

#[test]
fn lighting_attenuates_linearly() {
    // Light one world unit away, at double intensity: channels double,
    // clamped at full.
    let lit = Operations::apply_lighting((0, 0, 0), (16384, SCALE, 0), (SCALE, 0, 0), 2 * SCALE);
    assert_eq!(lit, (32768, SCALE, 0));
}

#[test]
fn lighting_is_non_increasing_in_distance() {
    let near = Operations::apply_lighting((0, 0, 0), (16384, SCALE, 0), (SCALE, 0, 0), 2 * SCALE);
    let far = Operations::apply_lighting(
        (0, 0, 0),
        (16384, SCALE, 0),
        (2 * SCALE, 0, 0),
        2 * SCALE,
    );
    assert!(far.0 <= near.0);
    assert!(far.1 <= near.1);
    assert!(far.2 <= near.2);
    assert_eq!(far, (16384, SCALE, 0));
}

#[test]
fn lighting_guards_the_zero_distance() {
    // A point at the light's own position must not divide by zero.
    let lit = Operations::apply_lighting((5, 5, 5), (SCALE, SCALE, SCALE), (5, 5, 5), 1);
    assert!(lit.0 >= 0 && lit.0 <= SCALE);
}

//! The per-point operations of the pipeline: rotation, lighting,
//! projection and footprint drawing.
//!
//! Rotation applies the X-axis matrix, then Y, then Z — the order is part
//! of the contract.  Lighting attenuates linearly with distance.  Projection
//! divides by depth outside this module; here it maps a camera-space point
//! to canvas coordinates around the canvas center.  Drawing claims a square
//! footprint of pixels through the depth-resolution convention of
//! [`crate::resolve`].

use vstd::prelude::*;
use vstd::math::abs;
use crate::fixed::{SCALE, tdiv, fxmul, fxdiv, tdiv_i128, lemma_tdiv_bound, fx_mul, fx_div, isqrt, sqrt_floor, lemma_sqrt_floor_unique, lemma_sqrt_floor_monotone};
use crate::types::pixel::MAX_COORD;
use crate::types::rotation::Rotation;
use crate::resolve::{Claim, apply_claim, resolve, block_claims, col_claims, cols_claims, max_i, min_i, buffer_view, lemma_buffer_view_update, lemma_resolve_push, lemma_col_push, lemma_cols_snoc};

verus! {

/// Rotation of the pair `(a, b)` by the angle whose cosine is `c` and sine
/// is `s`, in fixed point: `((c*a - s*b)/SCALE, (s*a + c*b)/SCALE)`,
/// truncated toward zero.
pub open spec fn rot2_spec(c: int, s: int, a: int, b: int) -> (int, int) {
    (tdiv(c * a - s * b, SCALE as int), tdiv(s * a + c * b, SCALE as int))
}

/// The full rotation: X axis, then Y, then Z, each stage in fixed point.
pub open spec fn rotate_spec(v: (int, int, int), rot: Rotation) -> (int, int, int) {
    let yz = rot2_spec(rot.cos_x as int, rot.sin_x as int, v.1, v.2);
    let zx = rot2_spec(rot.cos_y as int, rot.sin_y as int, yz.1, v.0);
    let xy = rot2_spec(rot.cos_z as int, rot.sin_z as int, zx.1, yz.0);
    (xy.0, xy.1, zx.0)
}

/// One plane rotation in fixed point.
fn rot2(c: i64, s: i64, a: i64, b: i64) -> (r: (i64, i64))
    requires
        -SCALE <= c <= SCALE,
        -SCALE <= s <= SCALE,
        abs(a as int) + abs(b as int) <= 0x8000_0000_0000,
    ensures
        (r.0 as int, r.1 as int) == rot2_spec(c as int, s as int, a as int, b as int),
        abs(r.0 as int) <= abs(a as int) + abs(b as int),
        abs(r.1 as int) <= abs(a as int) + abs(b as int),
{
    let ghost aa = abs(a as int);
    let ghost ab = abs(b as int);
    proof {
        assert(-(aa * (SCALE as int)) <= (c as int) * (a as int) <= aa * (SCALE as int) && -(aa
            * (SCALE as int)) <= (s as int) * (a as int) <= aa * (SCALE as int) && -(ab * (
        SCALE as int)) <= (s as int) * (b as int) <= ab * (SCALE as int) && -(ab * (SCALE as int))
            <= (c as int) * (b as int) <= ab * (SCALE as int)) by (nonlinear_arith)
            requires
                -SCALE <= c <= SCALE,
                -SCALE <= s <= SCALE,
                -aa <= a as int <= aa,
                -ab <= b as int <= ab,
                0 <= aa,
                0 <= ab,
        ;
    }
    let p0: i128 = (c as i128) * (a as i128) - (s as i128) * (b as i128);
    let p1: i128 = (s as i128) * (a as i128) + (c as i128) * (b as i128);
    proof {
        lemma_tdiv_bound(p0 as int, SCALE as int, (aa + ab) as int);
        lemma_tdiv_bound(p1 as int, SCALE as int, (aa + ab) as int);
    }
    let t0: i128 = tdiv_i128(p0, SCALE as i128);
    let t1: i128 = tdiv_i128(p1, SCALE as i128);
    (t0 as i64, t1 as i64)
}

/// The shared pipeline operations.
pub struct Operations {}

impl Operations {
    /// Rotate a vector about the X axis, then Y, then Z, by the angles
    /// whose sines and cosines `rot` carries.  The result is exactly
    /// [`rotate_spec`]; each stage can at most double the sum of the
    /// component magnitudes, so the result stays within eight times it.
    pub fn rotate(v: (i64, i64, i64), rot: &Rotation) -> (r: (i64, i64, i64))
        requires
            rot.wf(),
            abs(v.0 as int) + abs(v.1 as int) + abs(v.2 as int) <= 0x2000_0000_0000,
        ensures
            (r.0 as int, r.1 as int, r.2 as int) == rotate_spec(
                (v.0 as int, v.1 as int, v.2 as int),
                *rot,
            ),
            abs(r.0 as int) + abs(r.1 as int) + abs(r.2 as int) <= 8 * (abs(v.0 as int) + abs(
                v.1 as int,
            ) + abs(v.2 as int)),
    {
        let yz = rot2(rot.cos_x, rot.sin_x, v.1, v.2);
        let zx = rot2(rot.cos_y, rot.sin_y, yz.1, v.0);
        let xy = rot2(rot.cos_z, rot.sin_z, zx.1, yz.0);
        (xy.0, xy.1, zx.0)
    }
}

/// The squared Euclidean distance between a point and the light.
pub open spec fn dist_sq_spec(p: (int, int, int), l: (int, int, int)) -> int {
    (l.0 - p.0) * (l.0 - p.0) + (l.1 - p.1) * (l.1 - p.1) + (l.2 - p.2) * (l.2 - p.2)
}

/// The distance used for attenuation: the integer square root of the
/// squared distance, guarded to stay at least one fixed-point unit so a
/// point at the light's own position divides by a tiny epsilon rather than
/// by zero.
pub open spec fn guarded_dist(d2: int) -> int {
    let s = sqrt_floor(d2);
    if s < 1 {
        1
    } else {
        s
    }
}

/// Clamp a channel into the displayable range `[0, SCALE]`.
pub open spec fn clamp_channel(v: int) -> int {
    if v < 0 {
        0
    } else if v > SCALE {
        SCALE as int
    } else {
        v
    }
}

/// One lit channel: the base channel scaled by `intensity / distance` and
/// clamped.
pub open spec fn lit_channel(c: int, intensity: int, d: int) -> int {
    clamp_channel(fxmul(c, fxdiv(intensity, d)))
}

/// The full lit color of a point.
pub open spec fn illuminate_spec(
    p: (int, int, int),
    color: (int, int, int),
    l: (int, int, int),
    intensity: int,
) -> (int, int, int) {
    let d = guarded_dist(dist_sq_spec(p, l));
    (lit_channel(color.0, intensity, d), lit_channel(color.1, intensity, d), lit_channel(
        color.2,
        intensity,
        d,
    ))
}

impl Operations {
    /// Light a point: attenuate each base channel by `intensity / distance`
    /// to the light (linear falloff, by design) and clamp it into range.
    /// A point at the light's position is treated as one fixed-point unit
    /// away.  The result is exactly [`illuminate_spec`].
    pub fn apply_lighting(
        position: (i64, i64, i64),
        color: (i64, i64, i64),
        light_position: (i64, i64, i64),
        intensity: i64,
    ) -> (r: (i64, i64, i64))
        requires
            abs(position.0 as int) <= 0x4000_0000_0000,
            abs(position.1 as int) <= 0x4000_0000_0000,
            abs(position.2 as int) <= 0x4000_0000_0000,
            abs(light_position.0 as int) <= 0x4000_0000_0000,
            abs(light_position.1 as int) <= 0x4000_0000_0000,
            abs(light_position.2 as int) <= 0x4000_0000_0000,
            0 <= intensity <= MAX_COORD,
            0 <= color.0 <= SCALE,
            0 <= color.1 <= SCALE,
            0 <= color.2 <= SCALE,
        ensures
            (r.0 as int, r.1 as int, r.2 as int) == illuminate_spec(
                (position.0 as int, position.1 as int, position.2 as int),
                (color.0 as int, color.1 as int, color.2 as int),
                (light_position.0 as int, light_position.1 as int, light_position.2 as int),
                intensity as int,
            ),
            0 <= r.0 <= SCALE,
            0 <= r.1 <= SCALE,
            0 <= r.2 <= SCALE,
    {
        let dx: i64 = light_position.0 - position.0;
        let dy: i64 = light_position.1 - position.1;
        let dz: i64 = light_position.2 - position.2;
        proof {
            assert(0 <= (dx as int) * (dx as int) <= 0x1_0000_0000_0000_0000_0000_0000 && 0 <= (
            dy as int) * (dy as int) <= 0x1_0000_0000_0000_0000_0000_0000 && 0 <= (dz as int) * (
            dz as int) <= 0x1_0000_0000_0000_0000_0000_0000) by (nonlinear_arith)
                requires
                    -0x8000_0000_0000 <= dx as int <= 0x8000_0000_0000,
                    -0x8000_0000_0000 <= dy as int <= 0x8000_0000_0000,
                    -0x8000_0000_0000 <= dz as int <= 0x8000_0000_0000,
            ;
        }
        let d2: i128 = (dx as i128) * (dx as i128) + (dy as i128) * (dy as i128) + (dz as i128)
            * (dz as i128);
        let s: u64 = isqrt(d2 as u128);
        proof {
            lemma_sqrt_floor_unique(d2 as int, s as int);
            if s >= 0x2_0000_0000_0000u64 {
                assert((s as int) * (s as int) >= 0x2_0000_0000_0000 * 0x2_0000_0000_0000int)
                    by (nonlinear_arith)
                    requires
                        s as int >= 0x2_0000_0000_0000,
                ;
                assert(false);
            }
        }
        let dist: i64 = if s == 0 {
            1
        } else {
            s as i64
        };
        proof {
            assert(0 <= (intensity as int) * (SCALE as int) <= 0x400_0000_0000)
                by (nonlinear_arith)
                requires
                    0 <= intensity <= MAX_COORD,
                    SCALE == 65536,
                    MAX_COORD == 0x400_0000,
            ;
            vstd::arithmetic::div_mod::lemma_div_pos_is_pos(
                (intensity as int) * (SCALE as int),
                dist as int,
            );
            vstd::arithmetic::div_mod::lemma_div_nonincreasing(
                (intensity as int) * (SCALE as int),
                dist as int,
            );
        }
        let atten: i64 = fx_div(intensity, dist);
        proof {
            assert(fxdiv(intensity as int, dist as int) == ((intensity as int) * (SCALE as int))
                / (dist as int));
            assert(0 <= atten <= 0x400_0000_0000);
            assert(0 <= (color.0 as int) * (atten as int) <= 0x4_0000_0000_0000_0000 && 0 <= (
            color.1 as int) * (atten as int) <= 0x4_0000_0000_0000_0000 && 0 <= (color.2 as int)
                * (atten as int) <= 0x4_0000_0000_0000_0000) by (nonlinear_arith)
                requires
                    0 <= color.0 <= SCALE,
                    0 <= color.1 <= SCALE,
                    0 <= color.2 <= SCALE,
                    0 <= atten <= 0x400_0000_0000,
                    SCALE == 65536,
            ;
        }
        let vr: i64 = fx_mul(color.0, atten);
        let vg: i64 = fx_mul(color.1, atten);
        let vb: i64 = fx_mul(color.2, atten);
        (clamp(vr), clamp(vg), clamp(vb))
    }
}

/// Clamp a computed channel into `[0, SCALE]`, exactly as
/// [`clamp_channel`] says.
fn clamp(v: i64) -> (r: i64)
    ensures
        r as int == clamp_channel(v as int),
        0 <= r <= SCALE,
{
    if v < 0 {
        0
    } else if v > SCALE {
        SCALE
    } else {
        v
    }
}

/// With the light switched off every channel goes dark: zero intensity
/// lights every point to exactly `(0, 0, 0)`.
pub proof fn lemma_illuminate_zero_intensity(
    p: (int, int, int),
    color: (int, int, int),
    l: (int, int, int),
)
    ensures
        illuminate_spec(p, color, l, 0) == (0int, 0int, 0int),
{
    let d = guarded_dist(dist_sq_spec(p, l));
    lemma_guarded_dist_pos(p, l);
    vstd::arithmetic::div_mod::lemma_div_of0(d);
    assert(fxdiv(0, d) == 0);
    assert(color.0 * 0 == 0) by (nonlinear_arith);
    assert(color.1 * 0 == 0) by (nonlinear_arith);
    assert(color.2 * 0 == 0) by (nonlinear_arith);
    vstd::arithmetic::div_mod::lemma_div_of0(SCALE as int);
}

/// The guarded distance to the light is always at least one unit.
pub proof fn lemma_guarded_dist_pos(p: (int, int, int), l: (int, int, int))
    ensures
        guarded_dist(dist_sq_spec(p, l)) >= 1,
{
}

/// Lighting falls off with distance: for a fixed color and intensity, a
/// point no nearer to the light is lit no brighter, channel for channel.
pub proof fn lemma_illuminate_monotone(
    p1: (int, int, int),
    p2: (int, int, int),
    color: (int, int, int),
    l: (int, int, int),
    intensity: int,
)
    requires
        0 <= intensity,
        0 <= color.0,
        0 <= color.1,
        0 <= color.2,
        dist_sq_spec(p1, l) <= dist_sq_spec(p2, l),
    ensures
        illuminate_spec(p2, color, l, intensity).0 <= illuminate_spec(p1, color, l, intensity).0,
        illuminate_spec(p2, color, l, intensity).1 <= illuminate_spec(p1, color, l, intensity).1,
        illuminate_spec(p2, color, l, intensity).2 <= illuminate_spec(p1, color, l, intensity).2,
{
    let d2a = dist_sq_spec(p1, l);
    let d2b = dist_sq_spec(p2, l);
    assert((l.0 - p1.0) * (l.0 - p1.0) >= 0 && (l.1 - p1.1) * (l.1 - p1.1) >= 0 && (l.2 - p1.2)
        * (l.2 - p1.2) >= 0) by (nonlinear_arith);
    lemma_sqrt_floor_monotone(d2a, d2b);
    let da = guarded_dist(d2a);
    let db = guarded_dist(d2b);
    assert(1 <= da <= db);
    lemma_lit_channel_monotone(color.0, intensity, da, db);
    lemma_lit_channel_monotone(color.1, intensity, da, db);
    lemma_lit_channel_monotone(color.2, intensity, da, db);
}

/// One channel's monotonicity in distance.
proof fn lemma_lit_channel_monotone(c: int, intensity: int, da: int, db: int)
    requires
        0 <= c,
        0 <= intensity,
        1 <= da <= db,
    ensures
        lit_channel(c, intensity, db) <= lit_channel(c, intensity, da),
{
    let num = intensity * (SCALE as int);
    vstd::arithmetic::div_mod::lemma_div_is_ordered_by_denominator(num, da, db);
    vstd::arithmetic::div_mod::lemma_div_pos_is_pos(num, da);
    vstd::arithmetic::div_mod::lemma_div_pos_is_pos(num, db);
    let aa = fxdiv(intensity, da);
    let ab = fxdiv(intensity, db);
    assert(0 <= ab <= aa);
    vstd::arithmetic::mul::lemma_mul_inequality(ab, aa, c);
    vstd::arithmetic::mul::lemma_mul_is_commutative(ab, c);
    vstd::arithmetic::mul::lemma_mul_is_commutative(aa, c);
    vstd::arithmetic::mul::lemma_mul_nonnegative(c, ab);
    vstd::arithmetic::div_mod::lemma_div_is_ordered(c * ab, c * aa, SCALE as int);
    vstd::arithmetic::div_mod::lemma_div_pos_is_pos(c * ab, SCALE as int);
    vstd::arithmetic::div_mod::lemma_div_pos_is_pos(c * aa, SCALE as int);
}

/// Where a camera-space point lands on the canvas: `x` scaled by the
/// point's scale factor, around the canvas center, with canvas `y` inverted
/// relative to world `y`.  Both inputs are fixed point; the result is in
/// whole pixels.
pub open spec fn project_spec(v: (int, int, int), scale_factor: int, w: int, h: int) -> (
    int,
    int,
) {
    (
        tdiv(v.0 * scale_factor, (SCALE as int) * (SCALE as int)) + w / 2,
        h / 2 - tdiv(v.1 * scale_factor, (SCALE as int) * (SCALE as int)),
    )
}

impl Operations {
    /// Project a camera-space point to canvas coordinates.  The result is
    /// exactly [`project_spec`]; it may lie off the canvas, and footprint
    /// drawing clips it.
    pub fn project(v: (i64, i64, i64), scale_factor: i64, canvas_width: u32, canvas_height: u32)
        -> (r: (i64, i64))
        requires
            abs(v.0 as int) <= 0x4000_0000_0000,
            abs(v.1 as int) <= 0x4000_0000_0000,
            0 <= scale_factor <= 0x400_0000_0000,
        ensures
            (r.0 as int, r.1 as int) == project_spec(
                (v.0 as int, v.1 as int, v.2 as int),
                scale_factor as int,
                canvas_width as int,
                canvas_height as int,
            ),
            -0x100_0000_8000_0000 <= r.0 <= 0x100_0000_8000_0000,
            -0x100_0000_8000_0000 <= r.1 <= 0x100_0000_8000_0000,
    {
        let ghost ss = (SCALE as int) * (SCALE as int);
        let ghost m = 0x100_0000_0000_0000int;
        proof {
            assert(65536int * 65536int == 0x1_0000_0000) by (nonlinear_arith);
            assert(ss == 0x1_0000_0000);
            assert(-(m * ss) <= (v.0 as int) * (scale_factor as int) <= m * ss && -(m * ss) <= (
            v.1 as int) * (scale_factor as int) <= m * ss) by (nonlinear_arith)
                requires
                    -0x4000_0000_0000 <= v.0 as int <= 0x4000_0000_0000,
                    -0x4000_0000_0000 <= v.1 as int <= 0x4000_0000_0000,
                    0 <= scale_factor <= 0x400_0000_0000,
                    m == 0x100_0000_0000_0000int,
                    ss == (SCALE as int) * (SCALE as int),
            ;
        }
        let px: i128 = (v.0 as i128) * (scale_factor as i128);
        let py: i128 = (v.1 as i128) * (scale_factor as i128);
        proof {
            lemma_tdiv_bound(px as int, ss, m);
            lemma_tdiv_bound(py as int, ss, m);
        }
        let tx: i128 = tdiv_i128(px, 0x1_0000_0000);
        let ty: i128 = tdiv_i128(py, 0x1_0000_0000);
        ((tx as i64) + (canvas_width / 2) as i64, (canvas_height / 2) as i64 - (ty as i64))
    }
}

/// A point on the camera axis projects to the canvas center: whatever its
/// depth and whatever the scale factor, a camera-space `(0, 0, z)` lands at
/// `(w/2, h/2)`.
pub proof fn lemma_projection_centered(z: int, scale_factor: int, w: int, h: int)
    ensures
        project_spec((0, 0, z), scale_factor, w, h) == (w / 2, h / 2),
{
    assert(0 * scale_factor == 0) by (nonlinear_arith);
    assert(tdiv(0, (SCALE as int) * (SCALE as int)) == 0);
}

/// The squared Euclidean norm of a vector.
pub open spec fn norm_sq(v: (int, int, int)) -> int {
    v.0 * v.0 + v.1 * v.1 + v.2 * v.2
}

/// One plane rotation in exact arithmetic: no rescaling division, so the
/// result carries an extra factor of the trig scale.
pub open spec fn rot2_exact(c: int, s: int, a: int, b: int) -> (int, int) {
    (c * a - s * b, s * a + c * b)
}

/// The full rotation in exact arithmetic: each stage multiplies the
/// untouched component by `SCALE` instead of dividing the rotated pair, so
/// the result is the executable rotation's value before any truncation,
/// scaled by `SCALE` cubed.
pub open spec fn rotate_exact(v: (int, int, int), rot: Rotation) -> (int, int, int) {
    let yz = rot2_exact(rot.cos_x as int, rot.sin_x as int, v.1, v.2);
    let w1 = (v.0 * (SCALE as int), yz.0, yz.1);
    let zx = rot2_exact(rot.cos_y as int, rot.sin_y as int, w1.2, w1.0);
    let w2 = (zx.1, w1.1 * (SCALE as int), zx.0);
    let xy = rot2_exact(rot.cos_z as int, rot.sin_z as int, w2.0, w2.1);
    (xy.0, xy.1, w2.2 * (SCALE as int))
}

/// A plane rotation scales the squared norm of the pair by `c*c + s*s`.
proof fn lemma_rot2_exact_norm(c: int, s: int, a: int, b: int)
    ensures
        (c * a - s * b) * (c * a - s * b) + (s * a + c * b) * (s * a + c * b) == (c * c + s * s)
            * (a * a + b * b),
{
    let t1 = c * a;
    let t2 = s * b;
    let t3 = s * a;
    let t4 = c * b;
    assert((t1 - t2) * (t1 - t2) == t1 * t1 - 2 * (t1 * t2) + t2 * t2) by (nonlinear_arith);
    assert((t3 + t4) * (t3 + t4) == t3 * t3 + 2 * (t3 * t4) + t4 * t4) by (nonlinear_arith);
    assert(t1 * t1 == (c * c) * (a * a)) by (nonlinear_arith)
        requires
            t1 == c * a,
    ;
    assert(t2 * t2 == (s * s) * (b * b)) by (nonlinear_arith)
        requires
            t2 == s * b,
    ;
    assert(t3 * t3 == (s * s) * (a * a)) by (nonlinear_arith)
        requires
            t3 == s * a,
    ;
    assert(t4 * t4 == (c * c) * (b * b)) by (nonlinear_arith)
        requires
            t4 == c * b,
    ;
    assert(t1 * t2 == t3 * t4) by (nonlinear_arith)
        requires
            t1 == c * a,
            t2 == s * b,
            t3 == s * a,
            t4 == c * b,
    ;
    assert((c * c + s * s) * (a * a + b * b) == (c * c) * (a * a) + (c * c) * (b * b) + (s * s)
        * (a * a) + (s * s) * (b * b)) by (nonlinear_arith);
}

/// Rotation preserves length: for trigonometric values satisfying the
/// exact identity `s*s + c*c == SCALE*SCALE` on every axis, the exact
/// (untruncated) rotation scales every squared norm by exactly
/// `SCALE^6` — the factor its fixed-point encoding carries — and so
/// preserves the vector's length.  The executable rotation differs from
/// the exact one only by truncating each stage toward zero.
pub proof fn lemma_rotate_preserves_norm(v: (int, int, int), rot: Rotation)
    requires
        (rot.sin_x as int) * (rot.sin_x as int) + (rot.cos_x as int) * (rot.cos_x as int) == (
        SCALE as int) * (SCALE as int),
        (rot.sin_y as int) * (rot.sin_y as int) + (rot.cos_y as int) * (rot.cos_y as int) == (
        SCALE as int) * (SCALE as int),
        (rot.sin_z as int) * (rot.sin_z as int) + (rot.cos_z as int) * (rot.cos_z as int) == (
        SCALE as int) * (SCALE as int),
    ensures
        norm_sq(rotate_exact(v, rot)) == (SCALE as int) * (SCALE as int) * ((SCALE as int) * (
        SCALE as int)) * ((SCALE as int) * (SCALE as int)) * norm_sq(v),
{
    let ss = (SCALE as int) * (SCALE as int);
    let cx = rot.cos_x as int;
    let sx = rot.sin_x as int;
    let cy = rot.cos_y as int;
    let sy = rot.sin_y as int;
    let cz = rot.cos_z as int;
    let sz = rot.sin_z as int;
    let yz = rot2_exact(cx, sx, v.1, v.2);
    let w1 = (v.0 * (SCALE as int), yz.0, yz.1);
    let zx = rot2_exact(cy, sy, w1.2, w1.0);
    let w2 = (zx.1, w1.1 * (SCALE as int), zx.0);
    let xy = rot2_exact(cz, sz, w2.0, w2.1);
    lemma_rot2_exact_norm(cx, sx, v.1, v.2);
    lemma_rot2_exact_norm(cy, sy, w1.2, w1.0);
    lemma_rot2_exact_norm(cz, sz, w2.0, w2.1);
    assert(norm_sq(w1) == ss * norm_sq(v)) by (nonlinear_arith)
        requires
            w1 == (v.0 * (SCALE as int), yz.0, yz.1),
            yz.0 * yz.0 + yz.1 * yz.1 == (cx * cx + sx * sx) * (v.1 * v.1 + v.2 * v.2),
            cx * cx + sx * sx == ss,
            ss == (SCALE as int) * (SCALE as int),
    ;
    assert(norm_sq(w2) == ss * norm_sq(w1)) by (nonlinear_arith)
        requires
            w2 == (zx.1, w1.1 * (SCALE as int), zx.0),
            zx.0 * zx.0 + zx.1 * zx.1 == (cy * cy + sy * sy) * (w1.2 * w1.2 + w1.0 * w1.0),
            cy * cy + sy * sy == ss,
            ss == (SCALE as int) * (SCALE as int),
    ;
    assert(norm_sq((xy.0, xy.1, w2.2 * (SCALE as int))) == ss * norm_sq(w2)) by (nonlinear_arith)
        requires
            xy.0 * xy.0 + xy.1 * xy.1 == (cz * cz + sz * sz) * (w2.0 * w2.0 + w2.1 * w2.1),
            cz * cz + sz * sz == ss,
            ss == (SCALE as int) * (SCALE as int),
    ;
    assert(norm_sq(rotate_exact(v, rot)) == ss * (ss * (ss * norm_sq(v))));
    assert(ss * (ss * (ss * norm_sq(v))) == ss * ss * ss * norm_sq(v)) by (nonlinear_arith);
}

impl Operations {
    /// Claim every canvas pixel of a square footprint anchored at `(x, y)`
    /// with `block_size` pixels on a side, at the given depth, for the point
    /// `index`.  Cells off the canvas are skipped; a cell is taken exactly
    /// when `depth` is strictly smaller than the depth stored there.  The
    /// buffers afterwards are the resolution of the footprint's claims, in
    /// column order, over the buffers before.
    pub fn draw_pixel(
        owners: &mut Vec<i64>,
        depths: &mut Vec<i64>,
        canvas_width: u32,
        canvas_height: u32,
        x: i64,
        y: i64,
        block_size: i64,
        depth: i64,
        index: u32,
    )
        requires
            old(depths).len() == (canvas_width as int) * (canvas_height as int),
            old(owners).len() == old(depths).len(),
            canvas_width <= 16384,
            canvas_height <= 16384,
            0 <= block_size <= 0x10_0000_0000_0000,
            -0x200_0000_0000_0000 <= x <= 0x200_0000_0000_0000,
            -0x200_0000_0000_0000 <= y <= 0x200_0000_0000_0000,
        ensures
            final(depths).len() == old(depths).len(),
            final(owners).len() == old(owners).len(),
            buffer_view(final(owners)@, final(depths)@) == resolve(
                buffer_view(old(owners)@, old(depths)@),
                block_claims(
                    x as int,
                    y as int,
                    block_size as int,
                    depth as int,
                    index as int,
                    canvas_width as int,
                    canvas_height as int,
                ),
            ),
    {
        let w: i64 = canvas_width as i64;
        let h: i64 = canvas_height as i64;
        let x_lo: i64 = if x < 0 {
            0
        } else {
            x
        };
        let x_hi: i64 = if x + block_size > w {
            w
        } else {
            x + block_size
        };
        let y_lo: i64 = if y < 0 {
            0
        } else {
            y
        };
        let y_hi: i64 = if y + block_size > h {
            h
        } else {
            y + block_size
        };
        let ghost st0 = buffer_view(old(owners)@, old(depths)@);
        proof {
            assert(x_lo as int == max_i(x as int, 0));
            assert(x_hi as int == min_i(x as int + block_size as int, w as int));
            assert(y_lo as int == max_i(y as int, 0));
            assert(y_hi as int == min_i(y as int + block_size as int, h as int));
        }
        let mut u: i64 = x_lo;
        while u < x_hi
            invariant
                x_lo <= u,
                u <= x_hi || u == x_lo,
                0 <= x_lo,
                x_hi <= w,
                0 <= y_lo,
                y_hi <= h,
                w == canvas_width as int,
                h == canvas_height as int,
                canvas_width <= 16384,
                canvas_height <= 16384,
                depths.len() == old(depths).len(),
                owners.len() == old(owners).len(),
                old(depths).len() == (canvas_width as int) * (canvas_height as int),
                old(owners).len() == old(depths).len(),
                st0 == buffer_view(old(owners)@, old(depths)@),
                buffer_view(owners@, depths@) == resolve(
                    st0,
                    cols_claims(
                        x_lo as int,
                        u as int,
                        y_lo as int,
                        y_hi as int,
                        w as int,
                        depth as int,
                        index as int,
                    ),
                ),
            decreases x_hi - u,
        {
            let ghost cols_so_far = cols_claims(
                x_lo as int,
                u as int,
                y_lo as int,
                y_hi as int,
                w as int,
                depth as int,
                index as int,
            );
            let mut v: i64 = y_lo;
            while v < y_hi
                invariant
                    y_lo <= v,
                    v <= y_hi || v == y_lo,
                    0 <= x_lo <= u < x_hi <= w,
                    0 <= y_lo,
                    y_hi <= h,
                    w == canvas_width as int,
                    h == canvas_height as int,
                    canvas_width <= 16384,
                    canvas_height <= 16384,
                    depths.len() == old(depths).len(),
                    owners.len() == old(owners).len(),
                    old(depths).len() == (canvas_width as int) * (canvas_height as int),
                    old(owners).len() == old(depths).len(),
                    st0 == buffer_view(old(owners)@, old(depths)@),
                    cols_so_far == cols_claims(
                        x_lo as int,
                        u as int,
                        y_lo as int,
                        y_hi as int,
                        w as int,
                        depth as int,
                        index as int,
                    ),
                    buffer_view(owners@, depths@) == resolve(
                        st0,
                        cols_so_far + col_claims(
                            u as int,
                            y_lo as int,
                            v as int,
                            w as int,
                            depth as int,
                            index as int,
                        ),
                    ),
                decreases y_hi - v,
            {
                proof {
                    assert((v as int) * (w as int) + (u as int) < (canvas_height as int) * (
                    canvas_width as int) && 0 <= (v as int) * (w as int) + (u as int) && 0 <= (
                    v as int) * (w as int) <= 0x1000_0000 && (canvas_height as int) * (
                    canvas_width as int) == (canvas_width as int) * (canvas_height as int))
                        by (nonlinear_arith)
                        requires
                            0 <= v < canvas_height as int,
                            0 <= u < w,
                            w == canvas_width as int,
                            canvas_width <= 16384,
                            canvas_height <= 16384,
                    ;
                }
                let pix: usize = (v * w + u) as usize;
                let ghost c = Claim { pix: pix as int, depth: depth as int, idx: index as int };
                let ghost pre_owners = owners@;
                let ghost pre_depths = depths@;
                let ghost pre = buffer_view(pre_owners, pre_depths);
                let stored: i64 = depths[pix];
                if depth < stored {
                    depths.set(pix, depth);
                    owners.set(pix, index as i64);
                    proof {
                        lemma_buffer_view_update(
                            pre_owners,
                            pre_depths,
                            pix as int,
                            index as i64,
                            depth,
                        );
                        assert(buffer_view(owners@, depths@) == apply_claim(pre, c));
                    }
                } else {
                    proof {
                        assert(buffer_view(owners@, depths@) == apply_claim(pre, c));
                    }
                }
                proof {
                    let col_pre = col_claims(
                        u as int,
                        y_lo as int,
                        v as int,
                        w as int,
                        depth as int,
                        index as int,
                    );
                    lemma_col_push(u as int, y_lo as int, v as int, w as int, depth as int,
                        index as int);
                    assert((cols_so_far + col_pre).push(c) =~= cols_so_far + col_pre.push(c));
                    lemma_resolve_push(st0, cols_so_far + col_pre, c);
                }
                v = v + 1;
            }
            proof {
                if y_hi <= y_lo {
                    assert(col_claims(
                        u as int,
                        y_lo as int,
                        v as int,
                        w as int,
                        depth as int,
                        index as int,
                    ) =~= Seq::<Claim>::empty());
                    assert(col_claims(
                        u as int,
                        y_lo as int,
                        y_hi as int,
                        w as int,
                        depth as int,
                        index as int,
                    ) =~= Seq::<Claim>::empty());
                }
                assert(col_claims(
                    u as int,
                    y_lo as int,
                    v as int,
                    w as int,
                    depth as int,
                    index as int,
                ) == col_claims(
                    u as int,
                    y_lo as int,
                    y_hi as int,
                    w as int,
                    depth as int,
                    index as int,
                ));
                lemma_cols_snoc(
                    x_lo as int,
                    u as int,
                    y_lo as int,
                    y_hi as int,
                    w as int,
                    depth as int,
                    index as int,
                );
            }
            u = u + 1;
        }
        proof {
            if x_hi <= x_lo {
                assert(cols_claims(
                    x_lo as int,
                    u as int,
                    y_lo as int,
                    y_hi as int,
                    w as int,
                    depth as int,
                    index as int,
                ) =~= Seq::<Claim>::empty());
                assert(cols_claims(
                    x_lo as int,
                    x_hi as int,
                    y_lo as int,
                    y_hi as int,
                    w as int,
                    depth as int,
                    index as int,
                ) =~= Seq::<Claim>::empty());
            }
        }
    }
}

/// Rotating by zero radians about every axis moves nothing: the rotation
/// with all sines `0` and all cosines `SCALE` is the identity, exactly,
/// with no truncation error.
pub proof fn lemma_rotate_identity(v: (int, int, int), rot: Rotation)
    requires
        rot.is_identity(),
    ensures
        rotate_spec(v, rot) == v,
{
    lemma_scale_div_vanish(v.0);
    lemma_scale_div_vanish(v.1);
    lemma_scale_div_vanish(v.2);
}

/// `(SCALE * a) / SCALE == a` under truncating division.
proof fn lemma_scale_div_vanish(a: int)
    ensures
        tdiv((SCALE as int) * a, SCALE as int) == a,
        tdiv(a * (SCALE as int), SCALE as int) == a,
{
    if (SCALE as int) * a >= 0 {
        vstd::arithmetic::div_mod::lemma_div_multiples_vanish(a, SCALE as int);
    } else {
        vstd::arithmetic::div_mod::lemma_div_multiples_vanish(-a, SCALE as int);
    }
}

} // verus!

//! The frame-level model of the pipeline.
//!
//! Both rasterizers — the serial one and the batched parallel one — compute
//! the same function of the point cloud and the view: every point is
//! rotated, placed before the camera, culled against the near threshold,
//! projected, and its footprint's claims are resolved per pixel; the winner
//! of each pixel is then lit and written as four bytes.  The functions here
//! say what that function is; the rasterizers' contracts refer to them.

use vstd::prelude::*;
use crate::fixed::{SCALE, tdiv, fxmul, fxdiv, fxceil};
use crate::resolve::{Claim, Resolution, resolve, block_claims};
use crate::types::light::Light;
use crate::types::pixel::Pixel;
use crate::types::rotation::FrameRotations;
use crate::types::view_state::ViewState;

verus! {

/// A point after the object stage: rotated by the object orientation, then
/// moved by the reference offset.
pub open spec fn transformed_spec(p: Pixel, rots: FrameRotations, view: ViewState) -> (
    int,
    int,
    int,
) {
    let r = crate::graphics::operations::rotate_spec(
        (p.x as int, p.y as int, p.z as int),
        rots.object,
    );
    (r.0 + view.ref_x, r.1 + view.ref_y, r.2 + view.ref_z)
}

/// A point after the camera stage: pushed back by the camera depth, rotated
/// by the camera orientation, then moved to the camera's position.
pub open spec fn positioned_spec(t: (int, int, int), rots: FrameRotations, view: ViewState) -> (
    int,
    int,
    int,
) {
    let q = crate::graphics::operations::rotate_spec(
        (t.0, t.1, t.2 - view.camera_z),
        rots.camera,
    );
    (q.0 + view.camera_x, q.1 + view.camera_y, q.2 + view.camera_z)
}

/// A point's depth: how far it sits in front of the camera.  Strictly
/// smaller is strictly nearer, uniformly across the crate.
pub open spec fn point_depth(q: (int, int, int), view: ViewState) -> int {
    view.camera_z - q.2
}

/// Whether a point survives the near cull: its depth reaches the view's
/// near threshold.
pub open spec fn point_visible(q: (int, int, int), view: ViewState) -> bool {
    point_depth(q, view) >= view.z_offset
}

/// The frame's scale factor: the view scale divided by the camera-to-
/// reference distance.  A camera at or behind the reference plane gets a
/// zero scale factor, which collapses every footprint and yields an empty
/// frame.
pub open spec fn frame_scale_spec(view: ViewState) -> int {
    if view.camera_z - view.ref_z >= 1 {
        fxdiv(view.scale as int, view.camera_z - view.ref_z)
    } else {
        0
    }
}

/// The footprint side length of a point: its size factor scaled by the
/// frame's scale factor, rounded up to whole pixels.
pub open spec fn block_size_spec(p: Pixel, view: ViewState) -> int {
    fxceil(fxmul(frame_scale_spec(view), p.size_factor as int))
}

/// Every claim one point makes on the canvas: none if it is culled,
/// otherwise its projected footprint's claims at its depth.
pub open spec fn point_claims(
    p: Pixel,
    i: int,
    rots: FrameRotations,
    view: ViewState,
    w: int,
    h: int,
) -> Seq<Claim> {
    let t = transformed_spec(p, rots, view);
    let q = positioned_spec(t, rots, view);
    if !point_visible(q, view) {
        Seq::empty()
    } else {
        let pr = crate::graphics::operations::project_spec(q, frame_scale_spec(view), w, h);
        block_claims(pr.0, pr.1, block_size_spec(p, view), point_depth(q, view), i, w, h)
    }
}

/// The claims of the first `n` points, in point order.
pub open spec fn frame_claims(
    pixels: Seq<Pixel>,
    rots: FrameRotations,
    view: ViewState,
    w: int,
    h: int,
    n: int,
) -> Seq<Claim>
    decreases n,
{
    if n <= 0 {
        Seq::empty()
    } else {
        frame_claims(pixels, rots, view, w, h, n - 1) + point_claims(
            pixels[n - 1],
            n - 1,
            rots,
            view,
            w,
            h,
        )
    }
}

/// The depth and owner maps after the whole cloud is resolved over a blank
/// canvas.
pub open spec fn frame_resolution(
    pixels: Seq<Pixel>,
    rots: FrameRotations,
    view: ViewState,
    w: int,
    h: int,
) -> Resolution {
    resolve(
        Resolution::blank((w * h) as nat),
        frame_claims(pixels, rots, view, w, h, pixels.len() as int),
    )
}

/// Every claim in the sequence names a point index below `n`.
pub open spec fn claims_idx_in(cs: Seq<Claim>, n: int) -> bool {
    forall|i: int| 0 <= i < cs.len() ==> 0 <= #[trigger] cs[i].idx < n
}

/// Claims of one footprint all name that footprint's point.
proof fn lemma_cols_claims_idx(
    u_lo: int,
    u_hi: int,
    v_lo: int,
    v_hi: int,
    w: int,
    depth: int,
    idx: int,
    n: int,
)
    requires
        0 <= idx < n,
    ensures
        claims_idx_in(crate::resolve::cols_claims(u_lo, u_hi, v_lo, v_hi, w, depth, idx), n),
    decreases u_hi - u_lo,
{
    if u_lo < u_hi {
        lemma_cols_claims_idx(u_lo + 1, u_hi, v_lo, v_hi, w, depth, idx, n);
        let col = crate::resolve::col_claims(u_lo, v_lo, v_hi, w, depth, idx);
        let rest = crate::resolve::cols_claims(u_lo + 1, u_hi, v_lo, v_hi, w, depth, idx);
        let whole = crate::resolve::cols_claims(u_lo, u_hi, v_lo, v_hi, w, depth, idx);
        assert forall|i: int| 0 <= i < whole.len() implies 0 <= #[trigger] whole[i].idx < n by {
            if i < col.len() {
                assert(whole[i] == col[i]);
            } else {
                assert(whole[i] == rest[i - col.len()]);
            }
        }
    }
}

/// Claims of the first `m` points all name points below `m`.
proof fn lemma_frame_claims_idx(
    pixels: Seq<Pixel>,
    rots: FrameRotations,
    view: ViewState,
    w: int,
    h: int,
    m: int,
)
    ensures
        claims_idx_in(frame_claims(pixels, rots, view, w, h, m), m),
    decreases m,
{
    if m > 0 {
        lemma_frame_claims_idx(pixels, rots, view, w, h, m - 1);
        let prev = frame_claims(pixels, rots, view, w, h, m - 1);
        let pc = point_claims(pixels[m - 1], m - 1, rots, view, w, h);
        let whole = frame_claims(pixels, rots, view, w, h, m);
        let t = transformed_spec(pixels[m - 1], rots, view);
        let q = positioned_spec(t, rots, view);
        if point_visible(q, view) {
            let pr = crate::graphics::operations::project_spec(q, frame_scale_spec(view), w, h);
            lemma_cols_claims_idx(
                crate::resolve::max_i(pr.0, 0),
                crate::resolve::min_i(pr.0 + block_size_spec(pixels[m - 1], view), w),
                crate::resolve::max_i(pr.1, 0),
                crate::resolve::min_i(pr.1 + block_size_spec(pixels[m - 1], view), h),
                w,
                point_depth(q, view),
                m - 1,
                m,
            );
        }
        assert forall|i: int| 0 <= i < whole.len() implies 0 <= #[trigger] whole[i].idx < m by {
            if i < prev.len() {
                assert(whole[i] == prev[i]);
            } else {
                assert(whole[i] == pc[i - prev.len()]);
            }
        }
    }
}

/// After a frame is resolved, every owned pixel names a real point of the
/// cloud, and an unowned pixel still carries the empty owner.
pub proof fn lemma_frame_owner_range(
    pixels: Seq<Pixel>,
    rots: FrameRotations,
    view: ViewState,
    w: int,
    h: int,
    p: int,
)
    requires
        0 <= p < w * h,
    ensures
        frame_resolution(pixels, rots, view, w, h).owners.len() == w * h,
        frame_resolution(pixels, rots, view, w, h).depths.len() == w * h,
        frame_resolution(pixels, rots, view, w, h).owners[p] == crate::resolve::NO_OWNER as int
            || 0 <= frame_resolution(pixels, rots, view, w, h).owners[p] < pixels.len(),
{
    let blank = Resolution::blank((w * h) as nat);
    let cs = frame_claims(pixels, rots, view, w, h, pixels.len() as int);
    crate::resolve::lemma_resolve_len(blank, cs);
    crate::resolve::lemma_resolve_owner_at(blank, cs, p);
    lemma_frame_claims_idx(pixels, rots, view, w, h, pixels.len() as int);
    let res = frame_resolution(pixels, rots, view, w, h);
    if res.depths[p] < blank.depths[p] {
        let i = choose|i: int|
            0 <= i < cs.len() && cs[i].pix == p && cs[i].depth == res.depths[p] && cs[i].idx
                == res.owners[p];
        assert(0 <= cs[i].idx < pixels.len());
    }
}

/// A channel's display byte: the fixed-point channel mapped onto `0..=255`,
/// truncated.
pub open spec fn byte_of(v: int) -> int {
    tdiv(v * 255, SCALE as int)
}

/// The four bytes written for one canvas pixel, in the surface's order:
/// alpha, then the lit blue, green and red channels.  An unowned pixel is
/// fully transparent black.
pub open spec fn shade_pixel(
    owner: int,
    pixels: Seq<Pixel>,
    rots: FrameRotations,
    view: ViewState,
    light: Light,
) -> (int, int, int, int) {
    if owner < 0 || owner >= pixels.len() {
        (0, 0, 0, 0)
    } else {
        let p = pixels[owner];
        let t = transformed_spec(p, rots, view);
        let lit = crate::graphics::operations::illuminate_spec(
            t,
            (p.r as int, p.g as int, p.b as int),
            (light.x as int, light.y as int, light.z as int),
            light.intensity as int,
        );
        (byte_of(p.a as int), byte_of(lit.2), byte_of(lit.1), byte_of(lit.0))
    }
}

} // verus!

//! The serial rasterizer.
//!
//! One thread walks the cloud point by point: object rotation, reference
//! offset, camera stage, near cull, projection, and the footprint's claims
//! against the depth and owner buffers.  A second pass lights only each
//! pixel's winning point and writes the framebuffer.  The frame it produces
//! is exactly [`frame_resolution`] shaded by [`shade_pixel`], which is what
//! the batched parallel rasterizer must agree with.

use vstd::prelude::*;
use vstd::math::abs;
use crate::fixed::{SCALE, fx_mul, fx_div, fx_ceil};
use crate::graphics::frame::{
    byte_of, frame_claims, frame_resolution, frame_scale_spec, point_claims, point_visible,
    positioned_spec, shade_pixel, transformed_spec, lemma_frame_owner_range,
};
use crate::graphics::operations::Operations;
use crate::renderer::Renderer;
use crate::resolve::{DEPTH_EMPTY, NO_OWNER, Resolution, buffer_view, lemma_resolve_concat, resolve};
use crate::types::light::Light;
use crate::types::pixel::{MAX_COORD, Pixel};
use crate::types::rotation::FrameRotations;
use crate::types::view_state::ViewState;

verus! {

/// The serial rasterizer: the live cloud and the canvas dimensions.  The
/// display surface itself belongs to the host.
pub struct CpuRenderer {
    pub pixels: Vec<Pixel>,
    pub canvas_width: u32,
    pub canvas_height: u32,
}

impl CpuRenderer {
    /// Bounded canvas, bounded cloud, well-formed points.
    pub open spec fn wf(&self) -> bool {
        &&& self.canvas_width <= 16384
        &&& self.canvas_height <= 16384
        &&& self.pixels@.len() <= 0xffff_ffff
        &&& forall|i: int| 0 <= i < self.pixels@.len() ==> self.pixels@[i].wf()
    }

    /// A fresh rasterizer over an empty cloud.
    pub fn new(canvas_width: u32, canvas_height: u32) -> (r: CpuRenderer)
        requires
            canvas_width <= 16384,
            canvas_height <= 16384,
        ensures
            r.wf(),
            r.canvas_width == canvas_width,
            r.canvas_height == canvas_height,
            r.pixels@.len() == 0,
    {
        CpuRenderer { pixels: Vec::new(), canvas_width, canvas_height }
    }
}

/// A vector of `n` copies of `val`.
fn filled(n: usize, val: i64) -> (v: Vec<i64>)
    ensures
        v@.len() == n,
        forall|i: int| 0 <= i < n ==> v@[i] == val,
{
    let mut v: Vec<i64> = Vec::new();
    let mut k: usize = 0;
    while k < n
        invariant
            k <= n,
            v@.len() == k,
            forall|i: int| 0 <= i < k ==> v@[i] == val,
        decreases n - k,
    {
        v.push(val);
        k = k + 1;
    }
    v
}

/// The display byte of a fixed-point channel.
fn to_byte(v: i64) -> (r: u8)
    requires
        0 <= v <= SCALE,
    ensures
        r as int == byte_of(v as int),
{
    proof {
        vstd::arithmetic::div_mod::lemma_div_pos_is_pos(v * 255, SCALE as int);
        vstd::arithmetic::div_mod::lemma_div_is_ordered(
            (v as int) * 255,
            65536int * 255,
            SCALE as int,
        );
        assert((65536int * 255) / (SCALE as int) == 255);
    }
    ((v * 255) / SCALE) as u8
}

/// Run one point through the pipeline: object rotation and reference
/// offset, camera stage, near cull, projection, footprint drawing.  The
/// buffers afterwards are the resolution of exactly the point's claims over
/// the buffers before; the returned vector is the point's object-stage
/// position, which the shading pass lights.
/// The object and camera stages for one point: returns its object-stage
/// position (rotated and moved by the reference offset) and its camera-space
/// position.
#[verifier::rlimit(100)]
fn transform_point(p: Pixel, view_state: &ViewState, rotations: &FrameRotations) -> (tq: (
    (i64, i64, i64),
    (i64, i64, i64),
))
    requires
        p.wf(),
        view_state.wf(),
        rotations.wf(),
    ensures
        (tq.0.0 as int, tq.0.1 as int, tq.0.2 as int) == transformed_spec(
            p,
            *rotations,
            *view_state,
        ),
        (tq.1.0 as int, tq.1.1 as int, tq.1.2 as int) == positioned_spec(
            transformed_spec(p, *rotations, *view_state),
            *rotations,
            *view_state,
        ),
        abs(tq.0.0 as int) <= 0x1_0000_0000,
        abs(tq.0.1 as int) <= 0x1_0000_0000,
        abs(tq.0.2 as int) <= 0x1_0000_0000,
        abs(tq.1.0 as int) <= 0x40_0000_0000,
        abs(tq.1.1 as int) <= 0x40_0000_0000,
        abs(tq.1.2 as int) <= 0x40_0000_0000,
{
    proof {
        assert(abs(p.x as int) + abs(p.y as int) + abs(p.z as int) <= 0xC00_0000);
    }
    let r0 = Operations::rotate((p.x, p.y, p.z), &rotations.object);
    proof {
        assert(abs(r0.0 as int) <= 0x6000_0000 && abs(r0.1 as int) <= 0x6000_0000 && abs(
            r0.2 as int,
        ) <= 0x6000_0000);
    }
    let t: (i64, i64, i64) = (
        r0.0 + view_state.ref_x,
        r0.1 + view_state.ref_y,
        r0.2 + view_state.ref_z,
    );
    proof {
        assert(abs(t.0 as int) <= 0x6400_0000 && abs(t.1 as int) <= 0x6400_0000 && abs(
            t.2 as int,
        ) <= 0x6400_0000);
    }
    let q0: (i64, i64, i64) = (t.0, t.1, t.2 - view_state.camera_z);
    proof {
        assert(abs(q0.0 as int) + abs(q0.1 as int) + abs(q0.2 as int) <= 0x1_3000_0000);
    }
    let r1 = Operations::rotate(q0, &rotations.camera);
    proof {
        assert(abs(r1.0 as int) <= 0x9_8000_0000 && abs(r1.1 as int) <= 0x9_8000_0000 && abs(
            r1.2 as int,
        ) <= 0x9_8000_0000);
    }
    let q: (i64, i64, i64) = (
        r1.0 + view_state.camera_x,
        r1.1 + view_state.camera_y,
        r1.2 + view_state.camera_z,
    );
    (t, q)
}

/// Run one point through the pipeline: object rotation and reference
/// offset, camera stage, near cull, projection, footprint drawing.  The
/// buffers afterwards are the resolution of exactly the point's claims over
/// the buffers before; the returned vector is the point's object-stage
/// position, which the shading pass lights.
#[verifier::rlimit(100)]
fn raster_point(
    owners: &mut Vec<i64>,
    depths: &mut Vec<i64>,
    p: Pixel,
    i: usize,
    view_state: &ViewState,
    rotations: &FrameRotations,
    sf: i64,
    w: u32,
    h: u32,
) -> (t: (i64, i64, i64))
    requires
        p.wf(),
        view_state.wf(),
        rotations.wf(),
        sf as int == frame_scale_spec(*view_state),
        0 <= sf <= 0x400_0000_0000,
        w <= 16384,
        h <= 16384,
        old(depths).len() == (w as int) * (h as int),
        old(owners).len() == old(depths).len(),
        i <= 0xffff_ffff,
    ensures
        final(owners).len() == old(owners).len(),
        final(depths).len() == old(depths).len(),
        (t.0 as int, t.1 as int, t.2 as int) == transformed_spec(p, *rotations, *view_state),
        abs(t.0 as int) <= 0x1_0000_0000,
        abs(t.1 as int) <= 0x1_0000_0000,
        abs(t.2 as int) <= 0x1_0000_0000,
        buffer_view(final(owners)@, final(depths)@) == resolve(
            buffer_view(old(owners)@, old(depths)@),
            point_claims(p, i as int, *rotations, *view_state, w as int, h as int),
        ),
{
    let ghost st0 = buffer_view(old(owners)@, old(depths)@);
    let tq = transform_point(p, view_state, rotations);
    let t = tq.0;
    let q = tq.1;
    let ghost qs = positioned_spec(
        transformed_spec(p, *rotations, *view_state),
        *rotations,
        *view_state,
    );
    let depth: i64 = view_state.camera_z - q.2;
    let ghost pc = point_claims(p, i as int, *rotations, *view_state, w as int, h as int);
    if depth < view_state.z_offset {
        proof {
            assert(!point_visible(qs, *view_state));
            assert(pc =~= Seq::empty());
            assert(resolve(st0, pc) == st0);
        }
    } else {
        let proj = Operations::project(q, sf, w, h);
        proof {
            assert(0 <= (sf as int) * (p.size_factor as int) <= 0x10_0000_0000_0000 * (
            SCALE as int)) by (nonlinear_arith)
                requires
                    0 <= sf <= 0x400_0000_0000,
                    0 <= p.size_factor <= MAX_COORD,
                    MAX_COORD == 0x400_0000,
                    SCALE == 65536,
            ;
            crate::fixed::lemma_tdiv_bound(
                (sf as int) * (p.size_factor as int),
                SCALE as int,
                0x10_0000_0000_0000,
            );
        }
        let bsf: i64 = fx_mul(sf, p.size_factor);
        let bs: i64 = fx_ceil(bsf);
        Operations::draw_pixel(owners, depths, w, h, proj.0, proj.1, bs, depth, i as u32);
        proof {
            assert(point_visible(qs, *view_state));
            assert(pc == crate::resolve::block_claims(
                proj.0 as int,
                proj.1 as int,
                bs as int,
                depth as int,
                i as int,
                w as int,
                h as int,
            ));
        }
    }
    t
}

impl Renderer for CpuRenderer {
    open spec fn inv(&self) -> bool {
        self.wf()
    }

    open spec fn width(&self) -> int {
        self.canvas_width as int
    }

    open spec fn height(&self) -> int {
        self.canvas_height as int
    }

    open spec fn points(&self) -> Seq<Pixel> {
        self.pixels@
    }

    /// The frame is the resolved, shaded cloud: pixel `j`'s four bytes are
    /// [`shade_pixel`] of its owner under [`frame_resolution`].
    open spec fn render_ens(
        &self,
        view_state: ViewState,
        rotations: FrameRotations,
        light: Light,
        fb: Seq<u8>,
    ) -> bool {
        let w = self.canvas_width as int;
        let h = self.canvas_height as int;
        let res = frame_resolution(self.pixels@, rotations, view_state, w, h);
        forall|j: int|
            0 <= j < w * h ==> {
                let s = shade_pixel(#[trigger] res.owners[j], self.pixels@, rotations, view_state, light);
                fb[4 * j] == s.0 && fb[4 * j + 1] == s.1 && fb[4 * j + 2] == s.2 && fb[4 * j + 3]
                    == s.3
            }
    }

    #[verifier::rlimit(100)]
    fn render(
        &mut self,
        view_state: &ViewState,
        rotations: &FrameRotations,
        light: &Light,
    ) -> (fb: Vec<u8>)
    {
        let w: u32 = self.canvas_width;
        let h: u32 = self.canvas_height;
        proof {
            assert(0 <= (w as int) * (h as int) <= 0x1000_0000) by (nonlinear_arith)
                requires
                    w <= 16384,
                    h <= 16384,
            ;
        }
        let size: usize = (w as usize) * (h as usize);
        let ghost wi = w as int;
        let ghost hi = h as int;
        let ghost pix = self.pixels@;
        let ghost blank = Resolution::blank((wi * hi) as nat);

        let mut owners: Vec<i64> = filled(size, NO_OWNER);
        let mut depths: Vec<i64> = filled(size, DEPTH_EMPTY);
        proof {
            assert(buffer_view(owners@, depths@).depths =~= blank.depths);
            assert(buffer_view(owners@, depths@).owners =~= blank.owners);
            assert(buffer_view(owners@, depths@) =~= blank);
        }

        // The scale factor is constant over the frame.
        let denom: i64 = view_state.camera_z - view_state.ref_z;
        let sf: i64 = if denom >= 1 {
            proof {
                assert(0 <= (view_state.scale as int) * (SCALE as int) <= 0x400_0000_0000)
                    by (nonlinear_arith)
                    requires
                        0 <= view_state.scale <= MAX_COORD,
                        SCALE == 65536,
                        MAX_COORD == 0x400_0000,
                ;
                assert(0x7fff_ffff_ffff_ffff * (denom as int) >= 0x7fff_ffff_ffff_ffff)
                    by (nonlinear_arith)
                    requires
                        denom >= 1,
                ;
                vstd::arithmetic::div_mod::lemma_div_pos_is_pos(
                    (view_state.scale as int) * (SCALE as int),
                    denom as int,
                );
                vstd::arithmetic::div_mod::lemma_div_nonincreasing(
                    (view_state.scale as int) * (SCALE as int),
                    denom as int,
                );
            }
            fx_div(view_state.scale, denom)
        } else {
            0
        };
        proof {
            assert(sf as int == frame_scale_spec(*view_state));
            assert(0 <= sf <= 0x400_0000_0000);
        }

        let mut transformed: Vec<(i64, i64, i64)> = Vec::new();
        let mut i: usize = 0;
        while i < self.pixels.len()
            invariant
                self.pixels@ == pix,
                self.wf(),
                view_state.wf(),
                rotations.wf(),
                i <= pix.len(),
                wi == self.canvas_width as int,
                hi == self.canvas_height as int,
                w == self.canvas_width,
                h == self.canvas_height,
                blank == Resolution::blank((wi * hi) as nat),
                owners@.len() == (wi * hi) as int,
                depths@.len() == owners@.len(),
                sf as int == frame_scale_spec(*view_state),
                0 <= sf <= 0x400_0000_0000,
                transformed@.len() == i,
                forall|k: int|
                    0 <= k < i ==> (#[trigger] transformed@[k].0 as int, transformed@[k].1 as int,
                    transformed@[k].2 as int) == transformed_spec(pix[k], *rotations, *view_state),
                forall|k: int|
                    0 <= k < i ==> abs(#[trigger] transformed@[k].0 as int) <= 0x1_0000_0000
                        && abs(transformed@[k].1 as int) <= 0x1_0000_0000 && abs(
                        transformed@[k].2 as int,
                    ) <= 0x1_0000_0000,
                buffer_view(owners@, depths@) == resolve(
                    blank,
                    frame_claims(pix, *rotations, *view_state, wi, hi, i as int),
                ),
            decreases pix.len() - i,
        {
            let p: Pixel = self.pixels[i];
            let t = raster_point(
                &mut owners,
                &mut depths,
                p,
                i,
                view_state,
                rotations,
                sf,
                w,
                h,
            );
            transformed.push(t);
            proof {
                let fc_i = frame_claims(pix, *rotations, *view_state, wi, hi, i as int);
                let pc = point_claims(pix[i as int], i as int, *rotations, *view_state, wi, hi);
                lemma_resolve_concat(blank, fc_i, pc);
                assert(frame_claims(pix, *rotations, *view_state, wi, hi, i as int + 1) == fc_i
                    + pc);
            }
            i = i + 1;
        }

        let ghost res = frame_resolution(pix, *rotations, *view_state, wi, hi);
        proof {
            assert(buffer_view(owners@, depths@) == res);
        }

        // Deferred shading: light only each pixel's winner.
        let mut fb: Vec<u8> = Vec::new();
        let mut j: usize = 0;
        while j < size
            invariant
                self.pixels@ == pix,
                self.wf(),
                view_state.wf(),
                rotations.wf(),
                light.wf(),
                j <= size,
                size as int == wi * hi,
                wi == self.canvas_width as int,
                hi == self.canvas_height as int,
                owners@.len() == size,
                depths@.len() == size,
                transformed@.len() == pix.len(),
                forall|k: int|
                    0 <= k < pix.len() ==> (#[trigger] transformed@[k].0 as int,
                    transformed@[k].1 as int, transformed@[k].2 as int) == transformed_spec(
                        pix[k],
                        *rotations,
                        *view_state,
                    ),
                forall|k: int|
                    0 <= k < pix.len() ==> abs(#[trigger] transformed@[k].0 as int)
                        <= 0x1_0000_0000 && abs(transformed@[k].1 as int) <= 0x1_0000_0000 && abs(
                        transformed@[k].2 as int,
                    ) <= 0x1_0000_0000,
                res == frame_resolution(pix, *rotations, *view_state, wi, hi),
                buffer_view(owners@, depths@) == res,
                fb@.len() == 4 * j,
                forall|k: int|
                    0 <= k < j ==> {
                        let s = shade_pixel(#[trigger] res.owners[k], pix, *rotations, *view_state, *light);
                        fb@[4 * k] == s.0 && fb@[4 * k + 1] == s.1 && fb@[4 * k + 2] == s.2
                            && fb@[4 * k + 3] == s.3
                    },
            decreases size - j,
        {
            proof {
                lemma_frame_owner_range(pix, *rotations, *view_state, wi, hi, j as int);
                assert(res.owners[j as int] == owners@[j as int] as int);
            }
            let o: i64 = owners[j];
            if o < 0 {
                fb.push(0);
                fb.push(0);
                fb.push(0);
                fb.push(0);
                proof {
                    assert(shade_pixel(res.owners[j as int], pix, *rotations, *view_state, *light)
                        == (0int, 0int, 0int, 0int));
                }
            } else {
                let oi: usize = o as usize;
                let p: Pixel = self.pixels[oi];
                let t: (i64, i64, i64) = transformed[oi];
                let lit = Operations::apply_lighting(
                    t,
                    (p.r, p.g, p.b),
                    (light.x, light.y, light.z),
                    light.intensity,
                );
                fb.push(to_byte(p.a));
                fb.push(to_byte(lit.2));
                fb.push(to_byte(lit.1));
                fb.push(to_byte(lit.0));
            }
            j = j + 1;
        }
        proof {
            assert(fb@.len() == 4 * (wi * hi));
            assert(4 * (wi * hi) == 4 * wi * hi) by (nonlinear_arith);
        }
        fb
    }

    fn load_pixels(&mut self, new_pixels: Vec<Pixel>) {
        let ghost before = self.pixels@;
        let mut incoming = new_pixels;
        self.pixels.append(&mut incoming);
        proof {
            assert(self.pixels@ =~= before + new_pixels@);
        }
    }

    fn resize(&mut self, width: u32, height: u32) {
        self.canvas_width = width;
        self.canvas_height = height;
    }
}

} // verus!

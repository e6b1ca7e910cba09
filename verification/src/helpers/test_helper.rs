//! A generated point cloud: the shell of a cube.
//!
//! The cloud that seeds the renderer when no model is loaded: a cube of
//! side `size`, sampled on a lattice of `step` points per axis where `step`
//! is the cube root of the requested point budget, keeping only the lattice
//! cells on the cube's six faces, each colored from a fixed palette by its
//! lattice coordinates.

use vstd::prelude::*;
use crate::fixed::{SCALE, tdiv, cbrt_floor, icbrt, tdiv_i64};
use crate::types::pixel::{MAX_COORD, Pixel};

verus! {

/// The palette: a color for each residue of the lattice coordinate sum.
pub open spec fn cube_color(n: int) -> (int, int, int) {
    let c = n % 6;
    if c == 0 {
        (SCALE as int, 0, 0)
    } else if c == 1 {
        (0, SCALE as int, 0)
    } else if c == 2 {
        (0, 0, SCALE as int)
    } else if c == 3 {
        (SCALE as int, SCALE as int, 0)
    } else if c == 4 {
        (SCALE as int, 0, SCALE as int)
    } else {
        (0, SCALE as int, SCALE as int)
    }
}

/// Where lattice index `idx` sits on an axis: centered around the origin,
/// half a cell in from the cube's corner.
pub open spec fn cube_pos(idx: int, step_size: int, size: int) -> int {
    idx * step_size - tdiv(size, 2) + tdiv(step_size, 2)
}

/// Whether a lattice cell lies on one of the cube's six faces.
pub open spec fn on_face(i: int, j: int, k: int, step: int) -> bool {
    i == 0 || i == step - 1 || j == 0 || j == step - 1 || k == 0 || k == step - 1
}

/// The point of one lattice cell, if it is on a face.
pub open spec fn cube_cell(i: int, j: int, k: int, step: int, ss: int, size: int) -> Seq<
    Pixel,
> {
    if on_face(i, j, k, step) {
        let color = cube_color(i + j + k);
        seq![
            Pixel {
                id: 0,
                x: cube_pos(i, ss, size) as i64,
                y: cube_pos(j, ss, size) as i64,
                z: cube_pos(k, ss, size) as i64,
                r: color.0 as i64,
                g: color.1 as i64,
                b: color.2 as i64,
                a: SCALE,
                size_factor: ss as i64,
            },
        ]
    } else {
        Seq::empty()
    }
}

/// The points of one lattice row's first `k` cells.
pub open spec fn cube_row(i: int, j: int, k: int, step: int, ss: int, size: int) -> Seq<Pixel>
    decreases k,
{
    if k <= 0 {
        Seq::empty()
    } else {
        cube_row(i, j, k - 1, step, ss, size) + cube_cell(i, j, k - 1, step, ss, size)
    }
}

/// The points of one lattice plane's first `j` rows.
pub open spec fn cube_plane(i: int, j: int, step: int, ss: int, size: int) -> Seq<Pixel>
    decreases j,
{
    if j <= 0 {
        Seq::empty()
    } else {
        cube_plane(i, j - 1, step, ss, size) + cube_row(i, j - 1, step, step, ss, size)
    }
}

/// The points of the lattice's first `i` planes.
pub open spec fn cube_planes(i: int, step: int, ss: int, size: int) -> Seq<Pixel>
    decreases i,
{
    if i <= 0 {
        Seq::empty()
    } else {
        cube_planes(i - 1, step, ss, size) + cube_plane(i - 1, step, step, ss, size)
    }
}

/// The whole generated cloud for a point budget and a cube side.
pub open spec fn cube_pixels_spec(iters: int, size: int) -> Seq<Pixel> {
    let step = cbrt_floor(iters);
    let ss = if step >= 1 {
        tdiv(size, step)
    } else {
        0
    };
    cube_planes(step, step, ss, size)
}

/// Generators of seed clouds.
pub struct TestHelper {}

impl TestHelper {
    /// Generate the cube-shell cloud: exactly [`cube_pixels_spec`] of the
    /// budget and the side, together with its point count.  Every generated
    /// point is well-formed.
    #[verifier::rlimit(100)]
    pub fn generate_cube_pixels(iters: usize, size: i64) -> (r: (Vec<Pixel>, usize))
        requires
            0 <= size <= MAX_COORD,
            iters <= 0xffff_ffff,
        ensures
            r.0@ == cube_pixels_spec(iters as int, size as int),
            r.1 == r.0@.len(),
            forall|q: int| 0 <= q < r.0@.len() ==> r.0@[q].wf(),
    {
        let step32: u32 = icbrt(iters as u64);
        let step: usize = step32 as usize;
        let ghost stepi = step as int;
        let ghost sizei = size as int;
        if step == 0 {
            return (Vec::new(), 0);
        }
        proof {
            assert((stepi) * (stepi) * (stepi) <= iters as int) by {
                crate::fixed::lemma_cbrt_floor_props(iters as int);
            }
            if stepi > 0x1000 {
                assert(stepi * stepi * stepi > 0x1000 * 0x1000 * 0x1000int) by (nonlinear_arith)
                    requires
                        stepi > 0x1000,
                ;
                assert(false);
            }
            vstd::arithmetic::div_mod::lemma_div_pos_is_pos(sizei, stepi);
            vstd::arithmetic::div_mod::lemma_div_nonincreasing(sizei, stepi);
            vstd::arithmetic::div_mod::lemma_fundamental_div_mod(sizei, stepi);
            vstd::arithmetic::div_mod::lemma_mod_division_less_than_divisor(sizei, stepi);
        }
        let step_size: i64 = tdiv_i64(size, step as i64);
        let ghost ss = step_size as int;
        proof {
            assert(stepi * ss <= sizei && 0 <= stepi * ss) by (nonlinear_arith)
                requires
                    stepi >= 1,
                    ss == sizei / stepi,
                    sizei == stepi * (sizei / stepi) + sizei % stepi,
                    0 <= sizei % stepi,
                    0 <= ss,
            ;
        }
        let half_size: i64 = tdiv_i64(size, 2);
        let half_ss: i64 = tdiv_i64(step_size, 2);
        let mut pixels: Vec<Pixel> = Vec::new();
        let mut i: usize = 0;
        while i < step
            invariant
                i <= step,
                step == stepi,
                1 <= stepi <= 0x1000,
                0 <= size <= MAX_COORD,
                sizei == size as int,
                ss == step_size as int,
                0 <= step_size <= size,
                stepi * ss <= sizei,
                ss == tdiv(sizei, stepi),
                half_size as int == tdiv(sizei, 2),
                half_ss as int == tdiv(ss, 2),
                pixels@ == cube_planes(i as int, stepi, ss, sizei),
                forall|q: int| 0 <= q < pixels@.len() ==> pixels@[q].wf(),
            decreases step - i,
        {
            let mut j: usize = 0;
            while j < step
                invariant
                    i < step,
                    j <= step,
                    step == stepi,
                    1 <= stepi <= 0x1000,
                    0 <= size <= MAX_COORD,
                    sizei == size as int,
                    ss == step_size as int,
                    0 <= step_size <= size,
                    stepi * ss <= sizei,
                    ss == tdiv(sizei, stepi),
                    half_size as int == tdiv(sizei, 2),
                    half_ss as int == tdiv(ss, 2),
                    pixels@ == cube_planes(i as int, stepi, ss, sizei) + cube_plane(
                        i as int,
                        j as int,
                        stepi,
                        ss,
                        sizei,
                    ),
                    forall|q: int| 0 <= q < pixels@.len() ==> pixels@[q].wf(),
                decreases step - j,
            {
                let mut k: usize = 0;
                while k < step
                    invariant
                        i < step,
                        j < step,
                        k <= step,
                        step == stepi,
                        1 <= stepi <= 0x1000,
                        0 <= size <= MAX_COORD,
                        sizei == size as int,
                        ss == step_size as int,
                        0 <= step_size <= size,
                        stepi * ss <= sizei,
                        ss == tdiv(sizei, stepi),
                        half_size as int == tdiv(sizei, 2),
                        half_ss as int == tdiv(ss, 2),
                        pixels@ == cube_planes(i as int, stepi, ss, sizei) + cube_plane(
                            i as int,
                            j as int,
                            stepi,
                            ss,
                            sizei,
                        ) + cube_row(i as int, j as int, k as int, stepi, ss, sizei),
                            forall|q: int| 0 <= q < pixels@.len() ==> pixels@[q].wf(),
                    decreases step - k,
                {
                    let is_face = i == 0 || i == step - 1 || j == 0 || j == step - 1 || k == 0
                        || k == step - 1;
                    if is_face {
                        proof {
                            assert((i as int) * ss <= stepi * ss && (j as int) * ss <= stepi * ss
                                && (k as int) * ss <= stepi * ss) by (nonlinear_arith)
                                requires
                                    0 <= (i as int) && (i as int) < stepi,
                                    0 <= (j as int) && (j as int) < stepi,
                                    0 <= (k as int) && (k as int) < stepi,
                                    0 <= ss,
                            ;
                        }
                        let c: usize = (i + j + k) % 6;
                        proof {
                            vstd::arithmetic::div_mod::lemma_small_mod(c as nat, 6);
                            assert(cube_color(c as int) == cube_color((i + j + k) as int));
                        }
                        let color = palette(c);
                        let px = lattice_pos(i, step_size, half_size, half_ss, size);
                        let py = lattice_pos(j, step_size, half_size, half_ss, size);
                        let pz = lattice_pos(k, step_size, half_size, half_ss, size);
                        proof {
                            assert(px as int == cube_pos(i as int, ss, sizei) && py as int
                                == cube_pos(j as int, ss, sizei) && pz as int == cube_pos(
                                k as int,
                                ss,
                                sizei,
                            ));
                        }
                        let p = Pixel {
                            id: 0,
                            x: px,
                            y: py,
                            z: pz,
                            r: color.0,
                            g: color.1,
                            b: color.2,
                            a: SCALE,
                            size_factor: step_size,
                        };
                        pixels.push(p);
                        proof {
                            assert(cube_cell(i as int, j as int, k as int, stepi, ss, sizei)
                                =~= seq![p]);
                        }
                    } else {
                        proof {
                            assert(cube_cell(i as int, j as int, k as int, stepi, ss, sizei)
                                =~= Seq::<Pixel>::empty());
                        }
                    }
                    proof {
                        assert(pixels@ =~= cube_planes(i as int, stepi, ss, sizei) + cube_plane(
                            i as int,
                            j as int,
                            stepi,
                            ss,
                            sizei,
                        ) + cube_row(i as int, j as int, k as int + 1, stepi, ss, sizei));
                    }
                    k = k + 1;
                }
                proof {
                    assert(pixels@ =~= cube_planes(i as int, stepi, ss, sizei) + cube_plane(
                        i as int,
                        j as int + 1,
                        stepi,
                        ss,
                        sizei,
                    ));
                }
                j = j + 1;
            }
            proof {
                assert(pixels@ =~= cube_planes(i as int + 1, stepi, ss, sizei));
            }
            i = i + 1;
        }
        let n = pixels.len();
        (pixels, n)
    }
}

/// The palette entry of a residue.
fn palette(c: usize) -> (r: (i64, i64, i64))
    requires
        c < 6,
    ensures
        (r.0 as int, r.1 as int, r.2 as int) == cube_color(c as int),
        0 <= r.0 <= SCALE,
        0 <= r.1 <= SCALE,
        0 <= r.2 <= SCALE,
{
    if c == 0 {
        (SCALE, 0, 0)
    } else if c == 1 {
        (0, SCALE, 0)
    } else if c == 2 {
        (0, 0, SCALE)
    } else if c == 3 {
        (SCALE, SCALE, 0)
    } else if c == 4 {
        (SCALE, 0, SCALE)
    } else {
        (0, SCALE, SCALE)
    }
}

/// One lattice coordinate, bounded by the cube's own extent.
fn lattice_pos(idx: usize, step_size: i64, half_size: i64, half_ss: i64, size: i64) -> (r: i64)
    requires
        0 <= step_size <= size <= MAX_COORD,
        idx <= 0x1000,
        (idx as int) * (step_size as int) <= size,
        half_size as int == tdiv(size as int, 2),
        half_ss as int == tdiv(step_size as int, 2),
    ensures
        r as int == cube_pos(idx as int, step_size as int, size as int),
        -MAX_COORD <= r <= MAX_COORD,
{
    proof {
        assert(0 <= (idx as int) * (step_size as int)) by (nonlinear_arith)
            requires
                idx >= 0,
                step_size >= 0,
        ;
        vstd::arithmetic::div_mod::lemma_div_pos_is_pos(size as int, 2);
        vstd::arithmetic::div_mod::lemma_div_nonincreasing(size as int, 2);
        vstd::arithmetic::div_mod::lemma_div_pos_is_pos(step_size as int, 2);
        vstd::arithmetic::div_mod::lemma_div_nonincreasing(step_size as int, 2);
    }
    (idx as i64) * step_size - half_size + half_ss
}

} // verus!

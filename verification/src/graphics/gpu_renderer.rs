//! The batched parallel rasterizer's decision core.
//!
//! The device runs the same logical pipeline as the serial rasterizer, as
//! three passes — depth resolution, lighting, composition — each dispatched
//! over fixed-size batches of the cloud, because one dispatch accepts only
//! limited parallel units.  Batches are submitted in order and a pass's
//! batches complete before the next pass starts; within one dispatch the
//! units race, and a per-pixel lock serializes each pixel's
//! compare-and-update.  The host performs the dispatches; everything it must
//! decide — the batch ranges and the frame constants — is computed here, and
//! the law at the bottom states why the discipline is enough: however the
//! locked updates interleave, the resolved depths equal the serial
//! rasterizer's, and with no depth ties the owners do too.

use vstd::prelude::*;
use crate::graphics::frame::{frame_claims, frame_resolution};
use crate::resolve::{Claim, Resolution, min_i, no_depth_ties, resolve};
use crate::types::pixel::Pixel;
use crate::types::rotation::FrameRotations;
use crate::types::view_state::ViewState;

verus! {

/// How many batches a cloud of `n` points needs at `batch_size` points per
/// dispatch: the count of full batches plus one for the remainder.
pub fn num_batches(n: usize, batch_size: usize) -> (r: usize)
    requires
        1 <= batch_size <= 0x7fff_ffff,
        n <= 0x7fff_ffff,
    ensures
        r == (n + batch_size - 1) as int / batch_size as int,
        n > 0 ==> r >= 1,
        (r as int) * (batch_size as int) >= n,
{
    proof {
        vstd::arithmetic::div_mod::lemma_div_pos_is_pos(
            n as int + batch_size as int - 1,
            batch_size as int,
        );
        vstd::arithmetic::div_mod::lemma_div_nonincreasing(
            n as int + batch_size as int - 1,
            batch_size as int,
        );
        if n > 0 {
            vstd::arithmetic::div_mod::lemma_div_is_ordered(
                batch_size as int,
                n as int + batch_size as int - 1,
                batch_size as int,
            );
            vstd::arithmetic::div_mod::lemma_div_by_self(batch_size as int);
        }
        vstd::arithmetic::div_mod::lemma_fundamental_div_mod(
            n as int + batch_size as int - 1,
            batch_size as int,
        );
        vstd::arithmetic::div_mod::lemma_mod_division_less_than_divisor(
            n as int + batch_size as int - 1,
            batch_size as int,
        );
        let q = (n as int + batch_size as int - 1) / (batch_size as int);
        assert((batch_size as int) * q == q * (batch_size as int)) by (nonlinear_arith);
    }
    ((n + batch_size) - 1) / batch_size
}

/// The half-open point range of one batch: `batch_size` points from its
/// start, clipped at the cloud's end.
pub fn batch_bounds(batch_index: usize, n: usize, batch_size: usize) -> (r: (usize, usize))
    requires
        1 <= batch_size <= 0x7fff_ffff,
        n <= 0x7fff_ffff,
        (batch_index as int) * (batch_size as int) < n,
    ensures
        r.0 == (batch_index as int) * (batch_size as int),
        r.1 == min_i(r.0 as int + batch_size as int, n as int),
        r.0 < r.1 <= n,
{
    proof {
        assert(0 <= (batch_index as int) * (batch_size as int)) by (nonlinear_arith)
            requires
                batch_index >= 0,
                batch_size >= 1,
        ;
    }
    let start: usize = batch_index * batch_size;
    let end: usize = if n - start < batch_size {
        n
    } else {
        start + batch_size
    };
    (start, end)
}

/// The claims the batch starting at point `lo` contributes: the whole
/// frame's claim sequence, cut to that batch's points.
pub open spec fn batch_claims(cs: Seq<Claim>, batch_size: int, i: int) -> Seq<Claim> {
    cs.subrange(
        min_i(i * batch_size, cs.len() as int),
        min_i((i + 1) * batch_size, cs.len() as int),
    )
}

/// The first `k` batches, concatenated in submission order.
pub open spec fn concat_batches(cs: Seq<Claim>, batch_size: int, k: int) -> Seq<Claim>
    decreases k,
{
    if k <= 0 {
        Seq::empty()
    } else {
        concat_batches(cs, batch_size, k - 1) + batch_claims(cs, batch_size, k - 1)
    }
}

/// Submitting batches in order loses and reorders nothing: the first `k`
/// batches concatenate to exactly the first `min(k * batch_size, n)` claims.
pub proof fn lemma_batches_cover(cs: Seq<Claim>, batch_size: int, k: int)
    requires
        batch_size >= 1,
        k >= 0,
    ensures
        concat_batches(cs, batch_size, k) == cs.subrange(
            0,
            min_i(k * batch_size, cs.len() as int),
        ),
    decreases k,
{
    let n = cs.len() as int;
    if k == 0 {
        assert(k * batch_size == 0) by (nonlinear_arith)
            requires
                k == 0,
        ;
        assert(cs.subrange(0, 0) =~= Seq::<Claim>::empty());
    } else {
        lemma_batches_cover(cs, batch_size, k - 1);
        assert((k - 1) * batch_size <= k * batch_size && 0 <= (k - 1) * batch_size && ((k - 1)
            + 1) * batch_size == k * batch_size) by (nonlinear_arith)
            requires
                k >= 1,
                batch_size >= 1,
        ;
        let a = min_i((k - 1) * batch_size, n);
        let b = min_i(k * batch_size, n);
        assert(batch_claims(cs, batch_size, k - 1) == cs.subrange(a, b));
        assert(cs.subrange(0, a) + cs.subrange(a, b) =~= cs.subrange(0, b));
        assert(concat_batches(cs, batch_size, k) == concat_batches(cs, batch_size, k - 1)
            + batch_claims(cs, batch_size, k - 1));
        assert(concat_batches(cs, batch_size, k - 1) == cs.subrange(0, a));
        assert(concat_batches(cs, batch_size, k) == cs.subrange(0, b));
    }
}

/// Every batch of a cloud, concatenated, is the whole cloud's claim
/// sequence.
pub proof fn lemma_all_batches(cs: Seq<Claim>, batch_size: int, k: int)
    requires
        batch_size >= 1,
        k >= 0,
        k * batch_size >= cs.len(),
    ensures
        concat_batches(cs, batch_size, k) == cs,
{
    lemma_batches_cover(cs, batch_size, k);
    assert(cs.subrange(0, cs.len() as int) =~= cs);
}

/// The maps after the first `k` batches have been submitted and completed,
/// one after the other.
pub open spec fn resolve_batches(st: Resolution, cs: Seq<Claim>, batch_size: int, k: int)
    -> Resolution
    decreases k,
{
    if k <= 0 {
        st
    } else {
        resolve(resolve_batches(st, cs, batch_size, k - 1), batch_claims(cs, batch_size, k - 1))
    }
}

/// Sequential submission is sound: letting every batch complete before the
/// next is dispatched resolves exactly what resolving the whole claim
/// sequence at once would.
pub proof fn lemma_sequential_batches(st: Resolution, cs: Seq<Claim>, batch_size: int, k: int)
    requires
        batch_size >= 1,
        k >= 0,
        k * batch_size >= cs.len(),
    ensures
        resolve_batches(st, cs, batch_size, k) == resolve(st, cs),
{
    lemma_all_batches(cs, batch_size, k);
    lemma_resolve_batches_concat(st, cs, batch_size, k);
}

/// Resolving batch after batch resolves their concatenation.
proof fn lemma_resolve_batches_concat(st: Resolution, cs: Seq<Claim>, batch_size: int, k: int)
    requires
        batch_size >= 1,
        k >= 0,
    ensures
        resolve_batches(st, cs, batch_size, k) == resolve(st, concat_batches(cs, batch_size, k)),
    decreases k,
{
    if k == 0 {
        assert(resolve(st, Seq::<Claim>::empty()) == st);
    } else {
        lemma_resolve_batches_concat(st, cs, batch_size, k - 1);
        crate::resolve::lemma_resolve_concat(
            st,
            concat_batches(cs, batch_size, k - 1),
            batch_claims(cs, batch_size, k - 1),
        );
    }
}

/// Backend agreement: the parallel rasterizer observes the frame's claims
/// in some order the lock discipline allows — any order at all that
/// preserves which claims arrive.  Whatever that order was, the resolved
/// depth map equals the serial rasterizer's, and provided no two claims on
/// a pixel carry equal depths, so does every pixel's winning point.
pub proof fn lemma_backend_agreement(
    pixels: Seq<Pixel>,
    rots: FrameRotations,
    view: ViewState,
    w: int,
    h: int,
    observed: Seq<Claim>,
)
    requires
        w >= 0,
        h >= 0,
        observed.to_multiset() == frame_claims(
            pixels,
            rots,
            view,
            w,
            h,
            pixels.len() as int,
        ).to_multiset(),
        no_depth_ties(frame_claims(pixels, rots, view, w, h, pixels.len() as int)),
    ensures
        resolve(Resolution::blank((w * h) as nat), observed) == frame_resolution(
            pixels,
            rots,
            view,
            w,
            h,
        ),
{
    let cs = frame_claims(pixels, rots, view, w, h, pixels.len() as int);
    let blank = Resolution::blank((w * h) as nat);
    crate::resolve::lemma_resolution_deterministic(blank, cs, observed);
}

} // verus!

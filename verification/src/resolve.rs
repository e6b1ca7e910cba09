//! The depth-resolution model.
//!
//! Many points may bid for the same canvas pixel; exactly one (or none) must
//! end up owning it.  A bid is a [`Claim`]; resolving a sequence of claims
//! folds them over a pair of per-pixel maps, the depth map and the owner
//! map, under one fixed convention: a claim takes a pixel if and only if its
//! depth is strictly smaller than the depth stored there.  Pixels start at
//! [`DEPTH_EMPTY`], so the first claim on a pixel always takes it.
//!
//! The laws at the bottom make the convention's point precise: the final
//! depth at a pixel is the minimum of all claimed depths regardless of the
//! order claims arrive in, and when no two claims on a pixel share a depth,
//! the final owner is also order-independent.  This is what lets a serial
//! pass and a batched parallel pass agree on every winner.

use vstd::prelude::*;

verus! {

/// Depth stored at a pixel nothing has claimed yet.  Every real claim's
/// depth lies strictly below it.
pub const DEPTH_EMPTY: i64 = 0x7fff_ffff_ffff_ffff;

/// Owner stored at a pixel nothing has claimed yet.
pub const NO_OWNER: i64 = -1;

/// One point's bid for one canvas pixel: the flat pixel index, the point's
/// camera-space depth, and the point's index in the cloud.
pub struct Claim {
    pub pix: int,
    pub depth: int,
    pub idx: int,
}

/// The per-pixel depth and owner maps over the flat canvas.
#[verifier::ext_equal]
pub struct Resolution {
    pub depths: Seq<int>,
    pub owners: Seq<int>,
}

impl Resolution {
    /// The two maps cover the same pixels.
    pub open spec fn wf(self) -> bool {
        self.owners.len() == self.depths.len()
    }

    /// The maps of a canvas of `n` pixels before any claim: every pixel
    /// empty.
    pub open spec fn blank(n: nat) -> Resolution {
        Resolution {
            depths: Seq::new(n, |i: int| DEPTH_EMPTY as int),
            owners: Seq::new(n, |i: int| NO_OWNER as int),
        }
    }
}

/// The effect of one claim: it takes its pixel if and only if the pixel is
/// on the canvas and the claim's depth is strictly smaller than the depth
/// stored there.
pub open spec fn apply_claim(st: Resolution, c: Claim) -> Resolution {
    if 0 <= c.pix < st.depths.len() && c.depth < st.depths[c.pix] {
        Resolution {
            depths: st.depths.update(c.pix, c.depth),
            owners: st.owners.update(c.pix, c.idx),
        }
    } else {
        st
    }
}

/// Fold a sequence of claims over the maps, first claim first.
pub open spec fn resolve(st: Resolution, cs: Seq<Claim>) -> Resolution
    decreases cs.len(),
{
    if cs.len() == 0 {
        st
    } else {
        resolve(apply_claim(st, cs[0]), cs.drop_first())
    }
}

/// The running minimum of `init` and the depths of the claims on pixel `p`,
/// accumulated in claim order.
pub open spec fn run_min(cs: Seq<Claim>, p: int, init: int) -> int
    decreases cs.len(),
{
    if cs.len() == 0 {
        init
    } else {
        run_min(
            cs.drop_first(),
            p,
            if cs[0].pix == p && cs[0].depth < init {
                cs[0].depth
            } else {
                init
            },
        )
    }
}

/// No two claims on the same pixel carry the same depth.
pub open spec fn no_depth_ties(cs: Seq<Claim>) -> bool {
    forall|i: int, j: int|
        0 <= i < j < cs.len() && cs[i].pix == cs[j].pix ==> cs[i].depth != cs[j].depth
}

/// The model an owner buffer and a depth buffer stand for.
pub open spec fn buffer_view(owners: Seq<i64>, depths: Seq<i64>) -> Resolution {
    Resolution {
        depths: depths.map_values(|d: i64| d as int),
        owners: owners.map_values(|o: i64| o as int),
    }
}

/// Updating the buffers updates the model pointwise.
pub proof fn lemma_buffer_view_update(
    owners: Seq<i64>,
    depths: Seq<i64>,
    i: int,
    o: i64,
    d: i64,
)
    requires
        0 <= i < depths.len(),
        owners.len() == depths.len(),
    ensures
        buffer_view(owners.update(i, o), depths.update(i, d)) == (Resolution {
            depths: buffer_view(owners, depths).depths.update(i, d as int),
            owners: buffer_view(owners, depths).owners.update(i, o as int),
        }),
{
    assert(buffer_view(owners.update(i, o), depths.update(i, d)).depths =~= buffer_view(
        owners,
        depths,
    ).depths.update(i, d as int));
    assert(buffer_view(owners.update(i, o), depths.update(i, d)).owners =~= buffer_view(
        owners,
        depths,
    ).owners.update(i, o as int));
}

/// The claims one splat makes on one canvas column: pixels `(u, v)` for
/// `v_lo <= v < v_hi`, in row order, all at the splat's depth.
pub open spec fn col_claims(u: int, v_lo: int, v_hi: int, w: int, depth: int, idx: int) -> Seq<
    Claim,
> {
    if v_hi <= v_lo {
        Seq::empty()
    } else {
        Seq::new((v_hi - v_lo) as nat, |k: int| Claim { pix: (v_lo + k) * w + u, depth, idx })
    }
}

/// The claims of the columns `u_lo <= u < u_hi`, column by column.
pub open spec fn cols_claims(
    u_lo: int,
    u_hi: int,
    v_lo: int,
    v_hi: int,
    w: int,
    depth: int,
    idx: int,
) -> Seq<Claim>
    decreases u_hi - u_lo,
{
    if u_hi <= u_lo {
        Seq::empty()
    } else {
        col_claims(u_lo, v_lo, v_hi, w, depth, idx) + cols_claims(
            u_lo + 1,
            u_hi,
            v_lo,
            v_hi,
            w,
            depth,
            idx,
        )
    }
}

/// Largest of two integers.
pub open spec fn max_i(a: int, b: int) -> int {
    if a >= b {
        a
    } else {
        b
    }
}

/// Smallest of two integers.
pub open spec fn min_i(a: int, b: int) -> int {
    if a <= b {
        a
    } else {
        b
    }
}

/// Every claim a splat anchored at `(x, y)` with a square footprint of
/// `block_size` pixels on a side makes on a `w` by `h` canvas: the part of
/// the square that lies on the canvas, in column order.
pub open spec fn block_claims(
    x: int,
    y: int,
    block_size: int,
    depth: int,
    idx: int,
    w: int,
    h: int,
) -> Seq<Claim> {
    cols_claims(
        max_i(x, 0),
        min_i(x + block_size, w),
        max_i(y, 0),
        min_i(y + block_size, h),
        w,
        depth,
        idx,
    )
}

/// Extending the column range by one column appends that column's claims.
pub proof fn lemma_cols_snoc(
    u_lo: int,
    u: int,
    v_lo: int,
    v_hi: int,
    w: int,
    depth: int,
    idx: int,
)
    requires
        u_lo <= u,
    ensures
        cols_claims(u_lo, u + 1, v_lo, v_hi, w, depth, idx) == cols_claims(
            u_lo,
            u,
            v_lo,
            v_hi,
            w,
            depth,
            idx,
        ) + col_claims(u, v_lo, v_hi, w, depth, idx),
    decreases u - u_lo,
{
    if u_lo == u {
        assert(cols_claims(u + 1, u + 1, v_lo, v_hi, w, depth, idx) =~= Seq::empty());
        assert(cols_claims(u_lo, u, v_lo, v_hi, w, depth, idx) =~= Seq::empty());
        assert(cols_claims(u_lo, u + 1, v_lo, v_hi, w, depth, idx) =~= cols_claims(
            u_lo,
            u,
            v_lo,
            v_hi,
            w,
            depth,
            idx,
        ) + col_claims(u, v_lo, v_hi, w, depth, idx));
    } else {
        lemma_cols_snoc(u_lo + 1, u, v_lo, v_hi, w, depth, idx);
        assert(cols_claims(u_lo, u + 1, v_lo, v_hi, w, depth, idx) =~= cols_claims(
            u_lo,
            u,
            v_lo,
            v_hi,
            w,
            depth,
            idx,
        ) + col_claims(u, v_lo, v_hi, w, depth, idx));
    }
}

/// Growing a column by one row appends that row's claim.
pub proof fn lemma_col_push(u: int, v_lo: int, v: int, w: int, depth: int, idx: int)
    requires
        v_lo <= v,
    ensures
        col_claims(u, v_lo, v + 1, w, depth, idx) == col_claims(u, v_lo, v, w, depth, idx).push(
            Claim { pix: v * w + u, depth, idx },
        ),
{
    assert(col_claims(u, v_lo, v + 1, w, depth, idx) =~= col_claims(
        u,
        v_lo,
        v,
        w,
        depth,
        idx,
    ).push(Claim { pix: v * w + u, depth, idx }));
}

/// Resolution never changes which pixels exist.
pub proof fn lemma_resolve_len(st: Resolution, cs: Seq<Claim>)
    requires
        st.wf(),
    ensures
        resolve(st, cs).depths.len() == st.depths.len(),
        resolve(st, cs).owners.len() == st.owners.len(),
        resolve(st, cs).wf(),
    decreases cs.len(),
{
    if cs.len() > 0 {
        assert(apply_claim(st, cs[0]).depths.len() == st.depths.len());
        assert(apply_claim(st, cs[0]).owners.len() == st.owners.len());
        lemma_resolve_len(apply_claim(st, cs[0]), cs.drop_first());
    }
}

/// Resolving a concatenation resolves the first part, then the second.
pub proof fn lemma_resolve_concat(st: Resolution, a: Seq<Claim>, b: Seq<Claim>)
    ensures
        resolve(st, a + b) == resolve(resolve(st, a), b),
    decreases a.len(),
{
    if a.len() == 0 {
        assert(a + b =~= b);
    } else {
        assert((a + b).drop_first() =~= a.drop_first() + b);
        lemma_resolve_concat(apply_claim(st, a[0]), a.drop_first(), b);
    }
}

/// Appending one claim applies it to the resolved state.
pub proof fn lemma_resolve_push(st: Resolution, cs: Seq<Claim>, c: Claim)
    ensures
        resolve(st, cs.push(c)) == apply_claim(resolve(st, cs), c),
{
    let one = seq![c];
    assert(cs.push(c) =~= cs + one);
    lemma_resolve_concat(st, cs, one);
    let mid = resolve(st, cs);
    assert(one.drop_first() =~= Seq::<Claim>::empty());
    assert(resolve(mid, one) == resolve(apply_claim(mid, one[0]), one.drop_first()));
    assert(resolve(apply_claim(mid, c), Seq::<Claim>::empty()) == apply_claim(mid, c));
}

/// After resolution, the depth at a pixel is the running minimum of its
/// initial depth and every claimed depth there.
pub proof fn lemma_resolve_depth_at(st: Resolution, cs: Seq<Claim>, p: int)
    requires
        st.wf(),
        0 <= p < st.depths.len(),
    ensures
        resolve(st, cs).depths[p] == run_min(cs, p, st.depths[p]),
    decreases cs.len(),
{
    if cs.len() > 0 {
        let st1 = apply_claim(st, cs[0]);
        lemma_resolve_depth_at(st1, cs.drop_first(), p);
    }
}

/// The running minimum is at most its seed, is a lower bound on every
/// claimed depth at the pixel, and is attained: it is the seed itself or
/// the depth of some claim on the pixel.
pub proof fn lemma_run_min_props(cs: Seq<Claim>, p: int, init: int)
    ensures
        run_min(cs, p, init) <= init,
        forall|i: int|
            0 <= i < cs.len() && cs[i].pix == p ==> run_min(cs, p, init) <= cs[i].depth,
        run_min(cs, p, init) == init || exists|i: int|
            0 <= i < cs.len() && cs[i].pix == p && cs[i].depth == run_min(cs, p, init),
    decreases cs.len(),
{
    if cs.len() > 0 {
        let init1 = if cs[0].pix == p && cs[0].depth < init {
            cs[0].depth
        } else {
            init
        };
        lemma_run_min_props(cs.drop_first(), p, init1);
        let m = run_min(cs, p, init);
        assert forall|i: int| 0 <= i < cs.len() && cs[i].pix == p implies m <= cs[i].depth by {
            if i > 0 {
                assert(cs.drop_first()[i - 1] == cs[i]);
            }
        }
        if m != init {
            if m == init1 {
                assert(cs[0].pix == p && cs[0].depth == m);
            } else {
                let i = choose|i: int|
                    0 <= i < cs.drop_first().len() && cs.drop_first()[i].pix == p
                        && cs.drop_first()[i].depth == m;
                assert(cs[i + 1].pix == p && cs[i + 1].depth == m);
            }
        }
    }
}

/// The running minimum depends only on which claims arrive, never on their
/// order.
pub proof fn lemma_run_min_permutation(cs1: Seq<Claim>, cs2: Seq<Claim>, p: int, init: int)
    requires
        cs1.to_multiset() == cs2.to_multiset(),
    ensures
        run_min(cs1, p, init) == run_min(cs2, p, init),
{
    broadcast use vstd::seq_lib::group_to_multiset_ensures;

    let m1 = run_min(cs1, p, init);
    let m2 = run_min(cs2, p, init);
    lemma_run_min_props(cs1, p, init);
    lemma_run_min_props(cs2, p, init);
    if m1 < m2 {
        let i = choose|i: int| 0 <= i < cs1.len() && cs1[i].pix == p && cs1[i].depth == m1;
        assert(cs1.contains(cs1[i]));
        assert(cs1.to_multiset().count(cs1[i]) > 0);
        assert(cs2.to_multiset().count(cs1[i]) > 0);
        assert(cs2.contains(cs1[i]));
        let j = choose|j: int| 0 <= j < cs2.len() && cs2[j] == cs1[i];
        assert(m2 <= cs2[j].depth);
        assert(false);
    }
    if m2 < m1 {
        let j = choose|j: int| 0 <= j < cs2.len() && cs2[j].pix == p && cs2[j].depth == m2;
        assert(cs2.contains(cs2[j]));
        assert(cs2.to_multiset().count(cs2[j]) > 0);
        assert(cs1.to_multiset().count(cs2[j]) > 0);
        assert(cs1.contains(cs2[j]));
        let i = choose|i: int| 0 <= i < cs1.len() && cs1[i] == cs2[j];
        assert(m1 <= cs1[i].depth);
        assert(false);
    }
}

/// After resolution, a pixel whose depth did not move keeps its owner; a
/// pixel whose depth moved is owned by a claim that bid exactly the final
/// depth there.
pub proof fn lemma_resolve_owner_at(st: Resolution, cs: Seq<Claim>, p: int)
    requires
        st.wf(),
        0 <= p < st.depths.len(),
    ensures
        resolve(st, cs).depths[p] <= st.depths[p],
        resolve(st, cs).depths[p] == st.depths[p] ==> resolve(st, cs).owners[p] == st.owners[p],
        resolve(st, cs).depths[p] < st.depths[p] ==> exists|i: int|
            0 <= i < cs.len() && cs[i].pix == p && cs[i].depth == resolve(st, cs).depths[p]
                && cs[i].idx == resolve(st, cs).owners[p],
    decreases cs.len(),
{
    if cs.len() > 0 {
        let st1 = apply_claim(st, cs[0]);
        lemma_resolve_owner_at(st1, cs.drop_first(), p);
        let fin = resolve(st, cs);
        if fin.depths[p] < st.depths[p] {
            if fin.depths[p] == st1.depths[p] && st1.depths[p] < st.depths[p] {
                assert(cs[0].pix == p && cs[0].depth == fin.depths[p] && cs[0].idx
                    == fin.owners[p]);
            } else {
                let i = choose|i: int|
                    0 <= i < cs.drop_first().len() && cs.drop_first()[i].pix == p
                        && cs.drop_first()[i].depth == fin.depths[p] && cs.drop_first()[i].idx
                        == fin.owners[p];
                assert(cs[i + 1].pix == p && cs[i + 1].depth == fin.depths[p] && cs[i + 1].idx
                    == fin.owners[p]);
            }
        }
    }
}

/// The depth map never depends on arrival order, ties or not: two arrival
/// orders of the same claims leave every pixel at the same depth.
pub proof fn lemma_depth_order_independent(
    st: Resolution,
    cs1: Seq<Claim>,
    cs2: Seq<Claim>,
    p: int,
)
    requires
        st.wf(),
        0 <= p < st.depths.len(),
        cs1.to_multiset() == cs2.to_multiset(),
    ensures
        resolve(st, cs1).depths[p] == resolve(st, cs2).depths[p],
{
    lemma_resolve_depth_at(st, cs1, p);
    lemma_resolve_depth_at(st, cs2, p);
    lemma_run_min_permutation(cs1, cs2, p, st.depths[p]);
}

/// Order independence of depth resolution at one pixel: two arrival orders
/// of the same claims leave the same depth there, and, provided no two
/// claims on the pixel share a depth, the same owner.
pub proof fn lemma_resolution_order_independent(
    st: Resolution,
    cs1: Seq<Claim>,
    cs2: Seq<Claim>,
    p: int,
)
    requires
        st.wf(),
        0 <= p < st.depths.len(),
        cs1.to_multiset() == cs2.to_multiset(),
        forall|i: int, j: int|
            0 <= i < cs1.len() && 0 <= j < cs1.len() && i != j && cs1[i].pix == p && cs1[j].pix
                == p ==> cs1[i].depth != cs1[j].depth,
    ensures
        resolve(st, cs1).depths[p] == resolve(st, cs2).depths[p],
        resolve(st, cs1).owners[p] == resolve(st, cs2).owners[p],
{
    broadcast use vstd::seq_lib::group_to_multiset_ensures;

    lemma_resolve_depth_at(st, cs1, p);
    lemma_resolve_depth_at(st, cs2, p);
    lemma_run_min_permutation(cs1, cs2, p, st.depths[p]);
    lemma_resolve_owner_at(st, cs1, p);
    lemma_resolve_owner_at(st, cs2, p);
    let fin1 = resolve(st, cs1);
    let fin2 = resolve(st, cs2);
    if fin1.depths[p] < st.depths[p] {
        let i = choose|i: int|
            0 <= i < cs1.len() && cs1[i].pix == p && cs1[i].depth == fin1.depths[p] && cs1[i].idx
                == fin1.owners[p];
        let j = choose|j: int|
            0 <= j < cs2.len() && cs2[j].pix == p && cs2[j].depth == fin2.depths[p] && cs2[j].idx
                == fin2.owners[p];
        assert(cs2.contains(cs2[j]));
        assert(cs2.to_multiset().count(cs2[j]) > 0);
        assert(cs1.to_multiset().count(cs2[j]) > 0);
        assert(cs1.contains(cs2[j]));
        let k = choose|k: int| 0 <= k < cs1.len() && cs1[k] == cs2[j];
        if k != i {
            assert(cs1[k].depth != cs1[i].depth);
            assert(false);
        }
    }
}

/// Order independence over the whole canvas: with no depth ties anywhere,
/// two arrival orders of the same claims resolve to identical depth and
/// owner maps.
pub proof fn lemma_resolution_deterministic(st: Resolution, cs1: Seq<Claim>, cs2: Seq<Claim>)
    requires
        st.wf(),
        cs1.to_multiset() == cs2.to_multiset(),
        no_depth_ties(cs1),
    ensures
        resolve(st, cs1) == resolve(st, cs2),
{
    lemma_resolve_len(st, cs1);
    lemma_resolve_len(st, cs2);
    assert forall|p: int| 0 <= p < st.depths.len() implies resolve(st, cs1).depths[p] == resolve(
        st,
        cs2,
    ).depths[p] && resolve(st, cs1).owners[p] == resolve(st, cs2).owners[p] by {
        lemma_resolution_order_independent(st, cs1, cs2, p);
    }
    assert(resolve(st, cs1).depths =~= resolve(st, cs2).depths);
    assert(resolve(st, cs1).owners =~= resolve(st, cs2).owners);
    assert(resolve(st, cs1) =~= resolve(st, cs2));
}

} // verus!

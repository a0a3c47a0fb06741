//! Cutting a recorded track into segments: `splits + 1` pieces of
//! `per_split` points each, a gap of `per_pad` points between two pieces.
use vstd::prelude::*;

verus! {

/// The `s`-th piece as a half-open range of point indices.
pub open spec fn piece(s: int, per_split: int, per_pad: int) -> (int, int) {
    (s * (per_split + per_pad), s * (per_split + per_pad) + per_split)
}

/// The pieces fit in a track of `num_points` points, and no sum on the way
/// exceeds a `usize`.
pub open spec fn split_fits(num_points: int, splits: int, per_split: int, per_pad: int) -> bool {
    &&& splits < usize::MAX
    &&& per_split + per_pad <= usize::MAX
    &&& splits * (per_split + per_pad) + per_split <= num_points
}

/// The start and end (exclusive) of each piece, the first piece first.
pub fn split_ranges(num_points: usize, splits: usize, per_split: usize, per_pad: usize) -> (res: Vec<
    (usize, usize),
>)
    requires
        split_fits(num_points as int, splits as int, per_split as int, per_pad as int),
    ensures
        res@.len() == splits + 1,
        forall|s: int|
            0 <= s <= splits ==> (#[trigger] res@[s]).0 as int == piece(
                s,
                per_split as int,
                per_pad as int,
            ).0 && res@[s].1 as int == piece(s, per_split as int, per_pad as int).1,
{
    let step = per_split + per_pad;
    let mut res: Vec<(usize, usize)> = Vec::new();
    let mut start: usize = 0;
    let mut s: usize = 0;
    while s <= splits
        invariant
            split_fits(num_points as int, splits as int, per_split as int, per_pad as int),
            step == per_split + per_pad,
            s <= splits + 1,
            s <= splits ==> start == s * step,
            res@.len() == s,
            forall|k: int|
                0 <= k < s ==> (#[trigger] res@[k]).0 as int == piece(
                    k,
                    per_split as int,
                    per_pad as int,
                ).0 && res@[k].1 as int == piece(k, per_split as int, per_pad as int).1,
        decreases splits + 1 - s,
    {
        assert(s * step <= splits * step) by (nonlinear_arith)
            requires
                s <= splits,
        ;
        let end = start + per_split;
        res.push((start, end));
        if s < splits {
            assert((s + 1) * step == s * step + step) by (nonlinear_arith);
            assert((s + 1) * step <= splits * step) by (nonlinear_arith)
                requires
                    s + 1 <= splits,
            ;
            start = start + step;
        }
        s = s + 1;
    }
    res
}

/// Law: every piece holds `per_split` points and lies inside the track, and
/// an earlier piece ends, `per_pad` points or more, before a later one
/// starts.
pub proof fn lemma_pieces_in_order(
    num_points: int,
    splits: int,
    per_split: int,
    per_pad: int,
    s: int,
    t: int,
)
    requires
        0 <= per_split,
        0 <= per_pad,
        split_fits(num_points, splits, per_split, per_pad),
        0 <= s < t <= splits,
    ensures
        piece(t, per_split, per_pad).1 - piece(t, per_split, per_pad).0 == per_split,
        0 <= piece(s, per_split, per_pad).0,
        piece(t, per_split, per_pad).1 <= num_points,
        piece(s, per_split, per_pad).1 + per_pad <= piece(t, per_split, per_pad).0,
{
    let step = per_split + per_pad;
    assert(0 <= s * step) by (nonlinear_arith)
        requires
            0 <= s,
            0 <= step,
    ;
    assert(t * step <= splits * step) by (nonlinear_arith)
        requires
            t <= splits,
            0 <= step,
    ;
    assert(s * step + step <= t * step) by (nonlinear_arith)
        requires
            s + 1 <= t,
            0 <= step,
    ;
}

} // verus!

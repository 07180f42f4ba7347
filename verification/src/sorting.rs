//! Depth ordering for the painter's algorithm.
//!
//! Three reference sorts put a triangle collection into descending order
//! of average depth (farthest first), so that rasterizing in order lets
//! nearer triangles overwrite farther ones.  All three guarantee the
//! same observable outcome: a permutation of the input, ordered by
//! descending `avg_depth`, and an input already so ordered comes back
//! unchanged (which also makes each sort idempotent).  Ties carry no
//! guarantee about the order of the tied triangles beyond those three
//! facts.

use vstd::prelude::*;

verus! {

use crate::triangle::Triangle;
use vstd::pervasive::VecAdditionalExecFns;
use vstd::seq_lib::group_to_multiset_ensures;

/// The sequence is ordered by descending average depth.
pub open spec fn depth_sorted(s: Seq<Triangle>) -> bool {
    forall|i: int, j: int| 0 <= i < j < s.len() ==> s[i].avg_depth >= s[j].avg_depth
}

/// The subrange `[lo, hi)` is ordered by descending average depth.
pub open spec fn depth_sorted_range(s: Seq<Triangle>, lo: int, hi: int) -> bool {
    forall|i: int, j: int| lo <= i < j < hi ==> s[i].avg_depth >= s[j].avg_depth
}

/// Exchange two triangles of a vector.
fn swap_tris(v: &mut Vec<Triangle>, i: usize, j: usize)
    requires
        i < old(v)@.len(),
        j < old(v)@.len(),
    ensures
        final(v)@ == old(v)@.update(i as int, old(v)@[j as int]).update(
            j as int,
            old(v)@[i as int],
        ),
        final(v)@.to_multiset() == old(v)@.to_multiset(),
        final(v)@.len() == old(v)@.len(),
{
    proof {
        broadcast use group_to_multiset_ensures;

    }
    let ti = v[i];
    let tj = v[j];
    v.set(i, tj);
    v.set(j, ti);
    proof {
        broadcast use vstd::seq_lib::to_multiset_update;
        broadcast use group_to_multiset_ensures;
        broadcast use vstd::multiset::group_multiset_axioms;

        assert(final(v)@.to_multiset() =~= old(v)@.to_multiset());
    }
}

/// A bound satisfied by every element of a sequence is satisfied by
/// every element of any permutation of it.
proof fn lemma_permutation_keeps_lower_bound(s1: Seq<Triangle>, s2: Seq<Triangle>, d: int)
    requires
        s1.to_multiset() == s2.to_multiset(),
        forall|k: int| 0 <= k < s1.len() ==> s1[k].avg_depth >= d,
    ensures
        forall|k: int| 0 <= k < s2.len() ==> s2[k].avg_depth >= d,
{
    broadcast use group_to_multiset_ensures;

    assert forall|k: int| 0 <= k < s2.len() implies s2[k].avg_depth >= d by {
        assert(s2.contains(s2[k]));
        assert(s2.to_multiset().count(s2[k]) > 0);
        assert(s1.contains(s2[k]));
        let w = choose|w: int| 0 <= w < s1.len() && s1[w] == s2[k];
        assert(s1[w].avg_depth >= d);
    }
}

/// The mirrored fact for an upper bound.
proof fn lemma_permutation_keeps_upper_bound(s1: Seq<Triangle>, s2: Seq<Triangle>, d: int)
    requires
        s1.to_multiset() == s2.to_multiset(),
        forall|k: int| 0 <= k < s1.len() ==> s1[k].avg_depth <= d,
    ensures
        forall|k: int| 0 <= k < s2.len() ==> s2[k].avg_depth <= d,
{
    broadcast use group_to_multiset_ensures;

    assert forall|k: int| 0 <= k < s2.len() implies s2[k].avg_depth <= d by {
        assert(s2.contains(s2[k]));
        assert(s2.to_multiset().count(s2[k]) > 0);
        assert(s1.contains(s2[k]));
        let w = choose|w: int| 0 <= w < s1.len() && s1[w] == s2[k];
        assert(s1[w].avg_depth <= d);
    }
}

/// Bubble sort by descending average depth.
///
/// Quadratic and in place; adjacent out-of-order pairs are exchanged
/// until none remain.
pub fn bubble_sort_by_depth_descending(triangles: &mut Vec<Triangle>)
    ensures
        depth_sorted(final(triangles)@),
        final(triangles)@.to_multiset() == old(triangles)@.to_multiset(),
        final(triangles)@.len() == old(triangles)@.len(),
        depth_sorted(old(triangles)@) ==> final(triangles)@ == old(triangles)@,
{
    let len = triangles.len();
    if len == 0 {
        return ;
    }
    let mut i: usize = 0;
    while i < len
        invariant
            len == triangles@.len(),
            len == old(triangles)@.len(),
            0 <= i <= len,
            triangles@.to_multiset() == old(triangles)@.to_multiset(),
            depth_sorted_range(triangles@, len - i, len as int),
            forall|k1: int, k2: int|
                0 <= k1 < len - i && len - i <= k2 < len ==> triangles@[k1].avg_depth
                    >= triangles@[k2].avg_depth,
            depth_sorted(old(triangles)@) ==> triangles@ == old(triangles)@,
        decreases len - i,
    {
        let mut j: usize = 0;
        while j < len - i - 1
            invariant
                len == triangles@.len(),
                len == old(triangles)@.len(),
                0 <= i < len,
                0 <= j <= len - i - 1,
                triangles@.to_multiset() == old(triangles)@.to_multiset(),
                depth_sorted_range(triangles@, len - i, len as int),
                forall|k1: int, k2: int|
                    0 <= k1 < len - i && len - i <= k2 < len ==> triangles@[k1].avg_depth
                        >= triangles@[k2].avg_depth,
                forall|k: int| 0 <= k <= j ==> triangles@[j as int].avg_depth <= triangles@[k].avg_depth,
                depth_sorted(old(triangles)@) ==> triangles@ == old(triangles)@,
            decreases len - i - 1 - j,
        {
            if triangles[j].avg_depth < triangles[j + 1].avg_depth {
                swap_tris(triangles, j, j + 1);
            }
            j = j + 1;
        }
        i = i + 1;
    }
}

/// Merge two descending runs into one, preferring the left run on ties.
fn merge_descending(left: &Vec<Triangle>, right: &Vec<Triangle>) -> (out: Vec<Triangle>)
    requires
        depth_sorted(left@),
        depth_sorted(right@),
    ensures
        depth_sorted(out@),
        out@.to_multiset() == left@.to_multiset().add(right@.to_multiset()),
        out@.len() == left@.len() + right@.len(),
        (left@.len() == 0 || right@.len() == 0 || left@[left@.len() - 1].avg_depth
            >= right@[0].avg_depth) ==> out@ == left@ + right@,
{
    proof {
        broadcast use group_to_multiset_ensures;

    }
    let ghost ordered = left@.len() == 0 || right@.len() == 0 || left@[left@.len()
        - 1].avg_depth >= right@[0].avg_depth;
    let mut out: Vec<Triangle> = Vec::new();
    let mut i: usize = 0;
    let mut j: usize = 0;
    while i < left.len() || j < right.len()
        invariant
            depth_sorted(left@),
            depth_sorted(right@),
            0 <= i <= left@.len(),
            0 <= j <= right@.len(),
            out@.len() == i + j,
            depth_sorted(out@),
            out@.to_multiset() == left@.take(i as int).to_multiset().add(
                right@.take(j as int).to_multiset(),
            ),
            forall|k: int|
                i <= k < left@.len() && out@.len() > 0 ==> out@[out@.len() - 1].avg_depth
                    >= left@[k].avg_depth,
            forall|k: int|
                j <= k < right@.len() && out@.len() > 0 ==> out@[out@.len() - 1].avg_depth
                    >= right@[k].avg_depth,
            ordered == (left@.len() == 0 || right@.len() == 0 || left@[left@.len()
                - 1].avg_depth >= right@[0].avg_depth),
            ordered ==> out@ == left@.take(i as int) + right@.take(j as int),
            ordered && j > 0 ==> i == left@.len(),
        decreases left@.len() + right@.len() - i - j,
    {
        let take_left = if i < left.len() && j < right.len() {
            left[i].avg_depth >= right[j].avg_depth
        } else {
            i < left.len()
        };
        if take_left {
            let x = left[i];
            out.push(x);
            proof {
                broadcast use group_to_multiset_ensures;
                broadcast use vstd::multiset::group_multiset_axioms;

                assert(left@.take(i + 1 as int) =~= left@.take(i as int).push(x));
                assert(out@.to_multiset() =~= left@.take(i + 1 as int).to_multiset().add(
                    right@.take(j as int).to_multiset()));
                if ordered {
                    assert(out@ =~= left@.take(i + 1 as int) + right@.take(j as int));
                }
            }
            i = i + 1;
        } else {
            let x = right[j];
            out.push(x);
            proof {
                broadcast use group_to_multiset_ensures;
                broadcast use vstd::multiset::group_multiset_axioms;

                assert(right@.take(j + 1 as int) =~= right@.take(j as int).push(x));
                assert(out@.to_multiset() =~= left@.take(i as int).to_multiset().add(
                    right@.take(j + 1 as int).to_multiset()));
                if ordered {
                    assert(i == left@.len());
                    assert(left@.take(i as int) =~= left@);
                    assert(out@ =~= left@.take(i as int) + right@.take(j + 1 as int));
                }
            }
            j = j + 1;
        }
    }
    proof {
        assert(left@.take(left@.len() as int) =~= left@);
        assert(right@.take(right@.len() as int) =~= right@);
        if ordered {
            assert(out@ =~= left@ + right@);
        }
    }
    out
}

/// Merge sort by descending average depth.
///
/// The collection is halved, each half sorted recursively, and the
/// sorted halves merged.
pub fn merge_sort_by_depth_descending(triangles: &mut Vec<Triangle>)
    ensures
        depth_sorted(final(triangles)@),
        final(triangles)@.to_multiset() == old(triangles)@.to_multiset(),
        final(triangles)@.len() == old(triangles)@.len(),
        depth_sorted(old(triangles)@) ==> final(triangles)@ == old(triangles)@,
    decreases old(triangles)@.len(),
{
    proof {
        broadcast use group_to_multiset_ensures;

    }
    let len = triangles.len();
    if len <= 1 {
        return ;
    }
    let mid = len / 2;
    let mut right = triangles.split_off(mid);
    proof {
        assert(old(triangles)@ =~= old(triangles)@.take(mid as int) + old(triangles)@.skip(
            mid as int));
        vstd::seq_lib::lemma_multiset_commutative(old(triangles)@.take(mid as int), old(
            triangles,
        )@.skip(mid as int));
        if depth_sorted(old(triangles)@) {
            assert(depth_sorted(triangles@));
            assert(depth_sorted(right@));
        }
    }
    let ghost left_in = triangles@;
    let ghost right_in = right@;
    merge_sort_by_depth_descending(triangles);
    merge_sort_by_depth_descending(&mut right);
    let merged = merge_descending(triangles, &right);
    proof {
        vstd::seq_lib::lemma_multiset_commutative(left_in, right_in);
        if depth_sorted(old(triangles)@) {
            assert(triangles@ == left_in);
            assert(right@ == right_in);
            assert(left_in.len() > 0 && right_in.len() > 0);
            assert(left_in[left_in.len() - 1] == old(triangles)@[mid - 1]);
            assert(right_in[0] == old(triangles)@[mid as int]);
            assert(merged@ == left_in + right_in);
            assert(merged@ =~= old(triangles)@);
        }
    }
    *triangles = merged;
}

/// Lomuto partition of `[lo, hi)` around the last element as pivot:
/// elements at least as deep as the pivot move to the front of the
/// range, the pivot lands between them and the strictly shallower rest.
fn partition_descending(v: &mut Vec<Triangle>, lo: usize, hi: usize) -> (p: usize)
    requires
        lo < hi <= old(v)@.len(),
    ensures
        lo <= p < hi,
        final(v)@.len() == old(v)@.len(),
        final(v)@.to_multiset() == old(v)@.to_multiset(),
        final(v)@.subrange(lo as int, hi as int).to_multiset() == old(v)@.subrange(
            lo as int,
            hi as int,
        ).to_multiset(),
        forall|k: int| 0 <= k < lo ==> final(v)@[k] == old(v)@[k],
        forall|k: int| hi <= k < final(v)@.len() ==> final(v)@[k] == old(v)@[k],
        forall|k: int|
            lo <= k < p ==> final(v)@[k].avg_depth >= final(v)@[p as int].avg_depth,
        forall|k: int| p < k < hi ==> final(v)@[k].avg_depth < final(v)@[p as int].avg_depth,
        depth_sorted_range(old(v)@, lo as int, hi as int) ==> final(v)@ == old(v)@ && p == hi
            - 1,
{
    proof {
        broadcast use group_to_multiset_ensures;

    }
    let pivot_idx = hi - 1;
    let pivot_depth = v[pivot_idx].avg_depth;
    let mut i: usize = lo;
    let mut j: usize = lo;
    while j < pivot_idx
        invariant
            lo < hi <= v@.len(),
            v@.len() == old(v)@.len(),
            pivot_idx == hi - 1,
            lo <= i <= j <= pivot_idx,
            pivot_depth == v@[pivot_idx as int].avg_depth,
            v@.to_multiset() == old(v)@.to_multiset(),
            v@.subrange(lo as int, hi as int).to_multiset() == old(v)@.subrange(
                lo as int,
                hi as int,
            ).to_multiset(),
            forall|k: int| 0 <= k < lo ==> v@[k] == old(v)@[k],
            forall|k: int| hi <= k < v@.len() ==> v@[k] == old(v)@[k],
            forall|k: int| lo <= k < i ==> v@[k].avg_depth >= pivot_depth,
            forall|k: int| i <= k < j ==> v@[k].avg_depth < pivot_depth,
            depth_sorted_range(old(v)@, lo as int, hi as int) ==> v@ == old(v)@ && i == j,
        decreases pivot_idx - j,
    {
        if v[j].avg_depth >= pivot_depth {
            let ghost before = v@;
            swap_tris(v, i, j);
            proof {
                assert(v@.subrange(lo as int, hi as int) =~= before.subrange(
                    lo as int,
                    hi as int,
                ).update(i - lo, before[j as int]).update(j - lo, before[i as int]));
                broadcast use vstd::seq_lib::to_multiset_update;
                broadcast use group_to_multiset_ensures;
                broadcast use vstd::multiset::group_multiset_axioms;

                assert(v@.subrange(lo as int, hi as int).to_multiset() =~= before.subrange(
                    lo as int,
                    hi as int,
                ).to_multiset());
                if depth_sorted_range(old(v)@, lo as int, hi as int) {
                    assert(i == j);
                    assert(v@ =~= before);
                }
            }
            i = i + 1;
        }
        j = j + 1;
    }
    let ghost before = v@;
    swap_tris(v, i, pivot_idx);
    proof {
        assert(v@.subrange(lo as int, hi as int) =~= before.subrange(lo as int, hi as int)
            .update(i - lo, before[pivot_idx as int]).update(pivot_idx - lo, before[i as int]));
        broadcast use vstd::seq_lib::to_multiset_update;
        broadcast use group_to_multiset_ensures;
        broadcast use vstd::multiset::group_multiset_axioms;

        assert(v@.subrange(lo as int, hi as int).to_multiset() =~= before.subrange(
            lo as int,
            hi as int,
        ).to_multiset());
        if depth_sorted_range(old(v)@, lo as int, hi as int) {
            assert(i == pivot_idx);
            assert(v@ =~= before);
        }
    }
    i
}

/// Quicksort of the range `[lo, hi)` by descending average depth.
fn quick_sort_range(v: &mut Vec<Triangle>, lo: usize, hi: usize)
    requires
        lo <= hi <= old(v)@.len(),
    ensures
        final(v)@.len() == old(v)@.len(),
        final(v)@.to_multiset() == old(v)@.to_multiset(),
        final(v)@.subrange(lo as int, hi as int).to_multiset() == old(v)@.subrange(
            lo as int,
            hi as int,
        ).to_multiset(),
        forall|k: int| 0 <= k < lo ==> final(v)@[k] == old(v)@[k],
        forall|k: int| hi <= k < final(v)@.len() ==> final(v)@[k] == old(v)@[k],
        depth_sorted_range(final(v)@, lo as int, hi as int),
        depth_sorted_range(old(v)@, lo as int, hi as int) ==> final(v)@ == old(v)@,
    decreases hi - lo,
{
    proof {
        broadcast use group_to_multiset_ensures;

    }
    if hi - lo <= 1 {
        return ;
    }
    let p = partition_descending(v, lo, hi);
    let ghost after_part = v@;
    let ghost pivot = after_part[p as int];
    quick_sort_range(v, lo, p);
    let ghost after_left = v@;
    proof {
        lemma_subrange_multiset_bound_ge(after_part, after_left, lo as int, p as int,
            pivot.avg_depth as int);
        assert(after_left[p as int] == pivot);
        assert forall|k: int| p < k < hi implies after_left[k] == after_part[k] by {}
    }
    quick_sort_range(v, p + 1, hi);
    proof {
        lemma_subrange_multiset_bound_lt(after_left, v@, p + 1, hi as int,
            pivot.avg_depth as int);
        assert(v@[p as int] == pivot);
        assert forall|k: int| lo <= k < p implies v@[k] == after_left[k] by {}
        assert(v@.subrange(lo as int, hi as int).to_multiset() == old(v)@.subrange(
            lo as int,
            hi as int,
        ).to_multiset()) by {
            lemma_three_piece_multiset(old(v)@, after_part, after_left, v@, lo as int,
                p as int, hi as int);
        }
        if depth_sorted_range(old(v)@, lo as int, hi as int) {
            assert(after_part == old(v)@);
            assert(p == hi - 1);
            assert(after_left == old(v)@);
            assert(v@ =~= old(v)@);
        }
    }
}

/// A lower bound that holds on a subrange survives an operation that
/// permutes the subrange and fixes the rest.
proof fn lemma_subrange_multiset_bound_ge(s1: Seq<Triangle>, s2: Seq<Triangle>, lo: int, hi: int, d: int)
    requires
        s1.len() == s2.len(),
        0 <= lo <= hi <= s1.len(),
        s1.subrange(lo, hi).to_multiset() == s2.subrange(lo, hi).to_multiset(),
        forall|k: int| lo <= k < hi ==> s1[k].avg_depth >= d,
    ensures
        forall|k: int| lo <= k < hi ==> s2[k].avg_depth >= d,
{
    assert forall|k: int| 0 <= k < s1.subrange(lo, hi).len() implies s1.subrange(
        lo,
        hi,
    )[k].avg_depth >= d by {}
    lemma_permutation_keeps_lower_bound(s1.subrange(lo, hi), s2.subrange(lo, hi), d);
    assert forall|k: int| lo <= k < hi implies s2[k].avg_depth >= d by {
        assert(s2[k] == s2.subrange(lo, hi)[k - lo]);
    }
}

/// The mirrored fact for a strict upper bound.
proof fn lemma_subrange_multiset_bound_lt(s1: Seq<Triangle>, s2: Seq<Triangle>, lo: int, hi: int, d: int)
    requires
        s1.len() == s2.len(),
        0 <= lo <= hi <= s1.len(),
        s1.subrange(lo, hi).to_multiset() == s2.subrange(lo, hi).to_multiset(),
        forall|k: int| lo <= k < hi ==> s1[k].avg_depth < d,
    ensures
        forall|k: int| lo <= k < hi ==> s2[k].avg_depth < d,
{
    assert forall|k: int| 0 <= k < s1.subrange(lo, hi).len() implies s1.subrange(
        lo,
        hi,
    )[k].avg_depth <= d - 1 by {}
    lemma_permutation_keeps_upper_bound(s1.subrange(lo, hi), s2.subrange(lo, hi), d - 1);
    assert forall|k: int| lo <= k < hi implies s2[k].avg_depth < d by {
        assert(s2[k] == s2.subrange(lo, hi)[k - lo]);
    }
}

/// Sorting the two sides of a fixed pivot permutes the whole range.
proof fn lemma_three_piece_multiset(
    s0: Seq<Triangle>,
    s1: Seq<Triangle>,
    s2: Seq<Triangle>,
    s3: Seq<Triangle>,
    lo: int,
    p: int,
    hi: int,
)
    requires
        s0.len() == s1.len() == s2.len() == s3.len(),
        0 <= lo <= p < hi <= s0.len(),
        s0.subrange(lo, hi).to_multiset() == s1.subrange(lo, hi).to_multiset(),
        s1.subrange(lo, p).to_multiset() == s2.subrange(lo, p).to_multiset(),
        forall|k: int| p <= k < hi ==> s2[k] == s1[k],
        s2.subrange(p + 1, hi).to_multiset() == s3.subrange(p + 1, hi).to_multiset(),
        forall|k: int| lo <= k <= p ==> s3[k] == s2[k],
    ensures
        s3.subrange(lo, hi).to_multiset() == s0.subrange(lo, hi).to_multiset(),
{
    broadcast use group_to_multiset_ensures;

    assert(s1.subrange(lo, hi) =~= s1.subrange(lo, p) + s1.subrange(p, hi));
    assert(s2.subrange(lo, hi) =~= s2.subrange(lo, p) + s2.subrange(p, hi));
    assert(s2.subrange(p, hi) =~= s1.subrange(p, hi));
    vstd::seq_lib::lemma_multiset_commutative(s1.subrange(lo, p), s1.subrange(p, hi));
    vstd::seq_lib::lemma_multiset_commutative(s2.subrange(lo, p), s2.subrange(p, hi));
    assert(s2.subrange(lo, hi).to_multiset() == s1.subrange(lo, hi).to_multiset());
    assert(s3.subrange(lo, hi) =~= s3.subrange(lo, p + 1) + s3.subrange(p + 1, hi));
    assert(s2.subrange(lo, hi) =~= s2.subrange(lo, p + 1) + s2.subrange(p + 1, hi));
    assert(s3.subrange(lo, p + 1) =~= s2.subrange(lo, p + 1));
    vstd::seq_lib::lemma_multiset_commutative(s3.subrange(lo, p + 1), s3.subrange(p + 1, hi));
    vstd::seq_lib::lemma_multiset_commutative(s2.subrange(lo, p + 1), s2.subrange(p + 1, hi));
    assert(s3.subrange(lo, hi).to_multiset() == s2.subrange(lo, hi).to_multiset());
}

/// Quicksort by descending average depth (Lomuto partition, last
/// element as pivot; elements tying the pivot stay on the left).
pub fn quick_sort_by_depth_descending(triangles: &mut Vec<Triangle>)
    ensures
        depth_sorted(final(triangles)@),
        final(triangles)@.to_multiset() == old(triangles)@.to_multiset(),
        final(triangles)@.len() == old(triangles)@.len(),
        depth_sorted(old(triangles)@) ==> final(triangles)@ == old(triangles)@,
{
    let len = triangles.len();
    quick_sort_range(triangles, 0, len);
}

} // verus!

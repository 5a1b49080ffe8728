//! Compaction of page-frame-number buffers: merges the frames handed back by
//! the guest into (start, length) ranges covering the same multiset of frames,
//! turning every maximal run of consecutive frames into a single range.

use vstd::prelude::*;
use vstd::seq_lib::lemma_sorted_unique;
use vstd::seq_lib::group_to_multiset_ensures;
use vstd::multiset::group_multiset_axioms;
use vstd::multiset::Multiset;
use vstd::relations::sorted_by;
use vstd::relations::total_ordering;

verus! {

/// Order in which page-frame numbers are compacted.
pub open spec fn pfn_leq() -> spec_fn(u32, u32) -> bool {
    |a: u32, b: u32| a <= b
}

pub proof fn lemma_pfn_leq_total_ordering()
    ensures
        total_ordering(pfn_leq()),
{
}

/// The run of `len` consecutive frames starting at `start`.
pub open spec fn expand_range(start: u32, len: u32) -> Seq<u32>
    recommends
        start + len <= u32::MAX + 1,
{
    Seq::new(len as nat, |i: int| (start + i) as u32)
}

/// All frames covered by a sequence of ranges, first range first.
pub open spec fn expand_ranges(rs: Seq<(u32, u32)>) -> Seq<u32>
    decreases rs.len(),
{
    if rs.len() == 0 {
        Seq::empty()
    } else {
        expand_ranges(rs.drop_last()) + expand_range(rs.last().0, rs.last().1)
    }
}

/// Every range covers at least one frame and stays within the frame space.
pub open spec fn ranges_wf(rs: Seq<(u32, u32)>) -> bool {
    forall|i: int|
        0 <= i < rs.len() ==> 1 <= (#[trigger] rs[i]).1 && rs[i].0 + rs[i].1 <= u32::MAX + 1
}

/// Canonical compaction of a frame sequence, read left to right: a frame
/// extending the run collected so far lengthens it, any other frame starts a
/// new range.  On a sorted sequence this merges exactly the maximal runs of
/// consecutive frames.
pub open spec fn merge_runs(s: Seq<u32>) -> Seq<(u32, u32)>
    decreases s.len(),
{
    if s.len() == 0 {
        Seq::empty()
    } else {
        let prefix = merge_runs(s.drop_last());
        let x = s.last();
        if prefix.len() > 0 && prefix.last().1 < u32::MAX && x == prefix.last().0
            + prefix.last().1 {
            prefix.update(prefix.len() - 1, (prefix.last().0, (prefix.last().1 + 1) as u32))
        } else {
            prefix.push((x, 1))
        }
    }
}

/// Compaction loses no frame and invents none: expanding the compacted form
/// of any frame sequence gives that sequence back.
pub proof fn lemma_merge_runs_expand(s: Seq<u32>)
    ensures
        ranges_wf(merge_runs(s)),
        expand_ranges(merge_runs(s)) =~= s,
        s.len() > 0 ==> merge_runs(s).len() > 0,
    decreases s.len(),
{
    if s.len() > 0 {
        let sp = s.drop_last();
        let x = s.last();
        lemma_merge_runs_expand(sp);
        let prefix = merge_runs(sp);
        if prefix.len() > 0 && prefix.last().1 < u32::MAX && x == prefix.last().0
            + prefix.last().1 {
            let p0 = prefix.last().0;
            let p1 = prefix.last().1;
            let merged = merge_runs(s);
            assert(merged =~= prefix.drop_last().push((p0, (p1 + 1) as u32)));
            assert(merged.drop_last() =~= prefix.drop_last());
            assert(expand_ranges(merged) == expand_ranges(prefix.drop_last()) + expand_range(
                p0,
                (p1 + 1) as u32,
            ));
            assert(expand_range(p0, (p1 + 1) as u32) =~= expand_range(p0, p1).push(x));
            assert(expand_ranges(prefix) == expand_ranges(prefix.drop_last()) + expand_range(
                p0,
                p1,
            ));
            assert(expand_ranges(merged) =~= expand_ranges(prefix).push(x));
        } else {
            let merged = merge_runs(s);
            assert(merged == prefix.push((x, 1)));
            assert(merged.drop_last() =~= prefix);
            assert(expand_ranges(merged) == expand_ranges(prefix) + expand_range(x, 1));
            assert(expand_range(x, 1) =~= seq![x]);
        }
    }
}

/// Compacting any arrangement of a multiset of frames and expanding the
/// resulting ranges yields exactly that multiset back.
pub proof fn lemma_compact_round_trip(s: Seq<u32>)
    ensures
        expand_ranges(merge_runs(s.sort_by(pfn_leq()))).to_multiset() =~= s.to_multiset(),
{
    s.lemma_sort_by_ensures(pfn_leq());
    lemma_merge_runs_expand(s.sort_by(pfn_leq()));
}

/// The run of consecutive frames is sorted.
pub proof fn lemma_expand_range_sorted(start: u32, n: u32)
    requires
        start + n <= u32::MAX + 1,
    ensures
        sorted_by(expand_range(start, n), pfn_leq()),
{
    let e = expand_range(start, n);
    assert forall|i: int, j: int| 0 <= i < j < e.len() implies pfn_leq()(e[i], e[j]) by {
        assert(e[i] == start + i);
        assert(e[j] == start + j);
    }
}

/// A sorted run of `n` consecutive frames compacts to the single range
/// `(start, n)`.
pub proof fn lemma_merge_runs_single_run(start: u32, n: u32)
    requires
        1 <= n,
        start + n <= u32::MAX + 1,
    ensures
        merge_runs(expand_range(start, n)) =~= seq![(start, n)],
    decreases n,
{
    let e = expand_range(start, n);
    assert(merge_runs(Seq::<u32>::empty()) =~= Seq::<(u32, u32)>::empty());
    if n == 1 {
        assert(e.drop_last() =~= Seq::<u32>::empty());
        assert(merge_runs(e) =~= Seq::<(u32, u32)>::empty().push((e.last(), 1)));
        assert(e.last() == start);
    } else {
        lemma_merge_runs_single_run(start, (n - 1) as u32);
        assert(e.drop_last() =~= expand_range(start, (n - 1) as u32));
        let prefix = merge_runs(e.drop_last());
        assert(prefix =~= seq![(start, (n - 1) as u32)]);
        assert(e.last() == start + (n - 1));
        assert(merge_runs(e) =~= prefix.update(0, (start, n)));
    }
}

/// A batch holding exactly the frames `start .. start + n`, in any order,
/// compacts to the single range `(start, n)` of length `n`.
pub proof fn lemma_consecutive_run_compacts(s: Seq<u32>, start: u32, n: u32)
    requires
        1 <= n,
        start + n <= u32::MAX + 1,
        s.to_multiset() == expand_range(start, n).to_multiset(),
    ensures
        merge_runs(s.sort_by(pfn_leq())) =~= seq![(start, n)],
{
    s.lemma_sort_by_ensures(pfn_leq());
    lemma_expand_range_sorted(start, n);
    lemma_pfn_leq_total_ordering();
    lemma_sorted_unique(s.sort_by(pfn_leq()), expand_range(start, n), pfn_leq());
    lemma_merge_runs_single_run(start, n);
}

/// Sorts the accumulated page-frame numbers ascending.
fn sort_pfns(v: &mut Vec<u32>)
    ensures
        final(v)@ == old(v)@.sort_by(pfn_leq()),
{
    broadcast use group_to_multiset_ensures, group_multiset_axioms;

    let ghost orig = v@;
    let mut out: Vec<u32> = Vec::new();
    while v.len() > 0
        invariant
            out@.to_multiset().add(v@.to_multiset()) =~= orig.to_multiset(),
            sorted_by(out@, pfn_leq()),
            forall|i: int, k: int|
                0 <= i < out@.len() && 0 <= k < v@.len() ==> #[trigger] out@[i]
                    <= #[trigger] v@[k],
        decreases v.len(),
    {
        let mut mi: usize = 0;
        let mut j: usize = 1;
        while j < v.len()
            invariant
                0 < v@.len(),
                0 <= mi < j <= v@.len(),
                forall|k: int| 0 <= k < j ==> v@[mi as int] <= #[trigger] v@[k],
            decreases v@.len() - j,
        {
            if v[j] < v[mi] {
                mi = j;
            }
            j += 1;
        }
        let ghost prev_out = out@;
        let ghost prev_v = v@;
        let m = v.remove(mi);
        out.push(m);
        proof {
            assert(v@ == prev_v.remove(mi as int));
            vstd::seq_lib::to_multiset_remove(prev_v, mi as int);
            vstd::seq_lib::to_multiset_build(prev_out, m);
            assert(v@.to_multiset() =~= prev_v.to_multiset().remove(m));
            assert(out@.to_multiset() =~= prev_out.to_multiset().insert(m));
            assert(prev_v.to_multiset().count(m) >= 1) by {
                prev_v.to_multiset_ensures();
                assert(prev_v[mi as int] == m);
                assert(prev_v.contains(m));
            }
            assert(out@.to_multiset().add(v@.to_multiset()) =~= orig.to_multiset());
            assert forall|i: int, k: int|
                0 <= i < out@.len() && 0 <= k < v@.len() implies #[trigger] out@[i]
                <= #[trigger] v@[k] by {
                assert(v@[k] == prev_v[if k < mi {
                    k
                } else {
                    k + 1
                }]);
            }
        }
    }
    proof {
        orig.lemma_sort_by_ensures(pfn_leq());
        lemma_pfn_leq_total_ordering();
        assert(v@.to_multiset() =~= Multiset::<u32>::empty());
        assert(out@.to_multiset() =~= orig.to_multiset());
        lemma_sorted_unique(out@, orig.sort_by(pfn_leq()), pfn_leq());
    }
    *v = out;
}

/// Merges the accumulated page-frame numbers into (start, length) ranges
/// covering the same multiset of frames, each maximal run of consecutive
/// frames becoming a single range.  The buffer is left empty, ready for the
/// next batch.
pub fn compact_page_frame_numbers(v: &mut Vec<u32>) -> (r: Vec<(u32, u32)>)
    ensures
        final(v)@.len() == 0,
        r@ == merge_runs(old(v)@.sort_by(pfn_leq())),
{
    sort_pfns(v);
    let ghost sorted = v@;
    let mut r: Vec<(u32, u32)> = Vec::new();
    if v.len() == 0 {
        return r;
    }
    let mut prev: u32 = v[0];
    let mut run_len: u32 = 1;
    let mut i: usize = 1;
    proof {
        assert(merge_runs(Seq::<u32>::empty()) =~= Seq::<(u32, u32)>::empty());
        assert(sorted.take(1).drop_last() =~= Seq::<u32>::empty());
        assert(sorted.take(1).last() == sorted[0]);
        assert(merge_runs(sorted.take(1)) =~= r@.push((prev, run_len)));
    }
    while i < v.len()
        invariant
            v@ == sorted,
            1 <= i <= sorted.len(),
            1 <= run_len,
            merge_runs(sorted.take(i as int)) =~= r@.push((prev, run_len)),
        decreases sorted.len() - i,
    {
        let x = v[i];
        proof {
            assert(sorted.take(i + 1).drop_last() =~= sorted.take(i as int));
            assert(sorted.take(i + 1).last() == sorted[i as int]);
        }
        if run_len < u32::MAX && (x as u64) == (prev as u64) + (run_len as u64) {
            proof {
                let p = r@.push((prev, run_len));
                assert(p.update(p.len() - 1, (prev, (run_len + 1) as u32)) =~= r@.push(
                    (prev, (run_len + 1) as u32),
                ));
            }
            run_len = run_len + 1;
        } else {
            r.push((prev, run_len));
            prev = x;
            run_len = 1;
        }
        i += 1;
    }
    proof {
        assert(sorted.take(i as int) =~= sorted);
    }
    r.push((prev, run_len));
    v.clear();
    r
}

} // verus!

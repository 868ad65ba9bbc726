//! Which succeeded runs of a policy are kept.
use crate::order::{
    at_or_before, lemma_text_le_total, lemma_text_le_transitive, text_le,
};
use vstd::prelude::*;

verus! {

/// A succeeded run that is a candidate for pruning.
#[derive(Debug, Clone, PartialEq, Eq)]
pub struct SucceededRunRef {
    pub namespace: String,
    pub name: String,
    /// When it succeeded, else when it was created (RFC 3339).
    pub sort_key: String,
}

/// `x` put behind every run of `sorted` that is as new or newer.
pub open spec fn insert_run(sorted: Seq<SucceededRunRef>, x: SucceededRunRef) -> Seq<
    SucceededRunRef,
>
    decreases sorted.len(),
{
    if sorted.len() > 0 && !text_le(x.sort_key@, sorted.last().sort_key@) {
        insert_run(sorted.drop_last(), x).push(sorted.last())
    } else {
        sorted.push(x)
    }
}

/// The runs from the newest to the oldest; runs of the same age keep their order.
pub open spec fn newest_first(runs: Seq<SucceededRunRef>) -> Seq<SucceededRunRef>
    decreases runs.len(),
{
    if runs.len() == 0 {
        seq![]
    } else {
        insert_run(newest_first(runs.drop_last()), runs.last())
    }
}

/// The runs that go: the oldest beyond the `keep_last` newest; all of them where none is kept.
pub open spec fn prunable(runs: Seq<SucceededRunRef>, keep_last: u32) -> Seq<SucceededRunRef> {
    if keep_last == 0 {
        runs
    } else if runs.len() <= keep_last {
        seq![]
    } else {
        newest_first(runs).skip(keep_last as int)
    }
}

proof fn lemma_insert_run_at(sorted: Seq<SucceededRunRef>, x: SucceededRunRef, n: int)
    requires
        0 <= n <= sorted.len(),
        forall|i: int|
            n <= i < sorted.len() ==> !text_le(x.sort_key@, (#[trigger] sorted[i]).sort_key@),
        n > 0 ==> text_le(x.sort_key@, sorted[n - 1].sort_key@),
    ensures
        insert_run(sorted, x) == sorted.insert(n, x),
    decreases sorted.len(),
{
    if n == sorted.len() {
        assert(sorted.insert(n, x) =~= sorted.push(x));
    } else {
        assert(!text_le(x.sort_key@, sorted[sorted.len() - 1].sort_key@));
        lemma_insert_run_at(sorted.drop_last(), x, n);
        assert(sorted.drop_last().insert(n, x).push(sorted.last()) =~= sorted.insert(n, x));
    }
}

/// Oldest succeeded runs beyond `keep_last` (newest kept). Empty when there is nothing to prune.
pub fn select_prunable(runs: Vec<SucceededRunRef>, keep_last: u32) -> (res: Vec<SucceededRunRef>)
    ensures
        res@ == prunable(runs@, keep_last),
{
    if keep_last == 0 {
        return runs;
    }
    if runs.len() as u64 <= keep_last as u64 {
        return Vec::new();
    }
    let ghost all = runs@;
    let mut left = runs;
    let mut sorted: Vec<SucceededRunRef> = Vec::new();
    let mut taken: Ghost<int> = Ghost(0);
    while left.len() > 0
        invariant
            0 <= taken@ <= all.len(),
            left@ == all.skip(taken@),
            sorted@ == newest_first(all.take(taken@)),
            sorted@.len() == taken@,
        decreases left@.len(),
    {
        let ghost k = taken@;
        let x = left.remove(0);
        proof {
            assert(x == all[k]);
            assert(left@ =~= all.skip(k + 1));
            assert(all.take(k + 1).drop_last() =~= all.take(k));
            assert(all.take(k + 1).last() == x);
        }
        let mut n: usize = sorted.len();
        while n > 0 && !at_or_before(x.sort_key.as_str(), sorted[n - 1].sort_key.as_str())
            invariant
                n <= sorted@.len(),
                forall|i: int|
                    n <= i < sorted@.len() ==> !text_le(
                        x.sort_key@,
                        (#[trigger] sorted@[i]).sort_key@,
                    ),
            decreases n,
        {
            n -= 1;
        }
        proof {
            lemma_insert_run_at(sorted@, x, n as int);
            taken@ = k + 1;
        }
        sorted.insert(n, x);
    }
    proof {
        assert(all.take(taken@) =~= all);
    }
    let keep: usize = keep_last as usize;
    let mut out: Vec<SucceededRunRef> = Vec::new();
    let ghost full = sorted@;
    while sorted.len() > keep
        invariant
            keep <= sorted@.len() <= full.len(),
            sorted@ == full.take(sorted@.len() as int),
            out@ == full.skip(sorted@.len() as int),
        decreases sorted@.len(),
    {
        let ghost n = sorted@.len() as int;
        let last = sorted.remove(sorted.len() - 1);
        out.insert(0, last);
        proof {
            assert(sorted@ =~= full.take(n - 1));
            assert(out@ =~= full.skip(n - 1));
        }
    }
    out
}

/// Whether every run is as new as, or newer than, the runs behind it.
pub open spec fn is_newest_first(runs: Seq<SucceededRunRef>) -> bool {
    forall|i: int, j: int|
        #![trigger runs[i], runs[j]]
        0 <= i < j < runs.len() ==> text_le(runs[j].sort_key@, runs[i].sort_key@)
}

proof fn lemma_insert_run(sorted: Seq<SucceededRunRef>, x: SucceededRunRef)
    requires
        is_newest_first(sorted),
    ensures
        is_newest_first(insert_run(sorted, x)),
        insert_run(sorted, x).to_multiset() == sorted.to_multiset().insert(x),
        insert_run(sorted, x).len() == sorted.len() + 1,
        forall|i: int|
            0 <= i < insert_run(sorted, x).len() ==> (#[trigger] insert_run(sorted, x)[i] == x || (
            exists|k: int| 0 <= k < sorted.len() && sorted[k] == insert_run(sorted, x)[i])),
    decreases sorted.len(),
{
    broadcast use vstd::seq_lib::group_to_multiset_ensures;

    let r = insert_run(sorted, x);
    if sorted.len() > 0 && !text_le(x.sort_key@, sorted.last().sort_key@) {
        let init = sorted.drop_last();
        let last = sorted.last();
        let n = sorted.len() - 1;
        assert forall|i: int, j: int|
            #![trigger init[i], init[j]]
            0 <= i < j < init.len() implies text_le(init[j].sort_key@, init[i].sort_key@) by {
            assert(init[i] == sorted[i] && init[j] == sorted[j]);
        }
        lemma_insert_run(init, x);
        let q = insert_run(init, x);
        assert(r == q.push(last));
        lemma_text_le_total(x.sort_key@, last.sort_key@);
        assert forall|i: int| 0 <= i < q.len() implies text_le(
            last.sort_key@,
            (#[trigger] q[i]).sort_key@,
        ) by {
            if q[i] != x {
                let k = choose|k: int| 0 <= k < init.len() && init[k] == q[i];
                assert(sorted[k] == q[i]);
                assert(text_le(sorted[n].sort_key@, sorted[k].sort_key@));
            }
        }
        assert(sorted =~= init.push(last));
        assert(r.to_multiset() =~= sorted.to_multiset().insert(x));
        assert forall|i: int| 0 <= i < r.len() implies (#[trigger] r[i] == x || (exists|k: int|
            0 <= k < sorted.len() && sorted[k] == r[i])) by {
            if i < q.len() {
                if q[i] != x {
                    let k = choose|k: int| 0 <= k < init.len() && init[k] == q[i];
                    assert(sorted[k] == r[i]);
                }
            } else {
                assert(sorted[n] == r[i]);
            }
        }
    } else {
        if sorted.len() > 0 {
            let n = sorted.len() - 1;
            assert forall|i: int| 0 <= i < sorted.len() implies text_le(
                x.sort_key@,
                (#[trigger] sorted[i]).sort_key@,
            ) by {
                if i < n {
                    assert(text_le(sorted[n].sort_key@, sorted[i].sort_key@));
                    lemma_text_le_transitive(x.sort_key@, sorted[n].sort_key@, sorted[i].sort_key@);
                }
            }
        }
        assert forall|i: int| 0 <= i < r.len() implies (#[trigger] r[i] == x || (exists|k: int|
            0 <= k < sorted.len() && sorted[k] == r[i])) by {
            if i < sorted.len() {
                assert(sorted[i] == r[i]);
            }
        }
    }
}

/// The order from newest to oldest holds the same runs, in that order.
pub proof fn law_newest_first_sorts(runs: Seq<SucceededRunRef>)
    ensures
        is_newest_first(newest_first(runs)),
        newest_first(runs).to_multiset() == runs.to_multiset(),
        newest_first(runs).len() == runs.len(),
    decreases runs.len(),
{
    broadcast use vstd::seq_lib::group_to_multiset_ensures;

    if runs.len() > 0 {
        law_newest_first_sorts(runs.drop_last());
        lemma_insert_run(newest_first(runs.drop_last()), runs.last());
        assert(runs =~= runs.drop_last().push(runs.last()));
    } else {
        assert(newest_first(runs) =~= runs);
    }
}

/// Pruning keeps exactly the `keep_last` newest runs: as many go as there are beyond that, and no
/// run that goes is newer than one that stays.
pub proof fn law_pruning_keeps_newest(runs: Seq<SucceededRunRef>, keep_last: u32, i: int, j: int)
    requires
        keep_last > 0,
        0 <= i < keep_last,
        i < runs.len(),
        0 <= j < prunable(runs, keep_last).len(),
    ensures
        prunable(runs, keep_last).len() == runs.len() - keep_last,
        text_le(
            prunable(runs, keep_last)[j].sort_key@,
            newest_first(runs).take(keep_last as int)[i].sort_key@,
        ),
        newest_first(runs) == newest_first(runs).take(keep_last as int) + prunable(runs, keep_last),
{
    law_newest_first_sorts(runs);
    let s = newest_first(runs);
    assert(s =~= s.take(keep_last as int) + s.skip(keep_last as int));
    assert(text_le(s[keep_last + j].sort_key@, s[i].sort_key@));
}

/// Nothing is pruned while there are no more runs than are kept.
pub proof fn law_nothing_to_prune_within_limit(runs: Seq<SucceededRunRef>, keep_last: u32)
    requires
        0 < keep_last,
        runs.len() <= keep_last,
    ensures
        prunable(runs, keep_last).len() == 0,
{
}

/// Runs that are in order already keep their order, those of the same age too.
pub proof fn law_sorted_runs_keep_their_order(runs: Seq<SucceededRunRef>)
    requires
        is_newest_first(runs),
    ensures
        newest_first(runs) == runs,
    decreases runs.len(),
{
    if runs.len() > 0 {
        let init = runs.drop_last();
        assert forall|i: int, j: int|
            #![trigger init[i], init[j]]
            0 <= i < j < init.len() implies text_le(init[j].sort_key@, init[i].sort_key@) by {
            assert(init[i] == runs[i] && init[j] == runs[j]);
        }
        law_sorted_runs_keep_their_order(init);
        let n = init.len() as int;
        if n > 0 {
            assert(text_le(runs[n].sort_key@, runs[n - 1].sort_key@));
        }
        lemma_insert_run_at(init, runs[n], n);
        assert(init.insert(n, runs[n]) =~= runs);
    } else {
        assert(newest_first(runs) =~= runs);
    }
}

/// Where no run is kept, all of them go; else as many go as there are beyond those kept.
pub proof fn law_as_many_are_pruned_as_are_beyond(runs: Seq<SucceededRunRef>, keep_last: u32)
    ensures
        keep_last == 0 ==> prunable(runs, keep_last) == runs,
        prunable(runs, keep_last).len() == (if runs.len() <= keep_last {
            0
        } else {
            runs.len() - keep_last
        }),
{
    law_newest_first_sorts(runs);
}

} // verus!

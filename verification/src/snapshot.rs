//! Iteration over the values that the live threads hold for one thread local.
use crate::fold_map::{fold_map_into_entries, lists_entries, FoldMap};
use crate::ids::UniqueLocalId;
use vstd::prelude::*;

verus! {

/// One step of iteration over the entries `before`, leaving the entries `after` and
/// yielding `r`: the entries visited are a prefix of `before`; `lookup` found no value for
/// each of them but the last, and found the yielded value for the last one when there is one;
/// `None` is yielded only once every entry has been visited.
pub open spec fn next_step<W, V, F: Fn(&W, UniqueLocalId) -> Option<V>>(
    lookup: F,
    id: UniqueLocalId,
    before: Seq<(u64, W)>,
    after: Seq<(u64, W)>,
    r: Option<(u64, V)>,
) -> bool {
    let visited = before.len() - after.len();
    &&& 0 <= visited
    &&& after == before.skip(visited)
    &&& forall|j: int|
        0 <= j < (if r is Some { visited - 1 } else { visited }) ==> lookup.ensures(
            (&before[j].1, id),
            None,
        )
    &&& match r {
        Some((thread, value)) => {
            &&& visited >= 1
            &&& before[visited - 1].0 == thread
            &&& lookup.ensures((&before[visited - 1].1, id), Some(value))
        },
        None => after.len() == 0,
    }
}

/// A run of iteration: `states[k]` are the remaining entries before the `k`-th step,
/// which yields `results[k]`.
pub open spec fn is_run<W, V, F: Fn(&W, UniqueLocalId) -> Option<V>>(
    lookup: F,
    id: UniqueLocalId,
    states: Seq<Seq<(u64, W)>>,
    results: Seq<Option<(u64, V)>>,
) -> bool {
    &&& states.len() == results.len() + 1
    &&& forall|k: int| 0 <= k < results.len() ==> #[trigger] next_step(lookup, id, states[k], states[k + 1], results[k])
}

/// The items that a run yields, in order.
pub open spec fn yielded<V>(results: Seq<Option<(u64, V)>>) -> Seq<(u64, V)>
    decreases results.len(),
{
    if results.len() == 0 {
        Seq::empty()
    } else {
        let rest = yielded(results.drop_last());
        match results.last() {
            Some(item) => rest.push(item),
            None => rest,
        }
    }
}

/// Over a run, the position reached in the first entries, and the entry of each yielded item:
/// the entries of the items come in increasing order, and every other entry passed over is
/// one for which `lookup` found no value.
proof fn lemma_run_positions<W, V, F: Fn(&W, UniqueLocalId) -> Option<V>>(
    lookup: F,
    id: UniqueLocalId,
    states: Seq<Seq<(u64, W)>>,
    results: Seq<Option<(u64, V)>>,
) -> (r: (int, Seq<int>))
    requires
        is_run(lookup, id, states, results),
    ensures
        0 <= r.0 <= states[0].len(),
        states.last() == states[0].skip(r.0),
        r.1.len() == yielded(results).len(),
        forall|m: int| 0 <= m < r.1.len() ==> 0 <= #[trigger] r.1[m] < r.0,
        forall|m: int, l: int| 0 <= m < l < r.1.len() ==> #[trigger] r.1[m] < #[trigger] r.1[l],
        forall|m: int|
            0 <= m < r.1.len() ==> {
                &&& yielded(results)[m].0 == states[0][#[trigger] r.1[m]].0
                &&& lookup.ensures((&states[0][r.1[m]].1, id), Some(yielded(results)[m].1))
            },
        forall|j: int| 0 <= j < r.0 && !r.1.contains(j) ==> lookup.ensures((&(#[trigger] states[0][j]).1, id), None),
        results.len() > 0 && results.last() is None ==> r.0 == states[0].len(),
    decreases results.len(),
{
    let s0 = states[0];
    if results.len() == 0 {
        assert(s0.skip(0) =~= s0);
        (0, Seq::empty())
    } else {
        let n = results.len() - 1;
        let rs = results.drop_last();
        let ss = states.drop_last();
        assert forall|k: int| 0 <= k < rs.len() implies #[trigger] next_step(lookup, id, ss[k], ss[k + 1], rs[k]) by {
            assert(next_step(lookup, id, states[k], states[k + 1], results[k]));
        }
        let (p, idx) = lemma_run_positions(lookup, id, ss, rs);
        assert(ss.last() == states[n]);
        assert(next_step(lookup, id, states[n], states[n + 1], results[n]));
        let before = states[n];
        let after = states[n + 1];
        let v = before.len() - after.len();
        assert(before =~= s0.skip(p));
        assert(after =~= s0.skip(p + v));
        assert forall|j: int| 0 <= j < before.len() implies #[trigger] before[j] == s0[p + j] by {}
        let p2 = p + v;
        match results[n] {
            Some(item) => {
                let idx2 = idx.push(p2 - 1);
                assert(yielded(results) == yielded(rs).push(item));
                assert(before[v - 1] == s0[p2 - 1]);
                assert forall|j: int| 0 <= j < p2 && !idx2.contains(j) implies lookup.ensures(
                    (&(#[trigger] s0[j]).1, id),
                    None,
                ) by {
                    if j < p {
                        if idx.contains(j) {
                            let m = choose|m: int| 0 <= m < idx.len() && idx[m] == j;
                            assert(idx2[m] == j);
                        }
                    } else {
                        assert(j != p2 - 1) by {
                            assert(idx2[idx.len() as int] == p2 - 1);
                        }
                        assert(before[j - p] == s0[j]);
                    }
                }
                assert forall|m: int| 0 <= m < idx2.len() implies {
                    &&& yielded(results)[m].0 == s0[#[trigger] idx2[m]].0
                    &&& lookup.ensures((&s0[idx2[m]].1, id), Some(yielded(results)[m].1))
                } by {
                    if m < idx.len() {
                        assert(idx2[m] == idx[m]);
                        assert(yielded(results)[m] == yielded(rs)[m]);
                    }
                }
                assert forall|m: int, l: int| 0 <= m < l < idx2.len() implies #[trigger] idx2[m] < #[trigger] idx2[l] by {
                    if l < idx.len() {
                        assert(idx2[m] == idx[m] && idx2[l] == idx[l]);
                    }
                }
                (p2, idx2)
            },
            None => {
                assert(yielded(results) == yielded(rs));
                assert forall|j: int| 0 <= j < p2 && !idx.contains(j) implies lookup.ensures(
                    (&(#[trigger] s0[j]).1, id),
                    None,
                ) by {
                    if j >= p {
                        assert(before[j - p] == s0[j]);
                    }
                }
                (p2, idx)
            },
        }
    }
}

/// Over a whole iteration, every item comes from an entry of the snapshot (`entry_of` gives
/// which), with the value `lookup` found for that entry; no thread is yielded twice; and no more items are yielded
/// than there were entries, which is the upper bound that `size_hint` gives at the start.
/// Threads that died before the snapshot, or started after it, are not among its entries,
/// so they are never yielded.
pub proof fn lemma_iteration_yields_snapshot_threads_once<W, V, F: Fn(&W, UniqueLocalId) -> Option<V>>(
    lookup: F,
    id: UniqueLocalId,
    states: Seq<Seq<(u64, W)>>,
    results: Seq<Option<(u64, V)>>,
) -> (entry_of: Seq<int>)
    requires
        is_run(lookup, id, states, results),
        forall|i: int, j: int| 0 <= i < j < states[0].len() ==> (#[trigger] states[0][i]).0 != (#[trigger] states[0][j]).0,
    ensures
        yielded(results).len() <= states[0].len(),
        entry_of.len() == yielded(results).len(),
        forall|m: int|
            0 <= m < entry_of.len() ==> {
                &&& 0 <= #[trigger] entry_of[m] < states[0].len()
                &&& states[0][entry_of[m]].0 == yielded(results)[m].0
                &&& lookup.ensures((&states[0][entry_of[m]].1, id), Some(yielded(results)[m].1))
            },
        forall|m: int, l: int|
            0 <= m < l < yielded(results).len() ==> (#[trigger] yielded(results)[m]).0 != (#[trigger] yielded(
                results,
            )[l]).0,
{
    let (p, idx) = lemma_run_positions(lookup, id, states, results);
    let ys = yielded(results);
    lemma_increasing_len(idx, p);
    assert forall|m: int, l: int| 0 <= m < l < ys.len() implies (#[trigger] ys[m]).0 != (#[trigger] ys[l]).0 by {
        assert(idx[m] < idx[l]);
        assert(ys[m].0 == states[0][idx[m]].0);
        assert(ys[l].0 == states[0][idx[l]].0);
    }
    idx
}

/// From any point of an iteration, the items still to come number no more than the
/// remaining entries, which is the upper bound that `size_hint` reports there.
pub proof fn lemma_size_hint_bounds_items<W, V, F: Fn(&W, UniqueLocalId) -> Option<V>>(
    it: SnapshotIter<W>,
    lookup: F,
    states: Seq<Seq<(u64, W)>>,
    results: Seq<Option<(u64, V)>>,
)
    requires
        it.wf(),
        states.len() > 0,
        states[0] == it.remaining(),
        is_run(lookup, it.local_id(), states, results),
    ensures
        yielded(results).len() <= it.remaining().len(),
        forall|m: int, l: int|
            0 <= m < l < yielded(results).len() ==> (#[trigger] yielded(results)[m]).0 != (#[trigger] yielded(
                results,
            )[l]).0,
{
    it.lemma_remaining_distinct();
    let _ = lemma_iteration_yields_snapshot_threads_once(lookup, it.local_id(), states, results);
}

/// An iteration that has run to its end has yielded every thread of the snapshot for which
/// `lookup` cannot come back empty-handed: a thread that held a value when the snapshot was
/// taken and stayed alive is yielded.
pub proof fn lemma_iteration_yields_every_thread_with_a_value<W, V, F: Fn(&W, UniqueLocalId) -> Option<V>>(
    lookup: F,
    id: UniqueLocalId,
    states: Seq<Seq<(u64, W)>>,
    results: Seq<Option<(u64, V)>>,
    j: int,
)
    requires
        is_run(lookup, id, states, results),
        results.len() > 0,
        results.last() is None,
        0 <= j < states[0].len(),
        forall|found: Option<V>| lookup.ensures((&states[0][j].1, id), found) ==> found is Some,
    ensures
        exists|m: int| 0 <= m < yielded(results).len() && (#[trigger] yielded(results)[m]).0 == states[0][j].0,
{
    let (p, idx) = lemma_run_positions(lookup, id, states, results);
    if !idx.contains(j) {
        assert(lookup.ensures((&states[0][j].1, id), None));
    }
    let m = choose|m: int| 0 <= m < idx.len() && idx[m] == j;
    assert(yielded(results)[m].0 == states[0][idx[m]].0);
}

/// Strictly increasing indices below `bound` are no more than `bound`.
proof fn lemma_increasing_len(idx: Seq<int>, bound: int)
    requires
        0 <= bound,
        forall|m: int| 0 <= m < idx.len() ==> 0 <= #[trigger] idx[m] < bound,
        forall|m: int, l: int| 0 <= m < l < idx.len() ==> #[trigger] idx[m] < #[trigger] idx[l],
    ensures
        idx.len() <= bound,
    decreases idx.len(),
{
    if idx.len() > 0 {
        let last = idx.last();
        let rest = idx.drop_last();
        assert forall|m: int| 0 <= m < rest.len() implies 0 <= #[trigger] rest[m] < last by {
            assert(idx[m] < idx[idx.len() - 1]);
        }
        assert(0 <= last < bound);
        lemma_increasing_len(rest, last);
    }
}

/// Iterates over a snapshot of the live threads, yielding the value that each holds
/// for one thread local.
///
/// Each entry pairs the unique id of a thread with the handle to its state.
/// The entries are fixed when the snapshot is taken: threads started later are not visited.
/// The handle of a thread that has died since, or that holds no value, yields nothing.
pub struct SnapshotIter<W> {
    local_id: UniqueLocalId,
    entries: Option<Vec<(u64, W)>>,
    next: usize,
}

impl<W> SnapshotIter<W> {
    /// The internal invariant: the position lies within the entries,
    /// and no two entries are for the same thread.
    pub closed spec fn wf(&self) -> bool {
        match self.entries {
            Some(v) => {
                &&& self.next <= v@.len() <= usize::MAX
                &&& forall|i: int, j: int| 0 <= i < j < v@.len() ==> (#[trigger] v@[i]).0 != (#[trigger] v@[j]).0
            },
            None => self.next == 0,
        }
    }

    /// No two remaining entries are for the same thread.
    pub proof fn lemma_remaining_distinct(&self)
        requires
            self.wf(),
        ensures
            forall|i: int, j: int|
                0 <= i < j < self.remaining().len() ==> (#[trigger] self.remaining()[i]).0 != (
                #[trigger] self.remaining()[j]).0,
    {
        match self.entries {
            Some(v) => {
                assert forall|i: int, j: int|
                    0 <= i < j < self.remaining().len() implies (#[trigger] self.remaining()[i]).0 != (
                    #[trigger] self.remaining()[j]).0 by {
                    assert(self.remaining()[i] == v@[self.next + i]);
                    assert(self.remaining()[j] == v@[self.next + j]);
                }
            },
            None => {},
        }
    }

    /// The local whose values are visited.
    pub closed spec fn local_id(&self) -> UniqueLocalId {
        self.local_id
    }

    /// The entries that are still to be visited, in order.
    pub closed spec fn remaining(&self) -> Seq<(u64, W)> {
        match self.entries {
            Some(v) => v@.skip(self.next as int),
            None => Seq::empty(),
        }
    }

    /// Iteration over `snapshot`, a copy of the live threads, for the local `local_id`;
    /// with no snapshot (no thread has started), there is nothing to visit.
    pub fn new(local_id: UniqueLocalId, snapshot: Option<FoldMap<W>>) -> (r: Self)
        ensures
            r.wf(),
            r.local_id() == local_id,
            match snapshot {
                Some(m) => lists_entries(r.remaining(), m@),
                None => r.remaining() == Seq::<(u64, W)>::empty(),
            },
    {
        match snapshot {
            Some(m) => {
                let entries = fold_map_into_entries(m);
                // the number of entries fits a usize, which bounds what `size_hint` reports
                let _count = entries.len();
                proof {
                    assert(entries@.skip(0) =~= entries@);
                }
                SnapshotIter { local_id, entries: Some(entries), next: 0 }
            },
            None => SnapshotIter { local_id, entries: None, next: 0 },
        }
    }

    /// Visits the remaining entries in order, asking `lookup` for the value that each entry's
    /// thread holds for the local, and stops at the first one that has a value.
    ///
    /// Returns that thread's id with the value, or `None` once every entry has been visited;
    /// after that it keeps returning `None`.
    pub fn next_value<V, F: Fn(&W, UniqueLocalId) -> Option<V>>(&mut self, lookup: F) -> (r: Option<(u64, V)>)
        requires
            old(self).wf(),
            forall|w: &W, id: UniqueLocalId| lookup.requires((w, id)),
        ensures
            final(self).wf(),
            final(self).local_id() == old(self).local_id(),
            next_step(lookup, old(self).local_id(), old(self).remaining(), final(self).remaining(), r),
            old(self).remaining().len() == 0 ==> r is None,
    {
        match &self.entries {
            None => {
                proof {
                    assert(Seq::<(u64, W)>::empty().skip(0) =~= Seq::<(u64, W)>::empty());
                }
                None
            },
            Some(entries) => {
                let ghost before = entries@.skip(self.next as int);
                let ghost start = self.next;
                let n = entries.len();
                let mut i = self.next;
                let mut found: Option<(u64, V)> = None;
                while i < n
                    invariant_except_break
                        found is None,
                        forall|j: int| start <= j < i ==> lookup.ensures((&entries@[j].1, self.local_id), None),
                    invariant
                        start <= i <= n,
                        n == entries@.len(),
                        before == entries@.skip(start as int),
                        forall|w: &W, id: UniqueLocalId| lookup.requires((w, id)),
                    ensures
                        start <= i <= n,
                        forall|j: int|
                            start <= j < (if found is Some { i - 1 } else { i as int }) ==> lookup.ensures(
                                (&entries@[j].1, self.local_id),
                                None,
                            ),
                        found is None ==> i == n,
                        found matches Some((thread, value)) ==> i >= start + 1 && entries@[i - 1].0 == thread
                            && lookup.ensures((&entries@[i - 1].1, self.local_id), Some(value)),
                    decreases n - i,
                {
                    let entry = &entries[i];
                    let looked = lookup(&entry.1, self.local_id);
                    i = i + 1;
                    match looked {
                        Some(value) => {
                            found = Some((entry.0, value));
                            break;
                        },
                        None => {},
                    }
                }
                self.next = i;
                proof {
                    assert(entries@.skip(i as int) =~= before.skip(i - start));
                    assert forall|j: int| 0 <= j < before.len() implies before[j] == entries@[start + j] by {}
                    let id = self.local_id;
                    let visited = i - start;
                    assert(self.remaining() == before.skip(visited));
                    assert forall|j: int|
                        0 <= j < (if found is Some { visited - 1 } else { visited }) implies lookup.ensures(
                            (&before[j].1, id),
                            None,
                        ) by {
                        assert(before[j] == entries@[start + j]);
                    }
                    if visited >= 1 {
                        assert(before[visited - 1] == entries@[i - 1]);
                    }
                    assert(next_step(lookup, id, before, self.remaining(), found));
                }
                found
            },
        }
    }

    /// Bounds on the number of values still to come: none may come, since threads may die,
    /// and at most one per remaining entry.
    pub fn size_hint(&self) -> (r: (usize, Option<usize>))
        requires
            self.wf(),
        ensures
            self.remaining().len() <= usize::MAX,
            r == (0usize, Some(self.remaining().len() as usize)),
    {
        match &self.entries {
            Some(v) => (0, Some(v.len() - self.next)),
            None => (0, Some(0)),
        }
    }
}

} // verus!

//! The state of one live thread: a table of value slots indexed by live local id,
//! and the definitions of thread locals, which own their live ids.
use crate::ids::{IdManager, LiveLocalId, LiveThreadId, UniqueLocalId, UniqueThreadId};
use vstd::prelude::*;

verus! {

/// The slot of one live local id on a thread: the definition of the local that owns it,
/// once the slot is initialized, and the thread's value for that local, once there is one.
pub struct LocalValueSlot<D, V> {
    pub local_def: Option<D>,
    pub value: Option<V>,
}

impl<D, V> LocalValueSlot<D, V> {
    /// A slot with neither a definition nor a value.
    pub fn uninit() -> (r: Self)
        ensures
            r.local_def is None,
            r.value is None,
    {
        LocalValueSlot { local_def: None, value: None }
    }
}

/// The definitions and values of the slots that hold both, in slot order.
pub open spec fn set_values<D, V>(slots: Seq<LocalValueSlot<D, V>>) -> Seq<(D, V)>
    decreases slots.len(),
{
    if slots.len() == 0 {
        Seq::empty()
    } else {
        let rest = set_values(slots.drop_last());
        let last = slots.last();
        match (last.local_def, last.value) {
            (Some(def), Some(value)) => rest.push((def, value)),
            _ => rest,
        }
    }
}

/// `pairs` lists, in slot order, the definition and value of exactly the slots of `slots`
/// that hold both; `picked` gives the slot of each pair.
pub open spec fn picks_set_slots<D, V>(slots: Seq<LocalValueSlot<D, V>>, picked: Seq<int>, pairs: Seq<(D, V)>) -> bool {
    &&& picked.len() == pairs.len()
    &&& forall|k: int| 0 <= k < picked.len() ==> 0 <= #[trigger] picked[k] < slots.len()
    &&& forall|k: int, l: int| 0 <= k < l < picked.len() ==> #[trigger] picked[k] < #[trigger] picked[l]
    &&& forall|k: int|
        0 <= k < picked.len() ==> slots[#[trigger] picked[k]].local_def == Some(pairs[k].0) && slots[picked[k]].value
            == Some(pairs[k].1)
    &&& forall|i: int|
        0 <= i < slots.len() && (#[trigger] slots[i]).local_def is Some && slots[i].value is Some ==> picked.contains(i)
}

/// What a thread's death hands over for dropping is, in slot order, one pair for each slot
/// that holds both a definition and a value, and nothing else: no such slot is left out.
pub proof fn lemma_set_values_picks_set_slots<D, V>(slots: Seq<LocalValueSlot<D, V>>) -> (picked: Seq<int>)
    ensures
        picks_set_slots(slots, picked, set_values(slots)),
    decreases slots.len(),
{
    if slots.len() == 0 {
        Seq::empty()
    } else {
        let rest = slots.drop_last();
        let p = lemma_set_values_picks_set_slots(rest);
        let n = slots.len() - 1;
        let last = slots.last();
        assert forall|i: int| 0 <= i < n implies #[trigger] slots[i] == rest[i] by {}
        match (last.local_def, last.value) {
            (Some(d), Some(v)) => {
                let q = p.push(n);
                let out = set_values(slots);
                assert(out == set_values(rest).push((d, v)));
                assert forall|k: int| 0 <= k < q.len() implies 0 <= #[trigger] q[k] < slots.len() by {
                    if k < p.len() {
                        assert(q[k] == p[k]);
                    }
                }
                assert forall|k: int, l: int| 0 <= k < l < q.len() implies #[trigger] q[k] < #[trigger] q[l] by {
                    if l < p.len() {
                        assert(q[k] == p[k] && q[l] == p[l]);
                    } else {
                        assert(q[k] == p[k]);
                    }
                }
                assert forall|k: int| 0 <= k < q.len() implies slots[#[trigger] q[k]].local_def == Some(out[k].0)
                    && slots[q[k]].value == Some(out[k].1) by {
                    if k < p.len() {
                        assert(q[k] == p[k]);
                        assert(out[k] == set_values(rest)[k]);
                        assert(slots[p[k]] == rest[p[k]]);
                    }
                }
                assert forall|i: int|
                    0 <= i < slots.len() && (#[trigger] slots[i]).local_def is Some && slots[i].value is Some
                        implies q.contains(i) by {
                    if i < n {
                        assert(rest[i] == slots[i]);
                        assert(p.contains(i));
                        let k = choose|k: int| 0 <= k < p.len() && p[k] == i;
                        assert(q[k] == i);
                    } else {
                        assert(q[p.len() as int] == i);
                    }
                }
                q
            },
            _ => {
                assert(set_values(slots) == set_values(rest));
                assert forall|k: int| 0 <= k < p.len() implies slots[#[trigger] p[k]].local_def == Some(
                    set_values(slots)[k].0,
                ) && slots[p[k]].value == Some(set_values(slots)[k].1) by {
                    assert(slots[p[k]] == rest[p[k]]);
                }
                assert forall|i: int|
                    0 <= i < slots.len() && (#[trigger] slots[i]).local_def is Some && slots[i].value is Some
                        implies p.contains(i) by {
                    if i < n {
                        assert(rest[i] == slots[i]);
                    }
                }
                p
            },
        }
    }
}

/// The state of a live thread: its ids, and one value slot per live local id.
pub struct ActiveThreadState<D, V> {
    unique_id: UniqueThreadId,
    live_id: LiveThreadId,
    /// The value slots, indexed by live local id.
    ///
    /// A `std` vector: the slots are generic, and what an outside collection holds can only
    /// be named at a concrete element type, so `boxcar`'s vector cannot carry these contracts.
    values: Vec<LocalValueSlot<D, V>>,
}

impl<D, V> ActiveThreadState<D, V> {
    /// The value slots, indexed by live local id.
    pub closed spec fn slots(&self) -> Seq<LocalValueSlot<D, V>> {
        self.values@
    }

    /// The unique id of the thread.
    pub closed spec fn spec_unique_id(&self) -> UniqueThreadId {
        self.unique_id
    }

    /// The live id of the thread.
    pub closed spec fn spec_live_id(&self) -> LiveThreadId {
        self.live_id
    }

    /// The state of a thread that has just acquired its ids, with no slot yet.
    pub fn new(unique_id: UniqueThreadId, live_id: LiveThreadId) -> (r: Self)
        ensures
            r.spec_unique_id() == unique_id,
            r.spec_live_id() == live_id,
            r.slots() == Seq::<LocalValueSlot<D, V>>::empty(),
    {
        ActiveThreadState { unique_id, live_id, values: Vec::new() }
    }

    /// The unique id of the thread.
    pub fn unique_id(&self) -> (r: UniqueThreadId)
        ensures
            r == self.spec_unique_id(),
    {
        self.unique_id
    }

    /// The live id of the thread.
    pub fn live_id(&self) -> (r: LiveThreadId)
        ensures
            r == self.spec_live_id(),
    {
        self.live_id
    }

    /// The slot of `live_local`, or `None` if the table does not reach it yet.
    pub fn get_slot(&self, live_local: LiveLocalId) -> (r: Option<&LocalValueSlot<D, V>>)
        ensures
            r == (if live_local.0 < self.slots().len() {
                Some(&self.slots()[live_local.0 as int])
            } else {
                None
            }),
    {
        if live_local.0 < self.values.len() {
            Some(&self.values[live_local.0])
        } else {
            None
        }
    }

    /// The slot of `live_local`, initializing it with the definition `def` if the table
    /// does not reach it yet.
    pub fn get_or_init_slot(&mut self, live_local: LiveLocalId, def: D) -> (slot: &LocalValueSlot<D, V>)
        requires
            live_local.0 < usize::MAX,
        ensures
            get_or_init_slot_result(old(self).slots(), final(self).slots(), live_local.0, def),
            live_local.0 < old(self).slots().len() ==> final(self).slots() == old(self).slots(),
            live_local.0 >= old(self).slots().len() ==> {
                &&& final(self).slots().len() == live_local.0 + 1
                &&& final(self).slots()[live_local.0 as int].local_def == Some(def)
                &&& final(self).slots()[live_local.0 as int].value is None
                &&& forall|i: int| 0 <= i < old(self).slots().len() ==> #[trigger] final(self).slots()[i] == old(self).slots()[i]
                &&& forall|i: int| old(self).slots().len() <= i < live_local.0 ==> (#[trigger] final(self).slots()[i]).local_def is None
                    && final(self).slots()[i].value is None
            },
            final(self).spec_unique_id() == old(self).spec_unique_id(),
            final(self).spec_live_id() == old(self).spec_live_id(),
            live_local.0 < final(self).slots().len(),
            *slot == final(self).slots()[live_local.0 as int],
    {
        if live_local.0 < self.values.len() {
            &self.values[live_local.0]
        } else {
            self.init_slot(live_local, def)
        }
    }

    /// Grows the table with empty slots up to `live_local`, whose slot it initializes with
    /// the definition `def` and no value.
    ///
    /// The table must not reach `live_local` yet.
    pub fn init_slot(&mut self, live_local: LiveLocalId, def: D) -> (slot: &LocalValueSlot<D, V>)
        requires
            live_local.0 >= old(self).slots().len(),
            live_local.0 < usize::MAX,
        ensures
            init_slot_result(old(self).slots(), final(self).slots(), live_local.0, def),
            final(self).slots().len() == live_local.0 + 1,
            final(self).slots()[live_local.0 as int].local_def == Some(def),
            final(self).slots()[live_local.0 as int].value is None,
            forall|i: int| 0 <= i < old(self).slots().len() ==> #[trigger] final(self).slots()[i] == old(self).slots()[i],
            forall|i: int| old(self).slots().len() <= i < live_local.0 ==> (#[trigger] final(self).slots()[i]).local_def is None
                && final(self).slots()[i].value is None,
            final(self).spec_unique_id() == old(self).spec_unique_id(),
            final(self).spec_live_id() == old(self).spec_live_id(),
            *slot == final(self).slots()[live_local.0 as int],
    {
        let index = live_local.0;
        let ghost before = self.values@;
        let ghost ids = (self.unique_id, self.live_id);
        while self.values.len() < index
            invariant
                (self.unique_id, self.live_id) == ids,
                before.len() <= self.values@.len() <= index,
                forall|i: int| 0 <= i < before.len() ==> #[trigger] self.values@[i] == before[i],
                forall|i: int|
                    before.len() <= i < self.values@.len() ==> #[trigger] self.values@[i]
                        == (LocalValueSlot::<D, V> { local_def: None, value: None }),
            decreases index - self.values@.len(),
        {
            self.values.push(LocalValueSlot::uninit());
        }
        self.values.push(LocalValueSlot { local_def: Some(def), value: None });
        &self.values[index]
    }

    /// Empties the table and hands back, in slot order, the definition and value of every
    /// slot that holds both: the values the thread's death drops, each with its local.
    pub fn values_to_drop(self) -> (r: Vec<(D, V)>)
        ensures
            r@ == set_values(self.slots()),
            exists|picked: Seq<int>| picks_set_slots(self.slots(), picked, r@),
    {
        let ghost mut picked: Seq<int> = Seq::empty();
        proof {
            picked = lemma_set_values_picks_set_slots(self.values@);
        }
        let ghost orig = self.values@;
        let ghost slots = self.slots();
        assert(slots == orig);
        let ghost n = orig.len();
        let mut values = self.values;
        let mut stack: Vec<LocalValueSlot<D, V>> = Vec::new();
        while values.len() > 0
            invariant
                n == orig.len(),
                values@.len() + stack@.len() == n,
                values@ == orig.take(values@.len() as int),
                forall|j: int| 0 <= j < stack@.len() ==> #[trigger] stack@[j] == orig[n - 1 - j],
            decreases values@.len(),
        {
            let ghost len = values@.len();
            let slot = values.pop().unwrap();
            proof {
                assert(slot == orig[len - 1]);
            }
            stack.push(slot);
            proof {
                assert(values@ =~= orig.take(values@.len() as int));
            }
        }
        let mut out: Vec<(D, V)> = Vec::new();
        let ghost mut k: int = 0;
        assert(orig.take(0) =~= Seq::<LocalValueSlot<D, V>>::empty());
        while stack.len() > 0
            invariant
                n == orig.len(),
                stack@.len() + k == n,
                0 <= k <= n,
                forall|j: int| 0 <= j < stack@.len() ==> #[trigger] stack@[j] == orig[n - 1 - j],
                out@ == set_values(orig.take(k)),
            decreases stack@.len(),
        {
            let slot = stack.pop().unwrap();
            proof {
                assert(slot == orig[k]);
                assert(orig.take(k + 1).drop_last() =~= orig.take(k));
                assert(orig.take(k + 1).last() == orig[k]);
            }
            match slot.local_def {
                Some(def) => match slot.value {
                    Some(value) => out.push((def, value)),
                    None => {},
                },
                None => {},
            }
            proof {
                k = k + 1;
            }
        }
        proof {
            assert(orig.take(n as int) =~= orig);
            assert(picks_set_slots(orig, picked, out@));
            assert(picks_set_slots(slots, picked, out@));
        }
        out
    }
}

/// The table after `init_slot` of live local id `index` with the definition `def`:
/// the old slots unchanged, empty slots up to `index`, and that slot holding `def` and no value.
pub open spec fn init_slot_result<D, V>(
    before: Seq<LocalValueSlot<D, V>>,
    after: Seq<LocalValueSlot<D, V>>,
    index: usize,
    def: D,
) -> bool {
    &&& after.len() == index + 1
    &&& after[index as int] == (LocalValueSlot::<D, V> { local_def: Some(def), value: None })
    &&& forall|i: int| 0 <= i < before.len() ==> #[trigger] after[i] == before[i]
    &&& forall|i: int|
        before.len() <= i < index ==> #[trigger] after[i] == (LocalValueSlot::<D, V> { local_def: None, value: None })
}

/// The table after `get_or_init_slot` of live local id `index` with the definition `def`:
/// unchanged when the table reaches `index`, else as after `init_slot`.
pub open spec fn get_or_init_slot_result<D, V>(
    before: Seq<LocalValueSlot<D, V>>,
    after: Seq<LocalValueSlot<D, V>>,
    index: usize,
    def: D,
) -> bool {
    if index < before.len() {
        after == before
    } else {
        init_slot_result(before, after, index, def)
    }
}

/// Where the table does not reach a live local id yet, `get_or_init_slot` grows it exactly to
/// that id and binds the new slot to the local's definition, with no value; the slots before
/// it are kept, the ones added in between are empty. Where the table reaches it, nothing changes.
pub proof fn lemma_get_or_init_slot_binds_definition<D, V>(
    before: Seq<LocalValueSlot<D, V>>,
    after: Seq<LocalValueSlot<D, V>>,
    index: usize,
    def: D,
)
    requires
        get_or_init_slot_result(before, after, index, def),
    ensures
        index < before.len() ==> after == before,
        index >= before.len() ==> {
            &&& after.len() == index + 1
            &&& after[index as int].local_def == Some(def)
            &&& after[index as int].value is None
            &&& forall|i: int| 0 <= i < before.len() ==> #[trigger] after[i] == before[i]
            &&& forall|i: int| before.len() <= i < index ==> (#[trigger] after[i]).local_def is None && after[i].value is None
        },
{
}

/// A second `get_or_init_slot` of the same live local id adds no slot, leaves the table
/// as the first call left it, and hands out the same slot.
pub proof fn lemma_get_or_init_slot_twice<D, V>(
    s0: Seq<LocalValueSlot<D, V>>,
    s1: Seq<LocalValueSlot<D, V>>,
    s2: Seq<LocalValueSlot<D, V>>,
    index: usize,
    first: D,
    second: D,
)
    requires
        get_or_init_slot_result(s0, s1, index, first),
        get_or_init_slot_result(s1, s2, index, second),
    ensures
        index < s1.len(),
        s2 == s1,
        s2[index as int] == s1[index as int],
{
}

/// The definition of a live thread local: its unique id and the live id it owns.
pub struct ActiveLocalDef {
    unique_id: UniqueLocalId,
    live_id: LiveLocalId,
}

impl ActiveLocalDef {
    /// The unique id of the local.
    pub closed spec fn spec_unique_id(&self) -> UniqueLocalId {
        self.unique_id
    }

    /// The live id that the local owns.
    pub closed spec fn spec_live_id(&self) -> LiveLocalId {
        self.live_id
    }

    /// The definition of a local with these ids.
    pub fn new(unique_id: UniqueLocalId, live_id: LiveLocalId) -> (r: Self)
        ensures
            r.spec_unique_id() == unique_id,
            r.spec_live_id() == live_id,
    {
        ActiveLocalDef { unique_id, live_id }
    }

    /// The unique id of the local.
    pub fn unique_id(&self) -> (r: UniqueLocalId)
        ensures
            r == self.spec_unique_id(),
    {
        self.unique_id
    }

    /// The live id that the local owns.
    pub fn live_id(&self) -> (r: LiveLocalId)
        ensures
            r == self.spec_live_id(),
    {
        self.live_id
    }

    /// Destroys the definition once nothing uses it, giving its live id back to `ids`
    /// for a later local to reuse.
    pub fn release(self, ids: &mut IdManager)
        requires
            old(ids).wf(),
        ensures
            final(ids).wf(),
            final(ids).local_pool() == old(ids).local_pool().after_free(self.spec_live_id().0),
            final(ids).thread_pool() == old(ids).thread_pool(),
            final(ids).seen_threads() == old(ids).seen_threads(),
    {
        ids.release_live_local_id(self.live_id);
    }
}

} // verus!

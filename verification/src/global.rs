//! The table of thread slots, indexed by live thread id, beside the [`IdManager`].
use crate::ids::{IdManager, LiveThreadId, UniqueThreadId};
use crate::reusing_ids::IdPool;
use vstd::multiset::Multiset;
use vstd::prelude::*;

verus! {

/// The slot of one live thread id: the thread that holds it, if any, and a handle to its state.
pub struct ActiveThreadSlot<W> {
    pub id: Option<UniqueThreadId>,
    pub state: Option<W>,
}

impl<W> ActiveThreadSlot<W> {
    /// A slot that no thread has claimed and that holds no handle.
    pub fn uninit() -> (r: Self)
        ensures
            r.id is None,
            r.state is None,
    {
        ActiveThreadSlot { id: None, state: None }
    }
}

/// Every state that `upgrade` finds behind the handle of a claimed slot carries
/// the unique id of the thread that holds the slot.
pub open spec fn states_match_slots<W, S, F: Fn(&W) -> Option<(UniqueThreadId, S)>>(
    slots: Seq<ActiveThreadSlot<W>>,
    upgrade: F,
) -> bool {
    forall|i: int, u: UniqueThreadId, found: S|
        0 <= i < slots.len() && slots[i].id is Some && slots[i].state is Some
            && #[trigger] upgrade.ensures((&slots[i].state->0,), Some((u, found))) ==> u
            == slots[i].id->0
}

/// `states` lists, in slot order, the states that `upgrade` found behind the handles of the
/// claimed slots of `slots`; `picked` gives the slot of each. Every other claimed slot with
/// a handle is one whose state `upgrade` found gone.
pub open spec fn upgraded_in_order<W, S, F: Fn(&W) -> Option<(UniqueThreadId, S)>>(
    slots: Seq<ActiveThreadSlot<W>>,
    upgrade: F,
    picked: Seq<int>,
    states: Seq<S>,
) -> bool {
    &&& picked.len() == states.len()
    &&& forall|k: int| 0 <= k < picked.len() ==> 0 <= #[trigger] picked[k] < slots.len()
    &&& forall|k: int, l: int| 0 <= k < l < picked.len() ==> #[trigger] picked[k] < #[trigger] picked[l]
    &&& forall|k: int|
        0 <= k < picked.len() ==> {
            let slot = slots[#[trigger] picked[k]];
            &&& slot.id is Some
            &&& slot.state is Some
            &&& upgrade.ensures((&slot.state->0,), Some((slot.id->0, states[k])))
        }
    &&& forall|i: int|
        0 <= i < slots.len() && (#[trigger] slots[i]).id is Some && slots[i].state is Some
            && !picked.contains(i) ==> upgrade.ensures((&slots[i].state->0,), None)
}

/// Every claimed slot belongs to a live thread id that is in use in `pool`.
pub open spec fn slots_match_pool<W>(slots: Seq<ActiveThreadSlot<W>>, pool: IdPool) -> bool {
    &&& slots.len() <= usize::MAX
    &&& forall|i: int| 0 <= i < slots.len() && (#[trigger] slots[i]).id is Some ==> pool.in_use().contains(
        i as usize,
    )
}

/// The table after the thread `uid` claims the slot of live id `index`, with the handle `state`:
/// the table grows with empty slots as far as needed, and that slot is set.
pub open spec fn claim_slot<W>(
    slots: Seq<ActiveThreadSlot<W>>,
    index: usize,
    uid: UniqueThreadId,
    state: W,
) -> Seq<ActiveThreadSlot<W>> {
    let grown = if index < slots.len() {
        slots
    } else {
        slots + Seq::new(
            (index + 1 - slots.len()) as nat,
            |i: int| ActiveThreadSlot { id: None, state: None },
        )
    };
    grown.update(index as int, ActiveThreadSlot { id: Some(uid), state: Some(state) })
}

/// The table after the thread in the slot of live id `index` releases it; the handle stays.
pub open spec fn release_slot<W>(slots: Seq<ActiveThreadSlot<W>>, index: usize) -> Seq<
    ActiveThreadSlot<W>,
> {
    slots.update(index as int, ActiveThreadSlot { id: None, state: slots[index as int].state })
}

/// Releasing the slot of one live id frees that slot only, keeps its handle, and leaves every
/// other slot, and the size of the table, as it was.
pub proof fn lemma_release_slot_touches_one_slot<W>(slots: Seq<ActiveThreadSlot<W>>, index: usize)
    requires
        index < slots.len(),
    ensures
        release_slot(slots, index).len() == slots.len(),
        release_slot(slots, index)[index as int].id is None,
        release_slot(slots, index)[index as int].state == slots[index as int].state,
        forall|i: int| 0 <= i < slots.len() && i != index ==> #[trigger] release_slot(slots, index)[i] == slots[i],
{
}

/// Claiming the slot of one live id gives it to the thread, with its handle, and leaves every
/// other slot as it was; slots added to reach it are unclaimed.
pub proof fn lemma_claim_slot_touches_one_slot<W>(
    slots: Seq<ActiveThreadSlot<W>>,
    index: usize,
    uid: UniqueThreadId,
    state: W,
)
    ensures
        claim_slot(slots, index, uid, state).len() == if index < slots.len() {
            slots.len() as int
        } else {
            index + 1
        },
        claim_slot(slots, index, uid, state)[index as int].id == Some(uid),
        claim_slot(slots, index, uid, state)[index as int].state == Some(state),
        forall|i: int| 0 <= i < slots.len() && i != index ==> #[trigger] claim_slot(slots, index, uid, state)[i] == slots[i],
        forall|i: int|
            slots.len() <= i < index ==> (#[trigger] claim_slot(slots, index, uid, state)[i]).id is None,
{
}

/// Whether the slot of live id `index` is free to be claimed: beyond the table, or unclaimed.
pub open spec fn slot_is_free<W>(slots: Seq<ActiveThreadSlot<W>>, index: usize) -> bool {
    index >= slots.len() || slots[index as int].id is None
}

/// A thread that takes its live id from a consistent pool, while every claimed slot belongs
/// to an id in use, finds its slot free; once it claims the slot, every claimed slot again
/// belongs to an id in use. So no two live threads ever share a slot.
pub proof fn lemma_acquired_slot_is_free<W>(
    slots: Seq<ActiveThreadSlot<W>>,
    pool: IdPool,
    id: usize,
    post: IdPool,
    uid: UniqueThreadId,
    state: W,
)
    requires
        pool.consistent(),
        pool.can_alloc(),
        slots_match_pool(slots, pool),
        pool.alloc_step(id, post),
    ensures
        id < usize::MAX,
        slot_is_free(slots, id),
        post.consistent(),
        slots_match_pool(claim_slot(slots, id, uid, state), post),
{
    crate::reusing_ids::lemma_allocate_hands_out_unused_id(pool, id, post);
    let c = claim_slot(slots, id, uid, state);
    assert forall|i: int| 0 <= i < c.len() && (#[trigger] c[i]).id is Some implies post.in_use().contains(
        i as usize,
    ) by {
        if i != id {
            assert(i < slots.len());
            assert(slots[i].id is Some);
            assert(pool.in_use().contains(i as usize));
        }
    }
}

/// A thread that releases its slot and then gives its live id back leaves every claimed slot
/// belonging to an id in use, and the pool consistent.
pub proof fn lemma_release_slot_then_id<W>(slots: Seq<ActiveThreadSlot<W>>, pool: IdPool, index: usize)
    requires
        pool.consistent(),
        slots_match_pool(slots, pool),
        index < slots.len(),
        slots[index as int].id is Some,
    ensures
        pool.in_use().contains(index),
        pool.after_free(index).consistent(),
        slots_match_pool(release_slot(slots, index), pool.after_free(index)),
{
    assert(pool.in_use().contains(index));
    crate::reusing_ids::lemma_free_releases_id(pool, index);
    let r = release_slot(slots, index);
    assert forall|i: int| 0 <= i < r.len() && (#[trigger] r[i]).id is Some implies pool.after_free(
        index,
    ).in_use().contains(i as usize) by {
        assert(i != index);
        assert(slots[i].id is Some);
        assert(pool.in_use().contains(i as usize));
    }
}

/// The state that is shared by all threads: the id manager and the table of thread slots.
///
/// Registering or unregistering a thread, or defining a new thread local, needs exclusive access;
/// reading the values of existing thread locals does not.
pub struct GlobalState<W> {
    /// Manages the live ids of threads and thread locals.
    pub id_manager: IdManager,
    active_thread_slots: Vec<ActiveThreadSlot<W>>,
}

impl<W> GlobalState<W> {
    /// The id manager.
    pub closed spec fn ids(&self) -> IdManager {
        self.id_manager
    }

    /// The table of thread slots.
    pub closed spec fn slots(&self) -> Seq<ActiveThreadSlot<W>> {
        self.active_thread_slots@
    }

    /// The invariant: the id manager is well formed, its pool of thread ids is consistent,
    /// and every claimed slot belongs to a live thread id in use.
    pub open spec fn consistent(&self) -> bool {
        &&& self.ids().wf()
        &&& self.ids().thread_pool().consistent()
        &&& slots_match_pool(self.slots(), self.ids().thread_pool())
    }

    /// A state with no thread, no thread local and no slot.
    pub fn new() -> (r: Self)
        ensures
            r.ids().wf(),
            r.ids().thread_pool() == (IdPool { next_fresh: 0, freed: Multiset::empty() }),
            r.ids().local_pool() == (IdPool { next_fresh: 0, freed: Multiset::empty() }),
            r.ids().seen_threads() == Set::<u64>::empty(),
            r.slots() == Seq::<ActiveThreadSlot<W>>::empty(),
            r.consistent(),
    {
        GlobalState { id_manager: IdManager::new(), active_thread_slots: Vec::new() }
    }

    /// The number of slots in the table.
    pub fn thread_slot_count(&self) -> (n: usize)
        ensures
            n == self.slots().len(),
    {
        self.active_thread_slots.len()
    }

    /// Whether the slot of `live_id` can be claimed: it lies beyond the table or no thread holds it.
    pub fn is_thread_slot_free(&self, live_id: LiveThreadId) -> (r: bool)
        ensures
            r == slot_is_free(self.slots(), live_id.0),
    {
        live_id.0 >= self.active_thread_slots.len() || self.active_thread_slots[live_id.0].id.is_none()
    }

    /// The slot of `live_id`, which must lie within the table.
    ///
    /// The bound is the caller's obligation, proved where it is called.
    pub fn get_thread_slot_unchecked(&self, live_id: LiveThreadId) -> (r: &ActiveThreadSlot<W>)
        requires
            live_id.0 < self.slots().len(),
        ensures
            *r == self.slots()[live_id.0 as int],
    {
        &self.active_thread_slots[live_id.0]
    }

    /// Claims the slot of `live_id` for the thread `uid`, whose state `state` refers to,
    /// growing the table with empty slots as far as needed.
    ///
    /// The slot must not be claimed already.
    pub fn register_thread(&mut self, uid: UniqueThreadId, live_id: LiveThreadId, state: W)
        requires
            slot_is_free(old(self).slots(), live_id.0),
            live_id.0 < usize::MAX,
        ensures
            final(self).ids() == old(self).ids(),
            final(self).slots() == claim_slot(old(self).slots(), live_id.0, uid, state),
            final(self).slots().len() == (if live_id.0 < old(self).slots().len() {
                old(self).slots().len() as int
            } else {
                live_id.0 + 1
            }),
            final(self).slots()[live_id.0 as int].id == Some(uid),
            final(self).slots()[live_id.0 as int].state == Some(state),
            forall|i: int|
                0 <= i < old(self).slots().len() && i != live_id.0 ==> #[trigger] final(self).slots()[i]
                    == old(self).slots()[i],
            forall|i: int|
                old(self).slots().len() <= i < final(self).slots().len() && i != live_id.0
                    ==> (#[trigger] final(self).slots()[i]).id is None,
    {
        let index = live_id.0;
        let ghost before = self.active_thread_slots@;
        let ghost ids_before = self.id_manager;
        while self.active_thread_slots.len() <= index
            invariant
                self.id_manager == ids_before,
                index < usize::MAX,
                forall|i: int| 0 <= i < before.len() ==> #[trigger] self.active_thread_slots@[i] == before[i],
                forall|i: int|
                    before.len() <= i < self.active_thread_slots@.len() ==> #[trigger] self.active_thread_slots@[i]
                        == (ActiveThreadSlot::<W> { id: None, state: None }),
                self.active_thread_slots@.len() >= before.len(),
                self.active_thread_slots@.len() <= (if index < before.len() { before.len() as int } else { index + 1 }),
            decreases index + 1 - self.active_thread_slots@.len(),
        {
            self.active_thread_slots.push(ActiveThreadSlot::uninit());
        }
        self.active_thread_slots.set(index, ActiveThreadSlot { id: Some(uid), state: Some(state) });
        proof {
            assert(self.active_thread_slots@ =~= claim_slot(before, index, uid, state));
        }
    }

    /// Releases the slot of `live_id`, which the thread `uid` holds.
    ///
    /// The handle stays in the slot until another thread claims it.
    pub fn unregister_thead(&mut self, uid: UniqueThreadId, live_id: LiveThreadId)
        requires
            live_id.0 < old(self).slots().len(),
            old(self).slots()[live_id.0 as int].id == Some(uid),
        ensures
            final(self).ids() == old(self).ids(),
            final(self).slots() == release_slot(old(self).slots(), live_id.0),
            final(self).slots().len() == old(self).slots().len(),
            final(self).slots()[live_id.0 as int].id is None,
            final(self).slots()[live_id.0 as int].state == old(self).slots()[live_id.0 as int].state,
            forall|i: int|
                0 <= i < old(self).slots().len() && i != live_id.0 ==> #[trigger] final(self).slots()[i]
                    == old(self).slots()[i],
    {
        let index = live_id.0;
        let mut slot = self.active_thread_slots.remove(index);
        slot.id = None;
        self.active_thread_slots.insert(index, slot);
        proof {
            assert(self.active_thread_slots@ =~= release_slot(old(self).slots(), live_id.0));
        }
    }

    /// Starts the thread `uid`: acquires its live id and claims that id's slot, with the handle
    /// that `make_state` builds from the live id.
    ///
    /// A thread starts at most once in its life.
    pub fn init_thread<F: FnOnce(LiveThreadId) -> W>(&mut self, uid: UniqueThreadId, make_state: F) -> (live: LiveThreadId)
        requires
            old(self).consistent(),
            !old(self).ids().seen_threads().contains(uid.0),
            old(self).ids().thread_pool().can_alloc(),
            forall|l: LiveThreadId| make_state.requires((l,)),
        ensures
            final(self).consistent(),
            old(self).ids().thread_pool().alloc_step(live.0, final(self).ids().thread_pool()),
            final(self).ids().seen_threads() == old(self).ids().seen_threads().insert(uid.0),
            final(self).ids().local_pool() == old(self).ids().local_pool(),
            live.0 < final(self).slots().len(),
            final(self).slots()[live.0 as int].state matches Some(state) && make_state.ensures(
                (live,),
                state,
            ) && final(self).slots() == claim_slot(old(self).slots(), live.0, uid, state),
    {
        let (uid, live) = self.id_manager.acquire_thread_id(uid);
        let state = make_state(live);
        proof {
            crate::global::lemma_acquired_slot_is_free(
                old(self).slots(),
                old(self).ids().thread_pool(),
                live.0,
                self.ids().thread_pool(),
                uid,
                state,
            );
        }
        self.register_thread(uid, live, state);
        live
    }

    /// Ends the thread `uid`, which holds the slot of `live`: releases the slot,
    /// then gives the live id back for another thread to reuse.
    pub fn exit_thread(&mut self, uid: UniqueThreadId, live: LiveThreadId)
        requires
            old(self).consistent(),
            live.0 < old(self).slots().len(),
            old(self).slots()[live.0 as int].id == Some(uid),
        ensures
            final(self).consistent(),
            final(self).slots() == release_slot(old(self).slots(), live.0),
            final(self).slots().len() == old(self).slots().len(),
            final(self).slots()[live.0 as int].id is None,
            forall|i: int|
                0 <= i < old(self).slots().len() && i != live.0 ==> #[trigger] final(self).slots()[i]
                    == old(self).slots()[i],
            final(self).ids().thread_pool() == old(self).ids().thread_pool().after_free(live.0),
            final(self).ids().local_pool() == old(self).ids().local_pool(),
            final(self).ids().seen_threads() == old(self).ids().seen_threads(),
    {
        proof {
            crate::global::lemma_release_slot_then_id(old(self).slots(), old(self).ids().thread_pool(), live.0);
        }
        self.unregister_thead(uid, live);
        self.id_manager.release_live_thread_id(live);
    }

    /// The states of the live threads, in slot order: for each claimed slot with a handle,
    /// `upgrade` turns the handle into the thread's unique id and state, or `None` once the
    /// state is gone, and only the states still there are listed.
    ///
    /// Every state that is still there must carry the unique id of the thread in its slot.
    pub fn active_threads_iter<S, F: Fn(&W) -> Option<(UniqueThreadId, S)>>(&self, upgrade: F) -> (r: Vec<S>)
        requires
            forall|w: &W| upgrade.requires((w,)),
            states_match_slots(self.slots(), upgrade),
        ensures
            exists|picked: Seq<int>| upgraded_in_order(self.slots(), upgrade, picked, r@),
    {
        let mut r: Vec<S> = Vec::new();
        let ghost mut picked: Seq<int> = Seq::empty();
        let mut i: usize = 0;
        while i < self.active_thread_slots.len()
            invariant
                i <= self.slots().len(),
                forall|w: &W| upgrade.requires((w,)),
                states_match_slots(self.slots(), upgrade),
                upgraded_in_order(self.slots().take(i as int), upgrade, picked, r@),
            decreases self.slots().len() - i,
        {
            let slot = &self.active_thread_slots[i];
            let ghost prefix = self.slots().take(i as int);
            let ghost next = self.slots().take(i + 1);
            let ghost r0 = r@;
            let ghost p0 = picked;
            let mut gone = false;
            match (&slot.id, &slot.state) {
                (Some(uid), Some(state)) => {
                    match upgrade(state) {
                        Some((u, found)) => {
                            proof {
                                assert(u == *uid);
                            }
                            r.push(found);
                            proof {
                                picked = picked.push(i as int);
                            }
                        },
                        None => {
                            gone = true;
                        },
                    }
                },
                _ => {},
            }
            proof {
                assert forall|j: int| 0 <= j < i implies #[trigger] next[j] == prefix[j] by {}
                assert(next[i as int] == self.slots()[i as int]);
                assert(next.len() == i + 1);
                assert forall|k: int| 0 <= k < p0.len() implies #[trigger] p0[k] < i by {}
                if picked.len() > p0.len() {
                    assert(picked == p0.push(i as int));
                    assert(r@ == r0.push(r@.last()));
                } else {
                    assert(picked == p0);
                    assert(r@ == r0);
                }
                assert forall|k: int| 0 <= k < picked.len() implies 0 <= #[trigger] picked[k] < next.len() by {}
                assert forall|k: int, l: int| 0 <= k < l < picked.len() implies #[trigger] picked[k] < #[trigger] picked[l] by {
                    if l < p0.len() {
                        assert(picked[k] == p0[k] && picked[l] == p0[l]);
                    }
                }
                assert forall|k: int| 0 <= k < picked.len() implies {
                    let slot = next[#[trigger] picked[k]];
                    &&& slot.id is Some
                    &&& slot.state is Some
                    &&& upgrade.ensures((&slot.state->0,), Some((slot.id->0, r@[k])))
                } by {
                    if k < p0.len() {
                        assert(picked[k] == p0[k]);
                        assert(r@[k] == r0[k]);
                        assert(next[p0[k]] == prefix[p0[k]]);
                    }
                }
                assert forall|j: int|
                    0 <= j < next.len() && (#[trigger] next[j]).id is Some && next[j].state is Some
                        && !picked.contains(j) implies upgrade.ensures((&next[j].state->0,), None) by {
                    if j < i {
                        assert(next[j] == prefix[j]);
                        if p0.contains(j) {
                            let k = choose|k: int| 0 <= k < p0.len() && p0[k] == j;
                            assert(picked[k] == j);
                        }
                    } else {
                        assert(j == i);
                        if !gone {
                            assert(picked.len() > p0.len());
                            assert(picked[p0.len() as int] == j);
                        }
                    }
                }
            }
            i = i + 1;
        }
        proof {
            assert(self.slots().take(self.slots().len() as int) =~= self.slots());
        }
        r
    }
}

} // verus!
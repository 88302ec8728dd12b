//! The ids that name thread locals and threads.
//!
//! A *unique* id is never handed out twice during the life of the process;
//! a *live* id is a small index that is given back when its owner dies and then reused.
use crate::reusing_ids::{IdPool, ReusingIdManager};
use portable_atomic::AtomicU64;
use portable_atomic::Ordering;
use std::collections::BTreeSet;
use vstd::multiset::Multiset;
use vstd::prelude::*;

verus! {

#[verifier::external_type_specification]
#[verifier::external_body]
pub struct ExAtomicU64(AtomicU64);

/// The counter update used to hand out unique ids: the successor, unless it would overflow.
pub fn next_unique_id(current: u64) -> (next: Option<u64>)
    ensures
        next == (if current < u64::MAX { Some((current + 1) as u64) } else { None::<u64> }),
{
    current.checked_add(1)
}

/// A fresh counter of the `portable_atomic` crate, holding `value`.
#[verifier::external_body]
fn new_counter(value: u64) -> AtomicU64 {
    AtomicU64::new(value)
}

/// Calls `portable_atomic::AtomicU64::fetch_update` on `counter` with [`next_unique_id`]
/// as the update function.
///
/// The crate documents the result as `Ok(previous)` when the update function returned
/// `Some` for the previous value, and `Err(previous)` when it returned `None`.
/// Which value was previous depends on the other threads, so nothing more is claimed.
#[verifier::external_body]
fn fetch_next_unique_id(counter: &AtomicU64) -> (r: Result<u64, u64>)
    ensures
        match r {
            Ok(previous) => previous < u64::MAX,
            Err(previous) => previous == u64::MAX,
        },
{
    counter.fetch_update(Ordering::AcqRel, Ordering::Acquire, |x| next_unique_id(x))
}

/// A thread-local id that is never reused: no two thread locals ever get the same one.
#[derive(Clone, Copy, Debug, PartialEq, Eq, Hash, Structural)]
pub struct UniqueLocalId {
    id: u64,
}

impl View for UniqueLocalId {
    type V = u64;

    closed spec fn view(&self) -> u64 {
        self.id
    }
}

impl UniqueLocalId {
    #[verifier::type_invariant]
    spec fn nonzero(self) -> bool {
        self.id != 0
    }

    /// The id that the outcome of one counter update hands out:
    /// the previous counter value when the update succeeded and that value is nonzero.
    pub fn from_fetch(outcome: Result<u64, u64>) -> (id: Option<UniqueLocalId>)
        ensures
            match outcome {
                Ok(previous) => if previous != 0 {
                    id matches Some(u) && u@ == previous
                } else {
                    id is None
                },
                Err(_) => id is None,
            },
    {
        match outcome {
            Ok(previous) => if previous != 0 {
                Some(UniqueLocalId { id: previous })
            } else {
                None
            },
            Err(_) => None,
        }
    }

    /// Allocates a new unique id from `allocator`, or `None` once the counter is exhausted.
    pub fn allocate(allocator: &UniqueIdAllocator) -> (id: Option<UniqueLocalId>)
        ensures
            id matches Some(u) ==> 1 <= u@ < u64::MAX,
    {
        allocator.allocate()
    }

    /// The integer value of the id, which is never zero.
    pub fn get(&self) -> (v: u64)
        ensures
            v == self@,
            v != 0,
    {
        proof {
            use_type_invariant(self);
        }
        self.id
    }
}

/// Hands out [`UniqueLocalId`]s from an atomic counter that starts at one.
pub struct UniqueIdAllocator {
    next_id: AtomicU64,
}

impl UniqueIdAllocator {
    /// An allocator whose first id is one.
    pub fn new() -> (r: Self) {
        UniqueIdAllocator { next_id: new_counter(1) }
    }

    /// Takes the next id from the counter, or `None` once the counter is exhausted.
    pub fn allocate(&self) -> (id: Option<UniqueLocalId>)
        ensures
            id matches Some(u) ==> 1 <= u@ < u64::MAX,
    {
        let outcome = fetch_next_unique_id(&self.next_id);
        UniqueLocalId::from_fetch(outcome)
    }
}

/// The live id of a thread local: a small index, reused once the local is gone.
#[derive(Clone, Copy, Debug, PartialEq, Eq, Structural)]
pub struct LiveLocalId(pub usize);

impl LiveLocalId {
    /// The live id with the given index.
    ///
    /// Nothing ties the result to a live thread local: the caller must know that one uses it.
    pub fn from_index(index: usize) -> (id: Self)
        ensures
            id.0 == index,
    {
        LiveLocalId(index)
    }

    /// The index of this id.
    pub fn index(&self) -> (i: usize)
        ensures
            i == self.0,
    {
        self.0
    }
}

/// The live id of a thread: a small index, reused once the thread has died.
///
/// Unlike a [`UniqueThreadId`], these can be reused.
#[derive(Clone, Copy, Debug, PartialEq, Eq, Structural)]
pub struct LiveThreadId(pub usize);

impl LiveThreadId {
    /// The index of this id.
    pub fn index(&self) -> (i: usize)
        ensures
            i == self.0,
    {
        self.0
    }
}

/// The identity of a thread, never shared by two threads of the process.
#[derive(Clone, Copy, Debug, PartialEq, Eq, Hash, Structural)]
pub struct UniqueThreadId(pub u64);

/// A live local id that is given back, and is no larger than any other freed local id,
/// is the live id of the very next local acquired, and the local pool is then as it was
/// before the release: live ids are reused.
pub proof fn lemma_released_local_id_is_reused(
    before: IdManager,
    released: IdManager,
    after: IdManager,
    lid: LiveLocalId,
    next: LiveLocalId,
)
    requires
        forall|y: usize| before.local_pool().freed.count(y) > 0 ==> lid.0 <= y,
        released.local_pool() == before.local_pool().after_free(lid.0),
        released.local_pool().alloc_step(next.0, after.local_pool()),
    ensures
        next == lid,
        after.local_pool() == before.local_pool(),
{
    crate::reusing_ids::lemma_free_then_allocate(before.local_pool(), lid.0, next.0, after.local_pool());
}

/// Manages the live ids of threads and of thread locals.
///
/// Acquiring and releasing ids needs exclusive access to the manager.
pub struct IdManager {
    thread_ids: ReusingIdManager,
    local_ids: ReusingIdManager,
    /// The threads that have ever acquired a live id, created on first use,
    /// to protect against initializing a thread twice.
    seen_threads: Option<BTreeSet<u64>>,
}

impl IdManager {
    /// The internal invariant of both id pools.
    pub closed spec fn wf(&self) -> bool {
        self.thread_ids.wf() && self.local_ids.wf()
    }

    /// The pool of live thread ids.
    pub closed spec fn thread_pool(&self) -> IdPool {
        self.thread_ids.pool()
    }

    /// The pool of live local ids.
    pub closed spec fn local_pool(&self) -> IdPool {
        self.local_ids.pool()
    }

    /// The threads that have ever acquired a live id from this manager.
    pub closed spec fn seen_threads(&self) -> Set<u64> {
        match self.seen_threads {
            Some(s) => s@,
            None => Set::empty(),
        }
    }

    /// A manager that has handed out no ids and seen no thread.
    pub fn new() -> (r: Self)
        ensures
            r.wf(),
            r.thread_pool() == (IdPool { next_fresh: 0, freed: Multiset::empty() }),
            r.local_pool() == (IdPool { next_fresh: 0, freed: Multiset::empty() }),
            r.seen_threads() == Set::<u64>::empty(),
    {
        IdManager {
            thread_ids: ReusingIdManager::new(),
            local_ids: ReusingIdManager::new(),
            seen_threads: None,
        }
    }

    /// Acquires the ids of a new thread local: a unique id from `unique_ids`
    /// and a live id from this manager.
    ///
    /// Returns `None`, and changes nothing, when `unique_ids` is exhausted.
    pub fn acquire_local_id(&mut self, unique_ids: &UniqueIdAllocator) -> (r: Option<
        (UniqueLocalId, LiveLocalId),
    >)
        requires
            old(self).wf(),
            old(self).local_pool().can_alloc(),
        ensures
            final(self).wf(),
            final(self).thread_pool() == old(self).thread_pool(),
            final(self).seen_threads() == old(self).seen_threads(),
            match r {
                Some((unique, live)) => {
                    &&& 1 <= unique@ < u64::MAX
                    &&& old(self).local_pool().alloc_step(live.0, final(self).local_pool())
                },
                None => final(self).local_pool() == old(self).local_pool(),
            },
    {
        self.acquire_local_id_with(UniqueLocalId::allocate(unique_ids))
    }

    /// Pairs the unique id `unique`, as the unique-id allocator handed it out, with a live id
    /// from this manager; with no unique id, acquires nothing and changes nothing.
    pub fn acquire_local_id_with(&mut self, unique: Option<UniqueLocalId>) -> (r: Option<
        (UniqueLocalId, LiveLocalId),
    >)
        requires
            old(self).wf(),
            old(self).local_pool().can_alloc(),
        ensures
            final(self).wf(),
            final(self).thread_pool() == old(self).thread_pool(),
            final(self).seen_threads() == old(self).seen_threads(),
            match unique {
                Some(u) => r matches Some((u2, live)) && u2 == u && old(self).local_pool().alloc_step(
                    live.0,
                    final(self).local_pool(),
                ),
                None => r is None && final(self).local_pool() == old(self).local_pool(),
            },
    {
        match unique {
            Some(unique) => {
                let live = LiveLocalId(self.local_ids.allocate());
                Some((unique, live))
            },
            None => None,
        }
    }

    /// Whether `uid` has already acquired a live thread id from this manager.
    pub fn has_seen_thread(&self, uid: UniqueThreadId) -> (seen: bool)
        ensures
            seen == self.seen_threads().contains(uid.0),
    {
        broadcast use vstd::std_specs::btree::group_btree_axioms;

        match &self.seen_threads {
            Some(s) => s.contains(&uid.0),
            None => false,
        }
    }

    /// Acquires a live id for the thread `uid`, recording that it has been seen.
    ///
    /// A thread acquires a live id at most once in its life;
    /// a second request for the same thread is a double initialization.
    pub fn acquire_thread_id(&mut self, uid: UniqueThreadId) -> (r: (UniqueThreadId, LiveThreadId))
        requires
            old(self).wf(),
            !old(self).seen_threads().contains(uid.0),
            old(self).thread_pool().can_alloc(),
        ensures
            final(self).wf(),
            r.0 == uid,
            final(self).seen_threads() == old(self).seen_threads().insert(uid.0),
            old(self).thread_pool().alloc_step(r.1.0, final(self).thread_pool()),
            final(self).local_pool() == old(self).local_pool(),
    {
        broadcast use vstd::std_specs::btree::group_btree_axioms;

        let mut seen = match self.seen_threads.take() {
            Some(s) => s,
            None => BTreeSet::new(),
        };
        seen.insert(uid.0);
        self.seen_threads = Some(seen);
        (uid, LiveThreadId(self.thread_ids.allocate()))
    }

    /// Gives back the live id of a thread that has died, so that another thread can reuse it.
    ///
    /// The thread must never acquire a live id again.
    pub fn release_live_thread_id(&mut self, tid: LiveThreadId)
        requires
            old(self).wf(),
        ensures
            final(self).wf(),
            final(self).thread_pool() == old(self).thread_pool().after_free(tid.0),
            final(self).local_pool() == old(self).local_pool(),
            final(self).seen_threads() == old(self).seen_threads(),
    {
        self.thread_ids.free(tid.0);
    }

    /// Gives back the live id of a thread local whose data has all been cleared.
    pub fn release_live_local_id(&mut self, lid: LiveLocalId)
        requires
            old(self).wf(),
        ensures
            final(self).wf(),
            final(self).local_pool() == old(self).local_pool().after_free(lid.0),
            final(self).thread_pool() == old(self).thread_pool(),
            final(self).seen_threads() == old(self).seen_threads(),
    {
        self.local_ids.free(lid.0);
    }
}

} // verus!

//! Dynamically allocated thread locals whose values are dropped when their thread dies.
//!
//! Each thread keeps its values in a [`ThreadValues`](thread_values::ThreadValues) store,
//! keyed by the [`UniqueLocalId`](ids::UniqueLocalId) of their thread local, so one thread
//! never sees the value another thread holds.
//! The live threads are listed in a [`LiveThreads`](live_threads::LiveThreads) registry,
//! whose snapshots let a thread local reach the values of every live thread,
//! to iterate over them or to drop them all when the local itself is dropped.
//! Live ids, small indices that are reused, come from a
//! [`ReusingIdManager`](reusing_ids::ReusingIdManager).
use core::marker::PhantomData;
use std::sync::Arc;
use vstd::prelude::*;

pub mod fold_map;
pub mod global;
pub mod ids;
pub mod live_threads;
pub mod reusing_ids;
pub mod snapshot;
pub mod thread_state;
pub mod thread_values;

use crate::fold_map::{fold_map_into_entries, FoldMap};
use crate::ids::{UniqueIdAllocator, UniqueLocalId};
use crate::snapshot::SnapshotIter;

verus! {

/// A thread local whose value on each thread is dropped when that thread dies.
///
/// It is named by a unique id, under which each thread stores its own value.
pub struct DroppingThreadLocal<T: Send + Sync + 'static> {
    id: UniqueLocalId,
    marker: PhantomData<Arc<T>>,
}

impl<T: Send + Sync + 'static> DroppingThreadLocal<T> {
    /// The unique id under which each thread stores its value of this local.
    pub closed spec fn local_id(&self) -> UniqueLocalId {
        self.id
    }

    /// Creates a new thread local, with a fresh unique id taken from `allocator`.
    ///
    /// Returns `None` once the allocator is exhausted.
    pub fn new(allocator: &UniqueIdAllocator) -> (r: Option<Self>)
        ensures
            r matches Some(local) ==> 1 <= local.local_id()@ < u64::MAX,
    {
        match UniqueLocalId::allocate(allocator) {
            Some(id) => Some(DroppingThreadLocal { id, marker: PhantomData }),
            None => None,
        }
    }

    /// The unique id under which each thread stores its value of this local.
    pub fn id(&self) -> (r: UniqueLocalId)
        ensures
            r == self.local_id(),
    {
        self.id
    }

    /// The value of this local on the current thread, initializing it if not yet defined.
    ///
    /// `lookup` reads the value the thread holds for this local, if any. Only when it finds
    /// none does `init` make a value, with no lock held, and `store` then stores it for this
    /// local: `Ok` with the value the thread now holds, or `Err` when the thread turns out to
    /// hold a value already, a double initialization.
    pub fn get_or_init_with<V, L, I, S>(&self, lookup: L, init: I, store: S) -> (r: Result<V, V>)
        where
            L: FnOnce(UniqueLocalId) -> Option<V>,
            I: FnOnce() -> V,
            S: FnOnce(UniqueLocalId, V) -> Result<V, V>,
        requires
            lookup.requires((self.local_id(),)),
            init.requires(()),
            forall|v: V| store.requires((self.local_id(), v)),
        ensures
            exists|found: Option<V>|
                lookup.ensures((self.local_id(),), found) && match found {
                    Some(v) => r == Ok::<V, V>(v),
                    None => exists|made: V| init.ensures((), made) && store.ensures((self.local_id(), made), r),
                },
    {
        let found = lookup(self.id);
        match found {
            Some(v) => Ok(v),
            None => {
                let made = init();
                store(self.id, made)
            },
        }
    }

    /// Iterates over the values of this local on the threads of `snapshot`,
    /// a copy of the live threads taken just before; `None` when no thread has started.
    ///
    /// Threads started after the snapshot was taken are not visited.
    pub fn snapshot_iter<W>(&self, snapshot: Option<FoldMap<W>>) -> (r: SnapshotIter<W>)
        ensures
            r.wf(),
            r.local_id() == self.local_id(),
            match snapshot {
                Some(m) => fold_map::lists_entries(r.remaining(), m@),
                None => r.remaining() == Seq::<(u64, W)>::empty(),
            },
    {
        SnapshotIter::new(self.id, snapshot)
    }

    /// Hands the id and the state of every thread in `snapshot`, a copy of the live threads,
    /// to `remove`, which takes this local's value out of that thread;
    /// `snapshot` is `None` when no thread has started.
    ///
    /// `remove` is called only with the entries of the snapshot and this local's id,
    /// so the values of every other local stay as they are.
    ///
    /// This is what dropping the local does, so that no thread keeps a value of a local
    /// that no longer exists.
    pub fn remove_from_threads<W, F: Fn(u64, &W, UniqueLocalId)>(&self, snapshot: Option<FoldMap<W>>, remove: F)
        requires
            snapshot matches Some(m) ==> forall|thread: u64| #[trigger] m@.contains_key(thread)
                ==> remove.requires((thread, &m@[thread], self.local_id())),
        ensures
            snapshot matches Some(m) ==> forall|thread: u64| #[trigger] m@.contains_key(thread)
                ==> remove.ensures((thread, &m@[thread], self.local_id()), ()),
    {
        match snapshot {
            Some(m) => {
                let ghost map = m@;
                let entries = fold_map_into_entries(m);
                let mut i: usize = 0;
                while i < entries.len()
                    invariant
                        i <= entries@.len(),
                        fold_map::lists_entries(entries@, map),
                        forall|thread: u64| #[trigger] map.contains_key(thread)
                            ==> remove.requires((thread, &map[thread], self.id)),
                        forall|j: int| 0 <= j < i ==> remove.ensures((entries@[j].0, &entries@[j].1, self.id), ()),
                    decreases entries@.len() - i,
                {
                    proof {
                        assert(map.contains_key(entries@[i as int].0));
                        assert(map[entries@[i as int].0] == entries@[i as int].1);
                    }
                    remove(entries[i].0, &entries[i].1, self.id);
                    i = i + 1;
                }
                proof {
                    assert forall|thread: u64| #[trigger] map.contains_key(thread) implies remove.ensures(
                        (thread, &map[thread], self.id),
                        (),
                    ) by {
                        let j = choose|j: int| 0 <= j < entries@.len() && #[trigger] entries@[j].0 == thread;
                        assert(entries@[j].1 == map[thread]);
                    }
                }
            },
            None => {},
        }
    }
}

} // verus!

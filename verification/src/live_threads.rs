//! The registry of the threads that are currently alive.
use crate::fold_map::{fold_map_contains_key, fold_map_insert, fold_map_remove, FoldMap};
use crate::ids::UniqueThreadId;
use vstd::prelude::*;

verus! {

/// A thread that registers and later unregisters gets its handle back,
/// and leaves the registry as it was before it registered.
pub proof fn lemma_register_then_unregister<W>(
    before: LiveThreads<W>,
    registered: LiveThreads<W>,
    after: LiveThreads<W>,
    thread: UniqueThreadId,
    handle: W,
)
    requires
        !before@.contains_key(thread.0),
        registered@ == before@.insert(thread.0, handle),
        after@ == registered@.remove(thread.0),
    ensures
        registered@.get(thread.0) == Some(handle),
        after@ == before@,
{
    assert(after@ =~= before@);
}

/// A thread that has unregistered is absent from every snapshot taken afterwards,
/// while every other thread stays in it as it was.
pub proof fn lemma_unregistered_thread_leaves_snapshots<W>(
    before: LiveThreads<W>,
    after: LiveThreads<W>,
    snapshot: FoldMap<W>,
    thread: UniqueThreadId,
    other: UniqueThreadId,
)
    requires
        after@ == before@.remove(thread.0),
        snapshot@ == after@,
        thread.0 != other.0,
    ensures
        !snapshot@.contains_key(thread.0),
        snapshot@.get(other.0) == before@.get(other.0),
{
}

/// The threads that are currently alive, each with a handle to its state.
///
/// The map is created when the first thread registers.
/// Snapshots of it let other threads visit every live thread without holding the registry.
pub struct LiveThreads<W> {
    threads: Option<FoldMap<W>>,
}

impl<W> View for LiveThreads<W> {
    type V = Map<u64, W>;

    /// The handle of each live thread, keyed by the thread's unique id.
    closed spec fn view(&self) -> Map<u64, W> {
        match self.threads {
            Some(m) => m@,
            None => Map::empty(),
        }
    }
}

impl<W> LiveThreads<W> {
    /// Whether any thread has registered yet.
    pub closed spec fn started(&self) -> bool {
        self.threads is Some
    }

    /// A registry that no thread has joined yet.
    pub fn new() -> (r: Self)
        ensures
            !r.started(),
            r@ == Map::<u64, W>::empty(),
    {
        LiveThreads { threads: None }
    }

    /// Whether `thread` is registered as alive.
    pub fn is_live(&self, thread: UniqueThreadId) -> (r: bool)
        ensures
            r == self@.contains_key(thread.0),
    {
        match &self.threads {
            Some(m) => fold_map_contains_key(m, thread.0),
            None => false,
        }
    }

    /// Registers a thread that has just started, with the handle to its state.
    ///
    /// A thread registers once: registering a live thread again is a reinitialization.
    pub fn register(&mut self, thread: UniqueThreadId, handle: W)
        requires
            !old(self)@.contains_key(thread.0),
        ensures
            final(self).started(),
            final(self)@ == old(self)@.insert(thread.0, handle),
    {
        let mut m = match self.threads.take() {
            Some(m) => m,
            None => FoldMap::default(),
        };
        let _ = fold_map_insert(&mut m, thread.0, handle);
        self.threads = Some(m);
    }

    /// Removes a dying thread from the registry and hands back its handle, if it was registered.
    pub fn unregister(&mut self, thread: UniqueThreadId) -> (r: Option<W>)
        ensures
            final(self).started() == old(self).started(),
            final(self)@ == old(self)@.remove(thread.0),
            r == old(self)@.get(thread.0),
    {
        match &mut self.threads {
            Some(m) => fold_map_remove(m, thread.0),
            None => None,
        }
    }

    /// A copy of the registry as it is now, or `None` if no thread has registered yet.
    pub fn snapshot(&self) -> (r: Option<FoldMap<W>>)
        where
            W: Clone,
        ensures
            r is Some == self.started(),
            r matches Some(m) ==> m@ == self@,
    {
        match &self.threads {
            Some(m) => Some(m.clone()),
            None => None,
        }
    }
}

} // verus!

//! The values that one thread holds, one per thread local.
use crate::fold_map::{fold_map_contains_key, fold_map_get, fold_map_insert, fold_map_remove, FoldMap};
use crate::ids::UniqueLocalId;
use vstd::prelude::*;

verus! {

/// After `init` stores `value` for the local `id`, the thread reads `value` for it.
pub proof fn lemma_init_then_get<V>(before: ThreadValues<V>, after: ThreadValues<V>, id: UniqueLocalId, value: V)
    requires
        after@ == before@.insert(id@, value),
    ensures
        after@.contains_key(id@),
        after@[id@] == value,
{
}

/// Storing or taking out the value of one local leaves the value of every other local unchanged:
/// dropping a thread local takes out only its own values.
pub proof fn lemma_locals_are_independent<V>(
    before: ThreadValues<V>,
    after: ThreadValues<V>,
    a: UniqueLocalId,
    b: UniqueLocalId,
    value: V,
)
    requires
        a@ != b@,
        after@ == before@.insert(a@, value) || after@ == before@.remove(a@),
    ensures
        after@.get(b@) == before@.get(b@),
{
}

/// Taking out a value that `init` has just stored hands that value back and leaves the thread
/// as it was before; afterwards the thread holds no value for the local.
pub proof fn lemma_init_then_remove<V>(
    before: ThreadValues<V>,
    stored: ThreadValues<V>,
    after: ThreadValues<V>,
    id: UniqueLocalId,
    value: V,
)
    requires
        !before@.contains_key(id@),
        stored@ == before@.insert(id@, value),
        after@ == stored@.remove(id@),
    ensures
        stored@.get(id@) == Some(value),
        after@ == before@,
        !after@.contains_key(id@),
{
    assert(after@ =~= before@);
}

/// An operation on the values of one thread.
pub enum ValuesOp<V> {
    /// `init` of a local with a value.
    Init(u64, V),
    /// `remove` of a local.
    Remove(u64),
    /// `clear`, as at the thread's death.
    Clear,
}

/// The values after `op`, as the operations' own contracts state.
pub open spec fn apply_op<V>(values: Map<u64, V>, op: ValuesOp<V>) -> Map<u64, V> {
    match op {
        ValuesOp::Init(id, value) => values.insert(id, value),
        ValuesOp::Remove(id) => values.remove(id),
        ValuesOp::Clear => Map::empty(),
    }
}

/// The values of a thread that started with none and then did `ops`, in order.
pub open spec fn apply_ops<V>(ops: Seq<ValuesOp<V>>) -> Map<u64, V>
    decreases ops.len(),
{
    if ops.len() == 0 {
        Map::empty()
    } else {
        apply_op(apply_ops(ops.drop_last()), ops.last())
    }
}

/// Every value a thread holds was stored by an `init` of that thread, for that very local:
/// since each thread owns its own store, one thread never sees a value another thread stored.
pub proof fn lemma_value_comes_from_own_init<V>(ops: Seq<ValuesOp<V>>, id: u64) -> (k: int)
    requires
        apply_ops(ops).contains_key(id),
    ensures
        0 <= k < ops.len(),
        ops[k] == ValuesOp::Init(id, apply_ops(ops)[id]),
    decreases ops.len(),
{
    let rest = ops.drop_last();
    let last = ops.last();
    match last {
        ValuesOp::Init(i, v) => {
            if i == id {
                ops.len() - 1
            } else {
                let k = lemma_value_comes_from_own_init(rest, id);
                assert(ops[k] == rest[k]);
                k
            }
        },
        ValuesOp::Remove(i) => {
            let k = lemma_value_comes_from_own_init(rest, id);
            assert(ops[k] == rest[k]);
            k
        },
        ValuesOp::Clear => {
            assert(!apply_ops(ops).contains_key(id));
            0
        },
    }
}

/// The values of one thread, keyed by the unique id of their thread local.
///
/// Each thread owns one of these, so a thread never sees the value that another
/// thread holds for the same local.
pub struct ThreadValues<V> {
    values: FoldMap<V>,
}

impl<V> View for ThreadValues<V> {
    type V = Map<u64, V>;

    /// The value of each local that this thread has initialized, keyed by the local's unique id.
    closed spec fn view(&self) -> Map<u64, V> {
        self.values@
    }
}

impl<V> ThreadValues<V> {
    /// A thread that holds no value yet.
    pub fn new() -> (r: Self)
        ensures
            r@ == Map::<u64, V>::empty(),
    {
        ThreadValues { values: FoldMap::default() }
    }

    /// The value this thread holds for the local `id`, or `None` if it has none.
    pub fn get(&self, id: UniqueLocalId) -> (r: Option<&V>)
        ensures
            r == (if self@.contains_key(id@) { Some(&self@[id@]) } else { None }),
    {
        fold_map_get(&self.values, id.get())
    }

    /// Whether this thread holds a value for the local `id`.
    pub fn contains(&self, id: UniqueLocalId) -> (r: bool)
        ensures
            r == self@.contains_key(id@),
    {
        fold_map_contains_key(&self.values, id.get())
    }

    /// Stores the first value of the local `id` on this thread.
    ///
    /// A local is initialized at most once per thread: the thread must not hold a value for it yet.
    pub fn init(&mut self, id: UniqueLocalId, value: V)
        requires
            !old(self)@.contains_key(id@),
        ensures
            final(self)@ == old(self)@.insert(id@, value),
    {
        let _ = fold_map_insert(&mut self.values, id.get(), value);
    }

    /// Stores the first value of the local `id` on this thread, or hands `value` back
    /// if the thread already holds a value for it: a local is initialized at most once.
    pub fn try_init(&mut self, id: UniqueLocalId, value: V) -> (r: Result<(), V>)
        ensures
            old(self)@.contains_key(id@) ==> r == Err::<(), V>(value) && final(self)@ == old(self)@,
            !old(self)@.contains_key(id@) ==> r is Ok && final(self)@ == old(self)@.insert(id@, value),
    {
        if self.contains(id) {
            Err(value)
        } else {
            self.init(id, value);
            Ok(())
        }
    }

    /// Takes the value of the local `id` out of this thread, if it holds one.
    pub fn remove(&mut self, id: UniqueLocalId) -> (r: Option<V>)
        ensures
            final(self)@ == old(self)@.remove(id@),
            r == old(self)@.get(id@),
    {
        fold_map_remove(&mut self.values, id.get())
    }

    /// Drops every value of this thread, as happens when the thread dies.
    pub fn clear(&mut self)
        ensures
            final(self)@ == Map::<u64, V>::empty(),
    {
        self.values.clear();
    }
}

} // verus!

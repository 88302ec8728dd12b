//! An allocator of small integer ids that hands freed ids out again, smallest first.
use vstd::multiset::Multiset;
use vstd::prelude::*;

verus! {

/// The abstract state of a [`ReusingIdManager`].
///
/// `next_fresh` is the smallest id that has never been handed out,
/// and `freed` holds the ids that were given back and not yet handed out again.
pub struct IdPool {
    pub next_fresh: nat,
    pub freed: Multiset<usize>,
}

impl IdPool {
    /// `id` is a freed id, and no freed id is smaller.
    pub open spec fn is_least_freed(self, id: usize) -> bool {
        &&& self.freed.count(id) > 0
        &&& forall|x: usize| self.freed.count(x) > 0 ==> id <= x
    }

    /// One allocation takes the pool `self` to `post` and hands out `id`:
    /// the smallest freed id if there is one, else the next fresh id.
    pub open spec fn alloc_step(self, id: usize, post: IdPool) -> bool {
        if self.freed.len() > 0 {
            &&& self.is_least_freed(id)
            &&& post == IdPool { next_fresh: self.next_fresh, freed: self.freed.remove(id) }
        } else {
            &&& id == self.next_fresh
            &&& post == IdPool { next_fresh: self.next_fresh + 1, freed: self.freed }
        }
    }

    /// The pool after `id` is given back.
    pub open spec fn after_free(self, id: usize) -> IdPool {
        IdPool { next_fresh: self.next_fresh, freed: self.freed.insert(id) }
    }

    /// Whether an allocation from this pool can proceed without overflowing the id type.
    pub open spec fn can_alloc(self) -> bool {
        self.freed.len() > 0 || self.next_fresh < usize::MAX
    }

    /// Every freed id was handed out before, none is freed twice,
    /// and every id handed out fits the id type.
    pub open spec fn consistent(self) -> bool {
        &&& self.next_fresh <= usize::MAX
        &&& forall|x: usize| self.freed.count(x) > 0 ==> x < self.next_fresh
        &&& forall|x: usize| self.freed.count(x) <= 1
    }

    /// The ids that are currently handed out: seen before and not freed since.
    pub open spec fn in_use(self) -> Set<usize> {
        Set::new(|x: usize| x < self.next_fresh && self.freed.count(x) == 0)
    }
}

/// An id that is given back and is no larger than any other freed id
/// is the very next id handed out, and handing it out restores the pool.
pub proof fn lemma_free_then_allocate(p: IdPool, x: usize, id: usize, q: IdPool)
    requires
        forall|y: usize| p.freed.count(y) > 0 ==> x <= y,
        p.after_free(x).alloc_step(id, q),
    ensures
        id == x,
        q == p,
{
    let f = p.after_free(x);
    assert(f.freed.count(x) > 0);
    assert(f.freed.len() > 0);
    assert(id <= x);
    assert(f.freed.count(id) > 0);
    if id != x {
        assert(p.freed.count(id) > 0);
    }
    assert(q.freed =~= p.freed);
}

/// From a consistent pool, an allocation hands out an id that is not in use,
/// adds exactly that id to the ids in use, and keeps the pool consistent.
pub proof fn lemma_allocate_hands_out_unused_id(p: IdPool, id: usize, q: IdPool)
    requires
        p.consistent(),
        p.can_alloc(),
        p.alloc_step(id, q),
    ensures
        id < usize::MAX,
        !p.in_use().contains(id),
        q.in_use() == p.in_use().insert(id),
        q.consistent(),
{
    if p.freed.len() > 0 {
        assert(p.freed.count(id) == 1);
        assert(q.freed.count(id) == 0);
        assert forall|x: usize| q.freed.count(x) > 0 implies x < q.next_fresh by {
            assert(p.freed.count(x) > 0);
        }
    } else {
        assert forall|x: usize| p.freed.count(x) == 0 by {
            if p.freed.count(x) > 0 {
                assert(p.freed.len() > 0) by {
                    vstd::multiset::lemma_multiset_empty_len(p.freed);
                }
            }
        }
    }
    assert(q.in_use() =~= p.in_use().insert(id));
}

/// Giving back an id that is in use keeps a consistent pool consistent
/// and removes exactly that id from the ids in use.
pub proof fn lemma_free_releases_id(p: IdPool, id: usize)
    requires
        p.consistent(),
        p.in_use().contains(id),
    ensures
        p.after_free(id).consistent(),
        p.after_free(id).in_use() == p.in_use().remove(id),
{
    let f = p.after_free(id);
    assert forall|x: usize| f.freed.count(x) <= 1 by {
        if x != id {
            assert(f.freed.count(x) == p.freed.count(x));
        }
    }
    assert(f.in_use() =~= p.in_use().remove(id));
}

/// Allocates integer ids, reusing freed ids aggressively, smallest first.
///
/// When ids are used to index items in a vector, this keeps the vector short.
pub struct ReusingIdManager {
    free_from: usize,
    /// The freed ids, in non-increasing order, so that the smallest is last.
    free_list: Option<Vec<usize>>,
}

/// `s` is in non-increasing order.
pub open spec fn non_increasing(s: Seq<usize>) -> bool {
    forall|i: int, j: int| 0 <= i <= j < s.len() ==> s[j] <= s[i]
}

impl ReusingIdManager {
    /// The internal invariant: the free list is kept in non-increasing order.
    pub closed spec fn wf(&self) -> bool {
        match self.free_list {
            Some(v) => non_increasing(v@),
            None => true,
        }
    }

    /// The abstract state of the manager.
    pub closed spec fn pool(&self) -> IdPool {
        IdPool {
            next_fresh: self.free_from as nat,
            freed: match self.free_list {
                Some(v) => v@.to_multiset(),
                None => Multiset::empty(),
            },
        }
    }

    /// A manager that has handed out nothing yet.
    pub fn new() -> (r: Self)
        ensures
            r.wf(),
            r.pool() == (IdPool { next_fresh: 0, freed: Multiset::empty() }),
    {
        ReusingIdManager { free_from: 0, free_list: None }
    }

    /// Hands out an id: the smallest freed id if there is one, else the next fresh id.
    pub fn allocate(&mut self) -> (id: usize)
        requires
            old(self).wf(),
            old(self).pool().can_alloc(),
        ensures
            final(self).wf(),
            old(self).pool().alloc_step(id, final(self).pool()),
    {
        broadcast use vstd::seq_lib::group_to_multiset_ensures;

        let ghost pre = self.pool();
        let taken = self.free_list.take();
        let popped = match taken {
            Some(mut v) => {
                let ghost s = v@;
                let r = v.pop();
                proof {
                    if s.len() > 0 {
                        assert(s =~= v@.push(s.last()));
                        assert forall|x: usize| s.to_multiset().count(x) > 0 implies s.last() <= x by {
                            assert(s.contains(x));
                            let k = choose|k: int| 0 <= k < s.len() && s[k] == x;
                            assert(s[k] == x);
                        }
                        assert(v@.to_multiset() =~= s.to_multiset().remove(s.last()));
                    }
                }
                self.free_list = Some(v);
                r
            },
            None => None,
        };
        match popped {
            Some(id) => id,
            None => {
                let id = self.free_from;
                self.free_from = self.free_from + 1;
                id
            },
        }
    }

    /// Gives `id` back, so that a later [`allocate`](Self::allocate) can hand it out again.
    pub fn free(&mut self, id: usize)
        requires
            old(self).wf(),
        ensures
            final(self).wf(),
            final(self).pool() == old(self).pool().after_free(id),
    {
        broadcast use vstd::seq_lib::group_to_multiset_ensures;

        let ghost old_freed = self.pool().freed;
        let mut v = match self.free_list.take() {
            Some(v) => v,
            None => Vec::new(),
        };
        let ghost s = v@;
        assert(s.to_multiset() =~= old_freed) by {
            if s.len() == 0 {
                assert forall|a: usize| s.to_multiset().count(a) == 0 by {
                    assert(!s.contains(a));
                }
            }
        }
        let mut i: usize = 0;
        while i < v.len() && v[i] >= id
            invariant
                v@ == s,
                non_increasing(s),
                i <= s.len(),
                forall|j: int| 0 <= j < i ==> s[j] >= id,
            decreases s.len() - i,
        {
            i = i + 1;
        }
        v.insert(i, id);
        proof {
            let t = s.insert(i as int, id);
            assert(v@ == t);
            assert forall|a: int, b: int| 0 <= a <= b < t.len() implies t[b] <= t[a] by {
                if i < s.len() {
                    assert(s[i as int] < id);
                }
            }
            assert(t.remove(i as int) =~= s);
            assert(t.to_multiset().remove(id) =~= s.to_multiset());
            assert(t.to_multiset().count(id) > 0) by {
                assert(t[i as int] == id);
                assert(t.contains(id));
            }
            assert(t.to_multiset() =~= s.to_multiset().insert(id));
        }
        self.free_list = Some(v);
    }
}

} // verus!

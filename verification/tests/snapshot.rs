use std::cell::RefCell;

use dropping_thread_local::ids::{UniqueIdAllocator, UniqueLocalId, UniqueThreadId};
use dropping_thread_local::live_threads::LiveThreads;
use dropping_thread_local::thread_values::ThreadValues;
use dropping_thread_local::DroppingThreadLocal;

/// Stores indexed by a thread's handle; `None` marks a thread that has died.
fn lookup<'a>(
    stores: &'a [Option<ThreadValues<i32>>],
) -> impl Fn(&usize, UniqueLocalId) -> Option<i32> + 'a {
    move |handle: &usize, id: UniqueLocalId| stores[*handle].as_ref()?.get(id).copied()
}

#[test]
fn no_snapshot_yields_nothing() {
    let allocator = UniqueIdAllocator::new();
    let local = DroppingThreadLocal::<i32>::new(&allocator).unwrap();
    let mut iter = local.snapshot_iter::<usize>(None);
    assert_eq!(iter.size_hint(), (0, Some(0)));
    let stores: Vec<Option<ThreadValues<i32>>> = Vec::new();
    assert_eq!(iter.next_value(lookup(&stores)), None);
}

#[test]
fn snapshot_yields_values_of_live_threads_only() {
    let allocator = UniqueIdAllocator::new();
    let local = DroppingThreadLocal::<i32>::new(&allocator).unwrap();
    let mut live = LiveThreads::new();
    let mut stores = Vec::new();
    for i in 0..4usize {
        live.register(UniqueThreadId(i as u64 + 100), i);
        let mut store = ThreadValues::new();
        if i != 2 {
            store.init(local.id(), i as i32 + 1);
        }
        stores.push(Some(store));
    }
    let mut iter = local.snapshot_iter(live.snapshot());
    assert_eq!(iter.size_hint(), (0, Some(4)));
    // a thread that dies after the snapshot is skipped
    stores[3] = None;
    let mut seen = Vec::new();
    while let Some((thread, value)) = iter.next_value(lookup(&stores)) {
        seen.push((thread, value));
    }
    seen.sort_unstable();
    assert_eq!(seen, vec![(100, 1), (101, 2)]);
    assert_eq!(iter.size_hint(), (0, Some(0)));
    // once exhausted it stays exhausted
    assert_eq!(iter.next_value(lookup(&stores)), None);
}

#[test]
fn snapshot_leaves_out_threads_started_later() {
    let allocator = UniqueIdAllocator::new();
    let local = DroppingThreadLocal::<i32>::new(&allocator).unwrap();
    let mut live = LiveThreads::new();
    let mut first = ThreadValues::new();
    first.init(local.id(), 1);
    live.register(UniqueThreadId(1), 0usize);
    let mut iter = local.snapshot_iter(live.snapshot());
    let mut second = ThreadValues::new();
    second.init(local.id(), 2);
    live.register(UniqueThreadId(2), 1usize);
    let stores = vec![Some(first), Some(second)];
    assert_eq!(iter.next_value(lookup(&stores)), Some((1, 1)));
    assert_eq!(iter.next_value(lookup(&stores)), None);
}

#[test]
fn dropping_local_visits_every_live_thread() {
    let allocator = UniqueIdAllocator::new();
    let local = DroppingThreadLocal::<i32>::new(&allocator).unwrap();
    let stores: Vec<RefCell<ThreadValues<i32>>> =
        (0..3).map(|_| RefCell::new(ThreadValues::new())).collect();
    let mut live = LiveThreads::new();
    for (i, store) in stores.iter().enumerate() {
        store.borrow_mut().init(local.id(), i as i32);
        live.register(UniqueThreadId(i as u64 + 7), i);
    }
    let removed = RefCell::new(Vec::new());
    local.remove_from_threads(live.snapshot(), |thread, handle: &usize, id| {
        assert_eq!(thread, *handle as u64 + 7);
        if let Some(v) = stores[*handle].borrow_mut().remove(id) {
            removed.borrow_mut().push(v);
        }
    });
    let mut removed = removed.into_inner();
    removed.sort_unstable();
    assert_eq!(removed, vec![0, 1, 2]);
    for store in &stores {
        assert!(!store.borrow().contains(local.id()));
    }
}

#[test]
fn dropping_local_without_threads_does_nothing() {
    let allocator = UniqueIdAllocator::new();
    let local = DroppingThreadLocal::<i32>::new(&allocator).unwrap();
    let calls = RefCell::new(0);
    local.remove_from_threads::<u8, _>(None, |_, _, _| *calls.borrow_mut() += 1);
    assert_eq!(calls.into_inner(), 0);
}

use std::cell::{Cell, RefCell};
use dropping_thread_local::ids::{UniqueIdAllocator, UniqueThreadId};
use dropping_thread_local::live_threads::LiveThreads;
use dropping_thread_local::thread_values::ThreadValues;
use dropping_thread_local::DroppingThreadLocal;

#[test]
fn value_is_absent_until_initialized() {
    let allocator = UniqueIdAllocator::new();
    let local = DroppingThreadLocal::<usize>::new(&allocator).unwrap();
    let mut values: ThreadValues<usize> = ThreadValues::new();
    assert_eq!(values.get(local.id()), None);
    assert!(!values.contains(local.id()));
    values.init(local.id(), 0);
    assert_eq!(values.get(local.id()), Some(&0));
    assert!(values.contains(local.id()));
    assert_eq!(values.get(local.id()), Some(&0));
}

#[test]
fn threads_hold_separate_values() {
    let allocator = UniqueIdAllocator::new();
    let local = DroppingThreadLocal::<usize>::new(&allocator).unwrap();
    let mut main_thread: ThreadValues<usize> = ThreadValues::new();
    let mut other_thread: ThreadValues<usize> = ThreadValues::new();
    main_thread.init(local.id(), 0);
    assert_eq!(other_thread.get(local.id()), None);
    other_thread.init(local.id(), 1);
    assert_eq!(other_thread.get(local.id()), Some(&1));
    assert_eq!(main_thread.get(local.id()), Some(&0));
}

#[test]
fn locals_hold_separate_values() {
    let allocator = UniqueIdAllocator::new();
    let a = DroppingThreadLocal::<&str>::new(&allocator).unwrap();
    let b = DroppingThreadLocal::<&str>::new(&allocator).unwrap();
    let mut values = ThreadValues::new();
    values.init(a.id(), "a");
    values.init(b.id(), "b");
    assert_eq!(values.remove(a.id()), Some("a"));
    assert_eq!(values.get(a.id()), None);
    assert_eq!(values.get(b.id()), Some(&"b"));
    assert_eq!(values.remove(a.id()), None);
}

#[test]
fn clearing_drops_every_value() {
    let allocator = UniqueIdAllocator::new();
    let a = DroppingThreadLocal::<u8>::new(&allocator).unwrap();
    let b = DroppingThreadLocal::<u8>::new(&allocator).unwrap();
    let mut values = ThreadValues::new();
    values.init(a.id(), 1u8);
    values.init(b.id(), 2u8);
    values.clear();
    assert!(!values.contains(a.id()));
    assert!(!values.contains(b.id()));
}

#[test]
fn registry_starts_empty() {
    let live: LiveThreads<&str> = LiveThreads::new();
    assert!(!live.is_live(UniqueThreadId(1)));
    assert!(live.snapshot().is_none());
}

#[test]
fn registered_threads_appear_in_snapshots() {
    let mut live = LiveThreads::new();
    live.register(UniqueThreadId(1), "one");
    live.register(UniqueThreadId(2), "two");
    assert!(live.is_live(UniqueThreadId(1)));
    let snapshot = live.snapshot().unwrap();
    assert_eq!(snapshot.len(), 2);
    assert_eq!(snapshot.get(&1), Some(&"one"));
    assert_eq!(snapshot.get(&2), Some(&"two"));
}

#[test]
fn dead_threads_leave_later_snapshots() {
    let mut live = LiveThreads::new();
    live.register(UniqueThreadId(1), "one");
    live.register(UniqueThreadId(2), "two");
    let before = live.snapshot().unwrap();
    assert_eq!(live.unregister(UniqueThreadId(2)), Some("two"));
    assert_eq!(live.unregister(UniqueThreadId(2)), None);
    assert!(!live.is_live(UniqueThreadId(2)));
    let after = live.snapshot().unwrap();
    assert_eq!(after.len(), 1);
    assert_eq!(after.get(&2), None);
    // a snapshot taken earlier is a copy and keeps the thread
    assert_eq!(before.get(&2), Some(&"two"));
}

#[test]
fn unregistering_from_an_empty_registry_finds_nothing() {
    let mut live: LiveThreads<u8> = LiveThreads::new();
    assert_eq!(live.unregister(UniqueThreadId(3)), None);
    assert!(live.snapshot().is_none());
}

#[test]
fn dropping_a_local_clears_it_on_every_thread() {
    // each live thread's store, reached through a snapshot of the registry
    let allocator = UniqueIdAllocator::new();
    let local = DroppingThreadLocal::<usize>::new(&allocator).unwrap();
    let other = DroppingThreadLocal::<usize>::new(&allocator).unwrap();
    let mut stores = vec![ThreadValues::new(), ThreadValues::new(), ThreadValues::new()];
    let mut live = LiveThreads::new();
    for (i, store) in stores.iter_mut().enumerate() {
        live.register(UniqueThreadId(i as u64 + 1), i);
        store.init(local.id(), i * 10);
        store.init(other.id(), i);
    }
    let snapshot = live.snapshot().unwrap();
    let mut dropped = Vec::new();
    for (_, index) in snapshot {
        if let Some(v) = stores[index].remove(local.id()) {
            dropped.push(v);
        }
    }
    dropped.sort_unstable();
    assert_eq!(dropped, vec![0, 10, 20]);
    for (i, store) in stores.iter().enumerate() {
        assert_eq!(store.get(local.id()), None);
        assert_eq!(store.get(other.id()), Some(&i));
    }
}

#[test]
fn try_init_stores_once() {
    let allocator = UniqueIdAllocator::new();
    let local = DroppingThreadLocal::<u8>::new(&allocator).unwrap();
    let mut values = ThreadValues::new();
    assert_eq!(values.try_init(local.id(), 1u8), Ok(()));
    assert_eq!(values.try_init(local.id(), 2u8), Err(2));
    assert_eq!(values.get(local.id()), Some(&1));
}

#[test]
fn get_or_init_runs_the_initializer_only_when_absent() {
    let allocator = UniqueIdAllocator::new();
    let local = DroppingThreadLocal::<usize>::new(&allocator).unwrap();
    let store = RefCell::new(ThreadValues::new());
    let calls = Cell::new(0usize);
    let get_or_init = || {
        local.get_or_init_with(
            |id| store.borrow().get(id).copied(),
            || {
                calls.set(calls.get() + 1);
                calls.get() - 1
            },
            |id, v| store.borrow_mut().try_init(id, v).map(|_| v),
        )
    };
    assert_eq!(get_or_init(), Ok(0));
    assert_eq!(get_or_init(), Ok(0));
    assert_eq!(get_or_init(), Ok(0));
    assert_eq!(calls.get(), 1);
}

#[test]
fn get_or_init_reports_a_double_initialization() {
    let allocator = UniqueIdAllocator::new();
    let local = DroppingThreadLocal::<usize>::new(&allocator).unwrap();
    let r = local.get_or_init_with(|_| None, || 5, |_, v| Err(v));
    assert_eq!(r, Err(5));
}

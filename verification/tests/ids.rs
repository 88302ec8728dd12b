use dropping_thread_local::ids::{
    next_unique_id, IdManager, LiveLocalId, LiveThreadId, UniqueIdAllocator, UniqueLocalId,
    UniqueThreadId,
};
use dropping_thread_local::reusing_ids::ReusingIdManager;
use dropping_thread_local::DroppingThreadLocal;

#[test]
fn fresh_ids_count_up_from_zero() {
    let mut m = ReusingIdManager::new();
    assert_eq!(m.allocate(), 0);
    assert_eq!(m.allocate(), 1);
    assert_eq!(m.allocate(), 2);
}

#[test]
fn freed_id_is_reused_first() {
    let mut m = ReusingIdManager::new();
    let a = m.allocate();
    let b = m.allocate();
    let c = m.allocate();
    assert_eq!((a, b, c), (0, 1, 2));
    m.free(b);
    assert_eq!(m.allocate(), 1);
    assert_eq!(m.allocate(), 3);
}

#[test]
fn smallest_freed_id_comes_first() {
    let mut m = ReusingIdManager::new();
    for _ in 0..5 {
        m.allocate();
    }
    m.free(3);
    m.free(0);
    m.free(4);
    assert_eq!(m.allocate(), 0);
    assert_eq!(m.allocate(), 3);
    assert_eq!(m.allocate(), 4);
    assert_eq!(m.allocate(), 5);
}

#[test]
fn id_freed_twice_is_handed_out_twice() {
    let mut m = ReusingIdManager::new();
    m.allocate();
    m.allocate();
    m.free(1);
    m.free(1);
    assert_eq!(m.allocate(), 1);
    assert_eq!(m.allocate(), 1);
    assert_eq!(m.allocate(), 2);
}

#[test]
fn next_unique_id_is_the_successor() {
    assert_eq!(next_unique_id(0), Some(1));
    assert_eq!(next_unique_id(41), Some(42));
    assert_eq!(next_unique_id(u64::MAX - 1), Some(u64::MAX));
    assert_eq!(next_unique_id(u64::MAX), None);
}

#[test]
fn fetch_outcome_gives_previous_value() {
    assert_eq!(UniqueLocalId::from_fetch(Ok(7)).map(|u| u.get()), Some(7));
    assert_eq!(UniqueLocalId::from_fetch(Ok(1)).map(|u| u.get()), Some(1));
    assert!(UniqueLocalId::from_fetch(Ok(0)).is_none());
    assert!(UniqueLocalId::from_fetch(Err(u64::MAX)).is_none());
}

#[test]
fn unique_ids_start_at_one_and_increase() {
    let allocator = UniqueIdAllocator::new();
    let a = allocator.allocate().unwrap();
    let b = allocator.allocate().unwrap();
    let c = UniqueLocalId::allocate(&allocator).unwrap();
    assert_eq!(a.get(), 1);
    assert_eq!(b.get(), 2);
    assert_eq!(c.get(), 3);
    assert_ne!(a, b);
}

#[test]
fn thread_locals_get_distinct_ids() {
    let allocator = UniqueIdAllocator::new();
    let first = DroppingThreadLocal::<u32>::new(&allocator).unwrap();
    let second = DroppingThreadLocal::<String>::new(&allocator).unwrap();
    assert_eq!(first.id().get(), 1);
    assert_eq!(second.id().get(), 2);
}

#[test]
fn live_ids_report_their_index() {
    assert_eq!(LiveLocalId::from_index(9).index(), 9);
    assert_eq!(LiveThreadId(4).index(), 4);
}

#[test]
fn local_ids_pair_unique_and_live() {
    let allocator = UniqueIdAllocator::new();
    let mut ids = IdManager::new();
    let (u0, l0) = ids.acquire_local_id(&allocator).unwrap();
    let (u1, l1) = ids.acquire_local_id(&allocator).unwrap();
    assert_eq!((u0.get(), l0.index()), (1, 0));
    assert_eq!((u1.get(), l1.index()), (2, 1));
    ids.release_live_local_id(l0);
    let (u2, l2) = ids.acquire_local_id(&allocator).unwrap();
    // the live id is reused, the unique id is not
    assert_eq!((u2.get(), l2.index()), (3, 0));
}

#[test]
fn thread_ids_are_recorded_and_reused() {
    let mut ids = IdManager::new();
    let t1 = UniqueThreadId(10);
    let t2 = UniqueThreadId(20);
    assert!(!ids.has_seen_thread(t1));
    let (uid1, live1) = ids.acquire_thread_id(t1);
    assert_eq!(uid1, t1);
    assert_eq!(live1.index(), 0);
    assert!(ids.has_seen_thread(t1));
    assert!(!ids.has_seen_thread(t2));
    ids.release_live_thread_id(live1);
    let (_, live2) = ids.acquire_thread_id(t2);
    assert_eq!(live2.index(), 0);
    // a thread that has died stays seen
    assert!(ids.has_seen_thread(t1));
}

#[test]
fn unique_id_is_paired_with_a_live_id() {
    let allocator = UniqueIdAllocator::new();
    let unique = allocator.allocate();
    let mut ids = IdManager::new();
    let (u, l) = ids.acquire_local_id_with(unique).unwrap();
    assert_eq!(u, unique.unwrap());
    assert_eq!(l.index(), 0);
    assert!(ids.acquire_local_id_with(None).is_none());
    // nothing was taken from the local pool by the failed request
    let (_, l2) = ids.acquire_local_id_with(allocator.allocate()).unwrap();
    assert_eq!(l2.index(), 1);
}

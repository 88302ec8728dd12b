use std::cell::RefCell;
use std::sync::atomic::AtomicUsize;
use std::sync::atomic::Ordering::Relaxed;
use std::sync::Arc;

use dropping_thread_local::ids::{UniqueIdAllocator, UniqueThreadId};
use dropping_thread_local::live_threads::LiveThreads;
use dropping_thread_local::thread_values::ThreadValues;
use dropping_thread_local::DroppingThreadLocal;

#[test]
fn test_drop_local() {
    struct Dropped(Arc<AtomicUsize>);
    impl Drop for Dropped {
        fn drop(&mut self) {
            self.0.fetch_add(1, Relaxed);
        }
    }

    let allocator = UniqueIdAllocator::new();
    let local = DroppingThreadLocal::<Dropped>::new(&allocator).unwrap();
    let dropped = Arc::new(AtomicUsize::new(0));
    let store = RefCell::new(ThreadValues::new());
    store.borrow_mut().init(local.id(), Dropped(dropped.clone()));
    let mut live = LiveThreads::new();
    live.register(UniqueThreadId(1), ());
    assert_eq!(dropped.load(Relaxed), 0);
    local.remove_from_threads(live.snapshot(), |_, _, id| {
        let value = store.borrow_mut().remove(id);
        drop(value);
    });
    assert_eq!(dropped.load(Relaxed), 1);
    drop(store);
    assert_eq!(dropped.load(Relaxed), 1);
}

#[test]
fn is_sync() {
    fn foo<T: Sync>() {}
    foo::<DroppingThreadLocal<String>>();
}

use dropping_thread_local::global::{ActiveThreadSlot, GlobalState};
use dropping_thread_local::ids::{LiveThreadId, UniqueThreadId};

/// A handle that carries the thread's unique id and its state, or `None` once the state is gone.
type Handle<T> = (u64, Option<T>);

fn upgrade<T: Copy>(handle: &Handle<T>) -> Option<(UniqueThreadId, T)> {
    handle.1.map(|state| (UniqueThreadId(handle.0), state))
}

#[test]
fn uninit_slot_is_empty() {
    let slot: ActiveThreadSlot<u8> = ActiveThreadSlot::uninit();
    assert!(slot.id.is_none());
    assert!(slot.state.is_none());
}

#[test]
fn registering_grows_the_table() {
    let mut g: GlobalState<Handle<&str>> = GlobalState::new();
    assert_eq!(g.thread_slot_count(), 0);
    assert!(g.is_thread_slot_free(LiveThreadId(2)));
    g.register_thread(UniqueThreadId(7), LiveThreadId(2), (7, Some("seven")));
    assert_eq!(g.thread_slot_count(), 3);
    assert!(!g.is_thread_slot_free(LiveThreadId(2)));
    assert!(g.is_thread_slot_free(LiveThreadId(0)));
    assert!(g.get_thread_slot_unchecked(LiveThreadId(0)).id.is_none());
    assert_eq!(g.get_thread_slot_unchecked(LiveThreadId(2)).id, Some(UniqueThreadId(7)));
    g.register_thread(UniqueThreadId(8), LiveThreadId(0), (8, Some("eight")));
    assert_eq!(g.thread_slot_count(), 3);
    assert_eq!(g.active_threads_iter(upgrade), vec!["eight", "seven"]);
}

#[test]
fn states_that_are_gone_are_skipped() {
    let mut g: GlobalState<Handle<u32>> = GlobalState::new();
    g.register_thread(UniqueThreadId(1), LiveThreadId(0), (1, Some(10)));
    g.register_thread(UniqueThreadId(2), LiveThreadId(1), (2, None));
    g.register_thread(UniqueThreadId(3), LiveThreadId(2), (3, Some(30)));
    assert_eq!(g.active_threads_iter(upgrade), vec![10, 30]);
}

#[test]
fn unregistering_frees_the_slot_and_keeps_the_handle() {
    let mut g: GlobalState<Handle<u32>> = GlobalState::new();
    g.register_thread(UniqueThreadId(1), LiveThreadId(0), (1, Some(100)));
    g.register_thread(UniqueThreadId(2), LiveThreadId(1), (2, Some(200)));
    g.unregister_thead(UniqueThreadId(1), LiveThreadId(0));
    assert!(g.is_thread_slot_free(LiveThreadId(0)));
    assert_eq!(g.get_thread_slot_unchecked(LiveThreadId(0)).state, Some((1, Some(100))));
    assert_eq!(g.active_threads_iter(upgrade), vec![200]);
    g.register_thread(UniqueThreadId(3), LiveThreadId(0), (3, Some(300)));
    assert_eq!(g.active_threads_iter(upgrade), vec![300, 200]);
}

#[test]
fn live_ids_from_the_manager_fill_the_table() {
    let mut g: GlobalState<Handle<&str>> = GlobalState::new();
    let (a, la) = g.id_manager.acquire_thread_id(UniqueThreadId(11));
    g.register_thread(a, la, (11, Some("a")));
    let (b, lb) = g.id_manager.acquire_thread_id(UniqueThreadId(12));
    g.register_thread(b, lb, (12, Some("b")));
    assert_eq!((la.index(), lb.index()), (0, 1));
    g.unregister_thead(a, la);
    g.id_manager.release_live_thread_id(la);
    let (c, lc) = g.id_manager.acquire_thread_id(UniqueThreadId(13));
    assert_eq!(lc.index(), 0);
    assert!(g.is_thread_slot_free(lc));
    g.register_thread(c, lc, (13, Some("c")));
    assert_eq!(g.active_threads_iter(upgrade), vec!["c", "b"]);
}

#[test]
fn starting_threads_claims_slots_in_order() {
    let mut g: GlobalState<Handle<usize>> = GlobalState::new();
    let a = g.init_thread(UniqueThreadId(21), |live| (21, Some(live.index() * 10)));
    let b = g.init_thread(UniqueThreadId(22), |live| (22, Some(live.index() * 10 + 1)));
    assert_eq!((a.index(), b.index()), (0, 1));
    assert_eq!(g.active_threads_iter(upgrade), vec![0, 11]);
    assert!(g.id_manager.has_seen_thread(UniqueThreadId(21)));
}

#[test]
fn exited_thread_slot_goes_to_the_next_thread() {
    let mut g: GlobalState<Handle<&str>> = GlobalState::new();
    let a = g.init_thread(UniqueThreadId(1), |_| (1, Some("a")));
    let b = g.init_thread(UniqueThreadId(2), |_| (2, Some("b")));
    g.exit_thread(UniqueThreadId(1), a);
    assert!(g.is_thread_slot_free(a));
    assert_eq!(g.active_threads_iter(upgrade), vec!["b"]);
    let c = g.init_thread(UniqueThreadId(3), |_| (3, Some("c")));
    assert_eq!(c.index(), a.index());
    assert_eq!(g.thread_slot_count(), 2);
    assert_eq!(g.active_threads_iter(upgrade), vec!["c", "b"]);
    g.exit_thread(UniqueThreadId(2), b);
    g.exit_thread(UniqueThreadId(3), c);
    assert!(g.active_threads_iter(upgrade).is_empty());
}

use dropping_thread_local::ids::{
    IdManager, LiveLocalId, LiveThreadId, UniqueIdAllocator, UniqueThreadId,
};
use dropping_thread_local::thread_state::{ActiveLocalDef, ActiveThreadState, LocalValueSlot};

#[test]
fn uninit_value_slot_is_empty() {
    let slot: LocalValueSlot<u8, u8> = LocalValueSlot::uninit();
    assert!(slot.local_def.is_none());
    assert!(slot.value.is_none());
}

#[test]
fn new_thread_state_has_no_slot() {
    let state: ActiveThreadState<&str, u32> = ActiveThreadState::new(UniqueThreadId(5), LiveThreadId(2));
    assert_eq!(state.unique_id(), UniqueThreadId(5));
    assert_eq!(state.live_id().index(), 2);
    assert!(state.get_slot(LiveLocalId(0)).is_none());
}

#[test]
fn init_slot_grows_the_table_to_the_local() {
    let mut state: ActiveThreadState<&str, u32> = ActiveThreadState::new(UniqueThreadId(1), LiveThreadId(0));
    let slot = state.init_slot(LiveLocalId(3), "three");
    assert_eq!(slot.local_def, Some("three"));
    assert_eq!(slot.value, None);
    for i in 0..3 {
        let empty = state.get_slot(LiveLocalId(i)).unwrap();
        assert!(empty.local_def.is_none() && empty.value.is_none());
    }
    assert!(state.get_slot(LiveLocalId(4)).is_none());
    let slot = state.init_slot(LiveLocalId(4), "four");
    assert_eq!(slot.local_def, Some("four"));
    assert_eq!(state.get_slot(LiveLocalId(3)).unwrap().local_def, Some("three"));
}

#[test]
fn get_or_init_slot_keeps_an_existing_slot() {
    let mut state: ActiveThreadState<&str, u32> = ActiveThreadState::new(UniqueThreadId(1), LiveThreadId(0));
    assert_eq!(state.get_or_init_slot(LiveLocalId(1), "one").local_def, Some("one"));
    assert_eq!(state.get_or_init_slot(LiveLocalId(1), "other").local_def, Some("one"));
    assert_eq!(state.get_or_init_slot(LiveLocalId(0), "zero").local_def, None);
}

#[test]
fn slots_without_values_drop_nothing() {
    let mut state: ActiveThreadState<&str, u32> = ActiveThreadState::new(UniqueThreadId(1), LiveThreadId(0));
    state.init_slot(LiveLocalId(0), "zero");
    state.init_slot(LiveLocalId(2), "two");
    assert!(state.values_to_drop().is_empty());
}

#[test]
fn releasing_a_local_definition_frees_its_live_id() {
    let allocator = UniqueIdAllocator::new();
    let mut ids = IdManager::new();
    let (unique, live) = ids.acquire_local_id(&allocator).unwrap();
    let def = ActiveLocalDef::new(unique, live);
    assert_eq!(def.unique_id(), unique);
    assert_eq!(def.live_id(), live);
    let (_, other) = ids.acquire_local_id(&allocator).unwrap();
    assert_eq!(other.index(), 1);
    def.release(&mut ids);
    let (_, reused) = ids.acquire_local_id(&allocator).unwrap();
    assert_eq!(reused.index(), 0);
}

# dropping_thread_local

Thread locals whose value on each thread is dropped when that thread dies.

## Layout

- `src/` is the verified library:
  - `reusing_ids.rs`: `ReusingIdManager`, which hands out small ids and reuses freed
    ids smallest first, with the laws that it never hands out an id in use.
  - `ids.rs`: unique ids (an atomic counter of `portable_atomic`), live ids, and the
    `IdManager` that pairs them and records which threads have started.
  - `fold_map.rs`: `std` hash maps keyed by `u64` and hashed by `foldhash`.
  - `thread_values.rs`: the values of one thread, keyed by the id of their local.
  - `live_threads.rs`: the registry of live threads and its snapshots. It holds a
    `std` map hashed by `foldhash` rather than a persistent map, because its handles
    are generic and the contents of an outside collection can only be named at a
    concrete type; a snapshot is therefore a copy of the map.
  - `snapshot.rs`: iteration over the values of one local on the threads of a snapshot,
    with laws over whole iterations.
  - `global.rs`: the table of thread slots indexed by live thread id.
  - `thread_state.rs`: a thread's table of value slots indexed by live local id,
    and the definitions of thread locals. The table is a `std` vector rather than a
    `boxcar` one, for the same reason: its slots are generic.
  - `lib.rs`: `DroppingThreadLocal`, the handle of one thread local.
- `app/` holds the process-wide statics, the `thread_local!` state of each thread,
  the locks, and the user-facing `DroppingThreadLocal`, `SnapshotIter` and `SharedRef`.
- `tests/` exercises the library on concrete values.

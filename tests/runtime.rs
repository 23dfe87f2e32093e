use dynamic_instrumentation::backend::{select_backend, write_all, BackendKind, DebugBackend};
use dynamic_instrumentation::channel::{EventChannel, CHANNEL_CAPACITY};
use dynamic_instrumentation::events::{hook_event, Event, EventKind};
use dynamic_instrumentation::location_table::InstrumentMemoryOps;
use dynamic_instrumentation::mir::Location;
use dynamic_instrumentation::mir_loc::{EventMetadata, MirPlace, MirProjection, TransferKind};
use dynamic_instrumentation::points::HookKind;

fn ev(loc: u32, p: usize) -> Event {
    Event { mir_loc: loc, kind: EventKind::CopyPtr(p) }
}

fn meta(src: u32) -> EventMetadata {
    EventMetadata {
        source: Some(MirPlace { local: src, projection: vec![MirProjection::Deref] }),
        destination: None,
        transfer_kind: TransferKind::NoTransfer,
    }
}

#[test]
fn registering_the_same_point_yields_the_same_index() {
    let mut t = InstrumentMemoryOps::new();
    t.register_function(7, "f".to_string());
    let at = Location { block: 2, statement_index: 3 };
    let first = t.get_mir_loc_idx(7, at, meta(1));
    for _ in 0..5 {
        assert_eq!(t.get_mir_loc_idx(7, at, meta(1)), first);
    }
    assert_eq!(t.num_locs(), 1);
}

#[test]
fn distinct_points_are_indexed_in_registration_order() {
    let mut t = InstrumentMemoryOps::new();
    t.register_function(7, "f".to_string());
    t.register_function(8, "g".to_string());
    let a = t.get_mir_loc_idx(7, Location { block: 0, statement_index: 0 }, meta(1));
    let b = t.get_mir_loc_idx(7, Location { block: 0, statement_index: 1 }, meta(1));
    let c = t.get_mir_loc_idx(8, Location { block: 0, statement_index: 0 }, meta(1));
    let d = t.get_mir_loc_idx(7, Location { block: 0, statement_index: 0 }, meta(2));
    assert_eq!((a, b, c, d), (0, 1, 2, 3));
    assert_eq!(t.get_mir_loc_idx(7, Location { block: 0, statement_index: 1 }, meta(1)), 1);
    let m = t.finalize();
    assert_eq!(m.locs.len(), 4);
    assert_eq!(m.locs[2].func.name, "g");
    assert_eq!(m.locs[3].metadata.source.as_ref().unwrap().local, 2);
    assert_eq!(m.functions.len(), 2);
    assert_eq!(t.num_locs(), 0);
}

#[test]
fn full_channel_refuses_until_a_slot_is_freed() {
    let mut ch = EventChannel::new(3);
    assert_eq!(ch.try_send(ev(0, 10)), Ok(()));
    assert_eq!(ch.try_send(ev(1, 11)), Ok(()));
    assert_eq!(ch.try_send(ev(2, 12)), Ok(()));
    assert!(ch.is_full());
    assert_eq!(ch.try_send(ev(3, 13)), Err(ev(3, 13)));
    assert_eq!(ch.len(), 3);
    assert_eq!(ch.recv(), Some(ev(0, 10)));
    assert_eq!(ch.try_send(ev(3, 13)), Ok(()));
    assert_eq!(ch.recv(), Some(ev(1, 11)));
    assert_eq!(ch.recv(), Some(ev(2, 12)));
    assert_eq!(ch.recv(), Some(ev(3, 13)));
    assert_eq!(ch.recv(), None);
}

#[test]
fn runtime_channel_holds_its_capacity() {
    let mut ch = EventChannel::new(CHANNEL_CAPACITY);
    for i in 0..CHANNEL_CAPACITY {
        assert_eq!(ch.try_send(ev(i as u32, i)), Ok(()));
    }
    assert!(ch.try_send(ev(0, 0)).is_err());
    assert_eq!(ch.capacity(), 1024);
}

#[test]
fn consumer_writes_everything_before_done() {
    let mut ch = EventChannel::new(8);
    for i in 0..3 {
        ch.try_send(ev(i, 100 + i as usize)).unwrap();
    }
    ch.try_send(Event::done()).unwrap();
    ch.try_send(ev(9, 9)).unwrap();
    let mut written = vec![];
    assert!(write_all(&mut ch, &mut written));
    assert_eq!(written, vec![ev(0, 100), ev(1, 101), ev(2, 102)]);
    assert_eq!(ch.len(), 1);
}

#[test]
fn consumer_waits_when_done_has_not_come() {
    let mut ch = EventChannel::new(8);
    ch.try_send(ev(0, 1)).unwrap();
    let mut written = vec![];
    assert!(!write_all(&mut ch, &mut written));
    assert_eq!(written, vec![ev(0, 1)]);
    ch.try_send(Event::done()).unwrap();
    assert!(write_all(&mut ch, &mut written));
    assert_eq!(written, vec![ev(0, 1)]);
}

#[test]
fn backend_selection() {
    assert_eq!(select_backend(Some("log")), BackendKind::Log);
    assert_eq!(select_backend(Some("debug")), BackendKind::Debug);
    assert_eq!(select_backend(Some("LOG")), BackendKind::Debug);
    assert_eq!(select_backend(None), BackendKind::Debug);
}

#[test]
fn hook_calls_become_events() {
    assert_eq!(
        hook_event(HookKind::Malloc, 4, &vec![16, 0x1000]),
        Some(Event { mir_loc: 4, kind: EventKind::Alloc { size: 16, ptr: 0x1000 } })
    );
    assert_eq!(
        hook_event(HookKind::Calloc, 1, &vec![4, 8, 0x2000]),
        Some(Event { mir_loc: 1, kind: EventKind::Alloc { size: 32, ptr: 0x2000 } })
    );
    assert_eq!(
        hook_event(HookKind::Reallocarray, 2, &vec![0x10, 3, 5, 0x20]),
        Some(Event { mir_loc: 2, kind: EventKind::Realloc { old_ptr: 0x10, size: 15, new_ptr: 0x20 } })
    );
    assert_eq!(
        hook_event(HookKind::AddrOfLocal, 0, &vec![0x7ff0, 1]),
        Some(Event { mir_loc: 0, kind: EventKind::AddrOfLocal(0x7ff0, 1) })
    );
    assert_eq!(
        hook_event(HookKind::PtrStore, 1, &vec![0x7ff0]),
        Some(Event { mir_loc: 1, kind: EventKind::Store(0x7ff0) })
    );
    assert_eq!(hook_event(HookKind::Free, 0, &vec![]), None);
    assert_eq!(hook_event(HookKind::Initialize, 0, &vec![1]), None);
}

#[test]
fn debug_backend_resolves_sites() {
    let mut t = InstrumentMemoryOps::new();
    t.register_function(3, "work".to_string());
    t.get_mir_loc_idx(3, Location { block: 4, statement_index: 2 }, meta(1));
    let backend = DebugBackend::new(t.finalize());
    let site = backend.site(&ev(0, 0)).unwrap();
    assert_eq!(site.func_name, "work");
    assert_eq!((site.block, site.statement), (4, 2));
    assert!(backend.site(&ev(1, 0)).is_none());
}

use plctag_pool::pool::Begin;
use plctag_pool::{Error, Pool, RawTag};

const DEBUG_PATH: &str = "make=system&family=library&name=debug&debug=4";

#[test]
fn test_pool() {
    let mut pool = Pool::new();
    let path = "make=system&family=library&name=debug&debug=4";

    let first = pool.entry(path).unwrap();
    {
        let g = pool.acquire(&first).unwrap();
        pool.connect(&g).unwrap();

        let level: i32 = pool.read_value(&g, 0).unwrap();
        assert_eq!(level, 4);

        pool.write_value(&g, 0, 1).unwrap();
        let level: i32 = pool.read_value(&g, 0).unwrap();
        assert_eq!(level, 1);
        pool.release(g);
    }

    let second = pool.entry(path).unwrap();
    {
        let g = pool.acquire(&second).unwrap();
        let level: i32 = pool.read_value(&g, 0).unwrap();
        assert_eq!(level, 1);
        pool.release(g);
    }
}

#[test]
fn single_flight_creation() {
    let mut pool = Pool::new();

    // The first accessor of an unseen key is the one asked to create.
    let b1 = pool.entry_begin(DEBUG_PATH);
    assert_eq!(b1, Begin::MustCreate(0));

    // Concurrent accessors of the same key join that pending creation
    // instead of being asked to create a second handle.
    let b2 = pool.entry_begin(DEBUG_PATH);
    assert_eq!(b2, Begin::Join(0));
    let b3 = pool.entry_begin(DEBUG_PATH);
    assert_eq!(b3, Begin::Join(0));

    // Once the creator publishes, it gets its own entry and everyone else
    // resolves to that same slot.
    let creator = pool.entry_finish(0, RawTag::new(DEBUG_PATH));
    assert_eq!(creator.id(), 0);
    let b4 = pool.entry_begin(DEBUG_PATH);
    assert_eq!(b4, Begin::Attach(0));
    let joined = pool.attach(0).unwrap().unwrap();
    assert_eq!(joined.id(), 0);
    let e = pool.entry(DEBUG_PATH).unwrap();
    assert_eq!(e.id(), 0);

    // A different key gets a slot of its own.
    let b5 = pool.entry_begin("make=system&name=other");
    assert_eq!(b5, Begin::MustCreate(1));
}

#[test]
fn failed_creation_is_retried_from_scratch() {
    let mut pool = Pool::new();
    let b1 = pool.entry_begin(DEBUG_PATH);
    assert_eq!(b1, Begin::MustCreate(0));
    pool.entry_abort(0);

    // The pending marker is gone: the next accessor creates anew, and
    // nothing attaches to the aborted slot.
    assert!(pool.attach(0).unwrap().is_none());
    let b2 = pool.entry_begin(DEBUG_PATH);
    assert_eq!(b2, Begin::MustCreate(1));
}

#[test]
fn entry_reports_creation_in_flight() {
    let mut pool = Pool::new();
    let b1 = pool.entry_begin(DEBUG_PATH);
    assert_eq!(b1, Begin::MustCreate(0));
    // The synchronous resolver cannot wait on another caller's creation.
    match pool.entry(DEBUG_PATH) {
        Err(Error::Other(_)) => {}
        other => panic!("expected the in-flight report, got {:?}", other),
    }
}

#[test]
fn guard_is_exclusive_until_released() {
    let mut pool = Pool::new();
    let e = pool.entry(DEBUG_PATH).unwrap();

    for _ in 0..50 {
        let g = pool.acquire(&e).unwrap();
        // While one guard is active, no second acquisition succeeds.
        assert!(pool.acquire(&e).is_none());
        assert!(pool.acquire(&e).is_none());
        pool.release(g);
    }
    // Releasing unblocked the next acquirer every round.
    let g = pool.acquire(&e).unwrap();
    pool.release(g);
}

#[test]
fn written_value_persists_across_acquisitions() {
    let mut pool = Pool::new();
    let e = pool.entry(DEBUG_PATH).unwrap();

    let g = pool.acquire(&e).unwrap();
    pool.connect(&g).unwrap();
    pool.write_value(&g, 0, 150).unwrap();
    pool.release(g);

    let g = pool.acquire(&e).unwrap();
    assert_eq!(pool.read_value(&g, 0).unwrap(), 150);
    pool.release(g);

    let e2 = pool.entry(DEBUG_PATH).unwrap();
    let g = pool.acquire(&e2).unwrap();
    assert_eq!(pool.read_value(&g, 0).unwrap(), 150);
    pool.release(g);
}

#[test]
fn guard_status_and_connect_report_the_handle() {
    let mut pool = Pool::new();
    let e = pool.entry("protocol=ab-eip&gateway=10.0.0.1&name=MyTag1").unwrap();
    let g = pool.acquire(&e).unwrap();
    assert!(pool.status(&g).is_pending());
    // An unreachable target: connect reports pending, not a fatal error.
    match pool.connect(&g) {
        Err(Error::TagError(s)) => assert!(s.is_pending()),
        other => panic!("expected the pending report, got {:?}", other),
    }
    match pool.read_value(&g, 0) {
        Err(Error::TagError(s)) => assert!(s.is_err()),
        other => panic!("expected a native error, got {:?}", other),
    }
    pool.release(g);
}

#[test]
fn remove_returns_handle_only_when_no_holder_remains() {
    let mut pool = Pool::new();
    let e = pool.entry(DEBUG_PATH).unwrap();

    // A holder is outstanding: removal defers teardown.
    assert!(pool.remove(DEBUG_PATH).is_none());

    // The last holder going away completes the deferred teardown, and the
    // key is free again: a later access creates a fresh handle.
    pool.release_entry(e);
    let e2 = pool.entry(DEBUG_PATH).unwrap();
    assert_eq!(e2.id(), 1);

    // With no holder left, removal hands the handle back.
    pool.release_entry(e2);
    let tag = pool.remove(DEBUG_PATH);
    assert!(tag.is_some());
    // And the mapping is gone.
    assert!(pool.remove(DEBUG_PATH).is_none());
}

#[test]
fn fresh_handle_after_remove_reports_the_default() {
    let mut pool = Pool::new();
    let e = pool.entry(DEBUG_PATH).unwrap();
    let g = pool.acquire(&e).unwrap();
    pool.connect(&g).unwrap();
    pool.write_value(&g, 0, 9).unwrap();
    pool.release(g);
    pool.release_entry(e);
    assert!(pool.remove(DEBUG_PATH).is_some());

    // The identity now resolves to a brand-new handle with the documented
    // default, not the removed handle's state.
    let e = pool.entry(DEBUG_PATH).unwrap();
    let g = pool.acquire(&e).unwrap();
    pool.connect(&g).unwrap();
    assert_eq!(pool.read_value(&g, 0).unwrap(), 4);
    pool.release(g);
}

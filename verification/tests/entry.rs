use plctag_pool::entry::PathOptions;
use plctag_pool::mailbox::{LifecycleState, Mailbox, Request, Response};
use plctag_pool::status::{ERR_CLOSED, ERR_NOT_CONNECTED, ERR_OUT_OF_BOUNDS};
use plctag_pool::tag::is_system_path;
use plctag_pool::{Error, RawTag, TagEntry, TagFactory};

fn dummy_options() -> PathOptions {
    PathOptions::new(
        "system-tag-debug",
        "make=system&family=library&name=debug&debug=4",
    )
}

fn unreachable_options() -> PathOptions {
    PathOptions::new(
        "remote-tag",
        "protocol=ab-eip&gateway=10.0.0.1&name=MyTag1&elem_count=1",
    )
}

#[test]
fn test_connected() {
    let factory = TagFactory::new();
    let mut tag = factory.create(dummy_options());
    let connected = tag.connected(Some(150));
    assert!(connected);

    let connected = tag.connected(Some(150));
    assert!(connected);

    let connected = tag.connected(Some(150));
    assert!(connected);
}

#[test]
fn test_read_write() {
    let factory = TagFactory::new();
    let mut tag = factory.create(dummy_options());
    let connected = tag.connected(Some(150));
    assert!(connected);
    let level: i32 = tag.read_value(0).unwrap();
    assert_eq!(level, 4);

    tag.write_value(0, 1).unwrap();
    let level: i32 = tag.read_value(0).unwrap();
    assert_eq!(level, 1);
}

#[test]
fn test_entry() {
    let path = "make=system&family=library&name=debug&debug=4";
    let mut entry = TagEntry::<String>::create(path);
    assert!(entry.connected(Some(150)));

    let level: i32 = entry.read_value(0).unwrap();
    assert_eq!(level, 4);

    entry.write_value(0, 1).unwrap();
    let level: i32 = entry.read_value(0).unwrap();
    assert_eq!(level, 1);
}

#[test]
fn timeout_returns_false_promptly_for_unreachable_target() {
    let factory = TagFactory::new();
    let mut tag = factory.create(unreachable_options());
    // Expiry is an answer, not an error: the call returns rather than
    // blocking, and asking again is allowed and still false.
    assert!(!tag.connected(Some(1)));
    assert!(!tag.connected(Some(1)));
    assert!(!tag.connected(None));
}

#[test]
fn read_before_connect_reports_not_connected() {
    let factory = TagFactory::new();
    let mut tag = factory.create(dummy_options());
    match tag.read_value(0) {
        Err(Error::TagError(s)) => assert_eq!(s.code(), ERR_NOT_CONNECTED),
        other => panic!("expected a native not-connected error, got {:?}", other),
    }
}

#[test]
fn out_of_bounds_read_and_write_report_exactly() {
    let factory = TagFactory::new();
    let mut tag = factory.create(dummy_options());
    assert!(tag.connected(Some(150)));
    match tag.read_value(7) {
        Err(Error::TagError(s)) => assert_eq!(s.code(), ERR_OUT_OF_BOUNDS),
        other => panic!("expected an out-of-bounds error, got {:?}", other),
    }
    match tag.write_value(7, 1) {
        Err(Error::TagError(s)) => assert_eq!(s.code(), ERR_OUT_OF_BOUNDS),
        other => panic!("expected an out-of-bounds error, got {:?}", other),
    }
    // The failed write changed nothing.
    assert_eq!(tag.read_value(0).unwrap(), 4);
}

#[test]
fn status_tracks_connection() {
    let factory = TagFactory::new();
    let mut tag = factory.create(dummy_options());
    assert_eq!(tag.key(), "system-tag-debug");
    assert!(tag.status().is_pending());
    assert!(tag.connected(Some(150)));
    assert!(tag.status().is_ok());
    assert_eq!(tag.status().code(), 0);
}

#[test]
fn mailbox_answers_in_submission_order() {
    let tag = RawTag::new("make=system&family=library&name=debug&debug=4");
    let mut mb = Mailbox::new(tag);
    assert_eq!(mb.lifecycle(), LifecycleState::Created);

    mb.submit(Request::ConnectWait);
    mb.submit(Request::Write(0, 7));
    mb.submit(Request::Read(0));
    assert_eq!(mb.pending(), 3);

    assert_eq!(mb.step(), Some(Response::ConnectedNow(true)));
    assert_eq!(mb.lifecycle(), LifecycleState::Connected);
    assert_eq!(mb.step(), Some(Response::Written));
    // The read is answered after the write it was submitted behind, so it
    // sees 7, never the stale default.
    assert_eq!(mb.step(), Some(Response::Value(7)));
    assert_eq!(mb.step(), None);
    assert_eq!(mb.pending(), 0);
}

#[test]
fn unreachable_mailbox_keeps_connecting_without_fatal_report() {
    let tag = RawTag::new("protocol=ab-eip&gateway=10.0.0.1&name=MyTag1");
    let mut mb = Mailbox::new(tag);
    mb.poll_connect();
    assert_eq!(mb.lifecycle(), LifecycleState::Connecting);
    mb.submit(Request::ConnectWait);
    assert_eq!(mb.step(), Some(Response::ConnectedNow(false)));
    assert_eq!(mb.lifecycle(), LifecycleState::Connecting);
}

#[test]
fn closed_mailbox_rejects_every_request() {
    let tag = RawTag::new("make=system&family=library&name=debug&debug=4");
    let mut mb = Mailbox::new(tag);
    mb.close();
    assert_eq!(mb.lifecycle(), LifecycleState::Closed);
    mb.submit(Request::Read(0));
    match mb.step() {
        Some(Response::Rejected(s)) => assert_eq!(s.code(), ERR_CLOSED),
        other => panic!("expected rejection by the closed mailbox, got {:?}", other),
    }
}

#[test]
fn error_kinds_are_told_apart() {
    let native = Error::from(plctag_pool::Status::from_code(-40));
    assert!(native.is_tag_error());
    assert_eq!(native.status().unwrap().code(), -40);
    assert!(native.status().unwrap().is_err());

    let join = Error::JoinError;
    assert!(!join.is_tag_error());
    assert!(join.status().is_none());

    let park = Error::ParkError;
    assert!(!park.is_tag_error());
    assert!(park.status().is_none());

    let other = Error::Other(String::from("malformed options"));
    assert!(!other.is_tag_error());
    assert!(other.status().is_none());

    assert_eq!(native.message(), "TagError - -40");
    assert_eq!(join.message(), "offloaded call failed to complete");
    assert_eq!(park.message(), "Coroutine Park Error");
    assert_eq!(other.message(), "malformed options");
}

#[test]
fn system_descriptors_are_recognized_by_prefix() {
    assert!(is_system_path("make=system"));
    assert!(is_system_path("make=system&family=library&name=debug&debug=4"));
    assert!(!is_system_path("make=syste"));
    assert!(!is_system_path(""));
    assert!(!is_system_path("protocol=ab-eip&gateway=10.0.0.1"));
}

use cqrs::backend::BackendChoice;
use cqrs::diagnostics::wrong_format;
use cqrs::event::{VersionedAggregate, VersionedAggregateView, VersionedEvent};
use cqrs::stream::EventStream;
use cqrs::table::Table;
use cqrs::version::{decide, EventNumber, Precondition, PreconditionFailed, Since, Version};

#[test]
fn event_number_starts_at_zero_and_increments() {
    assert_eq!(EventNumber::min_value().get(), 0);
    assert_eq!(EventNumber::new(41).incr(), EventNumber::new(42));
    assert_eq!(EventNumber::new(5).get(), 5);
}

#[test]
fn version_names_the_next_event() {
    assert_eq!(Version::new(0).next_event(), EventNumber::new(0));
    assert_eq!(Version::new(3).next_event(), EventNumber::new(3));
    assert_eq!(Version::new(3).get(), 3);
}

#[test]
fn precondition_new_holds_only_of_an_absent_stream() {
    assert_eq!(Precondition::New.verify(None), Ok(()));
    assert_eq!(Precondition::New.verify(Some(Version::new(0))), Err(Precondition::New));
    assert_eq!(Precondition::New.verify(Some(Version::new(3))), Err(Precondition::New));
}

#[test]
fn precondition_expected_version_holds_only_of_that_version() {
    let p = Precondition::ExpectedVersion(Version::new(2));
    assert_eq!(p.verify(Some(Version::new(2))), Ok(()));
    assert_eq!(p.verify(Some(Version::new(1))), Err(p));
    assert_eq!(p.verify(Some(Version::new(3))), Err(p));
    assert_eq!(p.verify(None), Err(p));
    let zero = Precondition::ExpectedVersion(Version::new(0));
    assert_eq!(zero.verify(None), Err(zero));
    assert_eq!(zero.verify(Some(Version::new(0))), Ok(()));
}

#[test]
fn precondition_failed_is_made_from_the_precondition() {
    let failed: PreconditionFailed = Precondition::New.into();
    assert_eq!(failed, PreconditionFailed(Precondition::New));
    let p = Precondition::ExpectedVersion(Version::new(9));
    assert_eq!(PreconditionFailed::from(p).0, p);
}

#[test]
fn stream_appends_and_reads() {
    let mut stream: EventStream<u32> = EventStream::new();
    assert_eq!(stream.version(), Version::new(0));
    assert_eq!(stream.append(&[10, 20], None), Ok(EventNumber::new(0)));
    assert_eq!(
        stream.append(&[30], Some(Precondition::ExpectedVersion(Version::new(2)))),
        Ok(EventNumber::new(2))
    );
    assert_eq!(
        stream.append(&[40], Some(Precondition::New)),
        Err(PreconditionFailed(Precondition::New))
    );
    assert_eq!(stream.version(), Version::new(3));
    stream.extend(&[50]);
    let all = stream.read(Since::BeginningOfStream, None);
    assert_eq!(
        all,
        vec![
            VersionedEvent { sequence: EventNumber::new(0), event: 10 },
            VersionedEvent { sequence: EventNumber::new(1), event: 20 },
            VersionedEvent { sequence: EventNumber::new(2), event: 30 },
            VersionedEvent { sequence: EventNumber::new(3), event: 50 },
        ]
    );
    let window = stream.read(Since::Event(EventNumber::new(0)), Some(2));
    assert_eq!(
        window,
        vec![
            VersionedEvent { sequence: EventNumber::new(1), event: 20 },
            VersionedEvent { sequence: EventNumber::new(2), event: 30 },
        ]
    );
    assert!(stream.read(Since::Event(EventNumber::new(u64::MAX)), Some(1)).is_empty());
}

#[test]
fn duplicates_keep_number_and_payload() {
    let event = VersionedEvent { sequence: EventNumber::new(4), event: String::from("e") };
    assert_eq!(event.duplicate(), event);
    let state = VersionedAggregate { version: Version::new(2), payload: vec![1u8, 2] };
    assert_eq!(state.duplicate(), state);
    let payload = vec![3u8];
    let view = VersionedAggregateView { version: Version::new(7), payload: &payload };
    assert_eq!(
        view.to_aggregate(),
        VersionedAggregate { version: Version::new(7), payload: vec![3u8] }
    );
}

#[test]
fn table_finds_what_was_inserted() {
    let mut table: Table<u32> = Table::new();
    assert!(!table.contains("a"));
    assert_eq!(table.get("a"), None);
    table.insert_new("a", 1);
    table.insert_new("b", 2);
    assert!(table.contains("a"));
    assert!(table.contains("b"));
    assert!(!table.contains("c"));
    assert_eq!(table.get("a"), Some(&1));
    assert_eq!(table.get("b"), Some(&2));
    *table.entry_mut("a") = 10;
    assert_eq!(table.get("a"), Some(&10));
    assert_eq!(table.get("b"), Some(&2));
}

#[test]
fn wrong_format_message_names_the_expected_format() {
    assert_eq!(
        wrong_format("type = \"...\""),
        "Wrong attribute format; expected #[event(type = \"...\")]"
    );
    assert_eq!(wrong_format(""), "Wrong attribute format; expected #[event()]");
    assert_eq!(
        wrong_format("version = <non-zero unsigned integer>"),
        "Wrong attribute format; expected #[event(version = <non-zero unsigned integer>)]"
    );
}

#[test]
fn backend_choices_are_distinct() {
    let redis = BackendChoice::Redis(String::from("redis://localhost"));
    assert_ne!(BackendChoice::Memory, BackendChoice::Null);
    assert_ne!(redis, BackendChoice::Memory);
    assert_eq!(redis, BackendChoice::Redis(String::from("redis://localhost")));
    assert_ne!(redis, BackendChoice::Redis(String::from("redis://elsewhere")));
}

#[test]
fn decide_settles_an_append() {
    let at_two = Some(Version::new(2));
    assert_eq!(decide(None, None), Ok(EventNumber::new(0)));
    assert_eq!(decide(None, at_two), Ok(EventNumber::new(2)));
    assert_eq!(decide(Some(Precondition::New), None), Ok(EventNumber::new(0)));
    assert_eq!(
        decide(Some(Precondition::New), at_two),
        Err(PreconditionFailed(Precondition::New))
    );
    let expect_two = Precondition::ExpectedVersion(Version::new(2));
    assert_eq!(decide(Some(expect_two), at_two), Ok(EventNumber::new(2)));
    assert_eq!(decide(Some(expect_two), None), Err(PreconditionFailed(expect_two)));
    assert_eq!(
        decide(Some(expect_two), Some(Version::new(3))),
        Err(PreconditionFailed(expect_two))
    );
}

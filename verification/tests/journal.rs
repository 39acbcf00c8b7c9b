use cqrs::event::VersionedEvent;
use cqrs::journal::EventStore;
use cqrs::version::{EventNumber, Precondition, PreconditionFailed, Since, Version};

#[derive(Clone, Debug, PartialEq, Eq)]
enum Event {
    Created,
    TextUpdated,
    Completed,
}

fn numbers(events: &[VersionedEvent<Event>]) -> Vec<u64> {
    events.iter().map(|e| e.sequence.get()).collect()
}

fn payloads(events: &[VersionedEvent<Event>]) -> Vec<Event> {
    events.iter().map(|e| e.event.clone()).collect()
}

fn version_of(store: &EventStore<Event>, id: &str) -> Option<usize> {
    store.read_events(id, Since::BeginningOfStream, None).map(|events| events.len())
}

#[test]
fn todo_scenario_appends_and_rejects() {
    let mut store: EventStore<Event> = EventStore::default();
    assert!(store.read_events("todo-1", Since::BeginningOfStream, None).is_none());

    let first = store.append_events(
        "todo-1",
        &[Event::Created, Event::TextUpdated],
        Some(Precondition::New),
    );
    assert_eq!(first, Ok(EventNumber::new(0)));
    assert_eq!(version_of(&store, "todo-1"), Some(2));

    let second = store.append_events(
        "todo-1",
        &[Event::Completed],
        Some(Precondition::ExpectedVersion(Version::new(2))),
    );
    assert_eq!(second, Ok(EventNumber::new(2)));
    assert_eq!(version_of(&store, "todo-1"), Some(3));

    let third = store.append_events(
        "todo-1",
        &[Event::Completed],
        Some(Precondition::ExpectedVersion(Version::new(2))),
    );
    assert_eq!(
        third,
        Err(PreconditionFailed(Precondition::ExpectedVersion(Version::new(2))))
    );
    assert_eq!(version_of(&store, "todo-1"), Some(3));

    let all = store.read_events("todo-1", Since::BeginningOfStream, None).unwrap();
    assert_eq!(numbers(&all), vec![0, 1, 2]);
    assert_eq!(
        payloads(&all),
        vec![Event::Created, Event::TextUpdated, Event::Completed]
    );
}

#[test]
fn successive_appends_partition_the_stream() {
    let mut store: EventStore<Event> = EventStore::default();
    let batches: Vec<Vec<Event>> = vec![
        vec![Event::Created],
        vec![],
        vec![Event::TextUpdated, Event::TextUpdated, Event::Completed],
        vec![Event::Completed, Event::Created],
    ];
    let mut expected_first: u64 = 0;
    for batch in &batches {
        let first = store.append_events("a", batch, None).unwrap();
        assert_eq!(first.get(), expected_first);
        expected_first += batch.len() as u64;
    }
    assert_eq!(expected_first, 6);
    let all = store.read_events("a", Since::BeginningOfStream, None).unwrap();
    assert_eq!(numbers(&all), vec![0, 1, 2, 3, 4, 5]);
}

#[test]
fn new_succeeds_on_absent_stream() {
    let mut store: EventStore<Event> = EventStore::default();
    let outcome = store.append_events("x", &[Event::Created], Some(Precondition::New));
    assert_eq!(outcome, Ok(EventNumber::new(0)));
    assert_eq!(version_of(&store, "x"), Some(1));
}

#[test]
fn expected_version_fails_on_absent_stream() {
    let mut store: EventStore<Event> = EventStore::default();
    for v in [0u64, 1, 7, u64::MAX] {
        let p = Precondition::ExpectedVersion(Version::new(v));
        let outcome = store.append_events("x", &[Event::Created], Some(p));
        assert_eq!(outcome, Err(PreconditionFailed(p)));
        assert!(store.read_events("x", Since::BeginningOfStream, None).is_none());
    }
}

#[test]
fn no_precondition_always_succeeds() {
    let mut store: EventStore<Event> = EventStore::default();
    assert_eq!(store.append_events("x", &[Event::Created], None), Ok(EventNumber::new(0)));
    assert_eq!(store.append_events("x", &[Event::Completed], None), Ok(EventNumber::new(1)));
    assert_eq!(version_of(&store, "x"), Some(2));
}

#[test]
fn new_fails_on_existing_stream() {
    let mut store: EventStore<Event> = EventStore::default();
    store.append_events("x", &[Event::Created], None).unwrap();
    let outcome = store.append_events("x", &[Event::Completed], Some(Precondition::New));
    assert_eq!(outcome, Err(PreconditionFailed(Precondition::New)));
    let all = store.read_events("x", Since::BeginningOfStream, None).unwrap();
    assert_eq!(payloads(&all), vec![Event::Created]);
}

#[test]
fn matching_expected_version_succeeds() {
    let mut store: EventStore<Event> = EventStore::default();
    store.append_events("x", &[Event::Created, Event::TextUpdated], None).unwrap();
    let outcome = store.append_events(
        "x",
        &[Event::Completed],
        Some(Precondition::ExpectedVersion(Version::new(2))),
    );
    assert_eq!(outcome, Ok(EventNumber::new(2)));
}

#[test]
fn mismatched_expected_version_leaves_stream_unchanged() {
    let mut store: EventStore<Event> = EventStore::default();
    store.append_events("x", &[Event::Created, Event::TextUpdated], None).unwrap();
    let before = store.read_events("x", Since::BeginningOfStream, None).unwrap();
    for v in [0u64, 1, 3, 100] {
        let p = Precondition::ExpectedVersion(Version::new(v));
        let outcome = store.append_events("x", &[Event::Completed], Some(p));
        assert_eq!(outcome, Err(PreconditionFailed(p)));
        let after = store.read_events("x", Since::BeginningOfStream, None).unwrap();
        assert_eq!(before, after);
    }
}

#[test]
fn empty_batch_reports_the_current_version() {
    let mut store: EventStore<Event> = EventStore::default();
    store.append_events("x", &[Event::Created, Event::TextUpdated], None).unwrap();
    let outcome = store.append_events(
        "x",
        &[],
        Some(Precondition::ExpectedVersion(Version::new(2))),
    );
    assert_eq!(outcome, Ok(EventNumber::new(2)));
    assert_eq!(version_of(&store, "x"), Some(2));
}

#[test]
fn empty_batch_on_absent_stream_creates_it() {
    let mut store: EventStore<Event> = EventStore::default();
    let outcome = store.append_events("x", &[], Some(Precondition::New));
    assert_eq!(outcome, Ok(EventNumber::new(0)));
    assert_eq!(version_of(&store, "x"), Some(0));
    let again = store.append_events("x", &[], Some(Precondition::New));
    assert_eq!(again, Err(PreconditionFailed(Precondition::New)));
    let at_zero = store.append_events(
        "x",
        &[Event::Created],
        Some(Precondition::ExpectedVersion(Version::new(0))),
    );
    assert_eq!(at_zero, Ok(EventNumber::new(0)));
}

#[test]
fn read_since_returns_the_events_after_the_cursor() {
    let mut store: EventStore<Event> = EventStore::default();
    let batch = [
        Event::Created,
        Event::TextUpdated,
        Event::Completed,
        Event::TextUpdated,
    ];
    store.append_events("x", &batch, None).unwrap();
    let after_zero = store
        .read_events("x", Since::Event(EventNumber::new(0)), None)
        .unwrap();
    assert_eq!(numbers(&after_zero), vec![1, 2, 3]);
    assert_eq!(
        payloads(&after_zero),
        vec![Event::TextUpdated, Event::Completed, Event::TextUpdated]
    );
    let after_two = store
        .read_events("x", Since::Event(EventNumber::new(2)), None)
        .unwrap();
    assert_eq!(numbers(&after_two), vec![3]);
    let after_last = store
        .read_events("x", Since::Event(EventNumber::new(3)), None)
        .unwrap();
    assert!(after_last.is_empty());
}

#[test]
fn read_since_past_the_end_is_empty() {
    let mut store: EventStore<Event> = EventStore::default();
    store.append_events("x", &[Event::Created, Event::Completed], None).unwrap();
    for n in [2u64, 3, 1000, u64::MAX] {
        let found = store.read_events("x", Since::Event(EventNumber::new(n)), None);
        assert_eq!(found, Some(vec![]));
    }
}

#[test]
fn read_from_beginning_with_limit_returns_the_first_events() {
    let mut store: EventStore<Event> = EventStore::default();
    let batch = [Event::Created, Event::TextUpdated, Event::Completed];
    store.append_events("x", &batch, None).unwrap();
    let expected: [(u64, Vec<u64>); 5] = [
        (0, vec![]),
        (1, vec![0]),
        (2, vec![0, 1]),
        (3, vec![0, 1, 2]),
        (u64::MAX, vec![0, 1, 2]),
    ];
    for (limit, wanted) in expected {
        let found = store
            .read_events("x", Since::BeginningOfStream, Some(limit))
            .unwrap();
        assert_eq!(numbers(&found), wanted);
    }
}

#[test]
fn read_since_with_limit_takes_a_window() {
    let mut store: EventStore<Event> = EventStore::default();
    let batch = [
        Event::Created,
        Event::TextUpdated,
        Event::Completed,
        Event::TextUpdated,
        Event::Completed,
    ];
    store.append_events("x", &batch, None).unwrap();
    let found = store
        .read_events("x", Since::Event(EventNumber::new(1)), Some(2))
        .unwrap();
    assert_eq!(numbers(&found), vec![2, 3]);
    assert_eq!(payloads(&found), vec![Event::Completed, Event::TextUpdated]);
    let tail = store
        .read_events("x", Since::Event(EventNumber::new(3)), Some(5))
        .unwrap();
    assert_eq!(numbers(&tail), vec![4]);
}

#[test]
fn read_of_unknown_entity_is_none() {
    let mut store: EventStore<Event> = EventStore::default();
    store.append_events("x", &[Event::Created], None).unwrap();
    assert!(store.read_events("y", Since::BeginningOfStream, None).is_none());
    assert!(store.read_events("", Since::BeginningOfStream, Some(3)).is_none());
}

#[test]
fn entities_are_independent() {
    let mut store: EventStore<Event> = EventStore::default();
    store.append_events("a", &[Event::Created, Event::Completed], None).unwrap();
    let first_b = store.append_events("b", &[Event::TextUpdated], Some(Precondition::New));
    assert_eq!(first_b, Ok(EventNumber::new(0)));
    store.append_events("c", &[], None).unwrap();
    store.append_events("a", &[Event::TextUpdated], None).unwrap();
    let a = store.read_events("a", Since::BeginningOfStream, None).unwrap();
    let b = store.read_events("b", Since::BeginningOfStream, None).unwrap();
    let c = store.read_events("c", Since::BeginningOfStream, None).unwrap();
    assert_eq!(payloads(&a), vec![Event::Created, Event::Completed, Event::TextUpdated]);
    assert_eq!(numbers(&a), vec![0, 1, 2]);
    assert_eq!(payloads(&b), vec![Event::TextUpdated]);
    assert_eq!(numbers(&b), vec![0]);
    assert!(c.is_empty());
}

#[test]
fn competing_appends_at_one_version_admit_exactly_one() {
    let mut store: EventStore<Event> = EventStore::default();
    store.append_events("x", &[Event::Created, Event::TextUpdated], None).unwrap();
    let p = Precondition::ExpectedVersion(Version::new(2));
    let mut successes = 0;
    let mut failures = 0;
    for _ in 0..8 {
        match store.append_events("x", &[Event::Completed], Some(p)) {
            Ok(first) => {
                assert_eq!(first, EventNumber::new(2));
                successes += 1;
            }
            Err(e) => {
                assert_eq!(e, PreconditionFailed(p));
                failures += 1;
            }
        }
    }
    assert_eq!(successes, 1);
    assert_eq!(failures, 7);
    assert_eq!(version_of(&store, "x"), Some(3));
}

#[test]
fn store_with_a_seeded_hasher_behaves_the_same() {
    let hasher = hashbrown::hash_map::DefaultHashBuilder::with_seeds(7, 11);
    let mut store: EventStore<Event> = EventStore::with_hasher(hasher);
    assert!(store.read_events("x", Since::BeginningOfStream, None).is_none());
    store.append_events("x", &[Event::Created], Some(Precondition::New)).unwrap();
    store.append_events("y", &[Event::Completed], Some(Precondition::New)).unwrap();
    let x = store.read_events("x", Since::BeginningOfStream, None).unwrap();
    let y = store.read_events("y", Since::BeginningOfStream, None).unwrap();
    assert_eq!(payloads(&x), vec![Event::Created]);
    assert_eq!(payloads(&y), vec![Event::Completed]);
}

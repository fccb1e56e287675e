use zero2prod::diagnostics::RequestSpan;
use zero2prod::form::SubscriberData;
use zero2prod::gateway::{insert_subscriber, Parameter, PersistenceFailure, INSERT_STATEMENT};
use zero2prod::intake::{subscribe, Action, Event, Intake};
use zero2prod::outcome::{respond, FailureKind};
use zero2prod::record::{Stamp, SubscriberRecord, Timestamp};

fn pair(key: &str, value: &str) -> (String, String) {
    (key.to_string(), value.to_string())
}

fn form(name: &str, email: &str) -> SubscriberData {
    SubscriberData { name: name.to_string(), email: email.to_string() }
}

fn stamp(request_id: u128, record_id: u128, seconds: i64, nanos: u32) -> Stamp {
    Stamp { request_id, record_id, now: Timestamp { seconds, nanos } }
}

const BODY: &[u8] = b"name=the%20test%20guy&email=the_test_guy%40gmail.com";

// Decoding.

#[test]
fn decode_undoes_percent_escapes() {
    let decoded = SubscriberData::decode(BODY).expect("both fields are present");
    assert_eq!(decoded.name, "the test guy");
    assert_eq!(decoded.email, "the_test_guy@gmail.com");
}

#[test]
fn decode_reads_plus_as_space() {
    let decoded = SubscriberData::decode(b"name=le+guin&email=ursula%40example.com").unwrap();
    assert_eq!(decoded.name, "le guin");
    assert_eq!(decoded.email, "ursula@example.com");
}

#[test]
fn decode_takes_the_fields_in_either_order() {
    let decoded = SubscriberData::decode(b"email=a%40b.c&name=n").unwrap();
    assert_eq!(decoded.name, "n");
    assert_eq!(decoded.email, "a@b.c");
}

#[test]
fn decode_passes_over_other_fields() {
    let decoded = SubscriberData::decode(b"lang=en&name=n&ref=42&email=e").unwrap();
    assert_eq!(decoded.name, "n");
    assert_eq!(decoded.email, "e");
}

#[test]
fn decode_checks_presence_only() {
    let decoded = SubscriberData::decode(b"name=&email=not-an-address").unwrap();
    assert_eq!(decoded.name, "");
    assert_eq!(decoded.email, "not-an-address");
}

#[test]
fn decode_reads_utf8() {
    let decoded = SubscriberData::decode(b"name=comt%C3%A9&email=e").unwrap();
    assert_eq!(decoded.name, "comt\u{e9}");
}

#[test]
fn decode_refuses_a_missing_email() {
    let refused = SubscriberData::decode(b"name=te%20test%40guy");
    assert_eq!(refused.unwrap_err(), FailureKind::ClientInput);
}

#[test]
fn decode_refuses_a_missing_name() {
    let refused = SubscriberData::decode(b"email=the_test_guy%40gmail.com");
    assert_eq!(refused.unwrap_err(), FailureKind::ClientInput);
}

#[test]
fn decode_refuses_an_empty_body() {
    let refused = SubscriberData::decode(b"");
    assert_eq!(refused.unwrap_err(), FailureKind::ClientInput);
}

#[test]
fn decode_refuses_a_repeated_field() {
    let refused = SubscriberData::decode(b"name=a&name=b&email=e");
    assert_eq!(refused.unwrap_err(), FailureKind::ClientInput);
    let refused = SubscriberData::decode(b"name=a&email=e&email=f");
    assert_eq!(refused.unwrap_err(), FailureKind::ClientInput);
}

#[test]
fn decode_tells_field_names_by_case() {
    let refused = SubscriberData::decode(b"Name=a&email=e");
    assert_eq!(refused.unwrap_err(), FailureKind::ClientInput);
}

#[test]
fn from_pairs_selects_both_fields() {
    let pairs = vec![pair("email", "e@x"), pair("other", "o"), pair("name", "n")];
    let selected = SubscriberData::from_pairs(&pairs).unwrap();
    assert_eq!(selected.name, "n");
    assert_eq!(selected.email, "e@x");
}

#[test]
fn from_pairs_refuses_what_lacks_or_repeats_a_field() {
    let none: Vec<(String, String)> = Vec::new();
    assert_eq!(SubscriberData::from_pairs(&none).unwrap_err(), FailureKind::ClientInput);
    let no_email = vec![pair("name", "n")];
    assert_eq!(SubscriberData::from_pairs(&no_email).unwrap_err(), FailureKind::ClientInput);
    let no_name = vec![pair("email", "e")];
    assert_eq!(SubscriberData::from_pairs(&no_name).unwrap_err(), FailureKind::ClientInput);
    let twice = vec![pair("name", "n"), pair("email", "e"), pair("name", "n")];
    assert_eq!(SubscriberData::from_pairs(&twice).unwrap_err(), FailureKind::ClientInput);
}

// Responses.

#[test]
fn each_ending_has_its_status_and_no_body() {
    let stored = respond(Ok(()));
    assert_eq!(stored.status, 200);
    assert!(stored.body.is_empty());
    let refused = respond(Err(FailureKind::ClientInput));
    assert_eq!(refused.status, 400);
    assert!(refused.body.is_empty());
    let failed = respond(Err(FailureKind::Persistence));
    assert_eq!(failed.status, 500);
    assert!(failed.body.is_empty());
}

// Stamps and records.

#[test]
fn drawn_identifiers_are_random_identifiers() {
    let drawn = Stamp::draw();
    let fixed_bits = 0x0000_0000_0000_f000_c000_0000_0000_0000u128;
    let version_4 = 0x0000_0000_0000_4000_8000_0000_0000_0000u128;
    assert_eq!(drawn.request_id & fixed_bits, version_4);
    assert_eq!(drawn.record_id & fixed_bits, version_4);
    assert_ne!(drawn.request_id, drawn.record_id);
}

#[test]
fn two_draws_give_different_identifiers() {
    let one = Stamp::draw();
    let other = Stamp::draw();
    assert_ne!(one.record_id, other.record_id);
    assert_ne!(one.request_id, other.request_id);
}

#[test]
fn drawn_time_is_a_present_day_instant() {
    let drawn = Stamp::draw();
    assert!(drawn.now.nanos < 1_000_000_000);
    // 2020-01-01T00:00:00Z
    assert!(drawn.now.seconds > 1_577_836_800);
}

#[test]
fn a_later_draw_is_not_earlier() {
    let one = Stamp::draw();
    let other = Stamp::draw();
    assert!(other.now >= one.now);
}

#[test]
fn timestamps_order_by_seconds_then_nanoseconds() {
    let early = Timestamp { seconds: 10, nanos: 999_999_999 };
    let late = Timestamp { seconds: 11, nanos: 0 };
    assert!(late > early);
    assert!(Timestamp { seconds: 10, nanos: 5 } > Timestamp { seconds: 10, nanos: 4 });
    assert_eq!(Timestamp { seconds: 10, nanos: 5 }, Timestamp { seconds: 10, nanos: 5 });
}

#[test]
fn assemble_copies_the_form_verbatim() {
    let at = Timestamp { seconds: 1_700_000_000, nanos: 123_456_789 };
    let record = SubscriberRecord::assemble(7, at, form(" The Test Guy ", "Guy@Example.COM"));
    assert_eq!(record.id, 7);
    assert_eq!(record.name, " The Test Guy ");
    assert_eq!(record.email, "Guy@Example.COM");
    assert_eq!(record.subscribed_at, at);
}

#[test]
fn a_record_clones_to_an_equal_record() {
    let at = Timestamp { seconds: 5, nanos: 6 };
    let record = SubscriberRecord::assemble(9, at, form("n", "e"));
    let copy = record.clone();
    assert_eq!(copy.id, 9);
    assert_eq!(copy.name, "n");
    assert_eq!(copy.email, "e");
    assert_eq!(copy.subscribed_at, at);
}

// Context and gateway.

#[test]
fn the_context_carries_the_request_and_the_submitted_fields() {
    let span = RequestSpan::open(41, &form("n", "e"));
    assert_eq!(span.request_id, 41);
    assert_eq!(span.subscriber_name, "n");
    assert_eq!(span.subscriber_email, "e");
    let copy = span.clone();
    assert_eq!(copy.request_id, 41);
    assert_eq!(copy.subscriber_name, "n");
    assert_eq!(copy.subscriber_email, "e");
}

#[test]
fn the_insert_names_all_four_columns_in_order() {
    assert_eq!(
        INSERT_STATEMENT,
        "INSERT INTO subscriptions (id, email, name, subscribed_at) VALUES ($1, $2, $3, $4)"
    );
}

#[test]
fn insert_subscriber_hands_out_the_record_under_its_context() {
    let at = Timestamp { seconds: 5, nanos: 6 };
    let record = SubscriberRecord::assemble(9, at, form("n", "e"));
    let span = RequestSpan::open(41, &form("n", "e"));
    let command = insert_subscriber(record, span);
    assert_eq!(command.parent.request_id, 41);
    assert_eq!(command.record.id, 9);
    assert_eq!(command.record.name, "n");
    assert_eq!(command.record.email, "e");
    assert_eq!(command.record.subscribed_at, at);
    let copy = command.clone();
    assert_eq!(copy.parent.request_id, 41);
    assert_eq!(copy.record.id, 9);
}

#[test]
fn the_parameters_follow_the_columns_of_the_statement() {
    let at = Timestamp { seconds: 5, nanos: 6 };
    let record = SubscriberRecord::assemble(9, at, form("the name", "the email"));
    let span = RequestSpan::open(41, &form("the name", "the email"));
    let bound = insert_subscriber(record, span).parameters();
    assert_eq!(bound.len(), 4);
    assert!(matches!(bound[0], Parameter::Identifier(9)));
    match &bound[1] {
        Parameter::Text(email) => assert_eq!(email, "the email"),
        other => panic!("unexpected parameter {:?}", other),
    }
    match &bound[2] {
        Parameter::Text(name) => assert_eq!(name, "the name"),
        other => panic!("unexpected parameter {:?}", other),
    }
    match &bound[3] {
        Parameter::Instant(instant) => assert_eq!(*instant, at),
        other => panic!("unexpected parameter {:?}", other),
    }
}

#[test]
fn a_failed_insert_keeps_request_record_and_cause() {
    let at = Timestamp { seconds: 5, nanos: 6 };
    let record = SubscriberRecord::assemble(9, at, form("n", "e"));
    let span = RequestSpan::open(41, &form("n", "e"));
    let command = insert_subscriber(record, span);
    let entry = command.failed(PersistenceFailure { cause: "pool timed out".to_string() });
    assert_eq!(entry.context.request_id, 41);
    assert_eq!(entry.record.id, 9);
    assert_eq!(entry.record.name, "n");
    assert_eq!(entry.cause, "pool timed out");
}

// The handler, step by step.

#[test]
fn a_new_request_has_read_nothing() {
    assert!(matches!(Intake::new(), Intake::Received));
}

#[test]
fn the_body_takes_a_request_to_decoding() {
    let (state, action) = Intake::new().step_with(Event::Body(BODY.to_vec()), stamp(1, 2, 3, 4));
    match state {
        Intake::Decoding { body } => assert_eq!(body, BODY.to_vec()),
        other => panic!("unexpected state {:?}", other),
    }
    assert!(matches!(action, Action::Continue));
}

#[test]
fn a_decodable_body_takes_a_request_to_constructing() {
    let state = Intake::Decoding { body: BODY.to_vec() };
    let (state, action) = state.step_with(Event::Proceed, stamp(1, 2, 3, 4));
    match state {
        Intake::Constructing { form } => {
            assert_eq!(form.name, "the test guy");
            assert_eq!(form.email, "the_test_guy@gmail.com");
        }
        other => panic!("unexpected state {:?}", other),
    }
    assert!(matches!(action, Action::Continue));
}

#[test]
fn an_undecodable_body_ends_the_request_with_400() {
    let state = Intake::Decoding { body: b"name=only".to_vec() };
    let (state, action) = state.step_with(Event::Proceed, stamp(1, 2, 3, 4));
    assert!(matches!(state, Intake::Failed { kind: FailureKind::ClientInput }));
    match action {
        Action::Respond { response, error } => {
            assert_eq!(response.status, 400);
            assert!(response.body.is_empty());
            assert!(error.is_none());
        }
        other => panic!("unexpected action {:?}", other),
    }
}

#[test]
fn constructing_issues_the_insert_under_the_stamp() {
    let state = Intake::Constructing { form: form("n", "e") };
    let (state, action) = state.step_with(Event::Proceed, stamp(11, 22, 33, 44));
    match state {
        Intake::Persisting { command } => {
            assert_eq!(command.parent.request_id, 11);
            assert_eq!(command.parent.subscriber_name, "n");
            assert_eq!(command.parent.subscriber_email, "e");
            assert_eq!(command.record.id, 22);
            assert_eq!(command.record.name, "n");
            assert_eq!(command.record.email, "e");
            assert_eq!(command.record.subscribed_at, Timestamp { seconds: 33, nanos: 44 });
        }
        other => panic!("unexpected state {:?}", other),
    }
    match action {
        Action::Persist(command) => {
            assert_eq!(command.parent.request_id, 11);
            assert_eq!(command.record.id, 22);
            assert_eq!(command.record.name, "n");
            assert_eq!(command.record.email, "e");
            assert_eq!(command.record.subscribed_at, Timestamp { seconds: 33, nanos: 44 });
        }
        other => panic!("unexpected action {:?}", other),
    }
}

fn persisting() -> Intake {
    let at = Timestamp { seconds: 5, nanos: 6 };
    let record = SubscriberRecord::assemble(9, at, form("n", "e"));
    let span = RequestSpan::open(41, &form("n", "e"));
    Intake::Persisting { command: insert_subscriber(record, span) }
}

#[test]
fn a_stored_record_ends_the_request_with_200() {
    let (state, action) = persisting().step_with(Event::Stored, stamp(1, 2, 3, 4));
    assert!(matches!(state, Intake::Succeeded));
    match action {
        Action::Respond { response, error } => {
            assert_eq!(response.status, 200);
            assert!(response.body.is_empty());
            assert!(error.is_none());
        }
        other => panic!("unexpected action {:?}", other),
    }
}

#[test]
fn a_failed_store_ends_the_request_with_500_and_an_error_entry() {
    let failure = PersistenceFailure { cause: "duplicate key".to_string() };
    let (state, action) = persisting().step_with(Event::StoreFailed(failure), stamp(1, 2, 3, 4));
    assert!(matches!(state, Intake::Failed { kind: FailureKind::Persistence }));
    match action {
        Action::Respond { response, error } => {
            assert_eq!(response.status, 500);
            assert!(response.body.is_empty());
            let entry = error.expect("the failure is recorded");
            assert_eq!(entry.context.request_id, 41);
            assert_eq!(entry.record.id, 9);
            assert_eq!(entry.cause, "duplicate key");
        }
        other => panic!("unexpected action {:?}", other),
    }
}

#[test]
fn a_finished_request_takes_no_further_event() {
    let failure = || Event::StoreFailed(PersistenceFailure { cause: "late".to_string() });
    let events = vec![Event::Body(BODY.to_vec()), Event::Proceed, Event::Stored, failure()];
    for event in events {
        let (state, action) = Intake::Succeeded.step_with(event, stamp(1, 2, 3, 4));
        assert!(matches!(state, Intake::Succeeded));
        assert!(matches!(action, Action::Idle));
    }
    let events = vec![Event::Body(BODY.to_vec()), Event::Proceed, Event::Stored, failure()];
    for event in events {
        let failed = Intake::Failed { kind: FailureKind::Persistence };
        let (state, action) = failed.step_with(event, stamp(1, 2, 3, 4));
        assert!(matches!(state, Intake::Failed { kind: FailureKind::Persistence }));
        assert!(matches!(action, Action::Idle));
    }
}

#[test]
fn an_event_that_does_not_fit_changes_nothing() {
    let (state, action) = Intake::new().step_with(Event::Proceed, stamp(1, 2, 3, 4));
    assert!(matches!(state, Intake::Received));
    assert!(matches!(action, Action::Idle));

    let (state, action) = Intake::new().step_with(Event::Stored, stamp(1, 2, 3, 4));
    assert!(matches!(state, Intake::Received));
    assert!(matches!(action, Action::Idle));

    let decoding = Intake::Decoding { body: BODY.to_vec() };
    let (state, action) = decoding.step_with(Event::Stored, stamp(1, 2, 3, 4));
    assert!(matches!(state, Intake::Decoding { .. }));
    assert!(matches!(action, Action::Idle));

    let constructing = Intake::Constructing { form: form("n", "e") };
    let (state, action) = constructing.step_with(Event::Body(Vec::new()), stamp(1, 2, 3, 4));
    assert!(matches!(state, Intake::Constructing { .. }));
    assert!(matches!(action, Action::Idle));

    let (state, action) = persisting().step_with(Event::Proceed, stamp(1, 2, 3, 4));
    match state {
        Intake::Persisting { command } => assert_eq!(command.record.id, 9),
        other => panic!("unexpected state {:?}", other),
    }
    assert!(matches!(action, Action::Idle));
}

#[test]
fn subscribe_takes_a_body_as_far_as_the_store() {
    let (state, action) = subscribe(Intake::new(), Event::Body(BODY.to_vec()));
    let fixed_bits = 0x0000_0000_0000_f000_c000_0000_0000_0000u128;
    let version_4 = 0x0000_0000_0000_4000_8000_0000_0000_0000u128;
    match (state, action) {
        (Intake::Persisting { command }, Action::Persist(issued)) => {
            assert_eq!(command.record.id & fixed_bits, version_4);
            assert_eq!(command.parent.request_id & fixed_bits, version_4);
            assert_ne!(command.record.id, command.parent.request_id);
            assert_eq!(command.record.id, issued.record.id);
            assert_eq!(command.parent.request_id, issued.parent.request_id);
            assert_eq!(command.record.subscribed_at, issued.record.subscribed_at);
            assert!(command.record.subscribed_at.nanos < 1_000_000_000);
            assert_eq!(issued.record.name, "the test guy");
            assert_eq!(issued.record.email, "the_test_guy@gmail.com");
            assert_eq!(issued.parent.subscriber_name, "the test guy");
            assert_eq!(issued.parent.subscriber_email, "the_test_guy@gmail.com");
        }
        other => panic!("unexpected step {:?}", other),
    }
}

#[test]
fn subscribe_refuses_a_body_without_going_to_the_store() {
    let (state, action) = subscribe(Intake::new(), Event::Body(b"name=only".to_vec()));
    assert!(matches!(state, Intake::Failed { kind: FailureKind::ClientInput }));
    match action {
        Action::Respond { response, error } => {
            assert_eq!(response.status, 400);
            assert!(response.body.is_empty());
            assert!(error.is_none());
        }
        other => panic!("unexpected action {:?}", other),
    }
}

#[test]
fn subscribe_goes_on_from_any_state_that_needs_nothing_from_outside() {
    let decoding = Intake::Decoding { body: BODY.to_vec() };
    let (state, action) = subscribe(decoding, Event::Proceed);
    assert!(matches!(state, Intake::Persisting { .. }));
    assert!(matches!(action, Action::Persist(_)));

    let constructing = Intake::Constructing { form: form("n", "e") };
    let (state, action) = subscribe(constructing, Event::Proceed);
    assert!(matches!(state, Intake::Persisting { .. }));
    assert!(matches!(action, Action::Persist(_)));
}

#[test]
fn subscribe_never_asks_to_continue() {
    let states = vec![
        Intake::new(),
        Intake::Decoding { body: BODY.to_vec() },
        Intake::Decoding { body: Vec::new() },
        Intake::Constructing { form: form("n", "e") },
        persisting(),
        Intake::Succeeded,
        Intake::Failed { kind: FailureKind::ClientInput },
    ];
    for state in states {
        let (_, action) = subscribe(state, Event::Proceed);
        assert!(!action.asks_to_continue());
    }
    let (_, action) = subscribe(Intake::new(), Event::Body(BODY.to_vec()));
    assert!(!action.asks_to_continue());
}

#[test]
fn subscribe_ends_the_request_on_the_answer_of_the_store() {
    let (state, action) = subscribe(persisting(), Event::Stored);
    assert!(matches!(state, Intake::Succeeded));
    match action {
        Action::Respond { response, error } => {
            assert_eq!(response.status, 200);
            assert!(error.is_none());
        }
        other => panic!("unexpected action {:?}", other),
    }

    let failure = PersistenceFailure { cause: "unreachable".to_string() };
    let (state, action) = subscribe(persisting(), Event::StoreFailed(failure));
    assert!(matches!(state, Intake::Failed { kind: FailureKind::Persistence }));
    match action {
        Action::Respond { response, error } => {
            assert_eq!(response.status, 500);
            assert_eq!(error.expect("the failure is recorded").cause, "unreachable");
        }
        other => panic!("unexpected action {:?}", other),
    }
}

#[test]
fn subscribe_leaves_alone_what_an_event_does_not_concern() {
    let (state, action) = subscribe(Intake::Succeeded, Event::Proceed);
    assert!(matches!(state, Intake::Succeeded));
    assert!(matches!(action, Action::Idle));

    let (state, action) = subscribe(Intake::new(), Event::Stored);
    assert!(matches!(state, Intake::Received));
    assert!(matches!(action, Action::Idle));

    let (state, action) = subscribe(persisting(), Event::Body(BODY.to_vec()));
    assert!(matches!(state, Intake::Persisting { .. }));
    assert!(matches!(action, Action::Idle));
}

#[test]
fn asks_to_continue_tells_continue_from_the_rest() {
    assert!(Action::Continue.asks_to_continue());
    assert!(!Action::Idle.asks_to_continue());
    let at = Timestamp { seconds: 5, nanos: 6 };
    let record = SubscriberRecord::assemble(9, at, form("n", "e"));
    let span = RequestSpan::open(41, &form("n", "e"));
    assert!(!Action::Persist(insert_subscriber(record, span)).asks_to_continue());
}

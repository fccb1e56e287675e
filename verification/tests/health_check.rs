use zero2prod::diagnostics::ErrorRecord;
use zero2prod::gateway::PersistenceFailure;
use zero2prod::intake::{subscribe, Action, Event, Intake};
use zero2prod::outcome::{health_check, Response};
use zero2prod::record::SubscriberRecord;

/// Serves one POST to `/subscriptions` against a store held in memory:
/// `rows` is the table, and `store_up` says whether the store can be reached.
fn post_subscription(
    body: &str,
    store_up: bool,
    rows: &mut Vec<SubscriberRecord>,
) -> (Response, Option<ErrorRecord>) {
    let (state, action) = subscribe(Intake::new(), Event::Body(body.as_bytes().to_vec()));
    let action = match action {
        Action::Persist(command) => {
            let answer = if store_up {
                rows.push(command.record);
                Event::Stored
            } else {
                Event::StoreFailed(PersistenceFailure { cause: "connection refused".to_string() })
            };
            subscribe(state, answer).1
        }
        other => other,
    };
    match action {
        Action::Respond { response, error } => (response, error),
        other => panic!("the handler did not answer the request: {:?}", other),
    }
}

#[test]
fn health_check_works() {
    // Act
    let response = health_check();

    // Assert
    assert!((200..300).contains(&response.status));
    assert_eq!(0, response.body.len());
}

#[test]
fn subscribe_returns_a_200_for_valid_form_data() {
    // Arrange
    let mut rows = Vec::new();

    // Act
    let body = "name=the%20test%20guy&email=the_test_guy%40gmail.com";
    let (response, error) = post_subscription(body, true, &mut rows);

    // Assert
    assert_eq!(200, response.status);
    assert!(response.body.is_empty());
    assert!(error.is_none());

    assert_eq!(rows.len(), 1);
    let saved = &rows[0];
    assert_eq!(saved.name, "the test guy");
    assert_eq!(saved.email, "the_test_guy@gmail.com")
}

#[test]
fn subscribe_returns_a_400_when_data_is_missing() {
    // Arrange
    let mut rows = Vec::new();
    let test_cases = vec![
        ("name=te%20test%40guy", "missing the email"),
        ("email=the_test_guy%40gmail.com", "missing the name"),
        ("", "missing both name and email"),
    ];

    for (test_body, error_message) in test_cases {
        // Act
        let (response, error) = post_subscription(test_body, true, &mut rows);

        // Assert
        assert_eq!(
            400, response.status,
            "Expected a 400 response code because the test payload was {}",
            error_message
        );
        assert!(response.body.is_empty());
        assert!(error.is_none());
        assert!(rows.is_empty());
    }
}

#[test]
fn health_check_does_not_depend_on_the_store() {
    let mut rows = Vec::new();
    let body = "name=the%20test%20guy&email=the_test_guy%40gmail.com";
    let (failed, _) = post_subscription(body, false, &mut rows);
    assert_eq!(500, failed.status);

    let response = health_check();
    assert_eq!(200, response.status);
    assert!(response.body.is_empty());
}

#[test]
fn subscribe_returns_a_500_when_the_store_is_unreachable() {
    let mut rows = Vec::new();
    let body = "name=the%20test%20guy&email=the_test_guy%40gmail.com";

    let (response, error) = post_subscription(body, false, &mut rows);

    assert_eq!(500, response.status);
    assert!(response.body.is_empty());
    assert!(rows.is_empty());
    let entry = error.expect("a failed insert leaves an error entry");
    assert_eq!(entry.cause, "connection refused");
    assert_eq!(entry.record.name, "the test guy");
    assert_eq!(entry.record.email, "the_test_guy@gmail.com");
    assert_eq!(entry.context.subscriber_name, "the test guy");
    assert_eq!(entry.context.subscriber_email, "the_test_guy@gmail.com");
}

#[test]
fn subscribing_twice_with_the_same_form_stores_two_records() {
    let mut rows = Vec::new();
    let body = "name=the%20test%20guy&email=the_test_guy%40gmail.com";

    let (first, _) = post_subscription(body, true, &mut rows);
    let (second, _) = post_subscription(body, true, &mut rows);

    assert_eq!(200, first.status);
    assert_eq!(200, second.status);
    assert_eq!(rows.len(), 2);
    assert_ne!(rows[0].id, rows[1].id);
    assert_eq!(rows[0].name, rows[1].name);
    assert_eq!(rows[0].email, rows[1].email);
}

#[test]
fn stored_identifiers_are_pairwise_distinct() {
    let mut rows = Vec::new();
    for n in 0..50 {
        let body = format!("name=subscriber%20{}&email=s{}%40example.com", n, n);
        let (response, _) = post_subscription(&body, true, &mut rows);
        assert_eq!(200, response.status);
    }
    assert_eq!(rows.len(), 50);
    for i in 0..rows.len() {
        for j in (i + 1)..rows.len() {
            assert_ne!(rows[i].id, rows[j].id);
        }
    }
}

#[test]
fn a_later_subscription_is_not_recorded_earlier() {
    let mut rows = Vec::new();
    let (_, _) = post_subscription("name=a&email=a%40example.com", true, &mut rows);
    let (_, _) = post_subscription("name=b&email=b%40example.com", true, &mut rows);

    assert_eq!(rows.len(), 2);
    assert!(rows[1].subscribed_at >= rows[0].subscribed_at);
}

#[test]
fn a_failed_subscription_does_not_keep_a_later_one_from_being_stored() {
    let mut rows = Vec::new();
    let body = "name=the%20test%20guy&email=the_test_guy%40gmail.com";

    let (failed, _) = post_subscription(body, false, &mut rows);
    let (stored, _) = post_subscription(body, true, &mut rows);

    assert_eq!(500, failed.status);
    assert_eq!(200, stored.status);
    assert_eq!(rows.len(), 1);
}

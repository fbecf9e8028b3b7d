use registration_hub::data::{Registrations, Timestamp};
use registration_hub::error::Error;
use registration_hub::protocol::{Message, Request};

#[test]
fn unique_violation_code_is_recognised() {
    assert_eq!(Error::from_sql_state(Some("23505")), Error::UniquenessViolation);
}

#[test]
fn other_sql_states_are_query_failures() {
    assert_eq!(Error::from_sql_state(Some("42P01")), Error::QueryFailed);
    assert_eq!(Error::from_sql_state(Some("23503")), Error::QueryFailed);
    assert_eq!(Error::from_sql_state(Some("")), Error::QueryFailed);
    assert_eq!(Error::from_sql_state(None), Error::QueryFailed);
}

#[test]
fn every_error_has_a_message() {
    let all = [
        Error::AuthenticationFailed,
        Error::StoreUnavailable,
        Error::QueryFailed,
        Error::UniquenessViolation,
        Error::SerializationFailed,
    ];
    for e in all.iter() {
        assert!(!e.message().is_empty());
    }
    assert_eq!(Error::AuthenticationFailed.message(), "the request was unauthorised");
}

#[test]
fn timestamp_rejects_a_full_second_of_nanos() {
    assert_eq!(
        Timestamp::new(10, 999_999_999),
        Some(Timestamp { secs: 10, nanos: 999_999_999 })
    );
    assert_eq!(Timestamp::new(10, 1_000_000_000), None);
    assert_eq!(Timestamp::new(-5, 0), Some(Timestamp { secs: -5, nanos: 0 }));
}

#[test]
fn snapshot_carries_no_outcome() {
    let last = Timestamp { secs: 1_700_000_000, nanos: 5 };
    let agg = Registrations { total: 42, last_registered: Some(last) };
    assert_eq!(
        Message::snapshot(agg),
        Message::Registered { total: 42, address: None, last_registered: Some(last) }
    );
}

#[test]
fn outcome_carries_the_match() {
    let agg = Registrations { total: 0, last_registered: None };
    assert_eq!(
        Message::outcome(agg, false),
        Message::Registered { total: 0, address: Some(false), last_registered: None }
    );
    assert_eq!(
        Message::outcome(agg, true),
        Message::Registered { total: 0, address: Some(true), last_registered: None }
    );
}

#[test]
fn request_address_is_its_identifier() {
    let r = Request::Register { address: "abc123".to_string() };
    assert_eq!(r.address(), "abc123");
    let c = Request::Check { address: "xyz".to_string() };
    assert_eq!(c.address(), "xyz");
}

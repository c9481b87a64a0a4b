//! What leaves a box, and how.

use hemsd::report::{
    dated_message, day_message, days_endpoint, delivered, is_confidential, report_day,
    stays_confidential, DayReport, DeliveryError, Do, NotConfidential, Reported, Sent,
};
use time::{Date, Month};

#[test]
fn a_rate_limit_is_the_one_client_error_worth_retrying() {
    assert!(DeliveryError::from_status(429).is_transient());
    assert!(DeliveryError::from_status(503).is_transient());
    assert!(DeliveryError::from_status(500).is_transient());

    assert!(!DeliveryError::from_status(400).is_transient());
    assert!(!DeliveryError::from_status(401).is_transient());
    assert!(!DeliveryError::from_status(404).is_transient());
    assert!(!DeliveryError::from_status(422).is_transient());
}

#[test]
fn a_day_never_leaves_a_box_in_the_clear() {
    assert!(is_confidential("https://fleet.example/v1/days").is_ok());
    assert!(is_confidential("http://127.0.0.1:8080/v1/days").is_ok());
    assert!(is_confidential("http://localhost:8080/v1/days").is_ok());
    assert!(is_confidential("http://[::1]:8080/v1/days").is_ok());

    assert!(
        is_confidential("http://fleet.example/v1/days").is_err(),
        "a household's day is personal data, and plain http across a network publishes it"
    );
}

#[test]
fn an_address_that_is_none_is_told_apart_from_one_in_the_clear() {
    let why = is_confidential("fleet").expect_err("it is no URL");
    assert!(matches!(why, NotConfidential::NotAUrl(_)));
    assert_eq!(why.message(), "relative URL without a base");
    assert!(matches!(
        is_confidential("http://10.0.0.1/v1/days"),
        Err(NotConfidential::InTheClear(_))
    ));
}

#[test]
fn only_the_box_itself_is_close_enough_for_plain_text() {
    assert!(stays_confidential("https", None));
    assert!(stays_confidential("http", Some("127.255.0.9")));
    assert!(stays_confidential("http", Some("[::1]")));
    assert!(!stays_confidential("http", Some("128.0.0.1")));
    assert!(!stays_confidential("http", Some("127.0.0.1.example")));
    assert!(!stays_confidential("http", None));
    assert!(!stays_confidential("ftp", Some("example.org")));
    assert!(!stays_confidential("ftp", Some("127.0.0.1")), "nothing but http is accepted there");
    assert!(is_confidential("ftp://127.0.0.1/v1/days").is_err());
}

#[test]
fn a_delivery_is_judged_by_its_status() {
    assert!(delivered(Ok(204)).is_ok());
    let refused = delivered(Ok(422)).expect_err("it was read and will not be had");
    assert!(!refused.is_transient());
    let down = delivered(Err("connection refused".to_string())).expect_err("nobody answered");
    assert!(down.is_transient());
    assert!(down.message().contains("connection refused"));
}

#[test]
fn the_same_day_of_the_same_household_is_the_same_message() {
    let m = dated_message("haus-1", "2026-01-15");
    assert_eq!(m.source, "hems://sites/haus-1");
    assert_eq!(m.id, "haus-1:2026-01-15");
    assert_eq!(m.subject, "2026-01-15");
    let day = Date::from_calendar_date(2026, Month::January, 15).expect("a date").to_julian_day();
    assert_eq!(day_message("haus-1", day).id, m.id);
    assert_ne!(day_message("haus-1", day + 1).id, m.id);
}

#[test]
fn a_day_goes_to_one_place_however_the_address_ends() {
    assert_eq!(days_endpoint("https://fleet.example//"), "https://fleet.example/v1/days");
    assert_eq!(days_endpoint("https://fleet.example"), "https://fleet.example/v1/days");
}

#[test]
fn a_day_that_was_not_taken_is_queued_where_there_is_somewhere_to_queue_it() {
    assert_eq!(report_day(Some(202), true), Sent::Taken);
    assert_eq!(report_day(Some(500), false), Sent::Queued);
    assert_eq!(report_day(None, true), Sent::Unreachable);
    assert_eq!(report_day(None, false), Sent::Lost);
}

#[test]
fn a_day_in_the_clear_is_neither_queued_nor_sent() {
    let why = DayReport::begin("http://fleet.example/", true).expect_err("it would publish the day");
    assert!(why.message().starts_with("http://fleet.example/v1/days would send"));
}

#[test]
fn a_day_is_queued_and_only_afterwards_sent_and_marked() {
    let (mut report, first) = DayReport::begin("https://fleet.example/", true).expect("inside TLS");
    assert_eq!(report.sends_to(), "https://fleet.example/v1/days");
    assert_eq!(first, Do::Queue);
    assert_eq!(report.on(Reported::Answered(Some(202))), Do::Nothing, "it has not been sent");
    assert_eq!(report.on(Reported::Queued(7)), Do::Send);
    assert_eq!(report.on(Reported::Answered(Some(202))), Do::Mark(7));
    assert_eq!(report.on(Reported::Marked), Do::Finish(Sent::Taken));
    assert_eq!(report.on(Reported::Marked), Do::Nothing);
}

#[test]
fn a_send_that_fails_leaves_the_day_in_the_backlog() {
    for (answer, sent) in [(Some(503), Sent::Queued), (None, Sent::Unreachable)] {
        let (mut report, _) = DayReport::begin("https://fleet.example", true).expect("inside TLS");
        assert_eq!(report.on(Reported::Queued(7)), Do::Send);
        assert_eq!(report.on(Reported::Answered(answer)), Do::Finish(sent));
    }
    let (mut report, first) = DayReport::begin("http://localhost", false).expect("this machine");
    assert_eq!(first, Do::Send, "there is nowhere to queue it");
    assert_eq!(report.on(Reported::Answered(None)), Do::Finish(Sent::Lost));
    let (mut report, _) = DayReport::begin("https://fleet.example", true).expect("inside TLS");
    assert_eq!(report.on(Reported::StoreFailed), Do::Fail);
}

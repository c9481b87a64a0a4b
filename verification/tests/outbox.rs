//! What a box forwards, and what it does where nobody takes it.

use hemsd::report::DeliveryError;
use hemsd::runtime::outbox::{
    accepted, default_batch, default_every_s, Drain, HistdSettings, NotForwarding, Note,
    ObsdSettings, Outbox, Reporter,
};

fn text(s: &str) -> Option<String> {
    Some(s.to_string())
}

#[test]
fn nobody_configured_is_nobody_told() {
    assert!(!HistdSettings::default().is_configured());
    assert!(!ObsdSettings::default().is_configured());
    assert!(Reporter::new(&ObsdSettings::default(), Ok(vec![])).expect("no fault").is_none());
    assert!(Outbox::new(&HistdSettings::default(), Ok(String::new())).expect("no fault").is_none());
    assert_eq!(default_every_s(), 300);
    assert_eq!(default_batch(), 50);
}

#[test]
fn a_fleet_without_a_credential_would_refuse_everything() {
    let settings = ObsdSettings { url: text("https://fleet.example"), secret: None };
    let err = Reporter::new(&settings, Ok(vec![])).expect_err("no secret");
    assert!(matches!(err, NotForwarding::NoSecret));
    assert_eq!(err.message(), "an `obsd` is configured with no secret, and it will refuse every day");

    let settings = HistdSettings {
        url: text("https://histd.example"),
        site: text("haus-1"),
        token: None,
        every_s: 300,
        batch: 50,
    };
    let err = Outbox::new(&settings, Ok(String::new())).expect_err("no token");
    assert!(matches!(err, NotForwarding::NoToken));
}

#[test]
fn a_reporter_sends_in_confidence_or_not_at_all() {
    let open = ObsdSettings { url: text("http://fleet.example"), secret: text("file:/x") };
    assert!(matches!(
        Reporter::new(&open, Ok(vec![1])).expect_err("in the clear"),
        NotForwarding::Exposed(_)
    ));
    let safe = ObsdSettings { url: text("https://fleet.example/"), secret: text("file:/x") };
    assert!(matches!(
        Reporter::new(&safe, Err("no such file".to_string())).expect_err("unresolved"),
        NotForwarding::Unresolved(_)
    ));
    let reporter = Reporter::new(&safe, Ok(vec![1, 2])).expect("no fault").expect("configured");
    assert_eq!(reporter.sends_to(), "https://fleet.example/v1/days");
    assert_eq!(reporter.signs_with(), &[1, 2]);
}

#[test]
fn an_outbox_sends_at_least_one_row_at_a_time() {
    let settings = HistdSettings {
        url: text("https://histd.example/"),
        site: text("haus-1"),
        token: text("env:TOKEN"),
        every_s: 0,
        batch: 0,
    };
    let outbox = Outbox::new(&settings, Ok("t".to_string())).expect("no fault").expect("configured");
    assert_eq!(outbox.sends_to(), "https://histd.example/v1/sites/haus-1/events");
    assert_eq!(outbox.bearer(), "t");
    assert_eq!(outbox.rows_at_once(), 1);
}

#[test]
fn an_outage_ends_the_round_and_what_landed_is_marked() {
    let mut drain = Drain::new(vec![4, 5, 6]);
    assert_eq!(drain.wanted(), Some(4));
    assert!(matches!(drain.reported(Ok(())), Note::Nothing));
    assert_eq!(drain.wanted(), Some(5));
    let note = drain.reported(Err(DeliveryError::Transient("503".to_string())));
    assert!(matches!(note, Note::Attempted(said) if said == "the fleet did not take it, and might later: 503"));
    assert_eq!(drain.wanted(), None, "a fleet that is down is asked once");
    assert_eq!(drain.landed(), Some(vec![4]));
}

#[test]
fn a_refusal_holds_nothing_up() {
    let mut drain = Drain::new(vec![4, 5]);
    let note = drain.reported(Err(DeliveryError::Permanent("422".to_string())));
    assert!(matches!(note, Note::Abandoned(said) if said == "the fleet refused it, and will refuse it again: 422"));
    assert_eq!(drain.wanted(), Some(5));
    drain.forwarded(true);
    assert_eq!(drain.wanted(), None);
    assert_eq!(drain.landed(), Some(vec![5]));
    assert_eq!(Drain::new(vec![]).landed(), None);
}

#[test]
fn a_row_nobody_took_ends_the_round() {
    let mut drain = Drain::new(vec![1, 2]);
    drain.forwarded(false);
    assert_eq!(drain.wanted(), None);
    assert_eq!(drain.landed(), None);
}

#[test]
fn a_status_is_shown_where_it_is_no_success() {
    assert_eq!(accepted(200, "200 OK"), Ok(()));
    assert_eq!(accepted(199, "199"), Err("the fleet answered 199".to_string()));
    assert_eq!(accepted(300, "300"), Err("the fleet answered 300".to_string()));
}

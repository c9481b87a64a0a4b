//! What an energy manager asks of a household, and what it is told.

use hemsd::clock::{Instant, SECOND};
use hemsd::drivers::{DriverCapabilities, DriverEvent, LinkState, Measurement, Registry};
use hemsd::names::ByName;
use hemsd::runtime::api::NOT_FOUND;
use hemsd::runtime::s2::{
    fill_of, read_text, report_of, upgrade, write_text, Cem, Frame, Instructed, Interval, Occurred, Report, S2Settings, Serving,
    SessionEvent, Store, Turn, Wanted,
};
use hemsd::site::{Asset, Site};
use s2_kit::types::Id;

/// 2026-01-15 12:00:00 UTC.
const NOW: Instant = 1_768_478_400 * SECOND;

fn id(text: &str) -> Id {
    Id::parse(text).expect("an identifier")
}

fn settings() -> S2Settings {
    S2Settings { enabled: true, ..S2Settings::default() }
}

#[test]
fn the_surface_is_off_until_it_is_asked_for() {
    let s = S2Settings::default();
    assert!(!s.enabled);
    assert_eq!(s.instruction_for(), 900 * SECOND);
    assert_eq!(s.report_period(), 5);
    assert_eq!(S2Settings { report_every_secs: 0, ..s }.report_period(), 1);
}

#[test]
fn an_instruction_is_believed_for_a_while_and_no_longer() {
    let mut cem = Cem::new();
    let events = vec![
        SessionEvent::Ready,
        SessionEvent::Instructed(Instructed::Power(3_000_000), id("first")),
    ];
    assert!(!cem.apply("wallbox", &events, &settings(), NOW));
    let active = cem.active(NOW);
    let request = active.get("wallbox").expect("a request");
    assert_eq!(request.wanted, Wanted::Power(3_000_000));
    assert_eq!(request.until, NOW + 900 * SECOND);
    assert!(cem.active(NOW + 900 * SECOND).is_empty());
}

#[test]
fn what_the_arbiter_does_not_act_on_is_counted() {
    let mut cem = Cem::new();
    let events = vec![
        SessionEvent::Instructed(Instructed::SgReady, id("a1")),
        SessionEvent::Instructed(Instructed::Start, id("a2")),
        SessionEvent::Instructed(Instructed::Envelope(None), id("a3")),
        SessionEvent::Refused,
    ];
    assert!(!cem.apply("wallbox", &events, &settings(), NOW));
    let status = cem.status(NOW);
    assert_eq!((status.unactioned, status.refused), (3, 1));
    assert!(status.instructing.is_empty());
}

#[test]
fn an_abort_is_told_once() {
    let mut cem = Cem::new();
    let interval = Interval { low: 0, high: 4_000_000 };
    let events = vec![SessionEvent::Instructed(Instructed::Envelope(Some(interval)), id("first"))];
    cem.apply("wallbox", &events, &settings(), NOW);
    assert!(cem.owed_abort("wallbox").is_none(), "nothing overrides it");

    let mut overridden = ByName::new();
    overridden.insert("wallbox".to_string(), "steuve".to_string());
    overridden.insert("battery".to_string(), "fuse".to_string());
    cem.note_overrides(overridden);
    let (instruction, rule) = cem.owed_abort("wallbox").expect("it is owed one");
    assert_eq!((instruction, rule.as_str()), (id("first"), "steuve"));
    assert!(cem.owed_abort("wallbox").is_none(), "and it has been told");
    let status = cem.status(NOW);
    assert_eq!(status.overridden, vec![("wallbox".to_string(), "steuve".to_string())]);

    let again = vec![SessionEvent::Instructed(Instructed::Power(0), id("second"))];
    cem.apply("wallbox", &again, &settings(), NOW);
    assert_eq!(cem.owed_abort("wallbox").map(|(i, _)| i), Some(id("second")));
}

#[test]
fn a_released_device_is_nobodys_and_the_connection_stays() {
    let mut cem = Cem::new();
    let ask = vec![
        SessionEvent::Ready,
        SessionEvent::Instructed(Instructed::Power(1), id("first")),
    ];
    cem.apply("wallbox", &ask, &settings(), NOW);
    cem.apply("battery", &ask, &settings(), NOW);
    assert!(!cem.apply("wallbox", &vec![SessionEvent::Released], &settings(), NOW));
    let status = cem.status(NOW);
    assert_eq!(status.connected, vec!["battery".to_string()]);
    assert_eq!(status.instructing, vec!["battery".to_string()]);
    assert!(cem.apply("battery", &vec![SessionEvent::Closed, SessionEvent::Refused], &settings(), NOW));
    cem.closed("battery");
    assert!(cem.status(NOW).connected.is_empty());
}

#[test]
fn the_box_speaks_first_and_says_everything_before_it_listens() {
    let (at, turn) = Serving::opened();
    assert_eq!((at, turn), (Serving::Sending, Turn::Transmit));
    let (at, turn) = at.serve(Occurred::Sent);
    assert_eq!((at, turn), (Serving::Sending, Turn::Transmit));
    assert_eq!(at.serve(Occurred::Unencodable).0, Serving::Sending);
    assert_eq!(at.serve(Occurred::SendFailed), (Serving::Listening, Turn::Wait));
    let (at, turn) = at.serve(Occurred::NothingQueued);
    assert_eq!((at, turn), (Serving::Listening, Turn::Wait));
    let (at, turn) = at.serve(Occurred::Brought(Frame::Message));
    assert_eq!((at, turn), (Serving::Settling, Turn::Deliver));
    assert_eq!(at.serve(Occurred::Applied(false)), (Serving::Sending, Turn::Transmit));
    assert_eq!(at.serve(Occurred::Applied(true)), (Serving::Over, Turn::Close));
}

#[test]
fn a_frame_nobody_can_read_is_no_reason_to_hang_up() {
    let listening = Serving::Listening;
    assert_eq!(listening.serve(Occurred::Brought(Frame::Unreadable)), (Serving::Settling, Turn::Ignore));
    assert_eq!(listening.serve(Occurred::Brought(Frame::Other)), (Serving::Settling, Turn::Ignore));
    assert_eq!(listening.serve(Occurred::Brought(Frame::Closed)), (Serving::Over, Turn::Close));
    assert_eq!(listening.serve(Occurred::Brought(Frame::Failed)), (Serving::Over, Turn::Close));
    assert_eq!(listening.serve(Occurred::ReportDue), (Serving::Settling, Turn::Report));
}

#[test]
fn a_session_is_opened_on_a_device_the_household_has() {
    let site = Site {
        id: "haus".to_string(),
        assets: vec![Asset { id: "wallbox".to_string(), controllable: true, participates: true }],
    };
    assert!(upgrade("wallbox", true, &site).is_ok());
    let missing = upgrade("battery", true, &site).expect_err("no battery");
    assert_eq!((missing.status, missing.said.as_str()), (NOT_FOUND, "this household has no asset called `battery`"));
    let odd = upgrade("a b", false, &site).expect_err("no identifier");
    assert_eq!(odd.said, "`a b` is not a valid asset identifier");
}

#[test]
fn a_store_is_as_full_as_it_was_read() {
    let m = Measurement { at: NOW, power_mw: None, temperature_mc: None, soc_ppm: Some(500_000) };
    assert_eq!(fill_of(Some(Store::Battery(10_000_000)), &m), Some(5_000_000_000_000));
    assert_eq!(fill_of(Some(Store::Tank(Some(7))), &m), Some(7));
    assert_eq!(fill_of(Some(Store::Other), &m), None);
    assert_eq!(fill_of(None, &m), None);
    assert_eq!(fill_of(Some(Store::Battery(1)), &Measurement { soc_ppm: None, ..m }), None);
}

#[test]
fn a_resource_nobody_metered_reports_nothing_rather_than_nothing_left() {
    let site = Site {
        id: "haus".to_string(),
        assets: vec![Asset { id: "battery".to_string(), controllable: true, participates: true }],
    };
    let mut registry = Registry::new();
    let id = registry
        .register("battery".to_string(), DriverCapabilities::device(), NOW, &site)
        .expect("a driver");
    let store = Some(Store::Battery(10_000_000));
    let nothing = Report { power_mw: None, fill: None };
    assert_eq!(report_of(&registry.observe(None, NOW), "battery", store), nothing);
    registry.hear(id, DriverEvent::Link(LinkState::Up));
    let m = Measurement { at: NOW, power_mw: Some(-500_000), temperature_mc: None, soc_ppm: Some(250_000) };
    registry.hear(id, DriverEvent::Measured(m));
    assert_eq!(
        report_of(&registry.observe(None, NOW), "battery", store),
        Report { power_mw: Some(-500_000), fill: Some(2_500_000_000_000) }
    );
}

#[test]
fn a_text_frame_is_a_message_or_it_is_a_dialect() {
    let text = r#"{"message_type":"FRBC.StorageStatus",
        "message_id":"aaaaaaaa-0000-0000-0000-000000000001",
        "present_fill_level":52.0}"#;
    let (frame, message) = read_text(text);
    assert_eq!(frame, Frame::Message);
    let message = message.expect("a message");
    let (serving, turn) = Serving::Listening.serve(Occurred::Brought(frame));
    assert_eq!((serving, turn), (Serving::Settling, Turn::Deliver));

    let written = write_text(Some(&message)).expect("a text");
    assert!(written.contains("\"message_type\":\"FRBC.StorageStatus\""), "{written}");
    assert_eq!(read_text(&written).1, Some(message));

    for other in ["", "{}", "null", r#"{"message_type":"Gossip"}"#] {
        let (frame, message) = read_text(other);
        assert_eq!(frame, Frame::Unreadable, "{other}");
        assert!(message.is_none());
        assert_eq!(Serving::Listening.serve(Occurred::Brought(frame)).1, Turn::Ignore);
    }
    assert_eq!(write_text(None), Err(Occurred::NothingQueued));
}

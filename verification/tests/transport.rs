//! One socket and one driver: when to dial, when to sleep, whom to tell.

use eebus::model::{CmdClassifier, Datagram, Header, Payload};
use hemsd::clock::{Instant, SECOND};
use hemsd::drivers::LinkState;
use hemsd::runtime::transport::{
    clock_wait, incoming, outgoing, pump, session_wait, wait_until, Happened, Link, Next, Phase, Pump, Woken, IDLE,
};

const NOW: Instant = 1_768_478_400 * SECOND;

#[test]
fn a_deadline_that_has_passed_is_no_sleep_at_all() {
    assert_eq!(wait_until(NOW - SECOND, NOW), 0);
    assert_eq!(wait_until(NOW, NOW), 0);
    assert_eq!(wait_until(NOW + SECOND, NOW), SECOND);
    assert_eq!(session_wait(None, NOW), None);
    assert_eq!(session_wait(Some(NOW + 2 * SECOND), NOW), Some(2 * SECOND));
    assert_eq!(clock_wait(None, NOW), IDLE);
    assert_eq!(clock_wait(Some(NOW - 1), NOW), 0);
}

#[test]
fn a_frame_nobody_can_read_does_not_end_a_session() {
    assert_eq!(pump(Woken::Garbled), Pump::GoOn);
    assert_eq!(pump(Woken::Read(0)), Pump::End);
    assert_eq!(pump(Woken::Read(12)), Pump::Deliver(12));
    assert_eq!(pump(Woken::ReadFailed), Pump::End);
    assert_eq!(pump(Woken::WriteFailed), Pump::End);
    assert_eq!(pump(Woken::Deadline), Pump::Wake);
    assert_eq!(pump(Woken::Stopping), Pump::End);
}

#[test]
fn a_link_waits_longer_each_time_and_starts_over_once_it_is_up() {
    let mut link = Link::to_a_device();
    let mut waits = vec![];
    for _ in 0..8 {
        let failed = link.on(Happened::NotConnected);
        assert_eq!(failed.tell, None, "a device is told by its silence");
        if let Next::Sleep(s) = failed.next {
            waits.push(s);
        }
        assert_eq!(link.on(Happened::Slept).next, Next::Dial);
    }
    assert_eq!(waits, vec![1, 2, 4, 8, 16, 32, 60, 60]);
    let up = link.on(Happened::Connected);
    assert_eq!((up.tell, up.next), (Some(LinkState::Up), Next::Run));
    let down = link.on(Happened::Ended);
    assert_eq!((down.tell, down.next), (Some(LinkState::Down), Next::Sleep(1)));
}

#[test]
fn a_peer_that_cannot_be_reached_is_said_to_be_down() {
    let mut link = Link::to_a_peer();
    let failed = link.on(Happened::NotConnected);
    assert_eq!((failed.tell, failed.next), (Some(LinkState::Down), Next::Sleep(2)));
}

#[test]
fn a_stop_ends_a_session_and_nothing_starts_again() {
    let mut link = Link::to_a_device();
    link.on(Happened::Connected);
    let stop = link.on(Happened::Stopping);
    assert_eq!((stop.tell, stop.next), (Some(LinkState::Down), Next::Stop));
    assert_eq!(link.phase, Phase::Stopped);
    assert_eq!(link.on(Happened::Slept).next, Next::Stop);
}

#[test]
fn what_a_driver_says_is_a_datagram_or_it_is_left_out() {
    let datagram = Datagram {
        header: Some(Header { cmd_classifier: Some(CmdClassifier::Read), ..Header::default() }),
        payload: Some(Payload::default()),
    };
    let bytes = incoming(&datagram).expect("bytes");
    assert_eq!(bytes, br#"[{"header":[{"cmdClassifier":"read"}]},{"payload":[]}]"#.to_vec());
    assert_eq!(outgoing(&bytes), Ok(datagram));
    for other in ["", "null", "12", "[{\"header\":"] {
        assert_eq!(outgoing(other.as_bytes()), Err(Woken::Garbled), "{other}");
    }
    assert_eq!(pump(Woken::Garbled), Pump::GoOn);
}

//! The session a reduction arrives over: whom a box is, trusts and can be found by.

use hemsd::clock::{Instant, SECOND};
use hemsd::drivers::LinkState;
use hemsd::runtime::ship::{
    announce, announced, host, identified, identity, is_link_local, is_loopback, local_addresses,
    read_ski, told, waiting, Address, Guest, Host, Hosting, NotIssued, ShipError, ShipSettings,
    Trust,
};

/// 2026-01-15 12:00:00 UTC.
const NOW: Instant = 1_768_478_400 * SECOND;

fn v4(a: u8, b: u8, c: u8, d: u8) -> Address {
    Address::V4([a, b, c, d])
}

/// An address of the sixth version with two groups written out, the first and the
/// last.
fn v6(first: u16, last: u16) -> Address {
    Address::V6([first, 0, 0, 0, 0, 0, 0, last])
}

#[test]
fn an_address_no_peer_could_reach_is_not_announced() {
    // What DHCP gives a machine that got no answer.
    assert!(is_link_local(v4(169, 254, 13, 7)));
    assert!(is_link_local(v6(0xfe80, 1)));
    // …and what an ordinary household network gives one.
    assert!(!is_link_local(v4(192, 168, 1, 42)));
    assert!(!is_link_local(v4(10, 0, 0, 5)));
    assert!(!is_link_local(v6(0xfd00, 1)));
}

#[test]
fn a_box_with_nowhere_to_be_reached_falls_back_to_loopback() {
    let announced = local_addresses();
    assert!(
        !announced.is_empty(),
        "a service registered with no addresses is one nothing can resolve"
    );
}

#[test]
fn discovery_is_on_unless_it_is_turned_off() {
    assert!(ShipSettings::default().announce);
    let off = ShipSettings { announce: false, ..ShipSettings::default() };
    assert!(!off.announce);
    assert_eq!(off.ship_id, ShipSettings::default().ship_id);
    assert!(announce(&off, [1; 20], 4711, vec![]).is_none());
}

#[test]
fn only_what_can_be_dialled_is_announced() {
    let found = vec![
        v4(127, 0, 0, 1),
        v6(0, 1),
        v4(169, 254, 13, 7),
        v4(192, 168, 1, 42),
        v6(0xfd00, 1),
    ];
    assert_eq!(announced(Some(found)), vec![v4(192, 168, 1, 42), v6(0xfd00, 1)]);
    assert_eq!(announced(Some(vec![v6(0, 1)])), vec![v4(127, 0, 0, 1)]);
    assert_eq!(announced(Some(vec![])), vec![v4(127, 0, 0, 1)]);
    assert_eq!(announced(None), vec![v4(127, 0, 0, 1)]);
    assert!(is_loopback(v4(127, 9, 9, 9)) && !is_loopback(v6(0, 2)));
}

#[test]
fn an_announcement_carries_an_identifier_that_can_be_announced() {
    let a = announce(&ShipSettings::default(), [1; 20], 4711, vec![v4(10, 0, 0, 5)])
        .expect("an announcement");
    assert_eq!(a.ship_id, "hems_hems-1");
    assert_eq!((a.brand.as_str(), a.device_type.as_str()), ("hems", "EnergyManagementSystem"));
    assert_eq!(a.port, 4711);
    let spaced = ShipSettings { ship_id: "two words".to_string(), ..ShipSettings::default() };
    assert!(announce(&spaced, [1; 20], 4711, vec![]).is_none());
}

#[test]
fn a_label_reads_back() {
    let ski: [u8; 20] = [
        0x00, 0x1f, 0xa2, 0xb3, 0xc4, 0xd5, 0xe6, 0xf7, 0x08, 0x19, 0x2a, 0x3b, 0x4c, 0x5d, 0x6e,
        0x7f, 0x80, 0x91, 0xa2, 0xb3,
    ];
    let shown = waiting(&ski, "f").ski;
    assert_eq!(shown.to_lowercase(), "001f a2b3 c4d5 e6f7 0819 2a3b 4c5d 6e7f 8091 a2b3");
    assert_eq!(read_ski(&shown).expect("a SKI"), ski);
    assert_eq!(read_ski(&shown.replace(' ', ":")).expect("a SKI"), ski);
    assert!(matches!(read_ski("00"), Err(ShipError::NotASki(_))));
    assert!(matches!(read_ski(&"0g".repeat(20)), Err(ShipError::NotASki(_))));
}

#[test]
fn an_identity_and_its_trust_survive_a_reboot() {
    let settings = ShipSettings { trust: vec!["AB".repeat(20)], ..ShipSettings::default() };
    let first = identity(&settings, None, NOW).expect("a fresh identity");
    assert_eq!(first.keep.key_pem, first.key_pem);
    let named = settings.ship_id.as_bytes();
    assert!(
        first.identity.certificate_der().windows(named.len()).any(|w| w == named),
        "the certificate names the node"
    );
    let second = identity(&ShipSettings::default(), Some(&first.keep), NOW).expect("the same one");
    assert_eq!(second.ski, first.ski);
    let trust = Trust::new(second.trust, false, second.keep.ship_id, second.key_pem);
    assert_eq!(trust.peers().len(), 1);
    let other = identity(&settings, None, NOW).expect("another one");
    assert_ne!(other.ski, first.ski);
}

#[test]
fn an_identity_that_cannot_be_used_is_no_identity() {
    let settings = ShipSettings { trust: vec!["short".to_string()], ..ShipSettings::default() };
    assert!(matches!(identity(&settings, None, NOW), Err(ShipError::NotASki(text)) if text == "short"));
    let unmade = Err(NotIssued::Certificate("no clock".to_string()));
    assert!(matches!(
        identified(&settings, None, unmade, NOW),
        Err(ShipError::NotASki(text)) if text == "short"
    ));
    let unread = Err(NotIssued::Key("no key".to_string()));
    assert!(matches!(
        identified(&settings, None, unread, NOW),
        Err(ShipError::Identity(said)) if said == "the stored key: no key"
    ));
    let fresh = identity(&ShipSettings::default(), None, NOW).expect("a fresh identity");
    let mut broken = fresh.keep;
    broken.key_pem = "not a key".to_string();
    assert!(
        matches!(identity(&settings, Some(&broken), NOW), Err(ShipError::NotASki(text)) if text == "short"),
        "the peers are looked at before the key is read"
    );
    let why = match identity(&ShipSettings::default(), Some(&broken), NOW) {
        Err(e) => e.message(),
        Ok(_) => panic!("a key nobody can read"),
    };
    assert!(why.starts_with("the box's EEBUS identity is not usable: the stored key: "), "{why}");
    let made = Err(NotIssued::Certificate("no clock".to_string()));
    assert!(matches!(
        identified(&ShipSettings::default(), None, made, NOW),
        Err(ShipError::Identity(said)) if said == "no clock"
    ));
}

#[test]
fn one_peer_at_a_time() {
    let (phase, action) = host(Hosting::Listening, Guest::Came);
    assert_eq!((phase, action), (Hosting::Handshake, Host::GoOn));
    assert_eq!(host(phase, Guest::NotAdmitted).0, Hosting::Listening);
    let (phase, action) = host(phase, Guest::Admitted);
    assert_eq!((phase, told(action)), (Hosting::Session, Some(LinkState::Up)));
    assert_eq!(host(phase, Guest::Came), (Hosting::Session, Host::GoOn));
    let (phase, action) = host(phase, Guest::Left);
    assert_eq!((phase, told(action)), (Hosting::Listening, Some(LinkState::Down)));
    assert_eq!(host(phase, Guest::Stopping), (Hosting::Stopped, Host::Close));
}

#[test]
fn a_decision_about_a_peer_survives_a_reboot() {
    let own = identity(&ShipSettings::default(), None, NOW).expect("a fresh identity");
    let ski = own.ski;
    let mut trust = Trust::new(own.trust, true, own.keep.ship_id, own.key_pem);
    trust.approve(&"AB".repeat(20), NOW).expect("a peer");
    let kept = trust.approve(&"CD".repeat(20), NOW).expect("a peer").expect("this box keeps it");
    let again = identity(&ShipSettings::default(), Some(&kept), NOW).expect("the same one");
    assert_eq!(again.ski, ski);
    let mut trust = Trust::new(again.trust, true, again.keep.ship_id, again.key_pem);
    assert_eq!(trust.peers().len(), 2);
    let left = trust.forget(&"AB".repeat(20)).expect("a peer").expect("this box keeps it");
    let last = identity(&ShipSettings::default(), Some(&left), NOW).expect("the same one");
    assert_eq!(Trust::new(last.trust, true, last.keep.ship_id, last.key_pem).peers().len(), 1);
}

//! What the registry refuses, and what it believes of the drivers it holds.

use hemsd::clock::{Instant, HOUR, SECOND};
use hemsd::drivers::{
    household_load, powers, CommandOutcome, DriverCapabilities, DriverError, DriverEvent, DriverId,
    Failsafe, Flexibility, GridLimit, LimitDirection, LimitSource, LinkState, Measurement,
    PhaseMode, Registry, RegistryError, VehiclePresence, SILENCE,
};
use hemsd::site::{Asset, Site};

/// 2026-01-15 12:00:00 UTC.
const NOW: Instant = 1_768_478_400 * SECOND;

fn asset(id: &str, controllable: bool, participates: bool) -> Asset {
    Asset { id: id.to_string(), controllable, participates }
}

/// The reference household, which has a wallbox and a heat pump under § 14a.
fn site() -> Site {
    Site {
        id: "reference-household".to_string(),
        assets: vec![
            asset("haushalt", false, false),
            asset("pv", true, false),
            asset("battery", true, true),
            asset("wallbox", true, true),
            asset("waermepumpe", true, true),
            asset("warmwasser", true, false),
        ],
    }
}

fn mute(r: &mut Registry, asset: &str, caps: DriverCapabilities) -> Result<DriverId, RegistryError> {
    r.register(asset.to_string(), caps, NOW + HOUR, &site())
}

fn reading(at: Instant) -> Measurement {
    Measurement { at, power_mw: None, temperature_mc: None, soc_ppm: None }
}

/// A driver that is in contact and has read a power.
fn chatty(r: &mut Registry, asset: &str, at: Instant, power_mw: i64) -> DriverId {
    let id = mute(r, asset, DriverCapabilities::device()).expect("a device driver");
    r.hear(id, DriverEvent::Link(LinkState::Up));
    r.hear(id, DriverEvent::Measured(Measurement { power_mw: Some(power_mw), ..reading(at) }));
    id
}

#[test]
fn a_grid_driver_that_measures_nothing_is_not_therefore_unheard() {
    let mut r = Registry::new();
    let id = mute(&mut r, "netzanschluss", DriverCapabilities::grid()).expect("the connection point");
    r.hear(id, DriverEvent::Link(LinkState::Up));

    let observed = r.observe(None, NOW);

    assert!(observed.silent.is_empty(), "it said its link is up and it has nothing else to say");
}

#[test]
fn the_curtailment_factor_reaches_the_guard_as_a_fraction() {
    let mut r = Registry::new();
    let id = mute(&mut r, "netzanschluss", DriverCapabilities::grid()).expect("the connection point");
    // Seventy percent.
    r.hear(id, DriverEvent::FeedInFactor(70_000));

    let observed = r.observe(None, NOW);

    assert_eq!(observed.limits.mgcp_factor_ppm, Some(700_000));
}

#[test]
fn a_device_that_nods_and_does_nothing_is_named_rather_than_believed() {
    let mut r = Registry::new();
    mute(&mut r, "wallbox", DriverCapabilities::device()).expect("the wallbox");

    assert!(
        r.observe(None, NOW).disobedient.is_empty(),
        "nothing has been commanded yet, and a device nobody asked is not one that refused"
    );

    let id = r.command("wallbox").expect("the driver took it");
    r.hear(
        id,
        DriverEvent::Command(CommandOutcome {
            accepted: false,
            at: NOW,
            detail: Some("the setpoint was stored and never switched on".to_string()),
        }),
    );

    let observed = r.observe(None, NOW);
    assert!(
        observed.silent.contains("wallbox"),
        "it reports no measurement, so it is silent too — but that is the other fault"
    );
    assert_eq!(
        observed.disobedient.get("wallbox").map(String::as_str),
        Some("the setpoint was stored and never switched on"),
        "and what the device said about it is the whole of the diagnosis"
    );
}

#[test]
fn a_driver_for_an_asset_the_site_does_not_have_is_refused() {
    let mut r = Registry::new();
    let err = mute(&mut r, "waermepumpe-2", DriverCapabilities::device()).expect_err("no such asset");
    assert!(matches!(err, RegistryError::NoSuchAsset(_)), "{}", err.message());
    assert_eq!(
        err.message(),
        "a driver speaks for `waermepumpe-2`, which this site does not have"
    );
}

#[test]
fn two_drivers_that_both_command_one_asset_are_refused() {
    let mut r = Registry::new();
    mute(&mut r, "wallbox", DriverCapabilities::device()).expect("the first");
    let err = mute(&mut r, "wallbox", DriverCapabilities::commanding()).expect_err("the second");
    assert!(matches!(err, RegistryError::Duplicate(_, "command")), "{}", err.message());
}

#[test]
fn two_drivers_that_both_measure_one_asset_are_refused() {
    let mut r = Registry::new();
    mute(&mut r, "wallbox", DriverCapabilities::device()).expect("the first");
    let err = mute(&mut r, "wallbox", DriverCapabilities::meter()).expect_err("the second");
    assert!(matches!(err, RegistryError::Duplicate(_, "measure")), "{}", err.message());
}

#[test]
fn one_driver_may_command_an_asset_while_another_reads_it() {
    let mut r = Registry::new();
    mute(&mut r, "wallbox", DriverCapabilities::commanding()).expect("the one that drives it");
    mute(&mut r, "wallbox", DriverCapabilities::meter()).expect("and the one that watches it");
    mute(&mut r, "netzanschluss", DriverCapabilities::grid())
        .expect("a § 14a household needs something that hears the operator");
    r.validate(&site()).expect("a commanded and watched wallbox is a well-driven wallbox");
    assert_eq!(r.len(), 3, "and both of its drivers are kept, not merged");
}

#[test]
fn a_controllable_asset_no_driver_can_command_is_refused() {
    let mut r = Registry::new();
    mute(&mut r, "wallbox", DriverCapabilities::meter()).expect("a meter alone is not yet a fault");
    mute(&mut r, "netzanschluss", DriverCapabilities::grid()).expect("and something hears the operator");
    let err = r.validate(&site()).expect_err("nothing can drive the wallbox");
    assert!(matches!(err, RegistryError::CannotCommand(_)), "{}", err.message());
}

#[test]
fn a_paragraph_14a_household_with_nothing_to_hear_a_reduction_is_refused() {
    let mut r = Registry::new();
    mute(&mut r, "wallbox", DriverCapabilities::device()).expect("a device driver");
    let err = r.validate(&site()).expect_err("nothing hears the operator");
    assert!(matches!(err, RegistryError::NoGridDriver), "{}", err.message());

    // …and with one, it is fine.
    mute(&mut r, "netzanschluss", DriverCapabilities::grid())
        .expect("a grid driver names the connection point, not a site asset");
    r.validate(&site()).expect("now something can hear");
}

#[test]
fn an_empty_registry_is_not_commissioned() {
    let err = Registry::new().validate(&site()).expect_err("nothing is configured");
    assert!(matches!(err, RegistryError::Uncommissioned), "{}", err.message());
}

#[test]
fn a_reading_that_stops_arriving_stops_being_offered_to_the_guard() {
    let mut r = Registry::new();
    chatty(&mut r, "wallbox", NOW, 7_000_000);
    let _ = r.drain();

    let fresh = r.observe(None, NOW);
    assert!(fresh.silent.is_empty(), "it has just spoken");
    assert!(fresh.state.assets.get("wallbox").is_some());

    let later = NOW + SILENCE + SECOND;
    let quiet = r.observe(None, later);
    assert!(
        quiet.silent.contains("wallbox"),
        "and once it stops, the household is told which device it is"
    );
    assert!(
        quiet.state.assets.get("wallbox").is_none(),
        "and the stale reading is not handed to the guard as though it were current"
    );
}

#[test]
fn a_device_that_notifies_on_change_is_not_silent_while_nothing_changes() {
    let mut r = Registry::new();
    let id = mute(&mut r, "warmwasser", DriverCapabilities::device().on_change())
        .expect("a device driver");
    r.hear(id, DriverEvent::Link(LinkState::Up));
    r.hear(id, DriverEvent::Measured(Measurement { temperature_mc: Some(52_000), ..reading(NOW) }));
    let _ = r.drain();

    let quiet = r.observe(None, NOW + 3 * HOUR);
    assert!(quiet.silent.is_empty(), "a tank that has not changed is not a tank nobody can hear");
    assert_eq!(
        quiet.state.assets.get("warmwasser").and_then(|m| m.temperature_mc),
        Some(52_000),
        "and the plan still has a tank to move"
    );
}

#[test]
fn a_device_that_notifies_on_change_and_has_never_spoken_is_still_silent() {
    let mut r = Registry::new();
    let id = mute(&mut r, "warmwasser", DriverCapabilities::device().on_change())
        .expect("a device driver");
    r.hear(id, DriverEvent::Link(LinkState::Up));
    let _ = r.drain();

    let quiet = r.observe(None, NOW + 3 * HOUR);
    assert!(quiet.silent.contains("warmwasser"));
}

#[test]
fn a_polled_device_is_still_judged_by_the_age_of_its_reading() {
    let mut r = Registry::new();
    chatty(&mut r, "pv", NOW, 3_000_000);
    let _ = r.drain();
    assert!(r.observe(None, NOW + SILENCE + SECOND).silent.contains("pv"));
}

#[test]
fn a_reduction_reaches_the_guard_as_a_grid_limit() {
    let mut r = Registry::new();
    let id = mute(&mut r, "netzanschluss", DriverCapabilities::grid()).expect("a grid driver");
    r.hear(
        id,
        DriverEvent::GridLimit(GridLimit {
            direction: LimitDirection::Consumption,
            ceiling_mw: Some(4_200_000),
            source: LimitSource::Commanded,
            at: NOW + 110 * SECOND,
        }),
    );

    let drained = r.drain();
    assert!(!drained.is_empty(), "the driver had something to say");
    let limits = r.limits();
    assert_eq!(limits.steuve_ceiling_mw, Some(4_200_000));
    assert!(!limits.in_failsafe, "the operator asked for this one");
    assert!(limits.steuve_since.is_some(), "and the record needs when");
}

#[test]
fn a_driver_that_says_its_link_is_stale_contributes_nothing() {
    let mut r = Registry::new();
    let id = mute(&mut r, "pv", DriverCapabilities::device()).expect("an inverter driver");
    // Nothing ever answers it, so it gives up and says so.
    r.hear(id, DriverEvent::Link(LinkState::Stale));
    let _ = r.drain();

    let observed = r.observe(None, NOW + 30 * SECOND);
    assert!(
        observed.state.assets.is_empty(),
        "a driver that has said it no longer knows contributes nothing"
    );
    assert!(observed.silent.contains("pv"));
}

#[test]
fn a_command_for_an_asset_no_driver_speaks_for_is_an_error() {
    let r = Registry::new();
    let err = r.command("wallbox").expect_err("nothing speaks for it");
    assert!(matches!(err, DriverError::NoDriver(_)), "{err:?}");
}

#[test]
fn the_controllable_devices_nothing_speaks_for_are_named() {
    let s = site();
    let mut r = Registry::new();
    assert!(
        !r.undriven(&s).is_empty(),
        "an empty registry speaks for none of the household's devices"
    );

    mute(&mut r, "wallbox", DriverCapabilities::device()).expect("a device driver");
    let named: Vec<String> = r.undriven(&s);
    assert!(
        !named.iter().any(|a| a == "wallbox"),
        "the one with a driver drops off the list: {named:?}"
    );
    assert!(
        named.iter().any(|a| a == "battery"),
        "and the ones without stay on it: {named:?}"
    );
    assert!(
        !named.iter().any(|a| a == "haushalt"),
        "the household's own base load is not controllable and was never going to be commanded: {named:?}"
    );
}

#[test]
fn the_devices_running_on_a_nameplate_are_named() {
    let mut r = Registry::new();
    mute(&mut r, "pv", DriverCapabilities::device()).expect("an inverter driver");
    let assumed = r.assumed_available_power().names();
    assert_eq!(
        assumed,
        vec!["pv".to_string()],
        "no model 701, so its available power is a nameplate"
    );
}

#[test]
fn the_household_draws_what_its_devices_do_not() {
    let mut r = Registry::new();
    let meter = r
        .register("netzanschluss".to_string(), DriverCapabilities { measures: true, ..DriverCapabilities::grid() }, NOW + HOUR, &site())
        .expect("the meter");
    r.hear(meter, DriverEvent::Link(LinkState::Up));
    r.hear(meter, DriverEvent::Measured(Measurement { power_mw: Some(5_000_000), ..reading(NOW) }));
    chatty(&mut r, "wallbox", NOW, 3_700_000);
    chatty(&mut r, "pv", NOW, -1_200_000);

    let observed = r.observe(Some("netzanschluss"), NOW);

    assert_eq!(household_load(&observed), Some(2_500_000));
    let each = powers(&observed);
    assert_eq!(each.len(), 2, "the meter is not one of the devices");
    assert_eq!(each.get("wallbox"), Some(&3_700_000));
    assert_eq!(each.get("pv"), Some(&-1_200_000));
}

#[test]
fn a_load_is_never_negative_and_never_guessed() {
    let mut r = Registry::new();
    chatty(&mut r, "wallbox", NOW, 3_700_000);
    assert_eq!(household_load(&r.observe(Some("netzanschluss"), NOW)), None);

    let meter = r
        .register("netzanschluss".to_string(), DriverCapabilities { measures: true, ..DriverCapabilities::grid() }, NOW + HOUR, &site())
        .expect("the meter");
    r.hear(meter, DriverEvent::Link(LinkState::Up));
    r.hear(meter, DriverEvent::Measured(Measurement { power_mw: Some(1_000_000), ..reading(NOW) }));
    assert_eq!(household_load(&r.observe(Some("netzanschluss"), NOW)), Some(0));
}

#[test]
fn what_is_drained_is_handed_out_once_and_changes_no_picture() {
    let mut r = Registry::new();
    chatty(&mut r, "wallbox", NOW, 7_000_000);
    let first = r.drain();
    assert_eq!(first.len(), 2);
    assert_eq!(first[0].0, "wallbox");
    assert!(matches!(first[0].1, DriverEvent::Link(LinkState::Up)));
    assert!(r.drain().is_empty());
    let observed = r.observe(None, NOW);
    assert_eq!(observed.state.assets.get("wallbox").and_then(|m| m.power_mw), Some(7_000_000));
}

#[test]
fn a_closed_socket_takes_the_reading_with_it() {
    let mut r = Registry::new();
    let id = chatty(&mut r, "wallbox", NOW, 7_000_000);
    r.on_phases(id, PhaseMode::Three);
    let _ = r.drain();
    assert_eq!(r.state(None, NOW).phases.get("wallbox"), Some(&PhaseMode::Three));
    r.on_link(id, LinkState::Down);
    r.on_link(id, LinkState::Up);
    let observed = r.observe(None, NOW);
    assert!(observed.state.assets.is_empty());
    assert!(observed.state.phases.is_empty());
}

#[test]
fn a_lifted_limit_has_no_beginning_and_a_failsafe_is_told_apart() {
    let mut r = Registry::new();
    let id = mute(&mut r, "netzanschluss", DriverCapabilities::grid()).expect("a grid driver");
    r.hear(
        id,
        DriverEvent::GridLimit(GridLimit {
            direction: LimitDirection::Consumption,
            ceiling_mw: Some(4_200_000),
            source: LimitSource::Failsafe,
            at: NOW,
        }),
    );
    r.hear(
        id,
        DriverEvent::GridLimit(GridLimit {
            direction: LimitDirection::Production,
            ceiling_mw: Some(6_000_000),
            source: LimitSource::Commanded,
            at: NOW,
        }),
    );
    let _ = r.drain();
    assert!(r.limits().in_failsafe);
    assert_eq!(r.limits().steuve_since, Some(NOW));
    assert_eq!(r.limits().feed_in_ceiling_mw, Some(6_000_000));
    r.hear(
        id,
        DriverEvent::GridLimit(GridLimit {
            direction: LimitDirection::Consumption,
            ceiling_mw: None,
            source: LimitSource::Commanded,
            at: NOW + SECOND,
        }),
    );
    let _ = r.drain();
    assert_eq!(r.limits().steuve_ceiling_mw, None);
    assert_eq!(r.limits().steuve_since, None);
    assert!(!r.limits().in_failsafe);
}

#[test]
fn a_written_failsafe_is_kept_for_its_direction() {
    let mut r = Registry::new();
    let id = mute(&mut r, "netzanschluss", DriverCapabilities::grid()).expect("a grid driver");
    let written = Failsafe { direction: LimitDirection::Consumption, power_mw: 4_200_000, minimum_s: 7_200 };
    r.hear(id, DriverEvent::Failsafe(written));
    let _ = r.drain();
    assert_eq!(r.failsafe().consumption, Some(written));
    assert_eq!(r.failsafe().production, None);
}

#[test]
fn a_car_and_an_appliance_are_passed_on_as_they_announced_themselves() {
    let mut r = Registry::new();
    let car = VehiclePresence { connected: true, soc_ppm: Some(350_000), capacity_mwh: Some(58_000_000), at: NOW };
    let offer = Flexibility { min_run: Some(HOUR), min_rest: None, running: true };
    let wallbox = chatty(&mut r, "wallbox", NOW, 0);
    r.hear(wallbox, DriverEvent::Vehicle(car));
    let pump = chatty(&mut r, "waermepumpe", NOW, 0);
    r.hear(pump, DriverEvent::Flexibility(offer));
    let observed = r.observe(None, NOW);
    assert_eq!(observed.vehicles.get("wallbox"), Some(&car));
    assert_eq!(observed.flexibility.get("waermepumpe"), Some(&offer));
}

#[test]
fn the_earliest_deadline_is_the_one_that_counts() {
    let mut r = Registry::new();
    assert_eq!(r.poll_deadline(), None, "nothing is registered");
    let a = mute(&mut r, "wallbox", DriverCapabilities::device()).expect("a driver");
    assert_eq!(r.poll_deadline(), Some(NOW + HOUR), "a driver says when it wants to be woken");
    let b = mute(&mut r, "pv", DriverCapabilities::device()).expect("a driver");
    r.on_driver(a, NOW + 5 * SECOND, Some(vec![1, 2]));
    r.on_driver(b, NOW + 2 * SECOND, None);
    assert_eq!(r.poll_deadline(), Some(NOW + 2 * SECOND));
    assert_eq!(r.deadline_of(a), Some(NOW + 5 * SECOND));
    assert_eq!(r.poll_transmit_of(b), None);
    assert_eq!(r.poll_transmit(), Some((a, vec![1, 2])));
    assert_eq!(r.poll_transmit(), None);
}

#[test]
fn sending_takes_the_oldest_bytes_and_nothing_else() {
    let mut r = Registry::new();
    let a = chatty(&mut r, "wallbox", NOW, 4_000_000);
    r.on_driver(a, NOW + 5 * SECOND, Some(vec![1]));
    r.on_driver(a, NOW + 5 * SECOND, Some(vec![2, 3]));
    assert_eq!(r.poll_transmit_of(a), Some(vec![1]));
    assert_eq!(r.poll_transmit(), Some((a, vec![2, 3])));
    assert_eq!(r.poll_transmit_of(a), None);
    assert_eq!(r.deadline_of(a), Some(NOW + 5 * SECOND));
    let observed = r.observe(None, NOW);
    assert_eq!(powers(&observed).get("wallbox"), Some(&4_000_000));
}

#[test]
fn a_limit_is_in_force_as_soon_as_it_is_heard() {
    let mut r = Registry::new();
    let id = mute(&mut r, "netzanschluss", DriverCapabilities::grid()).expect("the grid");
    r.hear(
        id,
        DriverEvent::GridLimit(GridLimit {
            direction: LimitDirection::Consumption,
            ceiling_mw: Some(4_200_000),
            source: LimitSource::Commanded,
            at: NOW,
        }),
    );
    assert_eq!(r.limits().steuve_ceiling_mw, Some(4_200_000), "nobody has drained or observed");
    r.hear(
        id,
        DriverEvent::Failsafe(Failsafe {
            direction: LimitDirection::Consumption,
            power_mw: 4_200_000,
            minimum_s: 7_200,
        }),
    );
    assert_eq!(r.failsafe().consumption.map(|f| f.power_mw), Some(4_200_000));
    assert_eq!(r.drain().len(), 2, "and both wait for whoever drains");
    assert_eq!(r.limits().steuve_ceiling_mw, Some(4_200_000));
}

//! What a box refuses to start with.

use hemsd::clock::{Instant, SECOND};
use hemsd::config::{
    DriverSettings, EebusDhwSettings, EebusEvSettings, EebusHeatPumpSettings, EebusSettings, Modul,
    Modul3Settings, Point, RegisterSettings, Settings, SunspecSettings,
};
use hemsd::drivers::{DriverCapabilities, DriverId, RegistryError};
use hemsd::runtime::ship::ShipError;
use hemsd::runtime::start::{
    array_of, assemble, billable, build_driver, carrier_of, charging, check_modul3,
    check_the_physics, declared, failsafe_in_force, forwarding, planning, start_dialled, start_drivers,
    transport_address, Built, Cadence, Carrier, Conformance, DeliveryPoint, DriverPlan, Forwarding,
    Heating, Made, Pitch, Planning, SpineIdentity, StartError, Warmth, WrittenFailsafe, MILLISECOND,
    ORDERABLE_SINCE,
};
use hemsd::site::{
    Asset, BatteryConfig, DhwConfig, EvseConfig, GeoPoint, HeatPumpConfig, HeatPumpControl,
    HouseholdConfig, Para9Status, PvConfig, Site,
};
use time::{Date, Month};

/// 2026-06-15 10:00:00 UTC.
const NOW: Instant = 1_781_517_600 * SECOND;

fn reference() -> HouseholdConfig {
    let since = Date::from_calendar_date(2024, Month::June, 1).expect("a date").to_julian_day();
    HouseholdConfig {
        pv: Some(PvConfig {
            kwp: 10_000_000,
            ac_nominal: 8_000_000,
            para9: Para9Status { imsys_since: Some(since), relieved: false },
        }),
        battery: Some(BatteryConfig { kwh: 10_000_000, power: 5_000_000, reserve_soc: 100_000, wear_eur_per_kwh: 20_000 }),
        evse: Some(EvseConfig { max_current: 16_000_000, switchable: true, charge_limit: None }),
        heat_pump: Some(HeatPumpConfig {
            power: 5_000_000,
            modulating: true,
            comfort_min_c: 20_000_000,
            comfort_max_c: 23_000_000,
            control: HeatPumpControl::PowerCeiling,
        }),
        dhw: Some(DhwConfig { litres: 200_000_000, heater: 2_000_000 }),
        fuse: 35_000_000,
        location: GeoPoint { latitude: 52_520_000, longitude: 13_405_000, altitude_m: 34_000_000 },
        dishwasher: None,
    }
}

fn house() -> Site {
    let asset = |id: &str, controllable: bool, participates: bool| Asset {
        id: id.to_string(),
        controllable,
        participates,
    };
    Site {
        id: "reference-household".to_string(),
        assets: vec![
            asset("haushalt", false, false),
            asset("pv", true, false),
            asset("wallbox", true, true),
            asset("waermepumpe", true, true),
            asset("warmwasser", true, false),
        ],
    }
}

fn lpc() -> DriverSettings {
    DriverSettings::EebusLpc(EebusSettings {
        asset: "netzanschluss".to_string(),
        failsafe_kw: None,
        failsafe_hours: 2,
        spine_vendor: None,
        spine_unique: None,
    })
}

fn sunspec(asset: &str) -> DriverSettings {
    DriverSettings::Sunspec(SunspecSettings {
        asset: asset.to_string(),
        address: "192.0.2.20:502".to_string(),
        unit: 1,
        poll_ms: 1_000,
        timeout_ms: 5_000,
        listens_only: false,
        rating_kw: None,
    })
}

fn ev() -> DriverSettings {
    DriverSettings::EebusEv(EebusEvSettings {
        asset: "wallbox".to_string(),
        address: "192.168.1.50:4712".to_string(),
        ski: "0".repeat(40),
        departure: "07:00".to_string(),
        target_soc: 800_000,
        spine_vendor: None,
        spine_unique: None,
    })
}

fn heat_pump() -> DriverSettings {
    DriverSettings::EebusHeatPump(EebusHeatPumpSettings {
        asset: "waermepumpe".to_string(),
        address: "192.168.1.60:4712".to_string(),
        ski: "0".repeat(40),
        spine_vendor: Some("acme".to_string()),
        spine_unique: None,
    })
}

fn dhw() -> DriverSettings {
    DriverSettings::EebusDhw(EebusDhwSettings {
        asset: "warmwasser".to_string(),
        address: "192.168.1.40:4712".to_string(),
        ski: "0".repeat(40),
        spine_vendor: None,
        spine_unique: None,
    })
}

fn registers() -> DriverSettings {
    DriverSettings::Registers(RegisterSettings {
        asset: "waermepumpe".to_string(),
        address: "192.0.2.30:502".to_string(),
        unit: 1,
        poll_ms: u64::MAX,
        timeout_ms: 5_000,
        points: vec![
            Point { register: 507, scale: 100_000, field: "temperature_c".to_string() },
            Point { register: 2240, scale: 1_000_000, field: "power".to_string() },
        ],
    })
}

fn with(drivers: Vec<DriverSettings>) -> Settings {
    Settings { drivers, ..Settings::unconfigured(&reference()) }
}

fn made(caps: DriverCapabilities) -> Built {
    Ok(Made { caps, deadline: NOW })
}

fn started(drivers: Vec<DriverSettings>, built: Vec<Built>) -> Result<usize, StartError> {
    assemble(&with(drivers), Ok(house()), &built, Ok(()), NOW).map(|running| running.registry.len())
}

/// The drivers as they declare themselves, and what becomes of a box with them.
fn a_box_with(drivers: Vec<DriverSettings>) -> Result<usize, StartError> {
    let built = drivers.iter().map(|d| made(declared(d))).collect();
    started(drivers, built)
}

#[test]
fn a_wallbox_commanded_over_modbus_and_read_over_eebus_starts() {
    let n = a_box_with(vec![sunspec("wallbox"), ev(), lpc()])
        .expect("one driver drives the wallbox and the other watches it");
    assert_eq!(n, 3);
}

#[test]
fn a_heat_pump_that_speaks_eebus_needs_nothing_else() {
    a_box_with(vec![heat_pump(), lpc()])
        .expect("the unit drives its compressor and reports its rooms");
}

#[test]
fn a_heat_pump_that_does_not_speak_eebus_is_read_from_its_register_map() {
    let refused = a_box_with(vec![registers(), lpc()])
        .expect_err("a heat pump nothing can move is refused");
    assert!(
        matches!(&refused, StartError::Drivers(RegistryError::CannotCommand(asset)) if asset == "waermepumpe"),
        "a house the box can read and cannot heat is a plan nobody executes: {}",
        refused.message()
    );
}

#[test]
fn a_heat_pump_that_speaks_eebus_is_not_read_from_a_register_map_too() {
    let refused = a_box_with(vec![heat_pump(), registers(), lpc()])
        .expect_err("two drivers that measure one heat pump");
    assert!(
        matches!(&refused, StartError::Drivers(RegistryError::Duplicate(asset, _)) if asset == "waermepumpe"),
        "{}",
        refused.message()
    );
}

#[test]
fn a_hot_water_tank_needs_only_its_own_eebus_driver() {
    a_box_with(vec![dhw(), lpc()]).expect("one driver both reads the tank and asks it to heat");
}

#[test]
fn a_charge_point_that_is_only_watched_is_refused() {
    let refused = a_box_with(vec![ev(), lpc()]).expect_err("nothing moves the wallbox");
    assert!(
        matches!(&refused, StartError::Drivers(RegistryError::CannotCommand(asset)) if asset == "wallbox"),
        "{}",
        refused.message()
    );
}

#[test]
fn the_first_thing_in_the_way_is_the_one_that_is_named() {
    let grid = || made(DriverCapabilities::grid());
    let mut settings = with(vec![lpc()]);
    settings.site.comfort_min_c = 30_000_000;
    let err = assemble(&settings, Err("no".to_string()), &vec![grid()], Err("no".to_string()), NOW)
        .map(|_| ())
        .expect_err("no house");
    assert!(matches!(err, StartError::Site(_)), "{}", err.message());

    let settings = with(vec![lpc()]);
    let err = assemble(&settings, Err("no roof".to_string()), &vec![grid()], Err("no".to_string()), NOW)
        .map(|_| ())
        .expect_err("no site");
    assert_eq!(err.message(), "the site could not be built: no roof");

    let err = started(vec![lpc()], vec![Err("a bad register".to_string())]).expect_err("no driver");
    assert_eq!(err.message(), "the `netzanschluss` driver cannot be built: a bad register");

    let err = started(vec![sunspec("garage")], vec![made(DriverCapabilities::device())])
        .expect_err("no garage");
    assert!(matches!(err, StartError::Drivers(RegistryError::NoSuchAsset(_))));

    let err = started(vec![], vec![]).expect_err("nothing at all");
    assert!(matches!(err, StartError::Drivers(RegistryError::Uncommissioned)));

    let err = assemble(&settings, Ok(house()), &vec![grid()], Err("it rings".to_string()), NOW)
        .map(|_| ())
        .expect_err("no physics");
    assert_eq!(
        err.message(),
        "the building model is not one the planner can integrate: it rings"
    );
}

fn calendar() -> Modul3Settings {
    Modul3Settings {
        id: "NB-14A-3-2026".to_string(),
        year: 2026,
        hochtarif_minutes: [17 * 60, 20 * 60],
        niedertarif_minutes: [22 * 60, 6 * 60],
        billed_quarters: vec!["Q1".to_string(), "Q4".to_string()],
        ht_ct_per_kwh: 18_000_000,
        st_ct_per_kwh: 10_000_000,
        nt_ct_per_kwh: 4_000_000,
        source: Some("https://example-netz.de/preisblatt-2026.pdf".to_string()),
    }
}

fn on_modul_3(modul3: Option<Modul3Settings>) -> Settings {
    let mut settings = Settings::unconfigured(&reference());
    settings.tariff.modul = Modul::Modul3;
    settings.tariff.modul3 = modul3;
    settings
}

#[test]
fn a_transcribed_calendar_that_conforms_lets_the_box_start() {
    check_modul3(&on_modul_3(Some(calendar())), NOW).expect("it conforms");
}

#[test]
fn a_module_with_no_calendar_and_a_calendar_with_no_module_are_both_refused() {
    assert!(check_modul3(&on_modul_3(None), NOW).is_err());

    let mut orphan = Settings::unconfigured(&reference());
    orphan.tariff.modul = Modul::Modul1;
    orphan.tariff.modul3 = Some(calendar());
    assert!(check_modul3(&orphan, NOW).is_err());
}

#[test]
fn a_hochtarif_under_two_hours_is_not_a_calendar_anybody_may_be_billed_on() {
    let settings = on_modul_3(Some(Modul3Settings {
        hochtarif_minutes: [17 * 60, 18 * 60 + 30],
        ..calendar()
    }));
    let error = check_modul3(&settings, NOW).expect_err("ninety minutes is not two hours");
    assert!(error.message().contains("HochtarifBelowTwoHours"), "{}", error.message());
}

#[test]
fn one_billed_quarter_is_refused_because_the_rule_asks_for_two() {
    let settings = on_modul_3(Some(Modul3Settings {
        billed_quarters: vec!["Q1".to_string()],
        ..calendar()
    }));
    assert!(check_modul3(&settings, NOW).is_err());
}

#[test]
fn a_quarter_that_is_not_one_of_the_four_is_a_typo_and_not_an_empty_list() {
    let settings = on_modul_3(Some(Modul3Settings {
        billed_quarters: vec!["Q1".to_string(), "Q5".to_string()],
        ..calendar()
    }));
    let error = check_modul3(&settings, NOW).expect_err("there is no Q5");
    assert!(error.message().contains("Q5"), "{}", error.message());
    assert!(error.message().ends_with("and this says [\"Q1\", \"Q5\"]"), "{}", error.message());
}

#[test]
fn a_calendar_nobody_can_trace_to_a_document_is_refused() {
    let settings = on_modul_3(Some(Modul3Settings { source: None, ..calendar() }));
    assert!(check_modul3(&settings, NOW).is_err());
}

#[test]
fn a_household_with_no_intelligent_metering_system_may_not_take_modul_3() {
    let mut settings = on_modul_3(Some(calendar()));
    settings.site.imsys_since = None;
    assert!(check_modul3(&settings, NOW).is_err());
}

#[test]
fn a_calendar_is_stopped_by_a_broken_rule_and_by_nothing_less() {
    let tariff = on_modul_3(Some(calendar())).tariff;
    let at = DeliveryPoint { modul_1: true, rlm: false, imsys: true };
    assert!(billable(&tariff, at, ORDERABLE_SINCE, Conformance::Conforms, "").is_ok());
    assert!(billable(&tariff, at, ORDERABLE_SINCE, Conformance::Unknown, "[Gap]").is_ok());
    let err = billable(&tariff, at, ORDERABLE_SINCE, Conformance::Violates, "[Rule]").expect_err("a rule");
    assert!(err.message().contains("[Rule] — see "), "{}", err.message());
    assert!(billable(&tariff, at, ORDERABLE_SINCE - 1, Conformance::Conforms, "").is_err());
    let metered = DeliveryPoint { rlm: true, ..at };
    assert!(billable(&tariff, metered, ORDERABLE_SINCE, Conformance::Conforms, "").is_err());
    assert_eq!(
        ORDERABLE_SINCE,
        Date::from_calendar_date(2025, Month::April, 1).expect("a date").to_julian_day()
    );
}

#[test]
fn the_reference_household_passes_its_own_physics_check() {
    // Five kilowatts of compressor at a coefficient of 2,48 and a three-kilowatt rod.
    let heating = Heating { nominal_kw: 5_000_000, rod_kw: 3_000_000, cop: 2_480_000, needed_kw: 5_300_000 };
    assert!(matches!(check_the_physics(true, 15, Some(heating)), Ok(Warmth::Held)));
}

#[test]
fn a_building_that_is_not_physical_is_refused() {
    let err = check_the_physics(false, 15, None).expect_err("it does not contract");
    assert!(matches!(err, StartError::Physics(_)));
    assert!(err.message().contains("over a 15 minute step"), "{}", err.message());
}

#[test]
fn a_household_with_no_heat_pump_has_no_heating_to_check() {
    assert!(matches!(check_the_physics(true, 15, None), Ok(Warmth::Unheated)));
}

#[test]
fn the_heating_check_now_depends_on_which_house_it_is() {
    let small = |needed_kw: i64| Heating { nominal_kw: 3_000_000, rod_kw: 3_000_000, cop: 2_480_000, needed_kw };
    assert!(matches!(check_the_physics(true, 15, Some(small(5_300_000))), Ok(Warmth::Held)));
    assert!(matches!(check_the_physics(true, 15, Some(small(12_800_000))), Ok(Warmth::Short)));
    // The rod is worth its own kilowatts: 3 × 2,48 + 3 is 10,44 and no more.
    assert!(matches!(check_the_physics(true, 15, Some(small(10_440_000))), Ok(Warmth::Held)));
    assert!(matches!(check_the_physics(true, 15, Some(small(10_440_001))), Ok(Warmth::Short)));
}

#[test]
fn what_the_operator_wrote_survives_a_change_of_configuration() {
    let written = Some(WrittenFailsafe { kw: 4_200_000, minimum_s: -7_200 });
    assert_eq!(failsafe_in_force(written, 10_500_000, 3_600), (4_200_000, 7_200));
    assert_eq!(failsafe_in_force(None, 10_500_000, 3_600), (10_500_000, 3_600));
}

#[test]
fn each_driver_is_asked_to_be_what_it_is_configured_as() {
    let own = SpineIdentity { vendor: "hems".to_string(), unique: "box".to_string() };
    match build_driver(&lpc(), 10_500_000, None, &own) {
        DriverPlan::Lpc { failsafe, failsafe_for_s, identity } => {
            assert_eq!((failsafe, failsafe_for_s), (10_500_000, 7_200));
            assert_eq!((identity.vendor.as_str(), identity.unique.as_str()), ("hems", "box"));
        }
        other => panic!("{other:?}"),
    }
    match build_driver(&heat_pump(), 0, None, &own) {
        DriverPlan::HeatPump(identity) => {
            assert_eq!((identity.vendor.as_str(), identity.unique.as_str()), ("acme", "box"));
        }
        other => panic!("{other:?}"),
    }
    assert!(matches!(
        build_driver(&sunspec("pv"), 0, None, &own),
        DriverPlan::Sunspec { unit: 1, cadence, listens_only: false, rating: None }
            if cadence == Cadence { poll: 1_000 * MILLISECOND, timeout: 5_000 * MILLISECOND }
    ));
    assert!(matches!(
        build_driver(&registers(), 0, None, &own),
        DriverPlan::Registers { unit: 1, cadence } if cadence.poll == 1_000 * MILLISECOND
    ));
    assert!(matches!(build_driver(&ev(), 0, None, &own), DriverPlan::Ev(_)));
    assert!(matches!(build_driver(&dhw(), 0, None, &own), DriverPlan::Dhw(_)));
}

#[test]
fn every_driver_is_carried_one_way() {
    let drivers = vec![sunspec("pv"), lpc(), ev(), registers(), dhw(), heat_pump()];
    let ids: Vec<DriverId> = (0..6).map(DriverId).collect();
    let sessions = start_drivers(&drivers, &ids, true);
    assert_eq!(sessions.sockets.len(), 2);
    assert_eq!(sessions.sockets[1].0.driver, DriverId(3));
    assert_eq!(sessions.listening.as_ref().map(|on| on.asset.as_str()), Some("netzanschluss"));
    assert_eq!(sessions.dialled.len(), 3);
    assert!(sessions.unreachable.is_empty() && sessions.needs_an_identity());
    assert_eq!(start_dialled(&sessions.dialled).expect("three SKIs"), vec![[0; 20]; 3]);

    let deaf = start_drivers(&vec![lpc()], &vec![DriverId(0)], false);
    assert_eq!(deaf.unreachable.len(), 1);
    assert!(!deaf.needs_an_identity());
    assert_eq!(sessions.health(), Some("no Steuerbox has connected yet"));
    assert_eq!(
        deaf.health(),
        Some("an EEBUS driver is configured with no `[ship] listen`, so a § 14a reduction could not arrive")
    );

    assert_eq!(transport_address(&registers()).as_deref(), Some("192.0.2.30:502"));
    assert!(matches!(carrier_of(&lpc(), false), Carrier::ClockOnly));

    let mut broken = sessions.dialled;
    broken[1].ski = "short".to_string();
    assert!(matches!(start_dialled(&broken), Err(ShipError::NotASki(text)) if text == "short"));
}

#[test]
fn a_box_that_cannot_see_the_sky_cannot_plan() {
    assert_eq!(planning(false, true, true), Planning::NoWeather);
    assert_eq!(planning(true, false, false), Planning::Flat);
    assert_eq!(planning(true, false, true), Planning::Priced);
    assert_eq!(planning(true, true, false), Planning::Priced);
    assert_eq!(
        Planning::NoWeather.health(),
        "no forecastd is configured, so the box cannot plan"
    );
    assert_eq!(Planning::Flat.health(), "no plan has been produced yet");
}

#[test]
fn the_one_charge_point_that_can_tell_is_the_one_that_is_asked() {
    assert_eq!(charging(&vec![lpc(), ev(), ev()]), Some(1));
    assert_eq!(charging(&vec![lpc()]), None);
}

#[test]
fn a_fleet_is_told_where_there_is_something_to_tell() {
    let mut settings = Settings::unconfigured(&reference());
    assert_eq!(forwarding(true, false, false, &settings), Forwarding::Nowhere);
    settings.obsd.url = Some("https://fleet.example".to_string());
    assert_eq!(forwarding(false, false, true, &settings), Forwarding::NothingKept);
    assert_eq!(forwarding(true, false, true, &settings), Forwarding::Every(30, 1));
    settings.histd.every_s = 300;
    settings.histd.batch = 50;
    assert_eq!(forwarding(true, true, false, &settings), Forwarding::Every(300, 50));
}

#[test]
fn a_roof_is_pitched_as_it_is_and_flat_where_nobody_knows() {
    let pitch = Pitch { tilt_deg: 35_000_000, azimuth_deg: 170_000_000 };
    let roof = array_of(Some(pitch), 10_000_000, 8_000_000);
    assert_eq!((roof.kwp, roof.ac_kw, roof.pitch), (10_000_000, 8_000_000, pitch));
    let flat = array_of(None, 10_000_000, 8_000_000).pitch;
    assert_eq!((flat.tilt_deg, flat.azimuth_deg), (0, 180_000_000));
}

#[test]
fn each_kind_of_driver_is_for_what_it_is_for() {
    assert_eq!(declared(&sunspec("pv")), DriverCapabilities::device());
    let listening = match sunspec("pv") {
        DriverSettings::Sunspec(s) => DriverSettings::Sunspec(SunspecSettings { listens_only: true, ..s }),
        other => other,
    };
    assert_eq!(declared(&listening), DriverCapabilities::meter());
    assert_eq!(declared(&lpc()), DriverCapabilities::grid());
    assert_eq!(declared(&ev()), DriverCapabilities::beside().on_change());
    assert_eq!(declared(&dhw()), DriverCapabilities::device().on_change());
    assert_eq!(declared(&heat_pump()), DriverCapabilities::device().on_change());
    assert_eq!(declared(&registers()), DriverCapabilities::meter());
}

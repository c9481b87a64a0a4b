//! What a household is described by, and what is refused of it.

use hemsd::clock::{Horizon, Instant, SECOND};
use hemsd::config::{
    crossing, default_charge_target, default_departure, default_failsafe_hours, default_poll_ms,
    default_request_timeout_s, default_timeout_ms, default_unit, minute_of, Bundesland,
    ControlSettings, EebusEvSettings, EnergyPrice, HeatPumpInterface, Modul, Modul3Settings,
    NetworkCharge, Quantile, Quarter, RiskModel, RiskSettings, Settings, SettingsError,
    SiteSettings, TariffSettings,
};
use hemsd::runtime::fleet::Exact;
use hemsd::site::{
    BatteryConfig, DhwConfig, EvseConfig, GeoPoint, HeatPumpConfig, HeatPumpControl,
    HouseholdConfig, Para9Status, PvConfig,
};
use std::collections::BTreeMap;
use time::{Date, Month};

/// 2026-01-15 18:00:00 UTC.
const EVENING: Instant = 1_768_500_000 * SECOND;

fn imsys_since() -> i32 {
    Date::from_calendar_date(2024, Month::June, 1).expect("a date").to_julian_day()
}

/// A household with every device there is.
fn reference() -> HouseholdConfig {
    HouseholdConfig {
        pv: Some(PvConfig {
            kwp: 10_000_000,
            ac_nominal: 8_000_000,
            para9: Para9Status { imsys_since: Some(imsys_since()), relieved: false },
        }),
        battery: Some(BatteryConfig {
            kwh: 10_000_000,
            power: 5_000_000,
            reserve_soc: 100_000,
            wear_eur_per_kwh: 20_000,
        }),
        evse: Some(EvseConfig { max_current: 16_000_000, switchable: true, charge_limit: Some(800_000) }),
        heat_pump: Some(HeatPumpConfig {
            power: 5_000_000,
            modulating: true,
            comfort_min_c: 20_000_000,
            comfort_max_c: 23_000_000,
            control: HeatPumpControl::PowerCeiling,
        }),
        dhw: Some(DhwConfig { litres: 200_000_000, heater: 2_000_000 }),
        fuse: 35_000_000,
        location: GeoPoint { latitude: 52_520_000, longitude: 13_405_000, altitude_m: 34_000_000 },
        dishwasher: Some(vec![2_000_000, 500_000]),
    }
}

fn described() -> SiteSettings {
    SiteSettings::describing(&reference())
}

fn same(a: &HouseholdConfig, b: &HouseholdConfig) -> bool {
    a.pv == b.pv
        && a.battery == b.battery
        && a.evse == b.evse
        && a.heat_pump == b.heat_pump
        && a.dhw == b.dhw
        && a.fuse == b.fuse
        && a.location == b.location
        && a.dishwasher == b.dishwasher
}

#[test]
fn the_default_configuration_is_the_reference_household() {
    let settings = Settings::unconfigured(&reference());
    let built = settings.site.household().expect("the defaults are valid");
    assert!(same(&built, &reference()));
}

#[test]
fn a_fraction_outside_zero_to_one_is_a_typo_and_is_named() {
    let settings = SiteSettings { reserve_soc: 30_000_000, ..described() };
    let err = settings.household().expect_err("thirty is no fraction");
    assert!(matches!(&err, SettingsError::NotAFraction { field, .. } if field == "reserve_soc"));
    assert_eq!(err.message(), "reserve_soc is 30, and a fraction is between 0 and 1");

    let settings = SiteSettings { ev_charge_limit: Some(-1), ..described() };
    assert!(matches!(
        settings.household(),
        Err(SettingsError::NotAFraction { field, value }) if field == "ev_charge_limit" && value == "-0.000001"
    ));
}

#[test]
fn an_upside_down_comfort_band_is_refused() {
    let settings = SiteSettings { comfort_min_c: 23_000_000, comfort_max_c: 20_000_000, ..described() };
    let err = settings.household().expect_err("that is no band");
    assert!(matches!(err, SettingsError::NotABand { .. }));
    assert_eq!(err.message(), "the comfort band is 23 °C to 20 °C, which is not a band");
}

#[test]
fn a_date_nobody_can_read_is_refused() {
    let settings = SiteSettings { imsys_since: Some("June".to_string()), ..described() };
    let err = settings.household().expect_err("June is no date");
    assert_eq!(
        err.message(),
        "imsys_since is \"June\", which is not an RFC 3339 date like 2024-06-01"
    );
    let settings = SiteSettings { imsys_since: None, ..described() };
    let house = settings.household().expect("a house");
    assert_eq!(house.pv.map(|pv| pv.para9.imsys_since), Some(None));
}

#[test]
fn the_feed_in_cap_stays_on_until_the_operator_has_tested_the_box() {
    let built = described().household().expect("the defaults are valid");
    assert_eq!(built.pv.map(|pv| pv.para9), reference().pv.map(|pv| pv.para9));
    let tested = SiteSettings { imsys_control_device: true, ..described() };
    let built = tested.household().expect("a house");
    assert_eq!(built.pv.map(|pv| pv.para9.relieved), Some(true));
}

#[test]
fn a_size_of_zero_is_the_absence_of_the_device() {
    let settings = SiteSettings {
        pv_kwp: 0,
        battery_kwh: 0,
        evse_max_a: 0,
        heat_pump_kw: 0,
        dhw_litres: 0,
        ..described()
    };
    let config = settings.household().expect("a bare house is a valid one");
    assert!(config.pv.is_none(), "no roof");
    assert!(config.battery.is_none(), "no battery");
    assert!(config.evse.is_none(), "no charge point");
    assert!(config.heat_pump.is_none(), "no heat pump");
    assert!(config.dhw.is_none(), "no tank");
    assert!(config.dishwasher.is_some(), "and the dishwasher stays");
    let without = SiteSettings { battery_kw: 0, dhw_heater_kw: 0, dishwasher_kw_steps: vec![], ..described() };
    let config = without.household().expect("a house");
    assert!(config.battery.is_none() && config.dhw.is_none() && config.dishwasher.is_none());
}

#[test]
fn the_defaults_still_describe_the_whole_reference_household() {
    let household = described().household().expect("the defaults are valid");
    assert!(household.pv.is_some());
    assert!(household.battery.is_some());
    assert!(household.evse.is_some());
    assert!(household.heat_pump.is_some());
    assert!(household.dhw.is_some());
    assert!(household.dishwasher.is_some());
    assert_eq!(described().bundesland, Bundesland::Be);
}

#[test]
fn what_nobody_said_is_what_everybody_has() {
    assert_eq!(default_unit(), 1);
    assert_eq!(default_poll_ms(), 1_000);
    assert_eq!(default_timeout_ms(), 5_000);
    assert_eq!(default_failsafe_hours(), 2);
    assert_eq!(default_departure(), "07:00");
    assert_eq!(default_charge_target(), 800_000);
    assert_eq!(default_request_timeout_s(), 10);
    let control = ControlSettings::default();
    assert_eq!(control.tick_period(), SECOND);
    assert_eq!(control.replan_every(), 300 * SECOND);
    assert_eq!(control.horizon_slots, 192);
}

#[test]
fn a_pessimist_plans_for_a_dull_and_hungry_day() {
    assert_eq!(RiskSettings::default().model(), RiskModel::Deterministic);
    assert_eq!(RiskSettings::Expected.model(), RiskModel::Expected);
    assert_eq!(RiskSettings::Hedged.model(), RiskModel::Hedged);
    assert_eq!(
        RiskSettings::Pessimistic.model(),
        RiskModel::AtQuantile(Quantile::P10, Quantile::P90)
    );
}

#[test]
fn an_interface_and_what_it_controls_name_each_other() {
    for (interface, control) in [
        (HeatPumpInterface::SgReady, HeatPumpControl::SgReady),
        (HeatPumpInterface::PowerCeiling, HeatPumpControl::PowerCeiling),
        (HeatPumpInterface::OperationModes, HeatPumpControl::OperationModes),
        (HeatPumpInterface::Compressor, HeatPumpControl::Compressor),
    ] {
        assert_eq!(interface.control(), control);
        assert_eq!(HeatPumpInterface::spelling(control), interface);
    }
    assert_eq!(HeatPumpInterface::default(), HeatPumpInterface::PowerCeiling);
}

#[test]
fn an_ordinary_tariff_is_priced_to_the_fourth_place() {
    let tariff = TariffSettings::default().tariff(BTreeMap::new(), None);
    match tariff.energy {
        EnergyPrice::Dynamic { spot, markup_ct_per_kwh, fallback_ct_per_kwh } => {
            assert!(spot.is_empty());
            assert_eq!(markup_ct_per_kwh, Exact { mantissa: 30_000, scale: 4 });
            assert_eq!(fallback_ct_per_kwh, Exact { mantissa: 200_000, scale: 4 });
        }
        EnergyPrice::Fixed { .. } => panic!("nothing is fixed"),
    }
    assert!(matches!(
        tariff.network,
        NetworkCharge::Modul1 { arbeitspreis, reduction_eur_per_year }
            if arbeitspreis == Exact { mantissa: 100_000, scale: 4 }
                && reduction_eur_per_year == Exact { mantissa: 1_200_000, scale: 4 }
    ));
    assert_eq!(tariff.feed_in.paid, Some(Exact { mantissa: 78_600, scale: 4 }));
    assert_eq!(tariff.standing_charge_eur_per_year, Exact { mantissa: 1_200_000, scale: 4 });

    // A half goes to the even place.
    let half = TariffSettings {
        fixed_ct_per_kwh: Some(25_000_050),
        feed_in_ct_per_kwh: 0,
        modul: Modul::Modul2,
        ..TariffSettings::default()
    };
    let tariff = half.tariff(BTreeMap::new(), Some(2_461_000));
    assert!(matches!(
        tariff.energy,
        EnergyPrice::Fixed { ct_per_kwh } if ct_per_kwh == Exact { mantissa: 250_000, scale: 4 }
    ));
    assert_eq!(tariff.feed_in.paid, None);
    assert_eq!(tariff.feed_in.para51_from, Some(2_461_000));
    assert!(matches!(
        tariff.network,
        NetworkCharge::Modul2 { remaining_share, metering_eur_per_year, .. }
            if remaining_share == Exact { mantissa: 4, scale: 1 }
                && metering_eur_per_year == Exact { mantissa: 25, scale: 0 }
    ));
    let up = TariffSettings { fixed_ct_per_kwh: Some(-25_000_150), modul: Modul::NoModul, ..TariffSettings::default() };
    let tariff = up.tariff(BTreeMap::new(), None);
    assert!(matches!(
        tariff.energy,
        EnergyPrice::Fixed { ct_per_kwh } if ct_per_kwh == Exact { mantissa: -250_002, scale: 4 }
    ));
    assert!(matches!(tariff.network, NetworkCharge::Flat { .. }));
}

#[test]
fn a_calendar_prices_three_bands_and_one_that_names_no_quarter_prices_none() {
    let calendar = |quarters: Vec<String>| Modul3Settings {
        id: "NB-14A-3-2026".to_string(),
        year: 2026,
        hochtarif_minutes: [17 * 60, 20 * 60],
        niedertarif_minutes: [22 * 60, 6 * 60],
        billed_quarters: quarters,
        ht_ct_per_kwh: 18_000_000,
        st_ct_per_kwh: 10_000_000,
        nt_ct_per_kwh: 4_000_000,
        source: None,
    };
    let on = |m: Option<Modul3Settings>| TariffSettings {
        modul: Modul::Modul3,
        modul3: m,
        ..TariffSettings::default()
    };
    let known = on(Some(calendar(vec!["Q1".to_string(), "Q4".to_string()])));
    match known.tariff(BTreeMap::new(), None).network {
        NetworkCharge::Modul3 { year, hochtarif_minutes, niedertarif_minutes, quarters, ht, st, nt, .. } => {
            assert_eq!(year, 2026);
            assert_eq!((hochtarif_minutes, niedertarif_minutes), ([1020, 1200], [1320, 360]));
            assert_eq!(quarters, vec![Quarter::Q1, Quarter::Q4]);
            assert_eq!(ht, Exact { mantissa: 180_000, scale: 4 });
            assert_eq!(st, Exact { mantissa: 100_000, scale: 4 });
            assert_eq!(nt, Exact { mantissa: 40_000, scale: 4 });
        }
        other => panic!("{other:?}"),
    }
    let mistyped = on(Some(calendar(vec!["Q5".to_string()])));
    assert!(matches!(mistyped.tariff(BTreeMap::new(), None).network, NetworkCharge::Flat { .. }));
    assert!(matches!(on(None).tariff(BTreeMap::new(), None).network, NetworkCharge::Flat { .. }));
}

#[test]
fn a_departure_is_a_time_of_day() {
    assert_eq!(minute_of("07:00"), Some(420));
    assert_eq!(minute_of(" 7 : 5 "), Some(425));
    assert_eq!(minute_of("+7:00"), Some(420));
    assert_eq!(minute_of("24:00"), None);
    assert_eq!(minute_of("7:60"), None);
    assert_eq!(minute_of("seven"), None);
    assert_eq!(minute_of("7:00:00"), None);
}

#[test]
fn a_departure_is_the_first_time_the_clock_reaches_it() {
    assert_eq!(crossing(&vec![400, 415, 430, 445], 420), Some(2));
    assert_eq!(crossing(&vec![420, 435], 420), None, "a departure is never now");
    assert_eq!(crossing(&vec![1410, 1425, 0, 15], 0), Some(2), "midnight is reached from the day before");
    assert_eq!(crossing(&vec![1425, 0, 15], 1430), Some(1));
    assert_eq!(crossing(&vec![150, 165, 120, 135, 150], 420), None, "an hour set back is no midnight");
    assert_eq!(crossing(&vec![105, 180], 150), Some(1), "nor is one set forward");
    assert_eq!(crossing(&vec![], 420), None);
    let ev = EebusEvSettings {
        asset: "wallbox".to_string(),
        address: "192.168.1.50:4712".to_string(),
        ski: "00".repeat(20),
        departure: "07:00".to_string(),
        target_soc: 800_000,
        spine_vendor: None,
        spine_unique: None,
    };
    let slot = ev.departure_slot(Horizon::new(EVENING, 96)).expect("seven comes before evening");
    // Seven o'clock in Berlin is six in UTC.
    assert_eq!(slot.start(), EVENING + 12 * 3600 * SECOND);
    assert_eq!(ev.departure_slot(Horizon::new(EVENING, 8)), None);
    let midnight = EebusEvSettings { departure: "00:00".to_string(), ..ev };
    let slot = midnight.departure_slot(Horizon::new(EVENING, 96)).expect("the next midnight");
    assert_eq!(slot.start(), EVENING + 5 * 3600 * SECOND);
    let late = EebusEvSettings { departure: "23:50".to_string(), ..midnight };
    assert_eq!(late.departure_slot(Horizon::new(EVENING, 96)), Some(slot));
}

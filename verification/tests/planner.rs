//! What a box plans with, and what it leaves out.

use hemsd::clock::{Horizon, Instant, Slot, HOUR, MINUTE, SECOND, SLOT};
use hemsd::config::{
    Bundesland, ControlSettings, EebusEvSettings, EnergyPrice, Preferences, Quantile, RiskModel,
    RiskSettings, TariffSettings,
};
use hemsd::runtime::control::Lesson;
use hemsd::drivers::{
    DriverCapabilities, DriverEvent, Flexibility, LinkState, Measurement, Observed, Registry,
    VehiclePresence,
};
use hemsd::runtime::day::Band;
use hemsd::runtime::fleet::{PricePoint, Prices, Sky, SkyPoint};
use hemsd::runtime::planner::{
    publish_modelled,
    attempt, battery_model, corrected, dhw_model, ev_session, heat_pump_model, is_refit_due,
    publish, replan_period_s, slots_of, solved, taught, to_series, BatteryAsset, Cached, EvseAsset,
    HeatPumpAsset, Household, Learned, LoadProfile, LoadSource, Planner, Reason,
};
use hemsd::site::{Asset, Site};
use std::collections::BTreeMap;

/// 2026-01-15 18:00:00 UTC.
const NOW: Instant = 1_768_500_000 * SECOND;

const BATTERY: BatteryAsset = BatteryAsset {
    capacity: 10_000_000,
    max_charge: 5_000_000,
    max_discharge: 5_000_000,
    efficiency_charge: 950_000,
    efficiency_discharge: 950_000,
    soc_min: 50_000,
    soc_max: 1_000_000,
    reserve_soc: 100_000,
    grid_charging_allowed: true,
};

const UNIT: HeatPumpAsset = HeatPumpAsset {
    electrical_nominal: 5_000_000,
    modulating: true,
    comfort_min_c: 20_000_000,
    comfort_max_c: 23_000_000,
};

fn household() -> Household {
    Household {
        grid_meter: "netzanschluss".to_string(),
        pv: Some("pv".to_string()),
        battery: Some(("battery".to_string(), BATTERY)),
        evse: Some(("wallbox".to_string(), EvseAsset { max_charge: 11_000_000, min_charge: 1_400_000 })),
        heat_pump: Some(("waermepumpe".to_string(), UNIT)),
        dhw: Some("warmwasser".to_string()),
    }
}

fn charging() -> EebusEvSettings {
    EebusEvSettings {
        asset: "wallbox".to_string(),
        address: "192.168.1.50:4712".to_string(),
        ski: "00".repeat(20),
        departure: "07:00".to_string(),
        target_soc: 800_000,
        spine_vendor: None,
        spine_unique: None,
    }
}

fn site() -> Site {
    let names = ["netzanschluss", "pv", "battery", "wallbox", "waermepumpe", "warmwasser"];
    Site {
        id: "haus".to_string(),
        assets: names
            .iter()
            .map(|id| Asset { id: id.to_string(), controllable: true, participates: false })
            .collect(),
    }
}

fn reading() -> Measurement {
    Measurement { at: NOW, power_mw: None, temperature_mc: None, soc_ppm: None }
}

/// What a box observes where each of these devices said one thing.
fn observed(said: Vec<(&str, DriverEvent)>) -> Observed {
    let mut registry = Registry::new();
    for (asset, event) in said {
        let id = registry
            .register(asset.to_string(), DriverCapabilities::device(), NOW, &site())
            .expect("a driver");
        registry.hear(id, DriverEvent::Link(LinkState::Up));
        registry.hear(id, DriverEvent::Measured(reading()));
        registry.hear(id, event);
    }
    registry.observe(Some("netzanschluss"), NOW)
}

fn car(connected: bool, soc_ppm: Option<i64>, capacity_mwh: Option<i64>) -> Observed {
    let presence = VehiclePresence { connected, soc_ppm, capacity_mwh, at: NOW };
    observed(vec![("wallbox", DriverEvent::Vehicle(presence))])
}

#[test]
fn a_car_nobody_can_see_is_not_a_car_to_plan_for() {
    let horizon = Horizon::new(NOW, 96);
    let session = |o: &Observed| ev_session(o, &household(), Some(&charging()), horizon);

    // Nothing reported anything at all.
    assert!(session(&observed(vec![])).is_none());

    // A charge point that can tell, saying there is no car.
    assert!(session(&car(false, None, None)).is_none());

    // A car that is there but cannot say how full it is.
    assert!(
        session(&car(true, None, Some(58_000_000))).is_none(),
        "half a battery is not a battery"
    );
}

#[test]
fn a_car_on_the_cable_becomes_a_charging_deadline() {
    let horizon = Horizon::new(NOW, 96);
    let there = car(true, Some(350_000), Some(58_000_000));

    let session = ev_session(&there, &household(), Some(&charging()), horizon).expect("a session");

    // In millionths of a milliwatt-hour.
    assert_eq!(session.energy_now, 20_300_000 * 1_000_000, "35 % of 58 kWh");
    assert_eq!(
        session.energy_target,
        46_400_000 * 1_000_000,
        "and 80 % is what the household asked for, not 100 %"
    );
    assert_eq!(hemsd::clock::local_minute(session.departure.start()), 7 * 60);
    assert!(session.deadline() < session.departure);
    assert_eq!((session.max_charge, session.min_charge), (11_000_000, 1_400_000));
    assert_eq!(session.efficiency, 920_000);

    // …and a car already at its target is not a session at all.
    let full = car(true, Some(900_000), Some(58_000_000));
    assert!(ev_session(&full, &household(), Some(&charging()), horizon).is_none());
    assert!(ev_session(&there, &household(), None, horizon).is_none());
}

#[test]
fn an_unmeasured_tank_is_absent_from_the_plan_rather_than_assumed() {
    assert!(
        dhw_model(&observed(vec![]), &household()).is_none(),
        "nothing reported a temperature, so there is no store to plan"
    );
    assert!(household().dhw.is_some());
}

#[test]
fn a_measured_tank_becomes_a_store_the_planner_can_move() {
    let warm = observed(vec![(
        "warmwasser",
        DriverEvent::Measured(Measurement { temperature_mc: Some(52_500), ..reading() }),
    )]);
    let model = dhw_model(&warm, &household()).expect("a store");
    assert_eq!(model.temperature_mc, 52_500);
}

#[test]
fn a_restart_does_not_cost_a_fortnight_of_learning() {
    let fresh = Learned { pv: 1.0, load: LoadProfile { land: Bundesland::Be, history: vec![] }, building: 0 };
    let after = Learned::restored(
        fresh,
        Ok(Some(0.9)),
        Ok(Some(LoadProfile { land: Bundesland::Be, history: vec![600_000; 96 * 14] })),
        Ok(None),
        Bundesland::Be,
    );
    assert!(
        !after.load.history.is_empty(),
        "a restored box knows its own household and can plan at once"
    );
    assert!((after.pv - 0.9_f64).abs() < 1e-9, "…and it knows what its own roof actually delivers");
}

#[test]
fn a_model_this_build_cannot_read_is_relearned_rather_than_fatal() {
    let fresh = Learned { pv: 1.0, load: LoadProfile { land: Bundesland::Be, history: vec![0] }, building: 7 };
    let restored = Learned::restored(
        fresh,
        Err("a shape from some other version".to_string()),
        Ok(None),
        Ok(Some(8)),
        Bundesland::Be,
    );
    assert!((restored.pv - 1.0_f64).abs() < 1e-9, "the unreadable half is simply relearned");
    assert_eq!(restored.building, 8);
}

#[test]
fn the_configured_bundesland_wins_over_the_stored_one() {
    let fresh = Learned { pv: (), load: LoadProfile { land: Bundesland::Nw, history: 0 }, building: () };
    let stored = LoadProfile { land: Bundesland::By, history: 14 };
    let restored = Learned::restored(fresh, Ok(None), Ok(Some(stored)), Ok(None), Bundesland::Nw);
    assert_eq!(restored.load.land, Bundesland::Nw);
    assert_eq!(restored.load.history, 14);
}

#[test]
fn a_battery_nobody_reads_is_no_battery() {
    assert!(battery_model(&observed(vec![]), &household(), 20_000).is_none());
    let read = observed(vec![(
        "battery",
        DriverEvent::Measured(Measurement { soc_ppm: Some(640_000), ..reading() }),
    )]);
    let model = battery_model(&read, &household(), 20_000).expect("a battery");
    assert_eq!((model.soc_now, model.degradation_eur_per_kwh), (640_000, 20_000));
    assert_eq!(model.asset, BATTERY);
}

#[test]
fn a_house_is_planned_from_its_own_thermometer() {
    let warm = Measurement { temperature_mc: Some(21_300), ..reading() };
    let mut registry = Registry::new();
    let id = registry
        .register("waermepumpe".to_string(), DriverCapabilities::device(), NOW, &site())
        .expect("a driver");
    registry.hear(id, DriverEvent::Link(LinkState::Up));
    registry.hear(id, DriverEvent::Measured(warm));
    registry.hear(
        id,
        DriverEvent::Flexibility(Flexibility { min_run: Some(20 * MINUTE), min_rest: None, running: true }),
    );
    let model = heat_pump_model(&registry.observe(None, NOW), &household()).expect("a house");
    assert_eq!(model.indoor_mc, 21_300);
    assert_eq!(model.discomfort_eur_per_kelvin_hour, 1_500_000);
    let offer = model.offer.expect("it announced itself");
    assert_eq!(offer.min_on_slots, Some(2), "twenty minutes are not one quarter hour");
    assert_eq!(offer.min_off_slots, None);
    assert!(offer.running);
}

#[test]
fn a_minimum_is_never_cut_short() {
    assert_eq!(slots_of(0), 1);
    assert_eq!(slots_of(SLOT), 1);
    assert_eq!(slots_of(SLOT + 1), 2);
    assert_eq!(slots_of(HOUR), 4);
}

fn cached() -> Cached {
    let mut cached = Cached::new();
    let prices = Prices {
        points: vec![PricePoint { slot: NOW, price_ct: "8.42".to_string() }],
        coverage_ppm: 1_000_000,
        contiguous_until: None,
    };
    let sky = Sky {
        fetched_at: NOW,
        published_minutes: 15,
        points: vec![SkyPoint { slot: NOW + 1, ghi_w_per_m2: 0, temperature_c: 3_500_000, cloud_cover: None }],
    };
    let mut carbon = BTreeMap::new();
    carbon.insert(1, 300_000_000);
    cached.refresh(Ok(Some(prices)), Ok(Some(sky)), Some(Ok(Some(carbon))), NOW);
    cached
}

fn planner(tariff: TariffSettings) -> Planner {
    Planner {
        household: household(),
        tariff,
        control: ControlSettings {
            horizon_slots: 1,
            risk: RiskSettings::Pessimistic,
            preferences: Preferences { co2_eur_per_kg: 55_000, autarky_eur_per_kwh: 0 },
            ..ControlSettings::default()
        },
        wear_eur_per_kwh: 20_000,
        charging: Some(charging()),
    }
}

#[test]
fn a_failure_costs_no_answer() {
    let mut cached = cached();
    cached.refresh(Err("down".to_string()), Ok(None), None, NOW + HOUR);
    assert!(cached.prices.is_some() && cached.sky.is_some());
    assert_eq!(cached.prices_at, Some(NOW));
    assert_eq!(cached.carbon.len(), 1);
}

#[test]
fn a_round_is_refused_for_the_first_thing_it_lacks() {
    let dynamic = planner(TariffSettings::default());
    let nothing = observed(vec![]);
    assert!(matches!(
        attempt(&dynamic, &Cached::new(), &nothing, false, None, NOW),
        Err(Reason::NoPrices)
    ));
    let fixed = planner(TariffSettings { fixed_ct_per_kwh: Some(30_000_000), ..TariffSettings::default() });
    assert!(matches!(
        attempt(&fixed, &Cached::new(), &nothing, false, None, NOW),
        Err(Reason::NoSky)
    ));
    let err = attempt(&dynamic, &cached(), &nothing, false, None, NOW).expect_err("nobody measures");
    assert!(matches!(err, Reason::NoHistory));
    assert_eq!(
        err.message(),
        "no load history and no grid meter, so there is nothing to plan against"
    );
}

#[test]
fn a_device_is_named_exactly_where_it_is_modelled() {
    let metered = observed(vec![
        (
            "netzanschluss",
            DriverEvent::Measured(Measurement { power_mw: Some(1_200_000), ..reading() }),
        ),
        (
            "battery",
            DriverEvent::Measured(Measurement { soc_ppm: Some(500_000), ..reading() }),
        ),
    ]);
    let problem = attempt(&planner(TariffSettings::default()), &cached(), &metered, false, Some(1), NOW)
        .expect("a problem");
    assert_eq!(problem.horizon.len, 4, "less than an hour is not worth planning");
    assert_eq!(problem.load, LoadSource::Persistence(1_200_000));
    assert!(problem.battery.is_some() && problem.ev.is_none() && problem.thermal.is_none());
    assert_eq!(problem.names.battery.as_deref(), Some("battery"));
    assert_eq!(problem.names.pv.as_deref(), Some("pv"));
    assert_eq!((problem.names.evse, problem.names.heat_pump, problem.names.dhw), (None, None, None));
    assert_eq!(problem.carbon.get(&1), Some(&300_000_000));
    assert_eq!(problem.tariff.feed_in.para51_from, Some(1));
    assert_eq!(problem.objective.carbon_price, 55_000);
    assert_eq!(problem.risk, RiskModel::AtQuantile(Quantile::P10, Quantile::P90));
    assert_eq!(problem.solve_budget_s, 10_000_000);
    match problem.tariff.energy {
        EnergyPrice::Dynamic { spot, .. } => assert_eq!(spot.len(), 1),
        EnergyPrice::Fixed { .. } => panic!("nothing is fixed"),
    }
    let learned = attempt(&planner(TariffSettings::default()), &cached(), &metered, true, None, NOW)
        .expect("a problem");
    assert_eq!(learned.load, LoadSource::History);
}

#[test]
fn a_roof_nobody_modelled_is_dark() {
    let band = Band { p10: 1, p50: 2, p90: 3 };
    let horizon = Horizon::new(NOW, 2);
    let second = Slot { index: horizon.first.index + 1 };
    let forecast = corrected(&vec![(second, 10), (second, 20)], &vec![Band { p10: 0, ..band }, band], horizon);
    assert_eq!(forecast.len(), 2);
    assert_eq!(forecast[0], (horizon.first, Band { p10: 0, p50: 0, p90: 0 }));
    assert_eq!(forecast[1], (second, band), "the last one stands");
}

#[test]
fn what_is_published_is_what_was_planned_with() {
    let sky = cached().sky.expect("a sky");
    let series = to_series(&sky);
    assert_eq!(series[0].slot, Slot::containing(NOW));
    let band = Band { p10: 1, p50: 2, p90: 3 };
    let slot = Slot::containing(NOW);
    let next = Slot { index: slot.index + 1 };
    let published = publish(&series, &vec![(slot, band), (next, band)], &vec![(slot, band)]);
    assert_eq!(published.outdoor.get(&slot.index), Some(&3_500_000));
    assert_eq!(published.bands.len(), 1, "a band without its other half is no band");
}

#[test]
fn a_roof_nobody_modelled_is_taught_nothing() {
    let lesson = Lesson { slot: Slot { index: 4 }, pv_mw: 900, load_mw: 400 };
    let both = taught(lesson, Some(1_000));
    assert_eq!((both.roof, both.load_mw), (Some((1_000, 900)), 400));
    assert_eq!(taught(lesson, None).roof, None);
    assert!(Preferences { co2_eur_per_kg: 1, autarky_eur_per_kwh: 0 }.prices_carbon());
    assert!(!Preferences::default().prices_carbon());
}

#[test]
fn a_solver_that_fails_or_panics_is_a_reason() {
    assert_eq!(solved(Ok(Ok(5))).expect("an answer"), 5);
    let failed: Result<i32, Reason> = solved(Ok(Err("infeasible".to_string())));
    assert_eq!(failed.expect_err("it failed").message(), "the solver could not answer: infeasible");
    let panicked: Result<i32, Reason> = solved(Err("index out of bounds".to_string()));
    assert_eq!(
        panicked.expect_err("it panicked").message(),
        "the solver could not answer: the solve panicked: index out of bounds"
    );
    assert_eq!(Reason::NoStateOfCharge.message(), "the battery's charge is not being reported");
}

#[test]
fn a_model_is_refitted_once_a_day_and_a_plan_made_once_a_minute_at_most() {
    assert!(is_refit_due(None, 5) && is_refit_due(Some(4), 5) && !is_refit_due(Some(5), 5));
    assert_eq!(replan_period_s(0), 60);
    assert_eq!(replan_period_s(300), 300);
}

#[test]
fn what_the_roof_was_modelled_to_make_is_left_for_the_loop() {
    let first = Slot::containing(NOW);
    let next = Slot { index: first.index + 1 };
    let published = publish_modelled(&vec![(first, 100), (next, 200), (first, 150)]);
    assert_eq!(published.get(&first.index), Some(&150), "what is modelled later stands");
    assert_eq!(published.get(&next.index), Some(&200));
    assert_eq!(published.len(), 2);
}

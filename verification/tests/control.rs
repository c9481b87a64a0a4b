//! The accounts of one turn, and of the quarter hour it falls in.

use hemsd::clock::{day_window, Instant, Slot, HOUR, MINUTE, SECOND, SLOT};
use hemsd::drivers::{
    DriverCapabilities, DriverEvent, GridLimits, LinkState, Measurement, Observed, PhaseMode,
    Registry,
};
use hemsd::names::ByName;
use hemsd::runtime::control::{
    can_be_counted, recorded_assets, ControlMode,
    close_the_day, meter, observation, readiness, record, register, total, whole_seconds, Beside, Carried, Decision,
    GuardRule, Keeping, Managed, PlanInForce, Price, Status, Tally,
};
use hemsd::runtime::day::{Band, Clipping, Registers};
use hemsd::site::{Asset, Site};
use time::{Date, Month};

/// 2026-01-15 12:00:00 UTC.
const NOW: Instant = 1_768_478_400 * SECOND;

const PRICE: Price = Price { export_ct: 7_860_000, energy_ct: 8_420_000 };

fn managed() -> Managed {
    Managed {
        grid_meter: Some("netzanschluss".to_string()),
        undriven: vec!["waermepumpe".to_string()],
        pv: "pv".to_string(),
        battery: "battery".to_string(),
        evse: "wallbox".to_string(),
        control_mode: ControlMode::Ems,
    }
}

/// What a box observes where these devices draw these powers.
fn observed(powers: &[(&str, i64)], at: Instant) -> Observed {
    let site = Site {
        id: "haus".to_string(),
        assets: ["netzanschluss", "pv", "battery", "wallbox"]
            .iter()
            .map(|id| Asset { id: id.to_string(), controllable: true, participates: false })
            .collect(),
    };
    let mut registry = Registry::new();
    for (asset, power) in powers {
        let id = registry
            .register(asset.to_string(), DriverCapabilities::device(), NOW, &site)
            .expect("a driver");
        registry.hear(id, DriverEvent::Link(LinkState::Up));
        registry.hear(
            id,
            DriverEvent::Measured(Measurement { at, power_mw: Some(*power), temperature_mc: None, soc_ppm: None }),
        );
    }
    registry.observe(Some("netzanschluss"), at)
}

fn sunny(at: Instant) -> Observed {
    observed(
        &[("netzanschluss", -2_000_000), ("pv", -5_000_000), ("battery", 1_000_000), ("wallbox", 1_500_000)],
        at,
    )
}

fn beside() -> Beside {
    let blank = Status::default();
    Beside {
        roof_health: None,
        exposure: None,
        assumed_nominal: vec!["wallbox".to_string()],
        overriding: ByName::new(),
        cem: blank.cem,
    }
}

fn decision(wallbox: i64) -> Decision {
    let mut commanded = ByName::new();
    commanded.insert("wallbox".to_string(), wallbox);
    let mut phases = ByName::new();
    phases.insert("wallbox".to_string(), PhaseMode::Single);
    Decision {
        commanded,
        phases,
        steuve_budget_mw: Some(4_200_000),
        netzwirksam_mw: 1_500_000,
        balance_residual_mw: None,
        clipped: ByName::new(),
    }
}

#[test]
fn a_turn_adds_everything_that_was_read_times_its_length() {
    let mut tally = Tally::zero();
    meter(&mut tally, &sunny(NOW), &managed(), 2);
    assert_eq!(tally.pv_mj, 10_000_000);
    assert_eq!((tally.samples, tally.pv_samples), (1, 1));
    assert_eq!(tally.load_mj, 1_000_000, "the house drew half a kilowatt");
    assert_eq!((tally.grid_draw_mj, tally.grid_feed_mj), (0, 4_000_000));
    assert_eq!((tally.device_draw_mj, tally.device_feed_mj), (5_000_000, 0));
}

#[test]
fn a_tally_does_not_depend_on_how_it_is_cut() {
    let (mut a, mut b) = (Tally::zero(), Tally::zero());
    meter(&mut a, &sunny(NOW), &managed(), 3);
    meter(&mut a, &sunny(NOW), &managed(), 4);
    meter(&mut b, &sunny(NOW), &managed(), 7);
    assert_eq!((a.pv_mj, a.load_mj, a.grid_feed_mj), (b.pv_mj, b.load_mj, b.grid_feed_mj));
}

#[test]
fn a_silent_meter_counts_nothing() {
    let mut tally = Tally::zero();
    meter(&mut tally, &observed(&[("pv", -5_000_000)], NOW), &managed(), 60);
    assert_eq!(tally, Tally::zero());
}

#[test]
fn a_quarter_hour_is_written_to_the_millionth() {
    let tally = Tally { grid_draw_mj: 1_800, grid_feed_mj: 5_400, pv_mj: 3_600, samples: 1, ..Tally::zero() };
    let slot = Slot::containing(NOW);
    let written = register(slot, &tally, Some(PRICE), true).expect("a register");
    assert_eq!(written.grid_draw, 0, "a half goes to the even one");
    assert_eq!(written.grid_feed_in, 2);
    assert_eq!(written.production, None, "nothing read the roof");
    assert_eq!(written.price, PRICE);
    let read = Tally { pv_samples: 1, ..tally };
    assert_eq!(register(slot, &read, Some(PRICE), true).expect("a register").production, Some(1));
    assert!(register(slot, &tally, None, true).is_none());
    assert!(register(slot, &tally, Some(PRICE), false).is_none());
    assert!(register(slot, &Tally::zero(), Some(PRICE), true).is_none());
}

#[test]
fn a_boundary_teaches_writes_and_starts_again() {
    let band = Band { p10: 1, p50: 2, p90: 3 };
    let mut carried = Carried::new(NOW);
    assert!(carried.open_turn(NOW, false, None, None, true, 60).is_none());
    let (status, silent) =
        carried.close_turn(decision(3_600_000), &sunny(NOW), &managed(), &None, beside(), 60, NOW);
    assert_eq!(silent, 0);
    assert_eq!(status.commanded.get("wallbox"), Some(&3_600_000));
    assert_eq!(status.minutes_without_a_plan, i64::MAX);
    assert_eq!(status.undriven, vec!["waermepumpe".to_string()]);
    assert_eq!(status.assumed_nominal, vec!["wallbox".to_string()]);
    assert_eq!(carried.delivered.get("wallbox"), Some(&(3_600_000 * 60)));
    assert_eq!(carried.previous.get("wallbox"), Some(&3_600_000));

    let later = NOW + SLOT;
    let boundary = carried
        .open_turn(later, true, Some((band, band)), Some(PRICE), true, 60)
        .expect("a boundary");
    let lesson = boundary.lesson.expect("a lesson");
    assert_eq!((lesson.slot, lesson.pv_mw, lesson.load_mw), (Slot::containing(NOW), 5_000_000, 500_000));
    let written = boundary.register.expect("a register");
    assert_eq!(written.grid_feed_in, 33_333, "two kilowatts for a minute");
    assert!(boundary.finished.is_none());
    assert_eq!(carried.tally, Tally::zero());
    assert!(carried.delivered.is_empty());
    assert_eq!(carried.scored.pv, vec![(band, 5_000_000)]);
    assert_eq!(carried.unplanned.minutes(), None, "it did not see the morning");
}

#[test]
fn a_day_ends_with_its_last_quarter_hour() {
    let day = Date::from_calendar_date(2026, Month::January, 15).expect("a date").to_julian_day();
    let (_, midnight) = day_window(day);
    let mut carried = Carried::new(midnight - MINUTE);
    let boundary = carried.open_turn(midnight, false, None, None, true, 30).expect("a boundary");
    assert!(boundary.lesson.is_none() && boundary.register.is_none());
    let finished = boundary.finished.expect("a day");
    assert_eq!(finished.day, day);
    assert_eq!(carried.unplanned.minutes(), Some(0), "the new day is watched from its beginning");

    let registers = Registers { grid_draw: 1_000_000, grid_feed_in: 0, device_generation: 0 };
    let closed = close_the_day(&finished, &vec![(midnight - SLOT, registers), (midnight, registers)], &vec![], "haus")
        .expect("a day with a register");
    assert_eq!(closed.day.imported_kwh, 1_000_000);
    assert_eq!(closed.message.id, "haus:2026-01-15");
    assert!(close_the_day(&finished, &vec![], &vec![], "haus").is_none());

    let mut forgetful = Carried::new(midnight - MINUTE);
    let boundary = forgetful.open_turn(midnight, false, None, None, false, 30).expect("a boundary");
    assert!(boundary.finished.is_none(), "nothing was kept of it");
}

#[test]
fn what_the_hardware_would_not_take_is_counted_until_the_day_ends() {
    let day = Date::from_calendar_date(2026, Month::January, 15).expect("a date").to_julian_day();
    let (_, midnight) = day_window(day);
    let eve = midnight - MINUTE;
    for has_store in [true, false] {
        let mut carried = Carried::new(eve);
        assert_eq!(carried.clipping, Clipping::zero());
        for (wallbox, tank) in [(1_000_000, 500_000), (0, 0), (-250_000, 0)] {
            let mut told = decision(0);
            told.clipped.insert("wallbox".to_string(), wallbox);
            told.clipped.insert("warmwasser".to_string(), tank);
            assert_eq!(total(&told.clipped), i128::from(wallbox + tank));
            carried.close_turn(told, &sunny(eve), &managed(), &None, beside(), 20, eve);
        }
        let withheld = Clipping { withheld_mj: 25_000_000, turns: 2 };
        assert_eq!(carried.clipping, withheld, "a kilowatt and a quarter for twenty seconds");
        assert!(carried.open_turn(eve, true, None, None, has_store, 20).is_none());
        assert_eq!(carried.clipping, withheld, "the day is not over");

        let boundary = carried.open_turn(midnight, true, None, None, has_store, 20).expect("a boundary");
        assert_eq!(carried.clipping, Clipping::zero(), "a new day, kept or not");
        assert_eq!(boundary.finished.is_some(), has_store);
        if let Some(finished) = boundary.finished {
            assert_eq!(finished.clipping, withheld);
            let registers = Registers { grid_draw: 1, grid_feed_in: 0, device_generation: 0 };
            let closed = close_the_day(&finished, &vec![(eve - SLOT, registers)], &vec![], "haus")
                .expect("a day with a register");
            assert_eq!(closed.clipping, withheld);
        }
    }
}

#[test]
fn a_tally_of_what_was_withheld_holds_only_so_much() {
    assert_eq!((whole_seconds(60), whole_seconds(u64::MAX)), (60, u32::MAX));
    assert!(Clipping::zero().can_count(i128::MAX, 1));
    assert!(!Clipping::zero().can_count(i128::MAX, 2));
    let full = Clipping { withheld_mj: i128::MAX, turns: 0 };
    assert!(full.can_count(0, 60) && full.can_count(-1, 60) && !full.can_count(1, 60));
    let counted = Clipping { withheld_mj: 0, turns: u64::MAX };
    assert!(counted.can_count(0, 60) && !counted.can_count(1, 60));
}

#[test]
fn a_plan_is_as_old_as_the_whole_minutes_since_it_was_made() {
    let mut carried = Carried::new(NOW);
    let plan = Some(PlanInForce { created_at: NOW - 5 * MINUTE - 59 * SECOND, expected_eur: Some(3), baseline_eur: Some(4) });
    let (status, _) = carried.close_turn(decision(0), &sunny(NOW), &managed(), &plan, beside(), 1, NOW);
    assert_eq!(status.minutes_without_a_plan, 5);
    assert_eq!((status.plan_expected_eur, status.plan_baseline_eur), (Some(3), Some(4)));
    assert_eq!(status.steuve_budget_mw, Some(4_200_000));
    assert_eq!(status.netzwirksam_mw, Some(1_500_000));
}

#[test]
fn a_turn_that_took_too_long_is_counted() {
    let mut carried = Carried::new(NOW);
    assert!(!carried.note_elapsed(SECOND, SECOND));
    assert!(carried.note_elapsed(SECOND + 1, SECOND));
    assert_eq!(carried.overruns, 1);
}

#[test]
fn a_box_is_ready_once_every_device_is_heard() {
    assert_eq!(readiness(0), None);
    assert_eq!(
        readiness(3).as_deref(),
        Some("3 of the configured devices are not being heard from")
    );
}

#[test]
fn the_record_says_why_a_ceiling_was_held() {
    let limits = GridLimits {
        steuve_ceiling_mw: Some(4_200_000),
        steuve_since: Some(NOW - HOUR),
        in_failsafe: true,
        feed_in_ceiling_mw: None,
        mgcp_factor_ppm: None,
    };
    let held = observation(&limits, ControlMode::Direct, 10_500_000, 3_000_000, 0);
    assert_eq!((held.ceiling_mw, held.rule, held.applied), (Some(4_200_000), GuardRule::Failsafe, false));
    assert_eq!(held.mode, ControlMode::Direct);
    let lifted = GridLimits { in_failsafe: false, ..limits };
    let asked = observation(&lifted, managed().control_mode, 10_500_000, 3_000_000, 2);
    assert_eq!(asked.mode, ControlMode::Ems);
    assert_eq!((asked.rule, asked.applied), (GuardRule::Lpc, true));
    assert_eq!((asked.minimum_power_mw, asked.netzwirksam_mw), (10_500_000, 3_000_000));
    let groups = vec![
        vec!["wallbox".to_string()],
        vec![],
        vec!["waermepumpe".to_string(), "battery".to_string()],
    ];
    assert_eq!(recorded_assets(&groups), ["wallbox", "waermepumpe", "battery"].map(str::to_string));
    assert_eq!(record(0, false), Keeping::Nothing);
    assert_eq!(record(2, false), Keeping::NowhereToGo(2));
    assert_eq!(record(2, true), Keeping::WriteAndPrune);
}

#[test]
fn a_tally_that_is_full_takes_no_more() {
    let full = Tally { samples: u32::MAX, ..Tally::zero() };
    let brim = Tally { pv_mj: u128::MAX, ..Tally::zero() };
    assert!(can_be_counted(&Tally::zero(), &sunny(NOW), &managed(), 900));
    assert!(!can_be_counted(&full, &sunny(NOW), &managed(), 900));
    assert!(!can_be_counted(&brim, &sunny(NOW), &managed(), 900));
    assert!(can_be_counted(&brim, &observed(&[], NOW), &managed(), 900), "nothing is counted");
}

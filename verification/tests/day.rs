//! What a box tells the fleet about a day that has finished.

use hemsd::clock::{day_window, Instant, SLOT};
use hemsd::runtime::day::{
    kpis, Band, Event, Registers, Scored, Unplanned, ENOUGH_OF_A_DAY,
};
use time::{Date, Month};

/// The fifteenth of January 2026.
fn date() -> i32 {
    Date::from_calendar_date(2026, Month::January, 15).expect("a date").to_julian_day()
}

/// A quarter hour of that day, in hundredths of a kilowatt-hour.
fn register(i: i128, draw: i64, feed: i64, produced: i64) -> (Instant, Registers) {
    let (midnight, _) = day_window(date());
    (
        midnight + i * SLOT,
        Registers {
            grid_draw: draw * 10_000,
            grid_feed_in: feed * 10_000,
            device_generation: produced * 10_000,
        },
    )
}

#[test]
fn a_day_the_box_never_metered_is_no_day_at_all() {
    let none = kpis(&vec![], &vec![], "haus-1", date(), &Unplanned::watching(), &Scored::new());
    assert!(none.is_none());
}

#[test]
fn the_energies_come_from_the_registers_and_the_money_does_not() {
    let rows: Vec<_> = (0..4).map(|i| register(i, 100, 25, 50)).collect();
    let day = kpis(&rows, &vec![], "haus-1", date(), &Unplanned::watching(), &Scored::new())
        .expect("four registers is a day");

    assert_eq!(day.imported_kwh, 4_000_000, "4 × 1,00 kWh");
    assert_eq!(day.exported_kwh, 1_000_000);
    assert_eq!(day.produced_kwh, 2_000_000);
    assert!(!day.forecast_scored, "and it did not score its own bands");
    assert_eq!(day.site, "haus-1");
    assert_eq!(day.date, date());
    assert_eq!(day.self_sufficiency_ppm, 200_000, "one of the five it consumed was its own");
    assert_eq!(day.shared_kwh, 0, "a community's arithmetic is not this box's");
    assert!(!day.foresight_was_perfect);
}

#[test]
fn a_register_from_the_next_day_belongs_to_the_next_day() {
    // 23:45 on the 15th, and 00:00 on the 16th.
    let rows = vec![register(95, 100, 0, 0), register(96, 400, 0, 0)];
    let day = kpis(&rows, &vec![], "haus-1", date(), &Unplanned::watching(), &Scored::new())
        .expect("one register is a day");
    assert_eq!(day.imported_kwh, 1_000_000, "only the 23:45 register");
    let next = kpis(&rows, &vec![], "haus-1", date() + 1, &Unplanned::watching(), &Scored::new())
        .expect("and so is the other");
    assert_eq!(next.imported_kwh, 4_000_000);
}

#[test]
fn a_day_in_march_has_an_hour_less_and_one_in_october_an_hour_more() {
    let spring = Date::from_calendar_date(2026, Month::March, 29).expect("a date").to_julian_day();
    let autumn = Date::from_calendar_date(2026, Month::October, 25).expect("a date").to_julian_day();
    let (from, to) = day_window(spring);
    assert_eq!((to - from) / SLOT, 92);
    let (from, to) = day_window(autumn);
    assert_eq!((to - from) / SLOT, 100);
    assert_eq!(to, day_window(autumn + 1).0);
}

#[test]
fn a_restart_reports_no_unplanned_minutes_rather_than_none_observed() {
    let mut counter = Unplanned::resumed();
    counter.tick(false, 60);
    counter.tick(false, 60);
    assert_eq!(counter.minutes(), None, "it did not watch the whole day");

    let mut whole = Unplanned::watching();
    for _ in 0..90 {
        whole.tick(false, 60);
    }
    for _ in 0..10 {
        whole.tick(true, 60);
    }
    assert_eq!(whole.minutes(), Some(90));

    whole.roll();
    assert_eq!(whole.minutes(), Some(0), "a new day starts clean");
}

#[test]
fn a_box_scores_the_band_it_actually_planned_against() {
    let mut scored = Scored::new();
    let band = Band { p10: 900_000, p50: 1_000_000, p90: 1_100_000 };
    for i in 0..ENOUGH_OF_A_DAY {
        let actual = if i % 10 == 0 { 1_400_000 } else { 1_000_000 };
        scored.observe(Some((band, band)), actual, actual);
    }

    let (pv, load) = scored.scores().expect("half a day is a day's worth");
    let inside = pv.iter().filter(|(b, w)| b.p10 <= *w && *w <= b.p90).count();
    let coverage = inside as f64 / pv.len() as f64;
    assert!(coverage > 0.85 && coverage < 0.95, "about nine in ten inside: {coverage}");
    assert_eq!(pv, load);
}

#[test]
fn a_slot_nobody_forecast_is_not_scored_as_a_miss() {
    let mut scored = Scored::new();
    for _ in 0..ENOUGH_OF_A_DAY {
        scored.observe(None, 1_000_000, 500_000);
    }
    assert_eq!(scored.scores(), None, "nothing was scored, so no score");
}

#[test]
fn a_handful_of_slots_is_not_a_days_coverage() {
    let mut scored = Scored::new();
    let band = Band { p10: 0, p50: 1_000_000, p90: 2_000_000 };
    for _ in 0..(ENOUGH_OF_A_DAY - 1) {
        scored.observe(Some((band, band)), 1_000_000, 1_000_000);
    }
    assert_eq!(scored.scores(), None, "one slot short of half a day");

    scored.observe(Some((band, band)), 1_000_000, 1_000_000);
    assert!(scored.scores().is_some(), "and exactly half is enough");

    scored.roll();
    assert_eq!(scored.scores(), None, "a new day starts with nothing");
}

#[test]
fn seconds_accumulate_into_minutes_without_drifting() {
    let mut counter = Unplanned::watching();
    for _ in 0..150 {
        counter.tick(false, 1);
    }
    assert_eq!(counter.minutes(), Some(2), "150 s is two whole minutes");
    counter.tick(true, u32::MAX);
    assert_eq!(counter.minutes(), Some(2), "a turn with a plan adds nothing");
}

#[test]
fn a_counter_holds_the_seconds_of_its_last_minute() {
    let mut counter = Unplanned::watching();
    for _ in 0..60 {
        counter.tick(false, u32::MAX - 59);
    }
    counter.tick(false, 59 * 60);
    counter.tick(false, 59);
    assert_eq!(counter.minutes(), Some(u32::MAX));
}

#[test]
fn a_resumed_counter_is_never_complete() {
    let mut counter = Unplanned::resumed();
    for i in 0..200 {
        counter.tick(i % 3 == 0, 40);
        assert_eq!(counter.minutes(), None);
    }
    counter.roll();
    assert_eq!(counter.minutes(), Some(0), "only a new day is");
}

#[test]
fn a_crossed_ceiling_is_a_day_that_was_not_respected() {
    let (midnight, end) = day_window(date());
    let rows = vec![register(0, 100, 0, 0)];
    let events = vec![
        (midnight, Event { worst_overshoot_mw: None, below_minimum: false }),
        (midnight + 1, Event { worst_overshoot_mw: Some(120_000), below_minimum: true }),
        (end, Event { worst_overshoot_mw: Some(900_000), below_minimum: false }),
    ];
    let mut unplanned = Unplanned::resumed();
    unplanned.tick(false, 600);
    let day = kpis(&rows, &events, "haus-1", date(), &unplanned, &Scored::new())
        .expect("one register is a day");
    assert_eq!(day.control_events, 2, "the third belongs to the next day");
    assert!(!day.respected_the_grid);
    assert_eq!(day.worst_overshoot_mw, 120_000);
    assert!(day.below_minimum_commanded);
    assert_eq!(day.minutes_without_a_plan, 0, "a restart is not a day without a plan");
}

#[test]
fn a_day_without_a_plan_is_counted_as_long_as_it_can_be() {
    assert!(Unplanned::watching().can_count(900));
    assert!(!Unplanned::watching().can_count(u64::from(u32::MAX)));
    let mut long = Unplanned::watching();
    for _ in 0..60 {
        assert!(long.can_count(u64::from(u32::MAX) - 59));
        long.tick(false, u32::MAX - 59);
    }
    assert!(long.can_count(60 * 59 + 59) && !long.can_count(60 * 59 + 60));
}

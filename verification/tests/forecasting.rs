//! What a box believes about the day it is about to have.

use hemsd::backtest::{seeds, spread_over_days, Calibration, DayOutcome};
use hemsd::clock::{Instant, DAY, HOUR, SECOND, SLOT};
use hemsd::forecasting::{
    load_forecast, session_at, session_on, warm_up, Habit, Weather, WeatherSpec, WARM_UP_DAYS,
};
use hemsd::runtime::planner::LoadSource;

/// 2026-01-15 00:00:00 UTC.
const MIDNIGHT: Instant = 1_768_435_200 * SECOND;

#[test]
fn showing_the_answer_changes_nothing_about_the_day() {
    let spec = WeatherSpec::settled(7);
    let shown = spec.with_perfect_forecast();
    assert!(!spec.is_perfect() && shown.is_perfect());
    assert_eq!(WeatherSpec { oracle_forecast: false, ..shown }, spec);
    assert_eq!((spec.told(1, 2), shown.told(1, 2)), (2, 1));
    let broken = WeatherSpec::broken(7);
    assert_eq!((spec.cloud_amplitude, broken.cloud_amplitude), (180_000, 350_000));
    assert_eq!((spec.soiling, broken.soiling), (920_000, 920_000));
}

#[test]
fn a_roof_makes_no_more_than_its_model() {
    let w = Weather::new(WeatherSpec::settled(7), 300_000, 2_000_000);
    let shown = Weather::new(w.spec.with_perfect_forecast(), 300_000, 2_000_000);
    let happens = w.production_at(5_000_000, 400_000);
    assert_eq!(happens, 2_760_000 * 1_000_000_000_000, "three fifths of it, and 92 % of that");
    assert_eq!(w.modelled_production(happens, 5_000_000), 3_500_000 * 1_000_000_000_000);
    assert_eq!(shown.production_at(5_000_000, 400_000), happens);
    assert_eq!(shown.modelled_production(happens, 5_000_000), happens);
    assert!(w.production_at(5_000_000, 300_000) <= w.modelled_production(0, 5_000_000));
    assert_eq!((w.forecast_outdoor_at(1, 2), shown.forecast_outdoor_at(1, 2)), (2, 1));
    assert_eq!(w.window_at(800_000_000, 250_000), 600_000_000 * 1_000_000);
    assert_eq!(w.window_at(800_000_000, 1_000_001), 0, "a sky is not more than covered");
    assert_eq!(w.forecast_window_at(800_000_000, 250_000), 560_000_000 * 1_000_000);
    assert_eq!(shown.forecast_window_at(800_000_000, 250_000), 600_000_000 * 1_000_000);
}

#[test]
fn a_day_before_is_another_day() {
    let weather = Weather::new(WeatherSpec::settled(42), 300_000, 2_000_000);
    assert_eq!(weather.realisation, 42);
    let yesterday = weather.earlier(1);
    assert_eq!(yesterday.realisation, 42 ^ (0x9E37_79B9 | 1));
    assert_eq!(yesterday.earlier(1).realisation, yesterday.realisation, "the spec's own seed counts");
    for days in 0..100 {
        assert_ne!(weather.earlier(days).realisation, 42);
    }
}

#[test]
fn a_box_watches_every_quarter_hour_of_the_weeks_before() {
    let weather = Weather::new(WeatherSpec::settled(42), 0, 0);
    let past = warm_up(WARM_UP_DAYS, &weather, MIDNIGHT);
    assert_eq!(past.len(), 42);
    assert_eq!(past[0].midnight, MIDNIGHT - DAY);
    assert_eq!(past[41].midnight, MIDNIGHT - 42 * DAY);
    assert_eq!(past[1].weather, weather.earlier(2));
    assert_eq!(past[0].slots.len(), 96);
    assert_eq!(past[0].slots[95].start(), MIDNIGHT - SLOT);
    assert!(warm_up(0, &weather, MIDNIGHT).is_empty(), "a box on its first evening");
}

#[test]
fn a_car_stays_for_an_hour_at_least() {
    let habit = Habit { arrival: 18 * HOUR, departure: 7 * HOUR, energy_mwh: 20_000_000 };
    let s = session_on(MIDNIGHT, habit, 100_000);
    assert_eq!(s.plugged_in, MIDNIGHT + 18 * HOUR + 540 * SECOND);
    assert_eq!(s.unplugged, s.plugged_in + HOUR);
    assert_eq!(s.energy, 22_000_000 * 1_000_000);
    let night = session_on(MIDNIGHT, Habit { departure: 31 * HOUR, ..habit }, -100_000);
    assert_eq!(night.unplugged, MIDNIGHT + 31 * HOUR - 180 * SECOND);
}

#[test]
fn a_load_comes_from_history_or_from_the_meter_or_from_nobody() {
    assert_eq!(load_forecast(true, None), Some(LoadSource::History));
    assert_eq!(load_forecast(false, Some(500_000)), Some(LoadSource::Persistence(500_000)));
    assert_eq!(load_forecast(false, None), None);
}

#[test]
fn a_session_is_forecast_until_the_cable_goes_in() {
    assert_eq!(session_at(MIDNIGHT, MIDNIGHT + 1, Some(3)), Some(3));
    assert_eq!(session_at(MIDNIGHT, MIDNIGHT, Some(3)), None);
    assert_eq!(session_at::<i32>(MIDNIGHT, MIDNIGHT + 1, None), None);
}

#[test]
fn a_sweep_reports_what_its_days_came_to() {
    let band = Calibration {
        coverage: 800_000,
        crps: 100_000_000,
        bias: 0,
        samples: 96,
        skipped: 0,
        episodes: 3,
        well_calibrated: true,
    };
    let day = |saving_eur: i64, unserved_eur: i64| DayOutcome { saving_eur, unserved_eur };
    let s = spread_over_days(&vec![day(1, 0), day(-4, 9), day(2, 3)], 5, band, Calibration { well_calibrated: false, ..band });
    assert_eq!(s.days(), 3);
    assert_eq!(s.savings_eur, vec![1, -4, 2]);
    assert_eq!(s.mean_saving_eur(), 0, "a third of a millionth is none");
    assert_eq!((s.worst_saving_eur(), s.best_saving_eur()), (Some(-4), Some(2)));
    assert_eq!((s.mean_unserved_eur(), s.worst_unserved_eur()), (4, Some(9)));
    assert!(!s.is_well_calibrated(), "a household plans against both");
    let none = spread_over_days(&vec![], 0, band, band);
    assert_eq!((none.mean_saving_eur(), none.worst_saving_eur()), (0, None));
    assert!(none.is_well_calibrated());
}

#[test]
fn no_two_days_of_a_sweep_have_the_same_weather() {
    let all = seeds(42, 100);
    assert_eq!(all[0], 42);
    assert_eq!(all[1], 42 + 0x9E37_79B9_7F4A_7C15);
    assert_eq!(all[2], 42_u64.wrapping_add(2_u64.wrapping_mul(0x9E37_79B9_7F4A_7C15)));
    let mut distinct = all.clone();
    distinct.sort();
    distinct.dedup();
    assert_eq!(distinct.len(), 100);
}

//! What a household may ask of its devices, and for how long.

use hemsd::clock::{Instant, DAY, HOUR, SECOND};
use hemsd::runtime::overrides::{Overrides, UserOverride, DEFAULT_FOR, MAX_FOR};

/// 2026-01-15 12:00:00 UTC.
const NOW: Instant = 1_768_478_400 * SECOND;

fn car() -> String {
    "wallbox".to_string()
}

#[test]
fn an_override_stops_applying_on_its_own() {
    let mut overrides = Overrides::new();
    overrides.set(car(), UserOverride::Boost, Some(2 * HOUR), NOW);
    assert_eq!(overrides.active(NOW).len(), 1);
    assert!(
        overrides.active(NOW + 3 * HOUR).is_empty(),
        "and the asset goes back to the plan with nothing cancelled"
    );
}

#[test]
fn a_request_for_a_week_is_clamped_to_a_day() {
    let mut overrides = Overrides::new();
    let held = overrides.set(car(), UserOverride::Pause, Some(7 * DAY), NOW);
    assert_eq!(held.until, NOW + MAX_FOR);
}

#[test]
fn pressing_boost_twice_is_one_boost() {
    let mut overrides = Overrides::new();
    overrides.set(car(), UserOverride::Boost, None, NOW);
    let second = overrides.set(car(), UserOverride::Boost, None, NOW + HOUR);
    let all = overrides.all(NOW + HOUR);
    assert_eq!(all.len(), 1, "one asset, one override");
    assert_eq!(all[0].0, car());
    assert_eq!(
        all[0].1.until, second.until,
        "and the second press extends it rather than queueing behind it"
    );
}

#[test]
fn a_negative_duration_is_not_an_override_that_never_ends() {
    let mut overrides = Overrides::new();
    overrides.set(car(), UserOverride::Away, Some(-HOUR), NOW);
    assert!(overrides.active(NOW).is_empty());
}

#[test]
fn a_request_that_names_no_length_lasts_four_hours() {
    let mut overrides = Overrides::new();
    let held = overrides.set(car(), UserOverride::Boost, None, NOW);
    assert_eq!(held.until, NOW + DEFAULT_FOR);
    assert_eq!(DEFAULT_FOR, 4 * HOUR);
    assert_eq!(overrides.active(held.until - 1).get("wallbox"), Some(&UserOverride::Boost));
    assert!(overrides.active(held.until).is_empty());
    assert!(overrides.active(NOW).is_empty(), "what expired stays expired");
}

#[test]
fn what_is_withdrawn_is_withdrawn_once() {
    let mut overrides = Overrides::new();
    overrides.set(car(), UserOverride::Boost, None, NOW);
    overrides.set("battery".to_string(), UserOverride::Pause, None, NOW);
    assert!(overrides.clear("wallbox", NOW));
    assert!(!overrides.clear("wallbox", NOW));
    assert_eq!(overrides.clear_all(), 1);
    assert_eq!(overrides.clear_all(), 0);
    overrides.set(car(), UserOverride::Away, None, NOW);
    overrides.set(car(), UserOverride::Pause, None, NOW);
    overrides.set("battery".to_string(), UserOverride::Pause, None, NOW);
    assert_eq!(overrides.clear_all(), 2, "one for each device");
}

#[test]
fn what_was_never_in_force_was_not_withdrawn() {
    let mut overrides = Overrides::new();
    overrides.set(car(), UserOverride::Away, Some(-HOUR), NOW);
    assert!(!overrides.clear("wallbox", NOW));
    let held = overrides.set(car(), UserOverride::Away, None, NOW);
    assert!(!overrides.clear("wallbox", held.until), "it had expired");
}

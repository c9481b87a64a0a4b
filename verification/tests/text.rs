//! Figures, names and dates.

use hemsd::clock::{
    day_window, divide_down, is_in_calendar, is_in_local_calendar, local_minute, Horizon, Slot,
    DAY, FIRST_INSTANT, HOUR, LAST_INSTANT, MINUTE, SECOND, SLOT,
};
use hemsd::names::{stands_before, ByName};
use hemsd::text::{
    divide_half_even, is_white_char, parse_u32, push_at_least, push_decimal, push_fixed,
    push_left_aligned, push_plain, push_right_aligned, push_signed, push_zero_padded, same,
    split_once, starts_with, trim, trim_end_matches, Sign,
};
use time::{Date, Month};

fn fixed(micro: i128, dp: u32, sign: Sign) -> String {
    let mut out = String::new();
    push_fixed(&mut out, micro, dp, sign);
    out
}

fn plain(micro: i64) -> String {
    let mut out = String::new();
    push_plain(&mut out, micro);
    out
}

#[test]
fn a_figure_is_rounded_half_to_even() {
    assert_eq!(fixed(2_345_000, 2, Sign::WhenNegative), "2.34");
    assert_eq!(fixed(2_355_000, 2, Sign::WhenNegative), "2.36");
    assert_eq!(fixed(2_345_001, 2, Sign::WhenNegative), "2.35");
    assert_eq!(fixed(500_000, 0, Sign::WhenNegative), "0");
    assert_eq!(fixed(1_500_000, 0, Sign::Always), "+2");
    assert_eq!(fixed(-4_000, 2, Sign::Always), "-0.00");
    assert_eq!(fixed(7, 6, Sign::WhenNegative), "0.000007");
    assert_eq!(divide_half_even(5, 2), 2);
    assert_eq!(divide_half_even(7, 2), 4);
    assert_eq!(divide_half_even(u128::MAX, 1), u128::MAX);
}

#[test]
fn a_figure_rounds_as_an_exactly_held_one_is_printed() {
    for micro in [-2_500_000_i64, -1_250_000, -125_000, 0, 375_000, 62_500, 987_654_321] {
        for dp in 0..=4 {
            assert_eq!(
                fixed(micro as i128, dp, Sign::WhenNegative).trim_start_matches('-'),
                format!("{:.*}", dp as usize, (micro as f64 / 1e6).abs()),
            );
        }
    }
}

#[test]
fn a_figure_somebody_typed_keeps_the_places_it_needs() {
    assert_eq!(plain(10_000_000), "10");
    assert_eq!(plain(1_500_000), "1.5");
    assert_eq!(plain(-20), "-0.00002");
    assert_eq!(plain(i64::MIN), "-9223372036854.775808");
}

#[test]
fn numbers_and_columns() {
    let mut out = String::new();
    push_decimal(&mut out, 0);
    push_signed(&mut out, -42);
    push_zero_padded(&mut out, 7, 3);
    push_at_least(&mut out, 1234, 2);
    push_at_least(&mut out, 5, 2);
    assert_eq!(out, "0-42007123405");
    let mut line = String::new();
    push_left_aligned(&mut line, "äöü", 5);
    push_right_aligned(&mut line, "12", 4);
    push_right_aligned(&mut line, "too long", 4);
    assert_eq!(line, "äöü    12too long", "a width is counted in characters");
}

#[test]
fn what_somebody_typed_is_read() {
    assert_eq!(trim(" \t07:00\n"), "07:00");
    assert_eq!(trim("\u{2003}x\u{a0}"), "x");
    assert!(is_white_char('\u{3000}') && !is_white_char('\u{200b}'));
    for code in 0..0x11_0000_u32 {
        if let Some(c) = char::from_u32(code) {
            assert_eq!(is_white_char(c), c.is_whitespace());
        }
    }
    assert_eq!(parse_u32("+7"), Some(7));
    assert_eq!(parse_u32("4294967295"), Some(u32::MAX));
    assert_eq!(parse_u32("4294967296"), None);
    for text in ["", "+", "-1", " 1", "1_000", "٣"] {
        assert_eq!(parse_u32(text), text.parse::<u32>().ok());
    }
    assert_eq!(split_once("a:b:c", ':'), Some(("a", "b:c")));
    assert_eq!(split_once("abc", ':'), None);
    assert!(same("ä", "ä") && !same("a", "ä"));
    assert_eq!(trim_end_matches("http://x//", '/'), "http://x");
    assert!(starts_with("Bearer x", "Bearer ") && !starts_with("Bear", "Bearer "));
}

#[test]
fn names_stand_in_one_order() {
    assert!(stands_before("", "a") && stands_before("Z", "a") && stands_before("z", "ä"));
    assert!(!stands_before("a", "a"));
    let mut names = ByName::new();
    for (name, value) in [("wallbox", 1), ("battery", 2), ("pv", 3), ("battery", 4)] {
        names.insert(name.to_string(), value);
    }
    assert_eq!(names.names(), vec!["battery".to_string(), "pv".to_string(), "wallbox".to_string()]);
    assert_eq!((names.len(), names.get("battery"), names.get("dhw")), (3, Some(&4), None));
    assert_eq!((names.name_at(1), names.value_at(1)), ("pv", &3));
    assert_eq!((names.remove("pv"), names.remove("pv")), (Some(3), None));
    let copy = names.copied();
    names.retain(|v| *v > 1);
    assert_eq!(names.list(), vec![("battery".to_string(), 4)]);
    names.clear();
    assert!(names.is_empty() && copy.contains("wallbox"));
}

#[test]
fn an_instant_falls_in_one_quarter_hour() {
    assert_eq!(Slot::containing(-1).index, -1);
    assert_eq!(Slot::containing(0), Slot::containing(SLOT - 1));
    assert_eq!(Slot { index: 4 }.start(), HOUR);
    assert_eq!(Slot { index: 0 }.middle(), 450 * SECOND);
    assert_eq!(divide_down(-7, 2), -4);
    let slots = Horizon::new(HOUR + 1, 3).slots();
    assert_eq!(slots.iter().map(|s| s.index).collect::<Vec<_>>(), vec![4, 5, 6]);
    assert!(Slot { index: 3 } < Slot { index: 4 });
}

#[test]
fn a_day_begins_at_midnight_in_berlin() {
    let day = |m, d| Date::from_calendar_date(2026, m, d).expect("a date").to_julian_day();
    // 2026-06-15 00:00 CEST is 2026-06-14 22:00 UTC.
    let (from, to) = day_window(day(Month::June, 15));
    assert_eq!(from, 1_781_474_400 * SECOND);
    assert_eq!(to - from, DAY);
    assert_eq!(local_minute(from + 90 * MINUTE), 90);
    let (from, to) = day_window(day(Month::March, 29));
    assert_eq!(to - from, 23 * HOUR, "the clocks go forward");
    assert_eq!(local_minute(from + 2 * HOUR), 180);
    let (from, to) = day_window(day(Month::October, 25));
    assert_eq!(to - from, 25 * HOUR, "the clocks go back");
    assert!(is_in_calendar(FIRST_INSTANT) && is_in_calendar(LAST_INSTANT));
    assert!(!is_in_calendar(LAST_INSTANT + 1) && !is_in_local_calendar(LAST_INSTANT));
}

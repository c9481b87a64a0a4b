//! The report of a simulated day, line by line.

use hemsd::render::{dated, day, Cost, DayResult, Scenario, Score};
use time::{Date, Month};

const NOTHING: Cost = Cost {
    energy_eur: 0,
    sharing_eur: 0,
    wear_eur: 0,
    discomfort_eur: 0,
    curtailment_eur: 0,
    unserved_eur: 0,
    stored_eur: 0,
    vehicle_eur: 0,
    billed_eur: 0,
    total_eur: 0,
};

const UNSCORED: Score = Score { samples: 0, crps: 0, coverage: 0 };

/// A day on which nothing was out of the ordinary.
fn quiet() -> DayResult {
    DayResult {
        foresight_is_perfect: false,
        produced_kwh: 12_340_000,
        consumed_kwh: 9_960_000,
        ev_charged_kwh: 0,
        heat_pump_kwh: 0,
        dhw_kwh: 0,
        appliance_ran: false,
        appliance_kwh: 0,
        appliance_shift_minutes: 0,
        battery_throughput_kwh: 0,
        imported_kwh: 2_000_000,
        exported_kwh: 0,
        curtailed_kwh: 0,
        feed_in_ceiling_kw: None,
        peak_feed_in_kw: 4_321_000,
        self_sufficiency: 825_000,
        single_phase_minutes: 30,
        phase_switches: 2,
        indoor_min_c: 20_100_000,
        indoor_max_c: 22_940_000,
        discomfort_kelvin_hours: 0,
        tank_min_fill: 615_000,
        compressor_starts: 0,
        compressor_held_minutes: 0,
        cold_water_kwh: 0,
        shared_kwh: 0,
        pv_forecast: UNSCORED,
        load_forecast: UNSCORED,
        roof_correction: 0,
        cost: Cost { energy_eur: 2_345_000, total_eur: 2_345_000, billed_eur: 2_345_000, ..NOTHING },
        baseline: Cost { energy_eur: 4_440_000, total_eur: 4_440_000, billed_eur: 4_440_000, ..NOTHING },
        energy_eur_netted: 2_345_000,
        baseline_energy_eur_netted: 4_440_000,
        saving_eur: 2_095_000,
        bill_saving_eur: 2_095_000,
        limited_minutes: 0,
        minimum_power_kw: 0,
        commanded_below_minimum: false,
        failsafe_below_minimum: false,
        lent_kwh: 0,
        control_events: 0,
        evidence_samples: 0,
        failsafe_events: 0,
        acted_by_command: None,
        worst_latency_s: 0,
        minutes_without_a_plan: 0,
        clipped_ticks: 7,
        clipped_kwh: 125_000,
        para51_hours: 3,
        imported_co2_kg: 0,
        opening_plan_bill_eur: None,
        unmet_charge_kwh: 0,
        planned_charge_shortfall_kwh: 0,
        failsafe_minutes: 0,
        grid_event_respected: true,
        worst_overshoot_w: 0,
        worst_feed_in_overshoot_w: 0,
        feed_in_over_minutes: 0,
        risk_re_solves: 0,
        s2_undescribed: 0,
        s2_resources: 5,
        widest_asset_value_ratio: 0,
        relief_eur_per_kwh: 0,
        modul2_break_even_kwh_per_year: None,
        modul2_delta_today_eur: 0,
    }
}

fn scenario() -> Scenario {
    let date = Date::from_calendar_date(2026, Month::January, 15).expect("a date");
    Scenario { date: date.to_julian_day(), grid_event: false, community: false }
}

fn row(label: &str, value: &str) -> String {
    format!("  {label:<34} {value:>14}\n")
}

#[test]
fn a_quiet_day_is_printed_whole() {
    let lines: Vec<String> = vec![
        "\n  2026-01-15 — no grid event\n\n".to_string(),
        row("produced", "12.3 kWh"),
        row("household consumption", "10.0 kWh"),
        row("charged into the car", "0.0 kWh"),
        row("heat pump", "0.0 kWh"),
        row("hot water", "0.0 kWh"),
        row("battery throughput", "0.0 kWh"),
        row("imported", "2.0 kWh"),
        row("exported", "0.0 kWh"),
        row("curtailed", "0.0 kWh"),
        row("peak feed-in, per quarter hour", "4.32 kW, uncapped"),
        row("self-sufficiency", "82 %"),
        row("wallbox on one conductor", "30 min (2 switches)"),
        "\n".to_string(),
        row("indoor temperature", "20.1 – 22.9 °C"),
        row("outside the comfort band", "0.00 K·h"),
        row("hot-water tank, emptiest", "62 % full"),
        "\n".to_string(),
        row("electricity bill", "2.34 €"),
        row("battery life spent", "0.00 €"),
        row("comfort given up", "0.00 €"),
        row("cost of the day", "2.34 €"),
        row("without optimisation", "4.44 €"),
        row("saved", "2.10 €"),
        row("…of it on the bill", "2.10 €"),
        "\n".to_string(),
        row("§ 14a limit in force", "0 min"),
        row("control events recorded", "0 (0 samples)"),
        row("self-restraint records", "0"),
        row("slowest reaction", "0 s"),
        row("minutes without a plan", "0"),
        row("commands the hardware clipped", "7 ticks (0.12 kWh)"),
        row("quarter hours § 51 EEG zeroed", "3"),
        row("without an Energy Guard", "0 min"),
        row("§ 14a limit respected", "yes"),
        "\n".to_string(),
        row("described in S2", "5 resources"),
        "\n".to_string(),
    ];
    assert_eq!(day(&scenario(), &quiet()), lines.concat());
}

#[test]
fn a_day_shown_the_answer_says_so() {
    let shown = DayResult { foresight_is_perfect: true, ..quiet() };
    let text = dated("today", &Scenario { grid_event: true, ..scenario() }, &shown);
    assert!(text.starts_with(
        "\n  today — with a § 14a reduction\n\n  \
         ⚠ the planner was shown the weather in advance — every figure\n    \
         below is an upper bound, not a result\n\n  produced"
    ));
    assert!(!day(&scenario(), &quiet()).contains("upper bound"));
}

#[test]
fn every_line_that_is_not_always_there_has_a_day_it_is_on() {
    let full = DayResult {
        appliance_ran: true,
        appliance_kwh: 940_000,
        appliance_shift_minutes: -30,
        feed_in_ceiling_kw: Some(6_000_000),
        compressor_starts: 4,
        compressor_held_minutes: 12,
        cold_water_kwh: 250_000,
        shared_kwh: 3_300_000,
        pv_forecast: Score { samples: 34, crps: 212_400_000, coverage: 794_000 },
        load_forecast: Score { samples: 96, crps: 98_500_000, coverage: 812_000 },
        roof_correction: 917_000,
        cost: Cost {
            energy_eur: 2_345_000,
            sharing_eur: -250_000,
            curtailment_eur: 10_000,
            unserved_eur: 20_000,
            stored_eur: 30_000,
            vehicle_eur: 100_000,
            billed_eur: 2_345_000,
            total_eur: 2_505_000,
            ..NOTHING
        },
        energy_eur_netted: 2_335_000,
        limited_minutes: 90,
        minimum_power_kw: 10_500_000,
        commanded_below_minimum: true,
        failsafe_below_minimum: true,
        lent_kwh: 1_250_000,
        control_events: 2,
        evidence_samples: 180,
        acted_by_command: Some(true),
        worst_latency_s: 3_400_000,
        imported_co2_kg: 750_000,
        opening_plan_bill_eur: Some(2_500_000),
        unmet_charge_kwh: 1_500_000,
        planned_charge_shortfall_kwh: 2_500_000,
        grid_event_respected: false,
        worst_overshoot_w: 512_500_000,
        worst_feed_in_overshoot_w: 80_000_000,
        feed_in_over_minutes: 2,
        risk_re_solves: 3,
        s2_undescribed: 1,
        widest_asset_value_ratio: 12_400_000,
        relief_eur_per_kwh: 315_000,
        modul2_break_even_kwh_per_year: Some(3_210_600_000),
        modul2_delta_today_eur: 140_000,
        ..quiet()
    };
    let text = day(&Scenario { community: true, ..scenario() }, &full);
    let expected = [
        row("dishwasher", "0.9 kWh, -30 min later"),
        row("peak feed-in, per quarter hour", "4.32 of 6.00 kW"),
        row("compressor starts", "4 (12 min held against a command)"),
        row("hot water not delivered", "0.2 kWh"),
        row("allocated by the community", "3.3 kWh"),
        row("roof, as the box learned it", "92 % of the model"),
        row("production forecast, CRPS", "212 W (79 % of 34 lit)"),
        row("load forecast, CRPS", "98 W (81 % covered)"),
        row(
            "…if the quarter hour were netted",
            "+0.01 € on the bill saving, which a two-register meter does not forgive",
        ),
        row("…less the community's own", "-0.25 €"),
        row("production thrown away", "0.01 €"),
        row("service not delivered", "0.02 €"),
        row("borrowed from the stores", "0.03 €"),
        row("left in the car", "+0.10 €"),
        row("…against a minimum of", "10.5 kW"),
        row("commanded below that minimum", "YES — unlawful, and recorded"),
        row("own failsafe below that minimum", "YES — a configuration fault"),
        row("…covered by the store", "1.2 kWh"),
        row("control events recorded", "2 (180 samples)"),
        row("slowest reaction", "3 s, commanded"),
        row("carbon behind the imports", "0.8 kg (375 g/kWh)"),
        row("the opening plan expected", "2.50 €, off by -0.16"),
        row("car left short by", "1.5 kWh"),
        row("§ 14a limit respected", "NO, by 512 W"),
        row(
            "§ 9 EEG ceiling respected",
            "80 W for 2 min, one control period behind a load step",
        ),
        row("re-solved against three futures", "3×, because a service was at risk"),
        row("described in S2", "5 resources, 1 it cannot express"),
        row("dearest asset vs cheapest", "12×"),
        row("relief from § 14a was worth", "0.32 €/kWh"),
        row("Modul 2 pays above", "3211 kWh/a"),
        row("…on this day it would have", "+0.14 € on the energy"),
    ];
    for line in &expected {
        assert!(text.contains(line.as_str()), "{line}in{text}");
    }
    assert!(!text.contains("a plan feared"), "it did fall short");
}

#[test]
fn a_threshold_is_crossed_and_not_met() {
    let at = DayResult {
        cost: Cost {
            sharing_eur: 5_000,
            curtailment_eur: 5_000,
            unserved_eur: 5_000,
            stored_eur: 5_000,
            vehicle_eur: 5_000,
            ..quiet().cost
        },
        cold_water_kwh: 10_000,
        lent_kwh: 5_000,
        unmet_charge_kwh: 10_000,
        planned_charge_shortfall_kwh: 10_000,
        widest_asset_value_ratio: 1_000_000,
        ..quiet()
    };
    assert_eq!(day(&scenario(), &at), day(&scenario(), &quiet()));
    let netted = DayResult { energy_eur_netted: 2_340_000, ..quiet() };
    assert!(day(&scenario(), &netted).contains("+0.00 € on the bill saving"), "this one is met");
}

#[test]
fn the_other_answers() {
    let other = DayResult {
        compressor_starts: 4,
        acted_by_command: Some(false),
        worst_latency_s: 9_000_000,
        planned_charge_shortfall_kwh: 2_500_000,
        imported_kwh: 0,
        imported_co2_kg: 1,
        feed_in_ceiling_kw: Some(6_000_000),
        ..quiet()
    };
    let text = day(&scenario(), &other);
    assert!(text.contains(row("compressor starts", "4").as_str()));
    assert!(text.contains(row("slowest reaction", "0 s, already below").as_str()));
    assert!(text.contains(row("a plan feared falling short by", "2.5 kWh, and did not").as_str()));
    assert!(text.contains(row("carbon behind the imports", "0.0 kg (1000000 g/kWh)").as_str()));
    assert!(text.contains(row("§ 9 EEG ceiling respected", "yes").as_str()));
}

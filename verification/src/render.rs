//! What a simulated day prints.
//!
//! A `String` rather than a series of prints, because the report is a product
//! surface: it is what a reader compares against the money. Every figure is a
//! whole number of millionths of its unit, and every line is a label and a
//! value, two spaces or more apart.

use vstd::prelude::*;

use crate::clock::date_string;
use crate::text::{
    divide_half_even, push_decimal, push_fixed, push_left_aligned, push_right_aligned, push_signed,
    Sign,
};

verus! {

/// What a day cost, in millionths of a euro.
#[derive(Clone, Copy, Debug, PartialEq, Eq, Structural)]
pub struct Cost {
    /// The electricity bill.
    pub energy_eur: i64,
    /// What the community's own electricity took off it.
    pub sharing_eur: i64,
    /// The battery life spent.
    pub wear_eur: i64,
    /// The comfort given up.
    pub discomfort_eur: i64,
    /// The production thrown away.
    pub curtailment_eur: i64,
    /// The service asked for and not delivered.
    pub unserved_eur: i64,
    /// What was borrowed from the stores.
    pub stored_eur: i64,
    /// What is left in the car at midnight.
    pub vehicle_eur: i64,
    /// The part that is billed.
    pub billed_eur: i64,
    /// All of it.
    pub total_eur: i64,
}

/// How a forecast scored, in millionths of a watt and of one.
#[derive(Clone, Copy, Debug, PartialEq, Eq, Structural)]
pub struct Score {
    /// How many quarter hours were scored.
    pub samples: u64,
    /// The continuous ranked probability score.
    pub crps: i64,
    /// How often the outcome fell inside the band.
    pub coverage: i64,
}

/// The day that was asked for.
#[derive(Clone, Copy, Debug, PartialEq, Eq, Structural)]
pub struct Scenario {
    /// Its date, as a Julian day number.
    pub date: i32,
    /// Whether the network operator reduces the household on it.
    pub grid_event: bool,
    /// Whether the household shares energy in a community.
    pub community: bool,
}

/// What the day came to. Every figure that is not a count is in millionths.
#[derive(Clone, Copy, Debug, PartialEq, Eq, Structural)]
pub struct DayResult {
    /// Whether the planner was shown the weather in advance.
    pub foresight_is_perfect: bool,
    /// What the roof produced.
    pub produced_kwh: i64,
    /// What the household consumed.
    pub consumed_kwh: i64,
    /// What went into the car.
    pub ev_charged_kwh: i64,
    /// What the heat pump drew.
    pub heat_pump_kwh: i64,
    /// What the hot water drew.
    pub dhw_kwh: i64,
    /// Whether the dishwasher ran.
    pub appliance_ran: bool,
    /// What it drew.
    pub appliance_kwh: i64,
    /// How much later than asked it started.
    pub appliance_shift_minutes: i64,
    /// What went through the battery.
    pub battery_throughput_kwh: i64,
    /// What was drawn from the grid.
    pub imported_kwh: i64,
    /// What was fed into it.
    pub exported_kwh: i64,
    /// What was thrown away.
    pub curtailed_kwh: i64,
    /// The ceiling on the feed-in, where there is one.
    pub feed_in_ceiling_kw: Option<i64>,
    /// The highest quarter hour of feed-in.
    pub peak_feed_in_kw: i64,
    /// The share of its consumption the household covered itself.
    pub self_sufficiency: i64,
    /// How long the charge point ran on one conductor.
    pub single_phase_minutes: u64,
    /// How often it switched.
    pub phase_switches: u64,
    /// The coldest the rooms were.
    pub indoor_min_c: i64,
    /// The warmest they were.
    pub indoor_max_c: i64,
    /// How far outside the comfort band, and for how long.
    pub discomfort_kelvin_hours: i64,
    /// How empty the tank ran.
    pub tank_min_fill: i64,
    /// How often the compressor started.
    pub compressor_starts: u64,
    /// How long it overrode a command to stop.
    pub compressor_held_minutes: u64,
    /// The hot water that was not delivered.
    pub cold_water_kwh: i64,
    /// What the community allocated.
    pub shared_kwh: i64,
    /// How the production forecast scored.
    pub pv_forecast: Score,
    /// How the load forecast scored.
    pub load_forecast: Score,
    /// What the roof delivers of what its model says.
    pub roof_correction: i64,
    /// What the day cost.
    pub cost: Cost,
    /// What it would have cost unmanaged.
    pub baseline: Cost,
    /// The bill with every quarter hour netted.
    pub energy_eur_netted: i64,
    /// The unmanaged bill with every quarter hour netted.
    pub baseline_energy_eur_netted: i64,
    /// What was saved.
    pub saving_eur: i64,
    /// What of it was saved on the bill.
    pub bill_saving_eur: i64,
    /// How long a reduction was in force.
    pub limited_minutes: u64,
    /// What the household may not be reduced below.
    pub minimum_power_kw: i64,
    /// Whether the operator commanded less than that.
    pub commanded_below_minimum: bool,
    /// Whether the box's own failsafe is less than that.
    pub failsafe_below_minimum: bool,
    /// What the store covered of a reduction.
    pub lent_kwh: i64,
    /// How many control events were recorded.
    pub control_events: u64,
    /// How many samples they hold.
    pub evidence_samples: u64,
    /// How often the box restrained itself.
    pub failsafe_events: u64,
    /// Whether the slowest reaction followed a command.
    pub acted_by_command: Option<bool>,
    /// How long it took.
    pub worst_latency_s: i64,
    /// How long the box ran without a plan.
    pub minutes_without_a_plan: u64,
    /// How often the hardware could not hold a command.
    pub clipped_ticks: u64,
    /// How much energy that was.
    pub clipped_kwh: i64,
    /// How many quarter hours were paid nothing.
    pub para51_hours: u64,
    /// The carbon dioxide behind what was drawn from the grid.
    pub imported_co2_kg: i64,
    /// What the plan that opened the day expected.
    pub opening_plan_bill_eur: Option<i64>,
    /// What the car was left short by.
    pub unmet_charge_kwh: i64,
    /// What a plan feared it would be.
    pub planned_charge_shortfall_kwh: i64,
    /// How long no control session was up.
    pub failsafe_minutes: u64,
    /// Whether every reduction was respected.
    pub grid_event_respected: bool,
    /// By how much one was not.
    pub worst_overshoot_w: i64,
    /// By how much the feed-in ceiling was crossed.
    pub worst_feed_in_overshoot_w: i64,
    /// For how long.
    pub feed_in_over_minutes: u64,
    /// How often a plan was made again against three futures.
    pub risk_re_solves: u64,
    /// How many resources no description could express.
    pub s2_undescribed: u64,
    /// How many could be described.
    pub s2_resources: u64,
    /// The dearest asset's value over the cheapest's.
    pub widest_asset_value_ratio: i64,
    /// What relief from a reduction was worth.
    pub relief_eur_per_kwh: i64,
    /// Above which yearly consumption the second network tariff pays.
    pub modul2_break_even_kwh_per_year: Option<i64>,
    /// What it would have changed on this day.
    pub modul2_delta_today_eur: i64,
}

// ── What the text is ────────────────────────────────────────────────────────

/// A line with a label and a value after what is already there.
pub open spec fn row(before: Seq<char>, label: Seq<char>, value: Seq<char>) -> Seq<char> {
    before + "  "@ + crate::text::left_aligned(label, 34) + " "@ + crate::text::right_aligned(
        value,
        14,
    ) + "\n"@
}

/// A figure and its unit.
pub open spec fn figure(micro: int, dp: nat, unit: Seq<char>) -> Seq<char> {
    crate::text::fixed(micro, dp, Sign::WhenNegative) + unit
}

/// A figure with its sign always shown, and its unit.
pub open spec fn change(micro: int, dp: nat, unit: Seq<char>) -> Seq<char> {
    crate::text::fixed(micro, dp, Sign::Always) + unit
}

/// A count and its unit.
pub open spec fn count(n: nat, unit: Seq<char>) -> Seq<char> {
    crate::text::decimal(n) + unit
}

/// The heading: the date, what happened on it, and a warning where the day is
/// no measurement.
pub open spec fn heading(date: Seq<char>, grid_event: bool, shown_the_answer: bool) -> Seq<char> {
    let first = "\n  "@ + date + " — "@ + (if grid_event {
        "with a § 14a reduction"@
    } else {
        "no grid event"@
    }) + "\n\n"@;
    if shown_the_answer {
        first + "  ⚠ the planner was shown the weather in advance — every figure\n"@
            + "    below is an upper bound, not a result\n\n"@
    } else {
        first
    }
}

/// Where the energy of the day went.
pub open spec fn energies(before: Seq<char>, r: DayResult) -> Seq<char> {
    let s = row(before, "produced"@, figure(r.produced_kwh as int, 1, " kWh"@));
    let s = row(s, "household consumption"@, figure(r.consumed_kwh as int, 1, " kWh"@));
    let s = row(s, "charged into the car"@, figure(r.ev_charged_kwh as int, 1, " kWh"@));
    let s = row(s, "heat pump"@, figure(r.heat_pump_kwh as int, 1, " kWh"@));
    let s = row(s, "hot water"@, figure(r.dhw_kwh as int, 1, " kWh"@));
    let s = if r.appliance_ran {
        row(
            s,
            "dishwasher"@,
            figure(r.appliance_kwh as int, 1, " kWh, "@) + crate::text::signed(
                r.appliance_shift_minutes as int,
            ) + " min later"@,
        )
    } else {
        s
    };
    let s = row(s, "battery throughput"@, figure(r.battery_throughput_kwh as int, 1, " kWh"@));
    let s = row(s, "imported"@, figure(r.imported_kwh as int, 1, " kWh"@));
    let s = row(s, "exported"@, figure(r.exported_kwh as int, 1, " kWh"@));
    let s = row(s, "curtailed"@, figure(r.curtailed_kwh as int, 1, " kWh"@));
    let s = row(
        s,
        "peak feed-in, per quarter hour"@,
        match r.feed_in_ceiling_kw {
            Some(cap) => figure(r.peak_feed_in_kw as int, 2, " of "@) + figure(
                cap as int,
                2,
                " kW"@,
            ),
            None => figure(r.peak_feed_in_kw as int, 2, " kW, uncapped"@),
        },
    );
    let s = row(s, "self-sufficiency"@, figure(r.self_sufficiency * 100, 0, " %"@));
    row(
        s,
        "wallbox on one conductor"@,
        count(r.single_phase_minutes as nat, " min ("@) + count(
            r.phase_switches as nat,
            " switches)"@,
        ),
    )
}

/// How warm the house and its water were.
pub open spec fn comfort(before: Seq<char>, community: bool, r: DayResult) -> Seq<char> {
    let s = before + "\n"@;
    let s = row(
        s,
        "indoor temperature"@,
        figure(r.indoor_min_c as int, 1, " – "@) + figure(r.indoor_max_c as int, 1, " °C"@),
    );
    let s = row(
        s,
        "outside the comfort band"@,
        figure(r.discomfort_kelvin_hours as int, 2, " K·h"@),
    );
    let s = row(s, "hot-water tank, emptiest"@, figure(r.tank_min_fill * 100, 0, " % full"@));
    let s = if r.compressor_starts > 0 || r.compressor_held_minutes > 0 {
        row(
            s,
            "compressor starts"@,
            if r.compressor_held_minutes == 0 {
                count(r.compressor_starts as nat, ""@)
            } else {
                count(r.compressor_starts as nat, " ("@) + count(
                    r.compressor_held_minutes as nat,
                    " min held against a command)"@,
                )
            },
        )
    } else {
        s
    };
    let s = if r.cold_water_kwh > 10_000 {
        row(s, "hot water not delivered"@, figure(r.cold_water_kwh as int, 1, " kWh"@))
    } else {
        s
    };
    if community {
        row(s, "allocated by the community"@, figure(r.shared_kwh as int, 1, " kWh"@))
    } else {
        s
    }
}

/// How the forecasts did, where anything was scored.
pub open spec fn forecasts(before: Seq<char>, r: DayResult) -> Seq<char> {
    if r.pv_forecast.samples > 0 {
        let s = before + "\n"@;
        let s = row(
            s,
            "roof, as the box learned it"@,
            figure(r.roof_correction * 100, 0, " % of the model"@),
        );
        let s = row(
            s,
            "production forecast, CRPS"@,
            figure(r.pv_forecast.crps as int, 0, " W ("@) + figure(
                r.pv_forecast.coverage * 100,
                0,
                " % of "@,
            ) + count(r.pv_forecast.samples as nat, " lit)"@),
        );
        row(
            s,
            "load forecast, CRPS"@,
            figure(r.load_forecast.crps as int, 0, " W ("@) + figure(
                r.load_forecast.coverage * 100,
                0,
                " % covered)"@,
            ),
        )
    } else {
        before
    }
}

/// What netting every quarter hour would have changed about the saving.
pub open spec fn netted_saving(r: DayResult) -> int {
    (r.baseline_energy_eur_netted - r.energy_eur_netted) - (r.baseline.energy_eur
        - r.cost.energy_eur)
}

/// What the unmanaged household's car is worth less than this one's.
pub open spec fn left_in_the_car(r: DayResult) -> int {
    r.cost.vehicle_eur - r.baseline.vehicle_eur
}

/// The money: each term where there is one, and the comparison.
pub open spec fn money(before: Seq<char>, r: DayResult) -> Seq<char> {
    let s = before + "\n"@;
    let s = row(s, "electricity bill"@, figure(r.cost.energy_eur as int, 2, " €"@));
    let s = if netted_saving(r) >= 5_000 || netted_saving(r) <= -5_000 {
        row(
            s,
            "…if the quarter hour were netted"@,
            change(
                netted_saving(r),
                2,
                " € on the bill saving, which a two-register meter does not forgive"@,
            ),
        )
    } else {
        s
    };
    let s = if r.cost.sharing_eur > 5_000 || r.cost.sharing_eur < -5_000 {
        row(s, "…less the community's own"@, figure(r.cost.sharing_eur as int, 2, " €"@))
    } else {
        s
    };
    let s = row(s, "battery life spent"@, figure(r.cost.wear_eur as int, 2, " €"@));
    let s = row(s, "comfort given up"@, figure(r.cost.discomfort_eur as int, 2, " €"@));
    let s = if r.cost.curtailment_eur > 5_000 {
        row(s, "production thrown away"@, figure(r.cost.curtailment_eur as int, 2, " €"@))
    } else {
        s
    };
    let s = if r.cost.unserved_eur > 5_000 {
        row(s, "service not delivered"@, figure(r.cost.unserved_eur as int, 2, " €"@))
    } else {
        s
    };
    let s = if r.cost.stored_eur > 5_000 {
        row(s, "borrowed from the stores"@, figure(r.cost.stored_eur as int, 2, " €"@))
    } else {
        s
    };
    let s = if left_in_the_car(r) > 5_000 || left_in_the_car(r) < -5_000 {
        row(s, "left in the car"@, change(left_in_the_car(r), 2, " €"@))
    } else {
        s
    };
    let s = row(s, "cost of the day"@, figure(r.cost.total_eur as int, 2, " €"@));
    let s = row(s, "without optimisation"@, figure(r.baseline.total_eur as int, 2, " €"@));
    let s = row(s, "saved"@, figure(r.saving_eur as int, 2, " €"@));
    row(s, "…of it on the bill"@, figure(r.bill_saving_eur as int, 2, " €"@))
}

/// The record of the reductions.
pub open spec fn reductions(before: Seq<char>, r: DayResult) -> Seq<char> {
    let s = before + "\n"@;
    let s = row(s, "§ 14a limit in force"@, count(r.limited_minutes as nat, " min"@));
    let s = if r.limited_minutes > 0 {
        row(s, "…against a minimum of"@, figure(r.minimum_power_kw as int, 1, " kW"@))
    } else {
        s
    };
    let s = if r.commanded_below_minimum {
        row(s, "commanded below that minimum"@, "YES — unlawful, and recorded"@)
    } else {
        s
    };
    let s = if r.failsafe_below_minimum {
        row(s, "own failsafe below that minimum"@, "YES — a configuration fault"@)
    } else {
        s
    };
    let s = if r.lent_kwh > 5_000 {
        row(s, "…covered by the store"@, figure(r.lent_kwh as int, 1, " kWh"@))
    } else {
        s
    };
    let s = row(
        s,
        "control events recorded"@,
        count(r.control_events as nat, " ("@) + count(r.evidence_samples as nat, " samples)"@),
    );
    let s = row(s, "self-restraint records"@, count(r.failsafe_events as nat, ""@));
    row(
        s,
        "slowest reaction"@,
        match r.acted_by_command {
            Some(true) => figure(r.worst_latency_s as int, 0, " s, commanded"@),
            Some(false) => "0 s, already below"@,
            None => figure(r.worst_latency_s as int, 0, " s"@),
        },
    )
}

/// How many grams of carbon dioxide stand behind each kilowatt-hour drawn. A
/// draw of nothing is taken as a thousandth of a millionth of one.
pub open spec fn grams_per_kwh(r: DayResult) -> nat {
    if r.imported_kwh >= 1 {
        crate::text::nearest((r.imported_co2_kg * 1_000) as nat, r.imported_kwh as nat)
    } else {
        (r.imported_co2_kg * 1_000_000) as nat
    }
}

/// What the plan and the hardware made of each other.
pub open spec fn workings(before: Seq<char>, r: DayResult) -> Seq<char> {
    let s = row(
        before,
        "minutes without a plan"@,
        count(r.minutes_without_a_plan as nat, ""@),
    );
    let s = row(
        s,
        "commands the hardware clipped"@,
        count(r.clipped_ticks as nat, " ticks ("@) + figure(r.clipped_kwh as int, 2, " kWh)"@),
    );
    let s = row(s, "quarter hours § 51 EEG zeroed"@, count(r.para51_hours as nat, ""@));
    let s = if r.imported_co2_kg > 0 {
        row(
            s,
            "carbon behind the imports"@,
            figure(r.imported_co2_kg as int, 1, " kg ("@) + count(grams_per_kwh(r), " g/kWh)"@),
        )
    } else {
        s
    };
    let s = match r.opening_plan_bill_eur {
        Some(expected) => row(
            s,
            "the opening plan expected"@,
            figure(expected as int, 2, " €, off by "@) + change(
                r.cost.billed_eur - expected,
                2,
                ""@,
            ),
        ),
        None => s,
    };
    let s = if r.unmet_charge_kwh > 10_000 {
        row(s, "car left short by"@, figure(r.unmet_charge_kwh as int, 1, " kWh"@))
    } else if r.planned_charge_shortfall_kwh > 10_000 {
        row(
            s,
            "a plan feared falling short by"@,
            figure(r.planned_charge_shortfall_kwh as int, 1, " kWh, and did not"@),
        )
    } else {
        s
    };
    row(s, "without an Energy Guard"@, count(r.failsafe_minutes as nat, " min"@))
}

/// Whether the two statutory limits were kept.
pub open spec fn compliance(before: Seq<char>, r: DayResult) -> Seq<char> {
    let s = row(
        before,
        "§ 14a limit respected"@,
        if r.grid_event_respected {
            "yes"@
        } else {
            "NO, by "@ + figure(r.worst_overshoot_w as int, 0, " W"@)
        },
    );
    if r.feed_in_ceiling_kw is Some {
        row(
            s,
            "§ 9 EEG ceiling respected"@,
            if r.worst_feed_in_overshoot_w <= 0 {
                "yes"@
            } else {
                figure(r.worst_feed_in_overshoot_w as int, 0, " W for "@) + count(
                    r.feed_in_over_minutes as nat,
                    " min, one control period behind a load step"@,
                )
            },
        )
    } else {
        s
    }
}

/// What else is worth a line.
pub open spec fn closing(before: Seq<char>, r: DayResult) -> Seq<char> {
    let s = before + "\n"@;
    let s = if r.risk_re_solves > 0 {
        row(
            s,
            "re-solved against three futures"@,
            count(r.risk_re_solves as nat, "×, because a service was at risk"@),
        )
    } else {
        s
    };
    let s = row(
        s,
        "described in S2"@,
        if r.s2_undescribed == 0 {
            count(r.s2_resources as nat, " resources"@)
        } else {
            count(r.s2_resources as nat, " resources, "@) + count(
                r.s2_undescribed as nat,
                " it cannot express"@,
            )
        },
    );
    let s = if r.widest_asset_value_ratio > 1_000_000 {
        row(s, "dearest asset vs cheapest"@, figure(r.widest_asset_value_ratio as int, 0, "×"@))
    } else {
        s
    };
    let s = if r.relief_eur_per_kwh > 0 {
        row(s, "relief from § 14a was worth"@, figure(r.relief_eur_per_kwh as int, 2, " €/kWh"@))
    } else {
        s
    };
    let s = match r.modul2_break_even_kwh_per_year {
        Some(break_even) => row(
            row(s, "Modul 2 pays above"@, figure(break_even as int, 0, " kWh/a"@)),
            "…on this day it would have"@,
            change(r.modul2_delta_today_eur as int, 2, " € on the energy"@),
        ),
        None => s,
    };
    s + "\n"@
}

/// The whole report of a day that is written as `date`.
pub open spec fn report(
    date: Seq<char>,
    grid_event: bool,
    community: bool,
    r: DayResult,
) -> Seq<char> {
    let s = heading(date, grid_event, r.foresight_is_perfect);
    let s = energies(s, r);
    let s = comfort(s, community, r);
    let s = forecasts(s, r);
    let s = money(s, r);
    let s = reductions(s, r);
    let s = workings(s, r);
    let s = compliance(s, r);
    closing(s, r)
}

// ── Writing it ──────────────────────────────────────────────────────────────

fn push_row(out: &mut String, label: &str, value: &str)
    ensures
        final(out)@ == row(old(out)@, label@, value@),
{
    out.append("  ");
    push_left_aligned(out, label, 34);
    out.append(" ");
    push_right_aligned(out, value, 14);
    out.append("\n");
}

fn push_figure(out: &mut String, micro: i128, dp: u32, unit: &str)
    requires
        dp <= 6,
        -0x7fff_ffff_ffff_ffff_ffff_ffff_ffff_ffff <= micro,
    ensures
        final(out)@ == old(out)@ + figure(micro as int, dp as nat, unit@),
{
    push_fixed(out, micro, dp, Sign::WhenNegative);
    out.append(unit);
    assert(out@ =~= old(out)@ + figure(micro as int, dp as nat, unit@));
}

fn push_change(out: &mut String, micro: i128, dp: u32, unit: &str)
    requires
        dp <= 6,
        -0x7fff_ffff_ffff_ffff_ffff_ffff_ffff_ffff <= micro,
    ensures
        final(out)@ == old(out)@ + change(micro as int, dp as nat, unit@),
{
    push_fixed(out, micro, dp, Sign::Always);
    out.append(unit);
    assert(out@ =~= old(out)@ + change(micro as int, dp as nat, unit@));
}

fn push_count(out: &mut String, n: u128, unit: &str)
    ensures
        final(out)@ == old(out)@ + count(n as nat, unit@),
{
    push_decimal(out, n);
    out.append(unit);
    assert(out@ =~= old(out)@ + count(n as nat, unit@));
}

fn figure_row(out: &mut String, label: &str, micro: i64, dp: u32, unit: &str)
    requires
        dp <= 6,
    ensures
        final(out)@ == row(old(out)@, label@, figure(micro as int, dp as nat, unit@)),
{
    let mut value = String::new();
    push_figure(&mut value, micro as i128, dp, unit);
    assert(value@ =~= figure(micro as int, dp as nat, unit@));
    push_row(out, label, value.as_str());
}

fn share_row(out: &mut String, label: &str, micro: i64, unit: &str)
    ensures
        final(out)@ == row(old(out)@, label@, figure(micro * 100, 0, unit@)),
{
    let mut value = String::new();
    push_figure(&mut value, micro as i128 * 100, 0, unit);
    assert(value@ =~= figure(micro * 100, 0, unit@));
    push_row(out, label, value.as_str());
}

fn change_row(out: &mut String, label: &str, micro: i128, unit: &str)
    requires
        -0x7fff_ffff_ffff_ffff_ffff_ffff_ffff_ffff <= micro,
    ensures
        final(out)@ == row(old(out)@, label@, change(micro as int, 2, unit@)),
{
    let mut value = String::new();
    push_change(&mut value, micro, 2, unit);
    assert(value@ =~= change(micro as int, 2, unit@));
    push_row(out, label, value.as_str());
}

fn count_row(out: &mut String, label: &str, n: u64, unit: &str)
    ensures
        final(out)@ == row(old(out)@, label@, count(n as nat, unit@)),
{
    let mut value = String::new();
    push_count(&mut value, n as u128, unit);
    assert(value@ =~= count(n as nat, unit@));
    push_row(out, label, value.as_str());
}

fn two_figures_row(
    out: &mut String,
    label: &str,
    a: i128,
    a_dp: u32,
    between: &str,
    b: i128,
    b_dp: u32,
    unit: &str,
)
    requires
        a_dp <= 6,
        b_dp <= 6,
        -0x7fff_ffff_ffff_ffff_ffff_ffff_ffff_ffff <= a,
        -0x7fff_ffff_ffff_ffff_ffff_ffff_ffff_ffff <= b,
    ensures
        final(out)@ == row(
            old(out)@,
            label@,
            figure(a as int, a_dp as nat, between@) + figure(b as int, b_dp as nat, unit@),
        ),
{
    let mut value = String::new();
    push_figure(&mut value, a, a_dp, between);
    push_figure(&mut value, b, b_dp, unit);
    assert(value@ =~= figure(a as int, a_dp as nat, between@) + figure(
        b as int,
        b_dp as nat,
        unit@,
    ));
    push_row(out, label, value.as_str());
}

fn two_counts_row(out: &mut String, label: &str, a: u64, between: &str, b: u64, unit: &str)
    ensures
        final(out)@ == row(
            old(out)@,
            label@,
            count(a as nat, between@) + count(b as nat, unit@),
        ),
{
    let mut value = String::new();
    push_count(&mut value, a as u128, between);
    push_count(&mut value, b as u128, unit);
    assert(value@ =~= count(a as nat, between@) + count(b as nat, unit@));
    push_row(out, label, value.as_str());
}

fn figure_and_count_row(
    out: &mut String,
    label: &str,
    a: i64,
    a_dp: u32,
    between: &str,
    b: u128,
    unit: &str,
)
    requires
        a_dp <= 6,
    ensures
        final(out)@ == row(
            old(out)@,
            label@,
            figure(a as int, a_dp as nat, between@) + count(b as nat, unit@),
        ),
{
    let mut value = String::new();
    push_figure(&mut value, a as i128, a_dp, between);
    push_count(&mut value, b, unit);
    assert(value@ =~= figure(a as int, a_dp as nat, between@) + count(b as nat, unit@));
    push_row(out, label, value.as_str());
}

fn heading_text(date: &str, grid_event: bool, shown_the_answer: bool) -> (out: String)
    ensures
        out@ == heading(date@, grid_event, shown_the_answer),
{
    let mut out = String::new();
    out.append("\n  ");
    assert(out@ =~= "\n  "@);
    out.append(date);
    out.append(" — ");
    if grid_event {
        out.append("with a § 14a reduction");
    } else {
        out.append("no grid event");
    }
    out.append("\n\n");
    if shown_the_answer {
        out.append("  ⚠ the planner was shown the weather in advance — every figure\n");
        out.append("    below is an upper bound, not a result\n\n");
    }
    out
}

fn push_energies(out: &mut String, r: &DayResult)
    ensures
        final(out)@ == energies(old(out)@, *r),
{
    figure_row(out, "produced", r.produced_kwh, 1, " kWh");
    figure_row(out, "household consumption", r.consumed_kwh, 1, " kWh");
    figure_row(out, "charged into the car", r.ev_charged_kwh, 1, " kWh");
    figure_row(out, "heat pump", r.heat_pump_kwh, 1, " kWh");
    figure_row(out, "hot water", r.dhw_kwh, 1, " kWh");
    if r.appliance_ran {
        let mut value = String::new();
        push_figure(&mut value, r.appliance_kwh as i128, 1, " kWh, ");
        push_signed(&mut value, r.appliance_shift_minutes);
        value.append(" min later");
        assert(value@ =~= figure(r.appliance_kwh as int, 1, " kWh, "@) + crate::text::signed(
            r.appliance_shift_minutes as int,
        ) + " min later"@);
        push_row(out, "dishwasher", value.as_str());
    }
    figure_row(out, "battery throughput", r.battery_throughput_kwh, 1, " kWh");
    figure_row(out, "imported", r.imported_kwh, 1, " kWh");
    figure_row(out, "exported", r.exported_kwh, 1, " kWh");
    figure_row(out, "curtailed", r.curtailed_kwh, 1, " kWh");
    match r.feed_in_ceiling_kw {
        Some(cap) => two_figures_row(
            out,
            "peak feed-in, per quarter hour",
            r.peak_feed_in_kw as i128,
            2,
            " of ",
            cap as i128,
            2,
            " kW",
        ),
        None => figure_row(
            out,
            "peak feed-in, per quarter hour",
            r.peak_feed_in_kw,
            2,
            " kW, uncapped",
        ),
    }
    share_row(out, "self-sufficiency", r.self_sufficiency, " %");
    two_counts_row(
        out,
        "wallbox on one conductor",
        r.single_phase_minutes,
        " min (",
        r.phase_switches,
        " switches)",
    );
}

fn push_comfort(out: &mut String, community: bool, r: &DayResult)
    ensures
        final(out)@ == comfort(old(out)@, community, *r),
{
    out.append("\n");
    two_figures_row(
        out,
        "indoor temperature",
        r.indoor_min_c as i128,
        1,
        " – ",
        r.indoor_max_c as i128,
        1,
        " °C",
    );
    figure_row(out, "outside the comfort band", r.discomfort_kelvin_hours, 2, " K·h");
    share_row(out, "hot-water tank, emptiest", r.tank_min_fill, " % full");
    if r.compressor_starts > 0 || r.compressor_held_minutes > 0 {
        if r.compressor_held_minutes == 0 {
            count_row(out, "compressor starts", r.compressor_starts, "");
        } else {
            two_counts_row(
                out,
                "compressor starts",
                r.compressor_starts,
                " (",
                r.compressor_held_minutes,
                " min held against a command)",
            );
        }
    }
    if r.cold_water_kwh > 10_000 {
        figure_row(out, "hot water not delivered", r.cold_water_kwh, 1, " kWh");
    }
    if community {
        figure_row(out, "allocated by the community", r.shared_kwh, 1, " kWh");
    }
}

fn push_forecasts(out: &mut String, r: &DayResult)
    ensures
        final(out)@ == forecasts(old(out)@, *r),
{
    if r.pv_forecast.samples > 0 {
        out.append("\n");
        share_row(out, "roof, as the box learned it", r.roof_correction, " % of the model");
        let mut value = String::new();
        push_figure(&mut value, r.pv_forecast.crps as i128, 0, " W (");
        push_figure(&mut value, r.pv_forecast.coverage as i128 * 100, 0, " % of ");
        push_count(&mut value, r.pv_forecast.samples as u128, " lit)");
        assert(value@ =~= figure(r.pv_forecast.crps as int, 0, " W ("@) + figure(
            r.pv_forecast.coverage * 100,
            0,
            " % of "@,
        ) + count(r.pv_forecast.samples as nat, " lit)"@));
        push_row(out, "production forecast, CRPS", value.as_str());
        two_figures_row(
            out,
            "load forecast, CRPS",
            r.load_forecast.crps as i128,
            0,
            " W (",
            r.load_forecast.coverage as i128 * 100,
            0,
            " % covered)",
        );
    }
}

fn push_money(out: &mut String, r: &DayResult)
    ensures
        final(out)@ == money(old(out)@, *r),
{
    out.append("\n");
    figure_row(out, "electricity bill", r.cost.energy_eur, 2, " €");
    let netted: i128 = (r.baseline_energy_eur_netted as i128 - r.energy_eur_netted as i128) - (
    r.baseline.energy_eur as i128 - r.cost.energy_eur as i128);
    if netted >= 5_000 || netted <= -5_000 {
        change_row(
            out,
            "…if the quarter hour were netted",
            netted,
            " € on the bill saving, which a two-register meter does not forgive",
        );
    }
    if r.cost.sharing_eur > 5_000 || r.cost.sharing_eur < -5_000 {
        figure_row(out, "…less the community's own", r.cost.sharing_eur, 2, " €");
    }
    figure_row(out, "battery life spent", r.cost.wear_eur, 2, " €");
    figure_row(out, "comfort given up", r.cost.discomfort_eur, 2, " €");
    if r.cost.curtailment_eur > 5_000 {
        figure_row(out, "production thrown away", r.cost.curtailment_eur, 2, " €");
    }
    if r.cost.unserved_eur > 5_000 {
        figure_row(out, "service not delivered", r.cost.unserved_eur, 2, " €");
    }
    if r.cost.stored_eur > 5_000 {
        figure_row(out, "borrowed from the stores", r.cost.stored_eur, 2, " €");
    }
    let car: i128 = r.cost.vehicle_eur as i128 - r.baseline.vehicle_eur as i128;
    if car > 5_000 || car < -5_000 {
        change_row(out, "left in the car", car, " €");
    }
    figure_row(out, "cost of the day", r.cost.total_eur, 2, " €");
    figure_row(out, "without optimisation", r.baseline.total_eur, 2, " €");
    figure_row(out, "saved", r.saving_eur, 2, " €");
    figure_row(out, "…of it on the bill", r.bill_saving_eur, 2, " €");
}

fn push_reductions(out: &mut String, r: &DayResult)
    ensures
        final(out)@ == reductions(old(out)@, *r),
{
    out.append("\n");
    count_row(out, "§ 14a limit in force", r.limited_minutes, " min");
    if r.limited_minutes > 0 {
        figure_row(out, "…against a minimum of", r.minimum_power_kw, 1, " kW");
    }
    if r.commanded_below_minimum {
        push_row(out, "commanded below that minimum", "YES — unlawful, and recorded");
    }
    if r.failsafe_below_minimum {
        push_row(out, "own failsafe below that minimum", "YES — a configuration fault");
    }
    if r.lent_kwh > 5_000 {
        figure_row(out, "…covered by the store", r.lent_kwh, 1, " kWh");
    }
    two_counts_row(
        out,
        "control events recorded",
        r.control_events,
        " (",
        r.evidence_samples,
        " samples)",
    );
    count_row(out, "self-restraint records", r.failsafe_events, "");
    match r.acted_by_command {
        Some(true) => figure_row(out, "slowest reaction", r.worst_latency_s, 0, " s, commanded"),
        Some(false) => push_row(out, "slowest reaction", "0 s, already below"),
        None => figure_row(out, "slowest reaction", r.worst_latency_s, 0, " s"),
    }
}

fn push_workings(out: &mut String, r: &DayResult)
    ensures
        final(out)@ == workings(old(out)@, *r),
{
    count_row(out, "minutes without a plan", r.minutes_without_a_plan, "");
    let mut value = String::new();
    push_count(&mut value, r.clipped_ticks as u128, " ticks (");
    push_figure(&mut value, r.clipped_kwh as i128, 2, " kWh)");
    assert(value@ =~= count(r.clipped_ticks as nat, " ticks ("@) + figure(
        r.clipped_kwh as int,
        2,
        " kWh)"@,
    ));
    push_row(out, "commands the hardware clipped", value.as_str());
    count_row(out, "quarter hours § 51 EEG zeroed", r.para51_hours, "");
    if r.imported_co2_kg > 0 {
        let grams: u128 = if r.imported_kwh >= 1 {
            divide_half_even(r.imported_co2_kg as u128 * 1_000, r.imported_kwh as u128)
        } else {
            r.imported_co2_kg as u128 * 1_000_000
        };
        assert(grams == grams_per_kwh(*r));
        figure_and_count_row(
            out,
            "carbon behind the imports",
            r.imported_co2_kg,
            1,
            " kg (",
            grams,
            " g/kWh)",
        );
    }
    if let Some(expected) = r.opening_plan_bill_eur {
        let mut value = String::new();
        push_figure(&mut value, expected as i128, 2, " €, off by ");
        push_change(&mut value, r.cost.billed_eur as i128 - expected as i128, 2, "");
        assert(value@ =~= figure(expected as int, 2, " €, off by "@) + change(
            r.cost.billed_eur - expected,
            2,
            ""@,
        ));
        push_row(out, "the opening plan expected", value.as_str());
    }
    if r.unmet_charge_kwh > 10_000 {
        figure_row(out, "car left short by", r.unmet_charge_kwh, 1, " kWh");
    } else if r.planned_charge_shortfall_kwh > 10_000 {
        figure_row(
            out,
            "a plan feared falling short by",
            r.planned_charge_shortfall_kwh,
            1,
            " kWh, and did not",
        );
    }
    count_row(out, "without an Energy Guard", r.failsafe_minutes, " min");
}

fn push_compliance(out: &mut String, r: &DayResult)
    ensures
        final(out)@ == compliance(old(out)@, *r),
{
    if r.grid_event_respected {
        push_row(out, "§ 14a limit respected", "yes");
    } else {
        let mut value = String::new();
        value.append("NO, by ");
        push_figure(&mut value, r.worst_overshoot_w as i128, 0, " W");
        assert(value@ =~= "NO, by "@ + figure(r.worst_overshoot_w as int, 0, " W"@));
        push_row(out, "§ 14a limit respected", value.as_str());
    }
    if r.feed_in_ceiling_kw.is_some() {
        if r.worst_feed_in_overshoot_w <= 0 {
            push_row(out, "§ 9 EEG ceiling respected", "yes");
        } else {
            figure_and_count_row(
                out,
                "§ 9 EEG ceiling respected",
                r.worst_feed_in_overshoot_w,
                0,
                " W for ",
                r.feed_in_over_minutes as u128,
                " min, one control period behind a load step",
            );
        }
    }
}

fn push_closing(out: &mut String, r: &DayResult)
    ensures
        final(out)@ == closing(old(out)@, *r),
{
    out.append("\n");
    if r.risk_re_solves > 0 {
        count_row(
            out,
            "re-solved against three futures",
            r.risk_re_solves,
            "×, because a service was at risk",
        );
    }
    if r.s2_undescribed == 0 {
        count_row(out, "described in S2", r.s2_resources, " resources");
    } else {
        two_counts_row(
            out,
            "described in S2",
            r.s2_resources,
            " resources, ",
            r.s2_undescribed,
            " it cannot express",
        );
    }
    if r.widest_asset_value_ratio > 1_000_000 {
        figure_row(out, "dearest asset vs cheapest", r.widest_asset_value_ratio, 0, "×");
    }
    if r.relief_eur_per_kwh > 0 {
        figure_row(out, "relief from § 14a was worth", r.relief_eur_per_kwh, 2, " €/kWh");
    }
    if let Some(break_even) = r.modul2_break_even_kwh_per_year {
        figure_row(out, "Modul 2 pays above", break_even, 0, " kWh/a");
        change_row(
            out,
            "…on this day it would have",
            r.modul2_delta_today_eur as i128,
            " € on the energy",
        );
    }
    out.append("\n");
}

/// The report of a day whose date is already written out.
pub fn dated(date: &str, scenario: &Scenario, r: &DayResult) -> (out: String)
    ensures
        out@ == report(date@, scenario.grid_event, scenario.community, *r),
{
    let mut out = heading_text(date, scenario.grid_event, r.foresight_is_perfect);
    push_energies(&mut out, r);
    push_comfort(&mut out, scenario.community, r);
    push_forecasts(&mut out, r);
    push_money(&mut out, r);
    push_reductions(&mut out, r);
    push_workings(&mut out, r);
    push_compliance(&mut out, r);
    push_closing(&mut out, r);
    out
}

/// The report `hemsd simulate` prints for one day.
pub fn day(scenario: &Scenario, r: &DayResult) -> (out: String)
    requires
        crate::clock::is_inner_day(scenario.date as int),
    ensures
        out@ == report(
            crate::clock::date_text(scenario.date as int),
            scenario.grid_event,
            scenario.community,
            *r,
        ),
{
    let date = date_string(scenario.date);
    dated(date.as_str(), scenario, r)
}

// ── What a reader can rely on ───────────────────────────────────────────────

/// Whether one text stands in another at a place, unbroken.
pub open spec fn stands_at(text: Seq<char>, part: Seq<char>, i: int) -> bool {
    0 <= i && i + part.len() <= text.len() && text.subrange(i, i + part.len()) == part
}

/// Whether one text stands in another, unbroken.
#[verifier::opaque]
pub open spec fn says(text: Seq<char>, part: Seq<char>) -> bool {
    exists|i: int| #[trigger] stands_at(text, part, i)
}

/// A line of its own, with a label and a value.
pub open spec fn line(label: Seq<char>, value: Seq<char>) -> Seq<char> {
    row(Seq::empty(), label, value)
}

/// What a text says it says with something behind it and with something in front of
/// it, and a text says itself.
pub proof fn more_text_unsays_nothing(front: Seq<char>, part: Seq<char>, back: Seq<char>)
    ensures
        says(front + part + back, part),
        says(part, part),
        says(front + part, part),
        says(part + back, part),
{
    reveal(says);
    assert(stands_at(front + part + back, part, front.len() as int)) by {
        assert((front + part + back).subrange(front.len() as int, (front.len() + part.len()) as int)
            =~= part);
    }
    assert(stands_at(part, part, 0)) by {
        assert(part.subrange(0, part.len() as int) =~= part);
    }
    assert(stands_at(front + part, part, front.len() as int)) by {
        assert((front + part).subrange(front.len() as int, (front.len() + part.len()) as int)
            =~= part);
    }
    assert(stands_at(part + back, part, 0)) by {
        assert((part + back).subrange(0, part.len() as int) =~= part);
    }
}

/// Saying carries over: what a part says, the whole says.
pub proof fn the_whole_says_what_a_part_says(whole: Seq<char>, part: Seq<char>, piece: Seq<char>)
    requires
        says(whole, part),
        says(part, piece),
    ensures
        says(whole, piece),
{
    reveal(says);
    let i = choose|i: int| stands_at(whole, part, i);
    let j = choose|j: int| stands_at(part, piece, j);
    assert(whole.subrange(i + j, i + j + piece.len()) =~= part.subrange(j, j + piece.len()));
    assert(stands_at(whole, piece, i + j));
}

/// A line is two spaces, its label, its value and an end, in that order and with
/// nothing but spaces between them.
pub proof fn a_line_is_its_label_and_its_value(label: Seq<char>, value: Seq<char>)
    ensures
        says(line(label, value), label),
        says(line(label, value), value),
        label.len() <= 34 && value.len() <= 14 ==> line(label, value).len() == 52,
        forall|i: int|
            0 <= i < label.len() ==> line(label, value)[2 + i] == #[trigger] label[i],
        forall|i: int|
            0 <= i < value.len() ==> line(label, value)[line(label, value).len() - 1 - value.len()
                + i] == #[trigger] value[i],
        line(label, value).last() == '\n',
{
    reveal(says);
    reveal_strlit("  ");
    reveal_strlit(" ");
    reveal_strlit("\n");
    let l = line(label, value);
    assert(l.subrange(2, 2 + label.len() as int) =~= label);
    assert(stands_at(l, label, 2));
    let at = l.len() - 1 - value.len();
    assert(l.subrange(at, at + value.len() as int) =~= value);
    assert(stands_at(l, value, at));
}

proof fn lemma_row_is_a_line(before: Seq<char>, label: Seq<char>, value: Seq<char>)
    ensures
        row(before, label, value) == before + line(label, value),
{
    assert(row(before, label, value) =~= before + line(label, value));
}

broadcast proof fn lemma_row_says(before: Seq<char>, label: Seq<char>, value: Seq<char>)
    ensures
        #[trigger] says(row(before, label, value), line(label, value)),
{
    lemma_row_is_a_line(before, label, value);
    more_text_unsays_nothing(before, line(label, value), Seq::empty());
}

proof fn lemma_kept(before: Seq<char>, more: Seq<char>, part: Seq<char>)
    requires
        says(before, part),
    ensures
        says(before + more, part),
{
    reveal(says);
    let i = choose|i: int| stands_at(before, part, i);
    assert((before + more).subrange(i, i + part.len()) =~= before.subrange(i, i + part.len()));
    assert(stands_at(before + more, part, i));
}

broadcast proof fn lemma_row_keeps(
    before: Seq<char>,
    label: Seq<char>,
    value: Seq<char>,
    part: Seq<char>,
)
    requires
        says(before, part),
    ensures
        #[trigger] says(row(before, label, value), part),
{
    lemma_row_is_a_line(before, label, value);
    lemma_kept(before, line(label, value), part);
}

/// Every energy of the day stands on a line of its own, under its own name; the
/// dishwasher's where it ran.
pub proof fn each_energy_has_its_line(before: Seq<char>, r: DayResult)
    ensures
        says(energies(before, r), line("produced"@, figure(r.produced_kwh as int, 1, " kWh"@))),
        says(
            energies(before, r),
            line("household consumption"@, figure(r.consumed_kwh as int, 1, " kWh"@)),
        ),
        says(
            energies(before, r),
            line("charged into the car"@, figure(r.ev_charged_kwh as int, 1, " kWh"@)),
        ),
        says(energies(before, r), line("heat pump"@, figure(r.heat_pump_kwh as int, 1, " kWh"@))),
        says(energies(before, r), line("hot water"@, figure(r.dhw_kwh as int, 1, " kWh"@))),
        r.appliance_ran ==> says(
            energies(before, r),
            line(
                "dishwasher"@,
                figure(r.appliance_kwh as int, 1, " kWh, "@)
                    + crate::text::signed(r.appliance_shift_minutes as int)
                    + " min later"@,
            ),
        ),
        says(
            energies(before, r),
            line("battery throughput"@, figure(r.battery_throughput_kwh as int, 1, " kWh"@)),
        ),
        says(energies(before, r), line("imported"@, figure(r.imported_kwh as int, 1, " kWh"@))),
        says(energies(before, r), line("exported"@, figure(r.exported_kwh as int, 1, " kWh"@))),
        says(energies(before, r), line("curtailed"@, figure(r.curtailed_kwh as int, 1, " kWh"@))),
        r.feed_in_ceiling_kw matches Some(cap) ==> says(
            energies(before, r),
            line(
                "peak feed-in, per quarter hour"@,
                figure(r.peak_feed_in_kw as int, 2, " of "@) + figure(cap as int, 2, " kW"@),
            ),
        ),
        r.feed_in_ceiling_kw is None ==> says(
            energies(before, r),
            line(
                "peak feed-in, per quarter hour"@,
                figure(r.peak_feed_in_kw as int, 2, " kW, uncapped"@),
            ),
        ),
        says(
            energies(before, r),
            line("self-sufficiency"@, figure(r.self_sufficiency * 100, 0, " %"@)),
        ),
        says(
            energies(before, r),
            line(
                "wallbox on one conductor"@,
                count(r.single_phase_minutes as nat, " min ("@)
                    + count(r.phase_switches as nat, " switches)"@),
            ),
        ),
{
    broadcast use {lemma_row_says, lemma_row_keeps};

}

/// How warm the house and its water were, each on its line; what the community gave
/// where there is one, and what was not delivered where it is worth a line.
pub proof fn each_comfort_has_its_line(before: Seq<char>, community: bool, r: DayResult)
    ensures
        says(
            comfort(before, community, r),
            line(
                "indoor temperature"@,
                figure(r.indoor_min_c as int, 1, " – "@)
                    + figure(r.indoor_max_c as int, 1, " °C"@),
            ),
        ),
        says(
            comfort(before, community, r),
            line("outside the comfort band"@, figure(r.discomfort_kelvin_hours as int, 2, " K·h"@)),
        ),
        says(
            comfort(before, community, r),
            line("hot-water tank, emptiest"@, figure(r.tank_min_fill * 100, 0, " % full"@)),
        ),
        r.compressor_starts > 0 && r.compressor_held_minutes == 0 ==> says(
            comfort(before, community, r),
            line("compressor starts"@, count(r.compressor_starts as nat, ""@)),
        ),
        r.compressor_held_minutes > 0 ==> says(
            comfort(before, community, r),
            line(
                "compressor starts"@,
                count(r.compressor_starts as nat, " ("@)
                    + count(r.compressor_held_minutes as nat, " min held against a command)"@),
            ),
        ),
        r.cold_water_kwh > 10_000 ==> says(
            comfort(before, community, r),
            line("hot water not delivered"@, figure(r.cold_water_kwh as int, 1, " kWh"@)),
        ),
        community ==> says(
            comfort(before, community, r),
            line("allocated by the community"@, figure(r.shared_kwh as int, 1, " kWh"@)),
        ),
{
    broadcast use {lemma_row_says, lemma_row_keeps};

}

/// Every forecast is judged by its own scores, and where nothing was scored nothing is
/// said of one.
pub proof fn each_forecast_has_its_line(before: Seq<char>, r: DayResult)
    ensures
        r.pv_forecast.samples > 0 ==> says(
            forecasts(before, r),
            line(
                "roof, as the box learned it"@,
                figure(r.roof_correction * 100, 0, " % of the model"@),
            ),
        ),
        r.pv_forecast.samples > 0 ==> says(
            forecasts(before, r),
            line(
                "production forecast, CRPS"@,
                figure(r.pv_forecast.crps as int, 0, " W ("@)
                    + figure(r.pv_forecast.coverage * 100, 0, " % of "@)
                    + count(r.pv_forecast.samples as nat, " lit)"@),
            ),
        ),
        r.pv_forecast.samples > 0 ==> says(
            forecasts(before, r),
            line(
                "load forecast, CRPS"@,
                figure(r.load_forecast.crps as int, 0, " W ("@)
                    + figure(r.load_forecast.coverage * 100, 0, " % covered)"@),
            ),
        ),
        r.pv_forecast.samples == 0 ==> forecasts(before, r) == before,
{
    broadcast use {lemma_row_says, lemma_row_keeps};

}

/// Every sum of money stands on its own line: what the day cost, each part of that
/// where it comes to half a cent, what it would have cost, and what was saved.
pub proof fn each_sum_has_its_line(before: Seq<char>, r: DayResult)
    ensures
        says(
            money(before, r),
            line("electricity bill"@, figure(r.cost.energy_eur as int, 2, " €"@)),
        ),
        ({
            let netted = (r.baseline_energy_eur_netted - r.baseline.energy_eur) - (r.energy_eur_netted
                - r.cost.energy_eur);
            netted >= 5_000 || netted <= -5_000 ==> says(
                money(before, r),
                line(
                    "…if the quarter hour were netted"@,
                    change(
                        netted,
                        2,
                        " € on the bill saving, which a two-register meter does not forgive"@,
                    ),
                ),
            )
        }),
        r.cost.sharing_eur > 5_000 || r.cost.sharing_eur < -5_000 ==> says(
            money(before, r),
            line("…less the community's own"@, figure(r.cost.sharing_eur as int, 2, " €"@)),
        ),
        says(
            money(before, r),
            line("battery life spent"@, figure(r.cost.wear_eur as int, 2, " €"@)),
        ),
        says(
            money(before, r),
            line("comfort given up"@, figure(r.cost.discomfort_eur as int, 2, " €"@)),
        ),
        r.cost.curtailment_eur > 5_000 ==> says(
            money(before, r),
            line("production thrown away"@, figure(r.cost.curtailment_eur as int, 2, " €"@)),
        ),
        r.cost.unserved_eur > 5_000 ==> says(
            money(before, r),
            line("service not delivered"@, figure(r.cost.unserved_eur as int, 2, " €"@)),
        ),
        r.cost.stored_eur > 5_000 ==> says(
            money(before, r),
            line("borrowed from the stores"@, figure(r.cost.stored_eur as int, 2, " €"@)),
        ),
        ({
            let car = r.cost.vehicle_eur - r.baseline.vehicle_eur;
            car > 5_000 || car < -5_000 ==> says(
                money(before, r),
                line("left in the car"@, change(car, 2, " €"@)),
            )
        }),
        says(money(before, r), line("cost of the day"@, figure(r.cost.total_eur as int, 2, " €"@))),
        says(
            money(before, r),
            line("without optimisation"@, figure(r.baseline.total_eur as int, 2, " €"@)),
        ),
        says(money(before, r), line("saved"@, figure(r.saving_eur as int, 2, " €"@))),
        says(
            money(before, r),
            line("…of it on the bill"@, figure(r.bill_saving_eur as int, 2, " €"@)),
        ),
{
    broadcast use {lemma_row_says, lemma_row_keeps};

}

/// The record of the reductions says how long, against what, and how fast, and names
/// every fault of it.
pub proof fn each_reduction_has_its_line(before: Seq<char>, r: DayResult)
    ensures
        says(
            reductions(before, r),
            line("§ 14a limit in force"@, count(r.limited_minutes as nat, " min"@)),
        ),
        r.limited_minutes > 0 ==> says(
            reductions(before, r),
            line("…against a minimum of"@, figure(r.minimum_power_kw as int, 1, " kW"@)),
        ),
        r.commanded_below_minimum ==> says(
            reductions(before, r),
            line("commanded below that minimum"@, "YES — unlawful, and recorded"@),
        ),
        r.failsafe_below_minimum ==> says(
            reductions(before, r),
            line("own failsafe below that minimum"@, "YES — a configuration fault"@),
        ),
        r.lent_kwh > 5_000 ==> says(
            reductions(before, r),
            line("…covered by the store"@, figure(r.lent_kwh as int, 1, " kWh"@)),
        ),
        says(
            reductions(before, r),
            line(
                "control events recorded"@,
                count(r.control_events as nat, " ("@)
                    + count(r.evidence_samples as nat, " samples)"@),
            ),
        ),
        says(
            reductions(before, r),
            line("self-restraint records"@, count(r.failsafe_events as nat, ""@)),
        ),
        r.acted_by_command == Some(true) ==> says(
            reductions(before, r),
            line("slowest reaction"@, figure(r.worst_latency_s as int, 0, " s, commanded"@)),
        ),
        r.acted_by_command == Some(false) ==> says(
            reductions(before, r),
            line("slowest reaction"@, "0 s, already below"@),
        ),
        r.acted_by_command is None ==> says(
            reductions(before, r),
            line("slowest reaction"@, figure(r.worst_latency_s as int, 0, " s"@)),
        ),
{
    broadcast use {lemma_row_says, lemma_row_keeps};

}

/// What the plan and the hardware made of each other, each on its line.
pub proof fn each_working_has_its_line(before: Seq<char>, r: DayResult)
    ensures
        says(
            workings(before, r),
            line("minutes without a plan"@, count(r.minutes_without_a_plan as nat, ""@)),
        ),
        says(
            workings(before, r),
            line(
                "commands the hardware clipped"@,
                count(r.clipped_ticks as nat, " ticks ("@)
                    + figure(r.clipped_kwh as int, 2, " kWh)"@),
            ),
        ),
        says(
            workings(before, r),
            line("quarter hours § 51 EEG zeroed"@, count(r.para51_hours as nat, ""@)),
        ),
        r.imported_co2_kg > 0 ==> says(
            workings(before, r),
            line(
                "carbon behind the imports"@,
                figure(r.imported_co2_kg as int, 1, " kg ("@)
                    + count(grams_per_kwh(r), " g/kWh)"@),
            ),
        ),
        r.opening_plan_bill_eur matches Some(expected) ==> says(
            workings(before, r),
            line(
                "the opening plan expected"@,
                figure(expected as int, 2, " €, off by "@) + change(
                    r.cost.billed_eur - expected,
                    2,
                    ""@,
                ),
            ),
        ),
        r.unmet_charge_kwh > 10_000 ==> says(
            workings(before, r),
            line("car left short by"@, figure(r.unmet_charge_kwh as int, 1, " kWh"@)),
        ),
        r.unmet_charge_kwh <= 10_000 && r.planned_charge_shortfall_kwh > 10_000 ==> says(
            workings(before, r),
            line(
                "a plan feared falling short by"@,
                figure(r.planned_charge_shortfall_kwh as int, 1, " kWh, and did not"@),
            ),
        ),
        says(
            workings(before, r),
            line("without an Energy Guard"@, count(r.failsafe_minutes as nat, " min"@)),
        ),
{
    broadcast use {lemma_row_says, lemma_row_keeps};

}

/// Whether a limit was kept is said of each limit there is, and by how much where it
/// was not.
pub proof fn each_limit_has_its_line(before: Seq<char>, r: DayResult)
    ensures
        r.grid_event_respected ==> says(
            compliance(before, r),
            line("§ 14a limit respected"@, "yes"@),
        ),
        !r.grid_event_respected ==> says(
            compliance(before, r),
            line(
                "§ 14a limit respected"@,
                "NO, by "@
                    + figure(r.worst_overshoot_w as int, 0, " W"@),
            ),
        ),
        r.feed_in_ceiling_kw is Some && r.worst_feed_in_overshoot_w <= 0 ==> says(
            compliance(before, r),
            line("§ 9 EEG ceiling respected"@, "yes"@),
        ),
        r.feed_in_ceiling_kw is Some && r.worst_feed_in_overshoot_w > 0 ==> says(
            compliance(before, r),
            line(
                "§ 9 EEG ceiling respected"@,
                figure(r.worst_feed_in_overshoot_w as int, 0, " W for "@)
                    + count(r.feed_in_over_minutes as nat, " min, one control period behind a load step"@),
            ),
        ),
{
    broadcast use {lemma_row_says, lemma_row_keeps};

}

broadcast proof fn lemma_more_keeps(before: Seq<char>, more: Seq<char>, part: Seq<char>)
    requires
        says(before, part),
    ensures
        #[trigger] says(before + more, part),
{
    lemma_kept(before, more, part);
}

/// What else is worth a line stands on one.
pub proof fn each_remark_has_its_line(before: Seq<char>, r: DayResult)
    ensures
        r.risk_re_solves > 0 ==> says(
            closing(before, r),
            line(
                "re-solved against three futures"@,
                count(r.risk_re_solves as nat, "×, because a service was at risk"@),
            ),
        ),
        r.s2_undescribed == 0 ==> says(
            closing(before, r),
            line("described in S2"@, count(r.s2_resources as nat, " resources"@)),
        ),
        r.s2_undescribed > 0 ==> says(
            closing(before, r),
            line(
                "described in S2"@,
                count(r.s2_resources as nat, " resources, "@)
                    + count(r.s2_undescribed as nat, " it cannot express"@),
            ),
        ),
        r.widest_asset_value_ratio > 1_000_000 ==> says(
            closing(before, r),
            line("dearest asset vs cheapest"@, figure(r.widest_asset_value_ratio as int, 0, "×"@)),
        ),
        r.relief_eur_per_kwh > 0 ==> says(
            closing(before, r),
            line("relief from § 14a was worth"@, figure(r.relief_eur_per_kwh as int, 2, " €/kWh"@)),
        ),
        r.modul2_break_even_kwh_per_year matches Some(break_even) ==> says(
            closing(before, r),
            line("Modul 2 pays above"@, figure(break_even as int, 0, " kWh/a"@)),
        ),
        r.modul2_break_even_kwh_per_year is Some ==> says(
            closing(before, r),
            line(
                "…on this day it would have"@,
                change(r.modul2_delta_today_eur as int, 2, " € on the energy"@),
            ),
        ),
{
    broadcast use {lemma_row_says, lemma_row_keeps, lemma_more_keeps};

}

/// A section takes nothing back: it stands behind what was already there.
pub proof fn a_section_takes_nothing_back(
    before: Seq<char>,
    community: bool,
    r: DayResult,
    part: Seq<char>,
)
    requires
        says(before, part),
    ensures
        says(energies(before, r), part),
        says(comfort(before, community, r), part),
        says(forecasts(before, r), part),
        says(money(before, r), part),
        says(reductions(before, r), part),
        says(workings(before, r), part),
        says(compliance(before, r), part),
        says(closing(before, r), part),
{
    broadcast use {lemma_row_keeps, lemma_more_keeps};

}

/// The report says whatever one of its sections says, whichever stands before it.
pub proof fn the_report_says_what_its_sections_say(
    date: Seq<char>,
    grid_event: bool,
    community: bool,
    r: DayResult,
    part: Seq<char>,
)
    requires
        ({
            let s0 = heading(date, grid_event, r.foresight_is_perfect);
            let s1 = energies(s0, r);
            let s2 = comfort(s1, community, r);
            let s3 = forecasts(s2, r);
            let s4 = money(s3, r);
            let s5 = reductions(s4, r);
            let s6 = workings(s5, r);
            let s7 = compliance(s6, r);
            ||| says(s0, part)
            ||| says(s1, part)
            ||| says(s2, part)
            ||| says(s3, part)
            ||| says(s4, part)
            ||| says(s5, part)
            ||| says(s6, part)
            ||| says(s7, part)
        }),
    ensures
        says(report(date, grid_event, community, r), part),
{
    let s0 = heading(date, grid_event, r.foresight_is_perfect);
    let s1 = energies(s0, r);
    let s2 = comfort(s1, community, r);
    let s3 = forecasts(s2, r);
    let s4 = money(s3, r);
    let s5 = reductions(s4, r);
    let s6 = workings(s5, r);
    let s7 = compliance(s6, r);
    if says(s0, part) {
        a_section_takes_nothing_back(s0, community, r, part);
    }
    if says(s1, part) {
        a_section_takes_nothing_back(s1, community, r, part);
    }
    if says(s2, part) {
        a_section_takes_nothing_back(s2, community, r, part);
    }
    if says(s3, part) {
        a_section_takes_nothing_back(s3, community, r, part);
    }
    if says(s4, part) {
        a_section_takes_nothing_back(s4, community, r, part);
    }
    if says(s5, part) {
        a_section_takes_nothing_back(s5, community, r, part);
    }
    if says(s6, part) {
        a_section_takes_nothing_back(s6, community, r, part);
    }
    if says(s7, part) {
        a_section_takes_nothing_back(s7, community, r, part);
    }
}

/// The heading names the day and says whether the household was reduced on it; a day
/// whose weather the planner was shown says that it is no result, and is otherwise
/// headed as any other.
pub proof fn a_heading_says_which_day_it_is(date: Seq<char>, grid_event: bool, shown: bool)
    ensures
        says(heading(date, grid_event, shown), date),
        grid_event ==> says(heading(date, grid_event, shown), "with a § 14a reduction"@),
        !grid_event ==> says(heading(date, grid_event, shown), "no grid event"@),
        shown ==> says(
            heading(date, grid_event, shown),
            "  ⚠ the planner was shown the weather in advance — every figure\n"@,
        ),
        says(heading(date, grid_event, true), heading(date, grid_event, false)),
{
    broadcast use lemma_more_keeps;

    let which = if grid_event {
        "with a § 14a reduction"@
    } else {
        "no grid event"@
    };
    let warning = "  ⚠ the planner was shown the weather in advance — every figure\n"@;
    let lead = "\n  "@;
    more_text_unsays_nothing(lead, date, Seq::empty());
    more_text_unsays_nothing(lead + date + " — "@, which, Seq::empty());
    let first = lead + date + " — "@ + which + "\n\n"@;
    more_text_unsays_nothing(first, warning, Seq::empty());
    more_text_unsays_nothing(Seq::empty(), first, warning);
    assert(says(lead + date, date));
    assert(says(lead + date + " — "@, date));
    assert(says(lead + date + " — "@ + which, date));
    assert(says(first, date));
    assert(says(lead + date + " — "@ + which, which));
    assert(says(first, which));
    assert(says(first + warning, first));
    assert(says(first + warning, warning));
    assert(says(first + warning, date));
    assert(says(first + warning, which));
}

/// What comes to less than a line is worth does not change a word of the report: which
/// small amount it was cannot be told from it.
pub proof fn what_is_not_worth_a_line_changes_nothing(
    before: Seq<char>,
    community: bool,
    r: DayResult,
    s: DayResult,
)
    ensures
        s == (DayResult { cold_water_kwh: s.cold_water_kwh, ..r }) && r.cold_water_kwh <= 10_000
            && s.cold_water_kwh <= 10_000 ==> comfort(before, community, s) == comfort(
            before,
            community,
            r,
        ),
        s == (DayResult { shared_kwh: s.shared_kwh, ..r }) && !community ==> comfort(
            before,
            community,
            s,
        ) == comfort(before, community, r),
        s == (DayResult {
            appliance_kwh: s.appliance_kwh,
            appliance_shift_minutes: s.appliance_shift_minutes,
            ..r
        }) && !r.appliance_ran ==> energies(before, s) == energies(before, r),
        s == (DayResult { lent_kwh: s.lent_kwh, ..r }) && r.lent_kwh <= 5_000 && s.lent_kwh <= 5_000
            ==> reductions(before, s) == reductions(before, r),
        s == (DayResult { minimum_power_kw: s.minimum_power_kw, ..r }) && r.limited_minutes == 0
            ==> reductions(before, s) == reductions(before, r),
        s == (DayResult { unmet_charge_kwh: s.unmet_charge_kwh, ..r }) && r.unmet_charge_kwh
            <= 10_000 && s.unmet_charge_kwh <= 10_000 ==> workings(before, s) == workings(
            before,
            r,
        ),
        s == (DayResult {
            planned_charge_shortfall_kwh: s.planned_charge_shortfall_kwh,
            ..r
        }) && (r.unmet_charge_kwh > 10_000 || r.planned_charge_shortfall_kwh <= 10_000
            && s.planned_charge_shortfall_kwh <= 10_000) ==> workings(before, s) == workings(
            before,
            r,
        ),
        s == (DayResult { worst_overshoot_w: s.worst_overshoot_w, ..r })
            && r.grid_event_respected ==> compliance(before, s) == compliance(before, r),
        s == (DayResult { relief_eur_per_kwh: s.relief_eur_per_kwh, ..r })
            && r.relief_eur_per_kwh <= 0 && s.relief_eur_per_kwh <= 0 ==> closing(before, s)
            == closing(before, r),
        s == (DayResult {
            widest_asset_value_ratio: s.widest_asset_value_ratio,
            ..r
        }) && r.widest_asset_value_ratio <= 1_000_000 && s.widest_asset_value_ratio <= 1_000_000
            ==> closing(before, s) == closing(before, r),
        s == (DayResult { modul2_delta_today_eur: s.modul2_delta_today_eur, ..r })
            && r.modul2_break_even_kwh_per_year is None ==> closing(before, s) == closing(
            before,
            r,
        ),
{
}

/// Nor does a sum below half a cent change a word of the money.
pub proof fn a_sum_that_is_not_worth_a_line_changes_nothing(
    before: Seq<char>,
    r: DayResult,
    s: DayResult,
)
    requires
        s == (DayResult { cost: s.cost, ..r }),
        s.cost == (Cost {
            sharing_eur: s.cost.sharing_eur,
            curtailment_eur: s.cost.curtailment_eur,
            unserved_eur: s.cost.unserved_eur,
            stored_eur: s.cost.stored_eur,
            ..r.cost
        }),
        -5_000 <= r.cost.sharing_eur <= 5_000 && -5_000 <= s.cost.sharing_eur <= 5_000,
        r.cost.curtailment_eur <= 5_000 && s.cost.curtailment_eur <= 5_000,
        r.cost.unserved_eur <= 5_000 && s.cost.unserved_eur <= 5_000,
        r.cost.stored_eur <= 5_000 && s.cost.stored_eur <= 5_000,
    ensures
        money(before, s) == money(before, r),
{
    assert(netted_saving(s) == netted_saving(r));
    assert(left_in_the_car(s) == left_in_the_car(r));
}

/// So many grams for each kilowatt-hour drawn are what stands behind the draw, to
/// within half a gram a kilowatt-hour.
pub proof fn the_grams_of_a_draw_are_its_carbon(r: DayResult)
    requires
        r.imported_kwh >= 1,
        r.imported_co2_kg >= 0,
    ensures
        -r.imported_kwh <= 2 * (grams_per_kwh(r) * r.imported_kwh - 1_000 * r.imported_co2_kg)
            <= r.imported_kwh,
{
    crate::text::rounding_moves_by_at_most_half_a_unit(
        (r.imported_co2_kg * 1_000) as nat,
        r.imported_kwh as nat,
    );
}

/// A figure, a change and a count stand before their unit, and a change is the figure
/// with a plus in front of it where it is none below nothing.
pub proof fn a_figure_stands_before_its_unit(micro: int, dp: nat, n: nat, unit: Seq<char>)
    ensures
        figure(micro, dp, unit) == figure(micro, dp, Seq::empty()) + unit,
        change(micro, dp, unit) == change(micro, dp, Seq::empty()) + unit,
        count(n, unit) == count(n, Seq::empty()) + unit,
        micro < 0 ==> change(micro, dp, unit) == figure(micro, dp, unit),
        micro >= 0 ==> change(micro, dp, unit) == seq!['+'] + figure(micro, dp, unit),
        crate::text::value_of(count(n, Seq::empty())) == n,
{
    let none = Seq::<char>::empty();
    assert(figure(micro, dp, none) =~= crate::text::fixed(micro, dp, Sign::WhenNegative));
    assert(change(micro, dp, none) =~= crate::text::fixed(micro, dp, Sign::Always));
    assert(count(n, none) =~= crate::text::decimal(n));
    crate::text::a_number_reads_back_as_itself(n);
    assert(micro >= 0 ==> crate::text::fixed(micro, dp, Sign::Always) =~= seq!['+']
        + crate::text::fixed(micro, dp, Sign::WhenNegative));
    assert(micro >= 0 ==> change(micro, dp, unit) =~= seq!['+'] + figure(micro, dp, unit));
}

} // verus!

//! What a person at a terminal asks for, and what they are told.

use vstd::prelude::*;

use crate::backtest::{Calibration, Spread, CALIBRATION_DAYS};
use crate::config::{Modul3Settings, RiskModel};
use crate::report::Sent;
use crate::runtime::access::Issued;
use crate::site::{HouseholdConfig, Micros};
use crate::text::{
    push_decimal, push_fixed, push_left_aligned, push_right_aligned, push_signed, push_zero_padded,
    Sign,
};

verus! {

// ── What is asked for ───────────────────────────────────────────────────────

/// A reference day.
#[derive(Debug, Clone, Copy, PartialEq, Eq, Structural)]
pub enum Day {
    /// A January day with a § 14a reduction from 17:00 to 18:30.
    Winter,
    /// A June day with more production than the house can use.
    Summer,
    /// A January evening with a reduction and a car that has to charge through it.
    Deadline,
    /// The same evening on a household with no store.
    Shared,
    /// The June day with the planner switched off.
    Offline,
    /// A September day with the planner off and broken cloud.
    Autumn,
    /// The June day with nobody home.
    Capped,
}

/// A scenario, by what it is called.
#[derive(Debug, Clone, Copy, PartialEq, Eq, Structural)]
pub enum Named {
    /// Winter, with a reduction.
    WinterWithGridEvent,
    /// Summer, with a surplus.
    SummerSurplus,
    /// A winter evening, with a deadline.
    WinterEveningDeadline,
    /// A winter evening, with no store.
    WinterEveningNoStore,
    /// Summer, without a planner.
    SummerWithoutAPlanner,
    /// Autumn, without a planner.
    AutumnWithoutAPlanner,
    /// Summer, capped.
    SummerCapped,
}

/// The scenario for one named day.
pub open spec fn named(day: Day) -> Named {
    match day {
        Day::Winter => Named::WinterWithGridEvent,
        Day::Summer => Named::SummerSurplus,
        Day::Deadline => Named::WinterEveningDeadline,
        Day::Shared => Named::WinterEveningNoStore,
        Day::Offline => Named::SummerWithoutAPlanner,
        Day::Autumn => Named::AutumnWithoutAPlanner,
        Day::Capped => Named::SummerCapped,
    }
}

/// The scenario for one named day.
pub fn scenario_for(day: Day) -> (n: Named)
    ensures
        n == named(day),
{
    match day {
        Day::Winter => Named::WinterWithGridEvent,
        Day::Summer => Named::SummerSurplus,
        Day::Deadline => Named::WinterEveningDeadline,
        Day::Shared => Named::WinterEveningNoStore,
        Day::Offline => Named::SummerWithoutAPlanner,
        Day::Autumn => Named::AutumnWithoutAPlanner,
        Day::Capped => Named::SummerCapped,
    }
}

/// How the planner treats forecast error.
#[derive(Debug, Clone, Copy, PartialEq, Eq, Structural)]
pub enum Risk {
    /// One future, priced as though it were certain.
    Median,
    /// Three futures, minimising the expected cost across them.
    Expected,
    /// The same three, with a third of the objective on the worst.
    Hedged,
    /// One median, and three futures on the days that need them.
    Adaptive,
}

impl Risk {
    /// The starting policy, before any plan is solved again.
    pub open spec fn starts_as(self) -> RiskModel {
        match self {
            Risk::Median => RiskModel::Deterministic,
            Risk::Expected => RiskModel::Expected,
            Risk::Hedged => RiskModel::Hedged,
            Risk::Adaptive => RiskModel::Deterministic,
        }
    }

    /// The starting policy, before any plan is solved again.
    pub fn model(self) -> (m: RiskModel)
        ensures
            m == self.starts_as(),
    {
        match self {
            Risk::Median | Risk::Adaptive => RiskModel::Deterministic,
            Risk::Expected => RiskModel::Expected,
            Risk::Hedged => RiskModel::Hedged,
        }
    }

    /// Whether a plan that says a service is at risk is solved again against three
    /// futures.
    pub fn adaptive(self) -> (r: bool)
        ensures
            r == (self == Risk::Adaptive),
    {
        matches!(self, Risk::Adaptive)
    }

    /// What a comparison calls the policy.
    pub open spec fn called(self) -> Seq<char> {
        match self {
            Risk::Median => "one median"@,
            Risk::Expected => "three futures"@,
            Risk::Hedged => "…and the tail"@,
            Risk::Adaptive => "only when at risk"@,
        }
    }

    /// What a comparison calls the policy.
    pub fn label(self) -> (text: &'static str)
        ensures
            text@ == self.called(),
    {
        match self {
            Risk::Median => "one median",
            Risk::Expected => "three futures",
            Risk::Hedged => "…and the tail",
            Risk::Adaptive => "only when at risk",
        }
    }
}

/// The policies a comparison runs, in its order.
pub fn policies() -> (r: Vec<Risk>)
    ensures
        r@ == seq![Risk::Median, Risk::Expected, Risk::Hedged, Risk::Adaptive],
{
    vec![Risk::Median, Risk::Expected, Risk::Hedged, Risk::Adaptive]
}

/// What a simulated day is asked to change.
#[derive(Debug, Clone, Copy, PartialEq, Eq, Structural)]
pub struct Asked {
    /// What battery throughput costs in wear, €/kWh.
    pub wear_eur_per_kwh: Option<Micros>,
    /// Whether the charge point is wired to three fixed conductors.
    pub no_phase_switching: bool,
    /// Whether a metering system with a control device lifts the feed-in cap.
    pub imsys: bool,
    /// Whether the heat pump has a single speed.
    pub heat_pump_on_off: bool,
    /// Whether the planner is shown the weather.
    pub perfect_foresight: bool,
    /// How the planner treats forecast error.
    pub risk: Risk,
    /// What a kilogram of carbon dioxide is priced at, €/kg.
    pub co2_eur_per_kg: Option<Micros>,
    /// What a kilowatt-hour off the grid is priced at beyond its price, €/kWh.
    pub autarky_eur_per_kwh: Option<Micros>,
    /// Whether every asset has the same weight.
    pub uniform_weights: bool,
    /// Whether the household shares its street's roofs.
    pub sharing: bool,
}

/// Whether a household is another one with what was asked for changed, and nothing
/// else.
pub open spec fn is_as_asked(c: HouseholdConfig, reference: HouseholdConfig, asked: Asked) -> bool {
    &&& c.pv == match reference.pv {
        Some(pv) => Some(
            if asked.imsys {
                crate::site::PvConfig {
                    para9: crate::site::Para9Status { relieved: true, ..pv.para9 },
                    ..pv
                }
            } else {
                pv
            },
        ),
        None => None,
    }
    &&& c.battery == match reference.battery {
        Some(battery) => Some(
            match asked.wear_eur_per_kwh {
                Some(wear) => crate::site::BatteryConfig { wear_eur_per_kwh: wear, ..battery },
                None => battery,
            },
        ),
        None => None,
    }
    &&& c.evse == match reference.evse {
        Some(evse) => Some(
            crate::site::EvseConfig { switchable: !asked.no_phase_switching, ..evse },
        ),
        None => None,
    }
    &&& c.heat_pump == match reference.heat_pump {
        Some(heat_pump) => Some(
            crate::site::HeatPumpConfig { modulating: !asked.heat_pump_on_off, ..heat_pump },
        ),
        None => None,
    }
    &&& c.dhw == reference.dhw
    &&& c.fuse == reference.fuse
    &&& c.location == reference.location
    &&& c.dishwasher == reference.dishwasher
}

/// A simulated day, as it was asked for.
#[derive(Debug)]
pub struct Simulated {
    /// Which scenario it is.
    pub named: Named,
    /// The household.
    pub config: HouseholdConfig,
    /// Whether the planner is shown the weather.
    pub perfect_foresight: bool,
    /// Whether each asset has a weight of its own.
    pub per_asset_weights: bool,
    /// What a kilogram of carbon dioxide is priced at, where it is, €/kg.
    pub carbon_price: Option<Micros>,
    /// What a kilowatt-hour off the grid is priced at, where it is, €/kWh.
    pub autarky_premium: Option<Micros>,
    /// The neighbours' roofs, where the household shares them, kWp.
    pub community_kwp: Option<i128>,
    /// What the planner does about risk.
    pub risk: RiskModel,
    /// Whether it thinks again where a service is at risk.
    pub adaptive_risk: bool,
}

/// How many roofs of its own size a household's neighbours have.
pub const NEIGHBOURS: i128 = 3;

/// What a simulated day comes to, from the reference household and what was asked.
pub fn simulated(day: Day, asked: &Asked, reference: HouseholdConfig) -> (s: Simulated)
    ensures
        s.named == named(day),
        is_as_asked(s.config, reference, *asked),
        s.perfect_foresight == asked.perfect_foresight,
        s.per_asset_weights == !asked.uniform_weights,
        s.carbon_price == asked.co2_eur_per_kg,
        s.autarky_premium == asked.autarky_eur_per_kwh,
        s.community_kwp == if asked.sharing {
            Some(
                match reference.pv {
                    Some(pv) => (pv.kwp * NEIGHBOURS) as i128,
                    None => 0,
                },
            )
        } else {
            None
        },
        s.risk == asked.risk.starts_as(),
        s.adaptive_risk == (asked.risk == Risk::Adaptive),
{
    let mut config = reference;
    if let (Some(wear), Some(battery)) = (asked.wear_eur_per_kwh, config.battery) {
        config.battery =
            Some(crate::site::BatteryConfig { wear_eur_per_kwh: wear, ..battery });
    }
    if let Some(evse) = config.evse {
        config.evse =
            Some(crate::site::EvseConfig { switchable: !asked.no_phase_switching, ..evse });
    }
    if let Some(heat_pump) = config.heat_pump {
        config.heat_pump = Some(
            crate::site::HeatPumpConfig { modulating: !asked.heat_pump_on_off, ..heat_pump },
        );
    }
    if asked.imsys {
        if let Some(pv) = config.pv {
            let para9 = crate::site::Para9Status { relieved: true, ..pv.para9 };
            config.pv = Some(crate::site::PvConfig { para9, ..pv });
        }
    }
    let community_kwp: Option<i128> = if asked.sharing {
        match config.pv {
            Some(pv) => Some(pv.kwp as i128 * NEIGHBOURS),
            None => Some(0),
        }
    } else {
        None
    };
    Simulated {
        named: scenario_for(day),
        config,
        perfect_foresight: asked.perfect_foresight,
        per_asset_weights: !asked.uniform_weights,
        carbon_price: asked.co2_eur_per_kg,
        autarky_premium: asked.autarky_eur_per_kwh,
        community_kwp,
        risk: asked.risk.model(),
        adaptive_risk: asked.risk.adaptive(),
    }
}

// ── Figures in columns ──────────────────────────────────────────────────────

/// A figure in a column, its unit behind it.
pub open spec fn cell(micro: int, dp: nat, width: nat, unit: Seq<char>) -> Seq<char> {
    crate::text::right_aligned(crate::text::fixed(micro, dp, Sign::WhenNegative), width) + unit
}

/// A whole number in a column.
pub open spec fn whole(n: nat, width: nat) -> Seq<char> {
    crate::text::right_aligned(crate::text::decimal(n), width)
}

/// A figure in a column, or how far below or above every figure nothing is.
pub open spec fn extreme(
    figure: Option<Micros>,
    nothing: Seq<char>,
    dp: nat,
    width: nat,
    unit: Seq<char>,
) -> Seq<char> {
    match figure {
        Some(micro) => cell(micro as int, dp, width, unit),
        None => crate::text::right_aligned(nothing, width) + unit,
    }
}

fn push_cell(out: &mut String, micro: i128, dp: u32, width: usize, unit: &str)
    requires
        dp <= 6,
        micro > i128::MIN,
    ensures
        final(out)@ == old(out)@ + cell(micro as int, dp as nat, width as nat, unit@),
{
    let mut figure = String::new();
    push_fixed(&mut figure, micro, dp, Sign::WhenNegative);
    assert(figure@ =~= crate::text::fixed(micro as int, dp as nat, Sign::WhenNegative));
    push_right_aligned(out, figure.as_str(), width);
    out.append(unit);
    assert(out@ =~= old(out)@ + cell(micro as int, dp as nat, width as nat, unit@));
}

fn push_whole(out: &mut String, n: u128, width: usize)
    ensures
        final(out)@ == old(out)@ + whole(n as nat, width as nat),
{
    let mut figure = String::new();
    push_decimal(&mut figure, n);
    assert(figure@ =~= crate::text::decimal(n as nat));
    push_right_aligned(out, figure.as_str(), width);
}

fn push_extreme(
    out: &mut String,
    figure: Option<Micros>,
    nothing: &str,
    dp: u32,
    width: usize,
    unit: &str,
)
    requires
        dp <= 6,
    ensures
        final(out)@ == old(out)@ + extreme(figure, nothing@, dp as nat, width as nat, unit@),
{
    match figure {
        Some(micro) => push_cell(out, micro as i128, dp, width, unit),
        None => {
            push_right_aligned(out, nothing, width);
            out.append(unit);
            assert(out@ =~= old(out)@ + (crate::text::right_aligned(nothing@, width as nat)
                + unit@));
        },
    }
}

// ── A sweep, judged ─────────────────────────────────────────────────────────

/// What a sweep says of its bands.
#[derive(Debug, Clone, Copy, PartialEq, Eq, Structural)]
pub enum Judged {
    /// They are as wide as they claim, over enough days to say so.
    Calibrated,
    /// There were too few days to say.
    TooFewDays,
    /// They are not.
    WrongWidth,
}

/// What a sweep says of its bands.
pub open spec fn judgement(s: Spread) -> Judged {
    if s.pv_forecast.well_calibrated && s.load_forecast.well_calibrated {
        Judged::Calibrated
    } else if s.pv_forecast.episodes < CALIBRATION_DAYS {
        Judged::TooFewDays
    } else {
        Judged::WrongWidth
    }
}

/// What a sweep says of its bands.
pub fn judged(s: &Spread) -> (j: Judged)
    ensures
        j == judgement(*s),
{
    if s.is_well_calibrated() {
        Judged::Calibrated
    } else if s.pv_forecast.episodes < CALIBRATION_DAYS {
        Judged::TooFewDays
    } else {
        Judged::WrongWidth
    }
}

/// One band of a back-test.
pub open spec fn scored_band(before: Seq<char>, label: Seq<char>, c: Calibration) -> Seq<char> {
    before + "  "@ + crate::text::left_aligned(label, 16) + cell(c.coverage * 100, 0, 9, "%"@)
        + cell(c.crps as int, 0, 9, "W"@) + cell(c.bias as int, 0, 8, "W"@) + whole(
        c.samples as nat,
        10,
    ) + whole(c.skipped as nat, 9) + "\n"@
}

/// What a back-test prints.
pub open spec fn backtest_report(date: Seq<char>, s: Spread) -> Seq<char> {
    let t = "\n  "@ + date + " — "@ + crate::text::decimal(s.savings_eur@.len())
        + " weathers, the band scored against every one of them\n\n"@;
    let t = t + "  band               covered      CRPS     bias    scored     dark\n"@;
    let t = scored_band(t, "production"@, s.pv_forecast);
    let t = scored_band(t, "household load"@, s.load_forecast);
    let t = t
        + "\n  a 10–90 band should cover 80 %; `dark` is the quarter hours where\n"@
        + "  there was nothing to forecast and which are therefore not scored.\n\n"@;
    t + "  "@ + match judgement(s) {
        Judged::Calibrated => "calibrated — over enough independent days to say so."@,
        Judged::TooFewDays => "too few days to call it either way — try --days 20."@,
        Judged::WrongWidth =>
            "not calibrated: the plan is hedging against a future of the wrong width."@,
    } + "\n\n"@
}

fn push_scored_band(out: &mut String, label: &str, c: &Calibration)
    ensures
        final(out)@ == scored_band(old(out)@, label@, *c),
{
    out.append("  ");
    push_left_aligned(out, label, 16);
    push_cell(out, c.coverage as i128 * 100, 0, 9, "%");
    push_cell(out, c.crps as i128, 0, 9, "W");
    push_cell(out, c.bias as i128, 0, 8, "W");
    push_whole(out, c.samples as u128, 10);
    push_whole(out, c.skipped as u128, 9);
    out.append("\n");
}

/// What a back-test prints, of a day that is written as `date`.
pub fn print_backtest(date: &str, s: &Spread) -> (out: String)
    ensures
        out@ == backtest_report(date@, *s),
{
    let mut out = String::new();
    out.append("\n  ");
    assert(out@ =~= "\n  "@);
    out.append(date);
    out.append(" — ");
    push_decimal(&mut out, s.days() as u128);
    out.append(" weathers, the band scored against every one of them\n\n");
    out.append("  band               covered      CRPS     bias    scored     dark\n");
    push_scored_band(&mut out, "production", &s.pv_forecast);
    push_scored_band(&mut out, "household load", &s.load_forecast);
    out.append("\n  a 10–90 band should cover 80 %; `dark` is the quarter hours where\n");
    out.append("  there was nothing to forecast and which are therefore not scored.\n\n");
    out.append("  ");
    out.append(
        match judged(s) {
            Judged::Calibrated => "calibrated — over enough independent days to say so.",
            Judged::TooFewDays => "too few days to call it either way — try --days 20.",
            Judged::WrongWidth =>
                "not calibrated: the plan is hedging against a future of the wrong width.",
        },
    );
    out.append("\n\n");
    out
}

/// One policy's outcome over a sweep.
#[derive(Debug)]
pub struct PolicyRow {
    /// The policy.
    pub policy: Risk,
    /// What it came to.
    pub spread: Spread,
}

/// One policy's line.
pub open spec fn policy_line(before: Seq<char>, row: PolicyRow) -> Seq<char> {
    before + "  "@ + crate::text::left_aligned(row.policy.called(), 16) + cell(
        crate::backtest::mean_of(row.spread.savings_eur@),
        2,
        9,
        "€"@,
    ) + extreme(crate::backtest::least_of(row.spread.savings_eur@), "inf"@, 2, 9, "€"@) + extreme(
        crate::backtest::greatest_of(row.spread.savings_eur@),
        "-inf"@,
        2,
        9,
        "€"@,
    ) + cell(crate::backtest::mean_of(row.spread.unserved_eur@), 2, 11, "€"@) + cell(
        row.spread.seconds as int,
        0,
        9,
        "s"@,
    ) + "\n"@
}

/// The policies' lines, one after another.
pub open spec fn policy_lines(before: Seq<char>, rows: Seq<PolicyRow>) -> Seq<char>
    decreases rows.len(),
{
    if rows.len() == 0 {
        before
    } else {
        policy_line(policy_lines(before, rows.drop_last()), rows.last())
    }
}

/// One band of a comparison.
pub open spec fn compared_band(before: Seq<char>, label: Seq<char>, c: Calibration) -> Seq<char> {
    before + "  "@ + crate::text::left_aligned(label, 16) + cell(c.coverage * 100, 0, 9, "%"@)
        + cell(c.crps as int, 0, 9, "W"@) + whole(c.episodes as nat, 12) + "\n"@
}

/// The bands of a comparison, read off one policy: the forecasts do not depend on it.
pub open spec fn bands(before: Seq<char>, s: Spread) -> Seq<char> {
    let t = before + "\n  band               covered      CRPS    episodes\n"@;
    let t = compared_band(t, "production"@, s.pv_forecast);
    let t = compared_band(t, "household load"@, s.load_forecast);
    t + "\n  a 10–90 band should cover 80 %. "@ + match judgement(s) {
        Judged::Calibrated => "It does, over enough days to say so."@,
        Judged::TooFewDays => "Too few days to say — run --days 20."@,
        Judged::WrongWidth =>
            "It does not: the plan is hedging against a future that is the wrong width."@,
    } + "\n"@
}

/// What a comparison of policies prints.
pub open spec fn risk_report(date: Seq<char>, rows: Seq<PolicyRow>) -> Seq<char> {
    let days = if rows.len() == 0 {
        0
    } else {
        rows[0].spread.savings_eur@.len()
    };
    let t = "\n  "@ + date + " — "@ + crate::text::decimal(days)
        + " weathers, the same household under each policy\n\n"@;
    let t = t + "  policy                mean     worst      best    unserved     solve\n"@;
    let t = policy_lines(t, rows);
    let t = if rows.len() == 0 {
        t
    } else {
        bands(t, rows[0].spread)
    };
    t + "\n  mean is what the household saves on an average day; worst is the day\n"@
        + "  it bought the insurance for. A hedge worth having has a lower mean and a\n"@
        + "  higher worst — and if it has a lower mean and nothing else, it is not\n"@
        + "  worth having, which is a result rather than a failure.\n\n"@
}

fn push_policy_line(out: &mut String, row: &PolicyRow)
    ensures
        final(out)@ == policy_line(old(out)@, *row),
{
    let worst: Option<Micros> = row.spread.worst_saving_eur();
    let best: Option<Micros> = row.spread.best_saving_eur();
    proof {
        crate::backtest::there_is_one_least(row.spread.savings_eur@, worst);
        crate::backtest::there_is_one_greatest(row.spread.savings_eur@, best);
    }
    out.append("  ");
    push_left_aligned(out, row.policy.label(), 16);
    push_cell(out, row.spread.mean_saving_eur(), 2, 9, "€");
    push_extreme(out, worst, "inf", 2, 9, "€");
    push_extreme(out, best, "-inf", 2, 9, "€");
    push_cell(out, row.spread.mean_unserved_eur(), 2, 11, "€");
    push_cell(out, row.spread.seconds as i128, 0, 9, "s");
    out.append("\n");
}

fn push_compared_band(out: &mut String, label: &str, c: &Calibration)
    ensures
        final(out)@ == compared_band(old(out)@, label@, *c),
{
    out.append("  ");
    push_left_aligned(out, label, 16);
    push_cell(out, c.coverage as i128 * 100, 0, 9, "%");
    push_cell(out, c.crps as i128, 0, 9, "W");
    push_whole(out, c.episodes as u128, 12);
    out.append("\n");
}

fn push_bands(out: &mut String, s: &Spread)
    ensures
        final(out)@ == bands(old(out)@, *s),
{
    out.append("\n  band               covered      CRPS    episodes\n");
    push_compared_band(out, "production", &s.pv_forecast);
    push_compared_band(out, "household load", &s.load_forecast);
    out.append("\n  a 10–90 band should cover 80 %. ");
    out.append(
        match judged(s) {
            Judged::Calibrated => "It does, over enough days to say so.",
            Judged::TooFewDays => "Too few days to say — run --days 20.",
            Judged::WrongWidth =>
                "It does not: the plan is hedging against a future that is the wrong width.",
        },
    );
    out.append("\n");
}

/// What a comparison of policies prints, of a day that is written as `date`.
pub fn print_risk(date: &str, rows: &Vec<PolicyRow>) -> (out: String)
    ensures
        out@ == risk_report(date@, rows@),
{
    let days: usize = if rows.len() == 0 {
        0
    } else {
        rows[0].spread.days()
    };
    let mut out = String::new();
    out.append("\n  ");
    assert(out@ =~= "\n  "@);
    out.append(date);
    out.append(" — ");
    push_decimal(&mut out, days as u128);
    out.append(" weathers, the same household under each policy\n\n");
    out.append("  policy                mean     worst      best    unserved     solve\n");
    let ghost before = out@;
    let mut i: usize = 0;
    while i < rows.len()
        invariant
            i <= rows@.len(),
            out@ == policy_lines(before, rows@.take(i as int)),
        decreases rows@.len() - i,
    {
        assert(rows@.take(i + 1).drop_last() =~= rows@.take(i as int));
        push_policy_line(&mut out, &rows[i]);
        i = i + 1;
    }
    assert(rows@.take(i as int) =~= rows@);
    if rows.len() > 0 {
        push_bands(&mut out, &rows[0].spread);
    }
    out.append("\n  mean is what the household saves on an average day; worst is the day\n");
    out.append("  it bought the insurance for. A hedge worth having has a lower mean and a\n");
    out.append("  higher worst — and if it has a lower mean and nothing else, it is not\n");
    out.append("  worth having, which is a result rather than a failure.\n\n");
    out
}

// ── A box, checked ──────────────────────────────────────────────────────────

/// Minutes of a day on a clock.
pub open spec fn clock_text(minutes: nat) -> Seq<char> {
    crate::text::zero_padded((minutes / 60) % 24, 2) + ":"@ + crate::text::zero_padded(
        minutes % 60,
        2,
    )
}

/// Minutes of a day on a clock, for whoever reads them back against a price sheet.
pub fn clock(minutes: u16) -> (text: String)
    ensures
        text@ == clock_text(minutes as nat),
{
    let mut text = String::new();
    push_zero_padded(&mut text, ((minutes / 60) % 24) as u128, 2);
    assert(text@ =~= crate::text::zero_padded(((minutes / 60) % 24) as nat, 2));
    text.append(":");
    push_zero_padded(&mut text, (minutes % 60) as u128, 2);
    text
}

/// Texts with a comma between them.
pub open spec fn listed(texts: Seq<String>) -> Seq<char>
    decreases texts.len(),
{
    if texts.len() == 0 {
        Seq::empty()
    } else if texts.len() == 1 {
        texts[0]@
    } else {
        listed(texts.drop_last()) + ", "@ + texts.last()@
    }
}

fn push_listed(out: &mut String, texts: &Vec<String>)
    ensures
        final(out)@ == old(out)@ + listed(texts@),
{
    let ghost before = out@;
    let mut i: usize = 0;
    assert(before =~= before + listed(texts@.take(0)));
    while i < texts.len()
        invariant
            i <= texts@.len(),
            out@ == before + listed(texts@.take(i as int)),
        decreases texts@.len() - i,
    {
        let ghost so_far = texts@.take(i + 1);
        assert(so_far.drop_last() =~= texts@.take(i as int));
        assert(so_far.last() == texts@[i as int]);
        if i > 0 {
            out.append(", ");
        }
        out.append(texts[i].as_str());
        i = i + 1;
        assert(out@ =~= before + listed(so_far));
    }
    assert(texts@.take(i as int) =~= texts@);
}

/// What a check says of the hand-copied calendar: which one passed, and where it
/// came from.
pub open spec fn calendar_line(before: Seq<char>, m: Modul3Settings) -> Seq<char> {
    let t = before + "📅 Modul 3 `"@ + m.id@ + "` for "@ + crate::text::signed(m.year as int)
        + " conforms — HT "@ + clock_text(m.hochtarif_minutes[0] as nat) + "–"@ + clock_text(
        m.hochtarif_minutes[1] as nat,
    ) + ", NT "@ + clock_text(m.niedertarif_minutes[0] as nat) + "–"@ + clock_text(
        m.niedertarif_minutes[1] as nat,
    ) + ", billed in "@ + listed(m.billed_quarters@) + "\n"@;
    match m.source {
        Some(source) => t + "   transcribed from "@ + source@ + "\n"@,
        None => t,
    }
}

fn push_calendar_line(out: &mut String, m: &Modul3Settings)
    ensures
        final(out)@ == calendar_line(old(out)@, *m),
{
    out.append("📅 Modul 3 `");
    out.append(m.id.as_str());
    out.append("` for ");
    push_signed(out, m.year as i64);
    out.append(" conforms — HT ");
    out.append(clock(m.hochtarif_minutes[0]).as_str());
    out.append("–");
    out.append(clock(m.hochtarif_minutes[1]).as_str());
    out.append(", NT ");
    out.append(clock(m.niedertarif_minutes[0]).as_str());
    out.append("–");
    out.append(clock(m.niedertarif_minutes[1]).as_str());
    out.append(", billed in ");
    push_listed(out, &m.billed_quarters);
    out.append("\n");
    if let Some(source) = &m.source {
        out.append("   transcribed from ");
        out.append(source.as_str());
        out.append("\n");
    }
}

/// What a check of a box found.
#[derive(Debug)]
pub struct Checked {
    /// The box's own SKI as it is shown, where it listens.
    pub ski: Option<String>,
    /// The token its surfaces answer to.
    pub issued: Issued,
    /// How many assets the house has.
    pub assets: usize,
    /// How many drivers are configured.
    pub drivers: usize,
    /// How many resources the house is described by.
    pub described: usize,
    /// How many it cannot express.
    pub undescribed: usize,
    /// The hand-copied calendar, where there is one.
    pub modul3: Option<Modul3Settings>,
}

impl Checked {
    /// What an installer is told: the two credentials they carry away, what the box
    /// found, and which calendar passed.
    pub open spec fn said(self) -> Seq<char> {
        let t = match self.ski {
            Some(ski) => "🔑 SKI  "@ + ski@
                + "\n   give this to the metering point operator, so the Steuerbox trusts it\n"@,
            None => Seq::empty(),
        };
        let t = match self.issued.announced() {
            Some(text) => t + text + "\n"@,
            None => t,
        };
        let t = t + "✅ "@ + crate::text::decimal(self.assets as nat) + " assets, "@
            + crate::text::decimal(self.drivers as nat) + " drivers, "@ + crate::text::decimal(
            self.described as nat,
        ) + " resources described in S2"@;
        let t = if self.undescribed == 0 {
            t
        } else {
            t + ", "@ + crate::text::decimal(self.undescribed as nat) + " it cannot express"@
        };
        let t = t + "\n"@;
        match self.modul3 {
            Some(m) => calendar_line(t, m),
            None => t,
        }
    }

    /// What an installer is told.
    pub fn message(&self) -> (out: String)
        ensures
            out@ == self.said(),
    {
        let mut out = String::new();
        assert(out@ =~= Seq::<char>::empty());
        if let Some(ski) = &self.ski {
            out.append("🔑 SKI  ");
            assert(out@ =~= "🔑 SKI  "@);
            out.append(ski.as_str());
            out.append(
                "\n   give this to the metering point operator, so the Steuerbox trusts it\n",
            );
        }
        if let Some(text) = self.issued.announcement() {
            out.append(text.as_str());
            out.append("\n");
        }
        out.append("✅ ");
        push_decimal(&mut out, self.assets as u128);
        out.append(" assets, ");
        push_decimal(&mut out, self.drivers as u128);
        out.append(" drivers, ");
        push_decimal(&mut out, self.described as u128);
        out.append(" resources described in S2");
        if self.undescribed != 0 {
            out.append(", ");
            push_decimal(&mut out, self.undescribed as u128);
            out.append(" it cannot express");
        }
        out.append("\n");
        if let Some(m) = &self.modul3 {
            push_calendar_line(&mut out, m);
        }
        out
    }
}

// ── A day, kept and sent ────────────────────────────────────────────────────

/// What is printed of a day that was kept.
pub fn record_day(path: &str, events: u64, quarter_hours: u64) -> (out: String)
    ensures
        out@ == "\n  kept in "@ + path@ + "\n  …waiting for the fleet      "@
            + crate::text::decimal(events as nat) + " events, "@ + crate::text::decimal(
            quarter_hours as nat,
        ) + " quarter hours\n"@,
{
    let mut out = String::new();
    out.append("\n  kept in ");
    assert(out@ =~= "\n  kept in "@);
    out.append(path);
    out.append("\n  …waiting for the fleet      ");
    push_decimal(&mut out, events as u128);
    out.append(" events, ");
    push_decimal(&mut out, quarter_hours as u128);
    out.append(" quarter hours\n");
    out
}

/// Whether a day can be reported at all: only one that is signed is.
pub fn secret_for<'a>(report_to: Option<&'a str>, secret: Option<&'a str>) -> (r: Result<
    Option<(&'a str, &'a str)>,
    &'static str,
>)
    ensures
        match (report_to, secret) {
            (None, _) => r == Ok::<Option<(&'a str, &'a str)>, &'static str>(None),
            (Some(url), Some(key)) => r == Ok::<Option<(&'a str, &'a str)>, &'static str>(
                Some((url, key)),
            ),
            (Some(_), None) => r matches Err(said) && said@
                == "--report-to needs --report-secret (or HEMS_OBSD_SECRET): the fleet will not take an unsigned day"@,
        },
{
    match (report_to, secret) {
        (None, _) => Ok(None),
        (Some(url), Some(key)) => Ok(Some((url, key))),
        (Some(_), None) => Err(
            "--report-to needs --report-secret (or HEMS_OBSD_SECRET): the fleet will not take an unsigned day",
        ),
    }
}

/// What is printed of a day that was sent to `endpoint`: `detail` is the status it
/// answered, or why nobody did.
pub open spec fn sent_text(sent: Sent, endpoint: Seq<char>, detail: Seq<char>) -> Seq<char> {
    let queued = "\n  the day is queued and `hemsd run` will try again\n"@;
    match sent {
        Sent::Taken => "\n  reported to "@ + endpoint + " — HTTP "@ + detail + "\n"@,
        Sent::Queued => "\n  "@ + endpoint + " answered HTTP "@ + detail + queued,
        Sent::Unreachable => "\n  could not report to "@ + endpoint + ": "@ + detail + queued,
        Sent::Lost => "\n  could not report to "@ + endpoint + ": "@ + detail + "\n"@,
    }
}

/// What is printed of a day that was sent.
pub fn sent_message(sent: Sent, endpoint: &str, detail: &str) -> (out: String)
    ensures
        out@ == sent_text(sent, endpoint@, detail@),
{
    let (before, between): (&str, &str) = match sent {
        Sent::Taken => ("\n  reported to ", " — HTTP "),
        Sent::Queued => ("\n  ", " answered HTTP "),
        Sent::Unreachable | Sent::Lost => ("\n  could not report to ", ": "),
    };
    let mut out = String::new();
    out.append(before);
    assert(out@ =~= before@);
    out.append(endpoint);
    out.append(between);
    out.append(detail);
    match sent {
        Sent::Queued | Sent::Unreachable => {
            out.append("\n  the day is queued and `hemsd run` will try again\n");
        },
        Sent::Taken | Sent::Lost => {
            out.append("\n");
        },
    }
    out
}

/// What is printed where sharing moves a day to one the rule reaches.
pub fn moved_message(from: &str, to: &str) -> (out: String)
    ensures
        out@ == "  § 42c reaches this household from "@ + from@ + ", so the same day runs on "@
            + to@ + "\n"@,
{
    let mut out = String::new();
    out.append("  § 42c reaches this household from ");
    assert(out@ =~= "  § 42c reaches this household from "@);
    out.append(from);
    out.append(", so the same day runs on ");
    out.append(to);
    out.append("\n");
    out
}

// ── What a reader can rely on ───────────────────────────────────────────────

/// Two days that are asked for by different names are different scenarios.
pub proof fn different_days_are_different_scenarios(a: Day, b: Day)
    ensures
        named(a) == named(b) ==> a == b,
{
}

/// A policy that thinks again starts as the one that does not, and no two others start
/// alike: three futures are planned for from the start exactly where that was asked.
pub proof fn a_policy_starts_as_it_was_asked_to(a: Risk, b: Risk)
    ensures
        a.starts_as() == b.starts_as() <==> a == b || (a == Risk::Median || a == Risk::Adaptive)
            && (b == Risk::Median || b == Risk::Adaptive),
        a.starts_as() == RiskModel::Deterministic <==> a == Risk::Median || a == Risk::Adaptive,
        a.starts_as() == RiskModel::Hedged <==> a == Risk::Hedged,
{
}

/// What was asked of a device is what it has, and nothing else about it changes; a
/// device the household does not have is not asked into it.
pub proof fn a_household_changes_only_as_asked(
    c: HouseholdConfig,
    reference: HouseholdConfig,
    asked: Asked,
)
    requires
        is_as_asked(c, reference, asked),
    ensures
        c.pv is Some <==> reference.pv is Some,
        c.battery is Some <==> reference.battery is Some,
        c.evse is Some <==> reference.evse is Some,
        c.heat_pump is Some <==> reference.heat_pump is Some,
        c.dhw == reference.dhw,
        c.fuse == reference.fuse,
        c.location == reference.location,
        c.dishwasher == reference.dishwasher,
        c.pv matches Some(pv) ==> {
            &&& pv.kwp == reference.pv->Some_0.kwp
            &&& pv.ac_nominal == reference.pv->Some_0.ac_nominal
            &&& pv.para9.imsys_since == reference.pv->Some_0.para9.imsys_since
            &&& pv.para9.relieved == (asked.imsys || reference.pv->Some_0.para9.relieved)
        },
        c.battery matches Some(battery) ==> {
            &&& battery.kwh == reference.battery->Some_0.kwh
            &&& battery.power == reference.battery->Some_0.power
            &&& battery.reserve_soc == reference.battery->Some_0.reserve_soc
            &&& asked.wear_eur_per_kwh matches Some(wear) ==> battery.wear_eur_per_kwh == wear
            &&& asked.wear_eur_per_kwh is None ==> battery.wear_eur_per_kwh
                == reference.battery->Some_0.wear_eur_per_kwh
        },
        c.evse matches Some(evse) ==> {
            &&& evse.max_current == reference.evse->Some_0.max_current
            &&& evse.charge_limit == reference.evse->Some_0.charge_limit
            &&& evse.switchable != asked.no_phase_switching
        },
        c.heat_pump matches Some(heat_pump) ==> {
            &&& heat_pump.power == reference.heat_pump->Some_0.power
            &&& heat_pump.comfort_min_c == reference.heat_pump->Some_0.comfort_min_c
            &&& heat_pump.comfort_max_c == reference.heat_pump->Some_0.comfort_max_c
            &&& heat_pump.control == reference.heat_pump->Some_0.control
            &&& heat_pump.modulating != asked.heat_pump_on_off
        },
{
}

/// Bands are called as wide as they claim only where both of them are, and for want of
/// days only where one is not and there were fewer than twenty of them.
pub proof fn bands_are_judged_together(s: Spread)
    ensures
        judgement(s) == Judged::Calibrated <==> s.pv_forecast.well_calibrated
            && s.load_forecast.well_calibrated,
        judgement(s) == Judged::TooFewDays ==> s.pv_forecast.episodes < 20,
        judgement(s) == Judged::WrongWidth ==> s.pv_forecast.episodes >= 20,
{
}

proof fn lemma_added(text: Seq<char>, part: Seq<char>, piece: Seq<char>)
    ensures
        crate::render::says(text + part, part),
        crate::render::says(text, piece) ==> crate::render::says(text + part, piece),
        crate::render::says(part, piece) ==> crate::render::says(text + part, piece),
{
    crate::render::more_text_unsays_nothing(text, part, Seq::empty());
    crate::render::more_text_unsays_nothing(Seq::empty(), text, part);
    if crate::render::says(text, piece) {
        crate::render::the_whole_says_what_a_part_says(text + part, text, piece);
    }
    if crate::render::says(part, piece) {
        crate::render::the_whole_says_what_a_part_says(text + part, part, piece);
    }
}

broadcast proof fn lemma_added_says(text: Seq<char>, part: Seq<char>)
    ensures
        #[trigger] crate::render::says(text + part, part),
{
    lemma_added(text, part, part);
}

broadcast proof fn lemma_added_keeps(text: Seq<char>, part: Seq<char>, piece: Seq<char>)
    requires
        crate::render::says(text, piece),
    ensures
        #[trigger] crate::render::says(text + part, piece),
{
    lemma_added(text, part, piece);
}

proof fn lemma_together(a: Seq<char>, b: Seq<char>, c: Seq<char>)
    ensures
        a + b + c == a + (b + c),
{
    assert(a + b + c =~= a + (b + c));
}

#[verifier::rlimit(50)]
proof fn lemma_band_behind(before: Seq<char>, label: Seq<char>, c: Calibration)
    ensures
        scored_band(before, label, c) == before + scored_band(Seq::empty(), label, c),
{
    assert(scored_band(before, label, c) =~= before + scored_band(Seq::empty(), label, c));
}

#[verifier::rlimit(50)]
proof fn lemma_policy_behind(before: Seq<char>, row: PolicyRow)
    ensures
        policy_line(before, row) == before + policy_line(Seq::empty(), row),
{
    assert(policy_line(before, row) =~= before + policy_line(Seq::empty(), row));
}

#[verifier::rlimit(50)]
proof fn lemma_times_behind(before: Seq<char>, m: Modul3Settings)
    ensures
        calendar_line(before, (Modul3Settings { source: None, ..m })) == before + "📅 Modul 3 `"@
            + m.id@ + "` for "@ + crate::text::signed(m.year as int) + (" conforms — HT "@
            + clock_text(m.hochtarif_minutes[0] as nat) + "–"@ + clock_text(
            m.hochtarif_minutes[1] as nat,
        ) + ", NT "@ + clock_text(m.niedertarif_minutes[0] as nat) + "–"@ + clock_text(
            m.niedertarif_minutes[1] as nat,
        ) + ", billed in "@ + listed(m.billed_quarters@) + "\n"@),
{
    let t0 = before + "📅 Modul 3 `"@ + m.id@ + "` for "@ + crate::text::signed(m.year as int);
    let times = " conforms — HT "@ + clock_text(m.hochtarif_minutes[0] as nat) + "–"@ + clock_text(
        m.hochtarif_minutes[1] as nat,
    ) + ", NT "@ + clock_text(m.niedertarif_minutes[0] as nat) + "–"@ + clock_text(
        m.niedertarif_minutes[1] as nat,
    ) + ", billed in "@ + listed(m.billed_quarters@) + "\n"@;
    assert(calendar_line(before, (Modul3Settings { source: None, ..m })) =~= t0 + times);
}

/// A band's line holds its name and each of its scores, in a column of its own with
/// its own unit, and takes nothing of what was there back.
#[verifier::rlimit(50)]
pub proof fn a_band_is_printed_score_by_score(
    before: Seq<char>,
    label: Seq<char>,
    c: Calibration,
)
    ensures
        crate::render::says(scored_band(before, label, c), before),
        crate::render::says(scored_band(before, label, c), crate::text::left_aligned(label, 16)),
        crate::render::says(scored_band(before, label, c), cell(c.coverage * 100, 0, 9, "%"@)),
        crate::render::says(scored_band(before, label, c), cell(c.crps as int, 0, 9, "W"@)),
        crate::render::says(scored_band(before, label, c), cell(c.bias as int, 0, 8, "W"@)),
        crate::render::says(scored_band(before, label, c), whole(c.samples as nat, 10)),
        crate::render::says(scored_band(before, label, c), whole(c.skipped as nat, 9)),
        crate::render::says(compared_band(before, label, c), before),
        crate::render::says(compared_band(before, label, c), crate::text::left_aligned(label, 16)),
        crate::render::says(compared_band(before, label, c), cell(c.coverage * 100, 0, 9, "%"@)),
        crate::render::says(compared_band(before, label, c), cell(c.crps as int, 0, 9, "W"@)),
        crate::render::says(compared_band(before, label, c), whole(c.episodes as nat, 12)),
{
    broadcast use {lemma_added_says, lemma_added_keeps};

    crate::render::more_text_unsays_nothing(Seq::empty(), before, "  "@);
    assert(crate::render::says(before + "  "@, before));
}

/// A back-test says which day it was, over how many weathers, what each band scored,
/// and what is made of that.
#[verifier::rlimit(50)]
pub proof fn a_backtest_says_what_was_scored(date: Seq<char>, s: Spread)
    ensures
        crate::render::says(backtest_report(date, s), date),
        crate::render::says(
            backtest_report(date, s),
            crate::text::decimal(s.savings_eur@.len()),
        ),
        crate::render::says(
            backtest_report(date, s),
            scored_band(Seq::empty(), "production"@, s.pv_forecast),
        ),
        crate::render::says(
            backtest_report(date, s),
            scored_band(Seq::empty(), "household load"@, s.load_forecast),
        ),
        s.pv_forecast.well_calibrated && s.load_forecast.well_calibrated ==> crate::render::says(
            backtest_report(date, s),
            "calibrated — over enough independent days to say so."@,
        ),
        !(s.pv_forecast.well_calibrated && s.load_forecast.well_calibrated)
            && s.pv_forecast.episodes < 20 ==> crate::render::says(
            backtest_report(date, s),
            "too few days to call it either way — try --days 20."@,
        ),
        !(s.pv_forecast.well_calibrated && s.load_forecast.well_calibrated)
            && s.pv_forecast.episodes >= 20 ==> crate::render::says(
            backtest_report(date, s),
            "not calibrated: the plan is hedging against a future of the wrong width."@,
        ),
{
    broadcast use {lemma_added_says, lemma_added_keeps};

    let t0 = "\n  "@ + date + " — "@ + crate::text::decimal(s.savings_eur@.len())
        + " weathers, the band scored against every one of them\n\n"@;
    let t1 = t0 + "  band               covered      CRPS     bias    scored     dark\n"@;
    let t2 = scored_band(t1, "production"@, s.pv_forecast);
    let t3 = scored_band(t2, "household load"@, s.load_forecast);
    let pv = scored_band(Seq::empty(), "production"@, s.pv_forecast);
    let load = scored_band(Seq::empty(), "household load"@, s.load_forecast);
    lemma_band_behind(t1, "production"@, s.pv_forecast);
    lemma_band_behind(t2, "household load"@, s.load_forecast);
    assert(crate::render::says(t0, date));
    assert(crate::render::says(t0, crate::text::decimal(s.savings_eur@.len())));
    assert(crate::render::says(t1 + pv, pv));
    assert(crate::render::says(t1 + pv, date));
    assert(crate::render::says(t1 + pv, crate::text::decimal(s.savings_eur@.len())));
    assert(crate::render::says(t2 + load, load));
    assert(crate::render::says(t2 + load, pv));
    assert(crate::render::says(t2 + load, date));
    assert(crate::render::says(t2 + load, crate::text::decimal(s.savings_eur@.len())));
}

/// A policy's line holds its name, the mean of its days' savings, the least and the
/// greatest of them, the mean of what was left undone and how long it thought; and a
/// policy that was run for no day has no least and no greatest.
#[verifier::rlimit(50)]
pub proof fn a_policy_is_printed_figure_by_figure(before: Seq<char>, row: PolicyRow, v: Micros)
    ensures
        crate::render::says(policy_line(before, row), row.policy.called()),
        crate::render::says(
            policy_line(before, row),
            cell(crate::backtest::mean_of(row.spread.savings_eur@), 2, 9, "€"@),
        ),
        crate::backtest::is_least(row.spread.savings_eur@, Some(v)) ==> crate::render::says(
            policy_line(before, row),
            cell(v as int, 2, 9, "€"@),
        ),
        crate::backtest::is_greatest(row.spread.savings_eur@, Some(v)) ==> crate::render::says(
            policy_line(before, row),
            cell(v as int, 2, 9, "€"@),
        ),
        row.spread.savings_eur@.len() == 0 ==> crate::render::says(
            policy_line(before, row),
            crate::text::right_aligned("inf"@, 9) + "€"@ + (crate::text::right_aligned("-inf"@, 9)
                + "€"@),
        ),
        crate::render::says(
            policy_line(before, row),
            cell(crate::backtest::mean_of(row.spread.unserved_eur@), 2, 11, "€"@),
        ),
        crate::render::says(policy_line(before, row), cell(row.spread.seconds as int, 0, 9, "s"@)),
{
    broadcast use {lemma_added_says, lemma_added_keeps};

    let savings = row.spread.savings_eur@;
    let name = crate::text::left_aligned(row.policy.called(), 16);
    let mean = cell(crate::backtest::mean_of(savings), 2, 9, "€"@);
    let worst = extreme(crate::backtest::least_of(savings), "inf"@, 2, 9, "€"@);
    let best = extreme(crate::backtest::greatest_of(savings), "-inf"@, 2, 9, "€"@);
    let left = cell(crate::backtest::mean_of(row.spread.unserved_eur@), 2, 11, "€"@);
    let took = cell(row.spread.seconds as int, 0, 9, "s"@);
    let t1 = before + "  "@ + name;
    crate::render::more_text_unsays_nothing(
        Seq::empty(),
        row.policy.called(),
        crate::text::spaces(crate::text::missing(row.policy.called().len(), 16)),
    );
    lemma_added(before + "  "@, name, row.policy.called());
    assert(crate::render::says(t1, row.policy.called()));
    let t3 = t1 + mean + worst + best;
    lemma_together(t1 + mean, worst, best);
    assert(crate::render::says(t1 + mean + (worst + best), worst + best));
    if crate::backtest::is_least(savings, Some(v)) {
        crate::backtest::there_is_one_least(savings, Some(v));
        assert(crate::render::says(t1 + mean + worst, worst));
    }
    if crate::backtest::is_greatest(savings, Some(v)) {
        crate::backtest::there_is_one_greatest(savings, Some(v));
        assert(crate::render::says(t1 + mean + worst + best, best));
    }
    assert(policy_line(before, row) == t3 + left + took + "\n"@);
}

/// Every policy that was run has its line, and the lines stand in the order they were
/// run in.
#[verifier::rlimit(50)]
pub proof fn every_policy_has_its_line(before: Seq<char>, rows: Seq<PolicyRow>, i: int)
    requires
        0 <= i < rows.len(),
    ensures
        crate::render::says(policy_lines(before, rows), policy_line(Seq::empty(), rows[i])),
        crate::render::says(policy_lines(before, rows), policy_lines(before, rows.take(i))),
    decreases rows.len(),
{
    let rest = rows.drop_last();
    let so_far = policy_lines(before, rest);
    let last = policy_line(Seq::empty(), rows.last());
    lemma_policy_behind(so_far, rows.last());
    crate::render::more_text_unsays_nothing(so_far, last, Seq::empty());
    crate::render::more_text_unsays_nothing(Seq::empty(), so_far, last);
    if i < rest.len() {
        every_policy_has_its_line(before, rest, i);
        assert(rest.take(i) =~= rows.take(i));
        lemma_added(so_far, last, policy_line(Seq::empty(), rows[i]));
        lemma_added(so_far, last, policy_lines(before, rows.take(i)));
    } else {
        assert(rows.take(i) =~= rest);
    }
}

/// A clock shows an hour and a minute of two digits each: what they say is the minute
/// of the day, and a day later it shows the same.
pub proof fn a_clock_shows_the_minute_of_the_day(minutes: nat)
    ensures
        clock_text(minutes).len() == 5,
        clock_text(minutes)[2] == ':',
        60 * crate::text::value_of(clock_text(minutes).take(2)) + crate::text::value_of(
            clock_text(minutes).skip(3),
        ) == minutes % 1440,
        clock_text(minutes + 1440) == clock_text(minutes),
{
    let hour = (minutes / 60) % 24;
    let minute = minutes % 60;
    lemma_two_digits(hour);
    lemma_two_digits(minute);
    lemma_parts_of_a_clock(
        crate::text::zero_padded(hour, 2),
        crate::text::zero_padded(minute, 2),
    );
    lemma_round_the_clock(minutes as int);
}

proof fn lemma_round_the_clock(minutes: int)
    ensures
        60 * ((minutes / 60) % 24) + minutes % 60 == minutes % 1440,
        ((minutes + 1440) / 60) % 24 == (minutes / 60) % 24,
        (minutes + 1440) % 60 == minutes % 60,
{
    let hours = minutes / 60;
    let days = hours / 24;
    let rest = 60 * (hours % 24) + minutes % 60;
    assert(minutes == 60 * hours + minutes % 60);
    assert(hours == 24 * days + hours % 24);
    vstd::arithmetic::div_mod::lemma_fundamental_div_mod_converse(minutes, 1440, days, rest);
    vstd::arithmetic::div_mod::lemma_fundamental_div_mod_converse(
        minutes + 1440,
        60,
        hours + 24,
        minutes % 60,
    );
    vstd::arithmetic::div_mod::lemma_fundamental_div_mod_converse(
        hours + 24,
        24,
        days + 1,
        hours % 24,
    );
}

proof fn lemma_two_digits(n: nat)
    requires
        n < 100,
    ensures
        crate::text::zero_padded(n, 2).len() == 2,
        crate::text::value_of(crate::text::zero_padded(n, 2)) == n,
{
    assert(crate::text::ten_to(2) == 100) by {
        reveal_with_fuel(crate::text::ten_to, 3);
    }
    crate::text::padding_changes_no_number(n, 2);
}

proof fn lemma_parts_of_a_clock(hour: Seq<char>, minute: Seq<char>)
    requires
        hour.len() == 2,
        minute.len() == 2,
    ensures
        (hour + ":"@ + minute).len() == 5,
        (hour + ":"@ + minute)[2] == ':',
        (hour + ":"@ + minute).take(2) == hour,
        (hour + ":"@ + minute).skip(3) == minute,
{
    reveal_strlit(":");
    assert((hour + ":"@ + minute).take(2) =~= hour);
    assert((hour + ":"@ + minute).skip(3) =~= minute);
}

/// A list leaves nothing out: two lists one after the other are the one, a comma, and
/// the other.
pub proof fn a_list_is_its_texts_with_commas(a: Seq<String>, b: Seq<String>, text: String)
    ensures
        a.len() > 0 && b.len() > 0 ==> listed(a + b) == listed(a) + ", "@ + listed(b),
        listed(seq![text]) == text@,
        listed(Seq::empty()) == Seq::<char>::empty(),
    decreases b.len(),
{
    if a.len() > 0 && b.len() > 0 {
        let rest = b.drop_last();
        assert((a + b).drop_last() =~= a + rest);
        assert((a + b).last() == b.last());
        if rest.len() == 0 {
            assert(a + rest =~= a);
        } else {
            a_list_is_its_texts_with_commas(a, rest, text);
            assert(listed(a + b) =~= listed(a) + ", "@ + listed(b));
        }
    }
}

/// A calendar that conforms is read back to whoever copied it: its name, its year, its
/// times, its quarters, and where it came from.
#[verifier::rlimit(50)]
pub proof fn a_calendar_is_read_back(before: Seq<char>, m: Modul3Settings)
    ensures
        crate::render::says(calendar_line(before, m), before),
        crate::render::says(calendar_line(before, m), m.id@),
        crate::render::says(calendar_line(before, m), crate::text::signed(m.year as int)),
        crate::render::says(
            calendar_line(before, m),
            " conforms — HT "@ + clock_text(m.hochtarif_minutes[0] as nat) + "–"@ + clock_text(
                m.hochtarif_minutes[1] as nat,
            ) + ", NT "@ + clock_text(m.niedertarif_minutes[0] as nat) + "–"@ + clock_text(
                m.niedertarif_minutes[1] as nat,
            ) + ", billed in "@ + listed(m.billed_quarters@) + "\n"@,
        ),
        m.source matches Some(source) ==> crate::render::says(calendar_line(before, m), source@),
{
    broadcast use {lemma_added_says, lemma_added_keeps};

    let year = crate::text::signed(m.year as int);
    let t0 = before + "📅 Modul 3 `"@ + m.id@ + "` for "@ + year;
    let times = " conforms — HT "@ + clock_text(m.hochtarif_minutes[0] as nat) + "–"@ + clock_text(
        m.hochtarif_minutes[1] as nat,
    ) + ", NT "@ + clock_text(m.niedertarif_minutes[0] as nat) + "–"@ + clock_text(
        m.niedertarif_minutes[1] as nat,
    ) + ", billed in "@ + listed(m.billed_quarters@) + "\n"@;
    let plain = Modul3Settings { source: None, ..m };
    let t1 = calendar_line(before, plain);
    lemma_times_behind(before, m);
    crate::render::more_text_unsays_nothing(before, "📅 Modul 3 `"@, Seq::empty());
    crate::render::more_text_unsays_nothing(Seq::empty(), before, "📅 Modul 3 `"@);
    assert(crate::render::says(before, before));
    assert(crate::render::says(t0, before));
    assert(crate::render::says(t0, m.id@));
    assert(crate::render::says(t0, year));
    assert(crate::render::says(t0 + times, times));
    assert(crate::render::says(t0 + times, before));
    assert(crate::render::says(t0 + times, m.id@));
    assert(crate::render::says(t0 + times, year));
    if let Some(source) = m.source {
        assert(calendar_line(before, m) == t1 + "   transcribed from "@ + source@ + "\n"@);
    } else {
        assert(calendar_line(before, m) == t1);
    }
}

#[verifier::rlimit(50)]
proof fn lemma_found_behind(c: Checked, before: Seq<char>)
    ensures
        before + "✅ "@ + crate::text::decimal(c.assets as nat) + " assets, "@
            + crate::text::decimal(c.drivers as nat) + " drivers, "@ + crate::text::decimal(
            c.described as nat,
        ) + " resources described in S2"@ == before + ("✅ "@ + crate::text::decimal(
            c.assets as nat,
        ) + " assets, "@ + crate::text::decimal(c.drivers as nat) + " drivers, "@
            + crate::text::decimal(c.described as nat) + " resources described in S2"@),
{
    let found = "✅ "@ + crate::text::decimal(c.assets as nat) + " assets, "@
        + crate::text::decimal(c.drivers as nat) + " drivers, "@ + crate::text::decimal(
        c.described as nat,
    ) + " resources described in S2"@;
    assert(before + "✅ "@ + crate::text::decimal(c.assets as nat) + " assets, "@
        + crate::text::decimal(c.drivers as nat) + " drivers, "@ + crate::text::decimal(
        c.described as nat,
    ) + " resources described in S2"@ =~= before + found);
}

#[verifier::rlimit(50)]
proof fn lemma_told_without_a_calendar(c: Checked)
    requires
        c.modul3 is None,
    ensures
        crate::render::says(
            c.said(),
            "✅ "@ + crate::text::decimal(c.assets as nat) + " assets, "@ + crate::text::decimal(
                c.drivers as nat,
            ) + " drivers, "@ + crate::text::decimal(c.described as nat)
                + " resources described in S2"@,
        ),
        c.undescribed > 0 ==> crate::render::says(
            c.said(),
            crate::text::decimal(c.undescribed as nat) + " it cannot express"@,
        ),
        c.ski matches Some(ski) ==> crate::render::says(c.said(), ski@),
        c.issued.announced() matches Some(text) ==> crate::render::says(c.said(), text),
{
    broadcast use {lemma_added_says, lemma_added_keeps};

    let t0 = match c.ski {
        Some(ski) => "🔑 SKI  "@ + ski@
            + "\n   give this to the metering point operator, so the Steuerbox trusts it\n"@,
        None => Seq::empty(),
    };
    let t1 = match c.issued.announced() {
        Some(text) => t0 + text + "\n"@,
        None => t0,
    };
    let found = "✅ "@ + crate::text::decimal(c.assets as nat) + " assets, "@
        + crate::text::decimal(c.drivers as nat) + " drivers, "@ + crate::text::decimal(
        c.described as nat,
    ) + " resources described in S2"@;
    let t2 = t1 + "✅ "@ + crate::text::decimal(c.assets as nat) + " assets, "@
        + crate::text::decimal(c.drivers as nat) + " drivers, "@ + crate::text::decimal(
        c.described as nat,
    ) + " resources described in S2"@;
    lemma_found_behind(c, t1);
    let less = crate::text::decimal(c.undescribed as nat) + " it cannot express"@;
    let t3 = if c.undescribed == 0 {
        t2
    } else {
        t2 + ", "@ + crate::text::decimal(c.undescribed as nat) + " it cannot express"@
    };
    lemma_together(
        t2 + ", "@,
        crate::text::decimal(c.undescribed as nat),
        " it cannot express"@,
    );
    assert(crate::render::says(t1 + found, found));
    if c.undescribed > 0 {
        assert(crate::render::says(t2 + ", "@ + less, less));
        assert(crate::render::says(t2 + ", "@ + less, found));
    }
    if let Some(ski) = c.ski {
        assert(crate::render::says(t0, ski@));
        assert(crate::render::says(t1, ski@));
        assert(crate::render::says(t1 + found, ski@));
        assert(crate::render::says(t3, ski@));
    }
    if let Some(text) = c.issued.announced() {
        assert(crate::render::says(t1, text));
        assert(crate::render::says(t1 + found, text));
        assert(crate::render::says(t3, text));
    }
    assert(c.said() == t3 + "\n"@);
}

proof fn lemma_said_with_a_calendar(c: Checked, m: Modul3Settings)
    requires
        c.modul3 == Some(m),
    ensures
        c.said() == (Checked { modul3: None, ..c }).said() + calendar_line(Seq::empty(), m),
{
    let before = (Checked { modul3: None, ..c }).said();
    assert(c.said() == calendar_line(before, m));
    lemma_calendar_behind(before, m);
}

#[verifier::rlimit(50)]
proof fn lemma_calendar_behind(before: Seq<char>, m: Modul3Settings)
    ensures
        calendar_line(before, m) == before + calendar_line(Seq::empty(), m),
{
    let plain = Modul3Settings { source: None, ..m };
    let times = " conforms — HT "@ + clock_text(m.hochtarif_minutes[0] as nat) + "–"@ + clock_text(
        m.hochtarif_minutes[1] as nat,
    ) + ", NT "@ + clock_text(m.niedertarif_minutes[0] as nat) + "–"@ + clock_text(
        m.niedertarif_minutes[1] as nat,
    ) + ", billed in "@ + listed(m.billed_quarters@) + "\n"@;
    lemma_times_behind(before, m);
    lemma_times_behind(Seq::empty(), m);
    lemma_five_behind(
        before,
        "📅 Modul 3 `"@,
        m.id@,
        "` for "@,
        crate::text::signed(m.year as int),
        times,
    );
    if let Some(source) = m.source {
        let whole = calendar_line(Seq::empty(), plain);
        assert(calendar_line(before, m) == before + whole + "   transcribed from "@ + source@
            + "\n"@);
        lemma_three_behind(before, whole, "   transcribed from "@, source@, "\n"@);
    }
}

proof fn lemma_five_behind(
    before: Seq<char>,
    a: Seq<char>,
    b: Seq<char>,
    c: Seq<char>,
    d: Seq<char>,
    e: Seq<char>,
)
    ensures
        before + a + b + c + d + e == before + (Seq::<char>::empty() + a + b + c + d + e),
{
    assert(before + a + b + c + d + e =~= before + (Seq::<char>::empty() + a + b + c + d + e));
}

proof fn lemma_three_behind(
    before: Seq<char>,
    text: Seq<char>,
    a: Seq<char>,
    b: Seq<char>,
    c: Seq<char>,
)
    ensures
        before + text + a + b + c == before + (text + a + b + c),
{
    assert(before + text + a + b + c =~= before + (text + a + b + c));
}

/// An installer is told how many devices, drivers and resources there are, each under
/// its own name, and how many could not be expressed where some could not; and they are
/// told the identifier where the box has one.
#[verifier::rlimit(50)]
pub proof fn an_installer_is_told_what_was_found(c: Checked)
    ensures
        crate::render::says(
            c.said(),
            "✅ "@ + crate::text::decimal(c.assets as nat) + " assets, "@ + crate::text::decimal(
                c.drivers as nat,
            ) + " drivers, "@ + crate::text::decimal(c.described as nat)
                + " resources described in S2"@,
        ),
        c.undescribed > 0 ==> crate::render::says(
            c.said(),
            crate::text::decimal(c.undescribed as nat) + " it cannot express"@,
        ),
        c.ski matches Some(ski) ==> crate::render::says(c.said(), ski@),
        c.issued.announced() matches Some(text) ==> crate::render::says(c.said(), text),
        c.modul3 matches Some(m) ==> crate::render::says(c.said(), calendar_line(Seq::empty(), m)),
{
    let before = Checked { modul3: None, ..c };
    lemma_told_without_a_calendar(before);
    if let Some(m) = c.modul3 {
        let told = before.said();
        let line = calendar_line(Seq::empty(), m);
        lemma_said_with_a_calendar(c, m);
        lemma_added(
            told,
            line,
            "✅ "@ + crate::text::decimal(c.assets as nat) + " assets, "@ + crate::text::decimal(
                c.drivers as nat,
            ) + " drivers, "@ + crate::text::decimal(c.described as nat)
                + " resources described in S2"@,
        );
        lemma_added(told, line, crate::text::decimal(c.undescribed as nat) + " it cannot express"@);
        if let Some(ski) = c.ski {
            lemma_added(told, line, ski@);
        }
        if let Some(text) = c.issued.announced() {
            lemma_added(told, line, text);
        }
    } else {
        assert(before == c);
    }
}

/// Whoever sent a day is told where to and what came of it, and that it will be tried
/// again exactly where it is queued: there the same words follow, and where it was
/// taken or is lost nothing but the end of the line does.
#[verifier::rlimit(50)]
pub proof fn whoever_sent_a_day_is_told_what_came_of_it(
    sent: Sent,
    endpoint: Seq<char>,
    detail: Seq<char>,
)
    ensures
        crate::render::says(sent_text(sent, endpoint, detail), endpoint),
        crate::render::says(sent_text(sent, endpoint, detail), detail),
        sent == Sent::Queued || sent == Sent::Unreachable ==> crate::render::says(
            sent_text(sent, endpoint, detail),
            detail + "\n  the day is queued and `hemsd run` will try again\n"@,
        ),
        sent == Sent::Taken || sent == Sent::Lost ==> crate::render::says(
            sent_text(sent, endpoint, detail),
            detail + "\n"@,
        ),
        sent == Sent::Taken ==> crate::render::says(
            sent_text(sent, endpoint, detail),
            "\n  reported to "@,
        ),
        sent == Sent::Lost || sent == Sent::Unreachable ==> crate::render::says(
            sent_text(sent, endpoint, detail),
            "\n  could not report to "@,
        ),
{
    broadcast use {lemma_added_says, lemma_added_keeps};

    let lead = match sent {
        Sent::Taken => "\n  reported to "@,
        Sent::Queued => "\n  "@,
        Sent::Unreachable => "\n  could not report to "@,
        Sent::Lost => "\n  could not report to "@,
    };
    let between = match sent {
        Sent::Taken => " — HTTP "@,
        Sent::Queued => " answered HTTP "@,
        Sent::Unreachable => ": "@,
        Sent::Lost => ": "@,
    };
    let end = match sent {
        Sent::Taken => "\n"@,
        Sent::Queued => "\n  the day is queued and `hemsd run` will try again\n"@,
        Sent::Unreachable => "\n  the day is queued and `hemsd run` will try again\n"@,
        Sent::Lost => "\n"@,
    };
    let front = lead + endpoint + between;
    let whole = sent_text(sent, endpoint, detail);
    assert(whole == front + detail + end);
    lemma_together(front, detail, end);
    crate::render::more_text_unsays_nothing(Seq::empty(), lead, endpoint);
    assert(crate::render::says(lead + endpoint, lead));
    assert(crate::render::says(lead + endpoint, endpoint));
    assert(crate::render::says(front, lead));
    assert(crate::render::says(front, endpoint));
    assert(crate::render::says(front + detail, lead));
    assert(crate::render::says(front + detail, endpoint));
    assert(crate::render::says(front + detail, detail));
    assert(crate::render::says(front + (detail + end), detail + end));
}

/// A figure in a column is the figure, with spaces in front of it and its unit behind
/// it; and a least or greatest there is none of is printed as none could be.
pub proof fn a_cell_holds_its_figure(
    micro: int,
    dp: nat,
    width: nat,
    unit: Seq<char>,
    nothing: Seq<char>,
    n: nat,
)
    ensures
        crate::render::says(
            cell(micro, dp, width, unit),
            crate::text::fixed(micro, dp, Sign::WhenNegative),
        ),
        cell(micro, dp, width, unit).len() >= width + unit.len(),
        crate::render::says(extreme(None, nothing, dp, width, unit), nothing),
        crate::render::says(whole(n, width), crate::text::decimal(n)),
        whole(n, width).len() >= width,
{
    let shown = crate::text::fixed(micro, dp, Sign::WhenNegative);
    let number = crate::text::decimal(n);
    crate::render::more_text_unsays_nothing(
        crate::text::spaces(crate::text::missing(shown.len(), width)),
        shown,
        unit,
    );
    crate::render::more_text_unsays_nothing(
        crate::text::spaces(crate::text::missing(nothing.len(), width)),
        nothing,
        unit,
    );
    crate::render::more_text_unsays_nothing(
        crate::text::spaces(crate::text::missing(number.len(), width)),
        number,
        Seq::empty(),
    );
}

proof fn lemma_compared_behind(before: Seq<char>, label: Seq<char>, c: Calibration)
    ensures
        compared_band(before, label, c) == before + compared_band(Seq::empty(), label, c),
{
    assert(compared_band(before, label, c) =~= before + compared_band(Seq::empty(), label, c));
}

/// The bands of a comparison stand under it, each with its own scores, with what is
/// made of them; and they take nothing of what was there back.
#[verifier::rlimit(50)]
pub proof fn a_comparison_judges_its_bands(before: Seq<char>, s: Spread, part: Seq<char>)
    ensures
        crate::render::says(
            bands(before, s),
            compared_band(Seq::empty(), "production"@, s.pv_forecast),
        ),
        crate::render::says(
            bands(before, s),
            compared_band(Seq::empty(), "household load"@, s.load_forecast),
        ),
        s.pv_forecast.well_calibrated && s.load_forecast.well_calibrated ==> crate::render::says(
            bands(before, s),
            "It does, over enough days to say so."@,
        ),
        !(s.pv_forecast.well_calibrated && s.load_forecast.well_calibrated)
            && s.pv_forecast.episodes < 20 ==> crate::render::says(
            bands(before, s),
            "Too few days to say — run --days 20."@,
        ),
        !(s.pv_forecast.well_calibrated && s.load_forecast.well_calibrated)
            && s.pv_forecast.episodes >= 20 ==> crate::render::says(
            bands(before, s),
            "It does not: the plan is hedging against a future that is the wrong width."@,
        ),
        crate::render::says(before, part) ==> crate::render::says(bands(before, s), part),
{
    broadcast use {lemma_added_says, lemma_added_keeps};

    let pv = compared_band(Seq::empty(), "production"@, s.pv_forecast);
    let load = compared_band(Seq::empty(), "household load"@, s.load_forecast);
    let t0 = before + "\n  band               covered      CRPS    episodes\n"@;
    let t1 = t0 + pv;
    let t2 = t1 + load;
    lemma_compared_behind(t0, "production"@, s.pv_forecast);
    lemma_compared_behind(t1, "household load"@, s.load_forecast);
    assert(crate::render::says(t1, pv));
    assert(crate::render::says(t2, pv));
    assert(crate::render::says(t2, load));
    if crate::render::says(before, part) {
        assert(crate::render::says(t0, part));
        assert(crate::render::says(t1, part));
        assert(crate::render::says(t2, part));
    }
}

/// A comparison says which day it was, every policy's line, and the bands, which are
/// the first policy's.
#[verifier::rlimit(50)]
pub proof fn a_comparison_leaves_no_policy_out(date: Seq<char>, rows: Seq<PolicyRow>, i: int)
    requires
        0 <= i < rows.len(),
    ensures
        crate::render::says(risk_report(date, rows), date),
        crate::render::says(
            risk_report(date, rows),
            crate::text::decimal(rows[0].spread.savings_eur@.len()),
        ),
        crate::render::says(risk_report(date, rows), policy_line(Seq::empty(), rows[i])),
        crate::render::says(
            risk_report(date, rows),
            compared_band(Seq::empty(), "production"@, rows[0].spread.pv_forecast),
        ),
        crate::render::says(
            risk_report(date, rows),
            compared_band(Seq::empty(), "household load"@, rows[0].spread.load_forecast),
        ),
{
    broadcast use {lemma_added_says, lemma_added_keeps};

    let days = crate::text::decimal(rows[0].spread.savings_eur@.len());
    let t0 = "\n  "@ + date + " — "@ + days
        + " weathers, the same household under each policy\n\n"@;
    let t1 = t0 + "  policy                mean     worst      best    unserved     solve\n"@;
    let t2 = policy_lines(t1, rows);
    let s = rows[0].spread;
    let line = policy_line(Seq::empty(), rows[i]);
    assert(crate::render::says(t0, date));
    assert(crate::render::says(t0, days));
    assert(crate::render::says(t1, date));
    assert(crate::render::says(t1, days));
    every_policy_has_its_line(t1, rows, 0);
    every_policy_has_its_line(t1, rows, i);
    assert(rows.take(0) =~= Seq::empty());
    crate::render::the_whole_says_what_a_part_says(t2, t1, date);
    crate::render::the_whole_says_what_a_part_says(t2, t1, days);
    a_comparison_judges_its_bands(t2, s, date);
    a_comparison_judges_its_bands(t2, s, days);
    a_comparison_judges_its_bands(t2, s, line);
}

} // verus!

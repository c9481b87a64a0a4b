//! Guard and arbiter, once a control period.
//!
//! One turn of the loop drains the drivers, decides, commands and accounts. The
//! decision is the arbiter's and the sockets are the transports'; what is here
//! is the order of the accounts, what is carried from one turn to the next, and
//! what is true on the boundary of a quarter hour, which is the only moment at
//! which one is over.
//!
//! Power is in milliwatts and time in seconds, so energy is counted exactly, in
//! thousandths of a joule.

use vstd::prelude::*;

use crate::clock::{local_day, Instant, Slot, MINUTE};
use crate::drivers::{household_load, GridLimits, Observed, PhaseMode};
use crate::names::ByName;
use crate::report::{day_message, DayMessage};
use crate::runtime::day::{kpis, Band, Clipping, DayKpis, Event, Registers, Scored, Unplanned};
use crate::runtime::s2::CemStatus;
use crate::text::{divide_half_even, push_decimal};

verus! {

/// The household this loop is deciding for.
#[derive(Debug)]
pub struct Managed {
    /// Which device is the meter at the connection point.
    pub grid_meter: Option<String>,
    /// The controllable devices no driver speaks for.
    pub undriven: Vec<String>,
    /// Which device the roof is.
    pub pv: String,
    /// The storage system.
    pub battery: String,
    /// The charge point.
    pub evse: String,
    /// How the network operator addresses this site.
    pub control_mode: ControlMode,
}

/// How the network operator addresses a site, on which the minimum it may not reduce
/// it below depends.
#[derive(Debug, Clone, Copy, PartialEq, Eq, Structural)]
pub enum ControlMode {
    /// Each device for itself.
    Direct,
    /// The household as a whole, through its energy manager.
    Ems,
}

/// What is being accumulated over the quarter hour in progress.
#[derive(Debug, Clone, Copy, PartialEq, Eq, Structural)]
pub struct Tally {
    /// What the roof made, in thousandths of a joule.
    pub pv_mj: u128,
    /// How many turns of it were read off a meter.
    pub pv_samples: u32,
    /// What the household's own load drew.
    pub load_mj: u128,
    /// How many turns contributed to those two.
    pub samples: u32,
    /// Drawn at the connection point.
    pub grid_draw_mj: u128,
    /// Fed in at it.
    pub grid_feed_mj: u128,
    /// Drawn by the storage system and the charge point.
    pub device_draw_mj: u128,
    /// Given by them.
    pub device_feed_mj: u128,
}

impl Tally {
    /// Nothing yet.
    pub open spec fn is_zero(self) -> bool {
        &&& self.pv_mj == 0
        &&& self.pv_samples == 0
        &&& self.load_mj == 0
        &&& self.samples == 0
        &&& self.grid_draw_mj == 0
        &&& self.grid_feed_mj == 0
        &&& self.device_draw_mj == 0
        &&& self.device_feed_mj == 0
    }

    /// Nothing yet.
    pub fn zero() -> (t: Self)
        ensures
            t.is_zero(),
    {
        Tally {
            pv_mj: 0,
            pv_samples: 0,
            load_mj: 0,
            samples: 0,
            grid_draw_mj: 0,
            grid_feed_mj: 0,
            device_draw_mj: 0,
            device_feed_mj: 0,
        }
    }
}

// ── One turn's share of the quarter hour ────────────────────────────────────

/// What of a power flows in.
pub open spec fn inflow(p: int) -> int {
    if p > 0 {
        p
    } else {
        0
    }
}

/// What of a power flows out, as a magnitude.
pub open spec fn outflow(p: int) -> int {
    if p < 0 {
        -p
    } else {
        0
    }
}

/// What a device was read to draw, where it was.
pub open spec fn power_of(o: Observed, asset: Seq<char>) -> Option<i64> {
    if o.state.assets@.dom().contains(asset) {
        o.state.assets@[asset].power_mw
    } else {
        None
    }
}

/// What flows into a device that was read, and nothing into one that was not.
pub open spec fn drawn_by(o: Observed, asset: Seq<char>) -> int {
    match power_of(o, asset) {
        Some(p) => inflow(p as int),
        None => 0,
    }
}

/// What flows out of a device that was read, and nothing out of one that was not.
pub open spec fn given_by(o: Observed, asset: Seq<char>) -> int {
    match power_of(o, asset) {
        Some(p) => outflow(p as int),
        None => 0,
    }
}

/// What the meter at the connection point reads.
pub open spec fn at_the_meter(o: Observed) -> int {
    match o.state.grid {
        Some(m) => match m.power_mw {
            Some(p) => p as int,
            None => 0,
        },
        None => 0,
    }
}

/// The household's own load, where the connection point is read.
pub open spec fn load_of(o: Observed) -> Option<int> {
    crate::drivers::observed::own_load(o.state.grid, o.state.assets.listed())
}

/// Whether one tally is another with one turn's share added: everything that was
/// read, times the length of the turn. A turn in which the connection point was
/// not read adds nothing.
pub open spec fn is_metered(
    before: Tally,
    after: Tally,
    o: Observed,
    m: Managed,
    seconds: int,
) -> bool {
    match load_of(o) {
        None => after == before,
        Some(load) => {
            &&& after.pv_mj == before.pv_mj + given_by(o, m.pv@) * seconds
            &&& after.pv_samples == before.pv_samples + if power_of(o, m.pv@) is Some {
                1int
            } else {
                0int
            }
            &&& after.load_mj == before.load_mj + load * seconds
            &&& after.samples == before.samples + 1
            &&& after.grid_draw_mj == before.grid_draw_mj + inflow(at_the_meter(o)) * seconds
            &&& after.grid_feed_mj == before.grid_feed_mj + outflow(at_the_meter(o)) * seconds
            &&& after.device_draw_mj == before.device_draw_mj + drawn_by(o, m.battery@) * seconds
                + drawn_by(o, m.evse@) * seconds
            &&& after.device_feed_mj == before.device_feed_mj + given_by(o, m.battery@) * seconds
                + given_by(o, m.evse@) * seconds
        },
    }
}

/// Whether one more turn can be counted.
pub open spec fn has_room(before: Tally, o: Observed, m: Managed, seconds: int) -> bool {
    load_of(o) matches Some(load) ==> {
        &&& before.pv_mj + given_by(o, m.pv@) * seconds <= u128::MAX
        &&& before.load_mj + load * seconds <= u128::MAX
        &&& before.samples < u32::MAX
        &&& before.pv_samples < u32::MAX
        &&& before.grid_draw_mj + inflow(at_the_meter(o)) * seconds <= u128::MAX
        &&& before.grid_feed_mj + outflow(at_the_meter(o)) * seconds <= u128::MAX
        &&& before.device_draw_mj + drawn_by(o, m.battery@) * seconds + drawn_by(o, m.evse@)
            * seconds <= u128::MAX
        &&& before.device_feed_mj + given_by(o, m.battery@) * seconds + given_by(o, m.evse@)
            * seconds <= u128::MAX
    }
}

fn flow_in(p: i64) -> (r: u128)
    ensures
        r == inflow(p as int),
{
    if p > 0 {
        p as u128
    } else {
        0
    }
}

fn flow_out(p: i64) -> (r: u128)
    ensures
        r == outflow(p as int),
{
    if p < 0 {
        (-(p as i128)) as u128
    } else {
        0
    }
}

fn read_power(observed: &Observed, asset: &str) -> (r: Option<i64>)
    requires
        observed.in_order(),
    ensures
        r == power_of(*observed, asset@),
{
    match observed.state.assets.get(asset) {
        Some(m) => m.power_mw,
        None => None,
    }
}

/// What flows in and out of a device that was read.
fn flows(observed: &Observed, asset: &str) -> (r: (u128, u128))
    requires
        observed.in_order(),
    ensures
        r.0 == drawn_by(*observed, asset@),
        r.1 == given_by(*observed, asset@),
{
    match read_power(observed, asset) {
        Some(p) => (flow_in(p), flow_out(p)),
        None => (0, 0),
    }
}

/// Add this turn's share of the quarter hour to what is being accumulated.
///
/// Measured rather than commanded, throughout. A turn where the meter at the
/// connection point is silent contributes nothing: a house nobody is measuring
/// did not use nothing.
pub fn meter(tally: &mut Tally, observed: &Observed, managed: &Managed, seconds: u64)
    requires
        observed.in_order(),
        has_room(*old(tally), *observed, *managed, seconds as int),
    ensures
        is_metered(*old(tally), *final(tally), *observed, *managed, seconds as int),
{
    let load: i128 = match household_load(observed) {
        Some(load) => load,
        None => {
            return;
        },
    };
    let s: u128 = seconds as u128;
    let pv: Option<i64> = read_power(observed, managed.pv.as_str());
    let made: u128 = match pv {
        Some(p) => flow_out(p),
        None => 0,
    };
    tally.pv_mj = tally.pv_mj + made * s;
    if pv.is_some() {
        tally.pv_samples = tally.pv_samples + 1;
    }
    tally.load_mj = tally.load_mj + load as u128 * s;
    tally.samples = tally.samples + 1;
    let grid: i64 = match observed.state.grid {
        Some(m) => match m.power_mw {
            Some(p) => p,
            None => 0,
        },
        None => 0,
    };
    tally.grid_draw_mj = tally.grid_draw_mj + flow_in(grid) * s;
    tally.grid_feed_mj = tally.grid_feed_mj + flow_out(grid) * s;
    let battery = flows(observed, managed.battery.as_str());
    let evse = flows(observed, managed.evse.as_str());
    proof {
        assert(0 <= drawn_by(*observed, managed.evse@) * seconds) by (nonlinear_arith)
            requires
                0 <= drawn_by(*observed, managed.evse@),
                0 <= seconds,
        ;
        assert(0 <= given_by(*observed, managed.evse@) * seconds) by (nonlinear_arith)
            requires
                0 <= given_by(*observed, managed.evse@),
                0 <= seconds,
        ;
    }
    tally.device_draw_mj = tally.device_draw_mj + battery.0 * s;
    tally.device_draw_mj = tally.device_draw_mj + evse.0 * s;
    tally.device_feed_mj = tally.device_feed_mj + battery.1 * s;
    tally.device_feed_mj = tally.device_feed_mj + evse.1 * s;
}

/// A sum with so much a second added, where it still fits.
fn plus(sum: u128, rate: u128, seconds: u64) -> (r: Option<u128>)
    ensures
        match r {
            Some(t) => t == sum + rate * seconds,
            None => sum + rate * seconds > u128::MAX,
        },
{
    match rate.checked_mul(seconds as u128) {
        Some(share) => sum.checked_add(share),
        None => None,
    }
}

fn plus_both(sum: u128, first: u128, second: u128, seconds: u64) -> (r: bool)
    ensures
        r == (sum + first * seconds + second * seconds <= u128::MAX),
{
    assert(0 <= second * seconds) by (nonlinear_arith);
    match plus(sum, first, seconds) {
        Some(sum) => plus(sum, second, seconds).is_some(),
        None => false,
    }
}

/// Whether one more turn can be counted.
pub fn can_be_counted(tally: &Tally, observed: &Observed, managed: &Managed, seconds: u64) -> (r:
    bool)
    requires
        observed.in_order(),
    ensures
        r == has_room(*tally, *observed, *managed, seconds as int),
{
    let load: i128 = match household_load(observed) {
        Some(load) => load,
        None => {
            return true;
        },
    };
    let grid: i64 = match observed.state.grid {
        Some(m) => match m.power_mw {
            Some(p) => p,
            None => 0,
        },
        None => 0,
    };
    let pv = flows(observed, managed.pv.as_str());
    let battery = flows(observed, managed.battery.as_str());
    let evse = flows(observed, managed.evse.as_str());
    plus(tally.pv_mj, pv.1, seconds).is_some() && plus(
        tally.load_mj,
        load as u128,
        seconds,
    ).is_some() && tally.samples < u32::MAX && tally.pv_samples < u32::MAX && plus(
        tally.grid_draw_mj,
        flow_in(grid),
        seconds,
    ).is_some() && plus(tally.grid_feed_mj, flow_out(grid), seconds).is_some() && plus_both(
        tally.device_draw_mj,
        battery.0,
        evse.0,
        seconds,
    ) && plus_both(tally.device_feed_mj, battery.1, evse.1, seconds)
}

// ── The boundary of a quarter hour ──────────────────────────────────────────

/// What a completed quarter hour teaches the models.
#[derive(Debug, Clone, Copy, PartialEq, Eq, Structural)]
pub struct Lesson {
    /// Which quarter hour.
    pub slot: Slot,
    /// What the roof made on average, in milliwatts.
    pub pv_mw: u128,
    /// What the household drew on average, in milliwatts.
    pub load_mw: u128,
}

/// The two prices a register carries, in millionths of a cent.
#[derive(Debug, Clone, Copy, PartialEq, Eq, Structural)]
pub struct Price {
    /// What a kilowatt-hour fed in earns.
    pub export_ct: i64,
    /// What a kilowatt-hour costs at the exchange.
    pub energy_ct: i64,
}

/// A completed quarter hour's registers, in millionths of a kilowatt-hour.
#[derive(Debug, Clone, Copy, PartialEq, Eq, Structural)]
pub struct Register {
    /// Which quarter hour.
    pub slot: Slot,
    /// Drawn at the connection point.
    pub grid_draw: u128,
    /// Fed in at it.
    pub grid_feed_in: u128,
    /// Drawn by the storage system and the charge point.
    pub device_consumption: u128,
    /// Given by them.
    pub device_generation: u128,
    /// What the roof made, where anything read it.
    pub production: Option<u128>,
    /// The prices it settles at.
    pub price: Price,
}

/// A day that has just ended.
#[derive(Debug)]
pub struct Finished {
    /// Which day, as a Julian day number.
    pub day: i32,
    /// How long the box was without a plan on it.
    pub unplanned: Unplanned,
    /// What the hardware would not take on it.
    pub clipping: Clipping,
    /// How its forecasts stood.
    pub scored: Scored,
}

/// What the boundary of a quarter hour brings.
#[derive(Debug)]
pub struct Boundary {
    /// What it teaches.
    pub lesson: Option<Lesson>,
    /// What is written down.
    pub register: Option<Register>,
    /// The day that ended with it.
    pub finished: Option<Finished>,
}

/// What a tally teaches: the mean over what was actually observed. A quarter hour
/// the box saw none of teaches nothing.
pub open spec fn lesson_of(slot: Slot, t: Tally, period_s: int) -> Option<Lesson> {
    if t.samples == 0 || period_s == 0 {
        None
    } else {
        let covered = (t.samples * period_s) as nat;
        Some(
            Lesson {
                slot,
                pv_mw: crate::text::nearest(t.pv_mj as nat, covered) as u128,
                load_mw: crate::text::nearest(t.load_mj as nat, covered) as u128,
            },
        )
    }
}

/// What a tally comes to in a register, rounded to the millionth of a
/// kilowatt-hour. Without a store there is nowhere to write it, without a sample
/// nothing to write, and without a price it would settle at the wrong figure.
pub open spec fn register_of(
    slot: Slot,
    t: Tally,
    price: Option<Price>,
    has_store: bool,
) -> Option<Register> {
    match price {
        Some(price) => if has_store && t.samples > 0 {
            Some(
                Register {
                    slot,
                    grid_draw: crate::text::nearest(t.grid_draw_mj as nat, 3600) as u128,
                    grid_feed_in: crate::text::nearest(t.grid_feed_mj as nat, 3600) as u128,
                    device_consumption: crate::text::nearest(t.device_draw_mj as nat, 3600) as u128,
                    device_generation: crate::text::nearest(t.device_feed_mj as nat, 3600) as u128,
                    production: if t.pv_samples > 0 {
                        Some(crate::text::nearest(t.pv_mj as nat, 3600) as u128)
                    } else {
                        None
                    },
                    price,
                },
            )
        } else {
            None
        },
        None => None,
    }
}

fn teach(slot: Slot, t: &Tally, period_s: u64) -> (r: Option<Lesson>)
    ensures
        r == lesson_of(slot, *t, period_s as int),
{
    if t.samples == 0 || period_s == 0 {
        return None;
    }
    let n: u128 = t.samples as u128;
    let p: u128 = period_s as u128;
    assert(0 < n * p <= 0xffff_ffff * 0xffff_ffff_ffff_ffff) by (nonlinear_arith)
        requires
            0 < n <= 0xffff_ffff,
            0 < p <= 0xffff_ffff_ffff_ffff,
    ;
    let covered: u128 = n * p;
    Some(
        Lesson {
            slot,
            pv_mw: divide_half_even(t.pv_mj, covered),
            load_mw: divide_half_even(t.load_mj, covered),
        },
    )
}

/// The completed quarter hour's registers.
pub fn register(slot: Slot, t: &Tally, price: Option<Price>, has_store: bool) -> (r: Option<
    Register,
>)
    ensures
        r == register_of(slot, *t, price, has_store),
{
    match price {
        Some(price) => if has_store && t.samples > 0 {
            Some(
                Register {
                    slot,
                    grid_draw: divide_half_even(t.grid_draw_mj, 3600),
                    grid_feed_in: divide_half_even(t.grid_feed_mj, 3600),
                    device_consumption: divide_half_even(t.device_draw_mj, 3600),
                    device_generation: divide_half_even(t.device_feed_mj, 3600),
                    production: if t.pv_samples > 0 {
                        Some(divide_half_even(t.pv_mj, 3600))
                    } else {
                        None
                    },
                    price,
                },
            )
        } else {
            None
        },
        None => None,
    }
}

/// What one turn hands to the next.
pub struct Carried {
    /// What every device was told last turn.
    pub previous: ByName<i64>,
    /// The conductors of each switchable charge point.
    pub phases: ByName<PhaseMode>,
    /// The energy each device has moved since the quarter hour began, in
    /// thousandths of a joule.
    pub delivered: ByName<i128>,
    /// Which quarter hour that is.
    pub delivered_slot: Slot,
    /// Which Berlin calendar day the loop is in, as a Julian day number.
    pub local_day: i32,
    /// How long the arbiter has been without a plan today.
    pub unplanned: Unplanned,
    /// What the hardware has not taken today.
    pub clipping: Clipping,
    /// How today's forecasts stand against what happened.
    pub scored: Scored,
    /// How many turns have overrun their period.
    pub overruns: u64,
    /// What is being accumulated.
    pub tally: Tally,
}

/// What a turn was decided.
pub struct Decision {
    /// What every device is told, in milliwatts.
    pub commanded: ByName<i64>,
    /// The conductors of each switchable charge point.
    pub phases: ByName<PhaseMode>,
    /// What the controllable devices may draw together.
    pub steuve_budget_mw: Option<i64>,
    /// What the controllable devices draw from the grid.
    pub netzwirksam_mw: i64,
    /// How far the meter is from the sum of the devices.
    pub balance_residual_mw: Option<i64>,
    /// What each device would not take of what it was to be told, in milliwatts.
    pub clipped: ByName<i64>,
}

/// The plan in force, as far as a screen shows it. Money is in millionths of a
/// euro.
#[derive(Debug, Clone, Copy, PartialEq, Eq, Structural)]
pub struct PlanInForce {
    /// When it was made.
    pub created_at: Instant,
    /// What it expects its horizon to cost.
    pub expected_eur: Option<i64>,
    /// What the same horizon would cost unmanaged.
    pub baseline_eur: Option<i64>,
}

/// How exposed this connection is to the operator's control.
#[derive(Debug, Clone, Copy, PartialEq, Eq, Structural)]
pub struct Exposure {
    /// How many days of record there are.
    pub days_of_record: i64,
    /// For how long the household was reduced, in seconds.
    pub seconds_reduced: u64,
    /// The quarter hour of the local day it happens in most often.
    pub busiest_quarter_hour: Option<u32>,
    /// How often a reduction is in force in it, in millionths.
    pub busiest_frequency_ppm: u32,
    /// The ceiling typically commanded there, in milliwatts.
    pub typical_ceiling_mw: Option<i64>,
}

/// How a roof is doing against its own seasonal baseline.
#[derive(Debug)]
pub struct RoofHealth {
    /// Its performance ratio, in millionths.
    pub performance_ratio_ppm: i64,
    /// What the ratio used to be in this season.
    pub baseline_ppm: i64,
    /// What is thought of that.
    pub verdict: String,
}

/// What a screen shows beside a turn, from those who know it.
pub struct Beside {
    /// Whether the roof is still delivering what it used to.
    pub roof_health: Option<RoofHealth>,
    /// How exposed this connection is to the operator's control.
    pub exposure: Option<Exposure>,
    /// Devices that were taken to draw their nameplate power.
    pub assumed_nominal: Vec<String>,
    /// Devices a rule decided for, and the rule.
    pub overriding: ByName<String>,
    /// What the energy managers ask for.
    pub cem: CemStatus,
}

/// What the last turn decided, for a screen.
pub struct Status {
    /// When the last turn ran.
    pub at: Option<Instant>,
    /// What every device was last told, in milliwatts.
    pub commanded: ByName<i64>,
    /// The devices no driver has been heard from.
    pub silent: Vec<String>,
    /// Devices whose available power is a nameplate rather than a reading.
    pub assumed_available: Vec<String>,
    /// Controllable devices no driver speaks for.
    pub undriven: Vec<String>,
    /// Devices that answered their last setpoint and did not act on it, and why.
    pub disobedient: ByName<String>,
    /// The ceiling in force, in milliwatts.
    pub steuve_ceiling_mw: Option<i64>,
    /// What the controllable devices may draw together.
    pub steuve_budget_mw: Option<i64>,
    /// What they draw from the grid.
    pub netzwirksam_mw: Option<i64>,
    /// How far the meter is from the sum of the devices.
    pub balance_residual_mw: Option<i64>,
    /// How old the plan in force is; the largest number where there is none.
    pub minutes_without_a_plan: i64,
    /// How many turns took longer than a control period.
    pub overruns: u64,
    /// What the plan in force expects its horizon to cost.
    pub plan_expected_eur: Option<i64>,
    /// What the same horizon would cost unmanaged.
    pub plan_baseline_eur: Option<i64>,
    /// Whether the roof is still delivering what it used to.
    pub roof_health: Option<RoofHealth>,
    /// How exposed this connection is to the operator's control.
    pub exposure: Option<Exposure>,
    /// Devices that were taken to draw their nameplate power.
    pub assumed_nominal: Vec<String>,
    /// Devices a rule decided for, and the rule.
    pub overriding: ByName<String>,
    /// What the energy managers ask for.
    pub cem: CemStatus,
}

impl Default for Status {
    /// Nothing has been decided yet.
    fn default() -> (s: Self)
        ensures
            s.at is None,
            s.commanded.in_order() && s.commanded@ == Map::<Seq<char>, i64>::empty(),
            s.silent@.len() == 0,
            s.assumed_available@.len() == 0,
            s.undriven@.len() == 0,
            s.disobedient.in_order() && s.disobedient@ == Map::<Seq<char>, String>::empty(),
            s.steuve_ceiling_mw is None,
            s.steuve_budget_mw is None,
            s.netzwirksam_mw is None,
            s.balance_residual_mw is None,
            s.minutes_without_a_plan == 0,
            s.overruns == 0,
            s.plan_expected_eur is None,
            s.plan_baseline_eur is None,
            s.roof_health is None,
            s.exposure is None,
            s.assumed_nominal@.len() == 0,
            s.overriding.in_order() && s.overriding@ == Map::<Seq<char>, String>::empty(),
            s.cem.connected@.len() == 0,
            s.cem.instructing@.len() == 0,
            s.cem.overridden@.len() == 0,
            s.cem.refused == 0,
            s.cem.unactioned == 0,
    {
        Status {
            at: None,
            commanded: ByName::new(),
            silent: Vec::new(),
            assumed_available: Vec::new(),
            undriven: Vec::new(),
            disobedient: ByName::new(),
            steuve_ceiling_mw: None,
            steuve_budget_mw: None,
            netzwirksam_mw: None,
            balance_residual_mw: None,
            minutes_without_a_plan: 0,
            overruns: 0,
            plan_expected_eur: None,
            plan_baseline_eur: None,
            roof_health: None,
            exposure: None,
            assumed_nominal: Vec::new(),
            overriding: ByName::new(),
            cem: CemStatus {
                connected: Vec::new(),
                instructing: Vec::new(),
                overridden: Vec::new(),
                refused: 0,
                unactioned: 0,
            },
        }
    }
}

/// The whole minutes in a span, the rest dropped on either side of zero.
pub open spec fn whole_minutes(span: int) -> int {
    if span >= 0 {
        span / MINUTE as int
    } else {
        -((-span) / MINUTE as int)
    }
}

/// How old a plan is in whole minutes; the largest number where there is none.
pub open spec fn plan_age(plan: Option<PlanInForce>, now: int) -> int {
    match plan {
        Some(p) => whole_minutes(now - p.created_at),
        None => i64::MAX as int,
    }
}

fn plan_age_minutes(plan: &Option<PlanInForce>, now: Instant) -> (r: i64)
    requires
        crate::clock::in_calendar(now as int),
        plan matches Some(p) ==> crate::clock::in_calendar(p.created_at as int),
    ensures
        r == plan_age(*plan, now as int),
{
    match plan {
        Some(p) => {
            let span: i128 = now - p.created_at;
            if span >= 0 {
                (span / MINUTE) as i64
            } else {
                -((-span) / MINUTE) as i64
            }
        },
        None => i64::MAX,
    }
}

/// The energy the devices have moved after one more turn of what they are told.
pub open spec fn delivered_after(
    before: Map<Seq<char>, i128>,
    commanded: Map<Seq<char>, i64>,
    seconds: int,
) -> Map<Seq<char>, i128> {
    Map::new(
        |k: Seq<char>| before.dom().contains(k) || commanded.dom().contains(k),
        |k: Seq<char>| moved(before, commanded, seconds, k) as i128,
    )
}

/// The energy one device has moved after one more turn.
pub open spec fn moved(
    before: Map<Seq<char>, i128>,
    commanded: Map<Seq<char>, i64>,
    seconds: int,
    k: Seq<char>,
) -> int {
    (if before.dom().contains(k) {
        before[k] as int
    } else {
        0
    }) + (if commanded.dom().contains(k) {
        commanded[k] * seconds
    } else {
        0
    })
}

/// Powers by name, taken together.
pub open spec fn total_of(listed: Seq<(String, i64)>) -> int
    decreases listed.len(),
{
    if listed.len() == 0 {
        0
    } else {
        total_of(listed.drop_last()) + listed.last().1
    }
}

/// Powers by name, taken together.
pub fn total(powers: &ByName<i64>) -> (sum: i128)
    ensures
        sum == total_of(powers.listed()),
{
    let n: usize = powers.len();
    let ghost listed = powers.listed();
    let mut sum: i128 = 0;
    let mut i: usize = 0;
    assert(listed.take(0) =~= Seq::empty());
    while i < n
        invariant
            n == listed.len(),
            listed == powers.listed(),
            i <= n,
            sum == total_of(listed.take(i as int)),
            i64::MIN * i <= sum <= i64::MAX * i,
        decreases n - i,
    {
        assert(listed.take(i + 1).drop_last() =~= listed.take(i as int));
        assert(listed.take(i + 1).last() == listed[i as int]);
        sum = sum + *powers.value_at(i) as i128;
        i = i + 1;
    }
    assert(listed.take(n as int) =~= listed);
    sum
}

/// How long a turn is counted for.
pub open spec fn counted_for(period_s: int) -> int {
    if period_s <= u32::MAX {
        period_s
    } else {
        u32::MAX as int
    }
}

/// How long a turn is counted for.
pub fn whole_seconds(period_s: u64) -> (r: u32)
    ensures
        r == counted_for(period_s as int),
{
    if period_s <= 0xffff_ffff {
        period_s as u32
    } else {
        0xffff_ffff
    }
}

impl Carried {
    /// Every list is in order, and the two counts of the day are whole.
    pub open spec fn is_sound(self) -> bool {
        &&& self.previous.in_order()
        &&& self.phases.in_order()
        &&& self.delivered.in_order()
        &&& self.unplanned.is_carried()
        &&& self.scored.is_paired()
    }

    /// What a loop that starts now carries. It did not watch the earlier part of
    /// today, and says so.
    pub fn new(now: Instant) -> (c: Self)
        requires
            crate::clock::in_local_calendar(now as int),
        ensures
            c.is_sound(),
            c.previous@ == Map::<Seq<char>, i64>::empty(),
            c.phases@ == Map::<Seq<char>, PhaseMode>::empty(),
            c.delivered@ == Map::<Seq<char>, i128>::empty(),
            c.delivered_slot.covers(now as int),
            c.local_day == crate::clock::berlin_day(now as int),
            c.unplanned.counted() == 0,
            !c.unplanned.saw_the_whole_day(),
            c.clipping.is_zero(),
            c.scored.pv@.len() == 0,
            c.overruns == 0,
            c.tally.is_zero(),
    {
        Carried {
            previous: ByName::new(),
            phases: ByName::new(),
            delivered: ByName::new(),
            delivered_slot: Slot::containing(now),
            local_day: local_day(now),
            unplanned: Unplanned::resumed(),
            clipping: Clipping::zero(),
            scored: Scored::new(),
            overruns: 0,
            tally: Tally::zero(),
        }
    }

    /// The quarter hour and the day turned over, or they did not.
    ///
    /// On a boundary the completed quarter hour is taught and scored, written
    /// down, and then the day is closed where it ended with it; after that every
    /// count of the quarter hour starts again. `published` holds the bands the
    /// completed quarter hour was planned with and `price` what it settles at.
    pub fn turn_over(
        &mut self,
        slot: Slot,
        today: i32,
        published: Option<(Band, Band)>,
        price: Option<Price>,
        has_store: bool,
        period_s: u64,
    ) -> (r: Option<Boundary>)
        requires
            old(self).is_sound(),
        ensures
            final(self).is_sound(),
            final(self).previous@ == old(self).previous@,
            final(self).phases@ == old(self).phases@,
            final(self).overruns == old(self).overruns,
            r is None <==> slot == old(self).delivered_slot,
            match r {
                None => *final(self) == *old(self),
                Some(b) => {
                    &&& final(self).delivered_slot == slot
                    &&& final(self).delivered@ == Map::<Seq<char>, i128>::empty()
                    &&& final(self).tally.is_zero()
                    &&& final(self).local_day == today
                    &&& b.lesson == lesson_of(
                        old(self).delivered_slot,
                        old(self).tally,
                        period_s as int,
                    )
                    &&& b.register == register_of(
                        old(self).delivered_slot,
                        old(self).tally,
                        price,
                        has_store,
                    )
                    &&& b.finished is Some <==> today != old(self).local_day && has_store
                    &&& today == old(self).local_day ==> {
                        &&& final(self).unplanned == old(self).unplanned
                        &&& final(self).clipping == old(self).clipping
                        &&& is_scored(
                            old(self).scored,
                            final(self).scored,
                            published,
                            b.lesson,
                        )
                    }
                    &&& today != old(self).local_day ==> {
                        &&& final(self).unplanned.counted() == 0
                        &&& final(self).unplanned.saw_the_whole_day()
                        &&& final(self).clipping.is_zero()
                        &&& final(self).scored.pv@.len() == 0
                    }
                    &&& b.finished matches Some(f) ==> {
                        &&& f.day == old(self).local_day
                        &&& f.unplanned == old(self).unplanned
                        &&& f.clipping == old(self).clipping
                        &&& f.scored.is_paired()
                        &&& is_scored(old(self).scored, f.scored, published, b.lesson)
                    }
                },
            },
    {
        if slot == self.delivered_slot {
            return None;
        }
        let lesson = teach(self.delivered_slot, &self.tally, period_s);
        if let Some(l) = lesson {
            self.scored.observe(published, as_reading(l.pv_mw), as_reading(l.load_mw));
        }
        let register = register(self.delivered_slot, &self.tally, price, has_store);
        let mut finished: Option<Finished> = None;
        if today != self.local_day {
            let mut scored = Scored::new();
            std::mem::swap(&mut scored, &mut self.scored);
            let unplanned = self.unplanned;
            let clipping = self.clipping;
            let day: i32 = self.local_day;
            self.local_day = today;
            self.unplanned.roll();
            self.clipping.roll();
            if has_store {
                finished = Some(Finished { day, unplanned, clipping, scored });
            }
        }
        self.delivered.clear();
        self.tally = Tally::zero();
        self.delivered_slot = slot;
        Some(Boundary { lesson, register, finished })
    }

    /// Begin one turn of the loop: what the boundary brings, where this is one,
    /// and one more period with a plan or without.
    pub fn open_turn(
        &mut self,
        now: Instant,
        planned: bool,
        published: Option<(Band, Band)>,
        price: Option<Price>,
        has_store: bool,
        period_s: u64,
    ) -> (r: Option<Boundary>)
        requires
            old(self).is_sound(),
            crate::clock::in_local_calendar(now as int),
            period_s <= u32::MAX,
            !planned ==> period_s <= u32::MAX - 59 && old(self).unplanned.counted() + period_s
                <= 60 * u32::MAX + 59,
        ensures
            final(self).is_sound(),
            r is None <==> old(self).delivered_slot.covers(now as int),
            final(self).delivered_slot.covers(now as int),
            final(self).overruns == old(self).overruns,
            final(self).previous@ == old(self).previous@,
            final(self).phases@ == old(self).phases@,
            match r {
                None => {
                    &&& final(self).tally == old(self).tally
                    &&& final(self).delivered@ == old(self).delivered@
                    &&& final(self).local_day == old(self).local_day
                    &&& final(self).scored == old(self).scored
                    &&& final(self).clipping == old(self).clipping
                    &&& crate::runtime::day::ticked(
                        old(self).unplanned,
                        final(self).unplanned,
                        planned,
                        period_s as int,
                    )
                },
                Some(b) => {
                    &&& final(self).tally.is_zero()
                    &&& final(self).delivered@ == Map::<Seq<char>, i128>::empty()
                    &&& final(self).local_day == crate::clock::berlin_day(now as int)
                    &&& b.lesson == lesson_of(
                        old(self).delivered_slot,
                        old(self).tally,
                        period_s as int,
                    )
                    &&& b.register == register_of(
                        old(self).delivered_slot,
                        old(self).tally,
                        price,
                        has_store,
                    )
                    &&& b.finished is Some <==> crate::clock::berlin_day(now as int)
                        != old(self).local_day && has_store
                    &&& b.finished matches Some(f) ==> {
                        &&& f.day == old(self).local_day
                        &&& f.unplanned == old(self).unplanned
                        &&& f.clipping == old(self).clipping
                        &&& is_scored(old(self).scored, f.scored, published, b.lesson)
                    }
                    &&& if crate::clock::berlin_day(now as int) == old(self).local_day {
                        &&& crate::runtime::day::ticked(
                            old(self).unplanned,
                            final(self).unplanned,
                            planned,
                            period_s as int,
                        )
                        &&& final(self).clipping == old(self).clipping
                        &&& is_scored(old(self).scored, final(self).scored, published, b.lesson)
                    } else {
                        &&& final(self).clipping.is_zero()
                        &&& final(self).unplanned.saw_the_whole_day()
                        &&& final(self).unplanned.counted() == if planned {
                            0
                        } else {
                            period_s as int
                        }
                        &&& final(self).scored.pv@.len() == 0
                    }
                },
            },
    {
        let slot = Slot::containing(now);
        let today: i32 = if slot == self.delivered_slot {
            self.local_day
        } else {
            local_day(now)
        };
        let r = self.turn_over(slot, today, published, price, has_store, period_s);
        self.unplanned.tick(planned, period_s as u32);
        r
    }

    /// Close one turn of the loop: what was decided is counted and remembered,
    /// and becomes what a screen shows. Returns that, and how many devices could
    /// not be heard from.
    pub fn close_turn(
        &mut self,
        decision: Decision,
        observed: &Observed,
        managed: &Managed,
        plan: &Option<PlanInForce>,
        beside: Beside,
        period_s: u64,
        now: Instant,
    ) -> (r: (Status, usize))
        requires
            old(self).is_sound(),
            observed.in_order(),
            decision.commanded.in_order(),
            decision.phases.in_order(),
            crate::clock::in_calendar(now as int),
            plan matches Some(p) ==> crate::clock::in_calendar(p.created_at as int),
            has_room(old(self).tally, *observed, *managed, period_s as int),
            old(self).clipping.has_room_for(
                total_of(decision.clipped.listed()),
                counted_for(period_s as int),
            ),
            forall|k: Seq<char>|
                #[trigger] decision.commanded@.dom().contains(k) ==> i128::MIN <= moved(
                    old(self).delivered@,
                    decision.commanded@,
                    period_s as int,
                    k,
                ) <= i128::MAX,
        ensures
            final(self).is_sound(),
            is_metered(
                old(self).tally,
                final(self).tally,
                *observed,
                *managed,
                period_s as int,
            ),
            final(self).delivered@ == delivered_after(
                old(self).delivered@,
                decision.commanded@,
                period_s as int,
            ),
            final(self).previous@ == decision.commanded@,
            final(self).phases@ == decision.phases@,
            final(self).delivered_slot == old(self).delivered_slot,
            final(self).local_day == old(self).local_day,
            final(self).unplanned == old(self).unplanned,
            (final(self).clipping.withheld_mj as int, final(self).clipping.turns as int)
                == crate::runtime::day::clipped(
                old(self).clipping,
                total_of(decision.clipped.listed()),
                counted_for(period_s as int),
            ),
            final(self).scored == old(self).scored,
            final(self).overruns == old(self).overruns,
            r.1 == observed.silent.listed().len(),
            ({
                let s = r.0;
                &&& s.at == Some(now)
                &&& s.commanded.in_order()
                &&& s.commanded@ == decision.commanded@
                &&& names_of(s.silent@, observed.silent.listed())
                &&& names_of(s.assumed_available@, observed.assumed_available.listed())
                &&& same_texts(s.undriven@, managed.undriven@)
                &&& s.disobedient.in_order()
                &&& s.disobedient@.dom() == observed.disobedient@.dom()
                &&& forall|k: Seq<char>|
                    #[trigger] s.disobedient@.dom().contains(k) ==> s.disobedient@[k]@
                        == observed.disobedient@[k]@
                &&& s.steuve_ceiling_mw == observed.limits.steuve_ceiling_mw
                &&& s.steuve_budget_mw == decision.steuve_budget_mw
                &&& s.netzwirksam_mw == Some(decision.netzwirksam_mw)
                &&& s.balance_residual_mw == decision.balance_residual_mw
                &&& s.minutes_without_a_plan == plan_age(*plan, now as int)
                &&& s.overruns == old(self).overruns
                &&& s.plan_expected_eur == match *plan {
                    Some(p) => p.expected_eur,
                    None => None,
                }
                &&& s.plan_baseline_eur == match *plan {
                    Some(p) => p.baseline_eur,
                    None => None,
                }
                &&& s.roof_health == beside.roof_health
                &&& s.exposure == beside.exposure
                &&& s.assumed_nominal == beside.assumed_nominal
                &&& s.overriding == beside.overriding
                &&& s.cem == beside.cem
            }),
    {
        deliver(&mut self.delivered, &decision.commanded, period_s);
        self.clipping.tick(total(&decision.clipped), whole_seconds(period_s));
        meter(&mut self.tally, observed, managed, period_s);
        self.previous = decision.commanded.copied();
        self.phases = decision.phases;
        let silent: usize = observed.silent.len();
        let status = Status {
            at: Some(now),
            commanded: decision.commanded,
            silent: observed.silent.names(),
            assumed_available: observed.assumed_available.names(),
            undriven: copy_texts(&managed.undriven),
            disobedient: copy_by_name(&observed.disobedient),
            steuve_ceiling_mw: observed.limits.steuve_ceiling_mw,
            steuve_budget_mw: decision.steuve_budget_mw,
            netzwirksam_mw: Some(decision.netzwirksam_mw),
            balance_residual_mw: decision.balance_residual_mw,
            minutes_without_a_plan: plan_age_minutes(plan, now),
            overruns: self.overruns,
            plan_expected_eur: match plan {
                Some(p) => p.expected_eur,
                None => None,
            },
            plan_baseline_eur: match plan {
                Some(p) => p.baseline_eur,
                None => None,
            },
            roof_health: beside.roof_health,
            exposure: beside.exposure,
            assumed_nominal: beside.assumed_nominal,
            overriding: beside.overriding,
            cem: beside.cem,
        };
        (status, silent)
    }

    /// Count a turn that took longer than its period. Returns whether it did.
    pub fn note_elapsed(&mut self, elapsed: i128, period: i128) -> (late: bool)
        requires
            old(self).overruns < u64::MAX,
        ensures
            late == (elapsed > period),
            final(self).overruns == old(self).overruns + if late {
                1int
            } else {
                0int
            },
            *final(self) == (Carried { overruns: final(self).overruns, ..*old(self) }),
    {
        if elapsed > period {
            self.overruns = self.overruns + 1;
            true
        } else {
            false
        }
    }
}

/// A mean as a reading; the largest reading where it is more than that.
fn as_reading(mw: u128) -> (r: i64)
    ensures
        r == reading_of(mw as int),
{
    if mw <= 0x7fff_ffff_ffff_ffff {
        mw as i64
    } else {
        0x7fff_ffff_ffff_ffff
    }
}

/// A mean as a reading; the largest reading where it is more than that.
pub open spec fn reading_of(mw: int) -> int {
    if mw <= i64::MAX {
        mw
    } else {
        i64::MAX as int
    }
}

/// Whether one score is another with one quarter hour's lesson added, where there
/// was one and it had been planned.
pub open spec fn is_scored(
    before: Scored,
    after: Scored,
    published: Option<(Band, Band)>,
    lesson: Option<Lesson>,
) -> bool {
    match (lesson, published) {
        (Some(l), Some((pv, load))) => {
            &&& after.pv@ == before.pv@.push((pv, reading_of(l.pv_mw as int) as i64))
            &&& after.load@ == before.load@.push((load, reading_of(l.load_mw as int) as i64))
        },
        _ => after.pv@ == before.pv@ && after.load@ == before.load@,
    }
}

/// Whether a list holds the names of another, in order.
pub open spec fn names_of<V>(names: Seq<String>, listed: Seq<(String, V)>) -> bool {
    &&& names.len() == listed.len()
    &&& forall|i: int| 0 <= i < names.len() ==> (#[trigger] names[i])@ == listed[i].0@
}

/// Whether two lists hold the same texts, in order.
pub open spec fn same_texts(a: Seq<String>, b: Seq<String>) -> bool {
    &&& a.len() == b.len()
    &&& forall|i: int| 0 <= i < a.len() ==> (#[trigger] a[i])@ == b[i]@
}

/// The same texts once more.
pub fn copy_texts(texts: &Vec<String>) -> (r: Vec<String>)
    ensures
        same_texts(r@, texts@),
{
    let mut r: Vec<String> = Vec::new();
    let mut i: usize = 0;
    while i < texts.len()
        invariant
            i <= texts@.len(),
            r@.len() == i,
            forall|j: int| 0 <= j < i ==> (#[trigger] r@[j])@ == texts@[j]@,
        decreases texts@.len() - i,
    {
        r.push(texts[i].clone());
        i = i + 1;
    }
    r
}

/// The same texts by name once more.
pub fn copy_by_name(m: &ByName<String>) -> (r: ByName<String>)
    requires
        m.in_order(),
    ensures
        r.in_order(),
        r@.dom() == m@.dom(),
        forall|k: Seq<char>| #[trigger] r@.dom().contains(k) ==> r@[k]@ == m@[k]@,
{
    let mut r: ByName<String> = ByName::new();
    let n: usize = m.len();
    let ghost listed = m.listed();
    let mut i: usize = 0;
    while i < n
        invariant
            n == listed.len(),
            listed == m.listed(),
            crate::names::ascending(listed),
            i <= n,
            r.in_order(),
            forall|k: Seq<char>|
                #[trigger] r@.dom().contains(k) ==> exists|j: int|
                    0 <= j < i && #[trigger] listed[j].0@ == k && r@[k]@ == listed[j].1@,
            forall|j: int| 0 <= j < i ==> r@.dom().contains((#[trigger] listed[j]).0@),
        decreases n - i,
    {
        let ghost before = r@;
        r.insert(m.name_at(i).to_owned(), m.value_at(i).clone());
        assert forall|k: Seq<char>| #[trigger] r@.dom().contains(k) implies exists|j: int|
            0 <= j < i + 1 && #[trigger] listed[j].0@ == k && r@[k]@ == listed[j].1@ by {
            if k == listed[i as int].0@ {
                assert(listed[i as int].0@ == k);
            } else {
                assert(before.dom().contains(k));
            }
        }
        i = i + 1;
    }
    proof {
        m.lemma_view();
        assert forall|k: Seq<char>| #[trigger] r@.dom().contains(k) == m@.dom().contains(k) && (
        r@.dom().contains(k) ==> r@[k]@ == m@[k]@) by {
            if r@.dom().contains(k) {
                let j = choose|j: int|
                    0 <= j < n && #[trigger] listed[j].0@ == k && r@[k]@ == listed[j].1@;
                crate::names::lemma_place(listed, j);
            }
            if m@.dom().contains(k) {
                let j = crate::names::place(listed, k);
                crate::names::lemma_place(listed, j);
            }
        }
        assert(r@.dom() =~= m@.dom());
    }
    r
}

/// Count what the devices are told into what they have moved.
fn deliver(delivered: &mut ByName<i128>, commanded: &ByName<i64>, period_s: u64)
    requires
        old(delivered).in_order(),
        commanded.in_order(),
        forall|k: Seq<char>|
            #[trigger] commanded@.dom().contains(k) ==> i128::MIN <= moved(
                old(delivered)@,
                commanded@,
                period_s as int,
                k,
            ) <= i128::MAX,
    ensures
        final(delivered).in_order(),
        final(delivered)@ == delivered_after(old(delivered)@, commanded@, period_s as int),
{
    let n: usize = commanded.len();
    let ghost listed = commanded.listed();
    let ghost before = delivered@;
    let ghost seconds = period_s as int;
    proof {
        commanded.lemma_view();
    }
    let mut i: usize = 0;
    while i < n
        invariant
            n == listed.len(),
            listed == commanded.listed(),
            crate::names::ascending(listed),
            commanded@ == crate::names::as_map(listed),
            before == old(delivered)@,
            seconds == period_s,
            i <= n,
            delivered.in_order(),
            forall|k: Seq<char>|
                #[trigger] commanded@.dom().contains(k) ==> i128::MIN <= moved(
                    before,
                    commanded@,
                    seconds,
                    k,
                ) <= i128::MAX,
            forall|k: Seq<char>|
                #[trigger] delivered@.dom().contains(k) <==> before.dom().contains(k)
                    || crate::names::holds(listed.take(i as int), k),
            forall|k: Seq<char>|
                #[trigger] delivered@.dom().contains(k) ==> delivered@[k]
                    == if crate::names::holds(listed.take(i as int), k) {
                    moved(before, commanded@, seconds, k)
                } else {
                    before[k] as int
                },
        decreases n - i,
    {
        let ghost upto = listed.take(i as int);
        let ghost next = listed.take(i + 1);
        let ghost name = listed[i as int].0@;
        let ghost held = delivered@;
        proof {
            crate::names::lemma_place(listed, i as int);
            if crate::names::holds(upto, name) {
                let j = crate::names::place(upto, name);
                assert(listed[j].0@ == name);
                crate::names::lemma_place(listed, j);
            }
        }
        let mw: i64 = *commanded.value_at(i);
        let sofar: i128 = match delivered.get(commanded.name_at(i)) {
            Some(e) => *e,
            None => 0,
        };
        proof {
            assert(commanded@.dom().contains(name));
            assert(sofar + mw * seconds == moved(before, commanded@, seconds, name));
            let a = mw as int;
            assert(-0x8000_0000_0000_0000 * 0xffff_ffff_ffff_ffff <= a * seconds
                <= 0x7fff_ffff_ffff_ffff * 0xffff_ffff_ffff_ffff) by (nonlinear_arith)
                requires
                    -0x8000_0000_0000_0000 <= a <= 0x7fff_ffff_ffff_ffff,
                    0 <= seconds <= 0xffff_ffff_ffff_ffff,
            ;
        }
        delivered.insert(
            commanded.name_at(i).to_owned(),
            sofar + mw as i128 * period_s as i128,
        );
        proof {
            assert(next[i as int].0@ == name);
            assert forall|k: Seq<char>| crate::names::holds(next, k) == (k == name
                || crate::names::holds(upto, k)) by {
                if crate::names::holds(next, k) {
                    let j = crate::names::place(next, k);
                    if j < i {
                        assert(upto[j].0@ == k);
                    }
                }
                if crate::names::holds(upto, k) {
                    let j = crate::names::place(upto, k);
                    assert(next[j].0@ == k);
                }
            }
            assert(delivered@ == held.insert(name, delivered@[name]));
        }
        i = i + 1;
    }
    proof {
        assert(listed.take(n as int) =~= listed);
        let after = delivered_after(before, commanded@, seconds);
        assert forall|k: Seq<char>| #[trigger] delivered@.dom().contains(k) == after.dom().contains(
            k,
        ) && (delivered@.dom().contains(k) ==> delivered@[k] == after[k]) by {
            assert(commanded@.dom().contains(k) == crate::names::holds(listed, k));
        }
        assert(delivered@ =~= after);
    }
}

/// A finished day, as it is queued for the fleet.
#[derive(Debug)]
pub struct Closed {
    /// What is reported of it.
    pub day: DayKpis,
    /// What the hardware would not take on it.
    pub clipping: Clipping,
    /// What the report is addressed by.
    pub message: DayMessage,
}

/// Close a day that has just ended: its report, from the rows the loop wrote, and
/// what that is addressed by. A day without a register is no day to report.
pub fn close_the_day(
    finished: &Finished,
    rows: &Vec<(Instant, Registers)>,
    events: &Vec<(Instant, Event)>,
    site: &str,
) -> (r: Option<Closed>)
    requires
        crate::clock::is_inner_day(finished.day as int),
        finished.unplanned.is_carried(),
        rows@.len() <= 0x100_0000_0000,
    ensures
        ({
            let from = crate::clock::berlin_midnight(finished.day as int);
            let to = crate::clock::berlin_midnight(finished.day + 1);
            crate::runtime::day::is_the_day(
                match r {
                    Some(closed) => Some(closed.day),
                    None => None,
                },
                crate::runtime::day::within(rows@, from, to),
                crate::runtime::day::within(events@, from, to),
                site@,
                finished.day,
                finished.unplanned,
                finished.scored.pv@.len(),
            )
        }),
        r matches Some(closed) ==> {
            let date = crate::clock::date_text(finished.day as int);
            &&& closed.clipping == finished.clipping
            &&& closed.message.source@ == "hems://sites/"@ + site@
            &&& closed.message.id@ == site@ + ":"@ + date
            &&& closed.message.subject@ == date
        },
{
    match kpis(rows, events, site, finished.day, &finished.unplanned, &finished.scored) {
        Some(day) => Some(
            Closed { day, clipping: finished.clipping, message: day_message(site, finished.day) },
        ),
        None => None,
    }
}

/// What the readiness probe says of the drivers: nothing where every device is
/// heard from, and otherwise how many are not.
pub fn readiness(silent: usize) -> (r: Option<String>)
    ensures
        r is None <==> silent == 0,
        r matches Some(said) ==> said@ == crate::text::decimal(silent as nat)
            + " of the configured devices are not being heard from"@,
{
    if silent == 0 {
        None
    } else {
        let mut out = String::new();
        push_decimal(&mut out, silent as u128);
        out.append(" of the configured devices are not being heard from");
        assert(out@ =~= crate::text::decimal(silent as nat)
            + " of the configured devices are not being heard from"@);
        Some(out)
    }
}

// ── The record of the operator's control ────────────────────────────────────

/// Why a ceiling was held.
#[derive(Debug, Clone, Copy, PartialEq, Eq, Structural)]
pub enum GuardRule {
    /// Nobody was in contact.
    Failsafe,
    /// The operator asked for it.
    Lpc,
}

/// One turn, as the record wants it. Powers are in milliwatts.
#[derive(Debug, Clone, Copy, PartialEq, Eq, Structural)]
pub struct Observation {
    /// The ceiling in force.
    pub ceiling_mw: Option<i64>,
    /// Why it is held.
    pub rule: GuardRule,
    /// How the operator addresses the site.
    pub mode: ControlMode,
    /// What the household may not be reduced below.
    pub minimum_power_mw: i64,
    /// What the controllable devices draw from the grid.
    pub netzwirksam_mw: i64,
    /// Whether anything was told to any device.
    pub applied: bool,
}

/// One turn, as the record wants it. What the devices draw from the grid is the
/// guard's own figure: a second derivation of it would be a second chance to
/// report a reduction as breached.
pub fn observation(
    limits: &GridLimits,
    mode: ControlMode,
    minimum_power_mw: i64,
    netzwirksam_mw: i64,
    setpoints: usize,
) -> (o: Observation)
    ensures
        o.mode == mode,
        o.ceiling_mw == limits.steuve_ceiling_mw,
        o.rule == GuardRule::Failsafe <==> limits.in_failsafe,
        o.minimum_power_mw == minimum_power_mw,
        o.netzwirksam_mw == netzwirksam_mw,
        o.applied == (setpoints > 0),
{
    Observation {
        ceiling_mw: limits.steuve_ceiling_mw,
        rule: if limits.in_failsafe {
            GuardRule::Failsafe
        } else {
            GuardRule::Lpc
        },
        mode,
        minimum_power_mw,
        netzwirksam_mw,
        applied: setpoints > 0,
    }
}

/// The names of some groups of devices, group by group.
pub open spec fn flattened(groups: Seq<Vec<String>>) -> Seq<Seq<char>>
    decreases groups.len(),
{
    if groups.len() == 0 {
        Seq::empty()
    } else {
        flattened(groups.drop_last()) + groups.last()@.map_values(|name: String| name@)
    }
}

/// The devices the record of a turn is about: those of every group the guard held
/// together, group by group.
pub fn recorded_assets(groups: &Vec<Vec<String>>) -> (assets: Vec<String>)
    ensures
        assets@.map_values(|name: String| name@) == flattened(groups@),
{
    let mut assets: Vec<String> = Vec::new();
    let mut i: usize = 0;
    assert(groups@.take(0) =~= Seq::empty());
    assert(assets@.map_values(|name: String| name@) =~= flattened(groups@.take(0)));
    while i < groups.len()
        invariant
            i <= groups@.len(),
            assets@.map_values(|name: String| name@) == flattened(groups@.take(i as int)),
        decreases groups@.len() - i,
    {
        let group = &groups[i];
        let ghost before = flattened(groups@.take(i as int));
        assert(groups@.take(i + 1).drop_last() =~= groups@.take(i as int));
        let mut j: usize = 0;
        assert(assets@.map_values(|name: String| name@) =~= before + group@.take(0).map_values(
            |name: String| name@,
        ));
        while j < group.len()
            invariant
                j <= group@.len(),
                assets@.map_values(|name: String| name@) == before + group@.take(
                    j as int,
                ).map_values(|name: String| name@),
            decreases group@.len() - j,
        {
            let ghost held = assets@;
            assets.push(group[j].clone());
            assert(assets@.map_values(|name: String| name@) =~= held.map_values(
                |name: String| name@,
            ).push(group@[j as int]@));
            assert(group@.take(j + 1).map_values(|name: String| name@) =~= group@.take(
                j as int,
            ).map_values(|name: String| name@).push(group@[j as int]@));
            assert(assets@.map_values(|name: String| name@) =~= before + group@.take(
                j + 1,
            ).map_values(|name: String| name@));
            j = j + 1;
        }
        assert(group@.take(j as int) =~= group@);
        i = i + 1;
    }
    assert(groups@.take(i as int) =~= groups@);
    assets
}

/// What becomes of the records a turn closed.
#[derive(Debug, Clone, Copy, PartialEq, Eq, Structural)]
pub enum Keeping {
    /// There are none.
    Nothing,
    /// So many have nowhere to go.
    NowhereToGo(usize),
    /// They are written, and what has outlived its retention is swept.
    WriteAndPrune,
}

/// What becomes of the records a turn closed.
pub fn record(closed: usize, has_store: bool) -> (k: Keeping)
    ensures
        k == if closed == 0 {
            Keeping::Nothing
        } else if has_store {
            Keeping::WriteAndPrune
        } else {
            Keeping::NowhereToGo(closed)
        },
{
    if closed == 0 {
        Keeping::Nothing
    } else if has_store {
        Keeping::WriteAndPrune
    } else {
        Keeping::NowhereToGo(closed)
    }
}

// ── What holds of the accounts ──────────────────────────────────────────────

/// Two turns of the same reading are one turn of their joint length: nothing is
/// rounded on the way into the tally.
pub proof fn a_tally_does_not_depend_on_how_it_is_cut(
    a: Tally,
    b: Tally,
    c: Tally,
    whole: Tally,
    o: Observed,
    m: Managed,
    first: int,
    second: int,
)
    requires
        is_metered(a, b, o, m, first),
        is_metered(b, c, o, m, second),
        is_metered(a, whole, o, m, first + second),
    ensures
        c.pv_mj == whole.pv_mj,
        c.load_mj == whole.load_mj,
        c.grid_draw_mj == whole.grid_draw_mj,
        c.grid_feed_mj == whole.grid_feed_mj,
        c.device_draw_mj == whole.device_draw_mj,
        c.device_feed_mj == whole.device_feed_mj,
{
    if let Some(load) = load_of(o) {
        lemma_parts(given_by(o, m.pv@), first, second);
        lemma_parts(load, first, second);
        lemma_parts(inflow(at_the_meter(o)), first, second);
        lemma_parts(outflow(at_the_meter(o)), first, second);
        lemma_parts(drawn_by(o, m.battery@), first, second);
        lemma_parts(drawn_by(o, m.evse@), first, second);
        lemma_parts(given_by(o, m.battery@), first, second);
        lemma_parts(given_by(o, m.evse@), first, second);
    }
}

proof fn lemma_parts(x: int, a: int, b: int)
    ensures
        x * a + x * b == x * (a + b),
{
    assert(x * a + x * b == x * (a + b)) by (nonlinear_arith);
}

/// A house nobody is measuring did not use nothing: a turn in which the meter at
/// the connection point is silent changes no account and counts as no sample.
pub proof fn a_silent_meter_counts_nothing(
    before: Tally,
    after: Tally,
    o: Observed,
    m: Managed,
    seconds: int,
)
    requires
        o.state.grid is None,
        is_metered(before, after, o, m, seconds),
    ensures
        after == before,
{
}

/// A quarter hour the box saw none of teaches nothing and is not written down.
pub proof fn an_unseen_quarter_hour_leaves_no_trace(
    slot: Slot,
    t: Tally,
    period_s: int,
    price: Option<Price>,
    has_store: bool,
)
    requires
        t.samples == 0,
    ensures
        lesson_of(slot, t, period_s) is None,
        register_of(slot, t, price, has_store) is None,
{
}

/// What is written down of a quarter hour is what was tallied, register by register, to
/// the nearest millionth of a kilowatt-hour: what was drawn is what was drawn, and what was
/// given is what was given.
pub proof fn a_register_is_what_was_tallied(
    slot: Slot,
    t: Tally,
    price: Option<Price>,
    has_store: bool,
)
    ensures
        register_of(slot, t, price, has_store) is Some <==> price is Some && has_store && t.samples
            > 0,
        register_of(slot, t, price, has_store) matches Some(r) ==> {
            &&& r.slot == slot
            &&& Some(r.price) == price
            &&& -1800 <= 3600 * r.grid_draw - t.grid_draw_mj <= 1800
            &&& -1800 <= 3600 * r.grid_feed_in - t.grid_feed_mj <= 1800
            &&& -1800 <= 3600 * r.device_consumption - t.device_draw_mj <= 1800
            &&& -1800 <= 3600 * r.device_generation - t.device_feed_mj <= 1800
            &&& t.grid_draw_mj == 0 ==> r.grid_draw == 0
            &&& t.grid_feed_mj == 0 ==> r.grid_feed_in == 0
            &&& t.device_draw_mj == 0 ==> r.device_consumption == 0
            &&& t.device_feed_mj == 0 ==> r.device_generation == 0
            &&& r.production is Some <==> t.pv_samples > 0
            &&& r.production matches Some(made) ==> -1800 <= 3600 * made - t.pv_mj <= 1800
        },
{
    crate::text::rounding_moves_by_at_most_half_a_unit(t.grid_draw_mj as nat, 3600);
    crate::text::rounding_moves_by_at_most_half_a_unit(t.grid_feed_mj as nat, 3600);
    crate::text::rounding_moves_by_at_most_half_a_unit(t.device_draw_mj as nat, 3600);
    crate::text::rounding_moves_by_at_most_half_a_unit(t.device_feed_mj as nat, 3600);
    crate::text::rounding_moves_by_at_most_half_a_unit(t.pv_mj as nat, 3600);
}

/// A lesson is the mean over the time that was watched, to the nearest milliwatt: the
/// roof's for the roof and the household's for the household.
pub proof fn a_lesson_is_the_mean_of_what_was_seen(slot: Slot, t: Tally, period_s: int)
    requires
        period_s >= 0,
    ensures
        lesson_of(slot, t, period_s) is Some <==> t.samples > 0 && period_s > 0,
        lesson_of(slot, t, period_s) matches Some(l) ==> {
            let watched = t.samples * period_s;
            &&& l.slot == slot
            &&& -watched <= 2 * (l.pv_mw * watched - t.pv_mj) <= watched
            &&& -watched <= 2 * (l.load_mw * watched - t.load_mj) <= watched
        },
{
    if t.samples > 0 && period_s > 0 {
        let watched = t.samples * period_s;
        assert(watched > 0) by (nonlinear_arith)
            requires
                t.samples > 0,
                period_s > 0,
                watched == t.samples * period_s,
        ;
        crate::text::rounding_moves_by_at_most_half_a_unit(t.pv_mj as nat, watched as nat);
        crate::text::rounding_moves_by_at_most_half_a_unit(t.load_mj as nat, watched as nat);
        lemma_mean_fits(t.pv_mj as nat, watched as nat);
        lemma_mean_fits(t.load_mj as nat, watched as nat);
    }
}

proof fn lemma_mean_fits(n: nat, unit: nat)
    requires
        unit > 0,
        n <= u128::MAX,
    ensures
        crate::text::nearest(n, unit) <= u128::MAX,
{
    let q = crate::text::nearest(n, unit);
    crate::text::rounding_moves_by_at_most_half_a_unit(n, unit);
    if n == 0 {
    } else if unit == 1 {
        assert(q * 1 == q);
    } else {
        assert(q <= n) by (nonlinear_arith)
            requires
                2 * (q * unit - n) <= unit,
                unit >= 2,
                n >= 1,
        ;
    }
}

/// What one turn adds to a tally, where the connection point is read. Powers are positive
/// into the household and into a device. The meter's reading is all drawn or all fed in;
/// a device draws or gives what it was read to; the roof makes what it gives; and the
/// household's own load is what the meter saw and no device accounts for.
pub proof fn a_turn_adds_what_was_read(
    before: Tally,
    after: Tally,
    o: Observed,
    m: Managed,
    seconds: int,
    reading: crate::drivers::Measurement,
    p: i64,
)
    requires
        is_metered(before, after, o, m, seconds),
        o.state.grid == Some(reading),
        reading.power_mw == Some(p),
        seconds >= 0,
    ensures
        after.samples == before.samples + 1,
        p >= 0 ==> after.grid_draw_mj == before.grid_draw_mj + p * seconds && after.grid_feed_mj
            == before.grid_feed_mj,
        p <= 0 ==> after.grid_feed_mj == before.grid_feed_mj + (-p) * seconds
            && after.grid_draw_mj == before.grid_draw_mj,
        ({
            let total = crate::drivers::observed::metered_total(o.state.assets.listed());
            after.load_mj - before.load_mj == if p > total {
                (p - total) * seconds
            } else {
                0
            }
        }),
        ({
            let roof = read_of(o, m.pv@);
            &&& after.pv_mj - before.pv_mj == if roof < 0 {
                (-roof) * seconds
            } else {
                0
            }
            &&& after.pv_samples == before.pv_samples + if o.state.assets@.dom().contains(m.pv@)
                && o.state.assets@[m.pv@].power_mw is Some {
                1int
            } else {
                0int
            }
        }),
        ({
            let battery = read_of(o, m.battery@);
            let evse = read_of(o, m.evse@);
            let drawn = after.device_draw_mj - before.device_draw_mj;
            let given = after.device_feed_mj - before.device_feed_mj;
            &&& drawn - given == (battery + evse) * seconds
            &&& battery >= 0 && evse >= 0 ==> given == 0
            &&& battery <= 0 && evse <= 0 ==> drawn == 0
            &&& battery >= 0 && evse <= 0 ==> drawn == battery * seconds
            &&& battery <= 0 && evse >= 0 ==> drawn == evse * seconds
        }),
{
    assert(load_of(o) is Some);
    let battery = read_of(o, m.battery@);
    let evse = read_of(o, m.evse@);
    assert(0 * seconds == 0);
    assert((battery + evse) * seconds == battery * seconds + evse * seconds) by (nonlinear_arith);
    assert((-battery) * seconds == -(battery * seconds)) by (nonlinear_arith);
    assert((-evse) * seconds == -(evse * seconds)) by (nonlinear_arith);
}

/// What a device was read to draw; nothing where it was not read.
pub open spec fn read_of(o: Observed, asset: Seq<char>) -> int {
    if o.state.assets@.dom().contains(asset) {
        match o.state.assets@[asset].power_mw {
            Some(p) => p as int,
            None => 0,
        }
    } else {
        0
    }
}

/// A turn in which the connection point was read without a power changes nothing either.
pub proof fn a_meter_without_a_power_counts_nothing(
    before: Tally,
    after: Tally,
    o: Observed,
    m: Managed,
    seconds: int,
)
    requires
        is_metered(before, after, o, m, seconds),
        o.state.grid matches Some(reading) ==> reading.power_mw is None,
    ensures
        after == before,
{
}

/// What a device is told is what it is taken to have moved: a turn adds its setpoint times
/// its length, and to no device that was told nothing.
pub proof fn a_turn_delivers_what_was_commanded(
    before: Map<Seq<char>, i128>,
    commanded: Map<Seq<char>, i64>,
    seconds: int,
    k: Seq<char>,
)
    requires
        i128::MIN <= moved(before, commanded, seconds, k) <= i128::MAX,
    ensures
        ({
            let after = delivered_after(before, commanded, seconds);
            let had = if before.dom().contains(k) {
                before[k] as int
            } else {
                0
            };
            &&& after.dom().contains(k) <==> before.dom().contains(k) || commanded.dom().contains(k)
            &&& commanded.dom().contains(k) ==> after[k] == had + commanded[k] * seconds
            &&& !commanded.dom().contains(k) && before.dom().contains(k) ==> after[k] == before[k]
        }),
{
}

/// A plan is as old as the whole minutes since it was made; what is left over is less than
/// a minute. Without one the age is the largest number there is.
pub proof fn a_plan_is_as_old_as_the_minutes_since(plan: PlanInForce, now: int)
    ensures
        plan_age(None, now) == i64::MAX,
        now >= plan.created_at ==> {
            let age = plan_age(Some(plan), now);
            age >= 0 && age * 60_000_000_000 <= now - plan.created_at < (age + 1) * 60_000_000_000
        },
        now < plan.created_at ==> {
            let age = plan_age(Some(plan), now);
            age <= 0 && (age - 1) * 60_000_000_000 < now - plan.created_at <= age * 60_000_000_000
        },
{
}

/// A completed quarter hour that was planned and seen is scored once, the roof's band
/// against what the roof made and the household's against what it drew; any other adds
/// nothing.
pub proof fn a_planned_quarter_hour_is_scored_once(
    before: Scored,
    after: Scored,
    published: Option<(Band, Band)>,
    lesson: Option<Lesson>,
)
    requires
        is_scored(before, after, published, lesson),
    ensures
        published is None || lesson is None ==> after.pv@ == before.pv@ && after.load@
            == before.load@,
        published matches Some((pv, load)) ==> (lesson matches Some(l) ==> {
            &&& after.pv@.len() == before.pv@.len() + 1
            &&& after.load@.len() == before.load@.len() + 1
            &&& after.pv@.drop_last() == before.pv@
            &&& after.load@.drop_last() == before.load@
            &&& after.pv@.last().0 == pv
            &&& after.load@.last().0 == load
            &&& l.pv_mw <= i64::MAX ==> after.pv@.last().1 == l.pv_mw
            &&& l.load_mw <= i64::MAX ==> after.load@.last().1 == l.load_mw
            &&& l.pv_mw > i64::MAX ==> after.pv@.last().1 == i64::MAX
            &&& l.load_mw > i64::MAX ==> after.load@.last().1 == i64::MAX
        }),
{
    if let (Some(l), Some((pv, load))) = (lesson, published) {
        assert(after.pv@.drop_last() =~= before.pv@);
        assert(after.load@.drop_last() =~= before.load@);
    }
}

/// Powers taken together: each counts once, in whatever order.
pub proof fn powers_taken_together_are_their_sum(
    a: Seq<(String, i64)>,
    b: Seq<(String, i64)>,
    one: (String, i64),
)
    ensures
        total_of(a + b) == total_of(a) + total_of(b),
        total_of(seq![one]) == one.1,
        total_of(Seq::empty()) == 0,
    decreases b.len(),
{
    assert(seq![one].drop_last() =~= Seq::<(String, i64)>::empty());
    assert(total_of(Seq::<(String, i64)>::empty()) == 0);
    if b.len() == 0 {
        assert(a + b =~= a);
    } else {
        powers_taken_together_are_their_sum(a, b.drop_last(), one);
        assert((a + b).drop_last() =~= a + b.drop_last());
        assert((a + b).last() == b.last());
    }
}

/// A turn is counted for as long as it was, up to what the counter can hold of one.
pub proof fn a_turn_is_counted_for_its_length(period_s: int)
    ensures
        period_s <= 4_294_967_295 ==> counted_for(period_s) == period_s,
        period_s > 4_294_967_295 ==> counted_for(period_s) == 4_294_967_295,
{
}

/// Every device of every group is recorded, in order.
pub proof fn every_device_of_every_group_is_recorded(
    a: Seq<Vec<String>>,
    b: Seq<Vec<String>>,
    group: Vec<String>,
)
    ensures
        flattened(a + b) == flattened(a) + flattened(b),
        flattened(seq![group]).len() == group@.len(),
        forall|i: int|
            0 <= i < group@.len() ==> #[trigger] flattened(seq![group])[i] == group@[i]@,
    decreases b.len(),
{
    assert(seq![group].drop_last() =~= Seq::<Vec<String>>::empty());
    assert(flattened(Seq::<Vec<String>>::empty()) =~= Seq::<Seq<char>>::empty());
    if b.len() == 0 {
        assert(a + b =~= a);
        assert(flattened(a) + flattened(b) =~= flattened(a));
    } else {
        every_device_of_every_group_is_recorded(a, b.drop_last(), group);
        assert((a + b).drop_last() =~= a + b.drop_last());
        assert((a + b).last() == b.last());
        assert(flattened(a + b) =~= flattened(a) + flattened(b));
    }
}

/// A list of names is the names, all of them and in order; so is a list of texts.
pub proof fn a_list_of_names_leaves_none_out<V>(
    names: Seq<String>,
    listed: Seq<(String, V)>,
    a: Seq<String>,
    b: Seq<String>,
    i: int,
)
    ensures
        names_of(names, listed) ==> names.len() == listed.len() && (0 <= i < listed.len()
            ==> names[i]@ == listed[i].0@),
        same_texts(a, b) ==> a.len() == b.len() && (0 <= i < b.len() ==> a[i]@ == b[i]@),
{
}

/// A loop that starts has tallied nothing.
pub proof fn an_empty_tally_is_nothing(t: Tally)
    ensures
        t.is_zero() <==> t == (Tally {
            pv_mj: 0,
            pv_samples: 0,
            load_mj: 0,
            samples: 0,
            grid_draw_mj: 0,
            grid_feed_mj: 0,
            device_draw_mj: 0,
            device_feed_mj: 0,
        }),
{
}

/// A turn whose account can be held can be counted.
pub proof fn a_turn_that_fits_can_be_counted(
    before: Tally,
    after: Tally,
    o: Observed,
    m: Managed,
    seconds: int,
)
    requires
        is_metered(before, after, o, m, seconds),
        before.pv_samples < u32::MAX,
    ensures
        has_room(before, o, m, seconds),
{
}

} // verus!

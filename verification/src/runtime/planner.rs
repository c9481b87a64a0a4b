//! The receding horizon, on a real box.
//!
//! What is planned is exactly what the drivers can tell the box. A store nobody
//! measured is left out rather than guessed at, and a device is named in a plan if
//! and only if the plan models it: one that is named and not modelled would be told
//! to draw nothing, all day, by a planner that had simply not been told about it.

use std::collections::BTreeMap;

use vstd::prelude::*;

use crate::clock::{Horizon, Instant, Slot, SLOT};
use crate::config::{
    Bundesland, ControlSettings, EebusEvSettings, Objective, RiskModel, Tariff, TariffSettings,
};
use crate::drivers::{household_load, GridLimits, Observed};
use crate::runtime::control::Lesson;
use crate::runtime::day::Band;
use crate::runtime::fleet::{Exact, Prices, Sky, SkyPoint};
use crate::site::{product, Micros};

verus! {

broadcast use vstd::std_specs::btree::group_btree_axioms;

/// The name the roof's correction is kept under.
pub const PV_MODEL: &'static str = "pv-residual";

/// The name the household's own load is kept under.
pub const LOAD_MODEL: &'static str = "load-profile";

/// The name the house's thermal record is kept under.
pub const BUILDING_MODEL: &'static str = "building";

/// Why a round produced no plan.
#[derive(Debug)]
pub enum Reason {
    /// No day-ahead prices, and none kept.
    NoPrices,
    /// No sky, and none kept.
    NoSky,
    /// No history of the load, and no meter to read one from.
    NoHistory,
    /// The battery's charge is not being reported.
    NoStateOfCharge,
    /// The solver refused, or failed.
    Unsolvable(String),
}

impl Reason {
    /// What the reason says.
    pub open spec fn said(self) -> Seq<char> {
        match self {
            Reason::NoPrices => "no day-ahead prices"@,
            Reason::NoSky => "no weather forecast"@,
            Reason::NoHistory =>
                "no load history and no grid meter, so there is nothing to plan against"@,
            Reason::NoStateOfCharge => "the battery's charge is not being reported"@,
            Reason::Unsolvable(why) => "the solver could not answer: "@ + why@,
        }
    }

    /// What the reason says.
    pub fn message(&self) -> (out: String)
        ensures
            out@ == self.said(),
    {
        match self {
            Reason::NoPrices => "no day-ahead prices".to_owned(),
            Reason::NoSky => "no weather forecast".to_owned(),
            Reason::NoHistory =>
                "no load history and no grid meter, so there is nothing to plan against".to_owned(),
            Reason::NoStateOfCharge => "the battery's charge is not being reported".to_owned(),
            Reason::Unsolvable(why) => {
                let mut out = String::new();
                out.append("the solver could not answer: ");
                out.append(why.as_str());
                assert(out@ =~= "the solver could not answer: "@ + why@);
                out
            },
        }
    }
}

/// What a solve came to: its answer, or why there is none. `outcome` is the
/// solver's own, where it came back at all.
pub fn solved<T>(outcome: Result<Result<T, String>, String>) -> (r: Result<T, Reason>)
    ensures
        match outcome {
            Ok(Ok(answer)) => r == Ok::<T, Reason>(answer),
            Ok(Err(why)) => r matches Err(Reason::Unsolvable(said)) && said@ == why@,
            Err(panicked) => r matches Err(Reason::Unsolvable(said)) && said@
                == "the solve panicked: "@ + panicked@,
        },
{
    match outcome {
        Ok(Ok(answer)) => Ok(answer),
        Ok(Err(why)) => Err(Reason::Unsolvable(why)),
        Err(panicked) => {
            let mut why = String::new();
            why.append("the solve panicked: ");
            why.append(panicked.as_str());
            assert(why@ =~= "the solve panicked: "@ + panicked@);
            Err(Reason::Unsolvable(why))
        },
    }
}

// ── What the box has learned ────────────────────────────────────────────────

/// The household's own load, by day type and quarter hour.
#[derive(Debug)]
pub struct LoadProfile<L> {
    /// Whose public holidays decide a day's type.
    pub land: Bundesland,
    /// What was observed.
    pub history: L,
}

/// What the box has learned about its own house.
#[derive(Debug)]
pub struct Learned<P, L, B> {
    /// What this roof delivers against what the model says it should.
    pub pv: P,
    /// This household's own load.
    pub load: LoadProfile<L>,
    /// Which house this is.
    pub building: B,
}

/// What reading something back came to.
pub type ReadBack<T> = Result<Option<T>, String>;

impl<P, L, B> Learned<P, L, B> {
    /// What the box remembered from before it was restarted, over what a box that
    /// has just been switched on knows.
    ///
    /// Any part may be missing or unreadable, and is then relearned. The federal
    /// state is configuration and the profile is history, so the configured one
    /// stands.
    pub fn restored(
        fresh: Learned<P, L, B>,
        pv: ReadBack<P>,
        load: ReadBack<LoadProfile<L>>,
        building: ReadBack<B>,
        land: Bundesland,
    ) -> (r: Self)
        requires
            fresh.load.land == land,
        ensures
            r.pv == match pv {
                Ok(Some(kept)) => kept,
                _ => fresh.pv,
            },
            r.load.history == match load {
                Ok(Some(kept)) => kept.history,
                _ => fresh.load.history,
            },
            r.load.land == land,
            r.building == match building {
                Ok(Some(kept)) => kept,
                _ => fresh.building,
            },
    {
        let load = match load {
            Ok(Some(kept)) => LoadProfile { land, history: kept.history },
            _ => fresh.load,
        };
        Learned {
            pv: match pv {
                Ok(Some(kept)) => kept,
                _ => fresh.pv,
            },
            load,
            building: match building {
                Ok(Some(kept)) => kept,
                _ => fresh.building,
            },
        }
    }
}

/// Whether the building is identified again: once a local day.
pub fn is_refit_due(fitted_on: Option<i32>, today: i32) -> (r: bool)
    ensures
        r == (fitted_on != Some(today)),
{
    match fitted_on {
        Some(day) => day != today,
        None => true,
    }
}

/// How long between plans, seconds: no less than a minute.
pub fn replan_period_s(replan_every_s: u64) -> (s: u64)
    ensures
        s == if replan_every_s < 60 {
            60
        } else {
            replan_every_s
        },
{
    if replan_every_s < 60 {
        60
    } else {
        replan_every_s
    }
}

/// What the models are taught by one completed quarter hour.
#[derive(Debug, Clone, Copy, PartialEq, Eq)]
pub struct Taught {
    /// What the roof was modelled to make and what it made, in milliwatts, where it
    /// was modelled at all.
    pub roof: Option<(i64, u128)>,
    /// What the household drew, in milliwatts.
    pub load_mw: u128,
}

/// What the models are taught by one completed quarter hour. The roof is taught
/// against the figure its forecast used, and where there was none only the load is.
pub fn taught(lesson: Lesson, modelled_mw: Option<i64>) -> (t: Taught)
    ensures
        t.roof == match modelled_mw {
            Some(modelled) => Some((modelled, lesson.pv_mw)),
            None => None,
        },
        t.load_mw == lesson.load_mw,
{
    Taught {
        roof: match modelled_mw {
            Some(modelled) => Some((modelled, lesson.pv_mw)),
            None => None,
        },
        load_mw: lesson.load_mw,
    }
}

// ── What was fetched last ───────────────────────────────────────────────────

/// How many quarter hours of prices are asked for: two days, because a plan made in
/// the evening on one day of prices would be told that the whole of tomorrow costs
/// the same.
pub const ASKED_SLOTS: usize = 192;

/// What the last fetch returned, kept so that a network that is down costs no plan.
#[derive(Debug)]
pub struct Cached {
    /// The prices.
    pub prices: Option<Prices>,
    /// The sky.
    pub sky: Option<Sky>,
    /// The grid's carbon intensity by quarter hour, where the household prices it.
    pub carbon: BTreeMap<i64, Micros>,
    /// When the prices were last fetched.
    pub prices_at: Option<Instant>,
    /// When the sky was.
    pub sky_at: Option<Instant>,
}

/// What asking came to: an answer, nobody to ask, or a failure.
pub type Fetched<T> = Result<Option<T>, String>;

/// What is kept after asking again: the new answer, and the old one where there is
/// none.
pub open spec fn kept<T>(before: Option<T>, fetched: Fetched<T>) -> Option<T> {
    match fetched {
        Ok(Some(answer)) => Some(answer),
        _ => before,
    }
}

/// When something that is kept was fetched.
pub open spec fn kept_at<T>(
    before: Option<Instant>,
    fetched: Fetched<T>,
    now: Instant,
) -> Option<Instant> {
    match fetched {
        Ok(Some(_)) => Some(now),
        _ => before,
    }
}

impl Cached {
    /// Nothing yet.
    pub fn new() -> (c: Self)
        ensures
            c.prices is None,
            c.sky is None,
            c.carbon@ == Map::<i64, Micros>::empty(),
            c.prices_at is None,
            c.sky_at is None,
    {
        Cached {
            prices: None,
            sky: None,
            carbon: BTreeMap::new(),
            prices_at: None,
            sky_at: None,
        }
    }

    /// Take what asking the fleet came to, keeping whatever came back last. The
    /// carbon intensity is asked for where the household prices it.
    pub fn refresh(
        &mut self,
        prices: Fetched<Prices>,
        sky: Fetched<Sky>,
        carbon: Option<Fetched<BTreeMap<i64, Micros>>>,
        now: Instant,
    )
        ensures
            final(self).prices == kept(old(self).prices, prices),
            final(self).prices_at == kept_at(old(self).prices_at, prices, now),
            final(self).sky == kept(old(self).sky, sky),
            final(self).sky_at == kept_at(old(self).sky_at, sky, now),
            final(self).carbon == match carbon {
                Some(Ok(Some(series))) => series,
                _ => old(self).carbon,
            },
    {
        if let Ok(Some(answer)) = prices {
            self.prices = Some(answer);
            self.prices_at = Some(now);
        }
        if let Ok(Some(answer)) = sky {
            self.sky = Some(answer);
            self.sky_at = Some(now);
        }
        if let Some(Ok(Some(series))) = carbon {
            self.carbon = series;
        }
    }
}

/// A network that is down costs nothing that was already known, however often it is
/// asked.
pub proof fn a_failure_costs_no_answer<T>(before: Option<T>, failed: Fetched<T>)
    requires
        !(failed matches Ok(Some(_))),
    ensures
        kept(before, failed) == before,
        kept(kept(before, failed), failed) == before,
{
}

// ── The stores a plan may move ──────────────────────────────────────────────

/// A battery, as the installation describes it.
#[derive(Debug, Clone, Copy, PartialEq, Eq, Structural)]
pub struct BatteryAsset {
    /// Capacity, kWh.
    pub capacity: Micros,
    /// Charging power, kW.
    pub max_charge: Micros,
    /// Discharging power, kW.
    pub max_discharge: Micros,
    /// What of the energy that goes in arrives.
    pub efficiency_charge: Micros,
    /// What of the energy that comes out arrives.
    pub efficiency_discharge: Micros,
    /// How empty it may be.
    pub soc_min: Micros,
    /// How full it may be.
    pub soc_max: Micros,
    /// The share held back for a power cut.
    pub reserve_soc: Micros,
    /// Whether it may charge from the grid.
    pub grid_charging_allowed: bool,
}

/// A battery, as a plan may move it.
#[derive(Debug, Clone, Copy, PartialEq, Eq, Structural)]
pub struct BatteryModel {
    /// The installation.
    pub asset: BatteryAsset,
    /// How full it is.
    pub soc_now: Micros,
    /// What throughput costs in wear, €/kWh.
    pub degradation_eur_per_kwh: Micros,
}

/// A charge point, as the installation describes it.
#[derive(Debug, Clone, Copy, PartialEq, Eq, Structural)]
pub struct EvseAsset {
    /// The most it charges with on three conductors, kW.
    pub max_charge: Micros,
    /// The least.
    pub min_charge: Micros,
}

/// A charging session, as a plan may move it. Energies are in millionths of a
/// milliwatt-hour, so that a share of a capacity is exact.
#[derive(Debug, Clone, Copy, PartialEq, Eq, Structural)]
pub struct EvSession {
    /// What is in the car.
    pub energy_now: i128,
    /// What is to be in it.
    pub energy_target: i128,
    /// What it holds, milliwatt-hours.
    pub capacity_mwh: i64,
    /// The most it charges with, kW.
    pub max_charge: Micros,
    /// The least.
    pub min_charge: Micros,
    /// What of the energy that goes in arrives.
    pub efficiency: Micros,
    /// The first quarter hour the car is gone.
    pub departure: Slot,
}

/// What of the energy that is charged into a car arrives in it.
pub const CHARGING_EFFICIENCY: i64 = 920_000;

/// A heat pump, as the installation describes it.
#[derive(Debug, Clone, Copy, PartialEq, Eq, Structural)]
pub struct HeatPumpAsset {
    /// Electrical power at full output, kW.
    pub electrical_nominal: Micros,
    /// Whether it modulates.
    pub modulating: bool,
    /// The bottom of the comfort band, °C.
    pub comfort_min_c: Micros,
    /// The top of it, °C.
    pub comfort_max_c: Micros,
}

/// What an hour one degree outside the comfort band is worth avoiding, €.
pub const DISCOMFORT_EUR_PER_KELVIN_HOUR: i64 = 1_500_000;

/// What an appliance said about its compressor.
#[derive(Debug, Clone, Copy, PartialEq, Eq, Structural)]
pub struct CompressorOffer {
    /// How many quarter hours it has to run once started, where it said.
    pub min_on_slots: Option<usize>,
    /// How many it has to rest once stopped, where it said.
    pub min_off_slots: Option<usize>,
    /// Whether it is running.
    pub running: bool,
    /// For how many quarter hours it has been: none, which is the careful reading
    /// of something nobody publishes.
    pub slots_in_state: usize,
}

/// A house, as a plan may heat it.
#[derive(Debug, Clone, Copy, PartialEq, Eq, Structural)]
pub struct ThermalModel {
    /// How warm it is inside, in thousandths of a degree: the air, and the fabric
    /// nobody measures with it.
    pub indoor_mc: i64,
    /// The installation.
    pub unit: HeatPumpAsset,
    /// What the appliance said, where it announces anything.
    pub offer: Option<CompressorOffer>,
    /// What discomfort is worth avoiding.
    pub discomfort_eur_per_kelvin_hour: Micros,
}

/// A hot-water tank, as a plan may heat it.
#[derive(Debug, Clone, Copy, PartialEq, Eq, Structural)]
pub struct DhwModel {
    /// How warm it is, in thousandths of a degree.
    pub temperature_mc: i64,
}

/// What is behind the connection point, by name and by what a plan needs of it.
#[derive(Debug)]
pub struct Household {
    /// The meter at the connection point.
    pub grid_meter: String,
    /// The roof.
    pub pv: Option<String>,
    /// The battery.
    pub battery: Option<(String, BatteryAsset)>,
    /// The charge point.
    pub evse: Option<(String, EvseAsset)>,
    /// The heat pump.
    pub heat_pump: Option<(String, HeatPumpAsset)>,
    /// The hot-water tank.
    pub dhw: Option<String>,
}

/// What a device's last reading says of its charge.
pub open spec fn charge_of(observed: Observed, id: Seq<char>) -> Option<i64> {
    if observed.state.assets@.dom().contains(id) {
        observed.state.assets@[id].soc_ppm
    } else {
        None
    }
}

/// What a device's last reading says of its temperature.
pub open spec fn temperature_of(observed: Observed, id: Seq<char>) -> Option<i64> {
    if observed.state.assets@.dom().contains(id) {
        observed.state.assets@[id].temperature_mc
    } else {
        None
    }
}

/// Whether what was observed is in the order of its names.
pub open spec fn is_legible(observed: Observed) -> bool {
    &&& observed.state.assets.in_order()
    &&& observed.vehicles.in_order()
    &&& observed.flexibility.in_order()
}

/// The battery a plan may move: none where there is none, and none whose charge
/// nobody reads.
pub open spec fn battery_of(observed: Observed, household: Household, wear: Micros) -> Option<
    BatteryModel,
> {
    match household.battery {
        Some((id, asset)) => match charge_of(observed, id@) {
            Some(soc_now) => Some(BatteryModel { asset, soc_now, degradation_eur_per_kwh: wear }),
            None => None,
        },
        None => None,
    }
}

/// The battery a plan may move. A plan built on a guessed charge would empty a
/// store it thought was full.
pub fn battery_model(observed: &Observed, household: &Household, wear_eur_per_kwh: Micros) -> (m:
    Option<BatteryModel>)
    requires
        is_legible(*observed),
    ensures
        m == battery_of(*observed, *household, wear_eur_per_kwh),
{
    match &household.battery {
        Some((id, asset)) => match observed.state.assets.get(id.as_str()) {
            Some(reading) => match reading.soc_ppm {
                Some(soc_now) => Some(
                    BatteryModel {
                        asset: *asset,
                        soc_now,
                        degradation_eur_per_kwh: wear_eur_per_kwh,
                    },
                ),
                None => None,
            },
            None => None,
        },
        None => None,
    }
}

/// The tank a plan may heat: none where there is none, and none whose temperature
/// nobody reads.
pub open spec fn tank_of(observed: Observed, household: Household) -> Option<DhwModel> {
    match household.dhw {
        Some(id) => match temperature_of(observed, id@) {
            Some(temperature_mc) => Some(DhwModel { temperature_mc }),
            None => None,
        },
        None => None,
    }
}

/// The tank a plan may heat. A tank guessed full is one nobody heats overnight.
pub fn dhw_model(observed: &Observed, household: &Household) -> (m: Option<DhwModel>)
    requires
        is_legible(*observed),
    ensures
        m == tank_of(*observed, *household),
{
    match &household.dhw {
        Some(id) => match observed.state.assets.get(id.as_str()) {
            Some(reading) => match reading.temperature_mc {
                Some(temperature_mc) => Some(DhwModel { temperature_mc }),
                None => None,
            },
            None => None,
        },
        None => None,
    }
}

/// How many quarter hours a span takes, every one it touches counted, and at least
/// one.
pub open spec fn whole_slots(span: int) -> int {
    if span <= SLOT {
        1
    } else {
        (span + SLOT - 1) / SLOT as int
    }
}

/// A span as whole quarter hours. Rounded up: a minimum that is honoured for too
/// short is one the appliance extends by itself.
pub fn slots_of(span: i128) -> (n: usize)
    requires
        span <= 0x7fff_ffff_ffff_ffff * 1_000_000_000,
    ensures
        n == if whole_slots(span as int) <= usize::MAX {
            whole_slots(span as int)
        } else {
            usize::MAX as int
        },
        n >= 1,
{
    if span <= SLOT {
        1
    } else {
        let n: i128 = (span + SLOT - 1) / SLOT;
        if n <= usize::MAX as i128 {
            n as usize
        } else {
            usize::MAX
        }
    }
}

/// A minimum the plan honours is never shorter than the one the appliance stated.
pub proof fn a_minimum_is_never_cut_short(span: int)
    ensures
        whole_slots(span) * SLOT >= span,
        whole_slots(span) >= 1,
        span > 0 ==> (whole_slots(span) - 1) * SLOT < span,
{
}

/// So many quarter hours, where a span was stated.
pub open spec fn stated_slots(span: Option<i128>) -> Option<usize> {
    match span {
        Some(d) => Some(
            if whole_slots(d as int) <= usize::MAX {
                whole_slots(d as int) as usize
            } else {
                usize::MAX
            },
        ),
        None => None,
    }
}

/// Whether every span an appliance stated is one a clock can hold.
pub open spec fn spans_are_real(observed: Observed) -> bool {
    forall|k: Seq<char>| #[trigger]
        observed.flexibility@.dom().contains(k) ==> {
            let offer = observed.flexibility@[k];
            &&& offer.min_run matches Some(d) ==> d <= 0x7fff_ffff_ffff_ffff * 1_000_000_000
            &&& offer.min_rest matches Some(d) ==> d <= 0x7fff_ffff_ffff_ffff * 1_000_000_000
        }
}

/// What an appliance announced about its compressor.
pub open spec fn offer_of(observed: Observed, id: Seq<char>) -> Option<CompressorOffer> {
    if observed.flexibility@.dom().contains(id) {
        let said = observed.flexibility@[id];
        Some(
            CompressorOffer {
                min_on_slots: stated_slots(said.min_run),
                min_off_slots: stated_slots(said.min_rest),
                running: said.running,
                slots_in_state: 0,
            },
        )
    } else {
        None
    }
}

/// The house a plan may heat: none without a heat pump, and none whose temperature
/// nobody reads.
pub open spec fn house_of(observed: Observed, household: Household) -> Option<ThermalModel> {
    match household.heat_pump {
        Some((id, unit)) => match temperature_of(observed, id@) {
            Some(indoor_mc) => Some(
                ThermalModel {
                    indoor_mc,
                    unit,
                    offer: offer_of(observed, id@),
                    discomfort_eur_per_kelvin_hour: DISCOMFORT_EUR_PER_KELVIN_HOUR,
                },
            ),
            None => None,
        },
        None => None,
    }
}

/// The house a plan may heat. What the machine states about itself beats what
/// somebody typed into a file.
pub fn heat_pump_model(observed: &Observed, household: &Household) -> (m: Option<ThermalModel>)
    requires
        is_legible(*observed),
        spans_are_real(*observed),
    ensures
        m == house_of(*observed, *household),
{
    let (id, unit) = match &household.heat_pump {
        Some((id, unit)) => (id, unit),
        None => {
            return None;
        },
    };
    let indoor_mc: i64 = match observed.state.assets.get(id.as_str()) {
        Some(reading) => match reading.temperature_mc {
            Some(indoor_mc) => indoor_mc,
            None => {
                return None;
            },
        },
        None => {
            return None;
        },
    };
    let offer = match observed.flexibility.get(id.as_str()) {
        Some(said) => {
            let min_on_slots = match said.min_run {
                Some(d) => Some(slots_of(d)),
                None => None,
            };
            let min_off_slots = match said.min_rest {
                Some(d) => Some(slots_of(d)),
                None => None,
            };
            Some(
                CompressorOffer {
                    min_on_slots,
                    min_off_slots,
                    running: said.running,
                    slots_in_state: 0,
                },
            )
        },
        None => None,
    };
    Some(
        ThermalModel {
            indoor_mc,
            unit: *unit,
            offer,
            discomfort_eur_per_kelvin_hour: DISCOMFORT_EUR_PER_KELVIN_HOUR,
        },
    )
}

/// A share, no less than nothing and no more than everything.
pub open spec fn clamped(share: int) -> int {
    if share < 0 {
        0
    } else if share > crate::site::WHOLE {
        crate::site::WHOLE as int
    } else {
        share
    }
}

/// What is left of a session before it is known when the car leaves: a car that is
/// there, says how full it is and how much it holds, and is short of its target.
pub open spec fn wanted_of(
    observed: Observed,
    household: Household,
    charging: Option<EebusEvSettings>,
) -> Option<(int, int, i64, EvseAsset)> {
    match (household.evse, charging) {
        (Some((id, evse)), Some(c)) => if observed.vehicles@.dom().contains(id@) {
            let car = observed.vehicles@[id@];
            match (car.connected, car.soc_ppm, car.capacity_mwh) {
                (true, Some(soc), Some(capacity)) => {
                    let energy_now = capacity * soc;
                    let energy_target = capacity * clamped(c.target_soc as int);
                    if energy_now < energy_target {
                        Some((energy_now, energy_target, capacity, evse))
                    } else {
                        None
                    }
                },
                _ => None,
            }
        } else {
            None
        },
        _ => None,
    }
}

/// The charging session a plan may move, where the car leaves in a quarter hour.
pub open spec fn session_of(
    observed: Observed,
    household: Household,
    charging: Option<EebusEvSettings>,
    departure: Option<Slot>,
) -> Option<EvSession> {
    match (wanted_of(observed, household, charging), departure) {
        (Some((energy_now, energy_target, capacity_mwh, evse)), Some(departure)) => Some(
            EvSession {
                energy_now: energy_now as i128,
                energy_target: energy_target as i128,
                capacity_mwh,
                max_charge: evse.max_charge,
                min_charge: evse.min_charge,
                efficiency: CHARGING_EFFICIENCY,
                departure,
            },
        ),
        _ => None,
    }
}

/// The charging session, where the car leaves in a quarter hour or nobody knows
/// when. A car nobody can see, one that is not there, one that cannot say how full
/// it is and one that is full enough are all left out.
pub fn session_until(
    observed: &Observed,
    household: &Household,
    charging: Option<&EebusEvSettings>,
    departure: Option<Slot>,
) -> (s: Option<EvSession>)
    requires
        is_legible(*observed),
    ensures
        s == session_of(
            *observed,
            *household,
            match charging {
                Some(c) => Some(*c),
                None => None,
            },
            departure,
        ),
{
    let (id, evse) = match &household.evse {
        Some((id, evse)) => (id, evse),
        None => {
            return None;
        },
    };
    let charging = match charging {
        Some(c) => c,
        None => {
            return None;
        },
    };
    let car = match observed.vehicles.get(id.as_str()) {
        Some(car) => car,
        None => {
            return None;
        },
    };
    if !car.connected {
        return None;
    }
    let (soc, capacity): (i64, i64) = match (car.soc_ppm, car.capacity_mwh) {
        (Some(soc), Some(capacity)) => (soc, capacity),
        _ => {
            return None;
        },
    };
    let share: i64 = if charging.target_soc < 0 {
        0
    } else if charging.target_soc > crate::site::WHOLE {
        crate::site::WHOLE
    } else {
        charging.target_soc
    };
    let energy_now: i128 = product(capacity, soc);
    let energy_target: i128 = product(capacity, share);
    if energy_now >= energy_target {
        return None;
    }
    match departure {
        Some(departure) => Some(
            EvSession {
                energy_now,
                energy_target,
                capacity_mwh: capacity,
                max_charge: evse.max_charge,
                min_charge: evse.min_charge,
                efficiency: CHARGING_EFFICIENCY,
                departure,
            },
        ),
        None => None,
    }
}

/// The charging session a plan may move.
pub fn ev_session(
    observed: &Observed,
    household: &Household,
    charging: Option<&EebusEvSettings>,
    horizon: Horizon,
) -> (s: Option<EvSession>)
    requires
        is_legible(*observed),
        horizon.is_nameable(),
        crate::config::all_dated(horizon.quarters()),
    ensures
        match charging {
            None => s is None,
            Some(c) => exists|departure: Option<Slot>|
                {
                    &&& #[trigger] c.leaves_at(horizon, departure)
                    &&& s == session_of(*observed, *household, Some(*c), departure)
                },
        },
{
    match charging {
        None => None,
        Some(c) => {
            let departure = c.departure_slot(horizon);
            assert(c.leaves_at(horizon, departure));
            session_until(observed, household, Some(c), departure)
        },
    }
}

impl EvSession {
    /// The last quarter hour the car can charge in: the one before it is gone.
    pub fn deadline(&self) -> (slot: Slot)
        requires
            self.departure.index > i64::MIN,
        ensures
            slot.index == self.departure.index - 1,
    {
        Slot { index: self.departure.index - 1 }
    }
}

/// A session always has something to charge, and never more than the car holds.
pub proof fn a_session_has_something_to_charge(
    observed: Observed,
    household: Household,
    charging: Option<EebusEvSettings>,
    departure: Option<Slot>,
    s: EvSession,
)
    requires
        session_of(observed, household, charging, departure) == Some(s),
        s.capacity_mwh >= 0,
    ensures
        s.energy_now < s.energy_target <= s.capacity_mwh * crate::site::WHOLE,
        departure == Some(s.departure),
{
    let target = clamped(charging->Some_0.target_soc as int);
    let soc = observed.vehicles@[household.evse->Some_0.0@].soc_ppm->Some_0;
    assert(0 <= s.capacity_mwh * target <= s.capacity_mwh * 1_000_000) by (nonlinear_arith)
        requires
            s.capacity_mwh >= 0,
            0 <= target <= 1_000_000,
    ;
    assert(-0x4000_0000_0000_0000_0000_0000_0000_0000 <= s.capacity_mwh * soc
        <= 0x4000_0000_0000_0000_0000_0000_0000_0000) by (nonlinear_arith)
        requires
            -0x8000_0000_0000_0000 <= s.capacity_mwh <= 0x7fff_ffff_ffff_ffff,
            -0x8000_0000_0000_0000 <= soc <= 0x7fff_ffff_ffff_ffff,
    ;
}

// ── What the roof and the house will do ─────────────────────────────────────

/// The weather of one quarter hour.
#[derive(Debug, Clone, Copy, PartialEq, Eq, Structural)]
pub struct WeatherPoint {
    /// Which quarter hour.
    pub slot: Slot,
    /// Global horizontal irradiance, W/m².
    pub ghi_w_per_m2: Micros,
    /// Air temperature, °C.
    pub temperature_c: Micros,
    /// Cloud cover, where the model publishes one.
    pub cloud_cover: Option<Micros>,
}

/// One published point, as the forecast reads it.
pub open spec fn weather_of(p: SkyPoint) -> WeatherPoint {
    WeatherPoint {
        slot: Slot { index: crate::runtime::fleet::slot_number(p.slot as int) },
        ghi_w_per_m2: p.ghi_w_per_m2,
        temperature_c: p.temperature_c,
        cloud_cover: p.cloud_cover,
    }
}

/// A published sky, as the forecast reads it.
pub fn to_series(sky: &Sky) -> (series: Vec<WeatherPoint>)
    requires
        sky.is_dated(),
    ensures
        series@.len() == sky.points@.len(),
        forall|i: int|
            0 <= i < series@.len() ==> #[trigger] series@[i] == weather_of(sky.points@[i]),
        forall|i: int|
            0 <= i < series@.len() ==> {
                &&& (#[trigger] series@[i]).slot.covers(sky.points@[i].slot as int)
                &&& series@[i].ghi_w_per_m2 == sky.points@[i].ghi_w_per_m2
                &&& series@[i].temperature_c == sky.points@[i].temperature_c
                &&& series@[i].cloud_cover == sky.points@[i].cloud_cover
            },
{
    let mut series: Vec<WeatherPoint> = Vec::new();
    let mut i: usize = 0;
    while i < sky.points.len()
        invariant
            i <= sky.points@.len(),
            sky.is_dated(),
            series@.len() == i,
            forall|j: int|
                0 <= j < i ==> #[trigger] series@[j] == weather_of(sky.points@[j]),
            forall|j: int|
                0 <= j < i ==> (#[trigger] series@[j]).slot.covers(sky.points@[j].slot as int),
        decreases sky.points@.len() - i,
    {
        let p = sky.points[i];
        series.push(
            WeatherPoint {
                slot: Slot::containing(p.slot),
                ghi_w_per_m2: p.ghi_w_per_m2,
                temperature_c: p.temperature_c,
                cloud_cover: p.cloud_cover,
            },
        );
        i = i + 1;
    }
    series
}

/// Where a list gives its last figure for a quarter hour.
pub open spec fn last_place(modelled: Seq<(Slot, i64)>, slot: Slot) -> Option<int>
    decreases modelled.len(),
{
    if modelled.len() == 0 {
        None
    } else if modelled.last().0 == slot {
        Some(modelled.len() - 1)
    } else {
        last_place(modelled.drop_last(), slot)
    }
}

fn find_last_place(modelled: &Vec<(Slot, i64)>, slot: Slot) -> (r: Option<usize>)
    ensures
        match r {
            Some(k) => last_place(modelled@, slot) == Some(k as int) && k < modelled@.len(),
            None => last_place(modelled@, slot) is None,
        },
{
    let mut i: usize = modelled.len();
    assert(modelled@.take(i as int) =~= modelled@);
    while i > 0
        invariant
            i <= modelled@.len(),
            last_place(modelled@, slot) == last_place(modelled@.take(i as int), slot),
        decreases i,
    {
        assert(modelled@.take(i as int).drop_last() =~= modelled@.take(i - 1));
        assert(modelled@.take(i as int).last() == modelled@[i - 1]);
        if modelled[i - 1].0 == slot {
            return Some(i - 1);
        }
        i = i - 1;
    }
    None
}

/// A band of a roof nobody knows anything about: nothing, for certain.
pub open spec fn dark() -> Band {
    Band { p10: 0, p50: 0, p90: 0 }
}

/// The forecast of a roof over a horizon: each quarter hour's band, and nothing
/// past the end of the sky, because the alternative is sunshine somebody invented.
/// `bands` is what each modelled figure is corrected to, in the same order.
pub fn corrected(
    modelled: &Vec<(Slot, i64)>,
    bands: &Vec<Band>,
    horizon: Horizon,
) -> (forecast: Vec<(Slot, Band)>)
    requires
        horizon.is_nameable(),
        bands@.len() == modelled@.len(),
    ensures
        forecast@.len() == horizon.len,
        forall|i: int|
            0 <= i < forecast@.len() ==> {
                let slot = horizon.quarters()[i];
                &&& (#[trigger] forecast@[i]).0 == slot
                &&& forecast@[i].1 == match last_place(modelled@, slot) {
                    Some(k) => bands@[k],
                    None => dark(),
                }
            },
{
    let slots = horizon.slots();
    let mut forecast: Vec<(Slot, Band)> = Vec::new();
    let mut i: usize = 0;
    while i < slots.len()
        invariant
            i <= slots@.len(),
            slots@ == horizon.quarters(),
            bands@.len() == modelled@.len(),
            forecast@.len() == i,
            forall|j: int|
                0 <= j < i ==> {
                    let slot = horizon.quarters()[j];
                    &&& (#[trigger] forecast@[j]).0 == slot
                    &&& forecast@[j].1 == match last_place(modelled@, slot) {
                        Some(k) => bands@[k],
                        None => dark(),
                    }
                },
        decreases slots@.len() - i,
    {
        let slot = slots[i];
        let band = match find_last_place(modelled, slot) {
            Some(k) => bands[k],
            None => Band { p10: 0, p50: 0, p90: 0 },
        };
        forecast.push((slot, band));
        i = i + 1;
    }
    forecast
}

// ── One round ───────────────────────────────────────────────────────────────

/// Everything a round needs that does not change while the box runs.
#[derive(Debug)]
pub struct Planner {
    /// The house.
    pub household: Household,
    /// What a kilowatt-hour costs and earns.
    pub tariff: TariffSettings,
    /// How fast the planes run, and how patient they are.
    pub control: ControlSettings,
    /// What a kilowatt-hour of battery throughput costs in wear, €/kWh.
    pub wear_eur_per_kwh: Micros,
    /// When the car has to be charged by, and how far, where a charge point can say
    /// whether one is there.
    pub charging: Option<EebusEvSettings>,
}

/// Where the forecast of the household's own load comes from.
#[derive(Debug, Clone, Copy, PartialEq, Eq, Structural)]
pub enum LoadSource {
    /// Its own history.
    History,
    /// The last reading, in milliwatts, held and trusted less the further out.
    Persistence(i128),
}

/// Which devices a plan speaks of.
#[derive(Debug)]
pub struct AssetNames {
    /// The battery.
    pub battery: Option<String>,
    /// The roof.
    pub pv: Option<String>,
    /// The charge point.
    pub evse: Option<String>,
    /// The heat pump.
    pub heat_pump: Option<String>,
    /// The hot-water tank.
    pub dhw: Option<String>,
}

/// What a solver is given.
#[derive(Debug)]
pub struct Problem {
    /// The quarter hours it plans.
    pub horizon: Horizon,
    /// What a kilowatt-hour costs and earns.
    pub tariff: Tariff,
    /// How much carbon a kilowatt-hour stands for, g/kWh, by the quarter hour.
    pub carbon: BTreeMap<i64, Micros>,
    /// What the network operator is asking for.
    pub limits: GridLimits,
    /// The weather it plans against.
    pub series: Vec<WeatherPoint>,
    /// Where the load comes from.
    pub load: LoadSource,
    /// The battery, where it may be moved.
    pub battery: Option<BatteryModel>,
    /// The tank, where it may be heated.
    pub dhw: Option<DhwModel>,
    /// The house, where it may be heated.
    pub thermal: Option<ThermalModel>,
    /// The car, where one is to be charged.
    pub ev: Option<EvSession>,
    /// Which devices the plan speaks of.
    pub names: AssetNames,
    /// What it minimises.
    pub objective: Objective,
    /// How it treats the fact that its forecasts are wrong.
    pub risk: RiskModel,
    /// How long it may take, seconds.
    pub solve_budget_s: Micros,
}

/// How far a plan looks ahead: an hour at least.
pub open spec fn looks_ahead(slots: usize) -> usize {
    if slots < 4 {
        4
    } else {
        slots
    }
}

/// Whether so many quarter hours from an instant on all have a date.
pub open spec fn can_look_ahead(now: int, slots: usize) -> bool {
    &&& crate::clock::FIRST_INSTANT + crate::clock::DAY + SLOT <= now
    &&& now + slots * SLOT <= crate::clock::LAST_INSTANT - crate::clock::DAY
}

proof fn lemma_dated(h: Horizon, now: int)
    requires
        h.first.covers(now),
        can_look_ahead(now, h.len),
    ensures
        h.is_nameable(),
        crate::config::all_dated(h.quarters()),
{
    assert(h.first.index + h.len <= i64::MAX);
    assert forall|i: int| 0 <= i < h.quarters().len() implies crate::clock::in_local_calendar(
        (#[trigger] h.quarters()[i]).starts_at(),
    ) by {
        assert(h.quarters()[i].index == h.first.index + i);
    }
}

/// Whether a name is that of a device, given where something holds and only there.
pub open spec fn is_named_where(name: Option<String>, device: Option<Seq<char>>, where_: bool) -> bool {
    crate::runtime::fleet::told(name) == if where_ {
        device
    } else {
        None
    }
}

/// The name of a device that is described with it.
pub open spec fn name_of<T>(device: Option<(String, T)>) -> Option<Seq<char>> {
    match device {
        Some((id, _)) => Some(id@),
        None => None,
    }
}

/// Whether a plan names a device exactly where the problem models it; the roof is
/// always part of it.
pub open spec fn names_what_it_models(p: Problem, household: Household) -> bool {
    &&& is_named_where(p.names.battery, name_of(household.battery), p.battery is Some)
    &&& is_named_where(p.names.evse, name_of(household.evse), p.ev is Some)
    &&& is_named_where(p.names.heat_pump, name_of(household.heat_pump), p.thermal is Some)
    &&& is_named_where(p.names.dhw, crate::runtime::fleet::told(household.dhw), p.dhw is Some)
    &&& crate::runtime::fleet::told(p.names.pv) == crate::runtime::fleet::told(household.pv)
}

fn named<T>(device: &Option<(String, T)>, modelled: bool) -> (name: Option<String>)
    ensures
        is_named_where(name, name_of(*device), modelled),
{
    match device {
        Some((id, _)) => if modelled {
            Some(id.clone())
        } else {
            None
        },
        None => None,
    }
}

fn named_alone(device: &Option<String>, modelled: bool) -> (name: Option<String>)
    ensures
        is_named_where(name, crate::runtime::fleet::told(*device), modelled),
{
    match device {
        Some(id) => if modelled {
            Some(id.clone())
        } else {
            None
        },
        None => None,
    }
}

/// The spot curve a tariff is priced against: what was fetched last, and nothing
/// for a household whose price is fixed.
pub open spec fn spot_of(cached: Cached) -> Map<i64, Exact> {
    match cached.prices {
        Some(prices) => crate::runtime::fleet::curve_of(prices.slots(), prices.read()),
        None => Map::empty(),
    }
}

/// Whether everything that was fetched has a date.
pub open spec fn is_dated(cached: Cached) -> bool {
    &&& cached.prices matches Some(prices) ==> prices.is_dated()
    &&& cached.sky matches Some(sky) ==> sky.is_dated()
}

/// Whether a round has no price to plan against: nothing fetched, and none fixed.
pub open spec fn has_no_price(planner: Planner, cached: Cached) -> bool {
    cached.prices is None && planner.tariff.fixed_ct_per_kwh is None
}

/// Whether a round has no load to plan against: nothing learned, and no meter read.
pub open spec fn has_no_load(observed: Observed, has_history: bool) -> bool {
    !has_history && crate::drivers::observed::own_load(
        observed.state.grid,
        observed.state.assets.listed(),
    ) is None
}

/// What a solver is given in one round, from what the box knows, or why it is given
/// nothing.
///
/// `has_history` is whether the box has learned anything of its own load, and
/// `para51_from` the day the plant's negative quarter hours stop earning.
pub fn attempt(
    planner: &Planner,
    cached: &Cached,
    observed: &Observed,
    has_history: bool,
    para51_from: Option<i32>,
    now: Instant,
) -> (r: Result<Problem, Reason>)
    requires
        can_look_ahead(now as int, looks_ahead(planner.control.horizon_slots)),
        is_dated(*cached),
        is_legible(*observed),
        spans_are_real(*observed),
    ensures
        match r {
            Err(Reason::NoPrices) => has_no_price(*planner, *cached),
            Err(Reason::NoSky) => !has_no_price(*planner, *cached) && cached.sky is None,
            Err(Reason::NoHistory) => !has_no_price(*planner, *cached) && cached.sky is Some
                && has_no_load(*observed, has_history),
            Err(_) => false,
            Ok(p) => {
                &&& !has_no_price(*planner, *cached)
                &&& cached.sky is Some
                &&& !has_no_load(*observed, has_history)
                &&& p.horizon.first.covers(now as int)
                &&& p.horizon.len == looks_ahead(planner.control.horizon_slots)
                &&& planner.tariff.makes(spot_of(*cached), para51_from, p.tariff)
                &&& p.carbon@ == cached.carbon@
                &&& p.limits == observed.limits
                &&& p.series@.len() == cached.sky->Some_0.points@.len()
                &&& forall|i: int|
                    0 <= i < p.series@.len() ==> #[trigger] p.series@[i] == weather_of(
                        cached.sky->Some_0.points@[i],
                    )
                &&& forall|i: int|
                    0 <= i < p.series@.len() ==> {
                        let point = cached.sky->Some_0.points@[i];
                        &&& (#[trigger] p.series@[i]).ghi_w_per_m2 == point.ghi_w_per_m2
                        &&& p.series@[i].temperature_c == point.temperature_c
                        &&& p.series@[i].cloud_cover == point.cloud_cover
                    }
                &&& if has_history {
                    p.load == LoadSource::History
                } else {
                    p.load matches LoadSource::Persistence(mw)
                        && crate::drivers::observed::own_load(
                        observed.state.grid,
                        observed.state.assets.listed(),
                    ) == Some(mw as int)
                }
                &&& p.battery == battery_of(*observed, planner.household, planner.wear_eur_per_kwh)
                &&& p.dhw == tank_of(*observed, planner.household)
                &&& p.thermal == house_of(*observed, planner.household)
                &&& match planner.charging {
                    None => p.ev is None,
                    Some(c) => exists|departure: Option<Slot>|
                        {
                            &&& #[trigger] c.leaves_at(p.horizon, departure)
                            &&& p.ev == session_of(
                                *observed,
                                planner.household,
                                Some(c),
                                departure,
                            )
                        },
                }
                &&& names_what_it_models(p, planner.household)
                &&& p.objective.carbon_price == planner.control.preferences.co2_eur_per_kg
                &&& p.objective.autarky_premium == planner.control.preferences.autarky_eur_per_kwh
                &&& p.risk == planner.control.risk.modelled()
                &&& p.solve_budget_s == planner.control.solve_budget_s
            },
        },
{
    let ahead: usize = if planner.control.horizon_slots < 4 {
        4
    } else {
        planner.control.horizon_slots
    };
    let horizon = Horizon::new(now, ahead);
    proof {
        lemma_dated(horizon, now as int);
    }
    let spot = match &cached.prices {
        Some(prices) => prices.spot(),
        None => {
            if planner.tariff.fixed_ct_per_kwh.is_none() {
                return Err(Reason::NoPrices);
            }
            BTreeMap::new()
        },
    };
    assert(spot@ =~= spot_of(*cached));
    let tariff = planner.tariff.tariff(spot, para51_from);
    let series = match &cached.sky {
        Some(sky) => to_series(sky),
        None => {
            return Err(Reason::NoSky);
        },
    };
    let load = if has_history {
        LoadSource::History
    } else {
        match household_load(observed) {
            Some(mw) => LoadSource::Persistence(mw),
            None => {
                return Err(Reason::NoHistory);
            },
        }
    };
    let household = &planner.household;
    let battery = battery_model(observed, household, planner.wear_eur_per_kwh);
    let dhw = dhw_model(observed, household);
    let thermal = heat_pump_model(observed, household);
    let charging = match &planner.charging {
        Some(c) => Some(c),
        None => None,
    };
    let ev = ev_session(observed, household, charging, horizon);
    let names = AssetNames {
        battery: named(&household.battery, battery.is_some()),
        pv: named_alone(&household.pv, true),
        evse: named(&household.evse, ev.is_some()),
        heat_pump: named(&household.heat_pump, thermal.is_some()),
        dhw: named_alone(&household.dhw, dhw.is_some()),
    };
    Ok(
        Problem {
            horizon,
            tariff,
            carbon: cached.carbon.clone(),
            limits: observed.limits,
            series,
            load,
            battery,
            dhw,
            thermal,
            ev,
            names,
            objective: planner.control.preferences.objective(),
            risk: planner.control.risk.model(),
            solve_budget_s: planner.control.solve_budget_s,
        },
    )
}

/// A device that nobody measured is not spoken of: where no reading says how full a
/// battery is, the plan neither models nor names it.
pub proof fn what_nobody_measured_is_not_spoken_of(
    p: Problem,
    observed: Observed,
    household: Household,
    wear: Micros,
)
    requires
        names_what_it_models(p, household),
        p.battery == battery_of(observed, household, wear),
        p.dhw == tank_of(observed, household),
        p.thermal == house_of(observed, household),
        observed.state.assets@ == Map::<Seq<char>, crate::drivers::Measurement>::empty(),
    ensures
        p.names.battery is None,
        p.names.dhw is None,
        p.names.heat_pump is None,
{
}

// ── What the control loop is left ───────────────────────────────────────────

/// What the planner leaves for the control loop to score and to learn against: what
/// was acted on, and not a forecast made afterwards.
#[derive(Debug)]
pub struct Published {
    /// The outdoor temperature by quarter hour, °C.
    pub outdoor: BTreeMap<i64, Micros>,
    /// The bands of the roof and of the load by quarter hour.
    pub bands: BTreeMap<i64, (Band, Band)>,
}

/// The outdoor temperatures of a series, the later one standing.
pub open spec fn outdoor_of(series: Seq<WeatherPoint>) -> Map<i64, Micros>
    decreases series.len(),
{
    if series.len() == 0 {
        Map::empty()
    } else {
        outdoor_of(series.drop_last()).insert(
            series.last().slot.index,
            series.last().temperature_c,
        )
    }
}

/// The bands of two forecasts, quarter hour by quarter hour, as far as both reach.
pub open spec fn bands_of(pv: Seq<(Slot, Band)>, load: Seq<(Slot, Band)>, n: int) -> Map<
    i64,
    (Band, Band),
>
    decreases n,
{
    if n <= 0 {
        Map::empty()
    } else {
        bands_of(pv, load, n - 1).insert(pv[n - 1].0.index, (pv[n - 1].1, load[n - 1].1))
    }
}

/// How many quarter hours two forecasts share.
pub open spec fn shared(a: nat, b: nat) -> int {
    if a < b {
        a as int
    } else {
        b as int
    }
}

/// Leave the control loop the series a plan was made against.
pub fn publish(
    series: &Vec<WeatherPoint>,
    pv: &Vec<(Slot, Band)>,
    load: &Vec<(Slot, Band)>,
) -> (p: Published)
    ensures
        p.outdoor@ == outdoor_of(series@),
        p.bands@ == bands_of(pv@, load@, shared(pv@.len(), load@.len())),
{
    let mut outdoor: BTreeMap<i64, Micros> = BTreeMap::new();
    let mut i: usize = 0;
    assert(outdoor@ =~= outdoor_of(series@.take(0)));
    while i < series.len()
        invariant
            i <= series@.len(),
            outdoor@ == outdoor_of(series@.take(i as int)),
        decreases series@.len() - i,
    {
        assert(series@.take(i + 1).drop_last() =~= series@.take(i as int));
        assert(series@.take(i + 1).last() == series@[i as int]);
        outdoor.insert(series[i].slot.index, series[i].temperature_c);
        i = i + 1;
    }
    assert(series@.take(i as int) =~= series@);
    let mut bands: BTreeMap<i64, (Band, Band)> = BTreeMap::new();
    let mut k: usize = 0;
    assert(bands@ =~= bands_of(pv@, load@, 0));
    while k < pv.len() && k < load.len()
        invariant
            k <= pv@.len(),
            k <= load@.len(),
            bands@ == bands_of(pv@, load@, k as int),
        decreases pv@.len() - k,
    {
        bands.insert(pv[k].0.index, (pv[k].1, load[k].1));
        k = k + 1;
    }
    Published { outdoor, bands }
}

/// What a roof is modelled to make, quarter hour by quarter hour; what is modelled
/// later stands.
pub open spec fn modelled_of(modelled: Seq<(Slot, i64)>) -> Map<i64, i64>
    decreases modelled.len(),
{
    if modelled.len() == 0 {
        Map::empty()
    } else {
        modelled_of(modelled.drop_last()).insert(modelled.last().0.index, modelled.last().1)
    }
}

/// Leave the control loop what the roof was modelled to make, in milliwatts: the
/// corrector is taught against exactly these figures, so that it learns the roof and
/// not the weather.
pub fn publish_modelled(modelled: &Vec<(Slot, i64)>) -> (p: BTreeMap<i64, i64>)
    ensures
        p@ == modelled_of(modelled@),
{
    let mut p: BTreeMap<i64, i64> = BTreeMap::new();
    let mut i: usize = 0;
    assert(p@ =~= modelled_of(modelled@.take(0)));
    while i < modelled.len()
        invariant
            i <= modelled@.len(),
            p@ == modelled_of(modelled@.take(i as int)),
        decreases modelled@.len() - i,
    {
        assert(modelled@.take(i + 1).drop_last() =~= modelled@.take(i as int));
        assert(modelled@.take(i + 1).last() == modelled@[i as int]);
        p.insert(modelled[i].0.index, modelled[i].1);
        i = i + 1;
    }
    assert(modelled@.take(i as int) =~= modelled@);
    p
}

// ── What holds of a round ───────────────────────────────────────────────────

/// A plan is made against the weather that was published: the same sun, the same
/// temperature and the same clouds, in the quarter hour they were published for.
pub proof fn the_weather_is_the_one_that_was_published(p: SkyPoint)
    requires
        crate::clock::in_calendar(p.slot as int),
    ensures
        weather_of(p).ghi_w_per_m2 == p.ghi_w_per_m2,
        weather_of(p).temperature_c == p.temperature_c,
        weather_of(p).cloud_cover == p.cloud_cover,
        weather_of(p).slot.covers(p.slot as int),
{
}

/// Two skies that differ at a point are two different series: nothing of the sun, the
/// temperature or the clouds is lost on the way to a plan.
pub proof fn different_skies_are_different_series(p: SkyPoint, q: SkyPoint)
    requires
        weather_of(p) == weather_of(q),
    ensures
        p.ghi_w_per_m2 == q.ghi_w_per_m2,
        p.temperature_c == q.temperature_c,
        p.cloud_cover == q.cloud_cover,
{
}

/// Asking again keeps the newer answer and the time it came; a question that brought
/// nothing changes neither.
pub proof fn the_newest_answer_is_kept<T>(
    before: Option<T>,
    at: Option<Instant>,
    fetched: Fetched<T>,
    now: Instant,
)
    ensures
        fetched matches Ok(Some(answer)) ==> kept(before, fetched) == Some(answer) && kept_at(
            at,
            fetched,
            now,
        ) == Some(now),
        !(fetched matches Ok(Some(_))) ==> kept(before, fetched) == before && kept_at(
            at,
            fetched,
            now,
        ) == at,
{
}

/// A battery is planned where there is one and its charge is read, with the charge that
/// was read, the installation as it is and the wear that was configured.
pub proof fn a_battery_is_planned_as_it_was_read(
    observed: Observed,
    household: Household,
    wear: Micros,
    id: String,
    asset: BatteryAsset,
)
    ensures
        household.battery is None ==> battery_of(observed, household, wear) is None,
        household.battery == Some((id, asset)) ==> {
            let read = observed.state.assets@.dom().contains(id@)
                && observed.state.assets@[id@].soc_ppm is Some;
            &&& battery_of(observed, household, wear) is Some <==> read
            &&& battery_of(observed, household, wear) matches Some(m) ==> {
                &&& observed.state.assets@[id@].soc_ppm == Some(m.soc_now)
                &&& m.asset == asset
                &&& m.degradation_eur_per_kwh == wear
            }
        },
{
}

/// A tank is planned where there is one and its temperature is read, and with that
/// temperature.
pub proof fn a_tank_is_planned_as_it_was_read(observed: Observed, household: Household, id: String)
    ensures
        household.dhw is None ==> tank_of(observed, household) is None,
        household.dhw == Some(id) ==> {
            let read = observed.state.assets@.dom().contains(id@)
                && observed.state.assets@[id@].temperature_mc is Some;
            &&& tank_of(observed, household) is Some <==> read
            &&& tank_of(observed, household) matches Some(m) ==> observed.state.assets@[id@].temperature_mc
                == Some(m.temperature_mc)
        },
{
}

/// A house is planned where there is a heat pump and its temperature is read: with that
/// temperature, the unit as it is, and what its appliance announced about itself.
pub proof fn a_house_is_planned_as_it_was_read(
    observed: Observed,
    household: Household,
    id: String,
    unit: HeatPumpAsset,
)
    ensures
        household.heat_pump is None ==> house_of(observed, household) is None,
        household.heat_pump == Some((id, unit)) ==> {
            let read = observed.state.assets@.dom().contains(id@)
                && observed.state.assets@[id@].temperature_mc is Some;
            &&& house_of(observed, household) is Some <==> read
            &&& house_of(observed, household) matches Some(m) ==> {
                &&& observed.state.assets@[id@].temperature_mc == Some(m.indoor_mc)
                &&& m.unit == unit
                &&& m.discomfort_eur_per_kelvin_hour == 1_500_000
                &&& m.offer is Some <==> observed.flexibility@.dom().contains(id@)
                &&& m.offer matches Some(offer) ==> {
                    let said = observed.flexibility@[id@];
                    &&& offer.running == said.running
                    &&& offer.slots_in_state == 0
                    &&& offer.min_on_slots is Some <==> said.min_run is Some
                    &&& offer.min_off_slots is Some <==> said.min_rest is Some
                    &&& offer.min_on_slots matches Some(n) ==> n == usize::MAX || n * SLOT
                        >= said.min_run->Some_0
                    &&& offer.min_off_slots matches Some(n) ==> n == usize::MAX || n * SLOT
                        >= said.min_rest->Some_0
                    &&& offer.min_on_slots matches Some(n) ==> (n - 1) * SLOT
                        < said.min_run->Some_0 || n == 1
                    &&& offer.min_off_slots matches Some(n) ==> (n - 1) * SLOT
                        < said.min_rest->Some_0 || n == 1
                }
            }
        },
{
    if household.heat_pump == Some((id, unit)) && observed.flexibility@.dom().contains(id@) {
        let said = observed.flexibility@[id@];
        if let Some(d) = said.min_run {
            a_minimum_is_never_cut_short(d as int);
        }
        if let Some(d) = said.min_rest {
            a_minimum_is_never_cut_short(d as int);
        }
    }
}

/// A car is charged where a charge point sees one that is there and says how full it is and
/// how much it holds, it is short of its target, and it is known when it leaves. The session
/// is then from what is in it to the target share of what it holds.
pub proof fn a_session_is_the_car_that_is_there(
    observed: Observed,
    household: Household,
    charging: Option<EebusEvSettings>,
    departure: Option<Slot>,
)
    ensures
        household.evse is None || charging is None || departure is None ==> session_of(
            observed,
            household,
            charging,
            departure,
        ) is None,
        household.evse matches Some((id, evse)) ==> (charging matches Some(c) ==> {
            let car = observed.vehicles@[id@];
            let target = if c.target_soc < 0 {
                0
            } else if c.target_soc > 1_000_000 {
                1_000_000
            } else {
                c.target_soc as int
            };
            let s = session_of(observed, household, charging, departure);
            &&& s is Some <==> departure is Some && observed.vehicles@.dom().contains(id@)
                && car.connected && car.soc_ppm is Some && car.capacity_mwh is Some
                && car.capacity_mwh->Some_0 * car.soc_ppm->Some_0 < car.capacity_mwh->Some_0
                * target
            &&& s matches Some(session) ==> {
                &&& session.energy_now == car.capacity_mwh->Some_0 * car.soc_ppm->Some_0
                &&& session.energy_target == car.capacity_mwh->Some_0 * target
                &&& Some(session.capacity_mwh) == car.capacity_mwh
                &&& session.max_charge == evse.max_charge
                &&& session.min_charge == evse.min_charge
                &&& session.efficiency == 920_000
                &&& Some(session.departure) == departure
            }
        }),
{
    if let (Some((id, evse)), Some(c)) = (household.evse, charging) {
        let car = observed.vehicles@[id@];
        if let (Some(soc), Some(capacity)) = (car.soc_ppm, car.capacity_mwh) {
            lemma_product_fits(capacity, soc);
            lemma_product_fits(capacity, clamped(c.target_soc as int) as i64);
        }
    }
}

proof fn lemma_product_fits(a: i64, b: i64)
    ensures
        i128::MIN <= a * b <= i128::MAX,
{
    assert(-0x4000_0000_0000_0000_0000_0000_0000_0000 <= a * b
        <= 0x4000_0000_0000_0000_0000_0000_0000_0000) by (nonlinear_arith)
        requires
            -0x8000_0000_0000_0000 <= a <= 0x7fff_ffff_ffff_ffff,
            -0x8000_0000_0000_0000 <= b <= 0x7fff_ffff_ffff_ffff,
    ;
}

/// The last figure a list gives for a quarter hour is the one that stands: it is one of that
/// quarter hour's and none behind it is.
pub proof fn the_last_figure_of_a_quarter_hour_stands(modelled: Seq<(Slot, i64)>, slot: Slot)
    ensures
        last_place(modelled, slot) is None <==> forall|i: int|
            0 <= i < modelled.len() ==> (#[trigger] modelled[i]).0 != slot,
        last_place(modelled, slot) matches Some(k) ==> 0 <= k < modelled.len() && modelled[k].0
            == slot && forall|i: int|
            k < i < modelled.len() ==> (#[trigger] modelled[i]).0 != slot,
        last_place(modelled, slot) matches Some(k) ==> modelled_of(modelled).dom().contains(
            slot.index,
        ) && modelled_of(modelled)[slot.index] == modelled[k].1,
        last_place(modelled, slot) is None ==> !modelled_of(modelled).dom().contains(slot.index),
    decreases modelled.len(),
{
    if modelled.len() > 0 {
        let rest = modelled.drop_last();
        the_last_figure_of_a_quarter_hour_stands(rest, slot);
        let n = modelled.len() - 1;
        assert(modelled[n] == modelled.last());
        assert forall|i: int| 0 <= i < n implies rest[i] == #[trigger] modelled[i] by {}
        if modelled.last().0 != slot && last_place(rest, slot) is Some {
            let k = last_place(rest, slot)->Some_0;
            assert(modelled[k].0 == slot);
        }
        if modelled.last().0 == slot {
            assert(modelled[n].0 == slot);
        }
    }
}

/// Past the end of the sky a roof makes nothing.
pub proof fn past_the_sky_it_is_dark(band: Band)
    requires
        band == dark(),
    ensures
        band.p10 == 0 && band.p50 == 0 && band.p90 == 0,
{
}

/// A plan looks as far ahead as it is told to, and never less than an hour.
pub proof fn a_plan_looks_an_hour_ahead_at_least(slots: usize)
    ensures
        looks_ahead(slots) >= 4,
        slots >= 4 ==> looks_ahead(slots) == slots,
        slots < 4 ==> looks_ahead(slots) == 4,
{
}

/// What is missing for a plan is a price where none was fetched and none is fixed, and a
/// load where none was learned and the meter is not read.
pub proof fn what_a_plan_cannot_be_made_without(
    planner: Planner,
    cached: Cached,
    observed: Observed,
    has_history: bool,
)
    ensures
        has_no_price(planner, cached) <==> cached.prices is None
            && planner.tariff.fixed_ct_per_kwh is None,
        has_no_load(observed, has_history) <==> !has_history && !(observed.state.grid is Some
            && observed.state.grid->Some_0.power_mw is Some),
        cached.prices is None ==> spot_of(cached) == Map::<i64, Exact>::empty(),
{
    crate::drivers::observed::own_load_is_what_the_devices_leave_of_the_meter(
        observed.state.grid,
        observed.state.assets.listed(),
    );
}

/// A plan names a device by its own name where it models it, and no device it does not; the
/// roof it always names.
pub proof fn a_plan_names_each_device_by_its_own_name(p: Problem, household: Household)
    requires
        names_what_it_models(p, household),
    ensures
        p.names.battery is Some <==> p.battery is Some && household.battery is Some,
        p.names.battery matches Some(name) ==> name@ == household.battery->Some_0.0@,
        p.names.evse is Some <==> p.ev is Some && household.evse is Some,
        p.names.evse matches Some(name) ==> name@ == household.evse->Some_0.0@,
        p.names.heat_pump is Some <==> p.thermal is Some && household.heat_pump is Some,
        p.names.heat_pump matches Some(name) ==> name@ == household.heat_pump->Some_0.0@,
        p.names.dhw is Some <==> p.dhw is Some && household.dhw is Some,
        p.names.dhw matches Some(name) ==> name@ == household.dhw->Some_0@,
        p.names.pv is Some <==> household.pv is Some,
        p.names.pv matches Some(name) ==> name@ == household.pv->Some_0@,
{
}

/// The control loop is left the temperature of every quarter hour of the series, the later
/// one where two are the same.
pub proof fn the_last_temperature_of_a_quarter_hour_stands(series: Seq<WeatherPoint>, i: int)
    requires
        0 <= i < series.len(),
        forall|j: int| i < j < series.len() ==> (#[trigger] series[j]).slot != series[i].slot,
    ensures
        outdoor_of(series).dom().contains(series[i].slot.index),
        outdoor_of(series)[series[i].slot.index] == series[i].temperature_c,
    decreases series.len(),
{
    let n = series.len() - 1;
    if i < n {
        let rest = series.drop_last();
        assert(series[n].slot != series[i].slot);
        assert forall|j: int| i < j < rest.len() implies (#[trigger] rest[j]).slot
            != rest[i].slot by {
            assert(series[j].slot != series[i].slot);
        }
        the_last_temperature_of_a_quarter_hour_stands(rest, i);
    }
}

/// No temperature is left of a quarter hour nobody forecast.
pub proof fn no_temperature_is_made_up(series: Seq<WeatherPoint>, index: i64)
    requires
        outdoor_of(series).dom().contains(index),
    ensures
        exists|i: int| 0 <= i < series.len() && (#[trigger] series[i]).slot.index == index,
    decreases series.len(),
{
    let n = series.len() - 1;
    if series.last().slot.index == index {
        assert(series[n].slot.index == index);
    } else {
        let rest = series.drop_last();
        no_temperature_is_made_up(rest, index);
        let i = choose|i: int| 0 <= i < rest.len() && (#[trigger] rest[i]).slot.index == index;
        assert(series[i].slot.index == index);
    }
}

/// The control loop is left the bands of every quarter hour both forecasts reach, the roof's
/// first and the load's second, and of no other.
pub proof fn bands_are_left_as_far_as_both_forecasts_reach(
    pv: Seq<(Slot, Band)>,
    load: Seq<(Slot, Band)>,
    n: int,
    i: int,
)
    requires
        0 <= i < n,
        forall|j: int| i < j < n ==> (#[trigger] pv[j]).0 != pv[i].0,
    ensures
        bands_of(pv, load, n).dom().contains(pv[i].0.index),
        bands_of(pv, load, n)[pv[i].0.index].0 == pv[i].1,
        bands_of(pv, load, n)[pv[i].0.index].1 == load[i].1,
        shared(pv.len(), load.len()) <= pv.len(),
        shared(pv.len(), load.len()) <= load.len(),
        shared(pv.len(), load.len()) == pv.len() || shared(pv.len(), load.len()) == load.len(),
    decreases n,
{
    if i < n - 1 {
        assert(pv[n - 1].0 != pv[i].0);
        bands_are_left_as_far_as_both_forecasts_reach(pv, load, n - 1, i);
    }
}

/// No band is left of a quarter hour the roof's forecast does not reach.
pub proof fn no_band_is_made_up(
    pv: Seq<(Slot, Band)>,
    load: Seq<(Slot, Band)>,
    n: int,
    index: i64,
)
    requires
        bands_of(pv, load, n).dom().contains(index),
    ensures
        exists|i: int| 0 <= i < n && (#[trigger] pv[i]).0.index == index,
    decreases n,
{
    if pv[n - 1].0.index != index {
        no_band_is_made_up(pv, load, n - 1, index);
        let i = choose|i: int| 0 <= i < n - 1 && (#[trigger] pv[i]).0.index == index;
        assert(pv[i].0.index == index);
    }
}

} // verus!

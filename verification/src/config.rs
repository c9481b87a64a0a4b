//! What a box is told about the house it manages.
//!
//! Units are in the field names, because a configuration is read by a person with
//! a clipboard: every figure is in millionths of the unit its name carries. A size
//! of nothing is the absence of the device.

use std::collections::BTreeMap;

use vstd::prelude::*;

use crate::clock::{local_minute, parse_day, Horizon, Slot};
use crate::runtime::fleet::Exact;
use crate::runtime::outbox::{HistdSettings, ObsdSettings};
use crate::runtime::ship::ShipSettings;
use crate::site::{
    BatteryConfig, DhwConfig, EvseConfig, GeoPoint, HeatPumpConfig, HeatPumpControl,
    HouseholdConfig, Micros, Para9Status, PvConfig,
};
use crate::text::{parse_u32, push_plain, quoted, split_once, trim};

verus! {

// ── How fast the planes run ─────────────────────────────────────────────────

/// How the planner treats the fact that its forecasts are wrong.
#[derive(Debug, Clone, Copy, PartialEq, Eq, Structural)]
pub enum RiskSettings {
    /// One future, priced as though it were certain.
    Median,
    /// Three futures, minimising the expected cost.
    Expected,
    /// The same three, with weight on the worst.
    Hedged,
    /// One chosen quantile of each forecast.
    Pessimistic,
}

impl Default for RiskSettings {
    /// The median.
    fn default() -> (r: Self)
        ensures
            r == RiskSettings::Median,
    {
        RiskSettings::Median
    }
}

/// A quantile of a forecast.
#[derive(Debug, Clone, Copy, PartialEq, Eq, Structural)]
pub enum Quantile {
    /// The low end of the band.
    P10,
    /// The middle.
    P50,
    /// The high end of the band.
    P90,
}

/// What the planner does about risk.
#[derive(Debug, Clone, Copy, PartialEq, Eq, Structural)]
pub enum RiskModel {
    /// One future, the median of both forecasts.
    Deterministic,
    /// The expected cost over three.
    Expected,
    /// The expected cost and the worst.
    Hedged,
    /// One quantile of the production and one of the load.
    AtQuantile(Quantile, Quantile),
}

impl RiskSettings {
    /// What the planner does about it. The pessimistic day is dull and hungry at
    /// once.
    pub open spec fn modelled(self) -> RiskModel {
        match self {
            RiskSettings::Median => RiskModel::Deterministic,
            RiskSettings::Expected => RiskModel::Expected,
            RiskSettings::Hedged => RiskModel::Hedged,
            RiskSettings::Pessimistic => RiskModel::AtQuantile(Quantile::P10, Quantile::P90),
        }
    }

    /// What the planner does about it.
    pub fn model(self) -> (m: RiskModel)
        ensures
            m == self.modelled(),
    {
        match self {
            RiskSettings::Median => RiskModel::Deterministic,
            RiskSettings::Expected => RiskModel::Expected,
            RiskSettings::Hedged => RiskModel::Hedged,
            RiskSettings::Pessimistic => RiskModel::AtQuantile(Quantile::P10, Quantile::P90),
        }
    }
}

/// What a household is willing to pay to avoid something other than money.
#[derive(Debug, Clone, Copy, PartialEq, Eq, Structural)]
pub struct Preferences {
    /// What a kilogram of carbon dioxide is worth avoiding, €/kg.
    pub co2_eur_per_kg: Micros,
    /// What a kilowatt-hour off the grid is worth avoiding beyond its price, €/kWh.
    pub autarky_eur_per_kwh: Micros,
}

impl Default for Preferences {
    /// The plain economic plan.
    fn default() -> (p: Self)
        ensures
            p.co2_eur_per_kg == 0,
            p.autarky_eur_per_kwh == 0,
    {
        Preferences { co2_eur_per_kg: 0, autarky_eur_per_kwh: 0 }
    }
}

/// What a plan minimises beside what the household pays.
#[derive(Debug, Clone, Copy, PartialEq, Eq, Structural)]
pub struct Objective {
    /// What a kilogram of carbon dioxide is priced at, €/kg.
    pub carbon_price: Micros,
    /// What a kilowatt-hour off the grid is priced at beyond its price, €/kWh.
    pub autarky_premium: Micros,
}

impl Preferences {
    /// What a plan minimises for a household with these preferences.
    pub fn objective(&self) -> (o: Objective)
        ensures
            o.carbon_price == self.co2_eur_per_kg,
            o.autarky_premium == self.autarky_eur_per_kwh,
    {
        Objective { carbon_price: self.co2_eur_per_kg, autarky_premium: self.autarky_eur_per_kwh }
    }

    /// Whether the household prices carbon at all: nobody asks for a series to
    /// multiply it by nothing.
    pub fn prices_carbon(&self) -> (r: bool)
        ensures
            r == (self.co2_eur_per_kg > 0),
    {
        self.co2_eur_per_kg > 0
    }
}

/// How fast the planes run, and how patient they are.
#[derive(Debug, Clone, Copy, PartialEq, Eq, Structural)]
pub struct ControlSettings {
    /// How often the guard and the arbiter decide, seconds.
    pub tick_period_s: u64,
    /// How often the planner solves again, seconds.
    pub replan_every_s: u64,
    /// How many quarter hours the planner looks ahead.
    pub horizon_slots: usize,
    /// How long the solver may spend, seconds; nothing means no limit.
    pub solve_budget_s: Micros,
    /// What the household will pay to avoid something other than money.
    pub preferences: Preferences,
    /// How the planner treats the fact that its forecasts are wrong.
    pub risk: RiskSettings,
}

impl Default for ControlSettings {
    /// A decision a second, a plan every five minutes, two days ahead.
    fn default() -> (c: Self)
        ensures
            c.tick_period_s == 1,
            c.replan_every_s == 300,
            c.horizon_slots == 192,
            c.solve_budget_s == 10_000_000,
            c.preferences == (Preferences { co2_eur_per_kg: 0, autarky_eur_per_kwh: 0 }),
            c.risk == RiskSettings::Median,
    {
        ControlSettings {
            tick_period_s: 1,
            replan_every_s: 300,
            horizon_slots: 192,
            solve_budget_s: 10_000_000,
            preferences: Preferences::default(),
            risk: RiskSettings::default(),
        }
    }
}

impl ControlSettings {
    /// The control period, nanoseconds.
    pub fn tick_period(&self) -> (ns: i128)
        ensures
            ns == (self.tick_period_s as i64) * crate::clock::SECOND,
    {
        self.tick_period_s as i64 as i128 * crate::clock::SECOND
    }

    /// How often the loop turns, seconds: no more than once in one.
    pub fn turns_every_s(&self) -> (s: u64)
        ensures
            s == if self.tick_period_s < 1 {
                1
            } else {
                self.tick_period_s
            },
    {
        if self.tick_period_s < 1 {
            1
        } else {
            self.tick_period_s
        }
    }

    /// How long between plans, nanoseconds.
    pub fn replan_every(&self) -> (ns: i128)
        ensures
            ns == (self.replan_every_s as i64) * crate::clock::SECOND,
    {
        self.replan_every_s as i64 as i128 * crate::clock::SECOND
    }
}

// ── What a kilowatt-hour costs ──────────────────────────────────────────────

/// Which network-charge module the household chose.
#[derive(Debug, Clone, Copy, PartialEq, Eq, Structural)]
pub enum Modul {
    /// None at all.
    NoModul,
    /// A flat annual reduction.
    Modul1,
    /// A reduced working price, at a metering point of its own.
    Modul2,
    /// Charges that vary with the hour, on the operator's own calendar.
    Modul3,
}

impl Default for Modul {
    /// The flat annual reduction.
    fn default() -> (m: Self)
        ensures
            m == Modul::Modul1,
    {
        Modul::Modul1
    }
}

/// The operator's calendar, as an installer transcribes it.
#[derive(Debug)]
pub struct Modul3Settings {
    /// What the operator calls it.
    pub id: String,
    /// The calendar year it is for.
    pub year: i32,
    /// When the high tariff begins and ends, minutes of the day.
    pub hochtarif_minutes: [u16; 2],
    /// When the low tariff begins and ends, minutes of the day.
    pub niedertarif_minutes: [u16; 2],
    /// The quarters it is billed in.
    pub billed_quarters: Vec<String>,
    /// The high tariff, ct/kWh.
    pub ht_ct_per_kwh: Micros,
    /// The standard tariff, ct/kWh.
    pub st_ct_per_kwh: Micros,
    /// The low tariff, ct/kWh.
    pub nt_ct_per_kwh: Micros,
    /// Which document said so.
    pub source: Option<String>,
}

/// A quarter of a year.
#[derive(Debug, Clone, Copy, PartialEq, Eq, Structural)]
pub enum Quarter {
    /// January to March.
    Q1,
    /// April to June.
    Q2,
    /// July to September.
    Q3,
    /// October to December.
    Q4,
}

/// The quarter a text names.
pub open spec fn quarter_named(text: Seq<char>) -> Option<Quarter> {
    if text == "Q1"@ {
        Some(Quarter::Q1)
    } else if text == "Q2"@ {
        Some(Quarter::Q2)
    } else if text == "Q3"@ {
        Some(Quarter::Q3)
    } else if text == "Q4"@ {
        Some(Quarter::Q4)
    } else {
        None
    }
}

/// Whether every text of a list names a quarter.
pub open spec fn all_quarters(texts: Seq<String>) -> bool {
    forall|i: int| 0 <= i < texts.len() ==> quarter_named((#[trigger] texts[i])@) is Some
}

/// The quarters a list of texts names.
pub open spec fn quarters_named(texts: Seq<String>) -> Seq<Quarter> {
    Seq::new(texts.len(), |i: int| quarter_named(texts[i]@)->Some_0)
}

fn read_quarter(text: &str) -> (q: Option<Quarter>)
    ensures
        q == quarter_named(text@),
{
    if crate::text::same(text, "Q1") {
        Some(Quarter::Q1)
    } else if crate::text::same(text, "Q2") {
        Some(Quarter::Q2)
    } else if crate::text::same(text, "Q3") {
        Some(Quarter::Q3)
    } else if crate::text::same(text, "Q4") {
        Some(Quarter::Q4)
    } else {
        None
    }
}

impl Modul3Settings {
    /// The quarters the calendar is billed in; nothing where one of them is not
    /// one of the four, which is a typo and no empty list.
    pub fn quarters(&self) -> (r: Option<Vec<Quarter>>)
        ensures
            match r {
                Some(q) => all_quarters(self.billed_quarters@) && q@ == quarters_named(
                    self.billed_quarters@,
                ),
                None => !all_quarters(self.billed_quarters@),
            },
    {
        let mut quarters: Vec<Quarter> = Vec::new();
        let mut i: usize = 0;
        while i < self.billed_quarters.len()
            invariant
                i <= self.billed_quarters@.len(),
                quarters@.len() == i,
                forall|j: int|
                    0 <= j < i ==> quarter_named((#[trigger] self.billed_quarters@[j])@) == Some(
                        quarters@[j],
                    ),
            decreases self.billed_quarters@.len() - i,
        {
            match read_quarter(self.billed_quarters[i].as_str()) {
                Some(q) => {
                    quarters.push(q);
                },
                None => {
                    assert(quarter_named(self.billed_quarters@[i as int]@) is None);
                    return None;
                },
            }
            i = i + 1;
        }
        assert(quarters@ =~= quarters_named(self.billed_quarters@));
        Some(quarters)
    }
}

/// What the household pays and earns for a kilowatt-hour, net.
#[derive(Debug)]
pub struct TariffSettings {
    /// The supplier's markup on the day-ahead price, ct/kWh.
    pub markup_ct_per_kwh: Micros,
    /// What to expect where no day-ahead price is known, ct/kWh.
    pub fallback_ct_per_kwh: Micros,
    /// A fixed price in place of a dynamic one, ct/kWh.
    pub fixed_ct_per_kwh: Option<Micros>,
    /// The network working price, ct/kWh.
    pub network_ct_per_kwh: Micros,
    /// The network-charge module.
    pub modul: Modul,
    /// The operator's calendar, where the household is on one.
    pub modul3: Option<Modul3Settings>,
    /// The annual reduction, €.
    pub modul_1_reduction_eur_per_year: Micros,
    /// What exporting earns, ct/kWh; nothing means nothing is paid.
    pub feed_in_ct_per_kwh: Micros,
    /// The supplier's annual standing charge, €.
    pub standing_charge_eur_per_year: Micros,
}

impl Default for TariffSettings {
    /// An ordinary dynamic tariff of a household on the flat reduction.
    fn default() -> (t: Self)
        ensures
            t.is_ordinary(),
            t.markup_ct_per_kwh == 3_000_000,
            t.fallback_ct_per_kwh == 20_000_000,
            t.fixed_ct_per_kwh is None,
            t.network_ct_per_kwh == 10_000_000,
            t.modul == Modul::Modul1,
            t.modul3 is None,
            t.modul_1_reduction_eur_per_year == 120_000_000,
            t.feed_in_ct_per_kwh == 7_860_000,
            t.standing_charge_eur_per_year == 120_000_000,
    {
        TariffSettings {
            markup_ct_per_kwh: 3_000_000,
            fallback_ct_per_kwh: 20_000_000,
            fixed_ct_per_kwh: None,
            network_ct_per_kwh: 10_000_000,
            modul: Modul::Modul1,
            modul3: None,
            modul_1_reduction_eur_per_year: 120_000_000,
            feed_in_ct_per_kwh: 7_860_000,
            standing_charge_eur_per_year: 120_000_000,
        }
    }
}

/// What the energy itself costs.
#[derive(Debug)]
pub enum EnergyPrice {
    /// One price for every hour.
    Fixed {
        /// ct/kWh.
        ct_per_kwh: Exact,
    },
    /// The day-ahead price of the quarter hour, and what stands in for one.
    Dynamic {
        /// The prices that are known, by the number of the quarter hour.
        spot: BTreeMap<i64, Exact>,
        /// The supplier's markup, ct/kWh.
        markup_ct_per_kwh: Exact,
        /// What stands in for a price that is not known, ct/kWh.
        fallback_ct_per_kwh: Exact,
    },
}

/// What the network costs.
#[derive(Debug)]
pub enum NetworkCharge {
    /// One working price.
    Flat {
        /// ct/kWh.
        arbeitspreis: Exact,
    },
    /// One working price and an annual reduction.
    Modul1 {
        /// ct/kWh.
        arbeitspreis: Exact,
        /// € a year.
        reduction_eur_per_year: Exact,
    },
    /// A share of the working price, and a metering point of its own.
    Modul2 {
        /// ct/kWh.
        arbeitspreis: Exact,
        /// The share that remains.
        remaining_share: Exact,
        /// € a year.
        metering_eur_per_year: Exact,
    },
    /// Three prices on a calendar, and the annual reduction that comes with it.
    Modul3 {
        /// The calendar year it is for.
        year: i32,
        /// When the high tariff begins and ends, minutes of the day.
        hochtarif_minutes: [u16; 2],
        /// When the low tariff begins and ends, minutes of the day.
        niedertarif_minutes: [u16; 2],
        /// The quarters it is billed in.
        quarters: Vec<Quarter>,
        /// The high tariff, ct/kWh.
        ht: Exact,
        /// The standard tariff, ct/kWh.
        st: Exact,
        /// The low tariff, ct/kWh.
        nt: Exact,
        /// € a year.
        reduction_eur_per_year: Exact,
    },
}

/// What exporting earns.
#[derive(Debug, Clone, Copy, PartialEq, Eq, Structural)]
pub struct FeedIn {
    /// What a kilowatt-hour earns, ct; nothing where nothing is paid.
    pub paid: Option<Exact>,
    /// The day from which negative quarter hours earn nothing, where one is.
    pub para51_from: Option<i32>,
}

/// The whole price of a kilowatt-hour.
#[derive(Debug)]
pub struct Tariff {
    /// The energy.
    pub energy: EnergyPrice,
    /// The network.
    pub network: NetworkCharge,
    /// What exporting earns.
    pub feed_in: FeedIn,
    /// The supplier's annual standing charge, €.
    pub standing_charge_eur_per_year: Exact,
}

/// A figure in millionths to four decimal places, halves to the even one.
pub open spec fn four_places(micro: int) -> int {
    if micro < 0 {
        -(crate::text::nearest((-micro) as nat, 100) as int)
    } else {
        crate::text::nearest(micro as nat, 100) as int
    }
}

/// `rust_decimal`'s `Decimal::new` with six decimal places and its `round_dp` to
/// four: halves go to the even digit, on either side of nothing. The result is the
/// `mantissa` of what comes back, which has four decimal places.
#[verifier::external_body]
fn round_to_four(micro: i64) -> (r: i128)
    ensures
        r == four_places(micro as int),
{
    rust_decimal::Decimal::new(micro, 6).round_dp(4).mantissa()
}

/// The price a figure is billed at: four decimal places.
pub open spec fn priced(micro: int) -> Exact {
    Exact { mantissa: four_places(micro) as i128, scale: 4 }
}

fn ct(micro: i64) -> (r: Exact)
    ensures
        r == priced(micro as int),
{
    Exact { mantissa: round_to_four(micro), scale: 4 }
}

/// A price is billed within half a unit of its fourth decimal place of what was
/// configured.
pub proof fn a_price_is_billed_to_the_fourth_place(micro: int)
    ensures
        -50 <= 100 * four_places(micro) - micro <= 50,
{
}

impl TariffSettings {
    /// Whether these are the settings of a household nobody asked: a dynamic tariff
    /// with an ordinary markup, and the flat reduction.
    pub open spec fn is_ordinary(self) -> bool {
        &&& self.markup_ct_per_kwh == 3_000_000
        &&& self.fallback_ct_per_kwh == 20_000_000
        &&& self.fixed_ct_per_kwh is None
        &&& self.network_ct_per_kwh == 10_000_000
        &&& self.modul == Modul::Modul1
        &&& self.modul3 is None
        &&& self.modul_1_reduction_eur_per_year == 120_000_000
        &&& self.feed_in_ct_per_kwh == 7_860_000
        &&& self.standing_charge_eur_per_year == 120_000_000
    }

    /// What the energy costs under these settings.
    pub open spec fn energy_price(self, spot: Map<i64, Exact>, energy: EnergyPrice) -> bool {
        match self.fixed_ct_per_kwh {
            Some(fixed) => energy == EnergyPrice::Fixed { ct_per_kwh: priced(fixed as int) },
            None => {
                &&& energy matches EnergyPrice::Dynamic {
                    spot: known,
                    markup_ct_per_kwh,
                    fallback_ct_per_kwh,
                }
                &&& known@ == spot
                &&& markup_ct_per_kwh == priced(self.markup_ct_per_kwh as int)
                &&& fallback_ct_per_kwh == priced(self.fallback_ct_per_kwh as int)
            },
        }
    }

    /// What the network costs under these settings. A calendar that cannot be read
    /// is a flat charge: it prices every hour the same, so that nothing is moved
    /// for a spread nobody can see.
    pub open spec fn network_charge(self, network: NetworkCharge) -> bool {
        let flat = NetworkCharge::Flat { arbeitspreis: priced(self.network_ct_per_kwh as int) };
        match self.modul {
            Modul::NoModul => network == flat,
            Modul::Modul1 => network == NetworkCharge::Modul1 {
                arbeitspreis: priced(self.network_ct_per_kwh as int),
                reduction_eur_per_year: priced(self.modul_1_reduction_eur_per_year as int),
            },
            Modul::Modul2 => network == NetworkCharge::Modul2 {
                arbeitspreis: priced(self.network_ct_per_kwh as int),
                remaining_share: Exact { mantissa: 4, scale: 1 },
                metering_eur_per_year: Exact { mantissa: 25, scale: 0 },
            },
            Modul::Modul3 => match self.modul3 {
                Some(m) if all_quarters(m.billed_quarters@) => {
                    &&& network matches NetworkCharge::Modul3 {
                        year,
                        hochtarif_minutes,
                        niedertarif_minutes,
                        quarters,
                        ht,
                        st,
                        nt,
                        reduction_eur_per_year,
                    }
                    &&& year == m.year
                    &&& hochtarif_minutes == m.hochtarif_minutes
                    &&& niedertarif_minutes == m.niedertarif_minutes
                    &&& quarters@ == quarters_named(m.billed_quarters@)
                    &&& ht == priced(m.ht_ct_per_kwh as int)
                    &&& st == priced(m.st_ct_per_kwh as int)
                    &&& nt == priced(m.nt_ct_per_kwh as int)
                    &&& reduction_eur_per_year == priced(
                        self.modul_1_reduction_eur_per_year as int,
                    )
                },
                _ => network == flat,
            },
        }
    }

    /// Whether a tariff is what these settings come to, with the wholesale prices
    /// that are known and the day from which negative hours are not paid for.
    pub open spec fn makes(
        self,
        spot: Map<i64, Exact>,
        para51_from: Option<i32>,
        t: Tariff,
    ) -> bool {
        &&& self.energy_price(spot, t.energy)
        &&& self.network_charge(t.network)
        &&& t.feed_in.paid == if self.feed_in_ct_per_kwh > 0 {
            Some(priced(self.feed_in_ct_per_kwh as int))
        } else {
            None
        }
        &&& t.feed_in.para51_from == para51_from
        &&& t.standing_charge_eur_per_year == priced(self.standing_charge_eur_per_year as int)
    }

    /// The tariff these settings describe, priced against the spot curve where it
    /// has a price. `para51_from` is the day the plant's negative quarter hours
    /// stop earning, which no supplier agrees and no tariff knows.
    pub fn tariff(&self, spot: BTreeMap<i64, Exact>, para51_from: Option<i32>) -> (t: Tariff)
        ensures
            self.makes(spot@, para51_from, t),
    {
        let energy = match self.fixed_ct_per_kwh {
            Some(fixed) => EnergyPrice::Fixed { ct_per_kwh: ct(fixed) },
            None => EnergyPrice::Dynamic {
                spot,
                markup_ct_per_kwh: ct(self.markup_ct_per_kwh),
                fallback_ct_per_kwh: ct(self.fallback_ct_per_kwh),
            },
        };
        let network = match self.modul {
            Modul::NoModul => NetworkCharge::Flat { arbeitspreis: ct(self.network_ct_per_kwh) },
            Modul::Modul1 => NetworkCharge::Modul1 {
                arbeitspreis: ct(self.network_ct_per_kwh),
                reduction_eur_per_year: ct(self.modul_1_reduction_eur_per_year),
            },
            Modul::Modul2 => NetworkCharge::Modul2 {
                arbeitspreis: ct(self.network_ct_per_kwh),
                remaining_share: Exact { mantissa: 4, scale: 1 },
                metering_eur_per_year: Exact { mantissa: 25, scale: 0 },
            },
            Modul::Modul3 => self.on_a_calendar(),
        };
        let paid = if self.feed_in_ct_per_kwh > 0 {
            Some(ct(self.feed_in_ct_per_kwh))
        } else {
            None
        };
        Tariff {
            energy,
            network,
            feed_in: FeedIn { paid, para51_from },
            standing_charge_eur_per_year: ct(self.standing_charge_eur_per_year),
        }
    }

    fn on_a_calendar(&self) -> (network: NetworkCharge)
        requires
            self.modul == Modul::Modul3,
        ensures
            self.network_charge(network),
    {
        if let Some(m) = &self.modul3 {
            if let Some(quarters) = m.quarters() {
                return NetworkCharge::Modul3 {
                    year: m.year,
                    hochtarif_minutes: m.hochtarif_minutes,
                    niedertarif_minutes: m.niedertarif_minutes,
                    quarters,
                    ht: ct(m.ht_ct_per_kwh),
                    st: ct(m.st_ct_per_kwh),
                    nt: ct(m.nt_ct_per_kwh),
                    reduction_eur_per_year: ct(self.modul_1_reduction_eur_per_year),
                };
            }
        }
        NetworkCharge::Flat { arbeitspreis: ct(self.network_ct_per_kwh) }
    }
}

// ── The fleet ───────────────────────────────────────────────────────────────

/// Where the box asks for prices and weather. Both are optional: a box with
/// neither still manages the house, and what it loses is the plan.
#[derive(Debug)]
pub struct FleetSettings {
    /// The base address prices are asked for at.
    pub tariffd_url: Option<String>,
    /// The base address the weather is asked for at.
    pub forecastd_url: Option<String>,
    /// Which of the weather service's locations is this household's.
    pub location: Option<String>,
    /// How long a request may take, seconds.
    pub request_timeout_s: u64,
}

/// How long a request may take where nobody said.
pub fn default_request_timeout_s() -> (s: u64)
    ensures
        s == 10,
{
    10
}

impl Default for FleetSettings {
    /// Nobody to ask. The time-out is the numeric default, which whoever asks
    /// raises to one second.
    fn default() -> (s: Self)
        ensures
            s.tariffd_url is None,
            s.forecastd_url is None,
            s.location is None,
            s.request_timeout_s == 0,
    {
        FleetSettings {
            tariffd_url: None,
            forecastd_url: None,
            location: None,
            request_timeout_s: 0,
        }
    }
}

// ── The house ───────────────────────────────────────────────────────────────

/// How a heat pump takes instructions, as a configuration spells it.
#[derive(Debug, Clone, Copy, PartialEq, Eq, Structural)]
pub enum HeatPumpInterface {
    /// Two relay contacts.
    SgReady,
    /// A continuous ceiling.
    PowerCeiling,
    /// Discrete modes.
    OperationModes,
    /// A process the box starts and stops.
    Compressor,
}

impl Default for HeatPumpInterface {
    /// The one thing every heat pump of the kind understands.
    fn default() -> (i: Self)
        ensures
            i == HeatPumpInterface::PowerCeiling,
    {
        HeatPumpInterface::PowerCeiling
    }
}

/// How a heat pump takes instructions, as the house has it.
pub open spec fn control_of(interface: HeatPumpInterface) -> HeatPumpControl {
    match interface {
        HeatPumpInterface::SgReady => HeatPumpControl::SgReady,
        HeatPumpInterface::PowerCeiling => HeatPumpControl::PowerCeiling,
        HeatPumpInterface::OperationModes => HeatPumpControl::OperationModes,
        HeatPumpInterface::Compressor => HeatPumpControl::Compressor,
    }
}

impl HeatPumpInterface {
    /// How the house has it.
    pub fn control(self) -> (c: HeatPumpControl)
        ensures
            c == control_of(self),
    {
        match self {
            HeatPumpInterface::SgReady => HeatPumpControl::SgReady,
            HeatPumpInterface::PowerCeiling => HeatPumpControl::PowerCeiling,
            HeatPumpInterface::OperationModes => HeatPumpControl::OperationModes,
            HeatPumpInterface::Compressor => HeatPumpControl::Compressor,
        }
    }

    /// How a configuration spells it.
    pub fn spelling(control: HeatPumpControl) -> (i: HeatPumpInterface)
        ensures
            control_of(i) == control,
    {
        match control {
            HeatPumpControl::SgReady => HeatPumpInterface::SgReady,
            HeatPumpControl::PowerCeiling => HeatPumpInterface::PowerCeiling,
            HeatPumpControl::OperationModes => HeatPumpInterface::OperationModes,
            HeatPumpControl::Compressor => HeatPumpInterface::Compressor,
        }
    }
}

/// The federal states, whose public holidays decide a day's type.
#[derive(Debug, Clone, Copy, PartialEq, Eq, Structural)]
pub enum Bundesland {
    /// Brandenburg.
    Bb,
    /// Berlin.
    Be,
    /// Baden-Württemberg.
    Bw,
    /// Bayern.
    By,
    /// Bremen.
    Hb,
    /// Hessen.
    He,
    /// Hamburg.
    Hh,
    /// Mecklenburg-Vorpommern.
    Mv,
    /// Niedersachsen.
    Ni,
    /// Nordrhein-Westfalen.
    Nw,
    /// Rheinland-Pfalz.
    Rp,
    /// Schleswig-Holstein.
    Sh,
    /// Saarland.
    Sl,
    /// Sachsen.
    Sn,
    /// Sachsen-Anhalt.
    St,
    /// Thüringen.
    Th,
}

/// The house, in the units its paperwork is written in. A size of nothing means
/// that the household has no such device.
#[derive(Debug)]
pub struct SiteSettings {
    /// Installed photovoltaic power, kWp.
    pub pv_kwp: Micros,
    /// The inverter's limit, kW.
    pub pv_ac_kw: Micros,
    /// Battery capacity, kWh.
    pub battery_kwh: Micros,
    /// Battery power in both directions, kW.
    pub battery_kw: Micros,
    /// The share of the battery held back for a power cut.
    pub reserve_soc: Micros,
    /// What a kilowatt-hour of battery throughput costs in wear, €/kWh.
    pub battery_wear_eur_per_kwh: Micros,
    /// The main fuse, A per conductor.
    pub fuse_a: Micros,
    /// The federal state.
    pub bundesland: Bundesland,
    /// Degrees north.
    pub latitude: Micros,
    /// Degrees east.
    pub longitude: Micros,
    /// Metres above the sea.
    pub altitude_m: Micros,
    /// Electrical power of the heat pump at full output, kW.
    pub heat_pump_kw: Micros,
    /// Whether it modulates.
    pub heat_pump_modulating: bool,
    /// How it takes instructions.
    pub heat_pump_control: HeatPumpInterface,
    /// The bottom of the comfort band, °C.
    pub comfort_min_c: Micros,
    /// The top of it, °C.
    pub comfort_max_c: Micros,
    /// Volume of the hot-water tank, litres.
    pub dhw_litres: Micros,
    /// Electrical power of its heater, kW.
    pub dhw_heater_kw: Micros,
    /// The charge point's largest current per conductor, A.
    pub evse_max_a: Micros,
    /// Whether it can drop to a single conductor.
    pub evse_switchable: bool,
    /// Where the household asks its car to stop.
    pub ev_charge_limit: Option<Micros>,
    /// Whether a metering system with a control device is in operation.
    pub imsys_control_device: bool,
    /// The date a metering system was put into operation.
    pub imsys_since: Option<String>,
    /// What a shiftable appliance draws, kW, one quarter hour after the other.
    pub dishwasher_kw_steps: Vec<Micros>,
}

/// Why a configuration does not describe a house.
#[derive(Debug)]
pub enum SettingsError {
    /// A fraction was given outside of one.
    NotAFraction {
        /// Which field.
        field: String,
        /// What was given.
        value: String,
    },
    /// A date was given that is not one.
    NotADate {
        /// Which field.
        field: String,
        /// What was given.
        value: String,
    },
    /// The comfort band is upside down.
    NotABand {
        /// The bottom, °C.
        min: Micros,
        /// The top, °C.
        max: Micros,
    },
}

impl SettingsError {
    /// What the error says.
    pub open spec fn said(self) -> Seq<char> {
        match self {
            SettingsError::NotAFraction { field, value } => field@ + " is "@ + value@
                + ", and a fraction is between 0 and 1"@,
            SettingsError::NotADate { field, value } => field@ + " is "@
                + crate::text::quoted_text(value@)
                + ", which is not an RFC 3339 date like 2024-06-01"@,
            SettingsError::NotABand { min, max } => "the comfort band is "@ + crate::text::plain(
                min as int,
            ) + " °C to "@ + crate::text::plain(max as int) + " °C, which is not a band"@,
        }
    }

    /// What the error says.
    pub fn message(&self) -> (out: String)
        ensures
            out@ == self.said(),
    {
        let mut out = String::new();
        match self {
            SettingsError::NotAFraction { field, value } => {
                out.append(field.as_str());
                out.append(" is ");
                out.append(value.as_str());
                out.append(", and a fraction is between 0 and 1");
            },
            SettingsError::NotADate { field, value } => {
                out.append(field.as_str());
                out.append(" is ");
                out.append(quoted(value.as_str()).as_str());
                out.append(", which is not an RFC 3339 date like 2024-06-01");
            },
            SettingsError::NotABand { min, max } => {
                out.append("the comfort band is ");
                push_plain(&mut out, *min);
                out.append(" °C to ");
                push_plain(&mut out, *max);
                out.append(" °C, which is not a band");
            },
        }
        assert(out@ =~= self.said());
        out
    }
}

fn fraction(field: &str, value: Micros) -> (r: Result<Micros, SettingsError>)
    ensures
        if crate::site::is_fraction(value as int) {
            r == Ok::<Micros, SettingsError>(value)
        } else {
            r matches Err(SettingsError::NotAFraction { field: f, value: v }) && f@ == field@ && v@
                == crate::text::plain(value as int)
        },
{
    if 0 <= value && value <= crate::site::WHOLE {
        Ok(value)
    } else {
        let mut text = String::new();
        push_plain(&mut text, value);
        assert(text@ =~= crate::text::plain(value as int));
        Err(SettingsError::NotAFraction { field: field.to_owned(), value: text })
    }
}

impl SiteSettings {
    /// Whether the household has a battery.
    pub open spec fn has_battery(self) -> bool {
        self.battery_kwh > 0 && self.battery_kw > 0
    }

    /// Whether the household is the one these settings describe, with a metering
    /// system fitted on some day or not at all.
    pub open spec fn describes(self, h: HouseholdConfig, imsys_since: Option<i32>) -> bool {
        &&& h.pv == if self.pv_kwp > 0 {
            Some(
                PvConfig {
                    kwp: self.pv_kwp,
                    ac_nominal: self.pv_ac_kw,
                    para9: Para9Status { imsys_since, relieved: self.imsys_control_device },
                },
            )
        } else {
            None
        }
        &&& h.battery == if self.has_battery() {
            Some(
                BatteryConfig {
                    kwh: self.battery_kwh,
                    power: self.battery_kw,
                    reserve_soc: self.reserve_soc,
                    wear_eur_per_kwh: self.battery_wear_eur_per_kwh,
                },
            )
        } else {
            None
        }
        &&& h.evse == if self.evse_max_a > 0 {
            Some(
                EvseConfig {
                    max_current: self.evse_max_a,
                    switchable: self.evse_switchable,
                    charge_limit: self.ev_charge_limit,
                },
            )
        } else {
            None
        }
        &&& h.heat_pump == if self.heat_pump_kw > 0 {
            Some(
                HeatPumpConfig {
                    power: self.heat_pump_kw,
                    modulating: self.heat_pump_modulating,
                    comfort_min_c: self.comfort_min_c,
                    comfort_max_c: self.comfort_max_c,
                    control: control_of(self.heat_pump_control),
                },
            )
        } else {
            None
        }
        &&& h.dhw == if self.dhw_litres > 0 && self.dhw_heater_kw > 0 {
            Some(DhwConfig { litres: self.dhw_litres, heater: self.dhw_heater_kw })
        } else {
            None
        }
        &&& h.fuse == self.fuse_a
        &&& h.location == (GeoPoint {
            latitude: self.latitude,
            longitude: self.longitude,
            altitude_m: self.altitude_m,
        })
        &&& match h.dishwasher {
            Some(steps) => steps@ == self.dishwasher_kw_steps@ && steps@.len() > 0,
            None => self.dishwasher_kw_steps@.len() == 0,
        }
    }

    /// What these settings come to, where the date of the metering system reads as
    /// it does: nothing where no date is configured, and no day where the text is
    /// not one.
    pub open spec fn is_household(
        self,
        read: Option<Option<i32>>,
        r: Result<HouseholdConfig, SettingsError>,
    ) -> bool {
        if self.comfort_max_c < self.comfort_min_c {
            r == Err::<HouseholdConfig, SettingsError>(
                SettingsError::NotABand { min: self.comfort_min_c, max: self.comfort_max_c },
            )
        } else if read == Some(None::<i32>) {
            r matches Err(SettingsError::NotADate { field, value }) && field@ == "imsys_since"@
                && Some(value@) == crate::runtime::fleet::told(self.imsys_since)
        } else if self.has_battery() && !crate::site::is_fraction(self.reserve_soc as int) {
            r matches Err(SettingsError::NotAFraction { field, value }) && field@ == "reserve_soc"@
                && value@ == crate::text::plain(self.reserve_soc as int)
        } else if self.evse_max_a > 0 && (self.ev_charge_limit matches Some(limit)
            && !crate::site::is_fraction(limit as int)) {
            r matches Err(SettingsError::NotAFraction { field, value }) && field@
                == "ev_charge_limit"@ && value@ == crate::text::plain(
                self.ev_charge_limit->Some_0 as int,
            )
        } else {
            r matches Ok(h) && self.describes(
                h,
                match read {
                    Some(day) => day,
                    None => None,
                },
            )
        }
    }

    /// What the configured date of the metering system reads as.
    pub open spec fn read_since(self) -> Option<Option<i32>> {
        match self.imsys_since {
            Some(date) => Some(crate::clock::iso_day(date@)),
            None => None,
        }
    }

    /// The household this describes, or the typo it holds.
    pub fn household(&self) -> (r: Result<HouseholdConfig, SettingsError>)
        ensures
            self.is_household(self.read_since(), r),
    {
        let read = match &self.imsys_since {
            Some(date) => Some(parse_day(date.as_str())),
            None => None,
        };
        self.household_since(read)
    }

    /// The household this describes, where the date of the metering system reads
    /// as it does.
    pub fn household_since(&self, read: Option<Option<i32>>) -> (r: Result<
        HouseholdConfig,
        SettingsError,
    >)
        requires
            read is Some <==> self.imsys_since is Some,
        ensures
            self.is_household(read, r),
    {
        if self.comfort_max_c < self.comfort_min_c {
            return Err(
                SettingsError::NotABand { min: self.comfort_min_c, max: self.comfort_max_c },
            );
        }
        let imsys_since = match read {
            Some(Some(day)) => Some(day),
            Some(None) => {
                let value = match &self.imsys_since {
                    Some(date) => date.clone(),
                    None => String::new(),
                };
                return Err(SettingsError::NotADate { field: "imsys_since".to_owned(), value });
            },
            None => None,
        };
        let para9 = Para9Status { imsys_since, relieved: self.imsys_control_device };
        let pv = if self.pv_kwp > 0 {
            Some(PvConfig { kwp: self.pv_kwp, ac_nominal: self.pv_ac_kw, para9 })
        } else {
            None
        };
        let battery = if self.battery_kwh > 0 && self.battery_kw > 0 {
            let reserve_soc: Micros = match fraction("reserve_soc", self.reserve_soc) {
                Ok(share) => share,
                Err(e) => {
                    return Err(e);
                },
            };
            Some(
                BatteryConfig {
                    kwh: self.battery_kwh,
                    power: self.battery_kw,
                    reserve_soc,
                    wear_eur_per_kwh: self.battery_wear_eur_per_kwh,
                },
            )
        } else {
            None
        };
        let evse = if self.evse_max_a > 0 {
            let charge_limit = match self.ev_charge_limit {
                Some(limit) => match fraction("ev_charge_limit", limit) {
                    Ok(share) => Some(share),
                    Err(e) => {
                        return Err(e);
                    },
                },
                None => None,
            };
            Some(
                EvseConfig {
                    max_current: self.evse_max_a,
                    switchable: self.evse_switchable,
                    charge_limit,
                },
            )
        } else {
            None
        };
        let heat_pump = if self.heat_pump_kw > 0 {
            Some(
                HeatPumpConfig {
                    power: self.heat_pump_kw,
                    modulating: self.heat_pump_modulating,
                    comfort_min_c: self.comfort_min_c,
                    comfort_max_c: self.comfort_max_c,
                    control: self.heat_pump_control.control(),
                },
            )
        } else {
            None
        };
        let dhw = if self.dhw_litres > 0 && self.dhw_heater_kw > 0 {
            Some(DhwConfig { litres: self.dhw_litres, heater: self.dhw_heater_kw })
        } else {
            None
        };
        let dishwasher = if self.dishwasher_kw_steps.len() > 0 {
            Some(copied_steps(&self.dishwasher_kw_steps))
        } else {
            None
        };
        Ok(
            HouseholdConfig {
                pv,
                battery,
                evse,
                heat_pump,
                dhw,
                fuse: self.fuse_a,
                location: GeoPoint {
                    latitude: self.latitude,
                    longitude: self.longitude,
                    altitude_m: self.altitude_m,
                },
                dishwasher,
            },
        )
    }

    /// Whether these settings describe a household with every device, its metering
    /// system fitted on the first of June 2024 and its cap not lifted.
    pub open spec fn is_description_of(self, reference: HouseholdConfig) -> bool {
        &&& self.pv_kwp == reference.pv->Some_0.kwp
        &&& self.pv_ac_kw == reference.pv->Some_0.ac_nominal
        &&& self.battery_kwh == reference.battery->Some_0.kwh
        &&& self.battery_kw == reference.battery->Some_0.power
        &&& self.reserve_soc == reference.battery->Some_0.reserve_soc
        &&& self.bundesland == Bundesland::Be
        &&& self.battery_wear_eur_per_kwh == reference.battery->Some_0.wear_eur_per_kwh
        &&& self.fuse_a == reference.fuse
        &&& self.latitude == reference.location.latitude
        &&& self.longitude == reference.location.longitude
        &&& self.altitude_m == reference.location.altitude_m
        &&& self.heat_pump_kw == reference.heat_pump->Some_0.power
        &&& self.heat_pump_modulating == reference.heat_pump->Some_0.modulating
        &&& control_of(self.heat_pump_control) == reference.heat_pump->Some_0.control
        &&& self.comfort_min_c == reference.heat_pump->Some_0.comfort_min_c
        &&& self.comfort_max_c == reference.heat_pump->Some_0.comfort_max_c
        &&& self.dhw_litres == reference.dhw->Some_0.litres
        &&& self.dhw_heater_kw == reference.dhw->Some_0.heater
        &&& self.evse_max_a == reference.evse->Some_0.max_current
        &&& self.evse_switchable == reference.evse->Some_0.switchable
        &&& self.ev_charge_limit == reference.evse->Some_0.charge_limit
        &&& !self.imsys_control_device
        &&& self.imsys_since matches Some(date) && date@ == "2024-06-01"@
        &&& self.dishwasher_kw_steps@ == match reference.dishwasher {
            Some(steps) => steps@,
            None => Seq::empty(),
        }
    }

    /// The settings that describe a household which has every device, with its
    /// metering system fitted on the first of June 2024 and its cap not lifted: the
    /// operator's own test is a different event on a different clock.
    pub fn describing(reference: &HouseholdConfig) -> (s: SiteSettings)
        requires
            is_complete(*reference),
        ensures
            s.is_description_of(*reference),
    {
        let pv = reference.pv.unwrap();
        let battery = reference.battery.unwrap();
        let evse = reference.evse.unwrap();
        let heat_pump = reference.heat_pump.unwrap();
        let dhw = reference.dhw.unwrap();
        SiteSettings {
            pv_kwp: pv.kwp,
            pv_ac_kw: pv.ac_nominal,
            battery_kwh: battery.kwh,
            battery_kw: battery.power,
            reserve_soc: battery.reserve_soc,
            battery_wear_eur_per_kwh: battery.wear_eur_per_kwh,
            fuse_a: reference.fuse,
            bundesland: Bundesland::Be,
            latitude: reference.location.latitude,
            longitude: reference.location.longitude,
            altitude_m: reference.location.altitude_m,
            heat_pump_kw: heat_pump.power,
            heat_pump_modulating: heat_pump.modulating,
            heat_pump_control: HeatPumpInterface::spelling(heat_pump.control),
            comfort_min_c: heat_pump.comfort_min_c,
            comfort_max_c: heat_pump.comfort_max_c,
            dhw_litres: dhw.litres,
            dhw_heater_kw: dhw.heater,
            evse_max_a: evse.max_current,
            evse_switchable: evse.switchable,
            ev_charge_limit: evse.charge_limit,
            imsys_control_device: false,
            imsys_since: Some("2024-06-01".to_owned()),
            dishwasher_kw_steps: match &reference.dishwasher {
                Some(steps) => copied_steps(steps),
                None => Vec::new(),
            },
        }
    }
}

fn copied_steps(steps: &Vec<Micros>) -> (r: Vec<Micros>)
    ensures
        r@ == steps@,
{
    let mut r: Vec<Micros> = Vec::new();
    let mut i: usize = 0;
    while i < steps.len()
        invariant
            i <= steps@.len(),
            r@ =~= steps@.take(i as int),
        decreases steps@.len() - i,
    {
        r.push(steps[i]);
        i = i + 1;
    }
    assert(r@ =~= steps@);
    r
}

/// Whether a household has every device.
pub open spec fn is_complete(h: HouseholdConfig) -> bool {
    h.pv is Some && h.battery is Some && h.evse is Some && h.heat_pump is Some && h.dhw is Some
}

/// Whether every device of a household has a size, every share is one and the
/// comfort band is a band.
pub open spec fn is_sound(h: HouseholdConfig) -> bool {
    &&& is_complete(h)
    &&& h.pv->Some_0.kwp > 0
    &&& h.battery->Some_0.kwh > 0 && h.battery->Some_0.power > 0
    &&& crate::site::is_fraction(h.battery->Some_0.reserve_soc as int)
    &&& h.evse->Some_0.max_current > 0
    &&& h.evse->Some_0.charge_limit matches Some(limit) ==> crate::site::is_fraction(limit as int)
    &&& h.heat_pump->Some_0.power > 0
    &&& h.heat_pump->Some_0.comfort_min_c <= h.heat_pump->Some_0.comfort_max_c
    &&& h.dhw->Some_0.litres > 0 && h.dhw->Some_0.heater > 0
    &&& h.dishwasher matches Some(steps) ==> steps@.len() > 0
}

/// Whether two households are the same.
pub open spec fn same_household(a: HouseholdConfig, b: HouseholdConfig) -> bool {
    &&& a.pv == b.pv
    &&& a.battery == b.battery
    &&& a.evse == b.evse
    &&& a.heat_pump == b.heat_pump
    &&& a.dhw == b.dhw
    &&& a.fuse == b.fuse
    &&& a.location == b.location
    &&& match (a.dishwasher, b.dishwasher) {
        (Some(x), Some(y)) => x@ == y@,
        (None, None) => true,
        _ => false,
    }
}

/// The settings that describe a household describe that household: what a box with
/// no configuration manages is the house every figure was measured on. `read` is
/// what the date of the metering system reads as.
pub proof fn a_described_household_reads_back(
    reference: HouseholdConfig,
    s: SiteSettings,
    day: i32,
    r: Result<HouseholdConfig, SettingsError>,
)
    requires
        is_sound(reference),
        reference.pv->Some_0.para9 == (Para9Status { imsys_since: Some(day), relieved: false }),
        s.is_description_of(reference),
        s.is_household(Some(Some(day)), r),
    ensures
        r matches Ok(h) && same_household(h, reference),
{
}

/// A size of nothing is the absence of the device, and of no other.
pub proof fn a_size_of_nothing_is_an_absence(
    s: SiteSettings,
    read: Option<Option<i32>>,
    h: HouseholdConfig,
)
    requires
        s.is_household(read, Ok(h)),
    ensures
        h.pv is None <==> s.pv_kwp <= 0,
        h.battery is None <==> s.battery_kwh <= 0 || s.battery_kw <= 0,
        h.evse is None <==> s.evse_max_a <= 0,
        h.heat_pump is None <==> s.heat_pump_kw <= 0,
        h.dhw is None <==> s.dhw_litres <= 0 || s.dhw_heater_kw <= 0,
        h.dishwasher is None <==> s.dishwasher_kw_steps@.len() == 0,
{
}

// ── The devices ─────────────────────────────────────────────────────────────

/// The unit identifier where nobody said.
pub fn default_unit() -> (n: u8)
    ensures
        n == 1,
{
    1
}

/// How often a device is read where nobody said, milliseconds.
pub fn default_poll_ms() -> (ms: u64)
    ensures
        ms == 1_000,
{
    1_000
}

/// How long an unanswered request may stand where nobody said, milliseconds.
pub fn default_timeout_ms() -> (ms: u64)
    ensures
        ms == 5_000,
{
    5_000
}

/// How long a failsafe is held where nobody said, hours.
pub fn default_failsafe_hours() -> (h: u64)
    ensures
        h == 2,
{
    2
}

/// When the car leaves where nobody said.
pub fn default_departure() -> (s: String)
    ensures
        s@ == "07:00"@,
{
    "07:00".to_owned()
}

/// How full the car should be then where nobody said.
pub fn default_charge_target() -> (share: Micros)
    ensures
        share == 800_000,
{
    800_000
}

/// One register of a device, as an installer transcribes it.
#[derive(Debug)]
pub struct Point {
    /// Where it is.
    pub register: u16,
    /// What one step of it is worth.
    pub scale: Micros,
    /// What it measures.
    pub field: String,
}

/// A device read through a declared register map.
#[derive(Debug)]
pub struct RegisterSettings {
    /// Which asset of the site this is.
    pub asset: String,
    /// Where to dial.
    pub address: String,
    /// The unit identifier.
    pub unit: u8,
    /// How often to read the whole map, milliseconds.
    pub poll_ms: u64,
    /// How long an unanswered read may stand, milliseconds.
    pub timeout_ms: u64,
    /// The map.
    pub points: Vec<Point>,
}

/// A heat-pump compressor on the household's own network.
#[derive(Debug)]
pub struct EebusHeatPumpSettings {
    /// Which asset of the site this is.
    pub asset: String,
    /// Where to dial.
    pub address: String,
    /// The heat pump's own identifier, as printed on it.
    pub ski: String,
    /// How this box names itself to it.
    pub spine_vendor: Option<String>,
    /// What distinguishes this box from the next one off the same line.
    pub spine_unique: Option<String>,
}

/// A hot-water circuit on the household's own network.
#[derive(Debug)]
pub struct EebusDhwSettings {
    /// Which asset of the site this is.
    pub asset: String,
    /// Where to dial.
    pub address: String,
    /// The circuit's own identifier, as printed on it.
    pub ski: String,
    /// How this box names itself to it.
    pub spine_vendor: Option<String>,
    /// What distinguishes this box from the next one off the same line.
    pub spine_unique: Option<String>,
}

/// A charge point on the household's own network.
#[derive(Debug)]
pub struct EebusEvSettings {
    /// Which asset of the site this is.
    pub asset: String,
    /// Where to dial.
    pub address: String,
    /// The charge point's own identifier, as printed on it.
    pub ski: String,
    /// What time of day the car has to be charged by, hours and minutes.
    pub departure: String,
    /// How full the car should be then.
    pub target_soc: Micros,
    /// How this box names itself to it.
    pub spine_vendor: Option<String>,
    /// What distinguishes this box from the next one off the same line.
    pub spine_unique: Option<String>,
}

/// A device that publishes its own model, on an address.
#[derive(Debug)]
pub struct SunspecSettings {
    /// Which asset of the site this is.
    pub asset: String,
    /// Where to dial.
    pub address: String,
    /// The unit identifier.
    pub unit: u8,
    /// How often a full read is issued, milliseconds.
    pub poll_ms: u64,
    /// How long an unanswered request may stand, milliseconds.
    pub timeout_ms: u64,
    /// Read and never write.
    pub listens_only: bool,
    /// The inverter's rating, kW, for curtailment.
    pub rating_kw: Option<Micros>,
}

/// The household side of a network operator's control box.
#[derive(Debug)]
pub struct EebusSettings {
    /// Which asset the limit applies to.
    pub asset: String,
    /// What the household restrains itself to when the operator goes quiet, kW.
    pub failsafe_kw: Option<Micros>,
    /// How long the failsafe is held at least, hours.
    pub failsafe_hours: u64,
    /// How this box names itself on the network.
    pub spine_vendor: Option<String>,
    /// What distinguishes this box from the next one off the same line.
    pub spine_unique: Option<String>,
}

/// One driver, and where to find the device it speaks for.
#[derive(Debug)]
pub enum DriverSettings {
    /// An inverter, a meter or a battery that publishes its own model.
    Sunspec(SunspecSettings),
    /// The household side of a network operator's control box.
    EebusLpc(EebusSettings),
    /// A hot-water circuit.
    EebusDhw(EebusDhwSettings),
    /// A charge point, which tells of its vehicle and is never commanded.
    EebusEv(EebusEvSettings),
    /// A heat-pump compressor.
    EebusHeatPump(EebusHeatPumpSettings),
    /// A device read through a vendor's own register map.
    Registers(RegisterSettings),
}

impl DriverSettings {
    /// Which asset this driver speaks for.
    pub open spec fn speaks_for(self) -> Seq<char> {
        match self {
            DriverSettings::Sunspec(s) => s.asset@,
            DriverSettings::EebusLpc(s) => s.asset@,
            DriverSettings::EebusDhw(s) => s.asset@,
            DriverSettings::EebusEv(s) => s.asset@,
            DriverSettings::EebusHeatPump(s) => s.asset@,
            DriverSettings::Registers(s) => s.asset@,
        }
    }

    /// Which asset this driver speaks for.
    pub fn asset(&self) -> (r: &str)
        ensures
            r@ == self.speaks_for(),
    {
        match self {
            DriverSettings::Sunspec(s) => s.asset.as_str(),
            DriverSettings::EebusLpc(s) => s.asset.as_str(),
            DriverSettings::EebusDhw(s) => s.asset.as_str(),
            DriverSettings::EebusEv(s) => s.asset.as_str(),
            DriverSettings::EebusHeatPump(s) => s.asset.as_str(),
            DriverSettings::Registers(s) => s.asset.as_str(),
        }
    }
}

// ── When the car leaves ─────────────────────────────────────────────────────

/// The minute of the day a text means: hours and minutes with a colon between
/// them, whatever white space stands around either.
pub open spec fn minute_named(text: Seq<char>) -> Option<u32> {
    match crate::text::split_at_first(text, ':') {
        Some((hours, minutes)) => match (
            crate::text::read_u32(crate::text::trimmed(hours)),
            crate::text::read_u32(crate::text::trimmed(minutes)),
        ) {
            (Some(h), Some(m)) => if h <= 23 && m <= 59 {
                Some((60 * h + m) as u32)
            } else {
                None
            },
            _ => None,
        },
        None => None,
    }
}

/// The minute of the day a text means.
pub fn minute_of(text: &str) -> (minute: Option<u32>)
    ensures
        minute == minute_named(text@),
{
    match split_once(text, ':') {
        Some((hours, minutes)) => match (parse_u32(trim(hours)), parse_u32(trim(minutes))) {
            (Some(h), Some(m)) => if h > 23 || m > 59 {
                None
            } else {
                Some(h * 60 + m)
            },
            _ => None,
        },
        None => None,
    }
}

/// Whether a clock that showed one minute of the day and now shows another went past
/// midnight. A quarter hour never sets it back by half a day otherwise, not even
/// where summer time ends.
pub open spec fn turns_over(before: int, now: int) -> bool {
    now + 720 < before
}

/// Whether a clock that showed one minute of the day and now shows another passed a
/// third: it was still before it and is not any more, on whichever side of midnight.
pub open spec fn passes(before: int, now: int, wanted: int) -> bool {
    if turns_over(before, now) {
        before < wanted || wanted <= now
    } else {
        before < wanted <= now
    }
}

/// Whether a clock that shows these minutes one after the other crosses a minute
/// here.
pub open spec fn crosses(minutes: Seq<u32>, wanted: u32, i: int) -> bool {
    1 <= i < minutes.len() && passes(minutes[i - 1] as int, minutes[i] as int, wanted as int)
}

/// Where a clock first crosses a minute of the day, if it does.
pub fn crossing(minutes: &Vec<u32>, wanted: u32) -> (at: Option<usize>)
    ensures
        match at {
            Some(i) => crosses(minutes@, wanted, i as int) && forall|j: int|
                0 <= j < i ==> !#[trigger] crosses(minutes@, wanted, j),
            None => forall|j: int| !#[trigger] crosses(minutes@, wanted, j),
        },
{
    let mut i: usize = 1;
    while i < minutes.len()
        invariant
            1 <= i,
            minutes@.len() > 0 ==> i <= minutes@.len(),
            forall|j: int| 0 <= j < i ==> !#[trigger] crosses(minutes@, wanted, j),
        decreases minutes@.len() - i,
    {
        let before: u32 = minutes[i - 1];
        let now: u32 = minutes[i];
        let over: bool = (now as u64) + 720 < before as u64;
        let reached: bool = if over {
            before < wanted || wanted <= now
        } else {
            before < wanted && wanted <= now
        };
        if reached {
            return Some(i);
        }
        i = i + 1;
    }
    None
}

/// The minute the clock in Berlin shows at the start of each of some quarter hours.
pub open spec fn shown_minutes(slots: Seq<Slot>) -> Seq<u32> {
    Seq::new(slots.len(), |i: int| crate::clock::berlin_minute(slots[i].starts_at()) as u32)
}

/// Whether every quarter hour of a list has a local date.
pub open spec fn all_dated(slots: Seq<Slot>) -> bool {
    forall|i: int|
        0 <= i < slots.len() ==> crate::clock::in_local_calendar((#[trigger] slots[i]).starts_at())
}

impl EebusEvSettings {
    /// Whether a quarter hour is the first the car is gone, inside a horizon: the
    /// first at which the clock crosses the departure.
    pub open spec fn leaves_at(self, horizon: Horizon, slot: Option<Slot>) -> bool {
        match minute_named(self.departure@) {
            None => slot is None,
            Some(wanted) => {
                let minutes = shown_minutes(horizon.quarters());
                match slot {
                    Some(s) => exists|i: int|
                        {
                            &&& #[trigger] crosses(minutes, wanted, i)
                            &&& s == horizon.quarters()[i]
                            &&& forall|j: int|
                                0 <= j < i ==> !#[trigger] crosses(minutes, wanted, j)
                        },
                    None => forall|j: int| !#[trigger] crosses(minutes, wanted, j),
                }
            },
        }
    }

    /// The first quarter hour the car is gone, inside a horizon.
    ///
    /// The next time the clock crosses the departure, so that a plan made in the
    /// evening aims at tomorrow morning. None where the departure is not a time or
    /// lies beyond the horizon.
    pub fn departure_slot(&self, horizon: Horizon) -> (slot: Option<Slot>)
        requires
            horizon.is_nameable(),
            all_dated(horizon.quarters()),
        ensures
            self.leaves_at(horizon, slot),
    {
        let wanted: u32 = match minute_of(self.departure.as_str()) {
            Some(wanted) => wanted,
            None => {
                return None;
            },
        };
        let slots = horizon.slots();
        let mut minutes: Vec<u32> = Vec::new();
        let mut i: usize = 0;
        while i < slots.len()
            invariant
                i <= slots@.len(),
                slots@ == horizon.quarters(),
                all_dated(slots@),
                minutes@.len() == i,
                forall|j: int|
                    0 <= j < i ==> minutes@[j] == crate::clock::berlin_minute(
                        (#[trigger] slots@[j]).starts_at(),
                    ),
            decreases slots@.len() - i,
        {
            minutes.push(local_minute(slots[i].start()));
            i = i + 1;
        }
        assert(minutes@ =~= shown_minutes(horizon.quarters()));
        match crossing(&minutes, wanted) {
            Some(at) => {
                assert(crosses(minutes@, wanted, at as int));
                Some(slots[at])
            },
            None => None,
        }
    }
}

/// A departure is never in the first quarter hour of a plan: a deadline at this
/// instant has passed, and the plan aims at the next one.
pub proof fn a_departure_is_never_now(minutes: Seq<u32>, wanted: u32)
    ensures
        !crosses(minutes, wanted, 0),
{
}

/// How often a clock went past midnight by one of its readings.
pub open spec fn midnights(minutes: Seq<u32>, i: int) -> int
    decreases i,
{
    if i <= 0 {
        0
    } else {
        midnights(minutes, i - 1) + if turns_over(minutes[i - 1] as int, minutes[i] as int) {
            1int
        } else {
            0int
        }
    }
}

/// What a clock has come to by one of its readings, in minutes since the midnight
/// before the first.
pub open spec fn come_to(minutes: Seq<u32>, i: int) -> int {
    1440 * midnights(minutes, i) + minutes[i]
}

/// A departure inside the horizon is found, whatever time of day it is: a clock that
/// is still before it at one reading and past it at a later one crosses it between
/// the two.
pub proof fn a_departure_inside_the_horizon_is_found(
    minutes: Seq<u32>,
    wanted: u32,
    day: int,
    a: int,
    b: int,
)
    requires
        0 <= a < b < minutes.len(),
        wanted < 1440,
        forall|i: int| 0 <= i < minutes.len() ==> #[trigger] minutes[i] < 1440,
        come_to(minutes, a) < 1440 * day + wanted <= come_to(minutes, b),
    ensures
        exists|i: int| a < i <= b && #[trigger] crosses(minutes, wanted, i),
    decreases b - a,
{
    if come_to(minutes, b - 1) < 1440 * day + wanted {
        let before = minutes[b - 1] as int;
        let now = minutes[b] as int;
        assert(0 <= before < 1440 && 0 <= now < 1440);
        let left = day - midnights(minutes, b - 1);
        assert(before < 1440 * left + wanted);
        assert(passes(before, now, wanted as int));
        assert(crosses(minutes, wanted, b));
    } else {
        a_departure_inside_the_horizon_is_found(minutes, wanted, day, a, b - 1);
    }
}

// ── The whole of it ─────────────────────────────────────────────────────────

/// The whole of a box's configuration.
#[derive(Debug)]
pub struct Settings {
    /// The house.
    pub site: SiteSettings,
    /// What the household pays and earns for a kilowatt-hour.
    pub tariff: TariffSettings,
    /// Where the box asks for prices and weather.
    pub fleet: FleetSettings,
    /// Where the box forwards its own record.
    pub histd: HistdSettings,
    /// Where the box reports how the day went.
    pub obsd: ObsdSettings,
    /// How the box presents itself, and whom it trusts.
    pub ship: ShipSettings,
    /// How fast the control planes run.
    pub control: ControlSettings,
    /// What speaks to the hardware, one entry per device.
    pub drivers: Vec<DriverSettings>,
    /// Where the box keeps its own record, and what it has learned.
    pub store_path: Option<String>,
}

impl Settings {
    /// A box nobody has configured, in a household.
    pub fn unconfigured(reference: &HouseholdConfig) -> (s: Settings)
        requires
            is_complete(*reference),
        ensures
            s.site.is_description_of(*reference),
            s.tariff.is_ordinary(),
            s.fleet.tariffd_url is None && s.fleet.forecastd_url is None,
            s.fleet.location is None && s.fleet.request_timeout_s == 0,
            s.histd.url is None && s.histd.site is None && s.histd.token is None,
            s.histd.every_s == 0 && s.histd.batch == 0,
            s.obsd.url is None && s.obsd.secret is None,
            s.ship.listen is None && s.ship.trust@.len() == 0,
            s.ship.ship_id@ == "hems_hems-1"@ && s.ship.announce,
            s.control.tick_period_s == 1 && s.control.replan_every_s == 300,
            s.control.horizon_slots == 192 && s.control.solve_budget_s == 10_000_000,
            s.control.risk == RiskSettings::Median,
            s.control.preferences.co2_eur_per_kg == 0,
            s.control.preferences.autarky_eur_per_kwh == 0,
            s.drivers@.len() == 0,
            s.store_path is None,
    {
        Settings {
            site: SiteSettings::describing(reference),
            tariff: TariffSettings::default(),
            fleet: FleetSettings::default(),
            histd: HistdSettings::default(),
            obsd: ObsdSettings::default(),
            ship: ShipSettings::default(),
            control: ControlSettings::default(),
            drivers: Vec::new(),
            store_path: None,
        }
    }
}

// ── What holds of a configuration ───────────────────────────────────────────

/// Whether a figure is billed as a price: in the fourth decimal place, within half a unit
/// of it of what was configured, and on the even side of a tie.
pub open spec fn is_billed(price: Exact, micro: int) -> bool {
    &&& price.scale == 4
    &&& -50 <= 100 * price.mantissa - micro <= 50
    &&& 100 * price.mantissa - micro == 50 || 100 * price.mantissa - micro == -50
        ==> price.mantissa % 2 == 0
}

proof fn lemma_priced(micro: i64)
    ensures
        is_billed(priced(micro as int), micro as int),
{
    let magnitude = (if micro < 0 {
        -micro
    } else {
        micro as int
    }) as nat;
    crate::text::rounding_moves_by_at_most_half_a_unit(magnitude, 100);
}

/// The working price of the network is the configured one, in every module that has one
/// working price and wherever a calendar cannot be read; a module that reduces the bill
/// reduces it by what is configured; and a calendar is billed as it was transcribed.
pub proof fn the_network_is_billed_at_its_own_price(s: TariffSettings, network: NetworkCharge)
    requires
        s.network_charge(network),
    ensures
        s.modul == Modul::NoModul ==> network is Flat,
        s.modul == Modul::Modul1 ==> network is Modul1,
        s.modul == Modul::Modul2 ==> network is Modul2,
        s.modul == Modul::Modul3 ==> (network is Modul3 <==> s.modul3 is Some && forall|i: int|
            0 <= i < s.modul3->Some_0.billed_quarters@.len() ==> ({
                let text = (#[trigger] s.modul3->Some_0.billed_quarters@[i])@;
                text == "Q1"@ || text == "Q2"@ || text == "Q3"@ || text == "Q4"@
            })) && (network is Modul3 || network is Flat),
        match network {
            NetworkCharge::Flat { arbeitspreis } => is_billed(
                arbeitspreis,
                s.network_ct_per_kwh as int,
            ),
            NetworkCharge::Modul1 { arbeitspreis, reduction_eur_per_year } => is_billed(
                arbeitspreis,
                s.network_ct_per_kwh as int,
            ) && is_billed(reduction_eur_per_year, s.modul_1_reduction_eur_per_year as int),
            NetworkCharge::Modul2 { arbeitspreis, remaining_share, metering_eur_per_year } => {
                &&& is_billed(arbeitspreis, s.network_ct_per_kwh as int)
                &&& remaining_share.mantissa == 4 && remaining_share.scale == 1
                &&& metering_eur_per_year.mantissa == 25 && metering_eur_per_year.scale == 0
            },
            NetworkCharge::Modul3 {
                year,
                hochtarif_minutes,
                niedertarif_minutes,
                quarters,
                ht,
                st,
                nt,
                reduction_eur_per_year,
            } => {
                let m = s.modul3->Some_0;
                &&& year == m.year
                &&& hochtarif_minutes == m.hochtarif_minutes
                &&& niedertarif_minutes == m.niedertarif_minutes
                &&& quarters@.len() == m.billed_quarters@.len()
                &&& forall|i: int|
                    0 <= i < quarters@.len() ==> m.billed_quarters@[i]@ == match #[trigger] quarters@[i] {
                        Quarter::Q1 => "Q1"@,
                        Quarter::Q2 => "Q2"@,
                        Quarter::Q3 => "Q3"@,
                        Quarter::Q4 => "Q4"@,
                    }
                &&& is_billed(ht, m.ht_ct_per_kwh as int)
                &&& is_billed(st, m.st_ct_per_kwh as int)
                &&& is_billed(nt, m.nt_ct_per_kwh as int)
                &&& is_billed(reduction_eur_per_year, s.modul_1_reduction_eur_per_year as int)
            },
        },
{
    lemma_priced(s.network_ct_per_kwh);
    lemma_priced(s.modul_1_reduction_eur_per_year);
    if let Some(m) = s.modul3 {
        lemma_priced(m.ht_ct_per_kwh);
        lemma_priced(m.st_ct_per_kwh);
        lemma_priced(m.nt_ct_per_kwh);
        assert forall|i: int| 0 <= i < m.billed_quarters@.len() implies quarter_named(
            (#[trigger] m.billed_quarters@[i])@,
        ) is Some <==> ({
            let text = m.billed_quarters@[i]@;
            text == "Q1"@ || text == "Q2"@ || text == "Q3"@ || text == "Q4"@
        }) by {}
        if let NetworkCharge::Modul3 { quarters, .. } = network {
            assert forall|i: int| 0 <= i < quarters@.len() implies m.billed_quarters@[i]@ == match
                #[trigger] quarters@[i] {
                Quarter::Q1 => "Q1"@,
                Quarter::Q2 => "Q2"@,
                Quarter::Q3 => "Q3"@,
                Quarter::Q4 => "Q4"@,
            } by {
                assert(quarter_named(m.billed_quarters@[i]@) is Some);
            }
        }
        if s.modul == Modul::Modul3 && !(network is Modul3) {
            assert(!all_quarters(m.billed_quarters@));
            let i = choose|i: int|
                0 <= i < m.billed_quarters@.len() && !(quarter_named(
                    (#[trigger] m.billed_quarters@[i])@,
                ) is Some);
            assert(quarter_named(m.billed_quarters@[i]@) is None);
        }
    }
}

/// The energy is billed at the fixed price where there is one, whatever the market does;
/// otherwise at the market's, with the supplier's markup, and at the fallback where the
/// market's is not known.
pub proof fn the_energy_is_billed_at_its_own_price(
    s: TariffSettings,
    spot: Map<i64, Exact>,
    energy: EnergyPrice,
)
    requires
        s.energy_price(spot, energy),
    ensures
        energy is Fixed <==> s.fixed_ct_per_kwh is Some,
        match energy {
            EnergyPrice::Fixed { ct_per_kwh } => is_billed(
                ct_per_kwh,
                s.fixed_ct_per_kwh->Some_0 as int,
            ),
            EnergyPrice::Dynamic { spot: known, markup_ct_per_kwh, fallback_ct_per_kwh } => {
                &&& known@ == spot
                &&& is_billed(markup_ct_per_kwh, s.markup_ct_per_kwh as int)
                &&& is_billed(fallback_ct_per_kwh, s.fallback_ct_per_kwh as int)
            },
        },
{
    lemma_priced(s.markup_ct_per_kwh);
    lemma_priced(s.fallback_ct_per_kwh);
    if let Some(fixed) = s.fixed_ct_per_kwh {
        lemma_priced(fixed);
    }
}

/// A tariff is each of its parts: the energy's price, the network's, what exporting earns
/// (nothing unless something is paid for it), the day negative hours stop earning, and the
/// standing charge.
pub proof fn a_tariff_is_each_of_its_parts(
    s: TariffSettings,
    spot: Map<i64, Exact>,
    para51_from: Option<i32>,
    t: Tariff,
)
    requires
        s.makes(spot, para51_from, t),
    ensures
        s.energy_price(spot, t.energy),
        s.network_charge(t.network),
        t.feed_in.paid is Some <==> s.feed_in_ct_per_kwh > 0,
        t.feed_in.paid matches Some(paid) ==> is_billed(paid, s.feed_in_ct_per_kwh as int),
        t.feed_in.para51_from == para51_from,
        is_billed(t.standing_charge_eur_per_year, s.standing_charge_eur_per_year as int),
{
    lemma_priced(s.feed_in_ct_per_kwh);
    lemma_priced(s.standing_charge_eur_per_year);
}

/// Changing the supplier's markup changes nothing of what the network costs, of what
/// exporting earns or of the standing charge; and changing the network's price changes
/// nothing of what the energy costs.
pub proof fn one_price_does_not_move_another(
    a: TariffSettings,
    b: TariffSettings,
    spot: Map<i64, Exact>,
    para51_from: Option<i32>,
    t: Tariff,
    u: Tariff,
)
    requires
        a.makes(spot, para51_from, t),
        b.makes(spot, para51_from, u),
    ensures
        a == (TariffSettings { markup_ct_per_kwh: a.markup_ct_per_kwh, ..b }) ==> {
            &&& t.network is Flat <==> u.network is Flat
            &&& t.network matches NetworkCharge::Flat { arbeitspreis } ==> arbeitspreis
                == u.network->Flat_arbeitspreis
            &&& t.network matches NetworkCharge::Modul1 { arbeitspreis, .. } ==> arbeitspreis
                == u.network->Modul1_arbeitspreis
            &&& t.network matches NetworkCharge::Modul2 { arbeitspreis, .. } ==> arbeitspreis
                == u.network->Modul2_arbeitspreis
            &&& t.feed_in == u.feed_in
            &&& t.standing_charge_eur_per_year == u.standing_charge_eur_per_year
        },
        a == (TariffSettings { network_ct_per_kwh: a.network_ct_per_kwh, ..b }) ==> {
            &&& t.energy is Fixed <==> u.energy is Fixed
            &&& t.energy matches EnergyPrice::Fixed { ct_per_kwh } ==> ct_per_kwh
                == u.energy->ct_per_kwh
            &&& t.energy matches EnergyPrice::Dynamic {
                markup_ct_per_kwh,
                fallback_ct_per_kwh,
                ..
            } ==> markup_ct_per_kwh == u.energy->markup_ct_per_kwh && fallback_ct_per_kwh
                == u.energy->fallback_ct_per_kwh
            &&& t.feed_in == u.feed_in
            &&& t.standing_charge_eur_per_year == u.standing_charge_eur_per_year
        },
{
}

/// A plan that expects the worst plans for little sun and much load; every other attitude
/// plans for the middle of both forecasts or for several futures.
pub proof fn only_the_pessimist_plans_at_the_edges(risk: RiskSettings)
    ensures
        risk.modelled() is AtQuantile <==> risk == RiskSettings::Pessimistic,
        risk.modelled() matches RiskModel::AtQuantile(sun, load) ==> sun == Quantile::P10 && load
            == Quantile::P90,
        risk.modelled() is Deterministic <==> risk == RiskSettings::Median,
        risk.modelled() is Expected <==> risk == RiskSettings::Expected,
        risk.modelled() is Hedged <==> risk == RiskSettings::Hedged,
{
}

/// A heat pump takes instructions the way it is configured to, and no two ways are the
/// same.
pub proof fn a_heat_pump_is_told_its_own_way(interface: HeatPumpInterface)
    ensures
        control_of(interface) is SgReady <==> interface is SgReady,
        control_of(interface) is PowerCeiling <==> interface is PowerCeiling,
        control_of(interface) is OperationModes <==> interface is OperationModes,
        control_of(interface) is Compressor <==> interface is Compressor,
{
}

/// A household is what was configured, device by device and figure by figure.
pub proof fn a_household_is_what_was_configured(
    s: SiteSettings,
    read: Option<Option<i32>>,
    h: HouseholdConfig,
)
    requires
        s.is_household(read, Ok(h)),
    ensures
        s.comfort_min_c <= s.comfort_max_c,
        read != Some(None::<i32>),
        h.fuse == s.fuse_a,
        h.location.latitude == s.latitude,
        h.location.longitude == s.longitude,
        h.location.altitude_m == s.altitude_m,
        h.pv matches Some(pv) ==> {
            &&& pv.kwp == s.pv_kwp && pv.kwp > 0
            &&& pv.ac_nominal == s.pv_ac_kw
            &&& pv.para9.relieved == s.imsys_control_device
            &&& match read {
                Some(Some(day)) => pv.para9.imsys_since == Some(day),
                _ => pv.para9.imsys_since is None,
            }
        },
        h.battery matches Some(battery) ==> {
            &&& battery.kwh == s.battery_kwh && battery.kwh > 0
            &&& battery.power == s.battery_kw && battery.power > 0
            &&& battery.reserve_soc == s.reserve_soc && 0 <= s.reserve_soc <= 1_000_000
            &&& battery.wear_eur_per_kwh == s.battery_wear_eur_per_kwh
        },
        h.evse matches Some(evse) ==> {
            &&& evse.max_current == s.evse_max_a && evse.max_current > 0
            &&& evse.switchable == s.evse_switchable
            &&& evse.charge_limit == s.ev_charge_limit
            &&& evse.charge_limit matches Some(limit) ==> 0 <= limit <= 1_000_000
        },
        h.heat_pump matches Some(pump) ==> {
            &&& pump.power == s.heat_pump_kw && pump.power > 0
            &&& pump.modulating == s.heat_pump_modulating
            &&& pump.comfort_min_c == s.comfort_min_c
            &&& pump.comfort_max_c == s.comfort_max_c
            &&& pump.control == control_of(s.heat_pump_control)
        },
        h.dhw matches Some(dhw) ==> dhw.litres == s.dhw_litres && dhw.heater == s.dhw_heater_kw,
        h.dishwasher matches Some(steps) ==> steps@ == s.dishwasher_kw_steps@,
{
}

/// A typo is told and no household made of it: a comfort band upside down, a date that is
/// none, and a share that is none of a device the household has. A share of a device it
/// does not have is nobody's typo.
pub proof fn a_typo_makes_no_household(
    s: SiteSettings,
    read: Option<Option<i32>>,
    r: Result<HouseholdConfig, SettingsError>,
)
    requires
        s.is_household(read, r),
    ensures
        s.comfort_max_c < s.comfort_min_c ==> (r matches Err(SettingsError::NotABand { min, max })
            && min == s.comfort_min_c && max == s.comfort_max_c),
        r is Ok <==> s.comfort_max_c >= s.comfort_min_c && read != Some(None::<i32>) && (
        s.battery_kwh > 0 && s.battery_kw > 0 ==> 0 <= s.reserve_soc <= 1_000_000) && (
        s.evse_max_a > 0 ==> (s.ev_charge_limit matches Some(limit) ==> 0 <= limit <= 1_000_000)),
        r matches Err(SettingsError::NotADate { field, value }) ==> field@ == "imsys_since"@
            && read == Some(None::<i32>) && (s.imsys_since matches Some(date) ==> value@ == date@),
        r matches Err(SettingsError::NotAFraction { field, value }) ==> (field@ == "reserve_soc"@
            && value@ == crate::text::plain(s.reserve_soc as int)) || (field@
            == "ev_charge_limit"@ && s.ev_charge_limit is Some && value@ == crate::text::plain(
            s.ev_charge_limit->Some_0 as int,
        )),
{
}

/// A driver speaks for the asset its own settings name.
pub proof fn a_driver_speaks_for_its_own_asset(d: DriverSettings)
    ensures
        d matches DriverSettings::Sunspec(s) ==> d.speaks_for() == s.asset@,
        d matches DriverSettings::EebusLpc(s) ==> d.speaks_for() == s.asset@,
        d matches DriverSettings::EebusDhw(s) ==> d.speaks_for() == s.asset@,
        d matches DriverSettings::EebusEv(s) ==> d.speaks_for() == s.asset@,
        d matches DriverSettings::EebusHeatPump(s) ==> d.speaks_for() == s.asset@,
        d matches DriverSettings::Registers(s) ==> d.speaks_for() == s.asset@,
{
}

/// A time of day is hours and minutes with a colon between them: every hour below
/// twenty-four and minute below sixty is one however it is padded, a text without a colon
/// is none, and what is read never lies beyond the day.
pub proof fn a_time_of_day_is_hours_and_minutes(text: Seq<char>)
    ensures
        !text.contains(':') ==> minute_named(text) is None,
        minute_named(text) matches Some(minute) ==> minute < 1440 && exists|i: int|
            0 <= i < text.len() && #[trigger] text[i] == ':' && crate::text::read_u32(
                crate::text::trimmed(text.take(i)),
            ) == Some((minute / 60) as u32) && crate::text::read_u32(
                crate::text::trimmed(text.skip(i + 1)),
            ) == Some((minute % 60) as u32),
{
    crate::text::splitting_loses_nothing(text, ':');
    if let Some((hours, minutes)) = crate::text::split_at_first(text, ':') {
        let i = hours.len() as int;
        assert(text[i] == ':');
        assert(text.take(i) =~= hours);
        assert(text.skip(i + 1) =~= minutes);
        if let Some(minute) = minute_named(text) {
            let h = crate::text::read_u32(crate::text::trimmed(hours))->Some_0;
            let m = crate::text::read_u32(crate::text::trimmed(minutes))->Some_0;
            assert(minute == 60 * h + m);
            assert(minute / 60 == h && minute % 60 == m);
        }
    }
}

/// Hours and minutes in digits are read as what they say, however they are padded.
pub proof fn a_written_time_is_the_time_it_says(hours: Seq<char>, minutes: Seq<char>)
    requires
        hours.len() > 0,
        minutes.len() > 0,
        crate::text::all_digits(hours),
        crate::text::all_digits(minutes),
        crate::text::value_of(hours) < 24,
        crate::text::value_of(minutes) < 60,
    ensures
        minute_named(hours.push(':') + minutes) == Some(
            (60 * crate::text::value_of(hours) + crate::text::value_of(minutes)) as u32,
        ),
{
    let text = hours.push(':') + minutes;
    assert(text[hours.len() as int] == ':');
    assert(text.contains(':'));
    crate::text::splitting_loses_nothing(text, ':');
    let (a, b) = crate::text::split_at_first(text, ':')->Some_0;
    let i = a.len() as int;
    if i < hours.len() {
        assert((a.push(':') + b)[i] == ':');
        assert(text[i] == hours[i]);
        assert(crate::text::is_digit(hours[i]));
    } else if i > hours.len() {
        assert((a.push(':') + b)[hours.len() as int] == a[hours.len() as int]);
        assert(a.contains(':'));
    }
    assert(a =~= hours) by {
        assert(a =~= text.take(i));
    }
    assert(b =~= minutes) by {
        assert(b =~= text.skip(i + 1));
    }
    lemma_digits_are_trimmed(hours);
    lemma_digits_are_trimmed(minutes);
    assert(crate::text::is_digit(hours[0]));
    assert(crate::text::is_digit(minutes[0]));
    assert(crate::text::without_plus(hours) == hours);
    assert(crate::text::without_plus(minutes) == minutes);
}

proof fn lemma_digits_are_trimmed(s: Seq<char>)
    requires
        s.len() > 0,
        crate::text::all_digits(s),
    ensures
        crate::text::trimmed(s) == s,
{
    assert(crate::text::is_digit(s[0]));
    assert(crate::text::is_digit(s[s.len() - 1]));
    assert(!crate::text::is_white(s[0]));
    assert(!crate::text::is_white(s.last()));
}

/// Where a clock crosses a minute of the day it reaches it: it was still before that time
/// at the reading before, and is not any more, on some day.
pub proof fn a_crossing_is_where_the_clock_gets_there(
    minutes: Seq<u32>,
    wanted: u32,
    i: int,
) -> (day: int)
    requires
        crosses(minutes, wanted, i),
        wanted < 1440,
        forall|j: int| 0 <= j < minutes.len() ==> #[trigger] minutes[j] < 1440,
    ensures
        1 <= i < minutes.len(),
        come_to(minutes, i - 1) < 1440 * day + wanted <= come_to(minutes, i),
{
    let before = minutes[i - 1] as int;
    let now = minutes[i] as int;
    assert(before < 1440 && now < 1440);
    if turns_over(before, now) && before >= wanted {
        midnights(minutes, i)
    } else {
        midnights(minutes, i - 1)
    }
}

/// A clock has gone past midnight where it fell back by more than half a day, and only
/// there: one that is set back by an hour has not.
pub proof fn only_midnight_sets_a_clock_far_back(before: int, now: int)
    ensures
        before - now > 720 ==> turns_over(before, now),
        before - now <= 720 ==> !turns_over(before, now),
{
}

/// The car leaves at the first quarter hour of the horizon at whose start the clock has
/// reached the departure, and at none where the departure is no time or the clock does not
/// reach it.
pub proof fn a_car_leaves_when_the_clock_first_gets_there(
    s: EebusEvSettings,
    horizon: Horizon,
    slot: Option<Slot>,
)
    requires
        s.leaves_at(horizon, slot),
        horizon.is_nameable(),
    ensures
        minute_named(s.departure@) is None ==> slot is None,
        minute_named(s.departure@) matches Some(wanted) ==> {
            let minutes = shown_minutes(horizon.quarters());
            &&& slot is None <==> forall|j: int| !#[trigger] crosses(minutes, wanted, j)
            &&& slot matches Some(at) ==> exists|i: int|
                #[trigger] crosses(minutes, wanted, i) && 1 <= i < horizon.len && at.index
                    == horizon.first.index + i && forall|j: int|
                    0 <= j < i ==> !#[trigger] crosses(minutes, wanted, j)
        },
{
    if let Some(wanted) = minute_named(s.departure@) {
        let minutes = shown_minutes(horizon.quarters());
        if let Some(at) = slot {
            let i = choose|i: int|
                {
                    &&& #[trigger] crosses(minutes, wanted, i)
                    &&& at == horizon.quarters()[i]
                    &&& forall|j: int| 0 <= j < i ==> !#[trigger] crosses(minutes, wanted, j)
                };
            assert(crosses(minutes, wanted, i));
        }
    }
}

/// A quarter is named by its letter and its number, and by nothing else: the first to
/// the fourth are the four there are.
pub proof fn a_quarter_is_named_by_its_number(text: Seq<char>)
    ensures
        quarter_named(text) is Some <==> text.len() == 2 && text[0] == 'Q' && '1' <= text[1] <= '4',
        quarter_named(text) == Some(Quarter::Q1) <==> text == seq!['Q', '1'],
        quarter_named(text) == Some(Quarter::Q2) <==> text == seq!['Q', '2'],
        quarter_named(text) == Some(Quarter::Q3) <==> text == seq!['Q', '3'],
        quarter_named(text) == Some(Quarter::Q4) <==> text == seq!['Q', '4'],
{
    reveal_strlit("Q1");
    reveal_strlit("Q2");
    reveal_strlit("Q3");
    reveal_strlit("Q4");
    assert("Q1"@ =~= seq!['Q', '1']);
    assert("Q2"@ =~= seq!['Q', '2']);
    assert("Q3"@ =~= seq!['Q', '3']);
    assert("Q4"@ =~= seq!['Q', '4']);
    assert(seq!['Q', '1'][1] == '1' && seq!['Q', '2'][1] == '2');
    assert(seq!['Q', '3'][1] == '3' && seq!['Q', '4'][1] == '4');
    if text.len() == 2 && text[0] == 'Q' && '1' <= text[1] <= '4' {
        assert(text =~= seq!['Q', text[1]]);
    }
}

} // verus!

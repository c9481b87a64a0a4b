//! Starting a box: everything that can be refused is refused before a socket is
//! opened.
//!
//! A driver for a device the site does not have, a device nothing can move, a
//! household that could not hear a reduction, a calendar nobody may be billed on:
//! each of those is silent once the box runs, so each is said before it does.

use metering::zaehlzeit::Quarter as Billed;
use metering::zaehlzeit::{
    assess_modul_3, Modul3Conformance, Modul3Context, Zaehlzeitdefinition,
};
use time::{Date, Month};
use vstd::prelude::*;

use crate::clock::{local_day, Instant};
use crate::config::{
    DriverSettings, EebusSettings, Modul, Quarter, Settings, SettingsError, TariffSettings,
};
use crate::drivers::{Attached, DriverCapabilities, DriverId, Registry, RegistryError};
use crate::runtime::ship::{read_ski, ShipError};
use crate::site::{product, Micros, Site};
use crate::text::quoted;

verus! {

/// Why a box could not start.
#[derive(Debug)]
pub enum StartError {
    /// The configuration does not describe a house.
    Site(SettingsError),
    /// The site could not be built from it.
    Build(String),
    /// The drivers do not describe the site.
    Drivers(RegistryError),
    /// A driver's own configuration is not usable.
    Driver {
        /// Which one.
        asset: String,
        /// Why not.
        detail: String,
    },
    /// The calendar is not one the household may be billed on.
    Modul3(String),
    /// The building is not one the planner can integrate.
    Physics(String),
}

impl StartError {
    /// What the error says.
    pub open spec fn said(self) -> Seq<char> {
        match self {
            StartError::Site(e) => "the site configuration is not usable: "@ + e.said(),
            StartError::Build(why) => "the site could not be built: "@ + why@,
            StartError::Drivers(e) => "the drivers do not describe this site: "@ + e.said(),
            StartError::Driver { asset, detail } => "the `"@ + asset@
                + "` driver cannot be built: "@ + detail@,
            StartError::Modul3(why) =>
                "the Modul 3 calendar is not one this household may be billed on: "@ + why@,
            StartError::Physics(why) =>
                "the building model is not one the planner can integrate: "@ + why@,
        }
    }

    /// What the error says.
    pub fn message(&self) -> (out: String)
        ensures
            out@ == self.said(),
    {
        let mut out = String::new();
        match self {
            StartError::Site(e) => {
                out.append("the site configuration is not usable: ");
                out.append(e.message().as_str());
            },
            StartError::Build(why) => {
                out.append("the site could not be built: ");
                out.append(why.as_str());
            },
            StartError::Drivers(e) => {
                out.append("the drivers do not describe this site: ");
                out.append(e.message().as_str());
            },
            StartError::Driver { asset, detail } => {
                out.append("the `");
                out.append(asset.as_str());
                out.append("` driver cannot be built: ");
                out.append(detail.as_str());
            },
            StartError::Modul3(why) => {
                out.append("the Modul 3 calendar is not one this household may be billed on: ");
                out.append(why.as_str());
            },
            StartError::Physics(why) => {
                out.append("the building model is not one the planner can integrate: ");
                out.append(why.as_str());
            },
        }
        assert(out@ =~= self.said());
        out
    }
}

// ── The calendar a household is billed on ───────────────────────────────────

/// What an assessment of a calendar came to.
#[derive(Debug, Clone, Copy, PartialEq, Eq, Structural)]
pub enum Conformance {
    /// Every rule that can be checked was met.
    Conforms,
    /// A rule was broken.
    Violates,
    /// Nothing was broken, and something could not be checked.
    Unknown,
}

/// What a calendar of three tariffs is assessed from.
pub struct Calendar {
    /// The calendar year it is for.
    pub year: int,
    /// When the high tariff begins and ends, minutes of the day.
    pub hochtarif: (int, int),
    /// When the low tariff begins and ends, minutes of the day.
    pub niedertarif: (int, int),
    /// The quarters it is billed in.
    pub quarters: Seq<Quarter>,
    /// What the delivery point has.
    pub at: DeliveryPoint,
}

/// The verdict on a calendar, and what was found.
pub uninterp spec fn assessment(calendar: Calendar) -> (Conformance, Seq<char>);

/// What a delivery point has.
#[derive(Debug, Clone, Copy, PartialEq, Eq, Structural)]
pub struct DeliveryPoint {
    /// The flat reduction.
    pub modul_1: bool,
    /// Metering of its power by the quarter hour.
    pub rlm: bool,
    /// An intelligent metering system.
    pub imsys: bool,
}

/// `metering::zaehlzeit::assess_modul_3`, of a definition made by `modul_3` for one
/// calendar year: the verdict, and the findings as they are shown. Named: the rules
/// are that crate's, and the verdict depends on the calendar and on the delivery
/// point alone.
#[verifier::external_body]
fn assess(
    year: i32,
    ht: (u16, u16),
    nt: (u16, u16),
    quarters: &Vec<Quarter>,
    at: DeliveryPoint,
) -> (r: (Conformance, String))
    requires
        -9999 <= year <= 9999,
    ensures
        (r.0, r.1@) == assessment(
            (Calendar {
                year: year as int,
                hochtarif: (ht.0 as int, ht.1 as int),
                niedertarif: (nt.0 as int, nt.1 as int),
                quarters: quarters@,
                at,
            }),
        ),
{
    let first = Date::from_calendar_date(year, Month::January, 1).unwrap();
    let last = Date::from_calendar_date(year, Month::December, 31).unwrap();
    let zzd = Zaehlzeitdefinition::modul_3("", first, ht, nt).until(last);
    let billed = quarters.iter().map(|q| match q {
        Quarter::Q1 => Billed::Q1, Quarter::Q2 => Billed::Q2,
        Quarter::Q3 => Billed::Q3, Quarter::Q4 => Billed::Q4,
    });
    let ctx = Modul3Context::default().billed_in(billed).with_modul_1(at.modul_1)
        .with_registrierende_leistungsmessung(at.rlm).with_intelligentes_messsystem(at.imsys);
    let (found, why) = assess_modul_3(&zzd, &ctx);
    (match found {
        Modul3Conformance::Conforms => Conformance::Conforms,
        Modul3Conformance::Violates => Conformance::Violates,
        Modul3Conformance::Unknown => Conformance::Unknown,
    }, format!("{why:?}"))
}

/// The first day the module could be ordered: the first of April 2025.
pub const ORDERABLE_SINCE: i32 = 2_460_767;

/// Whether a delivery point may be billed in windows on a day.
pub open spec fn is_eligible(at: DeliveryPoint, today: int) -> bool {
    at.modul_1 && at.imsys && !at.rlm && today >= ORDERABLE_SINCE
}

/// A list of texts as it is shown: each in quotes, commas between them, in
/// brackets.
pub open spec fn shown_list(texts: Seq<String>) -> Seq<char> {
    "["@ + shown_items(texts) + "]"@
}

/// The items of such a list.
pub open spec fn shown_items(texts: Seq<String>) -> Seq<char>
    decreases texts.len(),
{
    if texts.len() == 0 {
        Seq::empty()
    } else if texts.len() == 1 {
        crate::text::quoted_text(texts[0]@)
    } else {
        shown_items(texts.drop_last()) + ", "@ + crate::text::quoted_text(texts.last()@)
    }
}

fn show_list(texts: &Vec<String>) -> (out: String)
    ensures
        out@ == shown_list(texts@),
{
    let mut items = String::new();
    let mut i: usize = 0;
    assert(texts@.take(0) =~= Seq::empty());
    while i < texts.len()
        invariant
            i <= texts@.len(),
            items@ == shown_items(texts@.take(i as int)),
        decreases texts@.len() - i,
    {
        let ghost before = items@;
        assert(texts@.take(i + 1).drop_last() =~= texts@.take(i as int));
        if i > 0 {
            items.append(", ");
        }
        items.append(quoted(texts[i].as_str()).as_str());
        assert(texts@.take(i + 1).last() == texts@[i as int]);
        if i == 0 {
            assert(texts@.take(1)[0] == texts@[0]);
            assert(items@ =~= shown_items(texts@.take(1)));
        }
        i = i + 1;
    }
    assert(texts@.take(i as int) =~= texts@);
    let mut out = String::new();
    out.append("[");
    out.append(items.as_str());
    out.append("]");
    assert(out@ =~= shown_list(texts@));
    out
}

/// Why a household may not be billed as its tariff says, where it may not. The
/// calendar is read before the delivery point is asked about, and assessed last.
pub open spec fn modul3_refusal(
    tariff: TariffSettings,
    at: DeliveryPoint,
    today: int,
    verdict: Conformance,
    findings: Seq<char>,
) -> Option<Seq<char>> {
    if tariff.modul != Modul::Modul3 {
        if tariff.modul3 is Some {
            Some(
                "a `[tariff.modul3]` calendar is configured and `modul` is not `modul3`,                  so nothing would ever read it"@,
            )
        } else {
            None
        }
    } else {
        match tariff.modul3 {
            None => Some(
                "`modul = \"modul3\"` needs a `[tariff.modul3]` calendar; without one the box              would price every hour the same and shift nothing"@,
            ),
            Some(m) => if !crate::config::all_quarters(m.billed_quarters@) {
                Some(
                    "`billed_quarters` must be drawn from Q1, Q2, Q3 and Q4, and this says "@
                        + shown_list(m.billed_quarters@),
                )
            } else if m.source is None {
                Some(
                    "`source` is required: when a household queries a bill, the first question is which document said so, and a calendar nobody can trace is one nobody can defend"@,
                )
            } else if !is_eligible(at, today) {
                Some(
                    "this delivery point may not be billed on Modul 3: it needs Modul 1, an              intelligent metering system, and no registrierende Leistungsmessung — and the              module has only been orderable since 01.04.2025"@,
                )
            } else if verdict == Conformance::Violates {
                Some(
                    findings + " — see specs/bnetza/bdew-awh-modul-3-v1.1-20250207.pdf"@,
                )
            } else {
                None
            },
        }
    }
}

/// Whether a tariff comes as far as the question what its delivery point has.
pub open spec fn asks_the_site(tariff: TariffSettings) -> bool {
    &&& tariff.modul == Modul::Modul3
    &&& tariff.modul3 matches Some(m)
    &&& crate::config::all_quarters(m.billed_quarters@)
    &&& m.source is Some
}

/// Whether a household may be billed as its tariff says, with what its delivery
/// point has, on a day, under a verdict.
pub fn billable(
    tariff: &TariffSettings,
    at: DeliveryPoint,
    today: i32,
    verdict: Conformance,
    findings: &str,
) -> (r: Result<(), StartError>)
    ensures
        match modul3_refusal(*tariff, at, today as int, verdict, findings@) {
            Some(why) => r matches Err(StartError::Modul3(said)) && said@ == why,
            None => r is Ok,
        },
{
    if tariff.modul != Modul::Modul3 {
        if tariff.modul3.is_some() {
            return Err(
                StartError::Modul3(
                    "a `[tariff.modul3]` calendar is configured and `modul` is not `modul3`,                  so nothing would ever read it".to_owned(),
                ),
            );
        }
        return Ok(());
    }
    let m = match &tariff.modul3 {
        Some(m) => m,
        None => {
            return Err(
                StartError::Modul3(
                    "`modul = \"modul3\"` needs a `[tariff.modul3]` calendar; without one the box              would price every hour the same and shift nothing".to_owned(),
                ),
            );
        },
    };
    if m.quarters().is_none() {
        let mut why = String::new();
        why.append("`billed_quarters` must be drawn from Q1, Q2, Q3 and Q4, and this says ");
        why.append(show_list(&m.billed_quarters).as_str());
        assert(why@ =~= "`billed_quarters` must be drawn from Q1, Q2, Q3 and Q4, and this says "@
            + shown_list(m.billed_quarters@));
        return Err(StartError::Modul3(why));
    }
    if m.source.is_none() {
        return Err(
            StartError::Modul3(
                "`source` is required: when a household queries a bill, the first question is which document said so, and a calendar nobody can trace is one nobody can defend".to_owned(),
            ),
        );
    }
    if !(at.modul_1 && at.imsys && !at.rlm && today >= ORDERABLE_SINCE) {
        return Err(
            StartError::Modul3(
                "this delivery point may not be billed on Modul 3: it needs Modul 1, an              intelligent metering system, and no registrierende Leistungsmessung — and the              module has only been orderable since 01.04.2025".to_owned(),
            ),
        );
    }
    match verdict {
        Conformance::Violates => {
            let mut why = findings.to_owned();
            why.append(" — see specs/bnetza/bdew-awh-modul-3-v1.1-20250207.pdf");
            Err(StartError::Modul3(why))
        },
        _ => Ok(()),
    }
}

/// What a household's delivery point has: the flat reduction comes with the module,
/// the metering system is a fact about the roof, and no household's power is
/// metered by the quarter hour.
pub open spec fn point_of(h: crate::site::HouseholdConfig) -> DeliveryPoint {
    DeliveryPoint {
        modul_1: true,
        rlm: false,
        imsys: h.pv matches Some(pv) && pv.para9.imsys_since is Some,
    }
}

/// The calendar of a tariff that has one, at a delivery point.
pub open spec fn calendar_of(m: crate::config::Modul3Settings, at: DeliveryPoint) -> Calendar {
    Calendar {
        year: m.year as int,
        hochtarif: (m.hochtarif_minutes@[0] as int, m.hochtarif_minutes@[1] as int),
        niedertarif: (m.niedertarif_minutes@[0] as int, m.niedertarif_minutes@[1] as int),
        quarters: crate::config::quarters_named(m.billed_quarters@),
        at,
    }
}

/// What checking a household's calendar comes to, where its settings come to some
/// household or to none.
pub open spec fn is_checked_in(
    settings: Settings,
    house: Result<crate::site::HouseholdConfig, SettingsError>,
    today: int,
    r: Result<(), StartError>,
) -> bool {
    if !asks_the_site(settings.tariff) {
        let nothing = DeliveryPoint { modul_1: true, rlm: false, imsys: false };
        match modul3_refusal(settings.tariff, nothing, 0, Conformance::Unknown, Seq::empty()) {
            Some(why) => r matches Err(StartError::Modul3(said)) && said@ == why,
            None => r is Ok,
        }
    } else {
        match house {
            Err(e) => r == Err::<(), StartError>(StartError::Site(e)),
            Ok(h) => {
                let at = point_of(h);
                let found = assessment(calendar_of(settings.tariff.modul3->Some_0, at));
                match modul3_refusal(settings.tariff, at, today, found.0, found.1) {
                    Some(why) => r matches Err(StartError::Modul3(said)) && said@ == why,
                    None => r is Ok,
                }
            },
        }
    }
}

/// What checking a household's calendar comes to.
pub open spec fn is_checked(settings: Settings, today: int, r: Result<(), StartError>) -> bool {
    exists|house: Result<crate::site::HouseholdConfig, SettingsError>|
        {
            &&& #[trigger] settings.site.is_household(settings.site.read_since(), house)
            &&& is_checked_in(settings, house, today, r)
        }
}

/// Check a household's calendar against the rules and against its own delivery
/// point. A rule that could not be checked is no refusal.
pub fn check_modul3(settings: &Settings, now: Instant) -> (r: Result<(), StartError>)
    requires
        crate::clock::in_local_calendar(now as int),
        settings.tariff.modul3 matches Some(m) ==> -9999 <= m.year <= 9999,
    ensures
        is_checked(*settings, crate::clock::berlin_day(now as int), r),
{
    let tariff = &settings.tariff;
    let house = settings.site.household();
    assert(settings.site.is_household(settings.site.read_since(), house));
    if let Some(m) = &tariff.modul3 {
        if tariff.modul == Modul::Modul3 {
            if let (Some(quarters), Some(_)) = (m.quarters(), &m.source) {
                let at = match house {
                    Ok(h) => {
                        let imsys = match h.pv {
                            Some(pv) => pv.para9.imsys_since.is_some(),
                            None => false,
                        };
                        DeliveryPoint { modul_1: true, rlm: false, imsys }
                    },
                    Err(e) => {
                        return Err(StartError::Site(e));
                    },
                };
                let (ht, nt) = (m.hochtarif_minutes, m.niedertarif_minutes);
                let (verdict, findings) = assess(
                    m.year,
                    (ht[0], ht[1]),
                    (nt[0], nt[1]),
                    &quarters,
                    at,
                );
                return billable(tariff, at, local_day(now), verdict, findings.as_str());
            }
        }
    }
    assert(!asks_the_site(settings.tariff));
    billable(
        tariff,
        DeliveryPoint { modul_1: true, rlm: false, imsys: false },
        0,
        Conformance::Unknown,
        "",
    )
}

/// What could not be checked never stops a box: only a rule that was broken does.
pub proof fn only_a_broken_rule_stops_a_box(
    tariff: TariffSettings,
    at: DeliveryPoint,
    today: int,
    findings: Seq<char>,
)
    requires
        asks_the_site(tariff),
        is_eligible(at, today),
    ensures
        modul3_refusal(tariff, at, today, Conformance::Unknown, findings) is None,
        modul3_refusal(tariff, at, today, Conformance::Conforms, findings) is None,
        modul3_refusal(tariff, at, today, Conformance::Violates, findings) is Some,
{
}

/// Both halves or neither: a module without its calendar and a calendar without its
/// module are both refused.
pub proof fn a_module_and_its_calendar_come_together(
    tariff: TariffSettings,
    at: DeliveryPoint,
    today: int,
    verdict: Conformance,
    findings: Seq<char>,
)
    requires
        tariff.modul == Modul::Modul3 <==> tariff.modul3 is None,
    ensures
        modul3_refusal(tariff, at, today, verdict, findings) is Some,
{
}

// ── What each driver is asked to be ─────────────────────────────────────────

/// The direction a failsafe is kept under.
pub const FAILSAFE_CONSUMPTION: &'static str = "consumption";

/// A failsafe the network operator wrote, as it was kept.
#[derive(Debug, Clone, Copy, PartialEq, Eq, Structural)]
pub struct WrittenFailsafe {
    /// What the household restrains itself to, kW.
    pub kw: Micros,
    /// How long it does so at least, seconds.
    pub minimum_s: i64,
}

/// A size without its sign.
pub open spec fn magnitude(n: int) -> int {
    if n < 0 {
        -n
    } else {
        n
    }
}

/// What a household falls back to: what the operator wrote, and only where nothing
/// was written what is configured.
pub open spec fn in_force(
    written: Option<WrittenFailsafe>,
    configured: Micros,
    configured_for_s: u64,
) -> (Micros, u64) {
    match written {
        Some(w) => (w.kw, magnitude(w.minimum_s as int) as u64),
        None => (configured, configured_for_s),
    }
}

/// The failsafe a household comes up holding: what the operator wrote wins over
/// what the configuration says, so that a power cut does not undo it.
pub fn failsafe_in_force(
    written: Option<WrittenFailsafe>,
    configured: Micros,
    configured_for_s: u64,
) -> (r: (Micros, u64))
    ensures
        r == in_force(written, configured, configured_for_s),
{
    match written {
        Some(w) => (
            w.kw,
            if w.minimum_s < 0 {
                (-(w.minimum_s as i128)) as u64
            } else {
                w.minimum_s as u64
            },
        ),
        None => (configured, configured_for_s),
    }
}

/// What the operator wrote survives a reboot whatever the configuration says, and
/// with nothing written the configuration stands.
pub proof fn what_the_operator_wrote_survives(
    w: WrittenFailsafe,
    configured: (Micros, u64),
    reconfigured: (Micros, u64),
)
    ensures
        in_force(Some(w), configured.0, configured.1) == in_force(
            Some(w),
            reconfigured.0,
            reconfigured.1,
        ),
{
}

/// How this box names itself to a peer.
#[derive(Debug)]
pub struct SpineIdentity {
    /// The vendor.
    pub vendor: String,
    /// What distinguishes this box from the next one off the same line.
    pub unique: String,
}

/// A configured text, or the one that stands where none is.
pub open spec fn or_else(text: Option<String>, otherwise: Seq<char>) -> Seq<char> {
    match text {
        Some(t) => t@,
        None => otherwise,
    }
}

fn said_or(text: &Option<String>, otherwise: &str) -> (r: String)
    ensures
        r@ == or_else(*text, otherwise@),
{
    match text {
        Some(t) => t.clone(),
        None => otherwise.to_owned(),
    }
}

/// How this box names itself to a peer: as configured, and by the same name to all
/// of them where nothing is.
pub fn spine_identity(
    vendor: &Option<String>,
    unique: &Option<String>,
    default: &SpineIdentity,
) -> (i: SpineIdentity)
    ensures
        i.vendor@ == or_else(*vendor, default.vendor@),
        i.unique@ == or_else(*unique, default.unique@),
{
    SpineIdentity {
        vendor: said_or(vendor, default.vendor.as_str()),
        unique: said_or(unique, default.unique.as_str()),
    }
}

/// How often a device is read, and how long an answer may take, nanoseconds.
#[derive(Debug, Clone, Copy, PartialEq, Eq, Structural)]
pub struct Cadence {
    /// How often it is read.
    pub poll: i128,
    /// How long an answer may take.
    pub timeout: i128,
}

/// One millisecond.
pub const MILLISECOND: i128 = 1_000_000;

/// A driver as it is to be built.
#[derive(Debug)]
pub enum DriverPlan {
    /// Of a device that publishes its own model.
    Sunspec {
        /// The unit identifier.
        unit: u8,
        /// How often it is read.
        cadence: Cadence,
        /// Read and never write.
        listens_only: bool,
        /// The rating a curtailment is a share of, kW.
        rating: Option<Micros>,
    },
    /// Of the household side of a control box.
    Lpc {
        /// What the household restrains itself to when nobody speaks, kW.
        failsafe: Micros,
        /// How long it does so at least, seconds.
        failsafe_for_s: u64,
        /// How this box names itself.
        identity: SpineIdentity,
    },
    /// Of a charge point.
    Ev(SpineIdentity),
    /// Of a hot-water circuit.
    Dhw(SpineIdentity),
    /// Of a heat-pump compressor.
    HeatPump(SpineIdentity),
    /// Of a device read through a register map.
    Registers {
        /// The unit identifier.
        unit: u8,
        /// How often it is read.
        cadence: Cadence,
    },
}

/// So many milliseconds, or what stands for a number no clock can hold.
pub open spec fn millis_or(ms: u64, fallback: int) -> int {
    if ms <= i64::MAX {
        ms * MILLISECOND
    } else {
        fallback * MILLISECOND
    }
}

fn millis(ms: u64, fallback: i64) -> (ns: i128)
    ensures
        ns == millis_or(ms, fallback as int),
{
    if ms <= 0x7fff_ffff_ffff_ffff {
        ms as i128 * MILLISECOND
    } else {
        fallback as i128 * MILLISECOND
    }
}

/// So many hours in seconds, as many as fit.
pub open spec fn hours_in_seconds(hours: u64) -> u64 {
    if hours * 3600 <= u64::MAX {
        (hours * 3600) as u64
    } else {
        u64::MAX
    }
}

fn hold_for(hours: u64) -> (s: u64)
    ensures
        s == hours_in_seconds(hours),
{
    if hours <= u64::MAX / 3600 {
        hours * 3600
    } else {
        u64::MAX
    }
}

/// The failsafe an operator's control box finds: what was written, and otherwise
/// what is configured, and otherwise what the household is owed.
pub open spec fn failsafe_of(
    s: EebusSettings,
    owed: Micros,
    written: Option<WrittenFailsafe>,
) -> (Micros, u64) {
    in_force(
        written,
        match s.failsafe_kw {
            Some(kw) => kw,
            None => owed,
        },
        hours_in_seconds(s.failsafe_hours),
    )
}

/// Whether an identity is the one some settings ask for.
pub open spec fn is_named(
    i: SpineIdentity,
    vendor: Option<String>,
    unique: Option<String>,
    default: SpineIdentity,
) -> bool {
    i.vendor@ == or_else(vendor, default.vendor@) && i.unique@ == or_else(unique, default.unique@)
}

/// Whether a driver is to be built as its settings ask.
pub open spec fn is_plan_of(
    plan: DriverPlan,
    settings: DriverSettings,
    owed: Micros,
    written: Option<WrittenFailsafe>,
    default: SpineIdentity,
) -> bool {
    match settings {
        DriverSettings::Sunspec(s) => plan == (DriverPlan::Sunspec {
            unit: s.unit,
            cadence: Cadence {
                poll: ((s.poll_ms as i64) * MILLISECOND) as i128,
                timeout: ((s.timeout_ms as i64) * MILLISECOND) as i128,
            },
            listens_only: s.listens_only,
            rating: s.rating_kw,
        }),
        DriverSettings::EebusLpc(s) => {
            &&& plan matches DriverPlan::Lpc { failsafe, failsafe_for_s, identity }
            &&& (failsafe, failsafe_for_s) == failsafe_of(s, owed, written)
            &&& is_named(identity, s.spine_vendor, s.spine_unique, default)
        },
        DriverSettings::EebusEv(s) => plan matches DriverPlan::Ev(identity) && is_named(
            identity,
            s.spine_vendor,
            s.spine_unique,
            default,
        ),
        DriverSettings::EebusDhw(s) => plan matches DriverPlan::Dhw(identity) && is_named(
            identity,
            s.spine_vendor,
            s.spine_unique,
            default,
        ),
        DriverSettings::EebusHeatPump(s) => plan matches DriverPlan::HeatPump(identity) && is_named(
            identity,
            s.spine_vendor,
            s.spine_unique,
            default,
        ),
        DriverSettings::Registers(s) => plan == (DriverPlan::Registers {
            unit: s.unit,
            cadence: Cadence {
                poll: millis_or(s.poll_ms, 1_000) as i128,
                timeout: millis_or(s.timeout_ms, 5_000) as i128,
            },
        }),
    }
}

/// One configured driver, as it is to be built.
///
/// `owed` is the minimum the household is owed when nobody speaks, and `written` is
/// what the operator already wrote to this box and the box wrote down.
pub fn build_driver(
    settings: &DriverSettings,
    owed: Micros,
    written: Option<WrittenFailsafe>,
    default: &SpineIdentity,
) -> (plan: DriverPlan)
    ensures
        is_plan_of(plan, *settings, owed, written, *default),
{
    match settings {
        DriverSettings::Sunspec(s) => DriverPlan::Sunspec {
            unit: s.unit,
            cadence: Cadence {
                poll: s.poll_ms as i64 as i128 * MILLISECOND,
                timeout: s.timeout_ms as i64 as i128 * MILLISECOND,
            },
            listens_only: s.listens_only,
            rating: s.rating_kw,
        },
        DriverSettings::EebusLpc(s) => {
            let configured: Micros = match s.failsafe_kw {
                Some(kw) => kw,
                None => owed,
            };
            let (failsafe, failsafe_for_s) = failsafe_in_force(
                written,
                configured,
                hold_for(s.failsafe_hours),
            );
            let identity = spine_identity(&s.spine_vendor, &s.spine_unique, default);
            DriverPlan::Lpc { failsafe, failsafe_for_s, identity }
        },
        DriverSettings::EebusEv(s) => DriverPlan::Ev(
            spine_identity(&s.spine_vendor, &s.spine_unique, default),
        ),
        DriverSettings::EebusDhw(s) => DriverPlan::Dhw(
            spine_identity(&s.spine_vendor, &s.spine_unique, default),
        ),
        DriverSettings::EebusHeatPump(s) => DriverPlan::HeatPump(
            spine_identity(&s.spine_vendor, &s.spine_unique, default),
        ),
        DriverSettings::Registers(s) => DriverPlan::Registers {
            unit: s.unit,
            cadence: Cadence {
                poll: millis(s.poll_ms, 1_000),
                timeout: millis(s.timeout_ms, 5_000),
            },
        },
    }
}

// ── What moves each driver's bytes ──────────────────────────────────────────

/// What moves a driver's bytes.
#[derive(Debug)]
pub enum Carrier {
    /// A plain socket to an address.
    Socket(String),
    /// The session this box accepts.
    Listener,
    /// A session this box opens, to an address, with a peer it knows.
    Dialled(String, String),
    /// Nothing but a clock: no byte can arrive.
    ClockOnly,
}

/// Whether a driver's bytes are moved by a plain socket, and from where.
pub open spec fn socket_of(d: DriverSettings) -> Option<Seq<char>> {
    match d {
        DriverSettings::Sunspec(s) => Some(s.address@),
        DriverSettings::Registers(s) => Some(s.address@),
        _ => None,
    }
}

/// Whether a driver's session is one this box opens, where to and with whom.
pub open spec fn dialled_of(d: DriverSettings) -> Option<(Seq<char>, Seq<char>)> {
    match d {
        DriverSettings::EebusDhw(s) => Some((s.address@, s.ski@)),
        DriverSettings::EebusEv(s) => Some((s.address@, s.ski@)),
        DriverSettings::EebusHeatPump(s) => Some((s.address@, s.ski@)),
        _ => None,
    }
}

/// Whether a driver's session is the one this box accepts.
pub open spec fn is_listening(d: DriverSettings, listens: bool) -> bool {
    d is EebusLpc && listens
}

/// Whether nothing can arrive for a driver.
pub open spec fn is_unreachable(d: DriverSettings, listens: bool) -> bool {
    d is EebusLpc && !listens
}

/// What moves a driver's bytes.
pub open spec fn is_carried_by(d: DriverSettings, listens: bool, c: Carrier) -> bool {
    match c {
        Carrier::Socket(address) => socket_of(d) == Some(address@),
        Carrier::Dialled(address, ski) => dialled_of(d) == Some((address@, ski@)),
        Carrier::Listener => is_listening(d, listens),
        Carrier::ClockOnly => is_unreachable(d, listens),
    }
}

/// Every driver is carried in exactly one way: none is left without a clock, and
/// none is given two.
pub proof fn every_driver_is_carried_one_way(d: DriverSettings, listens: bool, a: Carrier, b: Carrier)
    requires
        is_carried_by(d, listens, a),
        is_carried_by(d, listens, b),
    ensures
        a is Socket <==> b is Socket,
        a is Dialled <==> b is Dialled,
        a is Listener <==> b is Listener,
        a is ClockOnly <==> b is ClockOnly,
{
}

/// Where a driver's plain socket is. The others have none: their session is a
/// different thing altogether.
pub fn transport_address(settings: &DriverSettings) -> (r: Option<String>)
    ensures
        crate::runtime::fleet::told(r) == socket_of(*settings),
{
    match settings {
        DriverSettings::Sunspec(s) => Some(s.address.clone()),
        DriverSettings::Registers(s) => Some(s.address.clone()),
        _ => None,
    }
}

/// What moves a driver's bytes, on a box that accepts sessions or does not.
pub fn carrier_of(settings: &DriverSettings, listens: bool) -> (c: Carrier)
    ensures
        is_carried_by(*settings, listens, c),
{
    if let Some(address) = transport_address(settings) {
        return Carrier::Socket(address);
    }
    match settings {
        DriverSettings::EebusDhw(s) => Carrier::Dialled(s.address.clone(), s.ski.clone()),
        DriverSettings::EebusEv(s) => Carrier::Dialled(s.address.clone(), s.ski.clone()),
        DriverSettings::EebusHeatPump(s) => Carrier::Dialled(s.address.clone(), s.ski.clone()),
        _ => if listens {
            Carrier::Listener
        } else {
            Carrier::ClockOnly
        },
    }
}

/// A session this box opens.
#[derive(Debug)]
pub struct Dial {
    /// The driver it is for.
    pub on: Attached,
    /// Where to.
    pub address: String,
    /// With whom, as it is configured.
    pub ski: String,
}

/// What was started, and what is still to start once the box has an identity.
#[derive(Debug)]
pub struct Sessions {
    /// The sockets to open, each with its address.
    pub sockets: Vec<(Attached, String)>,
    /// The driver whose session this box accepts, where there is one.
    pub listening: Option<Attached>,
    /// The sessions this box opens.
    pub dialled: Vec<Dial>,
    /// The drivers nothing can arrive for.
    pub unreachable: Vec<Attached>,
}

/// The drivers of a list that something holds of, by their places.
pub open spec fn places(drivers: Seq<DriverSettings>, of: spec_fn(DriverSettings) -> bool) -> Seq<
    int,
>
    decreases drivers.len(),
{
    if drivers.len() == 0 {
        Seq::empty()
    } else {
        let before = places(drivers.drop_last(), of);
        if of(drivers.last()) {
            before.push(drivers.len() - 1)
        } else {
            before
        }
    }
}

/// Whether an attachment is the driver in one place.
pub open spec fn is_at(on: Attached, drivers: Seq<DriverSettings>, ids: Seq<DriverId>, i: int) -> bool {
    on.driver == ids[i] && on.asset@ == drivers[i].speaks_for()
}

/// Whether everything was sorted by what moves its bytes, in the order the drivers
/// are listed; where several are listened for, the last of them is.
pub open spec fn is_sorted_out(
    s: Sessions,
    drivers: Seq<DriverSettings>,
    ids: Seq<DriverId>,
    listens: bool,
) -> bool {
    let sockets = places(drivers, |d: DriverSettings| socket_of(d) is Some);
    let dialled = places(drivers, |d: DriverSettings| dialled_of(d) is Some);
    let listening = places(drivers, |d: DriverSettings| is_listening(d, listens));
    let unreachable = places(drivers, |d: DriverSettings| is_unreachable(d, listens));
    &&& s.sockets@.len() == sockets.len()
    &&& forall|k: int|
        0 <= k < sockets.len() ==> {
            let i = sockets[k];
            &&& is_at((#[trigger] s.sockets@[k]).0, drivers, ids, i)
            &&& Some(s.sockets@[k].1@) == socket_of(drivers[i])
        }
    &&& s.dialled@.len() == dialled.len()
    &&& forall|k: int|
        0 <= k < dialled.len() ==> {
            let i = dialled[k];
            &&& is_at((#[trigger] s.dialled@[k]).on, drivers, ids, i)
            &&& dialled_of(drivers[i]) == Some((s.dialled@[k].address@, s.dialled@[k].ski@))
        }
    &&& match s.listening {
        Some(on) => listening.len() > 0 && is_at(on, drivers, ids, listening.last()),
        None => listening.len() == 0,
    }
    &&& s.unreachable@.len() == unreachable.len()
    &&& forall|k: int|
        0 <= k < unreachable.len() ==> is_at(
            #[trigger] s.unreachable@[k],
            drivers,
            ids,
            unreachable[k],
        )
}

proof fn lemma_places(drivers: Seq<DriverSettings>, of: spec_fn(DriverSettings) -> bool)
    ensures
        places(drivers, of).len() <= drivers.len(),
        forall|k: int|
            0 <= k < places(drivers, of).len() ==> 0 <= #[trigger] places(drivers, of)[k]
                < drivers.len() && of(drivers[places(drivers, of)[k]]),
    decreases drivers.len(),
{
    if drivers.len() > 0 {
        lemma_places(drivers.drop_last(), of);
    }
}

proof fn lemma_one_more(drivers: Seq<DriverSettings>, n: int, of: spec_fn(DriverSettings) -> bool)
    requires
        0 <= n < drivers.len(),
    ensures
        places(drivers.take(n + 1), of) == if of(drivers[n]) {
            places(drivers.take(n), of).push(n)
        } else {
            places(drivers.take(n), of)
        },
        forall|k: int|
            0 <= k < places(drivers.take(n), of).len() ==> 0 <= #[trigger] places(
                drivers.take(n),
                of,
            )[k] < n,
{
    assert(drivers.take(n + 1).drop_last() =~= drivers.take(n));
    lemma_places(drivers.take(n), of);
}

/// Sort the drivers by what moves their bytes.
pub fn start_drivers(
    drivers: &Vec<DriverSettings>,
    ids: &Vec<DriverId>,
    listens: bool,
) -> (s: Sessions)
    requires
        drivers@.len() == ids@.len(),
    ensures
        is_sorted_out(s, drivers@, ids@, listens),
{
    let mut s = Sessions {
        sockets: Vec::new(),
        listening: None,
        dialled: Vec::new(),
        unreachable: Vec::new(),
    };
    let ghost is_socket = |d: DriverSettings| socket_of(d) is Some;
    let ghost is_dialled = |d: DriverSettings| dialled_of(d) is Some;
    let ghost is_heard = |d: DriverSettings| is_listening(d, listens);
    let ghost is_deaf = |d: DriverSettings| is_unreachable(d, listens);
    let mut i: usize = 0;
    assert(drivers@.take(0) =~= Seq::empty());
    while i < drivers.len()
        invariant
            i <= drivers@.len(),
            drivers@.len() == ids@.len(),
            is_sorted_out(s, drivers@.take(i as int), ids@, listens),
            is_socket == (|d: DriverSettings| socket_of(d) is Some),
            is_dialled == (|d: DriverSettings| dialled_of(d) is Some),
            is_heard == (|d: DriverSettings| is_listening(d, listens)),
            is_deaf == (|d: DriverSettings| is_unreachable(d, listens)),
        decreases drivers@.len() - i,
    {
        let driver = &drivers[i];
        let on = Attached { driver: ids[i], asset: driver.asset().to_owned() };
        let ghost before = drivers@.take(i as int);
        let ghost after = drivers@.take(i + 1);
        proof {
            lemma_one_more(drivers@, i as int, is_socket);
            lemma_one_more(drivers@, i as int, is_dialled);
            lemma_one_more(drivers@, i as int, is_heard);
            lemma_one_more(drivers@, i as int, is_deaf);
            lemma_places(before, is_heard);
            assert(forall|k: int| 0 <= k < i ==> before[k] == after[k]);
            assert(after[i as int] == drivers@[i as int]);
        }
        match carrier_of(driver, listens) {
            Carrier::Socket(address) => {
                s.sockets.push((on, address));
            },
            Carrier::Listener => {
                s.listening = Some(on);
            },
            Carrier::Dialled(address, ski) => {
                s.dialled.push(Dial { on, address, ski });
            },
            Carrier::ClockOnly => {
                s.unreachable.push(on);
            },
        }
        i = i + 1;
    }
    assert(drivers@.take(i as int) =~= drivers@);
    s
}

impl Sessions {
    /// Whether the box needs an identity: to be heard under, or to dial under.
    pub fn needs_an_identity(&self) -> (r: bool)
        ensures
            r == (self.listening is Some || self.dialled@.len() > 0),
    {
        self.listening.is_some() || self.dialled.len() > 0
    }

    /// What the health surface says of the network operator until one has spoken:
    /// that a reduction could not arrive, or that none has been announced yet.
    pub fn health(&self) -> (text: Option<&'static str>)
        ensures
            match text {
                Some(said) => said@ == if self.unreachable@.len() > 0 {
                    "an EEBUS driver is configured with no `[ship] listen`, so a § 14a reduction could not arrive"@
                } else {
                    "no Steuerbox has connected yet"@
                },
                None => true,
            },
            text is Some <==> self.unreachable@.len() > 0 || self.listening is Some,
    {
        if self.unreachable.len() > 0 {
            Some(
                "an EEBUS driver is configured with no `[ship] listen`, so a § 14a reduction could not arrive",
            )
        } else if self.listening.is_some() {
            Some("no Steuerbox has connected yet")
        } else {
            None
        }
    }
}

/// Whom each session is opened with; a text that is no identifier is refused, and
/// nothing is dialled.
pub fn start_dialled(dialled: &Vec<Dial>) -> (r: Result<Vec<[u8; 20]>, ShipError>)
    ensures
        match r {
            Ok(peers) => {
                &&& peers@.len() == dialled@.len()
                &&& forall|k: int|
                    0 <= k < dialled@.len() ==> crate::runtime::ship::ski_of(
                        dialled@[k].ski@,
                    ) == Some((#[trigger] peers@[k])@)
            },
            Err(e) => e matches ShipError::NotASki(text) && exists|k: int|
                {
                    &&& 0 <= k < dialled@.len()
                    &&& (#[trigger] dialled@[k]).ski@ == text@
                    &&& crate::runtime::ship::ski_of(text@) is None
                    &&& forall|j: int|
                        0 <= j < k ==> crate::runtime::ship::ski_of(
                            (#[trigger] dialled@[j]).ski@,
                        ) is Some
                },
        },
{
    let mut peers: Vec<[u8; 20]> = Vec::new();
    let mut k: usize = 0;
    while k < dialled.len()
        invariant
            k <= dialled@.len(),
            peers@.len() == k,
            forall|j: int|
                0 <= j < k ==> crate::runtime::ship::ski_of(dialled@[j].ski@) == Some(
                    (#[trigger] peers@[j])@,
                ),
        decreases dialled@.len() - k,
    {
        match read_ski(dialled[k].ski.as_str()) {
            Ok(ski) => {
                peers.push(ski);
            },
            Err(e) => {
                assert forall|j: int| 0 <= j < k implies crate::runtime::ship::ski_of(
                    (#[trigger] dialled@[j]).ski@,
                ) is Some by {
                    assert(peers@[j]@ == peers@[j]@);
                }
                assert(dialled@[k as int].ski@ == dialled@[k as int].ski@);
                return Err(e);
            },
        }
        k = k + 1;
    }
    Ok(peers)
}

// ── Whether the house can be planned and heated ─────────────────────────────

/// The outdoor temperature the heating is checked at, °C.
pub const NORM_AUSSENTEMPERATUR_C: i64 = -12_000_000;

/// The heat a unit delivers, in millionths of a millionth of a kilowatt: its
/// compressor by its coefficient of performance, and its heating rod as it is. A
/// resistive element puts in one kilowatt of heat for one of electricity.
pub open spec fn deliverable(nominal_kw: int, cop: int, rod_kw: int) -> int {
    nominal_kw * cop + rod_kw * crate::site::WHOLE
}

/// The heat pump of a house, as far as its heating is checked.
#[derive(Debug, Clone, Copy, PartialEq, Eq, Structural)]
pub struct Heating {
    /// The compressor's electrical power, kW.
    pub nominal_kw: Micros,
    /// The heating rod's, kW.
    pub rod_kw: Micros,
    /// The coefficient of performance at the temperature the check is made at.
    pub cop: Micros,
    /// The heat the house needs then to stay in its comfort band, kW.
    pub needed_kw: Micros,
}

/// Whether a heat pump holds the house at the temperature the check is made at.
pub open spec fn holds_the_house(h: Heating) -> bool {
    deliverable(h.nominal_kw as int, h.cop as int, h.rod_kw as int) >= h.needed_kw
        * crate::site::WHOLE
}

/// What a building's physics say before a planner is given it.
#[derive(Debug, Clone, Copy, PartialEq, Eq, Structural)]
pub enum Warmth {
    /// The house has no heat pump to check.
    Unheated,
    /// The heat pump holds it.
    Held,
    /// The heat pump cannot hold it, which is said and is no refusal.
    Short,
}

/// Whether the house the planner is about to be given is one it can plan.
///
/// `contracts` is whether the building's temperatures settle over a step of so many
/// minutes. A unit that is too small is a comfort problem and stops nothing.
pub fn check_the_physics(
    contracts: bool,
    step_minutes: u64,
    heating: Option<Heating>,
) -> (r: Result<Warmth, StartError>)
    ensures
        if !contracts {
            r matches Err(StartError::Physics(why)) && why@
                == "the building model does not contract over a "@ + crate::text::decimal(
                step_minutes as nat,
            )
                + " minute step, so the planner's own temperature predictions would diverge — check the thermal parameters"@
        } else {
            r == Ok::<Warmth, StartError>(
                match heating {
                    None => Warmth::Unheated,
                    Some(h) => if holds_the_house(h) {
                        Warmth::Held
                    } else {
                        Warmth::Short
                    },
                },
            )
        },
{
    if !contracts {
        let mut why = String::new();
        why.append("the building model does not contract over a ");
        crate::text::push_decimal(&mut why, step_minutes as u128);
        why.append(
            " minute step, so the planner's own temperature predictions would diverge — check the thermal parameters",
        );
        assert(why@ =~= "the building model does not contract over a "@ + crate::text::decimal(
            step_minutes as nat,
        )
            + " minute step, so the planner's own temperature predictions would diverge — check the thermal parameters"@);
        return Err(StartError::Physics(why));
    }
    match heating {
        None => Ok(Warmth::Unheated),
        Some(h) => {
            let compressor: i128 = product(h.nominal_kw, h.cop);
            let rod: i128 = h.rod_kw as i128 * 1_000_000;
            let needed: i128 = h.needed_kw as i128 * 1_000_000;
            if compressor + rod >= needed {
                Ok(Warmth::Held)
            } else {
                Ok(Warmth::Short)
            }
        },
    }
}

/// A heating rod is worth its own kilowatts and no more: to credit it with the
/// compressor's coefficient would be wrong by the coefficient less one, for every
/// kilowatt of it.
pub proof fn a_rod_is_worth_its_own_kilowatts(nominal_kw: int, cop: int, rod_kw: int)
    ensures
        (nominal_kw + rod_kw) * cop - deliverable(nominal_kw, cop, rod_kw) == rod_kw * (cop
            - crate::site::WHOLE),
{
    assert((nominal_kw + rod_kw) * cop == nominal_kw * cop + rod_kw * cop) by (nonlinear_arith);
    assert(rod_kw * (cop - 1_000_000) == rod_kw * cop - rod_kw * 1_000_000) by (nonlinear_arith);
}

/// How a roof lies, degrees.
#[derive(Debug, Clone, Copy, PartialEq, Eq, Structural)]
pub struct Pitch {
    /// Against the ground.
    pub tilt_deg: Micros,
    /// From north, by way of east.
    pub azimuth_deg: Micros,
}

/// A roof as the solar model sees it.
#[derive(Debug, Clone, Copy, PartialEq, Eq, Structural)]
pub struct ArrayModel {
    /// Installed power, kWp.
    pub kwp: Micros,
    /// The inverter's limit, kW.
    pub ac_kw: Micros,
    /// How it lies.
    pub pitch: Pitch,
}

/// The roof as the solar model sees it: how it lies is the roof's own, and a site
/// without one is a flat plane that faces south.
pub fn array_of(roof: Option<Pitch>, pv_kwp: Micros, pv_ac_kw: Micros) -> (a: ArrayModel)
    ensures
        a.kwp == pv_kwp,
        a.ac_kw == pv_ac_kw,
        a.pitch == match roof {
            Some(pitch) => pitch,
            None => Pitch { tilt_deg: 0, azimuth_deg: 180_000_000 },
        },
{
    let pitch = match roof {
        Some(pitch) => pitch,
        None => Pitch { tilt_deg: 0, azimuth_deg: 180_000_000 },
    };
    ArrayModel { kwp: pv_kwp, ac_kw: pv_ac_kw, pitch }
}

// ── What else runs ──────────────────────────────────────────────────────────

/// Whether a box plans, and against what.
#[derive(Debug, Clone, Copy, PartialEq, Eq, Structural)]
pub enum Planning {
    /// It cannot forecast its own roof, so it does not plan.
    NoWeather,
    /// It plans, and every hour costs the same to it.
    Flat,
    /// It plans.
    Priced,
}

/// Whether a box plans. One that knows no sky does not; one that knows no price and
/// has no fixed one plans without a spread to shift for.
pub fn planning(has_weather: bool, has_prices: bool, has_fixed: bool) -> (p: Planning)
    ensures
        p == if !has_weather {
            Planning::NoWeather
        } else if !has_prices && !has_fixed {
            Planning::Flat
        } else {
            Planning::Priced
        },
{
    if !has_weather {
        Planning::NoWeather
    } else if !has_prices && !has_fixed {
        Planning::Flat
    } else {
        Planning::Priced
    }
}

impl Planning {
    /// What the health surface says of the planner until it has produced a plan.
    pub fn health(&self) -> (text: &str)
        ensures
            text@ == match *self {
                Planning::NoWeather => "no forecastd is configured, so the box cannot plan"@,
                _ => "no plan has been produced yet"@,
            },
    {
        match self {
            Planning::NoWeather => "no forecastd is configured, so the box cannot plan",
            _ => "no plan has been produced yet",
        }
    }
}

/// Which driver says whether a car is there: the first charge point that does.
pub fn charging(drivers: &Vec<DriverSettings>) -> (r: Option<usize>)
    ensures
        match r {
            Some(i) => {
                &&& i < drivers@.len()
                &&& drivers@[i as int] is EebusEv
                &&& forall|j: int| 0 <= j < i ==> !(#[trigger] drivers@[j] is EebusEv)
            },
            None => forall|j: int| 0 <= j < drivers@.len() ==> !(#[trigger] drivers@[j] is EebusEv),
        },
{
    let mut i: usize = 0;
    while i < drivers.len()
        invariant
            i <= drivers@.len(),
            forall|j: int| 0 <= j < i ==> !(#[trigger] drivers@[j] is EebusEv),
        decreases drivers@.len() - i,
    {
        if let DriverSettings::EebusEv(_) = &drivers[i] {
            return Some(i);
        }
        i = i + 1;
    }
    None
}

/// Whether the box forwards its record.
#[derive(Debug, Clone, Copy, PartialEq, Eq, Structural)]
pub enum Forwarding {
    /// It does: how often, seconds, and how many rows of a report at once.
    Every(u64, usize),
    /// Somewhere to forward to is configured, and there is nothing to forward.
    NothingKept,
    /// It does not.
    Nowhere,
}

/// Whether the box forwards its record: it has to keep one, and somebody has to
/// take it. It tries no more often than every thirty seconds, and sends something.
pub fn forwarding(
    keeps: bool,
    has_outbox: bool,
    has_reporter: bool,
    settings: &Settings,
) -> (f: Forwarding)
    ensures
        f == if keeps && (has_outbox || has_reporter) {
            Forwarding::Every(
                if settings.histd.every_s < 30 {
                    30
                } else {
                    settings.histd.every_s
                },
                if settings.histd.batch < 1 {
                    1
                } else {
                    settings.histd.batch
                },
            )
        } else if (settings.histd.url is Some && settings.histd.site is Some)
            || settings.obsd.url is Some {
            Forwarding::NothingKept
        } else {
            Forwarding::Nowhere
        },
{
    if keeps && (has_outbox || has_reporter) {
        let every: u64 = if settings.histd.every_s < 30 {
            30
        } else {
            settings.histd.every_s
        };
        let batch: usize = if settings.histd.batch < 1 {
            1
        } else {
            settings.histd.batch
        };
        Forwarding::Every(every, batch)
    } else if settings.histd.is_configured() || settings.obsd.is_configured() {
        Forwarding::NothingKept
    } else {
        Forwarding::Nowhere
    }
}

// ── All of it together ──────────────────────────────────────────────────────

/// What a driver of a kind is for.
pub open spec fn declares(driver: DriverSettings) -> DriverCapabilities {
    let (commands, measures, on_change): (bool, bool, bool) = match driver {
        DriverSettings::Sunspec(s) => (!s.listens_only, true, false),
        DriverSettings::EebusLpc(_) => (false, false, false),
        DriverSettings::EebusDhw(_) => (true, true, true),
        DriverSettings::EebusEv(_) => (false, false, true),
        DriverSettings::EebusHeatPump(_) => (true, true, true),
        DriverSettings::Registers(_) => (false, true, false),
    };
    DriverCapabilities {
        accepts_commands: commands,
        measures,
        reports_grid_limits: driver is EebusLpc,
        reports_available_power: false,
        reports_on_change: on_change,
    }
}

/// What a driver of a kind is for. An inverter is read, and moved unless it is only
/// listened to. A tank and a heat pump that speak for themselves are read and moved
/// by one driver. A charge point's says which vehicle is there, beside whoever reads
/// and moves the charge point. A register map is only read, and the operator's box
/// is only heard.
pub fn declared(driver: &DriverSettings) -> (caps: DriverCapabilities)
    ensures
        caps == declares(*driver),
{
    match driver {
        DriverSettings::Sunspec(s) => if s.listens_only {
            DriverCapabilities::meter()
        } else {
            DriverCapabilities::device()
        },
        DriverSettings::EebusLpc(_) => DriverCapabilities::grid(),
        DriverSettings::EebusDhw(_) => DriverCapabilities::device().on_change(),
        DriverSettings::EebusEv(_) => DriverCapabilities::beside().on_change(),
        DriverSettings::EebusHeatPump(_) => DriverCapabilities::device().on_change(),
        DriverSettings::Registers(_) => DriverCapabilities::meter(),
    }
}

/// What one driver turned out to be.
#[derive(Debug, Clone, Copy, PartialEq, Eq, Structural)]
pub struct Made {
    /// What it can do.
    pub caps: DriverCapabilities,
    /// When it wants to be woken first.
    pub deadline: Instant,
}

/// What one driver turned out to be, or why it could not be built.
pub type Built = Result<Made, String>;

/// Whether a driver before one already commands the same device.
pub open spec fn commanded_before(
    drivers: Seq<DriverSettings>,
    built: Seq<Built>,
    i: int,
) -> bool {
    exists|j: int|
        {
            &&& 0 <= j < i
            &&& drivers[j].speaks_for() == drivers[i].speaks_for()
            &&& (#[trigger] built[j]) matches Ok(made)
            &&& made.caps.accepts_commands
        }
}

/// Whether a driver before one already measures the same device.
pub open spec fn measured_before(drivers: Seq<DriverSettings>, built: Seq<Built>, i: int) -> bool {
    exists|j: int|
        {
            &&& 0 <= j < i
            &&& drivers[j].speaks_for() == drivers[i].speaks_for()
            &&& (#[trigger] built[j]) matches Ok(made)
            &&& made.caps.measures
        }
}

/// Whether a driver can be registered after those before it.
pub open spec fn can_register(
    drivers: Seq<DriverSettings>,
    built: Seq<Built>,
    site: Site,
    i: int,
) -> bool {
    &&& built[i] matches Ok(made)
    &&& made.caps.reports_grid_limits || site.holds(drivers[i].speaks_for())
    &&& !(made.caps.accepts_commands && commanded_before(drivers, built, i))
    &&& !(made.caps.measures && measured_before(drivers, built, i))
}

/// Whether every driver up to one can be registered.
pub open spec fn all_register(
    drivers: Seq<DriverSettings>,
    built: Seq<Built>,
    site: Site,
    n: int,
) -> bool {
    forall|i: int| 0 <= i < n ==> #[trigger] can_register(drivers, built, site, i)
}

/// Whether an entry is that of a driver, just registered.
pub open spec fn is_registered(
    entry: crate::drivers::Entry,
    driver: DriverSettings,
    built: Built,
) -> bool {
    built matches Ok(made) && crate::drivers::is_fresh(
        entry,
        driver.speaks_for(),
        made.caps,
        made.deadline,
    )
}

/// Whether entries are those of the drivers, just registered, up to one.
pub open spec fn are_registered(
    entries: Seq<crate::drivers::Entry>,
    drivers: Seq<DriverSettings>,
    built: Seq<Built>,
    n: int,
) -> bool {
    &&& entries.len() == n
    &&& forall|i: int| 0 <= i < n ==> is_registered(#[trigger] entries[i], drivers[i], built[i])
}

/// A box that is ready to run.
pub struct Running {
    /// The house.
    pub site: Site,
    /// The drivers.
    pub registry: Registry,
    /// Each configured driver's identity, in the order they are configured.
    pub drivers: Vec<DriverId>,
}

/// Whether the settings describe a house.
pub open spec fn describes_a_house(settings: Settings) -> bool {
    exists|h: crate::site::HouseholdConfig| #[trigger]
        settings.site.is_household(settings.site.read_since(), Ok(h))
}

/// Whether one driver was refused for what it is: the site has no such device, or
/// somebody already plays its role.
pub open spec fn is_refused(
    e: RegistryError,
    drivers: Seq<DriverSettings>,
    built: Seq<Built>,
    site: Site,
    i: int,
) -> bool {
    let asset = drivers[i].speaks_for();
    &&& built[i] matches Ok(made)
    &&& if !made.caps.reports_grid_limits && !site.holds(asset) {
        e matches RegistryError::NoSuchAsset(named) && named@ == asset
    } else if made.caps.accepts_commands && commanded_before(drivers, built, i) {
        e matches RegistryError::Duplicate(named, role) && named@ == asset && role@ == "command"@
    } else {
        &&& made.caps.measures && measured_before(drivers, built, i)
        &&& e matches RegistryError::Duplicate(named, role)
        &&& named@ == asset
        &&& role@ == "measure"@
    }
}

/// Whether one driver could not be built.
pub open spec fn is_unbuilt(
    asset: Seq<char>,
    detail: Seq<char>,
    drivers: Seq<DriverSettings>,
    built: Seq<Built>,
    i: int,
) -> bool {
    built[i] matches Err(why) && detail == why@ && asset == drivers[i].speaks_for()
}

/// Whether the first driver that could not be registered was refused for what it is.
pub open spec fn some_is_refused(
    e: RegistryError,
    drivers: Seq<DriverSettings>,
    built: Seq<Built>,
    site: Site,
) -> bool {
    exists|i: int|
        {
            &&& 0 <= i < drivers.len()
            &&& all_register(drivers, built, site, i)
            &&& #[trigger] is_refused(e, drivers, built, site, i)
        }
}

/// Whether the first driver that could not be registered could not be built.
pub open spec fn some_is_unbuilt(
    asset: Seq<char>,
    detail: Seq<char>,
    drivers: Seq<DriverSettings>,
    built: Seq<Built>,
    site: Site,
) -> bool {
    exists|i: int|
        {
            &&& 0 <= i < drivers.len()
            &&& all_register(drivers, built, site, i)
            &&& #[trigger] is_unbuilt(asset, detail, drivers, built, i)
        }
}

/// Whether every driver is registered, and they were judged to be the site's.
pub open spec fn is_driven(
    drivers: Seq<DriverSettings>,
    built: Seq<Built>,
    site: Site,
    judged: Result<(), RegistryError>,
) -> bool {
    &&& all_register(drivers, built, site, drivers.len() as int)
    &&& exists|entries: Seq<crate::drivers::Entry>|
        {
            &&& #[trigger] are_registered(entries, drivers, built, drivers.len() as int)
            &&& crate::drivers::is_validated(entries, site, judged)
        }
}

/// Whether a box was put together, or refused for the first thing that stood in its
/// way: a house nobody described, a site that could not be built, a driver that
/// could not be built or registered, drivers that are not the site's, a calendar, a
/// building.
pub open spec fn is_assembled(
    settings: Settings,
    site: Result<Site, String>,
    built: Seq<Built>,
    physics: Result<(), String>,
    today: int,
    r: Result<Running, StartError>,
) -> bool {
    let drivers = settings.drivers@;
    let n = drivers.len() as int;
    match r {
        Err(StartError::Site(e)) => settings.site.is_household(settings.site.read_since(), Err(e)),
        Err(StartError::Build(why)) => describes_a_house(settings) && site == Err::<Site, String>(
            why,
        ),
        Err(StartError::Driver { asset, detail }) => {
            &&& describes_a_house(settings)
            &&& site matches Ok(house)
            &&& some_is_unbuilt(asset@, detail@, drivers, built, house)
        },
        Err(StartError::Drivers(e)) => {
            &&& describes_a_house(settings)
            &&& site matches Ok(house)
            &&& is_driven(drivers, built, house, Err(e)) || some_is_refused(
                e,
                drivers,
                built,
                house,
            )
        },
        Err(StartError::Modul3(why)) => {
            &&& describes_a_house(settings)
            &&& site matches Ok(house)
            &&& is_driven(drivers, built, house, Ok(()))
            &&& is_checked(settings, today, Err(StartError::Modul3(why)))
        },
        Err(StartError::Physics(why)) => {
            &&& describes_a_house(settings)
            &&& site matches Ok(house)
            &&& is_driven(drivers, built, house, Ok(()))
            &&& is_checked(settings, today, Ok(()))
            &&& physics == Err::<(), String>(why)
        },
        Ok(running) => {
            &&& describes_a_house(settings)
            &&& site == Ok::<Site, String>(running.site)
            &&& physics is Ok
            &&& is_checked(settings, today, Ok(()))
            &&& all_register(drivers, built, running.site, n)
            &&& are_registered(running.registry.drivers(), drivers, built, n)
            &&& crate::drivers::is_validated(running.registry.drivers(), running.site, Ok(()))
            &&& running.registry.is_consistent()
            &&& running.drivers@.len() == n
            &&& forall|i: int| 0 <= i < n ==> (#[trigger] running.drivers@[i]).0 == i
        },
    }
}

/// Put the house, the drivers and the registry together, and check that they agree.
///
/// `site` is the house the settings describe, or why it could not be built; `built`
/// is what each driver turned out to be; `physics` is whether the
/// planner can integrate the building.
pub fn assemble(
    settings: &Settings,
    site: Result<Site, String>,
    built: &Vec<Built>,
    physics: Result<(), String>,
    now: Instant,
) -> (r: Result<Running, StartError>)
    requires
        built@.len() == settings.drivers@.len(),
        crate::clock::in_local_calendar(now as int),
        settings.tariff.modul3 matches Some(m) ==> -9999 <= m.year <= 9999,
    ensures
        is_assembled(
            *settings,
            site,
            built@,
            physics,
            crate::clock::berlin_day(now as int),
            r,
        ),
{
    match settings.site.household() {
        Ok(h) => {
            assert(settings.site.is_household(settings.site.read_since(), Ok(h)));
        },
        Err(e) => {
            return Err(StartError::Site(e));
        },
    }
    let house = match site {
        Ok(house) => house,
        Err(why) => {
            return Err(StartError::Build(why));
        },
    };
    let mut registry = Registry::new();
    let mut ids: Vec<DriverId> = Vec::new();
    let mut i: usize = 0;
    while i < settings.drivers.len()
        invariant
            i <= settings.drivers@.len(),
            built@.len() == settings.drivers@.len(),
            describes_a_house(*settings),
            site == Ok::<Site, String>(house),
            registry.is_consistent(),
            all_register(settings.drivers@, built@, house, i as int),
            are_registered(registry.drivers(), settings.drivers@, built@, i as int),
            ids@.len() == i,
            forall|j: int| 0 <= j < i ==> (#[trigger] ids@[j]).0 == j,
        decreases settings.drivers@.len() - i,
    {
        let asset = settings.drivers[i].asset().to_owned();
        let made = match &built[i] {
            Ok(made) => *made,
            Err(why) => {
                assert(is_unbuilt(asset@, why@, settings.drivers@, built@, i as int));
                assert(some_is_unbuilt(asset@, why@, settings.drivers@, built@, house));
                return Err(StartError::Driver { asset, detail: why.clone() });
            },
        };
        let ghost entries = registry.drivers();
        proof {
            lemma_roles(entries, settings.drivers@, built@, i as int);
        }
        match registry.register(asset, made.caps, made.deadline, &house) {
            Ok(id) => {
                proof {
                    let now_registered = registry.drivers();
                    assert forall|j: int| 0 <= j < i + 1 implies is_registered(
                        #[trigger] now_registered[j],
                        settings.drivers@[j],
                        built@[j],
                    ) by {
                        if j < i {
                            assert(now_registered.drop_last()[j] == now_registered[j]);
                            assert(entries[j] == now_registered[j]);
                        }
                    }
                    assert(can_register(settings.drivers@, built@, house, i as int));
                }
                ids.push(id);
            },
            Err(e) => {
                assert(is_refused(e, settings.drivers@, built@, house, i as int));
                assert(some_is_refused(e, settings.drivers@, built@, house));
                return Err(StartError::Drivers(e));
            },
        }
        i = i + 1;
    }
    let judged = registry.validate(&house);
    assert(are_registered(
        registry.drivers(),
        settings.drivers@,
        built@,
        settings.drivers@.len() as int,
    ));
    assert(is_driven(settings.drivers@, built@, house, judged));
    if let Err(e) = judged {
        return Err(StartError::Drivers(e));
    }
    match check_modul3(settings, now) {
        Ok(_) => {},
        Err(e) => {
            return Err(e);
        },
    }
    if let Err(why) = physics {
        return Err(StartError::Physics(why));
    }
    Ok(Running { site: house, registry, drivers: ids })
}

proof fn lemma_roles(
    entries: Seq<crate::drivers::Entry>,
    drivers: Seq<DriverSettings>,
    built: Seq<Built>,
    i: int,
)
    requires
        0 <= i < drivers.len(),
        built.len() == drivers.len(),
        are_registered(entries, drivers, built, i),
    ensures
        crate::drivers::commanded(entries, drivers[i].speaks_for()) <==> commanded_before(
            drivers,
            built,
            i,
        ),
        crate::drivers::measured(entries, drivers[i].speaks_for()) <==> measured_before(
            drivers,
            built,
            i,
        ),
{
    let asset = drivers[i].speaks_for();
    assert forall|j: int| 0 <= j < i implies {
        &&& (#[trigger] entries[j]).asset@ == drivers[j].speaks_for()
        &&& built[j] matches Ok(made) && made.caps == entries[j].caps
    } by {
        assert(is_registered(entries[j], drivers[j], built[j]));
    }
    if commanded_before(drivers, built, i) {
        let j = choose|j: int|
            {
                &&& 0 <= j < i
                &&& drivers[j].speaks_for() == drivers[i].speaks_for()
                &&& (#[trigger] built[j]) matches Ok(made)
                &&& made.caps.accepts_commands
            };
        assert(entries[j].asset@ == asset);
    }
    if measured_before(drivers, built, i) {
        let j = choose|j: int|
            {
                &&& 0 <= j < i
                &&& drivers[j].speaks_for() == drivers[i].speaks_for()
                &&& (#[trigger] built[j]) matches Ok(made)
                &&& made.caps.measures
            };
        assert(entries[j].asset@ == asset);
    }
}

// ── What holds of a start ───────────────────────────────────────────────────

/// A delivery point may be billed in windows from the first of April 2025 on, with the flat
/// reduction and an intelligent metering system and without metered power.
pub proof fn a_delivery_point_may_be_billed_in_windows(at: DeliveryPoint, today: int)
    ensures
        is_eligible(at, today) <==> at.modul_1 && at.imsys && !at.rlm && today >= 2_460_767,
{
}

/// A household may be billed as its tariff says where it has no calendar and no module for
/// one, or where it has both, every quarter is one, the calendar can be traced, its delivery
/// point may be billed in windows and no rule is broken.
pub proof fn what_a_household_may_be_billed_on(
    tariff: TariffSettings,
    at: DeliveryPoint,
    today: int,
    verdict: Conformance,
    findings: Seq<char>,
)
    ensures
        tariff.modul != Modul::Modul3 ==> (modul3_refusal(tariff, at, today, verdict, findings)
            is None <==> tariff.modul3 is None),
        tariff.modul == Modul::Modul3 ==> (modul3_refusal(tariff, at, today, verdict, findings)
            is None <==> {
            &&& tariff.modul3 is Some
            &&& crate::config::all_quarters(tariff.modul3->Some_0.billed_quarters@)
            &&& tariff.modul3->Some_0.source is Some
            &&& at.modul_1 && at.imsys && !at.rlm && today >= 2_460_767
            &&& verdict != Conformance::Violates
        }),
{
}

/// A household's delivery point has an intelligent metering system where its roof was fitted
/// with one, and its calendar is assessed as it was transcribed.
pub proof fn a_calendar_is_assessed_as_it_was_transcribed(
    h: crate::site::HouseholdConfig,
    m: crate::config::Modul3Settings,
    at: DeliveryPoint,
)
    ensures
        point_of(h).modul_1,
        !point_of(h).rlm,
        point_of(h).imsys <==> h.pv is Some && h.pv->Some_0.para9.imsys_since is Some,
        calendar_of(m, at).year == m.year,
        calendar_of(m, at).hochtarif.0 == m.hochtarif_minutes[0],
        calendar_of(m, at).hochtarif.1 == m.hochtarif_minutes[1],
        calendar_of(m, at).niedertarif.0 == m.niedertarif_minutes[0],
        calendar_of(m, at).niedertarif.1 == m.niedertarif_minutes[1],
        calendar_of(m, at).quarters == crate::config::quarters_named(m.billed_quarters@),
        calendar_of(m, at).at == at,
{
}

/// What a household falls back to: what the operator wrote, its power and its time, and only
/// where nothing was written what is configured.
pub proof fn the_operators_failsafe_comes_first(
    written: Option<WrittenFailsafe>,
    configured: Micros,
    configured_for_s: u64,
    s: EebusSettings,
    owed: Micros,
)
    ensures
        written matches Some(w) ==> {
            let r = in_force(written, configured, configured_for_s);
            &&& r.0 == w.kw
            &&& w.minimum_s >= 0 ==> r.1 == w.minimum_s
            &&& w.minimum_s < 0 ==> r.1 == -w.minimum_s
            &&& failsafe_of(s, owed, written) == r
        },
        written is None ==> in_force(written, configured, configured_for_s).0 == configured
            && in_force(written, configured, configured_for_s).1 == configured_for_s,
        written is None ==> {
            let r = failsafe_of(s, owed, written);
            &&& s.failsafe_kw matches Some(kw) ==> r.0 == kw
            &&& s.failsafe_kw is None ==> r.0 == owed
            &&& s.failsafe_hours <= 5_124_095_576_030_431 ==> r.1 == 3600 * s.failsafe_hours
            &&& s.failsafe_hours > 5_124_095_576_030_431 ==> r.1 == u64::MAX
        },
{
}

/// Milliseconds are milliseconds, up to what a clock can hold; beyond that the fallback
/// stands. A text that is configured is the one that is used.
pub proof fn a_configured_figure_is_the_one_that_is_used(
    ms: u64,
    fallback: int,
    text: Option<String>,
    otherwise: Seq<char>,
)
    ensures
        ms <= i64::MAX ==> millis_or(ms, fallback) == 1_000_000 * ms,
        ms > i64::MAX ==> millis_or(ms, fallback) == 1_000_000 * fallback,
        text matches Some(t) ==> or_else(text, otherwise) == t@,
        text is None ==> or_else(text, otherwise) == otherwise,
{
}

/// A driver is built as it is configured: of its own kind, read at its own pace, named as it
/// is to be named, and with the failsafe that is in force.
pub proof fn a_driver_is_built_as_it_is_configured(
    plan: DriverPlan,
    settings: DriverSettings,
    owed: Micros,
    written: Option<WrittenFailsafe>,
    default: SpineIdentity,
)
    requires
        is_plan_of(plan, settings, owed, written, default),
    ensures
        plan is Sunspec <==> settings is Sunspec,
        plan is Lpc <==> settings is EebusLpc,
        plan is Ev <==> settings is EebusEv,
        plan is Dhw <==> settings is EebusDhw,
        plan is HeatPump <==> settings is EebusHeatPump,
        plan is Registers <==> settings is Registers,
        settings matches DriverSettings::Sunspec(s) ==> (plan matches DriverPlan::Sunspec {
            unit,
            cadence,
            listens_only,
            rating,
        } ==> {
            &&& unit == s.unit
            &&& listens_only == s.listens_only
            &&& rating == s.rating_kw
            &&& s.poll_ms <= i64::MAX ==> cadence.poll == 1_000_000 * s.poll_ms
            &&& s.timeout_ms <= i64::MAX ==> cadence.timeout == 1_000_000 * s.timeout_ms
        }),
        settings matches DriverSettings::Registers(s) ==> (plan matches DriverPlan::Registers {
            unit,
            cadence,
        } ==> {
            &&& unit == s.unit
            &&& s.poll_ms <= i64::MAX ==> cadence.poll == 1_000_000 * s.poll_ms
            &&& s.poll_ms > i64::MAX ==> cadence.poll == 1_000_000_000
            &&& s.timeout_ms <= i64::MAX ==> cadence.timeout == 1_000_000 * s.timeout_ms
            &&& s.timeout_ms > i64::MAX ==> cadence.timeout == 5_000_000_000
        }),
        settings matches DriverSettings::EebusLpc(s) ==> (plan matches DriverPlan::Lpc {
            failsafe,
            failsafe_for_s,
            identity,
        } ==> {
            &&& failsafe == failsafe_of(s, owed, written).0
            &&& failsafe_for_s == failsafe_of(s, owed, written).1
            &&& identity.vendor@ == or_else(s.spine_vendor, default.vendor@)
            &&& identity.unique@ == or_else(s.spine_unique, default.unique@)
        }),
        settings matches DriverSettings::EebusEv(s) ==> (plan matches DriverPlan::Ev(identity)
            ==> identity.vendor@ == or_else(s.spine_vendor, default.vendor@) && identity.unique@
            == or_else(s.spine_unique, default.unique@)),
        settings matches DriverSettings::EebusDhw(s) ==> (plan matches DriverPlan::Dhw(identity)
            ==> identity.vendor@ == or_else(s.spine_vendor, default.vendor@) && identity.unique@
            == or_else(s.spine_unique, default.unique@)),
        settings matches DriverSettings::EebusHeatPump(s) ==> (plan matches DriverPlan::HeatPump(
            identity,
        ) ==> identity.vendor@ == or_else(s.spine_vendor, default.vendor@) && identity.unique@
            == or_else(s.spine_unique, default.unique@)),
{
}

/// A driver of a device with a plain socket is reached at its own address; one that speaks
/// for itself is dialled at its own address and with its own peer; and the operator's box is
/// listened for, or nothing can arrive from it.
pub proof fn a_driver_is_reached_where_it_is(d: DriverSettings, listens: bool, c: Carrier)
    requires
        is_carried_by(d, listens, c),
    ensures
        d matches DriverSettings::Sunspec(s) ==> (c matches Carrier::Socket(address) && address@
            == s.address@),
        d matches DriverSettings::Registers(s) ==> (c matches Carrier::Socket(address) && address@
            == s.address@),
        d matches DriverSettings::EebusDhw(s) ==> (c matches Carrier::Dialled(address, ski)
            && address@ == s.address@ && ski@ == s.ski@),
        d matches DriverSettings::EebusEv(s) ==> (c matches Carrier::Dialled(address, ski)
            && address@ == s.address@ && ski@ == s.ski@),
        d matches DriverSettings::EebusHeatPump(s) ==> (c matches Carrier::Dialled(address, ski)
            && address@ == s.address@ && ski@ == s.ski@),
        d is EebusLpc && listens ==> c is Listener,
        d is EebusLpc && !listens ==> c is ClockOnly,
{
}

/// Where the drivers of a kind stand: each of them once, in order, and no other.
pub proof fn the_places_of_a_kind_are_all_of_them(
    drivers: Seq<DriverSettings>,
    of: spec_fn(DriverSettings) -> bool,
    i: int,
)
    requires
        0 <= i < drivers.len(),
    ensures
        of(drivers[i]) <==> places(drivers, of).contains(i),
        forall|j: int, k: int|
            0 <= j < k < places(drivers, of).len() ==> #[trigger] places(drivers, of)[j]
                < #[trigger] places(drivers, of)[k],
    decreases drivers.len(),
{
    let rest = drivers.drop_last();
    let n = drivers.len() - 1;
    let before = places(rest, of);
    let all = places(drivers, of);
    lemma_places(rest, of);
    lemma_places(drivers, of);
    if rest.len() > 0 {
        let at = if i < n {
            i
        } else {
            0
        };
        the_places_of_a_kind_are_all_of_them(rest, of, at);
    }
    assert forall|j: int, k: int| 0 <= j < k < all.len() implies #[trigger] all[j]
        < #[trigger] all[k] by {
        if k < before.len() {
            assert(all[j] == before[j] && all[k] == before[k]);
            assert(before[j] < before[k]);
        } else {
            assert(all[j] == before[j]);
        }
    }
    if i < n {
        assert(rest[i] == drivers[i]);
        if before.contains(i) {
            let j = before.index_of(i);
            assert(all[j] == i);
        }
        if all.contains(i) {
            let j = all.index_of(i);
            assert(all[j] == i);
            assert(j < before.len());
            assert(before[j] == i);
        }
    } else {
        if of(drivers[i]) {
            assert(all[all.len() - 1] == i);
        } else if all.contains(i) {
            let j = all.index_of(i);
            assert(all[j] == i);
            assert(before[j] == i);
        }
    }
}

/// Every driver is started once, in the way its bytes are moved, under its own identity and
/// for its own device.
pub proof fn every_driver_is_started_its_own_way(
    s: Sessions,
    drivers: Seq<DriverSettings>,
    ids: Seq<DriverId>,
    listens: bool,
    i: int,
)
    requires
        is_sorted_out(s, drivers, ids, listens),
        0 <= i < drivers.len(),
    ensures
        drivers[i] is Sunspec || drivers[i] is Registers ==> exists|k: int|
            0 <= k < s.sockets@.len() && (#[trigger] s.sockets@[k]).0.driver == ids[i]
                && s.sockets@[k].0.asset@ == drivers[i].speaks_for() && socket_of(drivers[i])
                == Some(s.sockets@[k].1@),
        drivers[i] is EebusDhw || drivers[i] is EebusEv || drivers[i] is EebusHeatPump
            ==> exists|k: int|
            0 <= k < s.dialled@.len() && (#[trigger] s.dialled@[k]).on.driver == ids[i]
                && s.dialled@[k].on.asset@ == drivers[i].speaks_for() && dialled_of(drivers[i])
                == Some((s.dialled@[k].address@, s.dialled@[k].ski@)),
        drivers[i] is EebusLpc && listens ==> s.listening is Some,
        drivers[i] is EebusLpc && !listens ==> exists|k: int|
            0 <= k < s.unreachable@.len() && (#[trigger] s.unreachable@[k]).driver == ids[i]
                && s.unreachable@[k].asset@ == drivers[i].speaks_for(),
{
    let is_socket = |d: DriverSettings| socket_of(d) is Some;
    let is_dialled = |d: DriverSettings| dialled_of(d) is Some;
    let is_heard = |d: DriverSettings| is_listening(d, listens);
    let is_deaf = |d: DriverSettings| is_unreachable(d, listens);
    the_places_of_a_kind_are_all_of_them(drivers, is_socket, i);
    the_places_of_a_kind_are_all_of_them(drivers, is_dialled, i);
    the_places_of_a_kind_are_all_of_them(drivers, is_heard, i);
    the_places_of_a_kind_are_all_of_them(drivers, is_deaf, i);
    if is_socket(drivers[i]) {
        let k = places(drivers, is_socket).index_of(i);
        assert(is_at(s.sockets@[k].0, drivers, ids, i));
    }
    if is_dialled(drivers[i]) {
        let k = places(drivers, is_dialled).index_of(i);
        assert(is_at(s.dialled@[k].on, drivers, ids, i));
    }
    if is_heard(drivers[i]) {
        let k = places(drivers, is_heard).index_of(i);
        assert(places(drivers, is_heard).len() > 0);
    }
    if is_deaf(drivers[i]) {
        let k = places(drivers, is_deaf).index_of(i);
        assert(is_at(s.unreachable@[k], drivers, ids, i));
    }
}

/// A heat pump holds a house where its compressor's heat and its rod's together are at least
/// what the house needs: a larger unit never holds less, and a needier house is never held
/// by what did not hold it before.
pub proof fn more_heat_never_holds_less(h: Heating, more: Heating)
    requires
        h.cop >= 0,
        more.cop == h.cop,
        more.nominal_kw >= h.nominal_kw,
        more.rod_kw >= h.rod_kw,
        more.needed_kw <= h.needed_kw,
        holds_the_house(h),
    ensures
        holds_the_house(more),
{
    assert(more.nominal_kw * h.cop >= h.nominal_kw * h.cop) by (nonlinear_arith)
        requires
            more.nominal_kw >= h.nominal_kw,
            h.cop >= 0,
    ;
}

/// What a unit delivers: the compressor's electricity times its coefficient, and the rod's
/// once.
pub proof fn a_house_is_held_by_compressor_and_rod(h: Heating)
    ensures
        holds_the_house(h) <==> h.nominal_kw * h.cop + 1_000_000 * h.rod_kw >= 1_000_000
            * h.needed_kw,
{
}

/// What each kind of driver is for: who moves a device, who measures it, who hears the
/// operator and who is told of changes.
pub proof fn each_kind_of_driver_has_its_role(d: DriverSettings)
    ensures
        declares(d).reports_grid_limits <==> d is EebusLpc,
        !declares(d).reports_available_power,
        d matches DriverSettings::Sunspec(s) ==> declares(d).measures && (
        declares(d).accepts_commands <==> !s.listens_only) && !declares(d).reports_on_change,
        d is EebusLpc ==> !declares(d).measures && !declares(d).accepts_commands
            && !declares(d).reports_on_change,
        d is EebusDhw || d is EebusHeatPump ==> declares(d).measures && declares(
            d,
        ).accepts_commands && declares(d).reports_on_change,
        d is EebusEv ==> !declares(d).measures && !declares(d).accepts_commands && declares(
            d,
        ).reports_on_change,
        d is Registers ==> declares(d).measures && !declares(d).accepts_commands && !declares(
            d,
        ).reports_on_change,
{
}

/// A charge point that is driven and measured by its inverter's protocol may be watched by
/// its own as well: the two share no role.
pub proof fn a_charge_point_may_be_driven_and_watched(driven: DriverSettings, watched: DriverSettings)
    requires
        watched is EebusEv,
    ensures
        !(declares(driven).accepts_commands && declares(watched).accepts_commands),
        !(declares(driven).measures && declares(watched).measures),
{
}

/// A box that is ready has the house that was built, one fresh driver for each that is
/// configured, in order, each for its own device and with what it turned out to be, and
/// drivers that are the site's. Nothing that stands in the way was passed over.
pub proof fn a_box_that_is_ready_is_the_one_that_was_configured(
    settings: Settings,
    site: Result<Site, String>,
    built: Seq<Built>,
    physics: Result<(), String>,
    today: int,
    running: Running,
    i: int,
)
    requires
        is_assembled(settings, site, built, physics, today, Ok(running)),
    ensures
        describes_a_house(settings),
        site == Ok::<Site, String>(running.site),
        physics is Ok,
        is_checked(settings, today, Ok(())),
        running.registry.drivers().len() == settings.drivers@.len(),
        running.drivers@.len() == settings.drivers@.len(),
        crate::drivers::is_validated(running.registry.drivers(), running.site, Ok(())),
        0 <= i < settings.drivers@.len() ==> {
            let entry = running.registry.drivers()[i];
            &&& running.drivers@[i].0 == i
            &&& entry.asset@ == settings.drivers@[i].speaks_for()
            &&& built[i] matches Ok(made)
            &&& entry.caps == made.caps
            &&& entry.deadline == made.deadline
            &&& entry.latest is None && entry.pending@.len() == 0
            &&& made.caps.reports_grid_limits || running.site.holds(entry.asset@)
        },
{
    if 0 <= i < settings.drivers@.len() {
        assert(is_registered(
            running.registry.drivers()[i],
            settings.drivers@[i],
            built[i],
        ));
        assert(can_register(settings.drivers@, built, running.site, i));
    }
}

/// A box is refused for a reason that holds: a house nobody described, a site that was not
/// built, a driver that was not, one that cannot be registered, or a building that cannot be
/// planned.
pub proof fn a_box_is_refused_for_a_reason_that_holds(
    settings: Settings,
    site: Result<Site, String>,
    built: Seq<Built>,
    physics: Result<(), String>,
    today: int,
    e: StartError,
)
    requires
        is_assembled(settings, site, built, physics, today, Err(e)),
    ensures
        e matches StartError::Site(why) ==> settings.site.is_household(
            settings.site.read_since(),
            Err(why),
        ),
        e matches StartError::Build(why) ==> site == Err::<Site, String>(why),
        e matches StartError::Driver { asset, detail } ==> exists|i: int|
            0 <= i < settings.drivers@.len() && (#[trigger] built[i] matches Err(why) && why@
                == detail@) && settings.drivers@[i].speaks_for() == asset@,
        e matches StartError::Physics(why) ==> physics == Err::<(), String>(why),
        !(e is Site) ==> describes_a_house(settings),
        !(e is Site) && !(e is Build) ==> site is Ok,
{
    if let StartError::Driver { asset, detail } = e {
        let house = site->Ok_0;
        let drivers = settings.drivers@;
        let i = choose|i: int|
            {
                &&& 0 <= i < drivers.len()
                &&& all_register(drivers, built, house, i)
                &&& #[trigger] is_unbuilt(asset@, detail@, drivers, built, i)
            };
        assert(built[i] is Err);
    }
}

/// A box with no module is started whatever its household is, unless a calendar stands
/// there that nothing would read; one with a traceable calendar is refused for its
/// household where that cannot be read, and otherwise started exactly where the
/// household may be billed on the calendar today.
pub proof fn a_box_is_started_where_it_may_be_billed(
    settings: Settings,
    house: Result<crate::site::HouseholdConfig, SettingsError>,
    today: int,
    r: Result<(), StartError>,
)
    requires
        is_checked_in(settings, house, today, r),
    ensures
        r matches Err(e) ==> e is Site || e is Modul3,
        settings.tariff.modul != Modul::Modul3 ==> (r is Ok <==> settings.tariff.modul3 is None),
        settings.tariff.modul == Modul::Modul3 && settings.tariff.modul3 is None ==> r is Err
            && r->Err_0 is Modul3,
        r matches Err(StartError::Site(e)) ==> house == Err::<
            crate::site::HouseholdConfig,
            SettingsError,
        >(e),
        r is Ok && settings.tariff.modul == Modul::Modul3 ==> {
            &&& house is Ok
            &&& today >= 2_460_767
            &&& house->Ok_0.pv is Some && house->Ok_0.pv->Some_0.para9.imsys_since is Some
            &&& settings.tariff.modul3->Some_0.source is Some
        },
        asks_the_site(settings.tariff) && house is Err ==> r == Err::<(), StartError>(
            StartError::Site(house->Err_0),
        ),
        ({
            &&& asks_the_site(settings.tariff)
            &&& house matches Ok(h)
            &&& h.pv is Some && h.pv->Some_0.para9.imsys_since is Some
            &&& today >= 2_460_767
            &&& assessment(calendar_of(settings.tariff.modul3->Some_0, point_of(h))).0
                != Conformance::Violates
        }) ==> r is Ok,
{
}

} // verus!

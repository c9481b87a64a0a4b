//! What the box will tell you about itself.
//!
//! Nothing here commands a device. What a household asks for changes what the
//! arbiter wants, which the guard then narrows like anything else.

use vstd::prelude::*;

use crate::clock::{rfc3339, Instant, HOUR, MINUTE};
use crate::names::ByName;
use crate::runtime::access::{generate, LocalAccess, NoEntropy};
use crate::runtime::control::{copy_by_name, copy_texts, Exposure, RoofHealth, Status};
use crate::runtime::overrides::{Held, Overrides, UserOverride};
use crate::runtime::s2::CemStatus;
use crate::runtime::ship::{ShipError, StoredIdentity, Trust, Waiting};
use crate::text::trim;

verus! {

/// The request cannot be read.
pub const BAD_REQUEST: u16 = 400;

/// There is nothing of that name.
pub const NOT_FOUND: u16 = 404;

/// It is done, and there is nothing to say.
pub const NO_CONTENT: u16 = 204;

/// The box itself is not able to.
pub const INTERNAL_SERVER_ERROR: u16 = 500;

/// A request that was turned down: the status, and what is said with it.
#[derive(Debug)]
pub struct TurnedDown {
    /// The status.
    pub status: u16,
    /// What is said with it.
    pub said: String,
}

// ── What it is doing ────────────────────────────────────────────────────────

/// The clock face of a quarter hour of the local day.
pub open spec fn clock_face(index: int) -> Seq<char> {
    crate::text::zero_padded_at_least((index / 4) as nat, 2).push(':')
        + crate::text::zero_padded_at_least((index % 4 * 15) as nat, 2)
}

/// A quarter hour of the local day as the clock face it names.
pub fn quarter_hour(index: u32) -> (face: String)
    ensures
        face@ == clock_face(index as int),
{
    let mut face = String::new();
    crate::text::push_at_least(&mut face, (index / 4) as u128, 2);
    face.push(':');
    crate::text::push_at_least(&mut face, (index % 4 * 15) as u128, 2);
    assert(face@ =~= clock_face(index as int));
    face
}

/// How often the operator reduces this household, and when.
#[derive(Debug)]
pub struct ExposureBody {
    /// How many days of record the figures are drawn from.
    pub days_of_record: i64,
    /// For how long the household was reduced over that record, seconds.
    pub seconds_reduced: u64,
    /// The quarter hour it happens in most often, as a clock face.
    pub busiest_quarter_hour: Option<String>,
    /// How often a reduction is in force in it, in millionths.
    pub busiest_frequency_ppm: u32,
    /// The ceiling typically commanded there, in milliwatts.
    pub typical_ceiling_mw: Option<i64>,
}

/// Whether a body shows an exposure.
pub open spec fn shows_exposure(b: ExposureBody, e: Exposure) -> bool {
    &&& b.days_of_record == e.days_of_record
    &&& b.seconds_reduced == e.seconds_reduced
    &&& b.busiest_frequency_ppm == e.busiest_frequency_ppm
    &&& b.typical_ceiling_mw == e.typical_ceiling_mw
    &&& match e.busiest_quarter_hour {
        Some(q) => b.busiest_quarter_hour matches Some(face) && face@ == clock_face(q as int),
        None => b.busiest_quarter_hour is None,
    }
}

fn show_exposure(e: &Exposure) -> (b: ExposureBody)
    ensures
        shows_exposure(b, *e),
{
    ExposureBody {
        days_of_record: e.days_of_record,
        seconds_reduced: e.seconds_reduced,
        busiest_quarter_hour: match e.busiest_quarter_hour {
            Some(q) => Some(quarter_hour(q)),
            None => None,
        },
        busiest_frequency_ppm: e.busiest_frequency_ppm,
        typical_ceiling_mw: e.typical_ceiling_mw,
    }
}

/// Whether two accounts of a roof say the same.
pub open spec fn same_health(a: RoofHealth, b: RoofHealth) -> bool {
    &&& a.performance_ratio_ppm == b.performance_ratio_ppm
    &&& a.baseline_ppm == b.baseline_ppm
    &&& a.verdict@ == b.verdict@
}

fn copy_health(h: &RoofHealth) -> (c: RoofHealth)
    ensures
        same_health(c, *h),
{
    RoofHealth {
        performance_ratio_ppm: h.performance_ratio_ppm,
        baseline_ppm: h.baseline_ppm,
        verdict: h.verdict.clone(),
    }
}

/// One turn of the control loop, as a page shows it.
#[derive(Debug)]
pub struct StatusBody {
    /// Which household.
    pub site: String,
    /// The box's own key identifier, where it has one.
    pub ski: Option<String>,
    /// When the last turn ran.
    pub at: Option<String>,
    /// What every device was last told, in milliwatts.
    pub commanded_mw: ByName<i64>,
    /// The devices no driver has been heard from.
    pub silent: Vec<String>,
    /// Devices whose available power is a nameplate rather than a reading.
    pub assumed_available: Vec<String>,
    /// Controllable devices no driver speaks for.
    pub undriven: Vec<String>,
    /// Whether the roof is still delivering what it used to.
    pub roof_health: Option<RoofHealth>,
    /// Devices that answered their last setpoint and did not act on it, and why.
    pub disobedient: ByName<String>,
    /// The ceiling in force, in milliwatts.
    pub steuve_ceiling_mw: Option<i64>,
    /// What the controllable devices may draw together.
    pub steuve_budget_mw: Option<i64>,
    /// What they draw from the grid.
    pub netzwirksam_mw: Option<i64>,
    /// How far the meter is from the sum of the devices.
    pub balance_residual_mw: Option<i64>,
    /// How old the plan in force is, minutes; none where there never was one.
    pub minutes_without_a_plan: Option<i64>,
    /// What the plan in force expects its horizon to cost.
    pub plan_expected_eur: Option<i64>,
    /// What the same horizon would cost unmanaged.
    pub plan_baseline_eur: Option<i64>,
    /// How many turns took longer than a control period.
    pub overruns: u64,
    /// How exposed this connection is; none until there is a record to draw on.
    pub exposure: Option<ExposureBody>,
    /// Devices that were taken to draw their nameplate power.
    pub assumed_nominal: Vec<String>,
    /// Devices a rule decided for, and the rule.
    pub overriding: ByName<String>,
    /// What the energy managers ask for.
    pub cem: CemStatus,
}

/// Whether two lists hold the same pairs of texts.
pub open spec fn same_pairs(a: Seq<(String, String)>, b: Seq<(String, String)>) -> bool {
    &&& a.len() == b.len()
    &&& forall|i: int|
        0 <= i < a.len() ==> (#[trigger] a[i]).0@ == b[i].0@ && a[i].1@ == b[i].1@
}

/// Whether two screens say the same of the managers.
pub open spec fn same_managers(a: CemStatus, b: CemStatus) -> bool {
    &&& crate::runtime::control::same_texts(a.connected@, b.connected@)
    &&& crate::runtime::control::same_texts(a.instructing@, b.instructing@)
    &&& same_pairs(a.overridden@, b.overridden@)
    &&& a.refused == b.refused
    &&& a.unactioned == b.unactioned
}

fn copy_managers(held: &CemStatus) -> (c: CemStatus)
    ensures
        same_managers(c, *held),
{
    let mut overridden: Vec<(String, String)> = Vec::new();
    let mut i: usize = 0;
    while i < held.overridden.len()
        invariant
            i <= held.overridden@.len(),
            same_pairs(overridden@, held.overridden@.take(i as int)),
        decreases held.overridden@.len() - i,
    {
        overridden.push((held.overridden[i].0.clone(), held.overridden[i].1.clone()));
        i = i + 1;
    }
    assert(held.overridden@.take(i as int) =~= held.overridden@);
    CemStatus {
        connected: copy_texts(&held.connected),
        instructing: copy_texts(&held.instructing),
        overridden,
        refused: held.refused,
        unactioned: held.unactioned,
    }
}

/// Whether two collections hold the same texts under the same names.
pub open spec fn same_by_name(a: Map<Seq<char>, String>, b: Map<Seq<char>, String>) -> bool {
    &&& a.dom() == b.dom()
    &&& forall|k: Seq<char>| #[trigger] a.dom().contains(k) ==> a[k]@ == b[k]@
}

/// Whether a page shows what the control loop holds, every figure of it.
pub open spec fn shows(b: StatusBody, held: Status) -> bool {
    &&& match held.at {
        Some(at) => b.at matches Some(text) && text@ == crate::clock::rfc3339_text(at as int),
        None => b.at is None,
    }
    &&& b.commanded_mw@ == held.commanded@
    &&& crate::runtime::control::same_texts(b.silent@, held.silent@)
    &&& crate::runtime::control::same_texts(b.assumed_available@, held.assumed_available@)
    &&& crate::runtime::control::same_texts(b.undriven@, held.undriven@)
    &&& same_by_name(b.disobedient@, held.disobedient@)
    &&& match held.roof_health {
        Some(h) => b.roof_health matches Some(shown) && same_health(shown, h),
        None => b.roof_health is None,
    }
    &&& b.steuve_ceiling_mw == held.steuve_ceiling_mw
    &&& b.steuve_budget_mw == held.steuve_budget_mw
    &&& b.netzwirksam_mw == held.netzwirksam_mw
    &&& b.balance_residual_mw == held.balance_residual_mw
    &&& b.minutes_without_a_plan == if held.minutes_without_a_plan == i64::MAX {
        None
    } else {
        Some(held.minutes_without_a_plan)
    }
    &&& b.plan_expected_eur == held.plan_expected_eur
    &&& b.plan_baseline_eur == held.plan_baseline_eur
    &&& b.overruns == held.overruns
    &&& match held.exposure {
        Some(e) => b.exposure matches Some(body) && shows_exposure(body, e),
        None => b.exposure is None,
    }
    &&& crate::runtime::control::same_texts(b.assumed_nominal@, held.assumed_nominal@)
    &&& same_by_name(b.overriding@, held.overriding@)
    &&& same_managers(b.cem, held.cem)
}

/// What the box is doing. An age that stands for no plan at all is not shown as a
/// number nobody could act on.
pub fn status(held: &Status, site: &str, ski: Option<&str>) -> (b: StatusBody)
    requires
        held.at matches Some(at) ==> crate::clock::in_calendar(at as int),
        held.commanded.in_order(),
        held.disobedient.in_order(),
        held.overriding.in_order(),
    ensures
        b.site@ == site@,
        match ski {
            Some(s) => b.ski matches Some(shown) && shown@ == s@,
            None => b.ski is None,
        },
        b.commanded_mw.in_order(),
        b.disobedient.in_order(),
        b.overriding.in_order(),
        shows(b, *held),
{
    StatusBody {
        site: site.to_owned(),
        ski: match ski {
            Some(s) => Some(s.to_owned()),
            None => None,
        },
        at: match held.at {
            Some(at) => Some(rfc3339(at)),
            None => None,
        },
        commanded_mw: held.commanded.copied(),
        silent: copy_texts(&held.silent),
        assumed_available: copy_texts(&held.assumed_available),
        undriven: copy_texts(&held.undriven),
        disobedient: copy_by_name(&held.disobedient),
        roof_health: match &held.roof_health {
            Some(h) => Some(copy_health(h)),
            None => None,
        },
        steuve_ceiling_mw: held.steuve_ceiling_mw,
        steuve_budget_mw: held.steuve_budget_mw,
        netzwirksam_mw: held.netzwirksam_mw,
        balance_residual_mw: held.balance_residual_mw,
        minutes_without_a_plan: if held.minutes_without_a_plan == i64::MAX {
            None
        } else {
            Some(held.minutes_without_a_plan)
        },
        plan_expected_eur: held.plan_expected_eur,
        plan_baseline_eur: held.plan_baseline_eur,
        overruns: held.overruns,
        exposure: match &held.exposure {
            Some(e) => Some(show_exposure(e)),
            None => None,
        },
        assumed_nominal: copy_texts(&held.assumed_nominal),
        overriding: copy_by_name(&held.overriding),
        cem: copy_managers(&held.cem),
    }
}

// ── Energy managers ─────────────────────────────────────────────────────────

/// A manager that has just been connected, and the credential it presents.
#[derive(Debug)]
pub struct Connected {
    /// What the household called it.
    pub name: String,
    /// The token it presents. Shown once.
    pub token: String,
}

/// Whether a household would recognise a name: it says something, in at most
/// sixty-four characters.
pub open spec fn is_a_name(name: Seq<char>) -> bool {
    crate::text::trimmed(name).len() > 0 && name.len() <= 64
}

/// Whether a manager may be connected under a name.
pub fn may_be_named(name: &str) -> (r: Result<(), TurnedDown>)
    ensures
        r is Ok <==> is_a_name(name@),
        r matches Err(t) ==> t.status == BAD_REQUEST && t.said@
            == "a manager needs a name a household would recognise, of at most 64 characters"@,
{
    if trim(name).unicode_len() == 0 || name.unicode_len() > 64 {
        return Err(
            TurnedDown {
                status: BAD_REQUEST,
                said:
                    "a manager needs a name a household would recognise, of at most 64 characters".to_owned(),
            },
        );
    }
    Ok(())
}

/// Whether an answer to connecting a manager is right: a name nobody would recognise
/// and a token that could not be drawn change nothing, and otherwise the manager is let
/// in under its name with the token it is told.
pub open spec fn is_connected_as(
    before: LocalAccess,
    after: LocalAccess,
    name: Seq<char>,
    drawn: Result<Seq<char>, NoEntropy>,
    r: Result<Connected, TurnedDown>,
) -> bool {
    match (is_a_name(name), drawn) {
        (false, _) => {
            &&& after == before
            &&& r matches Err(t)
            &&& t.status == BAD_REQUEST
            &&& t.said@
                == "a manager needs a name a household would recognise, of at most 64 characters"@
        },
        (true, Err(_)) => {
            &&& after == before
            &&& r matches Err(t)
            &&& t.status == INTERNAL_SERVER_ERROR
            &&& t.said@ == "the machine has no entropy to give"@
        },
        (true, Ok(token)) => {
            &&& r matches Ok(connected)
            &&& connected.name@ == name
            &&& connected.token@ == token
            &&& after.is_sound()
            &&& after.household() == before.household()
            &&& after.own_token() == before.own_token()
            &&& after.connected() == crate::runtime::access::rotated(
                before.connected(),
                name,
                token,
            )
        },
    }
}

/// The text of a token that was drawn.
pub open spec fn drawn_text(drawn: Result<String, NoEntropy>) -> Result<Seq<char>, NoEntropy> {
    match drawn {
        Ok(token) => Ok(token@),
        Err(e) => Err(e),
    }
}

/// Connect a manager with a token that was or was not drawn for it.
pub fn connect_manager_with(
    access: &mut LocalAccess,
    name: &str,
    drawn: Result<String, NoEntropy>,
) -> (r: Result<Connected, TurnedDown>)
    requires
        old(access).is_sound(),
    ensures
        is_connected_as(*old(access), *final(access), name@, drawn_text(drawn), r),
        r matches Ok(connected) ==> crate::runtime::access::opens(
            final(access).granted(),
            connected.token@,
        ),
{
    if let Err(refused) = may_be_named(name) {
        return Err(refused);
    }
    let token = match drawn {
        Ok(token) => token,
        Err(_) => {
            return Err(
                TurnedDown {
                    status: INTERNAL_SERVER_ERROR,
                    said: "the machine has no entropy to give".to_owned(),
                },
            );
        },
    };
    access.connect_manager(name, token.as_str());
    proof {
        crate::runtime::access::naming_a_manager_again_rotates_its_token(
            *old(access),
            *access,
            name@,
            token@,
            token@,
        );
    }
    Ok(Connected { name: name.to_owned(), token })
}

/// Connect a manager with a fresh token, which it is told once. A name nobody would
/// recognise draws none and changes nothing. Which token is drawn, and whether the
/// machine has the randomness for it, is chance.
pub fn connect_manager(access: &mut LocalAccess, name: &str) -> (r: Result<Connected, TurnedDown>)
    requires
        old(access).is_sound(),
    ensures
        !is_a_name(name@) ==> is_connected_as(
            *old(access),
            *final(access),
            name@,
            Err(NoEntropy),
            r,
        ),
        is_a_name(name@) ==> match r {
            Ok(connected) => {
                &&& connected.token@.len() == 64
                &&& crate::runtime::access::is_hex(connected.token@)
                &&& is_connected_as(*old(access), *final(access), name@, Ok(connected.token@), r)
                &&& crate::runtime::access::opens(final(access).granted(), connected.token@)
            },
            Err(_) => is_connected_as(*old(access), *final(access), name@, Err(NoEntropy), r),
        },
{
    if let Err(refused) = may_be_named(name) {
        return Err(refused);
    }
    connect_manager_with(access, name, generate())
}

/// What withdrawing something is answered, by whether it was there.
pub fn withdrawn(existed: bool) -> (status: u16)
    ensures
        status == if existed {
            NO_CONTENT
        } else {
            NOT_FOUND
        },
{
    if existed {
        NO_CONTENT
    } else {
        NOT_FOUND
    }
}

// ── The measurement series ──────────────────────────────────────────────────

/// The window a series is asked for.
#[derive(Debug, Clone, Copy, PartialEq, Eq)]
pub struct Asked {
    /// The first instant; an hour before the last where nobody said.
    pub from: Option<Instant>,
    /// The instant after the last; now where nobody said.
    pub to: Option<Instant>,
}

/// When a window ends.
pub open spec fn asked_to(asked: Asked, now: int) -> int {
    match asked.to {
        Some(to) => to as int,
        None => now,
    }
}

/// When it begins.
pub open spec fn asked_from(asked: Asked, now: int) -> int {
    match asked.from {
        Some(from) => from as int,
        None => asked_to(asked, now) - HOUR,
    }
}

/// The window a series is read over, or the status that answers the question: a box
/// that keeps none says so, which is not the same as having nothing to show.
pub fn series(keeps: bool, asked: Asked, now: Instant) -> (r: Result<(Instant, Instant), u16>)
    requires
        crate::clock::in_calendar(now as int),
        asked.to matches Some(to) ==> crate::clock::in_calendar(to as int),
    ensures
        r == if !keeps {
            Err::<(Instant, Instant), u16>(NOT_FOUND)
        } else if asked_to(asked, now as int) <= asked_from(asked, now as int) {
            Err(BAD_REQUEST)
        } else {
            Ok((asked_from(asked, now as int) as i128, asked_to(asked, now as int) as i128))
        },
{
    if !keeps {
        return Err(NOT_FOUND);
    }
    let to: Instant = match asked.to {
        Some(to) => to,
        None => now,
    };
    let from: Instant = match asked.from {
        Some(from) => from,
        None => to - HOUR,
    };
    if to <= from {
        return Err(BAD_REQUEST);
    }
    Ok((from, to))
}

/// A screen that asks for no window is given the last hour.
pub proof fn no_window_is_the_last_hour(asked: Asked, now: int)
    requires
        asked.from is None,
        asked.to is None,
    ensures
        asked_from(asked, now) == now - HOUR,
        asked_to(asked, now) == now,
        asked_from(asked, now) < asked_to(asked, now),
{
}

// ── What the household asks for ─────────────────────────────────────────────

/// What the household is asking for, and for how long.
#[derive(Debug, Clone, Copy, PartialEq, Eq)]
pub struct OverrideBody {
    /// What.
    pub what: UserOverride,
    /// For how long, minutes; the default where nobody said.
    pub minutes: Option<i64>,
}

/// One override in force.
#[derive(Debug)]
pub struct OverrideView {
    /// Which device.
    pub asset: String,
    /// What was asked for.
    pub what: UserOverride,
    /// When it stops applying.
    pub until: String,
}

/// Whether a view shows an override.
pub open spec fn views(v: OverrideView, asset: Seq<char>, held: Held) -> bool {
    &&& v.asset@ == asset
    &&& v.what == held.what
    &&& v.until@ == crate::clock::rfc3339_text(held.until as int)
}

/// For how long a household asked, nanoseconds.
pub open spec fn asked_for(body: OverrideBody) -> Option<i128> {
    match body.minutes {
        Some(m) => Some((m * MINUTE) as i128),
        None => None,
    }
}

/// What an override that is asked for becomes.
pub open spec fn held_for(body: OverrideBody, now: int) -> Held {
    Held {
        what: body.what,
        until: (now + crate::runtime::overrides::lasting(asked_for(body))) as i128,
    }
}

/// Ask for an override, or the status that answers the question: a text that can be
/// no device's is turned down, and nothing changes.
pub fn set_override(
    overrides: &mut Overrides,
    asset: &str,
    is_an_identifier: bool,
    body: OverrideBody,
    now: Instant,
) -> (r: Result<OverrideView, u16>)
    requires
        old(overrides).in_order(),
        crate::clock::in_local_calendar(now as int),
        body.minutes matches Some(m) ==> -153_722_867_280_912_930 <= m <= 153_722_867_280_912_930,
    ensures
        final(overrides).in_order(),
        if is_an_identifier {
            &&& r matches Ok(v)
            &&& views(v, asset@, held_for(body, now as int))
            &&& final(overrides)@ == old(overrides)@.insert(asset@, held_for(body, now as int))
        } else {
            &&& r == Err::<OverrideView, u16>(BAD_REQUEST)
            &&& final(overrides)@ == old(overrides)@
        },
{
    if !is_an_identifier {
        return Err(BAD_REQUEST);
    }
    let for_: Option<i128> = match body.minutes {
        Some(m) => Some(m as i128 * MINUTE),
        None => None,
    };
    proof {
        crate::runtime::overrides::an_override_lasts_at_most_a_day(for_);
    }
    let held = overrides.set(asset.to_owned(), body.what, for_, now);
    Ok(OverrideView { asset: asset.to_owned(), what: held.what, until: rfc3339(held.until) })
}

/// Withdraw an override: what it is answered. A text that can be no device's is
/// turned down, and one that is not in force was not there.
pub fn clear_override(
    overrides: &mut Overrides,
    asset: &str,
    is_an_identifier: bool,
    now: Instant,
) -> (status: u16)
    requires
        old(overrides).in_order(),
    ensures
        final(overrides).in_order(),
        final(overrides)@ == if is_an_identifier {
            old(overrides)@.remove(asset@)
        } else {
            old(overrides)@
        },
        status == if !is_an_identifier {
            BAD_REQUEST
        } else if crate::runtime::overrides::applying(old(overrides)@, now as int).contains_key(
            asset@,
        ) {
            NO_CONTENT
        } else {
            NOT_FOUND
        },
{
    if !is_an_identifier {
        return BAD_REQUEST;
    }
    let existed = overrides.clear(asset, now);
    withdrawn(existed)
}

/// What is in force.
pub fn list_overrides(overrides: &mut Overrides, now: Instant) -> (list: Vec<OverrideView>)
    requires
        old(overrides).in_order(),
    ensures
        final(overrides).in_order(),
        final(overrides)@ == crate::runtime::overrides::applying(old(overrides)@, now as int),
        exists|listed: Seq<(String, Held)>|
            {
                &&& #[trigger] crate::names::ascending(listed)
                &&& crate::names::as_map(listed) == final(overrides)@
                &&& list@.len() == listed.len()
                &&& forall|i: int|
                    0 <= i < listed.len() ==> views(
                        #[trigger] list@[i],
                        listed[i].0@,
                        listed[i].1,
                    )
            },
{
    let listed = overrides.all(now);
    let mut list: Vec<OverrideView> = Vec::new();
    let mut i: usize = 0;
    while i < listed.len()
        invariant
            i <= listed@.len(),
            crate::runtime::overrides::all_end_in_the_calendar(old(overrides)@),
            crate::names::ascending(listed@),
            crate::names::as_map(listed@) == crate::runtime::overrides::applying(
                old(overrides)@,
                now as int,
            ),
            list@.len() == i,
            forall|j: int|
                0 <= j < i ==> views(#[trigger] list@[j], listed@[j].0@, listed@[j].1),
        decreases listed@.len() - i,
    {
        let (asset, held) = (listed[i].0.as_str(), listed[i].1);
        proof {
            crate::names::lemma_place(listed@, i as int);
            let in_force = crate::names::as_map(listed@);
            assert(in_force.contains_key(listed@[i as int].0@));
            assert(in_force[listed@[i as int].0@] == held);
            assert(old(overrides)@.contains_key(listed@[i as int].0@));
        }
        list.push(
            OverrideView { asset: asset.to_owned(), what: held.what, until: rfc3339(held.until) },
        );
        i = i + 1;
    }
    assert(crate::names::ascending(listed@));
    list
}

// ── Commissioning ───────────────────────────────────────────────────────────

/// Who this box is, who it will talk to, and who is asking.
#[derive(Debug)]
pub struct PairingBody {
    /// This box's own identifier.
    pub ski: Option<String>,
    /// The identifiers this box will exchange data with.
    pub trusted: Vec<String>,
    /// The peers whose handshake is waiting on a decision now.
    pub waiting: Vec<Waiting>,
}

/// An identifier an installer has read off a control box.
#[derive(Debug)]
pub struct Approval {
    /// Forty hexadecimal characters, as printed on the peer.
    pub ski: String,
}

/// Both halves of the commissioning exchange, on one page. A box that has no
/// identity trusts nobody and is asked by nobody.
pub fn list_trusted(ski: Option<&str>, trust: Option<&Trust>, waiting: Vec<Waiting>) -> (b:
    PairingBody)
    ensures
        match ski {
            Some(s) => b.ski matches Some(shown) && shown@ == s@,
            None => b.ski is None,
        },
        match trust {
            Some(t) => b.waiting == waiting && exists|order: Seq<Seq<u8>>|
                {
                    &&& #[trigger] crate::runtime::ship::is_roster(order, t.skis())
                    &&& crate::runtime::ship::are_labels(b.trusted@, order)
                },
            None => b.trusted@.len() == 0 && b.waiting@.len() == 0,
        },
{
    let shown = match ski {
        Some(s) => Some(s.to_owned()),
        None => None,
    };
    match trust {
        Some(t) => PairingBody { ski: shown, trusted: t.peers(), waiting },
        None => PairingBody { ski: shown, trusted: Vec::new(), waiting: Vec::new() },
    }
}

/// What a box without an identity answers to anything about pairing.
pub open spec fn is_nothing_to_pair(t: TurnedDown) -> bool {
    t.status == NOT_FOUND && t.said@
        == "this box has no EEBUS identity, so there is nothing to pair with"@
}

fn nothing_to_pair() -> (t: TurnedDown)
    ensures
        is_nothing_to_pair(t),
{
    TurnedDown {
        status: NOT_FOUND,
        said: "this box has no EEBUS identity, so there is nothing to pair with".to_owned(),
    }
}

/// What an identity's error is answered.
pub open spec fn is_answer_to(t: TurnedDown, e: ShipError) -> bool {
    t.status == BAD_REQUEST && t.said@ == e.said()
}

fn answer_to(e: &ShipError) -> (t: TurnedDown)
    ensures
        is_answer_to(t, *e),
{
    TurnedDown { status: BAD_REQUEST, said: e.message() }
}

/// Whether a decision about a peer was answered as it should: refused where the
/// text is no identifier, and otherwise with what is to be written down.
pub open spec fn is_decided(
    ski: Seq<char>,
    after: Trust,
    r: Result<Option<StoredIdentity>, TurnedDown>,
) -> bool {
    match crate::runtime::ship::ski_of(ski) {
        None => r matches Err(t) && t.status == BAD_REQUEST && t.said@ == "`"@ + ski
            + "` is not a SKI: forty hexadecimal characters, as printed on the peer"@,
        Some(_) => r matches Ok(keep) && crate::runtime::ship::is_kept(
            after.keeps(),
            after.ship_id(),
            after.key_pem(),
            after.skis(),
            keep,
        ),
    }
}

/// Whether a box kept its name, its key and whether it writes anything down.
pub open spec fn is_same_box(after: Trust, before: Trust) -> bool {
    &&& after.keeps() == before.keeps()
    &&& after.ship_id() == before.ship_id()
    &&& after.key_pem() == before.key_pem()
}

/// Approve a peer on a box that is already running: what is to be written down, or
/// why nothing is.
pub fn approve_peer(trust: &mut Option<Trust>, approval: &Approval, now: Instant) -> (r: Result<
    Option<StoredIdentity>,
    TurnedDown,
>)
    requires
        crate::clock::in_calendar(now as int),
    ensures
        match *old(trust) {
            None => {
                &&& r matches Err(t)
                &&& is_nothing_to_pair(t)
                &&& *final(trust) is None
            },
            Some(before) => {
                &&& *final(trust) matches Some(after)
                &&& is_decided(approval.ski@, after, r)
                &&& is_same_box(after, before)
                &&& after.skis() == match crate::runtime::ship::ski_of(approval.ski@) {
                    Some(ski) => before.skis().insert(ski),
                    None => before.skis(),
                }
                &&& after.since() == match crate::runtime::ship::ski_of(approval.ski@) {
                    Some(ski) => before.since().insert(
                        ski,
                        crate::clock::rfc3339_text(now as int),
                    ),
                    None => before.since(),
                }
            },
        },
{
    match trust {
        None => Err(nothing_to_pair()),
        Some(trust) => match trust.approve(approval.ski.as_str(), now) {
            Ok(keep) => Ok(keep),
            Err(e) => Err(answer_to(&e)),
        },
    }
}

/// Withdraw approval from a peer: what is to be written down, or why nothing is.
pub fn forget_peer(trust: &mut Option<Trust>, ski: &str) -> (r: Result<
    Option<StoredIdentity>,
    TurnedDown,
>)
    ensures
        match *old(trust) {
            None => {
                &&& r matches Err(t)
                &&& is_nothing_to_pair(t)
                &&& *final(trust) is None
            },
            Some(before) => {
                &&& *final(trust) matches Some(after)
                &&& is_decided(ski@, after, r)
                &&& is_same_box(after, before)
                &&& after.skis() == match crate::runtime::ship::ski_of(ski@) {
                    Some(ski) => before.skis().remove(ski),
                    None => before.skis(),
                }
                &&& after.since() == match crate::runtime::ship::ski_of(ski@) {
                    Some(ski) => before.since().remove(ski),
                    None => before.since(),
                }
            },
        },
{
    match trust {
        None => Err(nothing_to_pair()),
        Some(trust) => match trust.forget(ski) {
            Ok(keep) => Ok(keep),
            Err(e) => Err(answer_to(&e)),
        },
    }
}

/// Turn down a peer that is waiting: whom to refuse, or why nobody.
pub fn refuse_peer(trust: &Option<Trust>, ski: &str) -> (r: Result<[u8; 20], TurnedDown>)
    ensures
        match (*trust, crate::runtime::ship::ski_of(ski@)) {
            (None, _) => r matches Err(t) && is_nothing_to_pair(t),
            (Some(_), Some(bytes)) => r matches Ok(refused) && refused@ == bytes,
            (Some(_), None) => r matches Err(t) && t.status == BAD_REQUEST && t.said@ == "`"@ + ski@
                + "` is not a SKI: forty hexadecimal characters, as printed on the peer"@,
        },
{
    match trust {
        None => Err(nothing_to_pair()),
        Some(trust) => match trust.refuse(ski) {
            Ok(refused) => Ok(refused),
            Err(e) => Err(answer_to(&e)),
        },
    }
}

// ── What holds of the answers ───────────────────────────────────────────────

/// A quarter hour of the day is shown as the time it begins, in hours and minutes of two
/// digits each.
pub proof fn a_clock_face_is_the_time_it_names(index: int)
    requires
        0 <= index < 96,
    ensures
        clock_face(index).len() == 5,
        clock_face(index)[2] == ':',
        crate::config::minute_named(clock_face(index)) == Some((15 * index) as u32),
{
    crate::text::lemma_ten_to();
    let h = (index / 4) as nat;
    let m = (index % 4 * 15) as nat;
    crate::text::padding_changes_no_number(h, 2);
    crate::text::padding_changes_no_number(m, 2);
    let hours = crate::text::zero_padded_at_least(h, 2);
    let minutes = crate::text::zero_padded_at_least(m, 2);
    crate::config::a_written_time_is_the_time_it_says(hours, minutes);
    assert(clock_face(index) =~= hours.push(':') + minutes);
}

/// What a page shows of an exposure is the exposure, figure by figure.
pub proof fn a_page_shows_the_exposure_as_it_is(b: ExposureBody, e: Exposure)
    requires
        shows_exposure(b, e),
    ensures
        b.days_of_record == e.days_of_record,
        b.seconds_reduced == e.seconds_reduced,
        b.busiest_frequency_ppm == e.busiest_frequency_ppm,
        b.typical_ceiling_mw == e.typical_ceiling_mw,
        b.busiest_quarter_hour is Some <==> e.busiest_quarter_hour is Some,
        e.busiest_quarter_hour matches Some(q) ==> (q < 96 ==> crate::config::minute_named(
            b.busiest_quarter_hour->Some_0@,
        ) == Some((15 * q) as u32)),
{
    if let Some(q) = e.busiest_quarter_hour {
        if q < 96 {
            a_clock_face_is_the_time_it_names(q as int);
        }
    }
}

/// What a page shows of a turn is the turn, figure by figure: nothing is left out, mixed up
/// or made up, and an age that stands for no plan is not shown as one.
pub proof fn a_page_shows_the_turn_as_it_is(b: StatusBody, held: Status, k: Seq<char>, i: int)
    requires
        shows(b, held),
    ensures
        b.at is Some <==> held.at is Some,
        held.at matches Some(at) ==> b.at->Some_0@ == crate::clock::rfc3339_text(at as int),
        b.commanded_mw@ == held.commanded@,
        b.silent@.len() == held.silent@.len(),
        0 <= i < held.silent@.len() ==> b.silent@[i]@ == held.silent@[i]@,
        b.assumed_available@.len() == held.assumed_available@.len(),
        0 <= i < held.assumed_available@.len() ==> b.assumed_available@[i]@
            == held.assumed_available@[i]@,
        b.undriven@.len() == held.undriven@.len(),
        0 <= i < held.undriven@.len() ==> b.undriven@[i]@ == held.undriven@[i]@,
        b.assumed_nominal@.len() == held.assumed_nominal@.len(),
        0 <= i < held.assumed_nominal@.len() ==> b.assumed_nominal@[i]@
            == held.assumed_nominal@[i]@,
        b.disobedient@.dom().contains(k) <==> held.disobedient@.dom().contains(k),
        held.disobedient@.dom().contains(k) ==> b.disobedient@[k]@ == held.disobedient@[k]@,
        b.overriding@.dom().contains(k) <==> held.overriding@.dom().contains(k),
        held.overriding@.dom().contains(k) ==> b.overriding@[k]@ == held.overriding@[k]@,
        b.steuve_ceiling_mw == held.steuve_ceiling_mw,
        b.steuve_budget_mw == held.steuve_budget_mw,
        b.netzwirksam_mw == held.netzwirksam_mw,
        b.balance_residual_mw == held.balance_residual_mw,
        b.minutes_without_a_plan is None <==> held.minutes_without_a_plan
            == 9_223_372_036_854_775_807,
        b.minutes_without_a_plan matches Some(m) ==> m == held.minutes_without_a_plan,
        b.plan_expected_eur == held.plan_expected_eur,
        b.plan_baseline_eur == held.plan_baseline_eur,
        b.overruns == held.overruns,
        b.exposure is Some <==> held.exposure is Some,
        held.exposure matches Some(e) ==> shows_exposure(b.exposure->Some_0, e),
        b.roof_health is Some <==> held.roof_health is Some,
        held.roof_health matches Some(h) ==> {
            let shown = b.roof_health->Some_0;
            &&& shown.performance_ratio_ppm == h.performance_ratio_ppm
            &&& shown.baseline_ppm == h.baseline_ppm
            &&& shown.verdict@ == h.verdict@
        },
        b.cem.refused == held.cem.refused,
        b.cem.unactioned == held.cem.unactioned,
        b.cem.connected@.len() == held.cem.connected@.len(),
        0 <= i < held.cem.connected@.len() ==> b.cem.connected@[i]@ == held.cem.connected@[i]@,
        b.cem.instructing@.len() == held.cem.instructing@.len(),
        0 <= i < held.cem.instructing@.len() ==> b.cem.instructing@[i]@
            == held.cem.instructing@[i]@,
        b.cem.overridden@.len() == held.cem.overridden@.len(),
        0 <= i < held.cem.overridden@.len() ==> b.cem.overridden@[i].0@
            == held.cem.overridden@[i].0@ && b.cem.overridden@[i].1@ == held.cem.overridden@[i].1@,
{
}

/// A name a household would recognise says something besides white space and is no longer
/// than sixty-four characters.
pub proof fn a_name_says_something(name: Seq<char>)
    ensures
        is_a_name(name) ==> 0 < name.len() <= 64 && exists|i: int|
            0 <= i < name.len() && !crate::text::is_white(#[trigger] name[i]),
        name.len() <= 64 && (exists|i: int|
            0 <= i < name.len() && !crate::text::is_white(#[trigger] name[i])) ==> is_a_name(name),
{
    let (from, to) = crate::text::trimming_takes_only_what_is_white(name);
    if crate::text::trimmed(name).len() > 0 {
        assert(name[from] == crate::text::trimmed(name)[0]);
    }
    if exists|i: int| 0 <= i < name.len() && !crate::text::is_white(#[trigger] name[i]) {
        let i = choose|i: int| 0 <= i < name.len() && !crate::text::is_white(#[trigger] name[i]);
        assert(from <= i < to);
    }
}

/// A refused name and a token that could not be drawn issue no credential and change nothing;
/// a manager that is connected is told the token that opens, and its old one no longer does
/// unless it is somebody else's.
pub proof fn a_refused_name_issues_no_credential(
    before: LocalAccess,
    after: LocalAccess,
    name: Seq<char>,
    drawn: Result<Seq<char>, NoEntropy>,
    r: Result<Connected, TurnedDown>,
)
    requires
        before.is_sound(),
        is_connected_as(before, after, name, drawn, r),
    ensures
        !is_a_name(name) || drawn is Err ==> r is Err && after == before,
        !is_a_name(name) ==> r->Err_0.status == 400,
        is_a_name(name) && drawn is Err ==> r->Err_0.status == 500,
        is_a_name(name) && drawn is Ok ==> {
            &&& r is Ok
            &&& r->Ok_0.name@ == name
            &&& r->Ok_0.token@ == drawn->Ok_0
            &&& crate::runtime::access::opens(after.granted(), r->Ok_0.token@)
            &&& after.household() == before.household()
            &&& crate::runtime::access::opens(after.granted(), before.own_token())
        },
{
    if let (true, Ok(token)) = (is_a_name(name), drawn) {
        crate::runtime::access::naming_a_manager_again_rotates_its_token(
            before,
            after,
            name,
            token,
            token,
        );
        crate::runtime::access::the_token_announced_is_the_token_accepted(after);
    }
}

/// A window ends where it is asked to and otherwise now; it begins where it is asked to and
/// otherwise an hour before it ends.
pub proof fn a_window_is_the_one_that_was_asked_for(asked: Asked, now: int)
    ensures
        asked.to matches Some(to) ==> asked_to(asked, now) == to,
        asked.to is None ==> asked_to(asked, now) == now,
        asked.from matches Some(from) ==> asked_from(asked, now) == from,
        asked.from is None ==> asked_to(asked, now) - asked_from(asked, now)
            == 3_600_000_000_000,
{
}

/// An override is held as it was asked for, for as many minutes, up to a day; and it is shown
/// as it is held.
pub proof fn an_override_is_held_as_it_was_asked_for(
    body: OverrideBody,
    now: int,
    v: OverrideView,
    asset: Seq<char>,
    held: Held,
)
    requires
        crate::clock::in_local_calendar(now),
        body.minutes matches Some(m) ==> -153_722_867_280_912_930 <= m <= 153_722_867_280_912_930,
    ensures
        held_for(body, now).what == body.what,
        body.minutes is None ==> held_for(body, now).until == now + 14_400_000_000_000,
        body.minutes matches Some(m) ==> {
            &&& 0 <= m <= 1440 ==> held_for(body, now).until == now + m * 60_000_000_000
            &&& m < 0 ==> held_for(body, now).until == now
            &&& m > 1440 ==> held_for(body, now).until == now + 86_400_000_000_000
        },
        views(v, asset, held) ==> v.asset@ == asset && v.what == held.what && v.until@
            == crate::clock::rfc3339_text(held.until as int),
{
}

/// A decision about a peer: a text that is no identifier is turned down and nothing is
/// written, and any other is answered with what a box that keeps anything writes down.
pub proof fn a_decision_about_a_peer_is_written_down(
    ski: Seq<char>,
    after: Trust,
    before: Trust,
    r: Result<Option<StoredIdentity>, TurnedDown>,
)
    requires
        is_decided(ski, after, r),
        is_same_box(after, before),
    ensures
        after.keeps() == before.keeps(),
        after.ship_id() == before.ship_id(),
        after.key_pem() == before.key_pem(),
        r is Ok <==> crate::runtime::ship::ski_of(ski) is Some,
        r matches Err(t) ==> t.status == 400,
        r matches Ok(keep) ==> {
            &&& keep is Some <==> before.keeps()
            &&& keep matches Some(stored) ==> stored.ship_id@ == before.ship_id()
                && stored.key_pem@ == before.key_pem()
        },
{
}

/// What nothing can be paired with is not found, and an error of an identity is the asker's.
pub proof fn what_cannot_be_paired_is_turned_down(t: TurnedDown, e: ShipError)
    ensures
        is_nothing_to_pair(t) ==> t.status == 404,
        is_answer_to(t, e) ==> t.status == 400 && t.said@ == e.said(),
{
}

} // verus!

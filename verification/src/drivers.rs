//! The thing that owns the drivers.
//!
//! A driver knows a protocol and nothing else: it is handed bytes and a clock
//! and answers with events. Something has to hold a set of them, collect what
//! they say, and turn that into the two things the control planes read: what
//! the house is doing, and what the network operator is asking for.
//!
//! The protocol machines live with their sockets. What is held here of each is
//! what it declared when it was registered, what it has said, what it wants to
//! send and when it wants to be woken.
//!
//! Registration is a check, not a formality. It refuses a driver for a device
//! the site does not have, two drivers that command or that measure one device,
//! a controllable device whose drivers cannot move it, and a household under
//! grid-oriented control with nothing that could hear a reduction.

use vstd::prelude::*;

use crate::clock::Instant;
use crate::site::Site;

pub mod observed;

pub use observed::{household_load, powers, Observed, SiteState};

verus! {

/// How long a driver may be silent before the registry stops believing it.
pub const SILENCE: i128 = 10_000_000_000;

// ── What a driver declares and says ─────────────────────────────────────────

/// Which registered driver, as distinct from which device.
#[derive(Debug, Clone, Copy, PartialEq, Eq, PartialOrd, Ord, Hash, Structural)]
pub struct DriverId(pub usize);

/// A registered driver together with the device it speaks for.
#[derive(Debug)]
pub struct Attached {
    /// Which registered driver.
    pub driver: DriverId,
    /// What it speaks for.
    pub asset: String,
}

/// What a driver can do.
#[derive(Debug, Clone, Copy, PartialEq, Eq, Structural)]
pub struct DriverCapabilities {
    /// Whether it can move its device.
    pub accepts_commands: bool,
    /// Whether it measures its device.
    pub measures: bool,
    /// Whether it hears the network operator.
    pub reports_grid_limits: bool,
    /// Whether it can say what its device could produce.
    pub reports_available_power: bool,
    /// Whether its readings come when they change rather than on a cadence.
    pub reports_on_change: bool,
}

impl DriverCapabilities {
    /// A driver that moves its device and measures it.
    pub fn device() -> (c: Self)
        ensures
            c.accepts_commands && c.measures,
            !c.reports_grid_limits && !c.reports_available_power && !c.reports_on_change,
    {
        DriverCapabilities {
            accepts_commands: true,
            measures: true,
            reports_grid_limits: false,
            reports_available_power: false,
            reports_on_change: false,
        }
    }

    /// A driver that moves its device and reads nothing.
    pub fn commanding() -> (c: Self)
        ensures
            c.accepts_commands && !c.measures,
            !c.reports_grid_limits && !c.reports_available_power && !c.reports_on_change,
    {
        DriverCapabilities { measures: false, ..Self::device() }
    }

    /// A driver that measures its device and moves nothing.
    pub fn meter() -> (c: Self)
        ensures
            !c.accepts_commands && c.measures,
            !c.reports_grid_limits && !c.reports_available_power && !c.reports_on_change,
    {
        DriverCapabilities { accepts_commands: false, ..Self::device() }
    }

    /// A driver that tells of its device beside the ones that move and measure it.
    pub fn beside() -> (c: Self)
        ensures
            !c.accepts_commands && !c.measures,
            !c.reports_grid_limits && !c.reports_available_power && !c.reports_on_change,
    {
        DriverCapabilities { measures: false, ..Self::meter() }
    }

    /// A driver that hears the network operator and does nothing else.
    pub fn grid() -> (c: Self)
        ensures
            !c.accepts_commands && !c.measures,
            c.reports_grid_limits && !c.reports_available_power && !c.reports_on_change,
    {
        DriverCapabilities {
            accepts_commands: false,
            measures: false,
            reports_grid_limits: true,
            ..Self::device()
        }
    }

    /// The same driver, told of a value when it changes.
    pub fn on_change(self) -> (c: Self)
        ensures
            c == (DriverCapabilities { reports_on_change: true, ..self }),
    {
        DriverCapabilities { reports_on_change: true, ..self }
    }
}

/// Whether a driver is in contact with its device.
#[derive(Debug, Clone, Copy, PartialEq, Eq, Structural)]
pub enum LinkState {
    /// In contact.
    Up,
    /// It no longer knows.
    Stale,
    /// Out of contact.
    Down,
}

impl LinkState {
    /// Whether what the driver last read may still be believed.
    pub fn is_usable(&self) -> (r: bool)
        ensures
            r == (*self == LinkState::Up),
    {
        matches!(self, LinkState::Up)
    }
}

/// One reading, with the instant it was observed.
#[derive(Debug, Clone, Copy, PartialEq, Eq, Structural)]
pub struct Measurement {
    /// When it was observed.
    pub at: Instant,
    /// Power in milliwatts, positive into the device.
    pub power_mw: Option<i64>,
    /// Temperature in thousandths of a degree Celsius.
    pub temperature_mc: Option<i64>,
    /// State of charge in millionths.
    pub soc_ppm: Option<i64>,
}

/// Which way a limit points.
#[derive(Debug, Clone, Copy, PartialEq, Eq, Structural)]
pub enum LimitDirection {
    /// What the household draws.
    Consumption,
    /// What it feeds in.
    Production,
}

/// Where a limit comes from.
#[derive(Debug, Clone, Copy, PartialEq, Eq, Structural)]
pub enum LimitSource {
    /// The operator asked for it.
    Commanded,
    /// Nobody is in contact, and this is what is held meanwhile.
    Failsafe,
}

/// A limit the network operator set or lifted.
#[derive(Debug, Clone, Copy, PartialEq, Eq, Structural)]
pub struct GridLimit {
    /// Which way it points.
    pub direction: LimitDirection,
    /// The ceiling in milliwatts; nothing where it was lifted.
    pub ceiling_mw: Option<i64>,
    /// Where it comes from.
    pub source: LimitSource,
    /// When it was set.
    pub at: Instant,
}

/// What became of a command.
#[derive(Debug)]
pub struct CommandOutcome {
    /// Whether the device carried it out.
    pub accepted: bool,
    /// When it answered.
    pub at: Instant,
    /// What it said about it.
    pub detail: Option<String>,
}

impl CommandOutcome {
    fn copy(&self) -> (r: Self)
        ensures
            r == *self,
    {
        CommandOutcome { accepted: self.accepted, at: self.at, detail: copy_text(&self.detail) }
    }
}

fn copy_text(t: &Option<String>) -> (r: Option<String>)
    ensures
        r == *t,
{
    match t {
        Some(s) => Some(s.clone()),
        None => None,
    }
}

/// Whether a car is on a charge point, and what it said.
#[derive(Debug, Clone, Copy, PartialEq, Eq, Structural)]
pub struct VehiclePresence {
    /// Whether there is one.
    pub connected: bool,
    /// How full it is, in millionths.
    pub soc_ppm: Option<i64>,
    /// How much it holds, in milliwatt-hours.
    pub capacity_mwh: Option<i64>,
    /// When it said so.
    pub at: Instant,
}

/// What an appliance says it could do.
#[derive(Debug, Clone, Copy, PartialEq, Eq, Structural)]
pub struct Flexibility {
    /// How long it has to run once started, in nanoseconds.
    pub min_run: Option<i128>,
    /// How long it has to rest once stopped, in nanoseconds.
    pub min_rest: Option<i128>,
    /// Whether it is running.
    pub running: bool,
}

/// What the household falls back to when nobody is in contact.
#[derive(Debug, Clone, Copy, PartialEq, Eq, Structural)]
pub struct Failsafe {
    /// Which way it points.
    pub direction: LimitDirection,
    /// The power in milliwatts.
    pub power_mw: i64,
    /// For how many seconds at least.
    pub minimum_s: i64,
}

/// One thing a driver said.
#[derive(Debug)]
pub enum DriverEvent {
    /// A reading.
    Measured(Measurement),
    /// Its link changed.
    Link(LinkState),
    /// The operator set or lifted a limit.
    GridLimit(GridLimit),
    /// A command was answered.
    Command(CommandOutcome),
    /// The operator published the feed-in factor, in thousandths of a percent.
    FeedInFactor(i32),
    /// A car came or went.
    Vehicle(VehiclePresence),
    /// An appliance announced what it could do.
    Flexibility(Flexibility),
    /// The operator wrote a failsafe.
    Failsafe(Failsafe),
}

// ── What the registry believes ──────────────────────────────────────────────

/// What the network operator is asking for.
#[derive(Debug, Clone, Copy, PartialEq, Eq, Structural)]
pub struct GridLimits {
    /// What the controllable devices may draw, in milliwatts.
    pub steuve_ceiling_mw: Option<i64>,
    /// Since when.
    pub steuve_since: Option<Instant>,
    /// Whether that is a failsafe rather than a command.
    pub in_failsafe: bool,
    /// What may be fed in, in milliwatts.
    pub feed_in_ceiling_mw: Option<i64>,
    /// The feed-in factor in millionths.
    pub mgcp_factor_ppm: Option<i64>,
}

/// No limit at all.
pub open spec fn unlimited() -> GridLimits {
    GridLimits {
        steuve_ceiling_mw: None,
        steuve_since: None,
        in_failsafe: false,
        feed_in_ceiling_mw: None,
        mgcp_factor_ppm: None,
    }
}

/// The failsafe values the operator has written, per direction.
#[derive(Debug, Clone, Copy, PartialEq, Eq, Structural)]
pub struct Failsafes {
    /// For what the household draws.
    pub consumption: Option<Failsafe>,
    /// For what it feeds in.
    pub production: Option<Failsafe>,
}

/// How many conductors a charge point uses.
#[derive(Debug, Clone, Copy, PartialEq, Eq, Structural)]
pub enum PhaseMode {
    /// One.
    Single,
    /// Three.
    Three,
}

/// One registered driver and what it has told the registry.
#[derive(Debug)]
pub struct Entry {
    /// What it speaks for.
    pub asset: String,
    /// What it declared.
    pub caps: DriverCapabilities,
    /// Whether it is in contact.
    pub link: LinkState,
    /// Its last reading.
    pub latest: Option<Measurement>,
    /// What it has said and nobody has taken yet.
    pub pending: Vec<DriverEvent>,
    /// The conductors it reports.
    pub phases: Option<PhaseMode>,
    /// Whether a car is on it.
    pub vehicle: Option<VehiclePresence>,
    /// How its last command turned out.
    pub last_command: Option<CommandOutcome>,
    /// What it last said it could do.
    pub flex: Option<Flexibility>,
    /// When it wants to be woken.
    pub deadline: Instant,
    /// What it wants to send, oldest first.
    pub outgoing: Vec<Vec<u8>>,
}

/// Whether a driver is in contact and has said something recently.
///
/// A driver that does not measure is judged by its link alone, and one whose
/// peer tells it of changes by whether it has spoken at all; every other one
/// owes a reading no older than [`SILENCE`].
pub open spec fn is_heard(e: Entry, now: int) -> bool {
    &&& e.link == LinkState::Up
    &&& e.caps.measures ==> match e.latest {
        Some(m) => e.caps.reports_on_change || now - m.at <= SILENCE,
        None => false,
    }
}

/// What a driver is believed to be after it said one thing.
pub open spec fn believed(e: Entry, event: DriverEvent) -> Entry {
    match event {
        DriverEvent::Measured(m) => Entry { latest: Some(m), ..e },
        DriverEvent::Link(l) => Entry { link: l, ..e },
        DriverEvent::Command(outcome) => Entry { last_command: Some(outcome), ..e },
        DriverEvent::Vehicle(presence) => Entry { vehicle: Some(presence), ..e },
        DriverEvent::Flexibility(offer) => Entry { flex: Some(offer), ..e },
        DriverEvent::GridLimit(_) => e,
        DriverEvent::FeedInFactor(_) => e,
        DriverEvent::Failsafe(_) => e,
    }
}

/// The limits after a driver said one thing.
pub open spec fn limited(l: GridLimits, event: DriverEvent) -> GridLimits {
    match event {
        DriverEvent::GridLimit(limit) => match limit.direction {
            LimitDirection::Consumption => GridLimits {
                steuve_ceiling_mw: limit.ceiling_mw,
                steuve_since: if limit.ceiling_mw is Some {
                    Some(limit.at)
                } else {
                    None
                },
                in_failsafe: limit.source == LimitSource::Failsafe,
                ..l
            },
            LimitDirection::Production => GridLimits { feed_in_ceiling_mw: limit.ceiling_mw, ..l },
        },
        DriverEvent::FeedInFactor(milli_percent) => GridLimits {
            mgcp_factor_ppm: Some((milli_percent * 10) as i64),
            ..l
        },
        _ => l,
    }
}

/// The failsafe values after a driver said one thing.
pub open spec fn written(f: Failsafes, event: DriverEvent) -> Failsafes {
    match event {
        DriverEvent::Failsafe(failsafe) => match failsafe.direction {
            LimitDirection::Consumption => Failsafes { consumption: Some(failsafe), ..f },
            LimitDirection::Production => Failsafes { production: Some(failsafe), ..f },
        },
        _ => f,
    }
}

/// Whether two entries agree in everything but the events they hold.
pub open spec fn same_belief(a: Entry, b: Entry) -> bool {
    &&& a.asset@ == b.asset@
    &&& a.caps == b.caps
    &&& a.link == b.link
    &&& a.latest == b.latest
    &&& a.phases == b.phases
    &&& a.vehicle == b.vehicle
    &&& a.last_command == b.last_command
    &&& a.flex == b.flex
    &&& a.deadline == b.deadline
    &&& a.outgoing@ == b.outgoing@
}

/// Whether an entry is another one that said one thing: what it is believed to be
/// follows at once, and the event waits for whoever takes it.
pub open spec fn is_told(after: Entry, before: Entry, event: DriverEvent) -> bool {
    &&& same_belief(after, believed(before, event))
    &&& after.pending@ == before.pending@.push(event)
}

// ── Roles ───────────────────────────────────────────────────────────────────

/// Whether some driver speaks for a device.
pub open spec fn spoken_for(drivers: Seq<Entry>, asset: Seq<char>) -> bool {
    exists|i: int| 0 <= i < drivers.len() && #[trigger] drivers[i].asset@ == asset
}

/// Whether some driver can move a device.
pub open spec fn commanded(drivers: Seq<Entry>, asset: Seq<char>) -> bool {
    exists|i: int|
        0 <= i < drivers.len() && #[trigger] drivers[i].asset@ == asset
            && drivers[i].caps.accepts_commands
}

/// Whether some driver measures a device.
pub open spec fn measured(drivers: Seq<Entry>, asset: Seq<char>) -> bool {
    exists|i: int|
        0 <= i < drivers.len() && #[trigger] drivers[i].asset@ == asset && drivers[i].caps.measures
}

/// Whether some driver hears the network operator.
pub open spec fn hears_the_operator(drivers: Seq<Entry>) -> bool {
    exists|i: int| 0 <= i < drivers.len() && (#[trigger] drivers[i]).caps.reports_grid_limits
}

/// No device has two drivers that command it, or two that measure it.
pub open spec fn roles_are_single(drivers: Seq<Entry>) -> bool {
    forall|i: int, j: int|
        0 <= i < j < drivers.len() && #[trigger] drivers[i].asset@ == #[trigger] drivers[j].asset@
            ==> !(drivers[i].caps.accepts_commands && drivers[j].caps.accepts_commands) && !(
        drivers[i].caps.measures && drivers[j].caps.measures)
}

/// Whether a device can be commanded and has drivers, none of which can.
pub open spec fn cannot_be_moved(drivers: Seq<Entry>, asset: crate::site::Asset) -> bool {
    asset.controllable && spoken_for(drivers, asset.id@) && !commanded(drivers, asset.id@)
}

/// Whether every device that is spoken for and has to be moved can be.
pub open spec fn all_can_be_moved(drivers: Seq<Entry>, site: Site) -> bool {
    forall|i: int|
        0 <= i < site.assets@.len() ==> !cannot_be_moved(drivers, #[trigger] site.assets@[i])
}

/// The first device of a site that is spoken for and cannot be moved.
pub open spec fn first_unmoved(drivers: Seq<Entry>, site: Site, named: Seq<char>, i: int) -> bool {
    &&& 0 <= i < site.assets@.len()
    &&& cannot_be_moved(drivers, site.assets@[i])
    &&& named == site.assets@[i].id@
    &&& forall|j: int| 0 <= j < i ==> !cannot_be_moved(drivers, #[trigger] site.assets@[j])
}

/// Whether a name is that of the first device that is spoken for and cannot be
/// moved.
pub open spec fn names_the_first_unmoved(
    drivers: Seq<Entry>,
    site: Site,
    named: Seq<char>,
) -> bool {
    exists|i: int| first_unmoved(drivers, site, named, i)
}

/// Whether a set of drivers was judged against what a site expects of it: one that
/// moves nothing it speaks for before one that hears nobody.
pub open spec fn is_validated(
    drivers: Seq<Entry>,
    site: Site,
    r: Result<(), RegistryError>,
) -> bool {
    if drivers.len() == 0 {
        r matches Err(RegistryError::Uncommissioned)
    } else if !all_can_be_moved(drivers, site) {
        r matches Err(RegistryError::CannotCommand(named)) && names_the_first_unmoved(
            drivers,
            site,
            named@,
        )
    } else if crate::site::any_participates(site.assets@) && !hears_the_operator(drivers) {
        r matches Err(RegistryError::NoGridDriver)
    } else {
        r is Ok
    }
}

/// Why a set of drivers does not describe this site.
#[derive(Debug)]
pub enum RegistryError {
    /// A driver names a device the site does not have.
    NoSuchAsset(String),
    /// Two drivers claim the same role for one device.
    Duplicate(String, &'static str),
    /// A controllable device has drivers and none can command it.
    CannotCommand(String),
    /// The site takes part in grid-oriented control and nothing can hear it.
    NoGridDriver,
    /// Nothing at all is configured.
    Uncommissioned,
}

impl RegistryError {
    /// What the error says.
    pub open spec fn said(self) -> Seq<char> {
        match self {
            RegistryError::NoSuchAsset(asset) => "a driver speaks for `"@ + asset@
                + "`, which this site does not have"@,
            RegistryError::Duplicate(asset, role) => "two drivers "@ + role@ + " `"@ + asset@
                + "`, and nothing downstream could tell which to believe"@,
            RegistryError::CannotCommand(asset) => "`"@ + asset@
                + "` is controllable and its driver cannot take commands, so the arbiter would spend the day talking to a device it can never move"@,
            RegistryError::NoGridDriver =>
                "this site takes part in the netzorientierte Steuerung and no driver reports grid limits, so a reduction could never arrive — add a `kind = \"eebus-lpc\"` driver, or describe a household with no steuerbare Verbrauchseinrichtung"@,
            RegistryError::Uncommissioned =>
                "no drivers are configured, so nothing would be measured and every controllable device would be assumed to be drawing its nameplate power"@,
        }
    }

    /// What the error says.
    pub fn message(&self) -> (out: String)
        ensures
            out@ == self.said(),
    {
        let mut out = String::new();
        match self {
            RegistryError::NoSuchAsset(asset) => {
                out.append("a driver speaks for `");
                out.append(asset.as_str());
                out.append("`, which this site does not have");
            },
            RegistryError::Duplicate(asset, role) => {
                out.append("two drivers ");
                out.append(role);
                out.append(" `");
                out.append(asset.as_str());
                out.append("`, and nothing downstream could tell which to believe");
            },
            RegistryError::CannotCommand(asset) => {
                out.append("`");
                out.append(asset.as_str());
                out.append(
                    "` is controllable and its driver cannot take commands, so the arbiter would spend the day talking to a device it can never move",
                );
            },
            RegistryError::NoGridDriver => {
                out.append(
                    "this site takes part in the netzorientierte Steuerung and no driver reports grid limits, so a reduction could never arrive — add a `kind = \"eebus-lpc\"` driver, or describe a household with no steuerbare Verbrauchseinrichtung",
                );
            },
            RegistryError::Uncommissioned => {
                out.append(
                    "no drivers are configured, so nothing would be measured and every controllable device would be assumed to be drawing its nameplate power",
                );
            },
        }
        assert(out@ =~= self.said());
        out
    }
}

// ── The registry ────────────────────────────────────────────────────────────

/// A set of drivers, and what they have told us.
#[derive(Debug)]
pub struct Registry {
    entries: Vec<Entry>,
    limits: GridLimits,
    failsafe: Failsafes,
}

/// Whether an entry is another one whose oldest bytes have been taken, and nothing
/// else.
pub open spec fn is_sent(after: Entry, before: Entry) -> bool {
    &&& before.outgoing@.len() > 0
    &&& after.outgoing@ == before.outgoing@.remove(0)
    &&& same_belief(Entry { outgoing: before.outgoing, ..after }, before)
    &&& after.pending@ == before.pending@
}

/// A driver nobody has heard from yet.
pub open spec fn is_fresh(
    e: Entry,
    asset: Seq<char>,
    caps: DriverCapabilities,
    deadline: Instant,
) -> bool {
    &&& e.asset@ == asset
    &&& e.caps == caps
    &&& e.link == LinkState::Down
    &&& e.latest is None
    &&& e.pending@.len() == 0
    &&& e.phases is None
    &&& e.vehicle is None
    &&& e.last_command is None
    &&& e.flex is None
    &&& e.deadline == deadline
    &&& e.outgoing@.len() == 0
}

/// Why a setpoint went nowhere.
#[derive(Debug)]
pub enum DriverError {
    /// No driver can move the device.
    NoDriver(String),
}

fn fold_event(
    entry: &mut Entry,
    limits: &mut GridLimits,
    failsafe: &mut Failsafes,
    event: DriverEvent,
)
    ensures
        is_told(*final(entry), *old(entry), event),
        *final(limits) == limited(*old(limits), event),
        *final(failsafe) == written(*old(failsafe), event),
{
    match &event {
        DriverEvent::Measured(m) => {
            entry.latest = Some(*m);
        },
        DriverEvent::Link(l) => {
            entry.link = *l;
        },
        DriverEvent::GridLimit(limit) => {
            match limit.direction {
                LimitDirection::Consumption => {
                    limits.steuve_ceiling_mw = limit.ceiling_mw;
                    limits.steuve_since = if limit.ceiling_mw.is_some() {
                        Some(limit.at)
                    } else {
                        None
                    };
                    limits.in_failsafe = matches!(limit.source, LimitSource::Failsafe);
                },
                LimitDirection::Production => {
                    limits.feed_in_ceiling_mw = limit.ceiling_mw;
                },
            }
        },
        DriverEvent::Command(outcome) => {
            entry.last_command = Some(outcome.copy());
        },
        DriverEvent::FeedInFactor(milli_percent) => {
            limits.mgcp_factor_ppm = Some(*milli_percent as i64 * 10);
        },
        DriverEvent::Vehicle(presence) => {
            entry.vehicle = Some(*presence);
        },
        DriverEvent::Flexibility(offer) => {
            entry.flex = Some(*offer);
        },
        DriverEvent::Failsafe(written) => {
            match written.direction {
                LimitDirection::Consumption => {
                    failsafe.consumption = Some(*written);
                },
                LimitDirection::Production => {
                    failsafe.production = Some(*written);
                },
            }
        },
    }
    entry.pending.push(event);
}

impl Registry {
    /// The registered drivers, in the order of their registration.
    pub closed spec fn drivers(self) -> Seq<Entry> {
        self.entries@
    }

    /// What the operator is asking for.
    pub closed spec fn limits_held(self) -> GridLimits {
        self.limits
    }

    /// What the operator has written.
    pub closed spec fn failsafes_held(self) -> Failsafes {
        self.failsafe
    }

    /// No device has two drivers in one role.
    pub open spec fn is_consistent(self) -> bool {
        roles_are_single(self.drivers())
    }

    /// An empty registry.
    pub fn new() -> (r: Self)
        ensures
            r.drivers().len() == 0,
            r.limits_held() == unlimited(),
            r.limits_held().steuve_ceiling_mw is None,
            r.limits_held().steuve_since is None,
            !r.limits_held().in_failsafe,
            r.limits_held().feed_in_ceiling_mw is None,
            r.limits_held().mgcp_factor_ppm is None,
            r.failsafes_held() == (Failsafes { consumption: None, production: None }),
            r.is_consistent(),
    {
        Registry {
            entries: Vec::new(),
            limits: GridLimits {
                steuve_ceiling_mw: None,
                steuve_since: None,
                in_failsafe: false,
                feed_in_ceiling_mw: None,
                mgcp_factor_ppm: None,
            },
            failsafe: Failsafes { consumption: None, production: None },
        }
    }

    /// How many drivers are registered.
    pub fn len(&self) -> (n: usize)
        ensures
            n == self.drivers().len(),
    {
        self.entries.len()
    }

    /// Whether nothing is registered.
    pub fn is_empty(&self) -> (r: bool)
        ensures
            r == (self.drivers().len() == 0),
    {
        self.entries.len() == 0
    }

    /// The first driver of a device that moves it, or that measures it.
    fn role(&self, asset: &str, commands: bool) -> (r: Option<usize>)
        ensures
            match r {
                Some(i) => {
                    &&& i < self.entries@.len()
                    &&& self.entries@[i as int].asset@ == asset@
                    &&& if commands {
                        self.entries@[i as int].caps.accepts_commands
                    } else {
                        self.entries@[i as int].caps.measures
                    }
                    &&& forall|j: int|
                        0 <= j < i && #[trigger] self.entries@[j].asset@ == asset@ ==> !(if commands {
                            self.entries@[j].caps.accepts_commands
                        } else {
                            self.entries@[j].caps.measures
                        })
                },
                None => if commands {
                    !commanded(self.entries@, asset@)
                } else {
                    !measured(self.entries@, asset@)
                },
            },
    {
        let mut i: usize = 0;
        while i < self.entries.len()
            invariant
                i <= self.entries@.len(),
                forall|j: int|
                    0 <= j < i && #[trigger] self.entries@[j].asset@ == asset@ ==> !(if commands {
                        self.entries@[j].caps.accepts_commands
                    } else {
                        self.entries@[j].caps.measures
                    }),
            decreases self.entries@.len() - i,
        {
            let e = &self.entries[i];
            let plays: bool = if commands {
                e.caps.accepts_commands
            } else {
                e.caps.measures
            };
            if plays && crate::text::same(e.asset.as_str(), asset) {
                return Some(i);
            }
            i = i + 1;
        }
        None
    }

    /// Add a driver, checking that it and the site agree about what it is for.
    ///
    /// A device may have one driver that commands it and one that measures it;
    /// two of either are refused. A driver that hears the network operator
    /// speaks for the connection point, so it need not name a device. Every driver
    /// says when it wants to be woken first: one that did not could never notice its
    /// own silence.
    pub fn register(
        &mut self,
        asset: String,
        caps: DriverCapabilities,
        deadline: Instant,
        site: &Site,
    ) -> (r: Result<DriverId, RegistryError>)
        requires
            old(self).is_consistent(),
        ensures
            final(self).is_consistent(),
            match r {
                Ok(id) => {
                    &&& id.0 == old(self).drivers().len()
                    &&& final(self).drivers().len() == old(self).drivers().len() + 1
                    &&& final(self).drivers().drop_last() == old(self).drivers()
                    &&& is_fresh(final(self).drivers().last(), asset@, caps, deadline)
                    &&& final(self).limits_held() == old(self).limits_held()
                    &&& final(self).failsafes_held() == old(self).failsafes_held()
                },
                Err(_) => *final(self) == *old(self),
            },
            match r {
                Ok(_) => {
                    &&& caps.reports_grid_limits || site.holds(asset@)
                    &&& !(caps.accepts_commands && commanded(old(self).drivers(), asset@))
                    &&& !(caps.measures && measured(old(self).drivers(), asset@))
                },
                Err(RegistryError::NoSuchAsset(named)) => {
                    &&& named@ == asset@
                    &&& !caps.reports_grid_limits && !site.holds(asset@)
                },
                Err(RegistryError::Duplicate(named, role)) => {
                    &&& named@ == asset@
                    &&& caps.reports_grid_limits || site.holds(asset@)
                    &&& if caps.accepts_commands && commanded(old(self).drivers(), asset@) {
                        role@ == "command"@
                    } else {
                        role@ == "measure"@ && caps.measures && measured(
                            old(self).drivers(),
                            asset@,
                        )
                    }
                },
                Err(_) => false,
            },
    {
        if !caps.reports_grid_limits && !site.has(asset.as_str()) {
            return Err(RegistryError::NoSuchAsset(asset));
        }
        if caps.accepts_commands && self.role(asset.as_str(), true).is_some() {
            assert(commanded(self.entries@, asset@));
            return Err(RegistryError::Duplicate(asset, "command"));
        }
        if caps.measures && self.role(asset.as_str(), false).is_some() {
            assert(measured(self.entries@, asset@));
            return Err(RegistryError::Duplicate(asset, "measure"));
        }
        let id = DriverId(self.entries.len());
        self.entries.push(
            Entry {
                asset,
                caps,
                link: LinkState::Down,
                latest: None,
                pending: Vec::new(),
                phases: None,
                vehicle: None,
                last_command: None,
                flex: None,
                deadline,
                outgoing: Vec::new(),
            },
        );
        assert(self.entries@.drop_last() =~= old(self).entries@);
        Ok(id)
    }

    /// Check the registered set against what the site expects of it.
    ///
    /// Asked once the set is complete: the driver that commands a device may be
    /// the second one registered, and the absence of one that hears the operator
    /// is no property of any single driver.
    pub fn validate(&self, site: &Site) -> (r: Result<(), RegistryError>)
        ensures
            is_validated(self.drivers(), *site, r),
    {
        if self.entries.len() == 0 {
            return Err(RegistryError::Uncommissioned);
        }
        let mut i: usize = 0;
        while i < site.assets.len()
            invariant
                i <= site.assets@.len(),
                self.entries@.len() > 0,
                forall|j: int|
                    0 <= j < i ==> !cannot_be_moved(self.drivers(), #[trigger] site.assets@[j]),
            decreases site.assets@.len() - i,
        {
            let asset = &site.assets[i];
            if asset.controllable && self.speaks_for(asset.id.as_str()) && self.role(
                asset.id.as_str(),
                true,
            ).is_none() {
                assert(first_unmoved(self.drivers(), *site, asset.id@, i as int));
                assert(names_the_first_unmoved(self.drivers(), *site, asset.id@));
                return Err(RegistryError::CannotCommand(asset.id.clone()));
            }
            i = i + 1;
        }
        let mut hears: bool = false;
        let mut k: usize = 0;
        while k < self.entries.len()
            invariant
                k <= self.entries@.len(),
                hears ==> hears_the_operator(self.entries@),
                !hears ==> forall|j: int|
                    0 <= j < k ==> !(#[trigger] self.entries@[j]).caps.reports_grid_limits,
            decreases self.entries@.len() - k,
        {
            if self.entries[k].caps.reports_grid_limits {
                assert(self.entries@[k as int].caps.reports_grid_limits);
                hears = true;
            }
            k = k + 1;
        }
        if site.takes_part() && !hears {
            return Err(RegistryError::NoGridDriver);
        }
        Ok(())
    }

    /// Whether some driver speaks for a device.
    pub fn speaks_for(&self, asset: &str) -> (r: bool)
        ensures
            r == spoken_for(self.drivers(), asset@),
    {
        let mut i: usize = 0;
        while i < self.entries.len()
            invariant
                i <= self.entries@.len(),
                forall|j: int| 0 <= j < i ==> #[trigger] self.entries@[j].asset@ != asset@,
            decreases self.entries@.len() - i,
        {
            if crate::text::same(self.entries[i].asset.as_str(), asset) {
                assert(self.entries@[i as int].asset@ == asset@);
                return true;
            }
            i = i + 1;
        }
        false
    }

    /// Which driver a setpoint for a device goes to: the first that commands it.
    pub fn command(&self, asset: &str) -> (r: Result<DriverId, DriverError>)
        ensures
            match r {
                Ok(id) => {
                    &&& id.0 < self.drivers().len()
                    &&& self.drivers()[id.0 as int].asset@ == asset@
                    &&& self.drivers()[id.0 as int].caps.accepts_commands
                    &&& forall|j: int|
                        0 <= j < id.0 && #[trigger] self.drivers()[j].asset@ == asset@
                            ==> !self.drivers()[j].caps.accepts_commands
                },
                Err(DriverError::NoDriver(named)) => named@ == asset@ && !commanded(
                    self.drivers(),
                    asset@,
                ),
            },
    {
        match self.role(asset, true) {
            Some(i) => Ok(DriverId(i)),
            None => Err(DriverError::NoDriver(asset.to_owned())),
        }
    }

    /// A driver said something. It is folded in at once, so a caller that never drains
    /// still reads a current view, and it waits for whoever drains next.
    pub fn hear(&mut self, driver: DriverId, event: DriverEvent)
        ensures
            final(self).drivers().len() == old(self).drivers().len(),
            forall|i: int|
                0 <= i < old(self).drivers().len() && i != driver.0
                    ==> #[trigger] final(self).drivers()[i] == old(self).drivers()[i],
            if driver.0 < old(self).drivers().len() {
                &&& is_told(
                    final(self).drivers()[driver.0 as int],
                    old(self).drivers()[driver.0 as int],
                    event,
                )
                &&& final(self).limits_held() == limited(old(self).limits_held(), event)
                &&& final(self).failsafes_held() == written(old(self).failsafes_held(), event)
            } else {
                *final(self) == *old(self)
            },
            driver.0 < old(self).drivers().len() ==> (event matches DriverEvent::GridLimit(limit)
                ==> match limit.direction {
                LimitDirection::Production => final(self).limits_held().feed_in_ceiling_mw
                    == limit.ceiling_mw,
                LimitDirection::Consumption => final(self).limits_held().steuve_ceiling_mw
                    == limit.ceiling_mw,
            }),
            old(self).is_consistent() ==> final(self).is_consistent(),
    {
        if driver.0 < self.entries.len() {
            fold_event(
                &mut self.entries[driver.0],
                &mut self.limits,
                &mut self.failsafe,
                event,
            );
        }
    }

    /// The transport under one driver opened or closed. A reading whose session
    /// has gone is not a reading.
    pub fn on_link(&mut self, driver: DriverId, state: LinkState)
        ensures
            final(self).limits_held() == old(self).limits_held(),
            final(self).failsafes_held() == old(self).failsafes_held(),
            final(self).drivers().len() == old(self).drivers().len(),
            forall|i: int|
                0 <= i < old(self).drivers().len() && i != driver.0
                    ==> #[trigger] final(self).drivers()[i] == old(self).drivers()[i],
            driver.0 < old(self).drivers().len() ==> final(self).drivers()[driver.0 as int] == (
            Entry {
                link: state,
                latest: if state == LinkState::Up {
                    old(self).drivers()[driver.0 as int].latest
                } else {
                    None
                },
                phases: if state == LinkState::Up {
                    old(self).drivers()[driver.0 as int].phases
                } else {
                    None
                },
                ..old(self).drivers()[driver.0 as int]
            }),
            old(self).is_consistent() ==> final(self).is_consistent(),
    {
        if driver.0 < self.entries.len() {
            let entry = &mut self.entries[driver.0];
            entry.link = state;
            if !state.is_usable() {
                entry.latest = None;
                entry.phases = None;
            }
        }
    }

    /// A driver reports which conductors its charge point uses.
    pub fn on_phases(&mut self, driver: DriverId, mode: PhaseMode)
        ensures
            final(self).limits_held() == old(self).limits_held(),
            final(self).failsafes_held() == old(self).failsafes_held(),
            final(self).drivers().len() == old(self).drivers().len(),
            forall|i: int|
                0 <= i < old(self).drivers().len() && i != driver.0
                    ==> #[trigger] final(self).drivers()[i] == old(self).drivers()[i],
            driver.0 < old(self).drivers().len() ==> final(self).drivers()[driver.0 as int] == (
            Entry { phases: Some(mode), ..old(self).drivers()[driver.0 as int] }),
            old(self).is_consistent() ==> final(self).is_consistent(),
    {
        if driver.0 < self.entries.len() {
            let entry = &mut self.entries[driver.0];
            entry.phases = Some(mode);
        }
    }

    /// A driver says when it wants to be woken, and what it wants to send.
    pub fn on_driver(&mut self, driver: DriverId, deadline: Instant, bytes: Option<Vec<u8>>)
        ensures
            final(self).limits_held() == old(self).limits_held(),
            final(self).failsafes_held() == old(self).failsafes_held(),
            final(self).drivers().len() == old(self).drivers().len(),
            forall|i: int|
                0 <= i < old(self).drivers().len() && i != driver.0
                    ==> #[trigger] final(self).drivers()[i] == old(self).drivers()[i],
            driver.0 < old(self).drivers().len() ==> {
                let before = old(self).drivers()[driver.0 as int];
                let after = final(self).drivers()[driver.0 as int];
                &&& after.deadline == deadline
                &&& after.outgoing@ == match bytes {
                    Some(b) => before.outgoing@.push(b),
                    None => before.outgoing@,
                }
                &&& same_belief(
                    Entry { deadline: before.deadline, outgoing: before.outgoing, ..after },
                    before,
                )
                &&& after.pending@ == before.pending@
            },
            old(self).is_consistent() ==> final(self).is_consistent(),
    {
        if driver.0 < self.entries.len() {
            let entry = &mut self.entries[driver.0];
            entry.deadline = deadline;
            if let Some(b) = bytes {
                entry.outgoing.push(b);
            }
        }
    }

    /// The earliest moment any driver wants to be woken; none only where nothing is
    /// registered.
    pub fn poll_deadline(&self) -> (r: Option<Instant>)
        ensures
            r is None <==> self.drivers().len() == 0,
            r matches Some(at) ==> {
                &&& exists|i: int|
                    0 <= i < self.drivers().len() && (#[trigger] self.drivers()[i]).deadline == at
                &&& forall|i: int|
                    0 <= i < self.drivers().len() ==> at <= (#[trigger] self.drivers()[i]).deadline
            },
    {
        if self.entries.len() == 0 {
            return None;
        }
        let mut best: Instant = self.entries[0].deadline;
        let mut i: usize = 1;
        assert(self.entries@[0].deadline == best);
        while i < self.entries.len()
            invariant
                1 <= i <= self.entries@.len(),
                exists|j: int| 0 <= j < i && (#[trigger] self.entries@[j]).deadline == best,
                forall|j: int| 0 <= j < i ==> best <= (#[trigger] self.entries@[j]).deadline,
            decreases self.entries@.len() - i,
        {
            let at: Instant = self.entries[i].deadline;
            assert(self.entries@[i as int].deadline == at);
            if at < best {
                best = at;
            }
            i = i + 1;
        }
        Some(best)
    }

    /// When one driver wants waking.
    pub fn deadline_of(&self, driver: DriverId) -> (r: Option<Instant>)
        ensures
            r == if driver.0 < self.drivers().len() {
                Some(self.drivers()[driver.0 as int].deadline)
            } else {
                None
            },
    {
        if driver.0 < self.entries.len() {
            Some(self.entries[driver.0].deadline)
        } else {
            None
        }
    }

    /// The next bytes for one driver's own wire.
    pub fn poll_transmit_of(&mut self, driver: DriverId) -> (r: Option<Vec<u8>>)
        ensures
            final(self).limits_held() == old(self).limits_held(),
            final(self).failsafes_held() == old(self).failsafes_held(),
            final(self).drivers().len() == old(self).drivers().len(),
            forall|i: int|
                0 <= i < old(self).drivers().len() && i != driver.0
                    ==> #[trigger] final(self).drivers()[i] == old(self).drivers()[i],
            old(self).is_consistent() ==> final(self).is_consistent(),
            match r {
                Some(bytes) => {
                    &&& driver.0 < old(self).drivers().len()
                    &&& bytes == old(self).drivers()[driver.0 as int].outgoing@[0]
                    &&& is_sent(
                        final(self).drivers()[driver.0 as int],
                        old(self).drivers()[driver.0 as int],
                    )
                },
                None => {
                    &&& *final(self) == *old(self)
                    &&& driver.0 < old(self).drivers().len() ==> old(self).drivers()[driver.0 as int].outgoing@.len() == 0
                },
            },
    {
        if driver.0 < self.entries.len() && self.entries[driver.0].outgoing.len() > 0 {
            let entry = &mut self.entries[driver.0];
            Some(entry.outgoing.remove(0))
        } else {
            None
        }
    }

    /// The next bytes to put on a wire, and which driver's wire it is: the first
    /// driver that has any.
    pub fn poll_transmit(&mut self) -> (r: Option<(DriverId, Vec<u8>)>)
        ensures
            final(self).limits_held() == old(self).limits_held(),
            final(self).failsafes_held() == old(self).failsafes_held(),
            old(self).is_consistent() ==> final(self).is_consistent(),
            final(self).drivers().len() == old(self).drivers().len(),
            match r {
                Some((id, bytes)) => {
                    &&& id.0 < old(self).drivers().len()
                    &&& bytes == old(self).drivers()[id.0 as int].outgoing@[0]
                    &&& is_sent(
                        final(self).drivers()[id.0 as int],
                        old(self).drivers()[id.0 as int],
                    )
                    &&& forall|i: int|
                        0 <= i < id.0 ==> (#[trigger] old(self).drivers()[i]).outgoing@.len() == 0
                    &&& forall|i: int|
                        0 <= i < old(self).drivers().len() && i != id.0 ==> #[trigger] final(self).drivers()[i] == old(self).drivers()[i]
                },
                None => {
                    &&& *final(self) == *old(self)
                    &&& forall|i: int|
                        0 <= i < old(self).drivers().len() ==> (#[trigger] old(self).drivers()[i]).outgoing@.len() == 0
                },
            },
    {
        let mut i: usize = 0;
        while i < self.entries.len()
            invariant
                i <= self.entries@.len(),
                *self == *old(self),
                forall|j: int| 0 <= j < i ==> (#[trigger] self.entries@[j]).outgoing@.len() == 0,
            decreases self.entries@.len() - i,
        {
            if self.entries[i].outgoing.len() > 0 {
                let id = DriverId(i);
                return match self.poll_transmit_of(id) {
                    Some(bytes) => Some((id, bytes)),
                    None => None,
                };
            }
            i = i + 1;
        }
        None
    }

    /// Take everything the drivers have said since the last call, driver by
    /// driver and each in the order it spoke.
    pub fn drain(&mut self) -> (out: Vec<(String, DriverEvent)>)
        ensures
            is_transcript(out@, old(self).drivers()),
            all_drained(final(self).drivers(), old(self).drivers()),
            final(self).limits_held() == old(self).limits_held(),
            final(self).failsafes_held() == old(self).failsafes_held(),
            old(self).is_consistent() ==> final(self).is_consistent(),
    {
        let ghost before = self.entries@;
        let mut out: Vec<(String, DriverEvent)> = Vec::new();
        let mut i: usize = 0;
        assert(before.take(0) =~= Seq::<Entry>::empty());
        while i < self.entries.len()
            invariant
                i <= self.entries@.len(),
                self.entries@.len() == before.len(),
                self.limits == old(self).limits,
                self.failsafe == old(self).failsafe,
                before == old(self).entries@,
                forall|j: int| 0 <= j < i ==> is_drained(#[trigger] self.entries@[j], before[j]),
                forall|j: int| i <= j < before.len() ==> #[trigger] self.entries@[j] == before[j],
                is_transcript(out@, before.take(i as int)),
            decreases before.len() - i,
        {
            let mut taken: Vec<DriverEvent> = Vec::new();
            let asset: String = self.entries[i].asset.clone();
            let entry = &mut self.entries[i];
            std::mem::swap(&mut taken, &mut entry.pending);
            let ghost start = out@;
            let ghost events = taken@;
            assert(events == before[i as int].pending@);
            while taken.len() > 0
                invariant
                    asset@ == before[i as int].asset@,
                    taken@.len() <= events.len(),
                    taken@ == events.skip(events.len() - taken@.len()),
                    out@.len() == start.len() + (events.len() - taken@.len()),
                    forall|j: int| 0 <= j < start.len() ==> #[trigger] out@[j] == start[j],
                    forall|j: int|
                        start.len() <= j < out@.len() ==> (#[trigger] out@[j]).0@ == asset@
                            && out@[j].1 == events[j - start.len()],
                decreases taken@.len(),
            {
                let event = taken.remove(0);
                assert(event == events[events.len() - taken@.len() - 1]);
                out.push((asset.clone(), event));
                assert(taken@ =~= events.skip(events.len() - taken@.len()));
            }
            proof {
                let upto = before.take(i + 1);
                assert(upto.drop_last() =~= before.take(i as int));
                assert(upto.last() == before[i as int]);
                assert(spoken(upto) == spoken(before.take(i as int)) + events.map_values(
                    |e: DriverEvent| (before[i as int].asset@, e),
                ));
            }
            i = i + 1;
        }
        assert(before.take(before.len() as int) =~= before);
        proof {
            lemma_draining_keeps_roles(self.entries@, before);
        }
        out
    }
}

/// Everything the drivers have said that nobody has taken, with the device each
/// speaks for: driver by driver, and each driver in the order it spoke.
pub open spec fn spoken(drivers: Seq<Entry>) -> Seq<(Seq<char>, DriverEvent)>
    decreases drivers.len(),
{
    if drivers.len() == 0 {
        Seq::empty()
    } else {
        let last = drivers.last();
        spoken(drivers.drop_last()) + last.pending@.map_values(
            |e: DriverEvent| (last.asset@, e),
        )
    }
}

/// Whether a list is what the drivers have said.
pub open spec fn is_transcript(out: Seq<(String, DriverEvent)>, drivers: Seq<Entry>) -> bool {
    &&& out.len() == spoken(drivers).len()
    &&& forall|i: int|
        0 <= i < out.len() ==> (#[trigger] out[i]).0@ == spoken(drivers)[i].0 && out[i].1
            == spoken(drivers)[i].1
}

/// Whether an entry is another one from which everything was taken.
pub open spec fn is_drained(after: Entry, before: Entry) -> bool {
    &&& same_belief(after, before)
    &&& after.pending@.len() == 0
}

/// Whether every entry of a list is its counterpart with everything taken.
pub open spec fn all_drained(after: Seq<Entry>, before: Seq<Entry>) -> bool {
    &&& after.len() == before.len()
    &&& forall|i: int| 0 <= i < before.len() ==> is_drained(#[trigger] after[i], before[i])
}

proof fn lemma_draining_keeps_roles(after: Seq<Entry>, before: Seq<Entry>)
    requires
        all_drained(after, before),
    ensures
        roles_are_single(before) ==> roles_are_single(after),
{
    assert forall|i: int| 0 <= i < before.len() implies (#[trigger] after[i]).asset@
        == before[i].asset@ && after[i].caps == before[i].caps by {
        assert(is_drained(after[i], before[i]));
    }
}

// ── What holds of what is believed ──────────────────────────────────────────

/// Whether an event is the operator's word on one direction.
pub open spec fn is_a_word_on(event: DriverEvent, direction: LimitDirection) -> bool {
    event matches DriverEvent::GridLimit(limit) && limit.direction == direction
}

/// The operator's last word on a direction is the one in force, whatever was held before
/// it and whatever else was said since: a limit that was lifted leaves no ceiling.
pub proof fn the_operators_last_word_is_in_force(
    limits: Seq<GridLimits>,
    events: Seq<DriverEvent>,
    j: int,
    limit: GridLimit,
)
    requires
        limits.len() == events.len() + 1,
        forall|i: int|
            0 <= i < events.len() ==> limits[i + 1] == limited(limits[i], #[trigger] events[i]),
        0 <= j < events.len(),
        events[j] == DriverEvent::GridLimit(limit),
        forall|i: int|
            j < i < events.len() ==> !is_a_word_on(#[trigger] events[i], limit.direction),
    ensures
        limit.direction == LimitDirection::Production ==> limits.last().feed_in_ceiling_mw
            == limit.ceiling_mw,
        limit.direction == LimitDirection::Consumption ==> {
            &&& limits.last().steuve_ceiling_mw == limit.ceiling_mw
            &&& limits.last().in_failsafe <==> limit.source == LimitSource::Failsafe
            &&& limits.last().steuve_since is Some <==> limit.ceiling_mw is Some
            &&& limits.last().steuve_since matches Some(since) ==> since == limit.at
        },
    decreases events.len(),
{
    let n = events.len() - 1;
    assert(limits[n + 1] == limited(limits[n], events[n]));
    if j < n {
        assert(!is_a_word_on(events[n], limit.direction));
        let said = events.drop_last();
        let held = limits.drop_last();
        assert forall|i: int| 0 <= i < said.len() implies held[i + 1] == limited(
            held[i],
            #[trigger] said[i],
        ) by {
            assert(limits[i + 1] == limited(limits[i], events[i]));
        }
        assert forall|i: int| j < i < said.len() implies !is_a_word_on(
            #[trigger] said[i],
            limit.direction,
        ) by {
            assert(!is_a_word_on(events[i], limit.direction));
        }
        the_operators_last_word_is_in_force(held, said, j, limit);
    }
}

/// Where the operator never spoke of a direction, what was held of it stays.
pub proof fn what_the_operator_did_not_speak_of_stays(
    limits: Seq<GridLimits>,
    events: Seq<DriverEvent>,
)
    requires
        limits.len() == events.len() + 1,
        forall|i: int|
            0 <= i < events.len() ==> limits[i + 1] == limited(limits[i], #[trigger] events[i]),
    ensures
        (forall|i: int|
            0 <= i < events.len() ==> !is_a_word_on(
                #[trigger] events[i],
                LimitDirection::Production,
            )) ==> limits.last().feed_in_ceiling_mw == limits[0].feed_in_ceiling_mw,
        (forall|i: int|
            0 <= i < events.len() ==> !is_a_word_on(
                #[trigger] events[i],
                LimitDirection::Consumption,
            )) ==> limits.last().steuve_ceiling_mw == limits[0].steuve_ceiling_mw
            && limits.last().steuve_since == limits[0].steuve_since && limits.last().in_failsafe
            == limits[0].in_failsafe,
        (forall|i: int| 0 <= i < events.len() ==> !(#[trigger] events[i] is FeedInFactor))
            ==> limits.last().mgcp_factor_ppm == limits[0].mgcp_factor_ppm,
    decreases events.len(),
{
    if events.len() > 0 {
        let n = events.len() - 1;
        assert(limits[n + 1] == limited(limits[n], events[n]));
        let said = events.drop_last();
        let held = limits.drop_last();
        assert forall|i: int| 0 <= i < said.len() implies held[i + 1] == limited(
            held[i],
            #[trigger] said[i],
        ) by {
            assert(limits[i + 1] == limited(limits[i], events[i]));
        }
        what_the_operator_did_not_speak_of_stays(held, said);
        assert forall|i: int| 0 <= i < said.len() implies said[i] == #[trigger] events[i] by {}
    }
}

/// A feed-in factor is held in millionths from the moment it is published, and no limit is
/// moved by it.
pub proof fn a_published_factor_is_held_in_millionths(held: GridLimits, milli_percent: i32)
    ensures
        ({
            let after = limited(held, DriverEvent::FeedInFactor(milli_percent));
            &&& after.mgcp_factor_ppm matches Some(ppm)
            &&& ppm == 10 * milli_percent
            &&& after.steuve_ceiling_mw == held.steuve_ceiling_mw
            &&& after.steuve_since == held.steuve_since
            &&& after.in_failsafe == held.in_failsafe
            &&& after.feed_in_ceiling_mw == held.feed_in_ceiling_mw
        }),
{
}

/// A failsafe that is written holds for its own direction and leaves the other alone;
/// nothing else that is said changes either.
pub proof fn a_failsafe_holds_for_its_own_direction(held: Failsafes, event: DriverEvent)
    ensures
        event matches DriverEvent::Failsafe(f) ==> {
            &&& f.direction == LimitDirection::Consumption ==> written(held, event).consumption
                == Some(f) && written(held, event).production == held.production
            &&& f.direction == LimitDirection::Production ==> written(held, event).production
                == Some(f) && written(held, event).consumption == held.consumption
        },
        !(event is Failsafe) ==> written(held, event) == held,
{
}

/// What a driver says of its device is believed at once, the rest of what is believed of it
/// stays, and the event waits behind those that were said before it.
pub proof fn a_driver_is_believed_at_its_word(after: Entry, before: Entry, event: DriverEvent)
    requires
        is_told(after, before, event),
    ensures
        after.pending@.len() == before.pending@.len() + 1,
        after.pending@.last() == event,
        after.pending@.drop_last() == before.pending@,
        after.asset@ == before.asset@,
        after.caps == before.caps,
        after.deadline == before.deadline,
        after.outgoing@ == before.outgoing@,
        after.phases == before.phases,
        after.latest == match event {
            DriverEvent::Measured(m) => Some(m),
            _ => before.latest,
        },
        after.link == match event {
            DriverEvent::Link(l) => l,
            _ => before.link,
        },
        after.last_command == match event {
            DriverEvent::Command(outcome) => Some(outcome),
            _ => before.last_command,
        },
        after.vehicle == match event {
            DriverEvent::Vehicle(presence) => Some(presence),
            _ => before.vehicle,
        },
        after.flex == match event {
            DriverEvent::Flexibility(offer) => Some(offer),
            _ => before.flex,
        },
{
    assert(after.pending@.drop_last() =~= before.pending@);
}

/// A driver is heard where its link is up and, if it measures, it has spoken: no longer
/// than ten seconds ago unless its peer tells it of changes. One whose link is not up is
/// never heard.
pub proof fn a_driver_is_heard_while_its_reading_is_fresh(e: Entry, now: int)
    ensures
        is_heard(e, now) ==> e.link == LinkState::Up,
        e.link == LinkState::Up && !e.caps.measures ==> is_heard(e, now),
        e.caps.measures && e.latest is None ==> !is_heard(e, now),
        e.link == LinkState::Up && e.caps.measures && e.latest is Some ==> (is_heard(e, now)
            <==> e.caps.reports_on_change || now <= e.latest->Some_0.at + 10_000_000_000),
{
}

/// Time alone never makes a silent driver heard.
pub proof fn silence_does_not_end_by_itself(e: Entry, now: int, later: int)
    requires
        now <= later,
        !is_heard(e, now),
    ensures
        !is_heard(e, later),
{
}

/// A driver nobody has heard from has said nothing, is out of contact, and is woken when it
/// asked to be.
pub proof fn a_fresh_driver_has_said_nothing(
    e: Entry,
    asset: Seq<char>,
    caps: DriverCapabilities,
    deadline: Instant,
    now: int,
)
    requires
        is_fresh(e, asset, caps, deadline),
    ensures
        e.asset@ == asset,
        e.caps == caps,
        e.deadline == deadline,
        !is_heard(e, now),
        e.latest is None && e.phases is None && e.vehicle is None && e.last_command is None
            && e.flex is None,
        e.pending@.len() == 0,
        e.outgoing@.len() == 0,
{
}

/// Bytes leave oldest first, one message at a time, and nothing else changes.
pub proof fn the_oldest_bytes_leave_first(after: Entry, before: Entry)
    requires
        is_sent(after, before),
    ensures
        before.outgoing@ == seq![before.outgoing@[0]] + after.outgoing@,
        after.asset@ == before.asset@,
        after.caps == before.caps,
        after.link == before.link,
        after.latest == before.latest,
        after.phases == before.phases,
        after.vehicle == before.vehicle,
        after.last_command == before.last_command,
        after.flex == before.flex,
        after.deadline == before.deadline,
        after.pending@ == before.pending@,
{
    assert(before.outgoing@ =~= seq![before.outgoing@[0]] + after.outgoing@);
}

/// Draining takes what a driver said and nothing of what is believed of it.
pub proof fn draining_leaves_what_is_believed(after: Entry, before: Entry)
    requires
        is_drained(after, before),
    ensures
        after.pending@.len() == 0,
        after.asset@ == before.asset@,
        after.caps == before.caps,
        after.link == before.link,
        after.latest == before.latest,
        after.phases == before.phases,
        after.vehicle == before.vehicle,
        after.last_command == before.last_command,
        after.flex == before.flex,
        after.deadline == before.deadline,
        after.outgoing@ == before.outgoing@,
{
}

/// A transcript holds everything that was said, once, under the name of the device it was
/// said for: driver by driver, and each driver in the order it spoke. The place of an event
/// is how much was said before it.
pub proof fn everything_that_was_said_is_handed_on(
    out: Seq<(String, DriverEvent)>,
    drivers: Seq<Entry>,
    i: int,
    j: int,
)
    requires
        is_transcript(out, drivers),
        0 <= i < drivers.len(),
        0 <= j < drivers[i].pending@.len(),
    ensures
        ({
            let before = spoken(drivers.take(i)).len();
            &&& before + j < out.len()
            &&& out[before + j].0@ == drivers[i].asset@
            &&& out[before + j].1 == drivers[i].pending@[j]
        }),
        spoken(drivers.take(i + 1)).len() == spoken(drivers.take(i)).len()
            + drivers[i].pending@.len(),
{
    lemma_spoken(drivers, i, j);
}

proof fn lemma_spoken(drivers: Seq<Entry>, i: int, j: int)
    requires
        0 <= i < drivers.len(),
        0 <= j < drivers[i].pending@.len(),
    ensures
        spoken(drivers.take(i)).len() + j < spoken(drivers).len(),
        spoken(drivers)[spoken(drivers.take(i)).len() + j] == (
            drivers[i].asset@,
            drivers[i].pending@[j],
        ),
        spoken(drivers.take(i + 1)).len() == spoken(drivers.take(i)).len()
            + drivers[i].pending@.len(),
    decreases drivers.len(),
{
    let rest = drivers.drop_last();
    if i == drivers.len() - 1 {
        assert(drivers.take(i) =~= rest);
        assert(drivers.take(i + 1) =~= drivers);
    } else {
        lemma_spoken(rest, i, j);
        assert(rest.take(i) =~= drivers.take(i));
        assert(rest.take(i + 1) =~= drivers.take(i + 1));
    }
}

/// Nothing is handed on that nobody said.
pub proof fn nothing_is_handed_on_that_nobody_said(drivers: Seq<Entry>, at: int) -> (r: (int, int))
    requires
        0 <= at < spoken(drivers).len(),
    ensures
        0 <= r.0 < drivers.len(),
        0 <= r.1 < drivers[r.0].pending@.len(),
        spoken(drivers)[at] == (drivers[r.0].asset@, drivers[r.0].pending@[r.1]),
    decreases drivers.len(),
{
    let rest = drivers.drop_last();
    let before = spoken(rest).len();
    if at < before {
        nothing_is_handed_on_that_nobody_said(rest, at)
    } else {
        (drivers.len() - 1, at - before)
    }
}

/// A device has a role where some driver that speaks for it plays it, and adding a driver
/// takes no role away.
pub proof fn a_role_is_some_drivers(drivers: Seq<Entry>, e: Entry, i: int, asset: Seq<char>)
    ensures
        0 <= i < drivers.len() && drivers[i].asset@ == asset ==> spoken_for(drivers, asset),
        0 <= i < drivers.len() && drivers[i].asset@ == asset && drivers[i].caps.accepts_commands
            ==> commanded(drivers, asset),
        0 <= i < drivers.len() && drivers[i].asset@ == asset && drivers[i].caps.measures
            ==> measured(drivers, asset),
        0 <= i < drivers.len() && drivers[i].caps.reports_grid_limits ==> hears_the_operator(
            drivers,
        ),
        spoken_for(drivers.push(e), asset) <==> spoken_for(drivers, asset) || e.asset@ == asset,
        commanded(drivers.push(e), asset) <==> commanded(drivers, asset) || (e.asset@ == asset
            && e.caps.accepts_commands),
        measured(drivers.push(e), asset) <==> measured(drivers, asset) || (e.asset@ == asset
            && e.caps.measures),
        hears_the_operator(drivers.push(e)) <==> hears_the_operator(drivers)
            || e.caps.reports_grid_limits,
        !spoken_for(Seq::empty(), asset),
        !commanded(Seq::empty(), asset),
        !measured(Seq::empty(), asset),
        !hears_the_operator(Seq::empty()),
{
    let more = drivers.push(e);
    let n = drivers.len() as int;
    assert(more[n] == e);
    assert forall|j: int| 0 <= j < n implies more[j] == #[trigger] drivers[j] by {}
    if spoken_for(drivers, asset) {
        let j = choose|j: int| 0 <= j < n && #[trigger] drivers[j].asset@ == asset;
        assert(more[j].asset@ == asset);
    }
    if commanded(drivers, asset) {
        let j = choose|j: int|
            0 <= j < n && #[trigger] drivers[j].asset@ == asset && drivers[j].caps.accepts_commands;
        assert(more[j].asset@ == asset);
    }
    if measured(drivers, asset) {
        let j = choose|j: int|
            0 <= j < n && #[trigger] drivers[j].asset@ == asset && drivers[j].caps.measures;
        assert(more[j].asset@ == asset);
    }
    if hears_the_operator(drivers) {
        let j = choose|j: int| 0 <= j < n && (#[trigger] drivers[j]).caps.reports_grid_limits;
        assert(more[j].caps.reports_grid_limits);
    }
    if e.asset@ == asset {
        assert(more[n].asset@ == asset);
    }
}

/// What a site expects of its drivers: some at all, one that can move each controllable
/// device that is spoken for, and one that hears the operator where any device takes part.
/// Where one of these is missing that is said, in this order, and a device that cannot be
/// moved is named.
pub proof fn a_set_of_drivers_is_held_to_its_site(
    drivers: Seq<Entry>,
    site: Site,
    r: Result<(), RegistryError>,
)
    requires
        is_validated(drivers, site, r),
    ensures
        r is Ok ==> {
            &&& drivers.len() > 0
            &&& forall|i: int|
                0 <= i < site.assets@.len() && (#[trigger] site.assets@[i]).controllable
                    && spoken_for(drivers, site.assets@[i].id@) ==> commanded(
                    drivers,
                    site.assets@[i].id@,
                )
            &&& (exists|i: int|
                0 <= i < site.assets@.len() && (#[trigger] site.assets@[i]).participates)
                ==> hears_the_operator(drivers)
        },
        r matches Err(e) ==> match e {
            RegistryError::Uncommissioned => drivers.len() == 0,
            RegistryError::CannotCommand(named) => drivers.len() > 0 && spoken_for(
                drivers,
                named@,
            ) && !commanded(drivers, named@) && exists|i: int|
                0 <= i < site.assets@.len() && (#[trigger] site.assets@[i]).id@ == named@
                    && site.assets@[i].controllable,
            RegistryError::NoGridDriver => drivers.len() > 0 && !hears_the_operator(drivers)
                && exists|i: int|
                0 <= i < site.assets@.len() && (#[trigger] site.assets@[i]).participates,
            _ => false,
        },
{
    if drivers.len() > 0 && all_can_be_moved(drivers, site) {
        assert forall|i: int|
            0 <= i < site.assets@.len() && (#[trigger] site.assets@[i]).controllable && spoken_for(
                drivers,
                site.assets@[i].id@,
            ) implies commanded(drivers, site.assets@[i].id@) by {
            assert(!cannot_be_moved(drivers, site.assets@[i]));
        }
    }
}

/// A device two drivers command, or two measure, cannot come about: among drivers with
/// single roles, two that speak for one device share none.
pub proof fn two_drivers_of_a_device_share_no_role(drivers: Seq<Entry>, i: int, j: int)
    requires
        roles_are_single(drivers),
        0 <= i < drivers.len(),
        0 <= j < drivers.len(),
        i != j,
        drivers[i].asset@ == drivers[j].asset@,
    ensures
        !(drivers[i].caps.accepts_commands && drivers[j].caps.accepts_commands),
        !(drivers[i].caps.measures && drivers[j].caps.measures),
{
    if i < j {
        assert(drivers[i].asset@ == drivers[j].asset@);
    } else {
        assert(drivers[j].asset@ == drivers[i].asset@);
    }
}

} // verus!

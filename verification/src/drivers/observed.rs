//! Everything the drivers said, in the shape the control planes read.

use vstd::prelude::*;

use crate::clock::Instant;
use crate::drivers::{
    Entry, Flexibility, GridLimits, LinkState, Measurement, PhaseMode, Registry, VehiclePresence,
    SILENCE,
};
use crate::names::ByName;
use crate::site::{Asset, Site};

verus! {

/// What the house is doing, as far as the drivers can tell.
pub struct SiteState {
    /// What the meter at the connection point reads.
    pub grid: Option<Measurement>,
    /// What the devices read.
    pub assets: ByName<Measurement>,
    /// The conductors the charge points use.
    pub phases: ByName<PhaseMode>,
}

/// Everything the drivers said.
pub struct Observed {
    /// What the house is doing.
    pub state: SiteState,
    /// What the network operator is asking for.
    pub limits: GridLimits,
    /// What could not be heard from.
    pub silent: ByName<()>,
    /// Devices whose available power is a nameplate rather than a reading.
    pub assumed_available: ByName<()>,
    /// Devices that answered their last setpoint and did not act on it, and why.
    pub disobedient: ByName<String>,
    /// Charge points that can say whether a car is on them, and what they said.
    pub vehicles: ByName<VehiclePresence>,
    /// Appliances that announce what they could do, and what they announced.
    pub flexibility: ByName<Flexibility>,
}

// ── What each part says ─────────────────────────────────────────────────────

/// Whether a driver's last reading is one to act on.
pub open spec fn contributes(e: Entry, now: int) -> bool {
    e.latest is Some && crate::drivers::is_heard(e, now)
}

/// What the meter at the connection point reads: the last of its drivers' that
/// is one to act on.
pub open spec fn grid_reading(drivers: Seq<Entry>, grid: Option<Seq<char>>, now: int) -> Option<
    Measurement,
>
    decreases drivers.len(),
{
    if drivers.len() == 0 {
        None
    } else if contributes(drivers.last(), now) && Some(drivers.last().asset@) == grid {
        drivers.last().latest
    } else {
        grid_reading(drivers.drop_last(), grid, now)
    }
}

/// What the devices read, the meter at the connection point apart.
pub open spec fn asset_readings(
    drivers: Seq<Entry>,
    grid: Option<Seq<char>>,
    now: int,
) -> Map<Seq<char>, Measurement>
    decreases drivers.len(),
{
    if drivers.len() == 0 {
        Map::empty()
    } else {
        let rest = asset_readings(drivers.drop_last(), grid, now);
        let last = drivers.last();
        if contributes(last, now) && Some(last.asset@) != grid {
            rest.insert(last.asset@, last.latest.unwrap())
        } else {
            rest
        }
    }
}

/// The conductors the charge points use.
pub open spec fn phase_modes(drivers: Seq<Entry>, now: int) -> Map<Seq<char>, PhaseMode>
    decreases drivers.len(),
{
    if drivers.len() == 0 {
        Map::empty()
    } else {
        let rest = phase_modes(drivers.drop_last(), now);
        let last = drivers.last();
        if contributes(last, now) && last.phases is Some {
            rest.insert(last.asset@, last.phases.unwrap())
        } else {
            rest
        }
    }
}

/// Whether some driver of a device is not being heard from.
pub open spec fn is_silent(drivers: Seq<Entry>, now: int, asset: Seq<char>) -> bool {
    exists|i: int|
        0 <= i < drivers.len() && #[trigger] drivers[i].asset@ == asset
            && !crate::drivers::is_heard(drivers[i], now)
}

/// Whether a device's available power has to be taken from its nameplate.
pub open spec fn is_assumed(drivers: Seq<Entry>, asset: Seq<char>) -> bool {
    exists|i: int|
        0 <= i < drivers.len() && #[trigger] drivers[i].asset@ == asset && drivers[i].caps.measures
            && !drivers[i].caps.reports_available_power
}

/// What is said of a device that gave no reason.
pub open spec fn no_reason() -> Seq<char> {
    "the device did not carry it out"@
}

/// What each device that did not act on its last setpoint said about it.
pub open spec fn refusals(drivers: Seq<Entry>) -> Map<Seq<char>, Seq<char>>
    decreases drivers.len(),
{
    if drivers.len() == 0 {
        Map::empty()
    } else {
        let rest = refusals(drivers.drop_last());
        match drivers.last().last_command {
            Some(outcome) => if outcome.accepted {
                rest
            } else {
                rest.insert(
                    drivers.last().asset@,
                    match outcome.detail {
                        Some(said) => said@,
                        None => no_reason(),
                    },
                )
            },
            None => rest,
        }
    }
}

/// What each charge point says of a car.
pub open spec fn vehicles_of(drivers: Seq<Entry>) -> Map<Seq<char>, VehiclePresence>
    decreases drivers.len(),
{
    if drivers.len() == 0 {
        Map::empty()
    } else {
        let rest = vehicles_of(drivers.drop_last());
        match drivers.last().vehicle {
            Some(v) => rest.insert(drivers.last().asset@, v),
            None => rest,
        }
    }
}

/// What each appliance says it could do.
pub open spec fn flexibility_of(drivers: Seq<Entry>) -> Map<Seq<char>, Flexibility>
    decreases drivers.len(),
{
    if drivers.len() == 0 {
        Map::empty()
    } else {
        let rest = flexibility_of(drivers.drop_last());
        match drivers.last().flex {
            Some(f) => rest.insert(drivers.last().asset@, f),
            None => rest,
        }
    }
}

/// Whether a map of texts holds exactly these.
pub open spec fn reads_as(m: Map<Seq<char>, String>, texts: Map<Seq<char>, Seq<char>>) -> bool {
    &&& m.dom() == texts.dom()
    &&& forall|k: Seq<char>| #[trigger] m.dom().contains(k) ==> m[k]@ == texts[k]
}

impl SiteState {
    /// Every list is in the order of its names.
    pub open spec fn in_order(self) -> bool {
        self.assets.in_order() && self.phases.in_order()
    }

    /// What the drivers say the house is doing.
    pub open spec fn is_state_of(
        self,
        drivers: Seq<Entry>,
        grid: Option<Seq<char>>,
        now: int,
    ) -> bool {
        &&& self.grid == grid_reading(drivers, grid, now)
        &&& self.assets@ == asset_readings(drivers, grid, now)
        &&& self.phases@ == phase_modes(drivers, now)
    }
}

impl Observed {
    /// Every list is in the order of its names.
    pub open spec fn in_order(self) -> bool {
        &&& self.state.in_order()
        &&& self.silent.in_order()
        &&& self.assumed_available.in_order()
        &&& self.disobedient.in_order()
        &&& self.vehicles.in_order()
        &&& self.flexibility.in_order()
    }

    /// The whole picture the drivers give.
    pub open spec fn is_picture_of(
        self,
        drivers: Seq<Entry>,
        limits: GridLimits,
        grid: Option<Seq<char>>,
        now: int,
    ) -> bool {
        &&& self.state.is_state_of(drivers, grid, now)
        &&& self.limits == limits
        &&& forall|k: Seq<char>|
            #[trigger] self.silent@.dom().contains(k) <==> is_silent(drivers, now, k)
        &&& forall|k: Seq<char>|
            #[trigger] self.assumed_available@.dom().contains(k) <==> is_assumed(drivers, k)
        &&& reads_as(self.disobedient@, refusals(drivers))
        &&& self.vehicles@ == vehicles_of(drivers)
        &&& self.flexibility@ == flexibility_of(drivers)
    }
}

/// Whether an entry is being heard from.
fn heard(e: &Entry, now: Instant) -> (r: bool)
    requires
        -0x3fff_ffff_ffff_ffff_ffff_ffff_ffff_ffff < now < 0x3fff_ffff_ffff_ffff_ffff_ffff_ffff_ffff,
    ensures
        r == crate::drivers::is_heard(*e, now as int),
{
    if !e.link.is_usable() {
        return false;
    }
    if !e.caps.measures {
        return true;
    }
    match e.latest {
        Some(m) => e.caps.reports_on_change || now - SILENCE <= m.at,
        None => false,
    }
}

/// Whether an instant leaves room for the ages the registry compares.
pub open spec fn is_comparable(now: int) -> bool {
    -0x3fff_ffff_ffff_ffff_ffff_ffff_ffff_ffff < now < 0x3fff_ffff_ffff_ffff_ffff_ffff_ffff_ffff
}

impl Registry {
    /// What the network operator is asking for.
    pub fn limits(&self) -> (l: GridLimits)
        ensures
            l == self.limits_held(),
    {
        self.limits
    }

    /// What the network operator has said this household falls back to.
    pub fn failsafe(&self) -> (f: crate::drivers::Failsafes)
        ensures
            f == self.failsafes_held(),
    {
        self.failsafe
    }

    /// What the house is doing, as far as the drivers can tell.
    pub fn state(&self, grid_meter: Option<&str>, now: Instant) -> (s: SiteState)
        requires
            is_comparable(now as int),
        ensures
            s.in_order(),
            s.is_state_of(
                self.drivers(),
                match grid_meter {
                    Some(g) => Some(g@),
                    None => None,
                },
                now as int,
            ),
    {
        let ghost grid: Option<Seq<char>> = match grid_meter {
            Some(g) => Some(g@),
            None => None,
        };
        let mut state = SiteState { grid: None, assets: ByName::new(), phases: ByName::new() };
        let mut i: usize = 0;
        assert(self.entries@.take(0) =~= Seq::<Entry>::empty());
        while i < self.entries.len()
            invariant
                i <= self.entries@.len(),
                is_comparable(now as int),
                grid == (match grid_meter {
                    Some(g) => Some(g@),
                    None => None,
                }),
                state.in_order(),
                state.is_state_of(self.entries@.take(i as int), grid, now as int),
            decreases self.entries@.len() - i,
        {
            assert(self.entries@.take(i + 1).drop_last() =~= self.entries@.take(i as int));
            let e = &self.entries[i];
            if let Some(measurement) = e.latest {
                if heard(e, now) {
                    let is_grid: bool = match grid_meter {
                        Some(g) => crate::text::same(e.asset.as_str(), g),
                        None => false,
                    };
                    if is_grid {
                        state.grid = Some(measurement);
                    } else {
                        state.assets.insert(e.asset.clone(), measurement);
                    }
                    if let Some(mode) = e.phases {
                        state.phases.insert(e.asset.clone(), mode);
                    }
                }
            }
            i = i + 1;
        }
        assert(self.entries@.take(self.entries@.len() as int) =~= self.entries@);
        state
    }

    /// The devices with a driver that is not being heard from.
    pub fn silent(&self, now: Instant) -> (r: ByName<()>)
        requires
            is_comparable(now as int),
        ensures
            r.in_order(),
            forall|k: Seq<char>|
                #[trigger] r@.dom().contains(k) <==> is_silent(self.drivers(), now as int, k),
    {
        let mut r: ByName<()> = ByName::new();
        let mut i: usize = 0;
        while i < self.entries.len()
            invariant
                i <= self.entries@.len(),
                is_comparable(now as int),
                r.in_order(),
                forall|k: Seq<char>|
                    #[trigger] r@.dom().contains(k) <==> is_silent(
                        self.entries@.take(i as int),
                        now as int,
                        k,
                    ),
            decreases self.entries@.len() - i,
        {
            let ghost upto = self.entries@.take(i as int);
            let ghost next = self.entries@.take(i + 1);
            let e = &self.entries[i];
            let ghost held = r@;
            if !heard(e, now) {
                r.insert(e.asset.clone(), ());
            }
            proof {
                assert forall|k: Seq<char>| #[trigger]
                    r@.dom().contains(k) <==> is_silent(next, now as int, k) by {
                    assert(next[i as int] == *e);
                    if is_silent(upto, now as int, k) {
                        let j = choose|j: int|
                            0 <= j < upto.len() && #[trigger] upto[j].asset@ == k
                                && !crate::drivers::is_heard(upto[j], now as int);
                        assert(next[j] == upto[j]);
                        assert(next[j].asset@ == k);
                    }
                    if is_silent(next, now as int, k) {
                        let j = choose|j: int|
                            0 <= j < next.len() && #[trigger] next[j].asset@ == k
                                && !crate::drivers::is_heard(next[j], now as int);
                        if j < i {
                            assert(upto[j] == next[j]);
                            assert(upto[j].asset@ == k);
                        }
                    }
                    if !crate::drivers::is_heard(*e, now as int) && k == e.asset@ {
                        assert(next[i as int].asset@ == k);
                    }
                }
            }
            i = i + 1;
        }
        assert(self.entries@.take(self.entries@.len() as int) =~= self.entries@);
        r
    }

    /// The devices whose available power has to be guessed from a nameplate.
    pub fn assumed_available_power(&self) -> (r: ByName<()>)
        ensures
            r.in_order(),
            forall|k: Seq<char>|
                #[trigger] r@.dom().contains(k) <==> is_assumed(self.drivers(), k),
    {
        let mut r: ByName<()> = ByName::new();
        let mut i: usize = 0;
        while i < self.entries.len()
            invariant
                i <= self.entries@.len(),
                r.in_order(),
                forall|k: Seq<char>|
                    #[trigger] r@.dom().contains(k) <==> is_assumed(
                        self.entries@.take(i as int),
                        k,
                    ),
            decreases self.entries@.len() - i,
        {
            let ghost upto = self.entries@.take(i as int);
            let ghost next = self.entries@.take(i + 1);
            let e = &self.entries[i];
            if e.caps.measures && !e.caps.reports_available_power {
                r.insert(e.asset.clone(), ());
            }
            proof {
                assert forall|k: Seq<char>| #[trigger]
                    r@.dom().contains(k) <==> is_assumed(next, k) by {
                    assert(next[i as int] == *e);
                    if is_assumed(upto, k) {
                        let j = choose|j: int|
                            0 <= j < upto.len() && #[trigger] upto[j].asset@ == k
                                && upto[j].caps.measures && !upto[j].caps.reports_available_power;
                        assert(next[j] == upto[j]);
                        assert(next[j].asset@ == k);
                    }
                    if is_assumed(next, k) {
                        let j = choose|j: int|
                            0 <= j < next.len() && #[trigger] next[j].asset@ == k
                                && next[j].caps.measures && !next[j].caps.reports_available_power;
                        if j < i {
                            assert(upto[j] == next[j]);
                            assert(upto[j].asset@ == k);
                        }
                    }
                    if k == e.asset@ {
                        assert(next[i as int].asset@ == k);
                    }
                }
            }
            i = i + 1;
        }
        assert(self.entries@.take(self.entries@.len() as int) =~= self.entries@);
        r
    }

    /// Devices whose last command was not carried out, and what they said.
    pub fn disobedient(&self) -> (r: ByName<String>)
        ensures
            r.in_order(),
            reads_as(r@, refusals(self.drivers())),
    {
        let mut r: ByName<String> = ByName::new();
        let mut i: usize = 0;
        assert(self.entries@.take(0) =~= Seq::<Entry>::empty());
        assert(r@.dom() =~= refusals(self.entries@.take(0)).dom());
        while i < self.entries.len()
            invariant
                i <= self.entries@.len(),
                r.in_order(),
                reads_as(r@, refusals(self.entries@.take(i as int))),
            decreases self.entries@.len() - i,
        {
            assert(self.entries@.take(i + 1).drop_last() =~= self.entries@.take(i as int));
            let e = &self.entries[i];
            if let Some(outcome) = &e.last_command {
                if !outcome.accepted {
                    let why: String = match &outcome.detail {
                        Some(said) => said.clone(),
                        None => "the device did not carry it out".to_owned(),
                    };
                    r.insert(e.asset.clone(), why);
                }
            }
            assert(r@.dom() =~= refusals(self.entries@.take(i + 1)).dom());
            i = i + 1;
        }
        assert(self.entries@.take(self.entries@.len() as int) =~= self.entries@);
        r
    }

    fn vehicles(&self) -> (r: ByName<VehiclePresence>)
        ensures
            r.in_order(),
            r@ == vehicles_of(self.drivers()),
    {
        let mut r: ByName<VehiclePresence> = ByName::new();
        let mut i: usize = 0;
        assert(self.entries@.take(0) =~= Seq::<Entry>::empty());
        while i < self.entries.len()
            invariant
                i <= self.entries@.len(),
                r.in_order(),
                r@ == vehicles_of(self.entries@.take(i as int)),
            decreases self.entries@.len() - i,
        {
            assert(self.entries@.take(i + 1).drop_last() =~= self.entries@.take(i as int));
            if let Some(v) = self.entries[i].vehicle {
                r.insert(self.entries[i].asset.clone(), v);
            }
            i = i + 1;
        }
        assert(self.entries@.take(self.entries@.len() as int) =~= self.entries@);
        r
    }

    fn offers(&self) -> (r: ByName<Flexibility>)
        ensures
            r.in_order(),
            r@ == flexibility_of(self.drivers()),
    {
        let mut r: ByName<Flexibility> = ByName::new();
        let mut i: usize = 0;
        assert(self.entries@.take(0) =~= Seq::<Entry>::empty());
        while i < self.entries.len()
            invariant
                i <= self.entries@.len(),
                r.in_order(),
                r@ == flexibility_of(self.entries@.take(i as int)),
            decreases self.entries@.len() - i,
        {
            assert(self.entries@.take(i + 1).drop_last() =~= self.entries@.take(i as int));
            if let Some(f) = self.entries[i].flex {
                r.insert(self.entries[i].asset.clone(), f);
            }
            i = i + 1;
        }
        assert(self.entries@.take(self.entries@.len() as int) =~= self.entries@);
        r
    }

    /// The whole picture, in one call. It is never behind the drivers, and the events
    /// themselves stay queued for whoever drains.
    pub fn observe(&self, grid_meter: Option<&str>, now: Instant) -> (r: Observed)
        requires
            is_comparable(now as int),
        ensures
            r.in_order(),
            r.is_picture_of(
                self.drivers(),
                self.limits_held(),
                match grid_meter {
                    Some(g) => Some(g@),
                    None => None,
                },
                now as int,
            ),
    {
        Observed {
            state: self.state(grid_meter, now),
            limits: self.limits(),
            silent: self.silent(now),
            assumed_available: self.assumed_available_power(),
            disobedient: self.disobedient(),
            vehicles: self.vehicles(),
            flexibility: self.offers(),
        }
    }

    /// The controllable devices of a site that no driver speaks for, in the
    /// order the site lists them.
    pub fn undriven(&self, site: &Site) -> (r: Vec<String>)
        ensures
            r@.len() == without_driver(self.drivers(), site.assets@).len(),
            forall|i: int|
                0 <= i < r@.len() ==> (#[trigger] r@[i])@ == without_driver(
                    self.drivers(),
                    site.assets@,
                )[i],
    {
        let mut r: Vec<String> = Vec::new();
        let mut i: usize = 0;
        assert(site.assets@.take(0) =~= Seq::<Asset>::empty());
        while i < site.assets.len()
            invariant
                i <= site.assets@.len(),
                r@.len() == without_driver(self.drivers(), site.assets@.take(i as int)).len(),
                forall|j: int|
                    0 <= j < r@.len() ==> (#[trigger] r@[j])@ == without_driver(
                        self.drivers(),
                        site.assets@.take(i as int),
                    )[j],
            decreases site.assets@.len() - i,
        {
            assert(site.assets@.take(i + 1).drop_last() =~= site.assets@.take(i as int));
            let asset = &site.assets[i];
            if asset.controllable && !self.speaks_for(asset.id.as_str()) {
                r.push(asset.id.clone());
            }
            i = i + 1;
        }
        assert(site.assets@.take(site.assets@.len() as int) =~= site.assets@);
        r
    }
}

/// The names of the controllable devices of a list that no driver speaks for.
pub open spec fn without_driver(drivers: Seq<Entry>, assets: Seq<Asset>) -> Seq<Seq<char>>
    decreases assets.len(),
{
    if assets.len() == 0 {
        Seq::empty()
    } else {
        let rest = without_driver(drivers, assets.drop_last());
        let last = assets.last();
        if last.controllable && !crate::drivers::spoken_for(drivers, last.id@) {
            rest.push(last.id@)
        } else {
            rest
        }
    }
}

// ── What is left of the meter ───────────────────────────────────────────────

/// What the metered devices draw together, in milliwatts.
pub open spec fn metered_total(assets: Seq<(String, Measurement)>) -> int
    decreases assets.len(),
{
    if assets.len() == 0 {
        0
    } else {
        metered_total(assets.drop_last()) + match assets.last().1.power_mw {
            Some(p) => p as int,
            None => 0,
        }
    }
}

/// The household's own load: everything the meter saw that no instrumented
/// device accounts for, and never less than nothing. There is none to speak of
/// where the meter at the connection point is not read.
pub open spec fn own_load(grid: Option<Measurement>, assets: Seq<(String, Measurement)>) -> Option<
    int,
> {
    match grid {
        Some(m) => match m.power_mw {
            Some(p) => if p > metered_total(assets) {
                Some(p - metered_total(assets))
            } else {
                Some(0)
            },
            None => None,
        },
        None => None,
    }
}

proof fn lemma_total_is_bounded(assets: Seq<(String, Measurement)>)
    ensures
        -0x8000_0000_0000_0000 * assets.len() <= metered_total(assets) <= 0x8000_0000_0000_0000
            * assets.len(),
    decreases assets.len(),
{
    if assets.len() > 0 {
        lemma_total_is_bounded(assets.drop_last());
    }
}

/// The household's own load in milliwatts.
pub fn household_load(observed: &Observed) -> (r: Option<i128>)
    ensures
        match r {
            Some(load) => own_load(observed.state.grid, observed.state.assets.listed()) == Some(
                load as int,
            ),
            None => own_load(observed.state.grid, observed.state.assets.listed()) is None,
        },
{
    let grid: i64 = match observed.state.grid {
        Some(m) => match m.power_mw {
            Some(p) => p,
            None => {
                return None;
            },
        },
        None => {
            return None;
        },
    };
    let n: usize = observed.state.assets.len();
    let ghost assets = observed.state.assets.listed();
    let mut total: i128 = 0;
    let mut i: usize = 0;
    assert(assets.take(0) =~= Seq::<(String, Measurement)>::empty());
    while i < n
        invariant
            n == assets.len(),
            n <= usize::MAX,
            assets == observed.state.assets.listed(),
            i <= n,
            total == metered_total(assets.take(i as int)),
        decreases n - i,
    {
        proof {
            lemma_total_is_bounded(assets.take(i as int));
            assert(assets.take(i + 1).drop_last() =~= assets.take(i as int));
        }
        if let Some(p) = observed.state.assets.value_at(i).power_mw {
            total = total + p as i128;
        }
        i = i + 1;
    }
    proof {
        lemma_total_is_bounded(assets);
    }
    assert(assets.take(n as int) =~= assets);
    if (grid as i128) > total {
        Some(grid as i128 - total)
    } else {
        Some(0)
    }
}

/// The devices whose power is known, and what it is.
pub open spec fn known_powers(assets: Map<Seq<char>, Measurement>) -> Map<Seq<char>, i64> {
    Map::new(
        |k: Seq<char>| assets.dom().contains(k) && assets[k].power_mw is Some,
        |k: Seq<char>| assets[k].power_mw.unwrap(),
    )
}

/// The per-device powers a caller can read straight out of what was observed.
pub fn powers(observed: &Observed) -> (r: ByName<i64>)
    requires
        observed.state.assets.in_order(),
    ensures
        r.in_order(),
        r@ == known_powers(observed.state.assets@),
{
    let n: usize = observed.state.assets.len();
    let ghost assets = observed.state.assets.listed();
    let mut r: ByName<i64> = ByName::new();
    let mut i: usize = 0;
    while i < n
        invariant
            n == assets.len(),
            assets == observed.state.assets.listed(),
            crate::names::ascending(assets),
            i <= n,
            r.in_order(),
            forall|k: Seq<char>|
                #[trigger] r@.dom().contains(k) ==> exists|j: int|
                    0 <= j < i && #[trigger] assets[j].0@ == k && assets[j].1.power_mw == Some(
                        r@[k],
                    ),
            forall|j: int|
                0 <= j < i && (#[trigger] assets[j]).1.power_mw is Some ==> r@.dom().contains(
                    assets[j].0@,
                ),
        decreases n - i,
    {
        let ghost held = r@;
        if let Some(p) = observed.state.assets.value_at(i).power_mw {
            r.insert(observed.state.assets.name_at(i).to_owned(), p);
            assert(r@ == held.insert(assets[i as int].0@, p));
            assert forall|k: Seq<char>| #[trigger] r@.dom().contains(k) implies exists|j: int|
                0 <= j < i + 1 && #[trigger] assets[j].0@ == k && assets[j].1.power_mw == Some(
                    r@[k],
                ) by {
                if k != assets[i as int].0@ {
                    assert(held.dom().contains(k));
                } else {
                    assert(assets[i as int].0@ == k);
                }
            }
        }
        i = i + 1;
    }
    proof {
        observed.state.assets.lemma_view();
        let m = observed.state.assets@;
        assert forall|k: Seq<char>| #[trigger]
            r@.dom().contains(k) == known_powers(m).dom().contains(k) && (r@.dom().contains(k)
            ==> r@[k] == known_powers(m)[k]) by {
            if r@.dom().contains(k) {
                let j = choose|j: int|
                    0 <= j < n && #[trigger] assets[j].0@ == k && assets[j].1.power_mw == Some(
                        r@[k],
                    );
                crate::names::lemma_place(assets, j);
            }
            if known_powers(m).dom().contains(k) {
                let j = crate::names::place(assets, k);
                crate::names::lemma_place(assets, j);
            }
        }
        assert(r@ =~= known_powers(m));
    }
    r
}

// ── What holds of the picture ───────────────────────────────────────────────

/// A device none of whose drivers is heard from contributes no reading, and is
/// named among the silent ones.
pub proof fn an_unheard_device_contributes_nothing(
    drivers: Seq<Entry>,
    grid: Option<Seq<char>>,
    now: int,
    asset: Seq<char>,
)
    requires
        crate::drivers::spoken_for(drivers, asset),
        forall|i: int|
            0 <= i < drivers.len() && #[trigger] drivers[i].asset@ == asset
                ==> !crate::drivers::is_heard(drivers[i], now),
    ensures
        !asset_readings(drivers, grid, now).dom().contains(asset),
        is_silent(drivers, now, asset),
        grid == Some(asset) ==> grid_reading(drivers, grid, now) is None,
{
    lemma_unheard(drivers, grid, now, asset);
}

proof fn lemma_unheard(drivers: Seq<Entry>, grid: Option<Seq<char>>, now: int, asset: Seq<char>)
    requires
        forall|i: int|
            0 <= i < drivers.len() && #[trigger] drivers[i].asset@ == asset
                ==> !crate::drivers::is_heard(drivers[i], now),
    ensures
        !asset_readings(drivers, grid, now).dom().contains(asset),
        grid == Some(asset) ==> grid_reading(drivers, grid, now) is None,
    decreases drivers.len(),
{
    if drivers.len() > 0 {
        let rest = drivers.drop_last();
        assert forall|i: int| 0 <= i < rest.len() && #[trigger] rest[i].asset@ == asset implies
            !crate::drivers::is_heard(rest[i], now) by {
            assert(drivers[i].asset@ == asset);
        }
        lemma_unheard(rest, grid, now, asset);
        assert(drivers[drivers.len() - 1] == drivers.last());
    }
}

/// A device with one driver whose reading is one to act on is read with it.
pub proof fn a_heard_device_contributes_its_reading(
    drivers: Seq<Entry>,
    grid: Option<Seq<char>>,
    now: int,
    at: int,
)
    requires
        0 <= at < drivers.len(),
        contributes(drivers[at], now),
        forall|i: int|
            0 <= i < drivers.len() && i != at && #[trigger] drivers[i].asset@ == drivers[at].asset@
                ==> !contributes(drivers[i], now),
    ensures
        grid == Some(drivers[at].asset@) ==> grid_reading(drivers, grid, now)
            == drivers[at].latest,
        grid != Some(drivers[at].asset@) ==> {
            &&& asset_readings(drivers, grid, now).dom().contains(drivers[at].asset@)
            &&& asset_readings(drivers, grid, now)[drivers[at].asset@]
                == drivers[at].latest.unwrap()
        },
    decreases drivers.len(),
{
    let last = drivers.last();
    let rest = drivers.drop_last();
    if at < drivers.len() - 1 {
        assert(rest[at] == drivers[at]);
        assert forall|i: int|
            0 <= i < rest.len() && i != at && #[trigger] rest[i].asset@ == rest[at].asset@ implies
            !contributes(rest[i], now) by {
            assert(drivers[i].asset@ == drivers[at].asset@);
        }
        a_heard_device_contributes_its_reading(rest, grid, now, at);
        assert(drivers[drivers.len() - 1] == last);
        if last.asset@ == drivers[at].asset@ {
            assert(!contributes(drivers[drivers.len() - 1], now));
        }
    }
}

/// Two lists of drivers that believe the same give the same picture.
pub proof fn the_picture_is_what_is_believed(
    a: Seq<Entry>,
    b: Seq<Entry>,
    grid: Option<Seq<char>>,
    now: int,
)
    requires
        a.len() == b.len(),
        forall|i: int| 0 <= i < a.len() ==> crate::drivers::same_belief(#[trigger] a[i], b[i]),
    ensures
        grid_reading(a, grid, now) == grid_reading(b, grid, now),
        asset_readings(a, grid, now) == asset_readings(b, grid, now),
        phase_modes(a, now) == phase_modes(b, now),
        refusals(a) == refusals(b),
        vehicles_of(a) == vehicles_of(b),
        flexibility_of(a) == flexibility_of(b),
        forall|k: Seq<char>| is_silent(a, now, k) == is_silent(b, now, k),
        forall|k: Seq<char>| is_assumed(a, k) == is_assumed(b, k),
    decreases a.len(),
{
    if a.len() > 0 {
        let x = a.drop_last();
        let y = b.drop_last();
        assert forall|i: int| 0 <= i < x.len() implies crate::drivers::same_belief(
            #[trigger] x[i],
            y[i],
        ) by {
            assert(crate::drivers::same_belief(a[i], b[i]));
        }
        the_picture_is_what_is_believed(x, y, grid, now);
        assert(crate::drivers::same_belief(a[a.len() - 1], b[b.len() - 1]));
    }
    assert forall|k: Seq<char>| is_silent(a, now, k) == is_silent(b, now, k) by {
        if is_silent(a, now, k) {
            let j = choose|j: int|
                0 <= j < a.len() && #[trigger] a[j].asset@ == k && !crate::drivers::is_heard(
                    a[j],
                    now,
                );
            assert(crate::drivers::same_belief(a[j], b[j]));
            assert(b[j].asset@ == k);
        }
        if is_silent(b, now, k) {
            let j = choose|j: int|
                0 <= j < b.len() && #[trigger] b[j].asset@ == k && !crate::drivers::is_heard(
                    b[j],
                    now,
                );
            assert(crate::drivers::same_belief(a[j], b[j]));
            assert(a[j].asset@ == k);
        }
    }
    assert forall|k: Seq<char>| is_assumed(a, k) == is_assumed(b, k) by {
        if is_assumed(a, k) {
            let j = choose|j: int|
                0 <= j < a.len() && #[trigger] a[j].asset@ == k && a[j].caps.measures
                    && !a[j].caps.reports_available_power;
            assert(crate::drivers::same_belief(a[j], b[j]));
            assert(b[j].asset@ == k);
        }
        if is_assumed(b, k) {
            let j = choose|j: int|
                0 <= j < b.len() && #[trigger] b[j].asset@ == k && b[j].caps.measures
                    && !b[j].caps.reports_available_power;
            assert(crate::drivers::same_belief(a[j], b[j]));
            assert(a[j].asset@ == k);
        }
    }
}

/// Whether anybody drained first changes nothing about what is observed.
pub proof fn draining_does_not_change_the_picture(
    before: Seq<Entry>,
    drained: Seq<Entry>,
    grid: Option<Seq<char>>,
    now: int,
)
    requires
        crate::drivers::all_drained(drained, before),
    ensures
        grid_reading(drained, grid, now) == grid_reading(before, grid, now),
        asset_readings(drained, grid, now) == asset_readings(before, grid, now),
        phase_modes(drained, now) == phase_modes(before, now),
        refusals(drained) == refusals(before),
        vehicles_of(drained) == vehicles_of(before),
        flexibility_of(drained) == flexibility_of(before),
        forall|k: Seq<char>| is_silent(drained, now, k) == is_silent(before, now, k),
        forall|k: Seq<char>| is_assumed(drained, k) == is_assumed(before, k),
{
    assert forall|i: int| 0 <= i < drained.len() implies crate::drivers::same_belief(
        #[trigger] drained[i],
        before[i],
    ) by {
        assert(crate::drivers::is_drained(drained[i], before[i]));
    }
    the_picture_is_what_is_believed(drained, before, grid, now);
}

/// Nothing is said twice and nothing is lost: once everything has been taken,
/// there is nothing left to take.
pub proof fn a_second_drain_takes_nothing(before: Seq<Entry>, drained: Seq<Entry>)
    requires
        crate::drivers::all_drained(drained, before),
    ensures
        crate::drivers::spoken(drained).len() == 0,
{
    lemma_nothing_to_say(drained);
}

proof fn lemma_nothing_to_say(drivers: Seq<Entry>)
    requires
        forall|i: int|
            0 <= i < drivers.len() ==> (#[trigger] drivers[i]).pending@.len() == 0,
    ensures
        crate::drivers::spoken(drivers).len() == 0,
    decreases drivers.len(),
{
    if drivers.len() > 0 {
        let rest = drivers.drop_last();
        assert forall|i: int| 0 <= i < rest.len() implies (#[trigger] rest[i]).pending@.len()
            == 0 by {
            assert(rest[i] == drivers[i]);
        }
        lemma_nothing_to_say(rest);
        assert(drivers[drivers.len() - 1] == drivers.last());
    }
}

/// Whether a driver is the last of a list that speaks for a device and has something of it
/// to show.
pub open spec fn is_last_of(drivers: Seq<Entry>, shows: Seq<bool>, asset: Seq<char>, i: int) -> bool {
    &&& 0 <= i < drivers.len()
    &&& drivers[i].asset@ == asset
    &&& shows[i]
    &&& forall|j: int| i < j < drivers.len() && #[trigger] drivers[j].asset@ == asset ==> !shows[j]
}

/// Every reading of a device is that of its last driver whose reading is one to act on: the
/// link is up and the driver is heard. A device has one where such a driver speaks for it,
/// and the meter at the connection point is not among the devices.
pub proof fn a_reading_is_its_last_drivers(
    drivers: Seq<Entry>,
    grid: Option<Seq<char>>,
    now: int,
    asset: Seq<char>,
) -> (i: int)
    ensures
        ({
            let shows = Seq::new(
                drivers.len(),
                |j: int| drivers[j].latest is Some && crate::drivers::is_heard(drivers[j], now),
            );
            let readings = asset_readings(drivers, grid, now);
            &&& grid == Some(asset) ==> !readings.dom().contains(asset)
            &&& readings.dom().contains(asset) ==> is_last_of(drivers, shows, asset, i)
                && drivers[i].latest == Some(readings[asset])
            &&& grid == Some(asset) && grid_reading(drivers, grid, now) is Some ==> is_last_of(
                drivers,
                shows,
                asset,
                i,
            ) && drivers[i].latest == grid_reading(drivers, grid, now)
            &&& forall|j: int|
                0 <= j < drivers.len() && #[trigger] drivers[j].asset@ == asset && shows[j] ==> if grid
                    == Some(asset) {
                    grid_reading(drivers, grid, now) is Some
                } else {
                    readings.dom().contains(asset)
                }
        }),
        grid is None ==> grid_reading(drivers, grid, now) is None,
    decreases drivers.len(),
{
    let shows = Seq::new(
        drivers.len(),
        |j: int| drivers[j].latest is Some && crate::drivers::is_heard(drivers[j], now),
    );
    if drivers.len() == 0 {
        0
    } else {
        let rest = drivers.drop_last();
        let n = drivers.len() - 1;
        let before = Seq::new(
            rest.len(),
            |j: int| rest[j].latest is Some && crate::drivers::is_heard(rest[j], now),
        );
        let i = a_reading_is_its_last_drivers(rest, grid, now, asset);
        assert forall|j: int| 0 <= j < n implies rest[j] == #[trigger] drivers[j] && before[j]
            == shows[j] by {}
        assert(drivers[n] == drivers.last());
        assert forall|j: int|
            0 <= j < drivers.len() && #[trigger] drivers[j].asset@ == asset && shows[j] implies if grid
            == Some(asset) {
            grid_reading(drivers, grid, now) is Some
        } else {
            asset_readings(drivers, grid, now).dom().contains(asset)
        } by {
            if j < n {
                assert(rest[j].asset@ == asset);
            }
        }
        if drivers.last().asset@ == asset && shows[n] {
            n
        } else {
            if is_last_of(rest, before, asset, i) {
                assert forall|j: int| i < j < drivers.len() && #[trigger] drivers[j].asset@
                    == asset implies !shows[j] by {
                    if j < n {
                        assert(rest[j].asset@ == asset);
                    }
                }
            }
            i
        }
    }
}

/// What is known of a device's conductors, of its last command, of its car and of what it
/// could do is what its last driver that knows it said; and what some driver knows is known.
pub proof fn what_is_known_of_a_device_is_its_last_drivers(
    drivers: Seq<Entry>,
    now: int,
    asset: Seq<char>,
    at: int,
)
    requires
        0 <= at < drivers.len(),
        drivers[at].asset@ == asset,
    ensures
        ({
            let known = Seq::new(
                drivers.len(),
                |j: int|
                    drivers[j].latest is Some && crate::drivers::is_heard(drivers[j], now)
                        && drivers[j].phases is Some,
            );
            is_last_of(drivers, known, asset, at) ==> phase_modes(drivers, now).dom().contains(
                asset,
            ) && Some(phase_modes(drivers, now)[asset]) == drivers[at].phases
        }),
        ({
            let known = Seq::new(drivers.len(), |j: int| drivers[j].vehicle is Some);
            is_last_of(drivers, known, asset, at) ==> vehicles_of(drivers).dom().contains(asset)
                && Some(vehicles_of(drivers)[asset]) == drivers[at].vehicle
        }),
        ({
            let known = Seq::new(drivers.len(), |j: int| drivers[j].flex is Some);
            is_last_of(drivers, known, asset, at) ==> flexibility_of(drivers).dom().contains(asset)
                && Some(flexibility_of(drivers)[asset]) == drivers[at].flex
        }),
        ({
            let known = Seq::new(
                drivers.len(),
                |j: int|
                    drivers[j].last_command is Some && !drivers[j].last_command->Some_0.accepted,
            );
            is_last_of(drivers, known, asset, at) ==> {
                &&& refusals(drivers).dom().contains(asset)
                &&& drivers[at].last_command->Some_0.detail matches Some(said) ==> refusals(
                    drivers,
                )[asset] == said@
                &&& drivers[at].last_command->Some_0.detail is None ==> refusals(drivers)[asset]
                    == "the device did not carry it out"@
            }
        }),
    decreases drivers.len(),
{
    let n = drivers.len() - 1;
    let rest = drivers.drop_last();
    assert(drivers[n] == drivers.last());
    if at < n {
        what_is_known_of_a_device_is_its_last_drivers(rest, now, asset, at);
        lemma_last_of_fewer(
            drivers,
            Seq::new(
                drivers.len(),
                |j: int|
                    drivers[j].latest is Some && crate::drivers::is_heard(drivers[j], now)
                        && drivers[j].phases is Some,
            ),
            Seq::new(
                rest.len(),
                |j: int|
                    rest[j].latest is Some && crate::drivers::is_heard(rest[j], now)
                        && rest[j].phases is Some,
            ),
            asset,
            at,
        );
        lemma_last_of_fewer(
            drivers,
            Seq::new(drivers.len(), |j: int| drivers[j].vehicle is Some),
            Seq::new(rest.len(), |j: int| rest[j].vehicle is Some),
            asset,
            at,
        );
        lemma_last_of_fewer(
            drivers,
            Seq::new(drivers.len(), |j: int| drivers[j].flex is Some),
            Seq::new(rest.len(), |j: int| rest[j].flex is Some),
            asset,
            at,
        );
        lemma_last_of_fewer(
            drivers,
            Seq::new(
                drivers.len(),
                |j: int|
                    drivers[j].last_command is Some && !drivers[j].last_command->Some_0.accepted,
            ),
            Seq::new(
                rest.len(),
                |j: int| rest[j].last_command is Some && !rest[j].last_command->Some_0.accepted,
            ),
            asset,
            at,
        );
    }
}

proof fn lemma_last_of_fewer(
    drivers: Seq<Entry>,
    shows: Seq<bool>,
    fewer: Seq<bool>,
    asset: Seq<char>,
    at: int,
)
    requires
        0 <= at < drivers.len() - 1,
        shows.len() == drivers.len(),
        fewer =~= shows.drop_last(),
    ensures
        is_last_of(drivers, shows, asset, at) ==> is_last_of(
            drivers.drop_last(),
            fewer,
            asset,
            at,
        ),
        is_last_of(drivers, shows, asset, at) && drivers.last().asset@ == asset
            ==> !shows[drivers.len() - 1],
{
    let rest = drivers.drop_last();
    if is_last_of(drivers, shows, asset, at) {
        assert forall|j: int| at < j < rest.len() && #[trigger] rest[j].asset@ == asset implies
            !fewer[j] by {
            assert(drivers[j].asset@ == asset);
        }
        assert(drivers[drivers.len() - 1] == drivers.last());
    }
}

/// Nothing is known of a device that no driver said.
pub proof fn nothing_is_known_that_no_driver_said(drivers: Seq<Entry>, now: int, asset: Seq<char>)
    ensures
        phase_modes(drivers, now).dom().contains(asset) ==> exists|i: int|
            0 <= i < drivers.len() && #[trigger] drivers[i].asset@ == asset && contributes(
                drivers[i],
                now,
            ) && drivers[i].phases == Some(phase_modes(drivers, now)[asset]),
        vehicles_of(drivers).dom().contains(asset) ==> exists|i: int|
            0 <= i < drivers.len() && #[trigger] drivers[i].asset@ == asset && drivers[i].vehicle
                == Some(vehicles_of(drivers)[asset]),
        flexibility_of(drivers).dom().contains(asset) ==> exists|i: int|
            0 <= i < drivers.len() && #[trigger] drivers[i].asset@ == asset && drivers[i].flex
                == Some(flexibility_of(drivers)[asset]),
        refusals(drivers).dom().contains(asset) ==> exists|i: int|
            0 <= i < drivers.len() && #[trigger] drivers[i].asset@ == asset
                && drivers[i].last_command is Some && !drivers[i].last_command->Some_0.accepted,
    decreases drivers.len(),
{
    if drivers.len() > 0 {
        let rest = drivers.drop_last();
        let n = drivers.len() - 1;
        nothing_is_known_that_no_driver_said(rest, now, asset);
        assert(drivers[n] == drivers.last());
        assert forall|j: int| 0 <= j < n implies rest[j] == #[trigger] drivers[j] by {}
        if drivers[n].asset@ != asset {
            if phase_modes(rest, now).dom().contains(asset) {
                let i = choose|i: int|
                    0 <= i < rest.len() && #[trigger] rest[i].asset@ == asset && contributes(
                        rest[i],
                        now,
                    ) && rest[i].phases == Some(phase_modes(rest, now)[asset]);
                assert(drivers[i].asset@ == asset);
            }
            if vehicles_of(rest).dom().contains(asset) {
                let i = choose|i: int|
                    0 <= i < rest.len() && #[trigger] rest[i].asset@ == asset && rest[i].vehicle
                        == Some(vehicles_of(rest)[asset]);
                assert(drivers[i].asset@ == asset);
            }
            if flexibility_of(rest).dom().contains(asset) {
                let i = choose|i: int|
                    0 <= i < rest.len() && #[trigger] rest[i].asset@ == asset && rest[i].flex
                        == Some(flexibility_of(rest)[asset]);
                assert(drivers[i].asset@ == asset);
            }
            if refusals(rest).dom().contains(asset) {
                let i = choose|i: int|
                    0 <= i < rest.len() && #[trigger] rest[i].asset@ == asset
                        && rest[i].last_command is Some && !rest[i].last_command->Some_0.accepted;
                assert(drivers[i].asset@ == asset);
            }
        } else {
            lemma_kept_or_said(drivers, now, asset);
        }
    }
}

proof fn lemma_kept_or_said(drivers: Seq<Entry>, now: int, asset: Seq<char>)
    requires
        drivers.len() > 0,
        drivers.last().asset@ == asset,
        ({
            let rest = drivers.drop_last();
            &&& phase_modes(rest, now).dom().contains(asset) ==> exists|i: int|
                0 <= i < rest.len() && #[trigger] rest[i].asset@ == asset && contributes(
                    rest[i],
                    now,
                ) && rest[i].phases == Some(phase_modes(rest, now)[asset])
            &&& vehicles_of(rest).dom().contains(asset) ==> exists|i: int|
                0 <= i < rest.len() && #[trigger] rest[i].asset@ == asset && rest[i].vehicle
                    == Some(vehicles_of(rest)[asset])
            &&& flexibility_of(rest).dom().contains(asset) ==> exists|i: int|
                0 <= i < rest.len() && #[trigger] rest[i].asset@ == asset && rest[i].flex
                    == Some(flexibility_of(rest)[asset])
            &&& refusals(rest).dom().contains(asset) ==> exists|i: int|
                0 <= i < rest.len() && #[trigger] rest[i].asset@ == asset
                    && rest[i].last_command is Some && !rest[i].last_command->Some_0.accepted
        }),
    ensures
        phase_modes(drivers, now).dom().contains(asset) ==> exists|i: int|
            0 <= i < drivers.len() && #[trigger] drivers[i].asset@ == asset && contributes(
                drivers[i],
                now,
            ) && drivers[i].phases == Some(phase_modes(drivers, now)[asset]),
        vehicles_of(drivers).dom().contains(asset) ==> exists|i: int|
            0 <= i < drivers.len() && #[trigger] drivers[i].asset@ == asset && drivers[i].vehicle
                == Some(vehicles_of(drivers)[asset]),
        flexibility_of(drivers).dom().contains(asset) ==> exists|i: int|
            0 <= i < drivers.len() && #[trigger] drivers[i].asset@ == asset && drivers[i].flex
                == Some(flexibility_of(drivers)[asset]),
        refusals(drivers).dom().contains(asset) ==> exists|i: int|
            0 <= i < drivers.len() && #[trigger] drivers[i].asset@ == asset
                && drivers[i].last_command is Some && !drivers[i].last_command->Some_0.accepted,
{
    let rest = drivers.drop_last();
    let n = drivers.len() - 1;
    assert(drivers[n].asset@ == asset);
    assert forall|j: int| 0 <= j < n && #[trigger] rest[j].asset@ == asset implies
        drivers[j].asset@ == asset && rest[j] == drivers[j] by {}
}

/// A device is silent where one of its drivers is not heard, and its available power is
/// taken from its nameplate where one that measures it does not report it.
pub proof fn one_unheard_driver_makes_a_device_silent(drivers: Seq<Entry>, now: int, i: int)
    requires
        0 <= i < drivers.len(),
    ensures
        !crate::drivers::is_heard(drivers[i], now) ==> is_silent(drivers, now, drivers[i].asset@),
        drivers[i].caps.measures && !drivers[i].caps.reports_available_power ==> is_assumed(
            drivers,
            drivers[i].asset@,
        ),
        (forall|j: int|
            0 <= j < drivers.len() && #[trigger] drivers[j].asset@ == drivers[i].asset@
                ==> crate::drivers::is_heard(drivers[j], now)) ==> !is_silent(
            drivers,
            now,
            drivers[i].asset@,
        ),
        (forall|j: int|
            0 <= j < drivers.len() && #[trigger] drivers[j].asset@ == drivers[i].asset@
                ==> !drivers[j].caps.measures || drivers[j].caps.reports_available_power)
            ==> !is_assumed(drivers, drivers[i].asset@),
{
    assert(drivers[i].asset@ == drivers[i].asset@);
}

/// A controllable device no driver speaks for is named once for each time the site lists
/// it, in the site's order, and no other device is. What is returned says which device each
/// name is.
pub proof fn an_undriven_device_is_named(drivers: Seq<Entry>, assets: Seq<Asset>) -> (picks: Seq<
    int,
>)
    ensures
        picks.len() == without_driver(drivers, assets).len(),
        forall|j: int|
            0 <= j < picks.len() ==> 0 <= #[trigger] picks[j] < assets.len()
                && assets[picks[j]].controllable && !crate::drivers::spoken_for(
                drivers,
                assets[picks[j]].id@,
            ) && without_driver(drivers, assets)[j] == assets[picks[j]].id@,
        forall|j: int, k: int| 0 <= j < k < picks.len() ==> #[trigger] picks[j] < #[trigger] picks[k],
        forall|i: int|
            0 <= i < assets.len() && (#[trigger] assets[i]).controllable
                && !crate::drivers::spoken_for(drivers, assets[i].id@) ==> picks.contains(i),
    decreases assets.len(),
{
    if assets.len() == 0 {
        Seq::empty()
    } else {
        let rest = assets.drop_last();
        let before = an_undriven_device_is_named(drivers, rest);
        let last = assets.len() - 1;
        let named = assets.last().controllable && !crate::drivers::spoken_for(
            drivers,
            assets.last().id@,
        );
        let picks = if named {
            before.push(last)
        } else {
            before
        };
        assert forall|i: int|
            0 <= i < assets.len() && (#[trigger] assets[i]).controllable
                && !crate::drivers::spoken_for(drivers, assets[i].id@) implies picks.contains(
            i,
        ) by {
            if i < last {
                assert(rest[i] == assets[i]);
                let j = before.index_of(i);
                assert(picks[j] == i);
            } else {
                assert(picks[picks.len() - 1] == i);
            }
        }
        assert forall|j: int| 0 <= j < picks.len() implies 0 <= #[trigger] picks[j] < assets.len()
            && assets[picks[j]].controllable && !crate::drivers::spoken_for(
            drivers,
            assets[picks[j]].id@,
        ) && without_driver(drivers, assets)[j] == assets[picks[j]].id@ by {
            if j < before.len() {
                assert(picks[j] == before[j]);
                assert(rest[before[j]] == assets[before[j]]);
            }
        }
        assert forall|j: int, k: int| 0 <= j < k < picks.len() implies #[trigger] picks[j]
            < #[trigger] picks[k] by {
            if k < before.len() {
                assert(before[j] < before[k]);
            } else {
                assert(picks[j] == before[j]);
            }
        }
        picks
    }
}

/// What the metered devices draw together is the sum of what each was read to draw, and a
/// device that was not counts for nothing.
pub proof fn metered_devices_add_up(
    a: Seq<(String, Measurement)>,
    b: Seq<(String, Measurement)>,
    one: (String, Measurement),
)
    ensures
        metered_total(a + b) == metered_total(a) + metered_total(b),
        one.1.power_mw matches Some(p) ==> metered_total(seq![one]) == p,
        one.1.power_mw is None ==> metered_total(seq![one]) == 0,
    decreases b.len(),
{
    assert(seq![one].drop_last() =~= Seq::<(String, Measurement)>::empty());
    assert(metered_total(Seq::<(String, Measurement)>::empty()) == 0);
    if b.len() == 0 {
        assert(a + b =~= a);
    } else {
        metered_devices_add_up(a, b.drop_last(), one);
        assert((a + b).drop_last() =~= a + b.drop_last());
        assert((a + b).last() == b.last());
    }
}

/// The household's own load and its devices together are what the meter saw, unless the
/// devices alone are more: then its own load is nothing. Without a reading of the meter
/// there is none.
pub proof fn own_load_is_what_the_devices_leave_of_the_meter(
    grid: Option<Measurement>,
    assets: Seq<(String, Measurement)>,
)
    ensures
        own_load(grid, assets) is Some <==> grid is Some && grid->Some_0.power_mw is Some,
        own_load(grid, assets) matches Some(load) ==> {
            let seen = grid->Some_0.power_mw->Some_0;
            &&& load >= 0
            &&& seen >= metered_total(assets) ==> load + metered_total(assets) == seen
            &&& seen <= metered_total(assets) ==> load == 0
        },
{
}

/// A device's power is known where it was read with one, and it is the one that was read.
pub proof fn a_known_power_is_the_one_that_was_read(
    assets: Map<Seq<char>, Measurement>,
    k: Seq<char>,
)
    ensures
        known_powers(assets).dom().contains(k) <==> assets.dom().contains(k)
            && assets[k].power_mw is Some,
        known_powers(assets).dom().contains(k) ==> assets[k].power_mw == Some(
            known_powers(assets)[k],
        ),
{
}

/// The whole picture is every part of it, and what the operator asks for is passed on as it
/// is held.
pub proof fn the_picture_leaves_nothing_out(
    o: Observed,
    drivers: Seq<Entry>,
    limits: GridLimits,
    grid: Option<Seq<char>>,
    now: int,
    k: Seq<char>,
)
    requires
        o.is_picture_of(drivers, limits, grid, now),
    ensures
        o.limits == limits,
        o.state.grid == grid_reading(drivers, grid, now),
        o.state.assets@ == asset_readings(drivers, grid, now),
        o.state.phases@ == phase_modes(drivers, now),
        o.silent@.dom().contains(k) <==> is_silent(drivers, now, k),
        o.assumed_available@.dom().contains(k) <==> is_assumed(drivers, k),
        o.disobedient@.dom().contains(k) <==> refusals(drivers).dom().contains(k),
        o.disobedient@.dom().contains(k) ==> o.disobedient@[k]@ == refusals(drivers)[k],
        o.vehicles@ == vehicles_of(drivers),
        o.flexibility@ == flexibility_of(drivers),
{
}

} // verus!

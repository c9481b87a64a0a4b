//! What the box tells the fleet about a day that has finished.
//!
//! A box meters; it does not model. Every figure here is read back out of the
//! rows the control loop already wrote, so that a restart loses nothing. The
//! exceptions are the time the arbiter spent with no plan and what the hardware would
//! not take, which no row holds.

use vstd::prelude::*;

use crate::clock::{day_window, Instant};
use crate::text::divide_half_even;

verus! {

/// How many quarter hours have to be scored before a day's score says anything.
pub const ENOUGH_OF_A_DAY: usize = 48;

/// A forecast of one quarter hour, in milliwatts.
#[derive(Debug, Clone, Copy, PartialEq, Eq, Structural)]
pub struct Band {
    /// One outcome in ten is below this.
    pub p10: i64,
    /// One in two is.
    pub p50: i64,
    /// Nine in ten are.
    pub p90: i64,
}

/// How today's forecasts stand against what happened.
#[derive(Debug)]
pub struct Scored {
    /// What was forecast for the roof, and what it made.
    pub pv: Vec<(Band, i64)>,
    /// What was forecast for the household, and what it drew.
    pub load: Vec<(Band, i64)>,
}

impl Scored {
    /// Both halves hold the same quarter hours.
    pub open spec fn is_paired(self) -> bool {
        self.pv@.len() == self.load@.len()
    }

    /// Nothing yet.
    pub fn new() -> (s: Self)
        ensures
            s.is_paired(),
            s.pv@.len() == 0,
    {
        Scored { pv: Vec::new(), load: Vec::new() }
    }

    /// One quarter hour, scored against the bands it was planned with; one that
    /// was not planned says nothing.
    pub fn observe(&mut self, bands: Option<(Band, Band)>, pv_mw: i64, load_mw: i64)
        requires
            old(self).is_paired(),
        ensures
            final(self).is_paired(),
            final(self).pv@ == match bands {
                Some((pv, _)) => old(self).pv@.push((pv, pv_mw)),
                None => old(self).pv@,
            },
            final(self).load@ == match bands {
                Some((_, load)) => old(self).load@.push((load, load_mw)),
                None => old(self).load@,
            },
    {
        if let Some((pv, load)) = bands {
            self.pv.push((pv, pv_mw));
            self.load.push((load, load_mw));
        }
    }

    /// What there is to score, once it is enough of a day to say anything.
    pub fn scores(&self) -> (r: Option<(&Vec<(Band, i64)>, &Vec<(Band, i64)>)>)
        ensures
            r is Some <==> self.pv@.len() >= ENOUGH_OF_A_DAY,
            r matches Some((pv, load)) ==> pv@ == self.pv@ && load@ == self.load@,
    {
        if self.pv.len() < ENOUGH_OF_A_DAY {
            None
        } else {
            Some((&self.pv, &self.load))
        }
    }

    /// A new day.
    pub fn roll(&mut self)
        ensures
            final(self).is_paired(),
            final(self).pv@.len() == 0,
            final(self).load@.len() == 0,
    {
        self.pv.clear();
        self.load.clear();
    }
}

/// How long the arbiter has been without a plan today.
#[derive(Debug, Clone, Copy, PartialEq, Eq, Structural)]
pub struct Unplanned {
    minutes: u32,
    seconds: u32,
    complete: bool,
}

impl Unplanned {
    /// How many seconds have been counted.
    pub closed spec fn counted(self) -> int {
        60 * self.minutes + self.seconds
    }

    /// Whether the whole day has been watched.
    pub closed spec fn saw_the_whole_day(self) -> bool {
        self.complete
    }

    /// The whole minutes it comes to, where the whole day was watched.
    pub open spec fn reported(self) -> Option<int> {
        if self.saw_the_whole_day() {
            Some(self.counted() / 60)
        } else {
            None
        }
    }

    /// Less than a minute is left over.
    pub closed spec fn is_carried(self) -> bool {
        self.seconds < 60
    }

    /// A day that is watched from its beginning.
    pub fn watching() -> (r: Self)
        ensures
            r.is_carried(),
            r.counted() == 0,
            r.saw_the_whole_day(),
    {
        Unplanned { minutes: 0, seconds: 0, complete: true }
    }

    /// A day whose earlier part nobody watched.
    pub fn resumed() -> (r: Self)
        ensures
            r.is_carried(),
            r.counted() == 0,
            !r.saw_the_whole_day(),
    {
        Unplanned { minutes: 0, seconds: 0, complete: false }
    }

    /// Whether one more turn without a plan can be counted, however long the day has
    /// been without one.
    pub fn can_count(&self, period_s: u64) -> (r: bool)
        ensures
            r == (period_s <= u32::MAX - 59 && self.counted() + period_s <= 60 * u32::MAX + 59),
    {
        period_s <= 0xffff_ffff - 59 && 60 * (self.minutes as u64) + self.seconds as u64 + period_s
            <= 60 * 0xffff_ffff + 59
    }

    /// One turn of the control loop.
    pub fn tick(&mut self, had_a_plan: bool, period_s: u32)
        requires
            old(self).is_carried(),
            !had_a_plan ==> old(self).counted() % 60 + period_s <= u32::MAX && old(self).counted()
                + period_s <= 60 * u32::MAX + 59,
        ensures
            ticked(*old(self), *final(self), had_a_plan, period_s as int),
    {
        if !had_a_plan {
            self.seconds = self.seconds + period_s;
            self.minutes = self.minutes + self.seconds / 60;
            self.seconds = self.seconds % 60;
        }
    }

    /// How many whole minutes it has been, where the whole day was watched.
    pub fn minutes(&self) -> (r: Option<u32>)
        requires
            self.is_carried(),
        ensures
            match r {
                Some(m) => self.reported() == Some(m as int),
                None => self.reported() is None,
            },
    {
        if self.complete {
            Some(self.minutes)
        } else {
            None
        }
    }

    /// A new day, watched from its beginning.
    pub fn roll(&mut self)
        ensures
            final(self).is_carried(),
            final(self).counted() == 0,
            final(self).saw_the_whole_day(),
    {
        *self = Self::watching();
    }
}

/// What the hardware would not take today.
#[derive(Debug, Clone, Copy, PartialEq, Eq, Structural)]
pub struct Clipping {
    /// The energy it comes to, in thousandths of a joule.
    pub withheld_mj: i128,
    /// How many turns of the control loop withheld anything.
    pub turns: u64,
}

/// A tally after one more turn that withheld so much power for so long.
pub open spec fn clipped(before: Clipping, power_mw: int, period_s: int) -> (int, int) {
    (
        before.withheld_mj + power_mw * period_s,
        before.turns + if power_mw == 0 {
            0int
        } else {
            1int
        },
    )
}

impl Clipping {
    /// Nothing was withheld.
    pub open spec fn is_zero(self) -> bool {
        self.withheld_mj == 0 && self.turns == 0
    }

    /// Whether one more turn can be counted.
    pub open spec fn has_room_for(self, power_mw: int, period_s: int) -> bool {
        &&& i128::MIN <= power_mw * period_s <= i128::MAX
        &&& i128::MIN <= clipped(self, power_mw, period_s).0 <= i128::MAX
        &&& clipped(self, power_mw, period_s).1 <= u64::MAX
    }

    /// A day on which nothing has been withheld yet.
    pub fn zero() -> (r: Self)
        ensures
            r.is_zero(),
    {
        Clipping { withheld_mj: 0, turns: 0 }
    }

    /// Whether one more turn can be counted.
    pub fn can_count(&self, power_mw: i128, period_s: u32) -> (r: bool)
        ensures
            r == self.has_room_for(power_mw as int, period_s as int),
    {
        let withheld: i128 = match power_mw.checked_mul(period_s as i128) {
            Some(withheld) => withheld,
            None => {
                return false;
            },
        };
        self.withheld_mj.checked_add(withheld).is_some() && (power_mw == 0 || self.turns < u64::MAX)
    }

    /// One turn of the control loop that withheld so much power.
    pub fn tick(&mut self, power_mw: i128, period_s: u32)
        requires
            old(self).has_room_for(power_mw as int, period_s as int),
        ensures
            (final(self).withheld_mj as int, final(self).turns as int) == clipped(
                *old(self),
                power_mw as int,
                period_s as int,
            ),
    {
        self.withheld_mj = self.withheld_mj + power_mw * (period_s as i128);
        if power_mw != 0 {
            self.turns = self.turns + 1;
        }
    }

    /// A new day.
    pub fn roll(&mut self)
        ensures
            final(self).is_zero(),
    {
        *self = Self::zero();
    }
}

/// Whether one count is another after one turn of the control loop.
pub open spec fn ticked(
    before: Unplanned,
    after: Unplanned,
    had_a_plan: bool,
    period_s: int,
) -> bool {
    &&& after.is_carried()
    &&& after.saw_the_whole_day() == before.saw_the_whole_day()
    &&& after.counted() == before.counted() + (if had_a_plan {
        0
    } else {
        period_s
    })
}

/// Whether counts follow one another by turns of the control loop: the turn that
/// led to each was planned or not, and so long.
pub open spec fn is_a_run(counts: Seq<Unplanned>, planned: Seq<bool>, periods: Seq<int>) -> bool {
    &&& counts.len() > 0
    &&& planned.len() == counts.len() - 1
    &&& periods.len() == counts.len() - 1
    &&& forall|i: int|
        0 <= i < planned.len() ==> ticked(
            counts[i],
            counts[i + 1],
            #[trigger] planned[i],
            periods[i],
        )
}

/// How long some turns were without a plan, together.
pub open spec fn without_a_plan(planned: Seq<bool>, periods: Seq<int>) -> int
    decreases planned.len(),
{
    if planned.len() == 0 {
        0
    } else {
        without_a_plan(planned.drop_last(), periods.drop_last()) + if planned.last() {
            0
        } else {
            periods.last()
        }
    }
}

proof fn lemma_run_is_shorter(counts: Seq<Unplanned>, planned: Seq<bool>, periods: Seq<int>)
    requires
        is_a_run(counts, planned, periods),
        planned.len() > 0,
    ensures
        is_a_run(counts.drop_last(), planned.drop_last(), periods.drop_last()),
        ticked(
            counts.drop_last().last(),
            counts.last(),
            planned.last(),
            periods.last(),
        ),
{
    let n = planned.len() - 1;
    assert(ticked(counts[n], counts[n + 1], planned[n], periods[n]));
    assert forall|i: int| 0 <= i < planned.drop_last().len() implies ticked(
        counts.drop_last()[i],
        counts.drop_last()[i + 1],
        #[trigger] planned.drop_last()[i],
        periods.drop_last()[i],
    ) by {
        assert(ticked(counts[i], counts[i + 1], planned[i], periods[i]));
    }
}

/// Seconds add up without drifting: no second of a turn without a plan is lost
/// however the turns are cut, and one with a plan adds nothing. A day watched from its
/// beginning reports their whole minutes.
pub proof fn seconds_add_up_without_drifting(
    counts: Seq<Unplanned>,
    planned: Seq<bool>,
    periods: Seq<int>,
)
    requires
        is_a_run(counts, planned, periods),
    ensures
        counts.last().counted() == counts[0].counted() + without_a_plan(planned, periods),
        counts[0].saw_the_whole_day() ==> counts.last().reported() == Some(
            (counts[0].counted() + without_a_plan(planned, periods)) / 60,
        ),
    decreases planned.len(),
{
    if planned.len() > 0 {
        lemma_run_is_shorter(counts, planned, periods);
        seconds_add_up_without_drifting(
            counts.drop_last(),
            planned.drop_last(),
            periods.drop_last(),
        );
    }
}

/// A restart is not a day without a plan: a counter that missed part of the day is
/// never complete and reports nothing, however many turns follow.
pub proof fn a_restart_is_not_a_day_without_a_plan(
    counts: Seq<Unplanned>,
    planned: Seq<bool>,
    periods: Seq<int>,
    i: int,
)
    requires
        is_a_run(counts, planned, periods),
        !counts[0].saw_the_whole_day(),
        0 <= i < counts.len(),
    ensures
        !counts[i].saw_the_whole_day(),
        counts[i].reported() is None,
    decreases i,
{
    if i > 0 {
        a_restart_is_not_a_day_without_a_plan(counts, planned, periods, i - 1);
        assert(ticked(counts[i - 1], counts[i - 1 + 1], planned[i - 1], periods[i - 1]));
    }
}

/// What one quarter hour's registers say, in millionths of a kilowatt-hour.
#[derive(Debug, Clone, Copy, PartialEq, Eq, Structural)]
pub struct Registers {
    /// Drawn from the grid.
    pub grid_draw: i64,
    /// Fed into it.
    pub grid_feed_in: i64,
    /// Generated behind the connection point.
    pub device_generation: i64,
}

/// What one control event says.
#[derive(Debug, Clone, Copy, PartialEq, Eq, Structural)]
pub struct Event {
    /// By how much the ceiling was crossed, in milliwatts, where it was.
    pub worst_overshoot_mw: Option<i64>,
    /// Whether the operator commanded less than the household is owed.
    pub below_minimum: bool,
}

/// The day as the fleet counts it. Energies are in millionths of a
/// kilowatt-hour.
#[derive(Debug)]
pub struct DayKpis {
    /// Which household.
    pub site: String,
    /// Which day, as a Julian day number.
    pub date: i32,
    /// Drawn from the grid.
    pub imported_kwh: i128,
    /// Fed into it.
    pub exported_kwh: i128,
    /// Generated behind the connection point.
    pub produced_kwh: i128,
    /// The share of its consumption the household covered itself, in millionths.
    pub self_sufficiency_ppm: u128,
    /// What was shared with a community: nothing a box could know of.
    pub shared_kwh: i128,
    /// Whether every reduction was respected.
    pub respected_the_grid: bool,
    /// By how much one was not, in milliwatts.
    pub worst_overshoot_mw: i64,
    /// How long the box ran without a plan.
    pub minutes_without_a_plan: u32,
    /// How many control events there were.
    pub control_events: usize,
    /// Whether the operator commanded less than the household is owed.
    pub below_minimum_commanded: bool,
    /// Whether enough of the day was forecast for its bands to be scored.
    pub forecast_scored: bool,
    /// Whether the day was known before it happened, which no real one is.
    pub foresight_was_perfect: bool,
}

/// Of some dated rows those of a window, in their order. The window is half open:
/// what falls on its end belongs to the next one.
pub open spec fn within<T>(rows: Seq<(Instant, T)>, from: int, to: int) -> Seq<T>
    decreases rows.len(),
{
    if rows.len() == 0 {
        Seq::empty()
    } else {
        let rest = within(rows.drop_last(), from, to);
        if from <= rows.last().0 < to {
            rest.push(rows.last().1)
        } else {
            rest
        }
    }
}

/// Of some dated rows those of a window, in their order.
fn rows_within<T: Copy>(rows: &Vec<(Instant, T)>, from: Instant, to: Instant) -> (r: Vec<T>)
    ensures
        r@ == within(rows@, from as int, to as int),
        r@.len() <= rows@.len(),
{
    let mut r: Vec<T> = Vec::new();
    let mut i: usize = 0;
    assert(rows@.take(0) =~= Seq::empty());
    while i < rows.len()
        invariant
            i <= rows@.len(),
            r@ == within(rows@.take(i as int), from as int, to as int),
            r@.len() <= i,
        decreases rows@.len() - i,
    {
        assert(rows@.take(i + 1).drop_last() =~= rows@.take(i as int));
        let (at, row): (Instant, T) = rows[i];
        if from <= at && at < to {
            r.push(row);
        }
        i = i + 1;
    }
    assert(rows@.take(i as int) =~= rows@);
    r
}

/// What was drawn from the grid.
pub open spec fn drawn(registers: Seq<Registers>) -> int
    decreases registers.len(),
{
    if registers.len() == 0 {
        0
    } else {
        drawn(registers.drop_last()) + registers.last().grid_draw
    }
}

/// What was fed into it.
pub open spec fn fed_in(registers: Seq<Registers>) -> int
    decreases registers.len(),
{
    if registers.len() == 0 {
        0
    } else {
        fed_in(registers.drop_last()) + registers.last().grid_feed_in
    }
}

/// What was generated.
pub open spec fn generated(registers: Seq<Registers>) -> int
    decreases registers.len(),
{
    if registers.len() == 0 {
        0
    } else {
        generated(registers.drop_last()) + registers.last().device_generation
    }
}

/// What the household consumed: what it drew, plus what it produced and did not
/// feed in.
pub open spec fn consumed(imported: int, exported: int, produced: int) -> int {
    if produced > exported {
        imported + (produced - exported)
    } else {
        imported
    }
}

/// The share of a consumption that was not drawn from the grid, in millionths;
/// none of nothing, and never less than none or more than all.
pub open spec fn own_share_ppm(imported: int, consumed: int) -> nat {
    if consumed <= 0 || consumed <= imported {
        0
    } else if imported <= 0 {
        1_000_000
    } else {
        crate::text::nearest(((consumed - imported) * 1_000_000) as nat, consumed as nat)
    }
}

/// By how much a ceiling was crossed at worst.
pub open spec fn worst(events: Seq<Event>) -> int
    decreases events.len(),
{
    if events.len() == 0 {
        0
    } else {
        let rest = worst(events.drop_last());
        match events.last().worst_overshoot_mw {
            Some(w) => if w > rest {
                w as int
            } else {
                rest
            },
            None => rest,
        }
    }
}

proof fn lemma_bounded(registers: Seq<Registers>)
    ensures
        -0x8000_0000_0000_0000 * registers.len() <= drawn(registers) <= 0x8000_0000_0000_0000
            * registers.len(),
        -0x8000_0000_0000_0000 * registers.len() <= fed_in(registers) <= 0x8000_0000_0000_0000
            * registers.len(),
        -0x8000_0000_0000_0000 * registers.len() <= generated(registers) <= 0x8000_0000_0000_0000
            * registers.len(),
    decreases registers.len(),
{
    if registers.len() > 0 {
        lemma_bounded(registers.drop_last());
    }
}

/// The share of a consumption that was not drawn from the grid.
fn own_share(imported: i128, consumed: i128) -> (r: u128)
    requires
        -0x80_0000_0000_0000_0000_0000_0000 <= imported <= 0x80_0000_0000_0000_0000_0000_0000,
        -0x80_0000_0000_0000_0000_0000_0000 <= consumed <= 0x200_0000_0000_0000_0000_0000_0000,
    ensures
        r == own_share_ppm(imported as int, consumed as int),
{
    if consumed <= 0 || consumed <= imported {
        0
    } else if imported <= 0 {
        1_000_000
    } else {
        divide_half_even((consumed - imported) as u128 * 1_000_000, consumed as u128)
    }
}

/// The Berlin calendar day, from the box's dated rows; nothing where it has no
/// register, since a box that was off is not a household that used nothing.
pub fn kpis(
    rows: &Vec<(Instant, Registers)>,
    events: &Vec<(Instant, Event)>,
    site: &str,
    date: i32,
    unplanned: &Unplanned,
    scored: &Scored,
) -> (r: Option<DayKpis>)
    requires
        crate::clock::is_inner_day(date as int),
        unplanned.is_carried(),
        rows@.len() <= 0x100_0000_0000,
    ensures
        ({
            let from = crate::clock::berlin_midnight(date as int);
            let to = crate::clock::berlin_midnight(date + 1);
            is_the_day(
                r,
                within(rows@, from, to),
                within(events@, from, to),
                site@,
                date,
                *unplanned,
                scored.pv@.len(),
            )
        }),
{
    let (from, to): (Instant, Instant) = day_window(date);
    let registers: Vec<Registers> = rows_within(rows, from, to);
    let events: Vec<Event> = rows_within(events, from, to);
    day_of(&registers, &events, site, date, unplanned, scored)
}

/// Whether a report is the one of a day's own rows.
pub open spec fn is_the_day(
    r: Option<DayKpis>,
    registers: Seq<Registers>,
    events: Seq<Event>,
    site: Seq<char>,
    date: i32,
    unplanned: Unplanned,
    scored: nat,
) -> bool {
    &&& r is Some <==> registers.len() > 0
    &&& r matches Some(k) ==> {
        &&& k.site@ == site
        &&& k.date == date
        &&& k.imported_kwh == drawn(registers)
        &&& k.exported_kwh == fed_in(registers)
        &&& k.produced_kwh == generated(registers)
        &&& k.self_sufficiency_ppm == own_share_ppm(
            drawn(registers),
            consumed(drawn(registers), fed_in(registers), generated(registers)),
        )
        &&& k.worst_overshoot_mw == worst(events)
        &&& k.respected_the_grid == (worst(events) <= 0)
        &&& k.minutes_without_a_plan == (if unplanned.saw_the_whole_day() {
            unplanned.counted() / 60
        } else {
            0
        })
        &&& k.control_events == events.len()
        &&& k.below_minimum_commanded == exists|i: int|
            0 <= i < events.len() && (#[trigger] events[i]).below_minimum
        &&& k.forecast_scored == (scored >= ENOUGH_OF_A_DAY)
        &&& k.shared_kwh == 0
        &&& !k.foresight_was_perfect
    }
}

/// The day, from its own rows.
pub fn day_of(
    registers: &Vec<Registers>,
    events: &Vec<Event>,
    site: &str,
    date: i32,
    unplanned: &Unplanned,
    scored: &Scored,
) -> (r: Option<DayKpis>)
    requires
        unplanned.is_carried(),
        registers@.len() <= 0x100_0000_0000,
    ensures
        is_the_day(r, registers@, events@, site@, date, *unplanned, scored.pv@.len()),
{
    if registers.len() == 0 {
        return None;
    }
    let mut imported: i128 = 0;
    let mut exported: i128 = 0;
    let mut produced: i128 = 0;
    let mut i: usize = 0;
    assert(registers@.take(0) =~= Seq::<Registers>::empty());
    while i < registers.len()
        invariant
            i <= registers@.len(),
            registers@.len() <= 0x100_0000_0000,
            imported == drawn(registers@.take(i as int)),
            exported == fed_in(registers@.take(i as int)),
            produced == generated(registers@.take(i as int)),
        decreases registers@.len() - i,
    {
        proof {
            lemma_bounded(registers@.take(i as int));
            assert(registers@.take(i + 1).drop_last() =~= registers@.take(i as int));
        }
        imported = imported + registers[i].grid_draw as i128;
        exported = exported + registers[i].grid_feed_in as i128;
        produced = produced + registers[i].device_generation as i128;
        i = i + 1;
    }
    assert(registers@.take(registers@.len() as int) =~= registers@);
    proof {
        lemma_bounded(registers@);
    }
    let consumed: i128 = if produced > exported {
        imported + (produced - exported)
    } else {
        imported
    };
    let mut worst_mw: i64 = 0;
    let mut below: bool = false;
    let mut j: usize = 0;
    assert(events@.take(0) =~= Seq::<Event>::empty());
    while j < events.len()
        invariant
            j <= events@.len(),
            worst_mw == worst(events@.take(j as int)),
            below == exists|i: int| 0 <= i < j && (#[trigger] events@[i]).below_minimum,
        decreases events@.len() - j,
    {
        assert(events@.take(j + 1).drop_last() =~= events@.take(j as int));
        if let Some(w) = events[j].worst_overshoot_mw {
            if w > worst_mw {
                worst_mw = w;
            }
        }
        if events[j].below_minimum {
            assert(events@[j as int].below_minimum);
            below = true;
        }
        j = j + 1;
    }
    assert(events@.take(events@.len() as int) =~= events@);
    let minutes: u32 = match unplanned.minutes() {
        Some(m) => m,
        None => 0,
    };
    Some(
        DayKpis {
            site: site.to_owned(),
            date,
            imported_kwh: imported,
            exported_kwh: exported,
            produced_kwh: produced,
            self_sufficiency_ppm: own_share(imported, consumed),
            respected_the_grid: worst_mw <= 0,
            worst_overshoot_mw: worst_mw,
            minutes_without_a_plan: minutes,
            control_events: events.len(),
            below_minimum_commanded: below,
            forecast_scored: scored.scores().is_some(),
            shared_kwh: 0,
            foresight_was_perfect: false,
        },
    )
}

/// A register is counted once: two windows that meet hold between them what the one
/// they make up holds, whatever falls on the instant where they meet.
pub proof fn a_register_is_counted_once(
    rows: Seq<(Instant, Registers)>,
    from: int,
    midnight: int,
    to: int,
)
    requires
        from <= midnight <= to,
    ensures
        within(rows, from, midnight).len() + within(rows, midnight, to).len() == within(
            rows,
            from,
            to,
        ).len(),
        drawn(within(rows, from, midnight)) + drawn(within(rows, midnight, to)) == drawn(
            within(rows, from, to),
        ),
        fed_in(within(rows, from, midnight)) + fed_in(within(rows, midnight, to)) == fed_in(
            within(rows, from, to),
        ),
        generated(within(rows, from, midnight)) + generated(within(rows, midnight, to))
            == generated(within(rows, from, to)),
    decreases rows.len(),
{
    if rows.len() > 0 {
        let rest = rows.drop_last();
        a_register_is_counted_once(rest, from, midnight, to);
        let row = rows.last().1;
        assert(within(rest, from, midnight).push(row).drop_last() =~= within(rest, from, midnight));
        assert(within(rest, midnight, to).push(row).drop_last() =~= within(rest, midnight, to));
        assert(within(rest, from, to).push(row).drop_last() =~= within(rest, from, to));
    }
}

// ── What holds of a day ─────────────────────────────────────────────────────

/// The worst crossing of a day is the greatest one: no event's is greater, it is never
/// less than none, and where there was one it is some event's.
pub proof fn the_worst_crossing_is_the_greatest(events: Seq<Event>)
    ensures
        0 <= worst(events) <= i64::MAX,
        forall|i: int|
            0 <= i < events.len() ==> ((#[trigger] events[i]).worst_overshoot_mw matches Some(w)
                ==> w <= worst(events)),
        worst(events) == 0 || exists|i: int|
            0 <= i < events.len() && (#[trigger] events[i]).worst_overshoot_mw == Some(
                worst(events) as i64,
            ),
    decreases events.len(),
{
    if events.len() > 0 {
        let rest = events.drop_last();
        the_worst_crossing_is_the_greatest(rest);
        assert forall|i: int| 0 <= i < events.len() implies ((
        #[trigger] events[i]).worst_overshoot_mw matches Some(w) ==> w <= worst(events)) by {
            if i < rest.len() {
                assert(rest[i] == events[i]);
            }
        }
        if worst(events) != 0 {
            if worst(events) == worst(rest) {
                let i = choose|i: int|
                    0 <= i < rest.len() && (#[trigger] rest[i]).worst_overshoot_mw == Some(
                worst(rest) as i64,
            );
                assert(events[i] == rest[i]);
            } else {
                assert(events[events.len() - 1] == events.last());
            }
        }
    }
}

/// In which order the operator's reductions came says nothing about the worst of them.
pub proof fn the_worst_crossing_does_not_depend_on_the_order(a: Seq<Event>, b: Seq<Event>)
    requires
        forall|e: Event| a.contains(e) <==> b.contains(e),
    ensures
        worst(a) == worst(b),
{
    the_worst_crossing_is_the_greatest(a);
    the_worst_crossing_is_the_greatest(b);
    lemma_no_worse(a, b);
    lemma_no_worse(b, a);
}

proof fn lemma_no_worse(a: Seq<Event>, b: Seq<Event>)
    requires
        forall|e: Event| a.contains(e) ==> b.contains(e),
    ensures
        worst(a) <= worst(b),
{
    the_worst_crossing_is_the_greatest(a);
    the_worst_crossing_is_the_greatest(b);
    if worst(a) != 0 {
        let i = choose|i: int|
            0 <= i < a.len() && (#[trigger] a[i]).worst_overshoot_mw == Some(
                worst(a) as i64,
            );
        assert(a.contains(a[i]));
        let j = choose|j: int| 0 <= j < b.len() && b[j] == a[i];
        assert(b[j].worst_overshoot_mw == a[i].worst_overshoot_mw);
    }
}

/// Each register is counted once and in its own column, and in whatever order.
pub proof fn energies_add_up_column_by_column(a: Seq<Registers>, b: Seq<Registers>, r: Registers)
    ensures
        drawn(a + b) == drawn(a) + drawn(b),
        fed_in(a + b) == fed_in(a) + fed_in(b),
        generated(a + b) == generated(a) + generated(b),
        drawn(seq![r]) == r.grid_draw,
        fed_in(seq![r]) == r.grid_feed_in,
        generated(seq![r]) == r.device_generation,
    decreases b.len(),
{
    let none = Seq::<Registers>::empty();
    assert(seq![r].drop_last() =~= none);
    assert(drawn(none) == 0 && fed_in(none) == 0 && generated(none) == 0);
    if b.len() == 0 {
        assert(a + b =~= a);
    } else {
        energies_add_up_column_by_column(a, b.drop_last(), r);
        assert((a + b).drop_last() =~= a + b.drop_last());
        assert((a + b).last() == b.last());
    }
}

/// A window holds every row that falls into it, in order, and no other. What is returned
/// says which row each of them is.
pub proof fn a_window_holds_its_own_rows<T>(
    rows: Seq<(Instant, T)>,
    from: int,
    to: int,
) -> (picks: Seq<int>)
    ensures
        picks.len() == within(rows, from, to).len(),
        forall|j: int|
            0 <= j < picks.len() ==> 0 <= #[trigger] picks[j] < rows.len() && from
                <= rows[picks[j]].0 < to && within(rows, from, to)[j] == rows[picks[j]].1,
        forall|j: int, k: int| 0 <= j < k < picks.len() ==> #[trigger] picks[j] < #[trigger] picks[k],
        forall|i: int|
            0 <= i < rows.len() && from <= (#[trigger] rows[i]).0 < to ==> picks.contains(i),
    decreases rows.len(),
{
    if rows.len() == 0 {
        Seq::empty()
    } else {
        let rest = rows.drop_last();
        let before = a_window_holds_its_own_rows(rest, from, to);
        let last = rows.len() - 1;
        let picks = if from <= rows.last().0 < to {
            before.push(last)
        } else {
            before
        };
        assert forall|i: int|
            0 <= i < rows.len() && from <= (#[trigger] rows[i]).0 < to implies picks.contains(i) by {
            if i < last {
                assert(rest[i] == rows[i]);
                let j = before.index_of(i);
                assert(picks[j] == i);
            } else {
                assert(picks[picks.len() - 1] == i);
            }
        }
        assert forall|j: int| 0 <= j < picks.len() implies 0 <= #[trigger] picks[j] < rows.len()
            && from <= rows[picks[j]].0 < to && within(rows, from, to)[j] == rows[picks[j]].1 by {
            if j < before.len() {
                assert(picks[j] == before[j]);
                assert(rest[before[j]] == rows[before[j]]);
            }
        }
        assert forall|j: int, k: int| 0 <= j < k < picks.len() implies #[trigger] picks[j]
            < #[trigger] picks[k] by {
            if k < before.len() {
                assert(before[j] < before[k]);
            } else {
                assert(picks[j] == before[j]);
            }
        }
        picks
    }
}

/// The share of its consumption a household covered itself: none of nothing, never more
/// than all, and otherwise what it made and kept, of that and what it drew, to the nearest
/// millionth.
pub proof fn self_sufficiency_is_what_was_kept_of_what_was_used(
    imported: int,
    exported: int,
    produced: int,
)
    ensures
        ({
            let kept = if produced > exported {
                produced - exported
            } else {
                0
            };
            let used = imported + kept;
            let share = own_share_ppm(imported, consumed(imported, exported, produced)) as int;
            &&& consumed(imported, exported, produced) == used
            &&& 0 <= share <= 1_000_000
            &&& kept == 0 ==> share == 0
            &&& used <= 0 ==> share == 0
            &&& imported >= 0 && used > 0 ==> -used <= 2 * (share * used - kept * 1_000_000) <= used
            &&& imported < 0 && used > 0 ==> share == 1_000_000
        }),
{
    let kept = if produced > exported {
        produced - exported
    } else {
        0
    };
    let used = imported + kept;
    let share = own_share_ppm(imported, used) as int;
    if kept > 0 && imported > 0 {
        crate::text::rounding_moves_by_at_most_half_a_unit((kept * 1_000_000) as nat, used as nat);
        assert(share <= 1_000_000) by (nonlinear_arith)
            requires
                2 * (share * used - kept * 1_000_000) <= used,
                kept < used,
                used > 0,
        ;
    } else if used > 0 {
        assert(share * used == if share == 0 {
            0
        } else {
            1_000_000 * used
        }) by (nonlinear_arith)
            requires
                share == 0 || share == 1_000_000,
        ;
    }
}

/// Drawing more from the grid for the same own use never makes a household look more
/// self-sufficient.
pub proof fn drawing_more_is_never_more_self_sufficient(
    imported: int,
    more: int,
    exported: int,
    produced: int,
)
    requires
        0 <= imported <= more,
    ensures
        own_share_ppm(more, consumed(more, exported, produced)) <= own_share_ppm(
            imported,
            consumed(imported, exported, produced),
        ),
{
    self_sufficiency_is_what_was_kept_of_what_was_used(imported, exported, produced);
    self_sufficiency_is_what_was_kept_of_what_was_used(more, exported, produced);
    let kept = if produced > exported {
        produced - exported
    } else {
        0
    };
    let a = own_share_ppm(imported, imported + kept) as int;
    let b = own_share_ppm(more, more + kept) as int;
    let x = imported + kept;
    let y = more + kept;
    if kept > 0 && imported < more && b > a {
        if imported == 0 {
            assert(a == 1_000_000);
        } else {
            lemma_share_falls(a, b, x, y, kept);
        }
    }
}

proof fn lemma_share_falls(a: int, b: int, x: int, y: int, kept: int)
    requires
        0 < kept < x < y,
        a >= 0,
        -x <= 2 * (a * x - kept * 1_000_000) <= x,
        -y <= 2 * (b * y - kept * 1_000_000) <= y,
    ensures
        b <= a,
{
    if b > a {
        // Twice the kept share lies between (2a - 1)x and (2a + 1)x, and between (2b - 1)y and
        // (2b + 1)y; with b at least a + 1 the second range begins above the first.
        assert((2 * b - 1) * y <= kept * 2_000_000) by (nonlinear_arith)
            requires
                2 * (b * y - kept * 1_000_000) <= y,
        ;
        assert(kept * 2_000_000 <= (2 * a + 1) * x) by (nonlinear_arith)
            requires
                -x <= 2 * (a * x - kept * 1_000_000),
        ;
        assert((2 * b - 1) * y >= (2 * a + 1) * y) by (nonlinear_arith)
            requires
                b >= a + 1,
                y > 0,
        ;
        assert((2 * a + 1) * y > (2 * a + 1) * x) by (nonlinear_arith)
            requires
                y > x,
                a >= 0,
        ;
    }
}

/// What a report of a day says, figure by figure.
pub proof fn a_day_says_what_its_rows_say(
    k: DayKpis,
    registers: Seq<Registers>,
    events: Seq<Event>,
    site: Seq<char>,
    date: i32,
    unplanned: Unplanned,
    scored: nat,
)
    requires
        is_the_day(Some(k), registers, events, site, date, unplanned, scored),
    ensures
        registers.len() > 0,
        k.site@ == site,
        k.date == date,
        k.imported_kwh == drawn(registers),
        k.exported_kwh == fed_in(registers),
        k.produced_kwh == generated(registers),
        k.shared_kwh == 0,
        ({
            let kept = if k.produced_kwh > k.exported_kwh {
                k.produced_kwh - k.exported_kwh
            } else {
                0
            };
            let used = k.imported_kwh + kept;
            &&& k.self_sufficiency_ppm <= 1_000_000
            &&& kept == 0 ==> k.self_sufficiency_ppm == 0
            &&& k.imported_kwh >= 0 && used > 0 ==> -used <= 2 * (k.self_sufficiency_ppm * used
                - kept * 1_000_000) <= used
        }),
        k.worst_overshoot_mw >= 0,
        forall|i: int|
            0 <= i < events.len() ==> ((#[trigger] events[i]).worst_overshoot_mw matches Some(w)
                ==> w <= k.worst_overshoot_mw),
        k.worst_overshoot_mw == 0 || exists|i: int|
            0 <= i < events.len() && (#[trigger] events[i]).worst_overshoot_mw == Some(
                k.worst_overshoot_mw,
            ),
        k.respected_the_grid <==> forall|i: int|
            0 <= i < events.len() ==> ((#[trigger] events[i]).worst_overshoot_mw matches Some(w)
                ==> w <= 0),
        k.control_events == events.len(),
        k.below_minimum_commanded <==> exists|i: int|
            0 <= i < events.len() && (#[trigger] events[i]).below_minimum,
        unplanned.saw_the_whole_day() ==> 60 * k.minutes_without_a_plan <= unplanned.counted()
            < 60 * k.minutes_without_a_plan + 60,
        !unplanned.saw_the_whole_day() ==> k.minutes_without_a_plan == 0,
        k.forecast_scored <==> scored >= 48,
        !k.foresight_was_perfect,
{
    the_worst_crossing_is_the_greatest(events);
    self_sufficiency_is_what_was_kept_of_what_was_used(
        drawn(registers),
        fed_in(registers),
        generated(registers),
    );
    if worst(events) > 0 {
        let i = choose|i: int|
            0 <= i < events.len() && (#[trigger] events[i]).worst_overshoot_mw == Some(
                worst(events) as i64,
            );
        assert(events[i].worst_overshoot_mw is Some);
    }
}

/// A day without a register is not reported, and every other one is.
pub proof fn a_day_is_reported_where_it_was_metered(
    r: Option<DayKpis>,
    registers: Seq<Registers>,
    events: Seq<Event>,
    site: Seq<char>,
    date: i32,
    unplanned: Unplanned,
    scored: nat,
)
    requires
        is_the_day(r, registers, events, site, date, unplanned, scored),
    ensures
        r is None <==> registers.len() == 0,
{
}

/// A turn with a plan counts nothing, and one without counts all of its seconds. Neither
/// changes whether the whole day was watched.
pub proof fn only_a_turn_without_a_plan_counts(before: Unplanned, after: Unplanned, period_s: int)
    ensures
        ticked(before, after, true, period_s) ==> after.counted() == before.counted(),
        ticked(before, after, false, period_s) ==> after.counted() - before.counted() == period_s,
        forall|planned: bool| #[trigger]
            ticked(before, after, planned, period_s) ==> after.saw_the_whole_day()
                == before.saw_the_whole_day(),
{
}

/// What is reported of a count is its whole minutes, and only of a day that was watched
/// from its beginning.
pub proof fn whole_minutes_of_a_watched_day_are_reported(u: Unplanned)
    ensures
        u.reported() is Some <==> u.saw_the_whole_day(),
        u.reported() matches Some(m) ==> 60 * m <= u.counted() < 60 * m + 60,
{
}

/// What the hardware would not take adds up: power times time, however the turns are cut,
/// and a turn in which everything was taken changes nothing. The turns that withheld
/// something are counted, one each.
pub proof fn what_was_withheld_adds_up(
    before: Clipping,
    after: Clipping,
    power_mw: int,
    first: int,
    second: int,
)
    requires
        (after.withheld_mj as int, after.turns as int) == clipped(before, power_mw, first),
    ensures
        after.withheld_mj - before.withheld_mj == power_mw * first,
        clipped(after, power_mw, second).0 == clipped(before, power_mw, first + second).0,
        power_mw == 0 ==> after == before,
        power_mw != 0 ==> after.turns == before.turns + 1,
        before.is_zero() <==> before == (Clipping { withheld_mj: 0, turns: 0 }),
{
    assert(power_mw * first + power_mw * second == power_mw * (first + second))
        by (nonlinear_arith);
    assert(power_mw == 0 ==> power_mw * first == 0) by (nonlinear_arith);
}

} // verus!

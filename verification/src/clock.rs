//! Instants, quarter hours and the German calendar.
//!
//! An instant is a number of nanoseconds since 1 January 1970 in UTC, so that
//! every comparison the daemon makes is a comparison of whole numbers. The
//! quarter hour is the grain a market, a meter and a plan share.

use vstd::prelude::*;

verus! {

/// Nanoseconds since 1970-01-01T00:00:00Z.
pub type Instant = i128;

/// One second.
pub const SECOND: i128 = 1_000_000_000;

/// One minute.
pub const MINUTE: i128 = 60_000_000_000;

/// One hour.
pub const HOUR: i128 = 3_600_000_000_000;

/// One quarter hour.
pub const SLOT: i128 = 900_000_000_000;

/// One day.
pub const DAY: i128 = 86_400_000_000_000;

/// The first instant of the year -9999.
pub const FIRST_INSTANT: i128 = -377_705_116_800_000_000_000;

/// The last instant of the year 9999.
pub const LAST_INSTANT: i128 = 253_402_300_799_999_999_999;

/// Whether an instant falls in the years a calendar date can be written for.
pub open spec fn in_calendar(at: int) -> bool {
    FIRST_INSTANT <= at <= LAST_INSTANT
}

/// Whether an instant also does so in every time zone.
pub open spec fn in_local_calendar(at: int) -> bool {
    FIRST_INSTANT + DAY <= at <= LAST_INSTANT - DAY
}

/// Whether an instant falls in the years a calendar date can be written for.
pub fn is_in_calendar(at: Instant) -> (r: bool)
    ensures
        r == in_calendar(at as int),
{
    FIRST_INSTANT <= at && at <= LAST_INSTANT
}

/// Whether an instant also does so in every time zone.
pub fn is_in_local_calendar(at: Instant) -> (r: bool)
    ensures
        r == in_local_calendar(at as int),
{
    FIRST_INSTANT + DAY <= at && at <= LAST_INSTANT - DAY
}

// ── Whole-number division that rounds down ──────────────────────────────────

/// Divide rounding down, on either side of zero.
pub fn divide_down(n: i128, by: i128) -> (q: i128)
    requires
        by > 0,
        n > i128::MIN + by,
    ensures
        q == n as int / by as int,
{
    if n >= 0 {
        n / by
    } else {
        let q: i128 = -((-n + (by - 1)) / by);
        proof {
            let m = -(n as int);
            let b = by as int;
            let up = (m + (b - 1)) / b;
            assert(n as int / b == -up) by (nonlinear_arith)
                requires
                    m > 0,
                    b > 0,
                    n as int == -m,
                    up == (m + (b - 1)) / b,
            {
                assert(b * up <= m + (b - 1) < b * up + b);
            }
        }
        q
    }
}

// ── Quarter hours ───────────────────────────────────────────────────────────

/// One quarter hour, by how many of them lie between it and 1970.
#[derive(Clone, Copy, Debug, PartialEq, Eq, PartialOrd, Ord, Hash, Structural)]
pub struct Slot {
    /// How many quarter hours after 1970-01-01T00:00:00Z it starts.
    pub index: i64,
}

impl Slot {
    /// When the quarter hour starts.
    pub open spec fn starts_at(self) -> int {
        self.index * SLOT
    }

    /// Whether an instant falls in the quarter hour.
    pub open spec fn covers(self, at: int) -> bool {
        self.starts_at() <= at < self.starts_at() + SLOT
    }

    /// The quarter hour an instant falls in.
    pub fn containing(at: Instant) -> (slot: Slot)
        requires
            in_calendar(at as int),
        ensures
            slot.index == at as int / SLOT as int,
            slot.covers(at as int),
    {
        let q: i128 = divide_down(at, SLOT);
        assert(SLOT * q <= at < SLOT * q + SLOT);
        assert(q as i64 == q);
        Slot { index: q as i64 }
    }

    /// When the quarter hour starts.
    pub fn start(&self) -> (at: Instant)
        ensures
            at == self.starts_at(),
    {
        self.index as i128 * SLOT
    }

    /// The instant half way through the quarter hour, where one instant has to
    /// stand for the whole of it.
    pub fn middle(&self) -> (at: Instant)
        ensures
            at == self.starts_at() + SLOT / 2,
            self.covers(at as int),
    {
        self.start() + SLOT / 2
    }
}

/// Every instant falls in exactly one quarter hour.
pub proof fn an_instant_falls_in_one_quarter_hour(at: int, a: Slot, b: Slot)
    requires
        a.covers(at),
        b.covers(at),
    ensures
        a == b,
{
}

/// So many consecutive quarter hours.
#[derive(Clone, Copy, Debug, PartialEq, Eq, Structural)]
pub struct Horizon {
    /// The first of them.
    pub first: Slot,
    /// How many there are.
    pub len: usize,
}

impl Horizon {
    /// Whether every quarter hour of the horizon can be named.
    pub open spec fn is_nameable(self) -> bool {
        self.first.index + self.len <= i64::MAX
    }

    /// The quarter hours, in order.
    pub open spec fn quarters(self) -> Seq<Slot> {
        Seq::new(self.len as nat, |i: int| Slot { index: (self.first.index + i) as i64 })
    }

    /// The `len` quarter hours that begin with the one `now` falls in.
    pub fn new(now: Instant, len: usize) -> (h: Horizon)
        requires
            in_calendar(now as int),
        ensures
            h.first.covers(now as int),
            h.len == len,
    {
        Horizon { first: Slot::containing(now), len }
    }

    /// The quarter hours, in order.
    pub fn slots(&self) -> (r: Vec<Slot>)
        requires
            self.is_nameable(),
        ensures
            r@ == self.quarters(),
    {
        let mut r: Vec<Slot> = Vec::new();
        let mut i: usize = 0;
        while i < self.len
            invariant
                i <= self.len,
                self.is_nameable(),
                r@ =~= self.quarters().take(i as int),
            decreases self.len - i,
        {
            r.push(Slot { index: (self.first.index as i128 + i as i128) as i64 });
            i = i + 1;
        }
        assert(r@ =~= self.quarters());
        r
    }
}

// ── The German calendar ─────────────────────────────────────────────────────

/// The Berlin calendar day an instant falls on, as a Julian day number.
pub uninterp spec fn berlin_day(at: int) -> int;

/// `metering::calendar::local_day`: the calendar day an instant falls on in
/// Berlin. The result is named rather than written out, because it rests on the
/// whole of the time-zone database; it depends on the instant alone. The years
/// at either end of the calendar are left out, since the local date of one of
/// their instants may not be one that can be written.
#[verifier::external_body]
pub(crate) fn local_day(at: Instant) -> (day: i32)
    requires
        in_local_calendar(at as int),
    ensures
        day == berlin_day(at as int),
{
    let instant = time::OffsetDateTime::from_unix_timestamp_nanos(at).unwrap();
    metering::calendar::local_day(instant).to_julian_day()
}

/// The hour and the minute a wall clock in Berlin shows at an instant.
pub uninterp spec fn berlin_clock(at: int) -> (int, int);

/// `metering::calendar::to_berlin`: the hour and the minute a wall clock in
/// Berlin shows. Named for the same reason as the day; a clock shows an hour
/// below twenty-four and a minute below sixty.
#[verifier::external_body]
fn wall_clock(at: Instant) -> (shown: (u8, u8))
    requires
        in_local_calendar(at as int),
    ensures
        (shown.0 as int, shown.1 as int) == berlin_clock(at as int),
        shown.0 < 24,
        shown.1 < 60,
{
    let instant = time::OffsetDateTime::from_unix_timestamp_nanos(at).unwrap();
    let local = metering::calendar::to_berlin(instant);
    (local.hour(), local.minute())
}

/// The minute of the Berlin day an instant falls in, counted from midnight.
pub open spec fn berlin_minute(at: int) -> int {
    60 * berlin_clock(at).0 + berlin_clock(at).1
}

/// The minute of the Berlin day an instant falls in, counted from midnight.
pub fn local_minute(at: Instant) -> (minute: u32)
    requires
        in_local_calendar(at as int),
    ensures
        minute == berlin_minute(at as int),
        minute < 1440,
{
    let (hour, minute) = wall_clock(at);
    hour as u32 * 60 + minute as u32
}

/// The Julian day numbers whose two midnights can be written as instants.
pub open spec fn is_inner_day(day: int) -> bool {
    -1_930_998 <= day <= 5_373_483
}

/// When a Berlin calendar day begins.
pub uninterp spec fn berlin_midnight(day: int) -> int;

/// `metering::calendar::day_start_utc`: the instant a Berlin calendar day
/// begins. Named, because it rests on the time-zone database.
#[verifier::external_body]
pub(crate) fn day_start(day: i32) -> (at: Instant)
    requires
        is_inner_day(day as int),
    ensures
        at == berlin_midnight(day as int),
{
    let date = time::Date::from_julian_day(day).unwrap();
    metering::calendar::day_start_utc(date).unix_timestamp_nanos()
}

/// `metering::calendar::day_end_utc`: the instant a Berlin calendar day ends,
/// which is the instant the next one begins.
#[verifier::external_body]
pub(crate) fn day_end(day: i32) -> (at: Instant)
    requires
        is_inner_day(day as int),
    ensures
        at == berlin_midnight(day + 1),
{
    let date = time::Date::from_julian_day(day).unwrap();
    metering::calendar::day_end_utc(date).unix_timestamp_nanos()
}

/// The instants a Berlin calendar day lies between: the first is its own, the
/// second is the next day's.
pub fn day_window(day: i32) -> (r: (Instant, Instant))
    requires
        is_inner_day(day as int),
    ensures
        r.0 == berlin_midnight(day as int),
        r.1 == berlin_midnight(day + 1),
{
    (day_start(day), day_end(day))
}

/// An instant as RFC 3339 writes it.
pub uninterp spec fn rfc3339_text(at: int) -> Seq<char>;

/// `time`'s `OffsetDateTime::format` with `Rfc3339`, in UTC; empty for a year
/// the format cannot write. Named: the text depends on the instant alone.
#[verifier::external_body]
pub(crate) fn rfc3339(at: Instant) -> (text: String)
    requires
        in_calendar(at as int),
    ensures
        text@ == rfc3339_text(at as int),
{
    let instant = time::OffsetDateTime::from_unix_timestamp_nanos(at).unwrap();
    instant.format(&time::format_description::well_known::Rfc3339).unwrap_or_default()
}

/// A calendar date as it is written: year, month and day with hyphens.
pub uninterp spec fn date_text(day: int) -> Seq<char>;

/// `time::Date`'s own text, of the date with a Julian day number.
#[verifier::external_body]
pub(crate) fn date_string(day: i32) -> (text: String)
    requires
        is_inner_day(day as int),
    ensures
        text@ == date_text(day as int),
{
    time::Date::from_julian_day(day).unwrap().to_string()
}

/// The Julian day number a text means as an ISO 8601 date, where it is one.
pub uninterp spec fn iso_day(text: Seq<char>) -> Option<i32>;

/// `time::Date::parse` with `Iso8601::DATE`; nothing where the text is not a
/// date in that format. Named: the grammar is the standard's.
#[verifier::external_body]
pub(crate) fn parse_day(text: &str) -> (day: Option<i32>)
    ensures
        day == iso_day(text@),
{
    let format = &time::format_description::well_known::Iso8601::DATE;
    time::Date::parse(text, format).ok().map(time::Date::to_julian_day)
}

/// The calendar of every time zone is that of one of them with a day to spare at
/// either end.
pub proof fn a_time_zone_needs_a_day_to_spare(at: int)
    ensures
        in_local_calendar(at) <==> in_calendar(at - DAY) && in_calendar(at + DAY),
        in_local_calendar(at) ==> in_calendar(at),
{
}

/// The quarter hours of a horizon follow one another without a gap, four to the hour
/// and ninety-six to the day, and the first is the one the horizon begins with.
pub proof fn the_quarter_hours_of_a_horizon_follow_one_another(h: Horizon, i: int, j: int)
    requires
        h.is_nameable(),
        0 <= i <= j < h.len,
    ensures
        h.quarters().len() == h.len,
        h.quarters()[0] == h.first,
        j == i + 1 ==> h.quarters()[j].starts_at() == h.quarters()[i].starts_at() + SLOT,
        j == i + 4 ==> h.quarters()[j].starts_at() == h.quarters()[i].starts_at() + HOUR,
        j == i + 96 ==> h.quarters()[j].starts_at() == h.quarters()[i].starts_at() + DAY,
        h.quarters()[j].starts_at() - h.quarters()[i].starts_at() == (j - i) * SLOT,
{
}

/// A horizon leaves no moment between its first and its last out: the quarter hour of
/// every one is among its own.
pub proof fn a_horizon_holds_every_moment_of_it(h: Horizon, at: int) -> (i: int)
    requires
        h.is_nameable(),
        h.first.starts_at() <= at < h.first.starts_at() + h.len * SLOT,
    ensures
        0 <= i < h.quarters().len(),
        h.quarters()[i].covers(at),
{
    let i = (at - h.first.starts_at()) / SLOT as int;
    assert(0 <= i < h.len);
    i
}

/// A minute of the day is the hour and the minute a clock shows, and two clocks that
/// show the same are at the same minute.
pub proof fn a_minute_of_the_day_is_what_a_clock_shows(a: int, b: int)
    requires
        0 <= berlin_clock(a).1 < 60,
        0 <= berlin_clock(b).1 < 60,
    ensures
        berlin_minute(a) == berlin_minute(b) <==> berlin_clock(a) == berlin_clock(b),
        berlin_minute(a) / 60 == berlin_clock(a).0,
        berlin_minute(a) % 60 == berlin_clock(a).1,
{
}

} // verus!

//! What the box believes about the day it is about to have.
//!
//! A simulated day whose forecast is the day itself cannot tell a good planner from
//! one that was shown the answer. So the day that happens and the day that was
//! forecast are two, and showing a planner the answer has to be asked for by name.

use vstd::prelude::*;

use crate::clock::{Instant, Slot, DAY, HOUR, SLOT};
use crate::runtime::planner::LoadSource;
use crate::site::Micros;

verus! {

/// How far the day that happens may stray from the day that was forecast.
#[derive(Debug, Clone, Copy, PartialEq, Eq, Structural)]
pub struct WeatherSpec {
    /// Which day this is.
    pub seed: u64,
    /// How far the cloud cover strays from the day's mean.
    pub cloud_amplitude: Micros,
    /// How far the household strays from its profile.
    pub load_amplitude: Micros,
    /// Half the range between the day's warmest and coldest hour, K.
    pub temperature_swing_k: Micros,
    /// How far the temperature strays from that shape, K.
    pub temperature_error_k: Micros,
    /// How far the hot-water draw strays from the usual one.
    pub draw_amplitude: Micros,
    /// What the roof delivers of what its model says.
    pub soiling: Micros,
    /// Whether the planner is shown the weather the day will have.
    pub oracle_forecast: bool,
}

impl WeatherSpec {
    /// This day, with the planner shown the weather it will have. Nothing about the
    /// day changes, which is what makes the difference attributable to foresight.
    pub fn with_perfect_forecast(self) -> (w: Self)
        ensures
            w == (WeatherSpec { oracle_forecast: true, ..self }),
    {
        WeatherSpec { oracle_forecast: true, ..self }
    }

    /// A settled day: a thin haze that comes and goes, an ordinary household.
    pub fn settled(seed: u64) -> (w: Self)
        ensures
            w == (WeatherSpec {
                seed,
                cloud_amplitude: 180_000,
                load_amplitude: 250_000,
                temperature_swing_k: 5_000_000,
                temperature_error_k: 1_500_000,
                draw_amplitude: 350_000,
                soiling: 920_000,
                oracle_forecast: false,
            }),
    {
        WeatherSpec {
            seed,
            cloud_amplitude: 180_000,
            load_amplitude: 250_000,
            temperature_swing_k: 5_000_000,
            temperature_error_k: 1_500_000,
            draw_amplitude: 350_000,
            soiling: 920_000,
            oracle_forecast: false,
        }
    }

    /// A day with weather in it: broken cloud, a front that is late.
    pub fn broken(seed: u64) -> (w: Self)
        ensures
            w == (WeatherSpec {
                seed,
                cloud_amplitude: 350_000,
                load_amplitude: 300_000,
                temperature_swing_k: 4_000_000,
                temperature_error_k: 2_500_000,
                draw_amplitude: 400_000,
                soiling: 920_000,
                oracle_forecast: false,
            }),
    {
        WeatherSpec {
            seed,
            cloud_amplitude: 350_000,
            load_amplitude: 300_000,
            temperature_swing_k: 4_000_000,
            temperature_error_k: 2_500_000,
            draw_amplitude: 400_000,
            soiling: 920_000,
            oracle_forecast: false,
        }
    }

    /// Whether the planner is being shown the answer.
    pub fn is_perfect(&self) -> (r: bool)
        ensures
            r == self.oracle_forecast,
    {
        self.oracle_forecast
    }

    /// What the planner is told of something: what will happen where it is shown the
    /// answer, and what a forecast says otherwise.
    pub fn told<T>(&self, happens: T, forecast: T) -> (t: T)
        ensures
            t == if self.oracle_forecast {
                happens
            } else {
                forecast
            },
    {
        if self.oracle_forecast {
            happens
        } else {
            forecast
        }
    }
}

/// The weather and behaviour a particular day actually has.
#[derive(Debug, Clone, Copy, PartialEq, Eq, Structural)]
pub struct Weather {
    /// How variable the day is.
    pub spec: WeatherSpec,
    /// The day's expected cloud cover, a share of the sky.
    pub mean_cloud: Micros,
    /// The day's expected mean outdoor temperature, °C.
    pub mean_outdoor_c: Micros,
    /// The seed of this day's realisation.
    pub realisation: u64,
}

impl Weather {
    /// The weather of one day.
    pub fn new(spec: WeatherSpec, mean_cloud: Micros, mean_outdoor_c: Micros) -> (w: Self)
        ensures
            w == (Weather { spec, mean_cloud, mean_outdoor_c, realisation: spec.seed }),
    {
        Weather { spec, mean_cloud, mean_outdoor_c, realisation: spec.seed }
    }

    /// The same weather so many days earlier: another realisation with the same
    /// statistics, which is what the box's own history is made of.
    pub fn earlier(&self, days: u64) -> (w: Self)
        ensures
            w == (Weather { realisation: earlier_seed(self.spec.seed, days), ..*self }),
            w.realisation != self.spec.seed,
    {
        proof {
            a_day_before_is_another_day(self.spec.seed, days);
        }
        let far: u64 = days.wrapping_mul(0x9E37_79B9);
        Weather { realisation: self.spec.seed ^ (far | 1), ..*self }
    }

    /// The temperature the planner is told of: the day's own where it is shown the
    /// answer, and the smooth shape of the day otherwise.
    pub fn forecast_outdoor_at(&self, happens: Micros, forecast: Micros) -> (c: Micros)
        ensures
            c == if self.spec.oracle_forecast {
                happens
            } else {
                forecast
            },
    {
        self.spec.told(happens, forecast)
    }

    /// What the roof makes of a clear sky's power under so much cloud, in millionths
    /// of a millionth of a milliwatt: the sun that comes through, and of that what
    /// the roof delivers.
    pub fn production_at(&self, clear_mw: i64, cloud: Micros) -> (p: i128)
        requires
            crate::site::is_fraction(cloud as int),
            crate::site::is_fraction(self.spec.soiling as int),
        ensures
            p == produced(*self, clear_mw as int, cloud as int),
    {
        let through: i64 = 1_000_000 - cloud;
        self.scaled(clear_mw, through, self.spec.soiling)
    }

    /// What a model says the roof makes: what will happen where the planner is shown
    /// the answer, and otherwise what of a clear sky's power the day's expected cloud
    /// lets through. No model knows what the roof itself loses.
    pub fn modelled_production(&self, happens: i128, clear_mw: i64) -> (p: i128)
        requires
            crate::site::is_fraction(self.mean_cloud as int),
        ensures
            p == modelled(*self, happens as int, clear_mw as int),
    {
        let through: i64 = 1_000_000 - self.mean_cloud;
        let forecast: i128 = self.scaled(clear_mw, through, 1_000_000);
        self.spec.told(happens, forecast)
    }

    fn scaled(&self, mw: i64, a: i64, b: i64) -> (p: i128)
        requires
            crate::site::is_fraction(a as int),
            crate::site::is_fraction(b as int),
        ensures
            p == mw * (a * b),
    {
        assert(0 <= a * b <= 1_000_000 * 1_000_000) by (nonlinear_arith)
            requires
                0 <= a <= 1_000_000,
                0 <= b <= 1_000_000,
        ;
        let share: i64 = a * b;
        crate::site::product(mw, share)
    }

    /// The sun that reaches a window under so much cloud, of a clear sky's, in
    /// millionths; a sky more than covered lets nothing through.
    pub fn window_at(&self, clear_w_per_m2: Micros, cloud: Micros) -> (g: i128)
        ensures
            g == let_through(clear_w_per_m2 as int, cloud as int),
    {
        let through: i128 = if cloud < 1_000_000 {
            1_000_000 - cloud as i128
        } else {
            0
        };
        assert(-0x8000_0000_0000_0000 * 0xc000_0000_0000_0000 <= clear_w_per_m2 * through
            <= 0x8000_0000_0000_0000 * 0xc000_0000_0000_0000) by (nonlinear_arith)
            requires
                -0x8000_0000_0000_0000 <= clear_w_per_m2 <= 0x7fff_ffff_ffff_ffff,
                0 <= through <= 0xc000_0000_0000_0000,
        ;
        clear_w_per_m2 as i128 * through
    }

    /// The sun the planner is told reaches a window: under the day's own cloud where
    /// it is shown the answer, and under the expected one otherwise.
    pub fn forecast_window_at(&self, clear_w_per_m2: Micros, cloud: Micros) -> (g: i128)
        ensures
            g == let_through(
                clear_w_per_m2 as int,
                if self.spec.oracle_forecast {
                    cloud as int
                } else {
                    self.mean_cloud as int
                },
            ),
    {
        self.window_at(clear_w_per_m2, self.spec.told(cloud, self.mean_cloud))
    }
}

/// What a roof makes of a clear sky's power under so much cloud.
pub open spec fn produced(w: Weather, clear: int, cloud: int) -> int {
    clear * ((crate::site::WHOLE - cloud) * w.spec.soiling)
}

/// What a model says a roof makes.
pub open spec fn modelled(w: Weather, happens: int, clear: int) -> int {
    if w.spec.oracle_forecast {
        happens
    } else {
        clear * ((crate::site::WHOLE - w.mean_cloud) * crate::site::WHOLE)
    }
}

/// What of a clear sky comes through so much cloud.
pub open spec fn let_through(clear: int, cloud: int) -> int {
    if cloud < crate::site::WHOLE {
        clear * (crate::site::WHOLE - cloud)
    } else {
        0
    }
}

/// A roof makes no more than a clear sky gives it, and under the cloud that was
/// expected no more than its model says.
pub proof fn a_roof_makes_no_more_than_its_model(w: Weather, clear: int, happens: int)
    requires
        clear >= 0,
        crate::site::is_fraction(w.mean_cloud as int),
        crate::site::is_fraction(w.spec.soiling as int),
        !w.spec.oracle_forecast,
    ensures
        0 <= produced(w, clear, w.mean_cloud as int) <= modelled(w, happens, clear) <= clear
            * 1_000_000_000_000,
{
    let through = 1_000_000 - w.mean_cloud;
    let soiling = w.spec.soiling as int;
    assert(0 <= through * soiling <= through * 1_000_000 <= 1_000_000_000_000) by (nonlinear_arith)
        requires
            0 <= through <= 1_000_000,
            0 <= soiling <= 1_000_000,
    ;
    assert(0 <= clear * (through * soiling) <= clear * (through * 1_000_000) <= clear
        * 1_000_000_000_000) by (nonlinear_arith)
        requires
            clear >= 0,
            0 <= through * soiling <= through * 1_000_000 <= 1_000_000_000_000,
    ;
}

/// The seed of a weather so many days earlier.
pub open spec fn earlier_seed(seed: u64, days: u64) -> u64 {
    seed ^ (vstd::wrapping::u64_specs::wrapping_mul(days, 0x9E37_79B9) | 1)
}

/// A day before is never the day itself: the box's history holds no day it is about
/// to be asked about.
pub proof fn a_day_before_is_another_day(seed: u64, days: u64)
    ensures
        earlier_seed(seed, days) != seed,
{
    let far = vstd::wrapping::u64_specs::wrapping_mul(days, 0x9E37_79B9);
    assert(seed ^ (far | 1) != seed) by (bit_vector);
}

/// Showing the planner the answer changes what the box is told and nothing about the
/// day: the roof makes the same of every sky, and what the box is told is what
/// happens.
pub proof fn foresight_changes_nothing_about_the_day(
    w: Weather,
    shown: Weather,
    clear: int,
    cloud: int,
    modelled_clear: int,
)
    requires
        shown == (Weather { spec: WeatherSpec { oracle_forecast: true, ..w.spec }, ..w }),
    ensures
        shown.realisation == w.realisation,
        produced(shown, clear, cloud) == produced(w, clear, cloud),
        modelled(shown, produced(w, clear, cloud), modelled_clear) == produced(w, clear, cloud),
{
}

// ── The weeks before ────────────────────────────────────────────────────────

/// How long a box watches before what it has is worth calling a forecast, days.
pub const WARM_UP_DAYS: usize = 42;

/// How many quarter hours a day is watched for.
pub const WATCHED: usize = 96;

/// The quarter hour a watched day's k-th quarter hour falls in.
pub open spec fn watched_slot(midnight: int, k: int) -> int {
    (midnight + k * SLOT) / SLOT as int
}

/// A day the box watched before its first.
#[derive(Debug)]
pub struct PastDay {
    /// What the weather was.
    pub weather: Weather,
    /// When it began.
    pub midnight: Instant,
    /// Its quarter hours, in order.
    pub slots: Vec<Slot>,
}

impl PastDay {
    /// Whether this is the day so many days before the first.
    pub open spec fn is_before(self, weather: Weather, start: int, days: int) -> bool {
        &&& self.weather == (Weather {
            realisation: earlier_seed(weather.spec.seed, days as u64),
            ..weather
        })
        &&& self.midnight == start - days * DAY
        &&& self.slots@.len() == WATCHED
        &&& forall|k: int|
            0 <= k < WATCHED ==> (#[trigger] self.slots@[k]).index == watched_slot(
                self.midnight as int,
                k,
            )
    }
}

/// The quarter hours of one watched day.
fn watched(midnight: Instant) -> (slots: Vec<Slot>)
    requires
        crate::clock::in_calendar(midnight as int),
        crate::clock::in_calendar(midnight + DAY),
    ensures
        slots@.len() == WATCHED,
        forall|k: int|
            0 <= k < WATCHED ==> (#[trigger] slots@[k]).index == watched_slot(midnight as int, k),
{
    let mut slots: Vec<Slot> = Vec::new();
    let mut k: usize = 0;
    while k < WATCHED
        invariant
            k <= WATCHED,
            crate::clock::in_calendar(midnight as int),
            crate::clock::in_calendar(midnight + DAY),
            slots@.len() == k,
            forall|j: int|
                0 <= j < k ==> (#[trigger] slots@[j]).index == watched_slot(midnight as int, j),
        decreases WATCHED - k,
    {
        slots.push(Slot::containing(midnight + k as i128 * SLOT));
        k = k + 1;
    }
    slots
}

/// The days a box watched before its first without controlling anything, the
/// nearest first. None of them is a box on its first evening.
pub fn warm_up(days: usize, weather: &Weather, start: Instant) -> (past: Vec<PastDay>)
    requires
        crate::clock::in_calendar(start as int),
        crate::clock::in_calendar(start - days * DAY),
    ensures
        past@.len() == days,
        forall|i: int|
            0 <= i < days ==> (#[trigger] past@[i]).is_before(*weather, start as int, i + 1),
{
    let mut past: Vec<PastDay> = Vec::new();
    let mut day: usize = 0;
    while day < days
        invariant
            day <= days,
            crate::clock::in_calendar(start as int),
            crate::clock::in_calendar(start - days * DAY),
            past@.len() == day,
            forall|i: int|
                0 <= i < day ==> (#[trigger] past@[i]).is_before(*weather, start as int, i + 1),
        decreases days - day,
    {
        day = day + 1;
        let midnight: Instant = start - day as i128 * DAY;
        past.push(PastDay { weather: weather.earlier(day as u64), midnight, slots: watched(midnight) });
    }
    past
}

/// The quarter hours of a watched day follow one another: none is passed over and
/// none is watched twice.
pub proof fn a_watched_day_is_seen_once(midnight: int, i: int, j: int)
    ensures
        watched_slot(midnight, j) == watched_slot(midnight, i) + (j - i),
{
    vstd::arithmetic::div_mod::lemma_hoist_over_denominator(midnight, i, SLOT as nat);
    vstd::arithmetic::div_mod::lemma_hoist_over_denominator(midnight, j, SLOT as nat);
}

/// A box learns from no day it is about to be asked about: every day it watched had
/// another weather and lay before the first.
pub proof fn the_history_is_never_the_day(weather: Weather, start: int, days: int, past: PastDay)
    requires
        1 <= days,
        past.is_before(weather, start, days),
    ensures
        past.weather.realisation != weather.spec.seed,
        past.weather.spec == weather.spec,
        past.midnight + DAY <= start,
{
    a_day_before_is_another_day(weather.spec.seed, days as u64);
}

/// A charging session of a day before.
#[derive(Debug, Clone, Copy, PartialEq, Eq, Structural)]
pub struct Session {
    /// When the cable went in.
    pub plugged_in: Instant,
    /// When it came out.
    pub unplugged: Instant,
    /// What was charged, in millionths of a milliwatt-hour.
    pub energy: i128,
}

/// How a household that is not quite regular charges its car: when it comes home,
/// when it leaves, and how empty it is, each off by a share of what is usual.
#[derive(Debug, Clone, Copy, PartialEq, Eq, Structural)]
pub struct Habit {
    /// When the car comes home, after midnight, nanoseconds.
    pub arrival: i128,
    /// When it leaves, after midnight, nanoseconds.
    pub departure: i128,
    /// What it needs, milliwatt-hours.
    pub energy_mwh: i64,
}

/// The largest share anything strays by.
pub const MOST_JITTER: i64 = 1_000_000;

/// The session of one day before, off by a share: an hour and a half of arrival and
/// half an hour of departure for the whole of it. The car stays for an hour at
/// least.
pub fn session_on(midnight: Instant, habit: Habit, jitter: Micros) -> (s: Session)
    requires
        crate::clock::in_calendar(midnight as int),
        0 <= habit.arrival <= 2 * DAY,
        0 <= habit.departure <= 2 * DAY,
        -MOST_JITTER <= jitter <= MOST_JITTER,
    ensures
        s.plugged_in == midnight + habit.arrival + jitter * 5_400_000,
        s.unplugged == if midnight + habit.departure + jitter * 1_800_000 < s.plugged_in + HOUR {
            s.plugged_in + HOUR
        } else {
            midnight + habit.departure + jitter * 1_800_000
        },
        s.unplugged >= s.plugged_in + HOUR,
        s.energy == habit.energy_mwh * (1_000_000 + jitter),
{
    let plugged_in: Instant = midnight + habit.arrival + jitter as i128 * 5_400_000;
    let leaves: Instant = midnight + habit.departure + jitter as i128 * 1_800_000;
    let unplugged: Instant = if leaves < plugged_in + HOUR {
        plugged_in + HOUR
    } else {
        leaves
    };
    let share: i128 = 1_000_000 + jitter as i128;
    assert(-0x8000_0000_0000_0000 * 2_000_000 <= habit.energy_mwh * share
        <= 0x8000_0000_0000_0000 * 2_000_000) by (nonlinear_arith)
        requires
            -0x8000_0000_0000_0000 <= habit.energy_mwh <= 0x7fff_ffff_ffff_ffff,
            0 <= share <= 2_000_000,
    ;
    Session { plugged_in, unplugged, energy: habit.energy_mwh as i128 * share }
}

// ── What a planner is given ─────────────────────────────────────────────────

/// The load a box plans against: its own history where it has any, and otherwise
/// its own meter. There is nothing to plan against where nobody measures.
pub fn load_forecast(has_history: bool, measured_now: Option<i128>) -> (r: Option<LoadSource>)
    ensures
        r == if has_history {
            Some(LoadSource::History)
        } else {
            match measured_now {
                Some(mw) => Some(LoadSource::Persistence(mw)),
                None => None,
            }
        },
{
    if has_history {
        return Some(LoadSource::History);
    }
    match measured_now {
        Some(mw) => Some(LoadSource::Persistence(mw)),
        None => None,
    }
}

/// The charging session a planner is given before the cable goes in; from then on
/// the session is a fact, and the forecast is not asked again.
pub fn session_at<T>(now: Instant, actual_arrival: Instant, forecast: Option<T>) -> (s: Option<T>)
    ensures
        s == if now >= actual_arrival {
            None
        } else {
            forecast
        },
{
    if now >= actual_arrival {
        None
    } else {
        forecast
    }
}

/// A roof under a clear sky delivers its own share of what the sky gives, cloud takes
/// in proportion, and a covered sky leaves nothing: so much cloud and the rest of the
/// sky share a clear day between them.
pub proof fn cloud_takes_its_share_of_a_roof(w: Weather, clear: int, cloud: int)
    ensures
        produced(w, clear, 0) == clear * w.spec.soiling * 1_000_000,
        produced(w, clear, 1_000_000) == 0,
        produced(w, clear, cloud) + produced(w, clear, 1_000_000 - cloud) == produced(w, clear, 0),
        produced(w, 0, cloud) == 0,
{
    let s = w.spec.soiling as int;
    assert(clear * ((1_000_000 - 0) * s) == clear * s * 1_000_000) by (nonlinear_arith);
    assert(clear * ((1_000_000 - 1_000_000) * s) == 0) by (nonlinear_arith);
    assert(clear * ((1_000_000 - cloud) * s) + clear * ((1_000_000 - (1_000_000 - cloud)) * s)
        == clear * ((1_000_000 - 0) * s)) by (nonlinear_arith);
    assert(0 * ((1_000_000 - cloud) * s) == 0) by (nonlinear_arith);
}

/// What a model says of a roof does not rest on what the roof loses, nor on the cloud
/// the day has, and is what a roof that loses nothing makes under the expected cloud.
pub proof fn a_model_does_not_know_the_roof(w: Weather, other: Weather, happens: int, clear: int)
    requires
        !w.spec.oracle_forecast,
        !other.spec.oracle_forecast,
        other.mean_cloud == w.mean_cloud,
    ensures
        modelled(other, happens, clear) == modelled(w, happens, clear),
        other.spec.soiling == 1_000_000 ==> modelled(w, happens, clear) == produced(
            other,
            clear,
            w.mean_cloud as int,
        ),
{
}

/// Cloud takes its share of what reaches a window, and a sky that is covered, or more
/// than covered, lets nothing through.
pub proof fn cloud_takes_its_share_of_a_window(clear: int, cloud: int)
    requires
        clear >= 0,
    ensures
        let_through(clear, 0) == clear * 1_000_000,
        cloud >= 1_000_000 ==> let_through(clear, cloud) == 0,
        0 < cloud < 1_000_000 ==> let_through(clear, cloud) + let_through(clear, 1_000_000 - cloud)
            == clear * 1_000_000,
        let_through(clear, cloud) >= let_through(clear, cloud + 1) >= 0,
{
    assert(clear * (1_000_000 - cloud) + clear * (1_000_000 - (1_000_000 - cloud)) == clear
        * 1_000_000) by (nonlinear_arith);
    assert(clear * (1_000_000 - cloud) == clear * (1_000_000 - (cloud + 1)) + clear)
        by (nonlinear_arith);
    if cloud < 1_000_000 {
        assert(clear * (1_000_000 - (cloud + 1)) >= 0) by (nonlinear_arith)
            requires
                clear >= 0,
                cloud < 1_000_000,
        ;
    }
}

/// Going back as many days from a day before leads to the day itself, and the same
/// days before two days that differ are days that differ.
pub proof fn going_back_can_be_undone(seed: u64, other: u64, days: u64)
    ensures
        earlier_seed(earlier_seed(seed, days), days) == seed,
        earlier_seed(seed, days) == earlier_seed(other, days) ==> seed == other,
        earlier_seed(seed, days) % 2 != seed % 2,
{
    let far = vstd::wrapping::u64_specs::wrapping_mul(days, 0x9E37_79B9);
    assert((seed ^ (far | 1)) ^ (far | 1) == seed) by (bit_vector);
    assert((other ^ (far | 1)) ^ (far | 1) == other) by (bit_vector);
    assert((seed ^ (far | 1)) % 2 != seed % 2) by (bit_vector);
}

/// A watched quarter hour is the one its moment falls in.
pub proof fn a_watched_quarter_hour_holds_its_moment(midnight: int, k: int)
    ensures
        watched_slot(midnight, k) * SLOT <= midnight + k * SLOT < (watched_slot(midnight, k) + 1)
            * SLOT,
{
    vstd::arithmetic::div_mod::lemma_fundamental_div_mod(midnight + k * SLOT, SLOT as int);
    let q = watched_slot(midnight, k);
    assert(SLOT * q == q * SLOT) by (nonlinear_arith);
    assert((q + 1) * SLOT == q * SLOT + SLOT) by (nonlinear_arith);
}

} // verus!

//! The same day, several weathers: the only evaluation that can judge a hedge.
//!
//! A premium is paid on every day and a claim is made on one in ten, so a single
//! realisation reports insurance as a pure loss. What is reported here is a spread:
//! what the household saves on an average day, and what it saves on its worst.

use vstd::prelude::*;

use crate::site::Micros;
use crate::text::divide_half_even;

verus! {

/// How a forecast band did over many days.
#[derive(Debug, Clone, Copy, PartialEq, Eq, Structural)]
pub struct Calibration {
    /// What share of outcomes fell inside it.
    pub coverage: Micros,
    /// How far off it was, W.
    pub crps: Micros,
    /// Which way it leaned, W.
    pub bias: Micros,
    /// How many quarter hours were scored.
    pub samples: u64,
    /// How many had nothing to forecast.
    pub skipped: u64,
    /// How many independent days they come from.
    pub episodes: u64,
    /// Whether the band is as wide as it claims, over enough days to say so.
    pub well_calibrated: bool,
}

/// How many independent days a band has to be scored over before anybody can say
/// whether it is as wide as it claims.
pub const CALIBRATION_DAYS: u64 = 20;

/// One controller's outcome over a set of days.
#[derive(Debug)]
pub struct Spread {
    /// What the days saved, €, in the order they were run.
    pub savings_eur: Vec<Micros>,
    /// What the days left the household short of, €.
    pub unserved_eur: Vec<Micros>,
    /// How long the planning took, s.
    pub seconds: Micros,
    /// How the production band did.
    pub pv_forecast: Calibration,
    /// How the load band did.
    pub load_forecast: Calibration,
}

/// The sum of a list.
pub open spec fn total(values: Seq<Micros>) -> int
    decreases values.len(),
{
    if values.len() == 0 {
        0
    } else {
        total(values.drop_last()) + values.last()
    }
}

/// The mean of a list to the nearest millionth, halves to the even one; nothing
/// for a list of nothing.
pub open spec fn mean_of(values: Seq<Micros>) -> int {
    if values.len() == 0 {
        0
    } else if total(values) < 0 {
        -(crate::text::nearest((-total(values)) as nat, values.len()) as int)
    } else {
        crate::text::nearest(total(values) as nat, values.len()) as int
    }
}

/// Whether a value is the least of a list.
pub open spec fn is_least(values: Seq<Micros>, least: Option<Micros>) -> bool {
    match least {
        Some(v) => values.contains(v) && forall|i: int|
            0 <= i < values.len() ==> v <= #[trigger] values[i],
        None => values.len() == 0,
    }
}

/// Whether a value is the greatest of a list.
pub open spec fn is_greatest(values: Seq<Micros>, greatest: Option<Micros>) -> bool {
    match greatest {
        Some(v) => values.contains(v) && forall|i: int|
            0 <= i < values.len() ==> #[trigger] values[i] <= v,
        None => values.len() == 0,
    }
}

/// The least of a list, where it holds anything.
pub open spec fn least_of(values: Seq<Micros>) -> Option<Micros> {
    if values.len() == 0 {
        None
    } else {
        Some(choose|v: Micros| is_least(values, Some(v)))
    }
}

/// The greatest of a list, where it holds anything.
pub open spec fn greatest_of(values: Seq<Micros>) -> Option<Micros> {
    if values.len() == 0 {
        None
    } else {
        Some(choose|v: Micros| is_greatest(values, Some(v)))
    }
}

/// A list has one least value.
pub proof fn there_is_one_least(values: Seq<Micros>, r: Option<Micros>)
    requires
        is_least(values, r),
    ensures
        r == least_of(values),
{
    if let Some(v) = r {
        let other = choose|v: Micros| is_least(values, Some(v));
        assert(is_least(values, Some(v)));
        assert(values.contains(other) && values.contains(v));
    }
}

/// A list has one greatest value.
pub proof fn there_is_one_greatest(values: Seq<Micros>, r: Option<Micros>)
    requires
        is_greatest(values, r),
    ensures
        r == greatest_of(values),
{
    if let Some(v) = r {
        let other = choose|v: Micros| is_greatest(values, Some(v));
        assert(is_greatest(values, Some(v)));
        assert(values.contains(other) && values.contains(v));
    }
}

fn mean(values: &Vec<Micros>) -> (m: i128)
    ensures
        m == mean_of(values@),
        m > i128::MIN,
{
    if values.len() == 0 {
        return 0;
    }
    let n: usize = values.len();
    let mut sum: i128 = 0;
    let mut i: usize = 0;
    assert(values@.take(0) =~= Seq::empty());
    while i < n
        invariant
            i <= n,
            n == values@.len(),
            sum == total(values@.take(i as int)),
            -0x8000_0000_0000_0000 * i <= sum <= 0x7fff_ffff_ffff_ffff * i,
        decreases n - i,
    {
        assert(values@.take(i + 1).drop_last() =~= values@.take(i as int));
        assert(values@.take(i + 1).last() == values@[i as int]);
        sum = sum + values[i] as i128;
        i = i + 1;
    }
    assert(values@.take(i as int) =~= values@);
    if sum < 0 {
        let q: u128 = divide_half_even((-sum) as u128, n as u128);
        proof {
            lemma_quotient((-sum) as nat, n as nat);
        }
        -(q as i128)
    } else {
        let q: u128 = divide_half_even(sum as u128, n as u128);
        proof {
            lemma_quotient(sum as nat, n as nat);
        }
        q as i128
    }
}

proof fn lemma_quotient(n: nat, unit: nat)
    requires
        unit >= 1,
    ensures
        crate::text::nearest(n, unit) <= n + 1,
{
    assert(n / unit <= n) by (nonlinear_arith)
        requires
            unit >= 1,
    ;
}

fn least(values: &Vec<Micros>) -> (r: Option<Micros>)
    ensures
        is_least(values@, r),
{
    if values.len() == 0 {
        return None;
    }
    let mut best: Micros = values[0];
    let mut i: usize = 1;
    while i < values.len()
        invariant
            1 <= i <= values@.len(),
            values@.contains(best),
            forall|j: int| 0 <= j < i ==> best <= #[trigger] values@[j],
        decreases values@.len() - i,
    {
        if values[i] < best {
            best = values[i];
        }
        i = i + 1;
    }
    Some(best)
}

fn greatest(values: &Vec<Micros>) -> (r: Option<Micros>)
    ensures
        is_greatest(values@, r),
{
    if values.len() == 0 {
        return None;
    }
    let mut best: Micros = values[0];
    let mut i: usize = 1;
    while i < values.len()
        invariant
            1 <= i <= values@.len(),
            values@.contains(best),
            forall|j: int| 0 <= j < i ==> #[trigger] values@[j] <= best,
        decreases values@.len() - i,
    {
        if values[i] > best {
            best = values[i];
        }
        i = i + 1;
    }
    Some(best)
}

impl Spread {
    /// The mean saving, €.
    pub fn mean_saving_eur(&self) -> (m: i128)
        ensures
            m == mean_of(self.savings_eur@),
            m > i128::MIN,
    {
        mean(&self.savings_eur)
    }

    /// The worst day's saving: the number a hedge is bought for.
    pub fn worst_saving_eur(&self) -> (r: Option<Micros>)
        ensures
            is_least(self.savings_eur@, r),
    {
        least(&self.savings_eur)
    }

    /// The best day's.
    pub fn best_saving_eur(&self) -> (r: Option<Micros>)
        ensures
            is_greatest(self.savings_eur@, r),
    {
        greatest(&self.savings_eur)
    }

    /// The mean cost of service the household asked for and did not get, €.
    pub fn mean_unserved_eur(&self) -> (m: i128)
        ensures
            m == mean_of(self.unserved_eur@),
            m > i128::MIN,
    {
        mean(&self.unserved_eur)
    }

    /// The worst day's.
    pub fn worst_unserved_eur(&self) -> (r: Option<Micros>)
        ensures
            is_greatest(self.unserved_eur@, r),
    {
        greatest(&self.unserved_eur)
    }

    /// How many days it rests on.
    pub fn days(&self) -> (n: usize)
        ensures
            n == self.savings_eur@.len(),
    {
        self.savings_eur.len()
    }

    /// Whether both bands are as wide as they claim: a household plans against both.
    pub fn is_well_calibrated(&self) -> (r: bool)
        ensures
            r == (self.pv_forecast.well_calibrated && self.load_forecast.well_calibrated),
    {
        self.pv_forecast.well_calibrated && self.load_forecast.well_calibrated
    }
}

/// The mean saving lies between the worst day's and the best day's.
pub proof fn the_mean_lies_between_the_worst_and_the_best(
    values: Seq<Micros>,
    worst: Micros,
    best: Micros,
)
    requires
        values.len() > 0,
        is_least(values, Some(worst)),
        is_greatest(values, Some(best)),
    ensures
        worst <= mean_of(values) <= best,
{
    lemma_between(values, worst as int, best as int);
    let n = values.len() as int;
    let sum = total(values);
    if sum < 0 {
        assert((-best) * n == -(best * n) && (-worst) * n == -(worst * n)) by (nonlinear_arith);
        lemma_nearest_between((-sum) as nat, values.len(), -(best as int), -(worst as int));
    } else {
        lemma_nearest_between(sum as nat, values.len(), worst as int, best as int);
    }
}

proof fn lemma_between(values: Seq<Micros>, low: int, high: int)
    requires
        forall|i: int| 0 <= i < values.len() ==> low <= #[trigger] values[i] <= high,
    ensures
        low * values.len() <= total(values) <= high * values.len(),
    decreases values.len(),
{
    if values.len() > 0 {
        let before = values.drop_last();
        assert forall|i: int| 0 <= i < before.len() implies low <= #[trigger] before[i] <= high by {
            assert(before[i] == values[i]);
        }
        lemma_between(before, low, high);
        let n = before.len() as int;
        assert(values.last() == values[n]);
        assert(low * (n + 1) == low * n + low) by (nonlinear_arith);
        assert(high * (n + 1) == high * n + high) by (nonlinear_arith);
    }
}

proof fn lemma_nearest_between(sum: nat, n: nat, low: int, high: int)
    requires
        n >= 1,
        low * n <= sum <= high * n,
    ensures
        low <= crate::text::nearest(sum, n) <= high,
{
    let q = sum / n;
    let rest = sum % n;
    assert(sum == n * q + rest && 0 <= rest < n) by (nonlinear_arith)
        requires
            n >= 1,
            q == sum / n,
            rest == sum % n,
    ;
    assert(low <= q + 1 && (rest == 0 ==> low <= q) && q <= high && (rest > 0 ==> q + 1 <= high))
        by (nonlinear_arith)
        requires
            n >= 1,
            sum == n * q + rest,
            0 <= rest < n,
            low * n <= sum <= high * n,
    ;
    assert(low <= q) by (nonlinear_arith)
        requires
            n >= 1,
            sum == n * q + rest,
            0 <= rest < n,
            low * n <= sum,
    ;
}

// ── Which weathers ──────────────────────────────────────────────────────────

/// What consecutive days are spread apart by.
pub const STRIDE: u64 = 0x9E37_79B9_7F4A_7C15;

/// The weather of one day of a sweep: the base, and as many strides from it as the
/// day is, round a circle of two to the sixty-fourth.
pub open spec fn seed_of(base: u64, day: u64) -> int {
    (base + day * STRIDE) % 0x1_0000_0000_0000_0000
}

/// The weathers of a sweep, so that the whole of it is a function of the scenario
/// and of how many days are run.
pub fn seeds(base: u64, days: usize) -> (r: Vec<u64>)
    ensures
        r@.len() == days,
        forall|i: int| 0 <= i < days ==> #[trigger] r@[i] == seed_of(base, i as u64),
{
    let mut r: Vec<u64> = Vec::new();
    let mut day: usize = 0;
    while day < days
        invariant
            day <= days,
            r@.len() == day,
            forall|i: int| 0 <= i < day ==> #[trigger] r@[i] == seed_of(base, i as u64),
        decreases days - day,
    {
        let far: u64 = (day as u64).wrapping_mul(STRIDE);
        let seed: u64 = base.wrapping_add(far);
        proof {
            let m = 0x1_0000_0000_0000_0000int;
            let x = day as int * STRIDE as int;
            assert(far == x % m);
            vstd::arithmetic::div_mod::lemma_add_mod_noop_right(base as int, x, m);
            assert(seed == (base + far) % m);
        }
        r.push(seed);
        day = day + 1;
    }
    r
}

/// What undoes a stride.
pub const UNSTRIDE: u64 = 0xF1DE_83E1_9937_733D;

/// No two days of a sweep have the same weather.
pub proof fn no_two_days_have_the_same_weather(base: u64, a: u64, b: u64)
    requires
        seed_of(base, a) == seed_of(base, b),
    ensures
        a == b,
{
    let m = 0x1_0000_0000_0000_0000int;
    let x = a * STRIDE;
    let y = b * STRIDE;
    // The same distance round the circle.
    assert(x % m == y % m) by {
        vstd::arithmetic::div_mod::lemma_mod_equivalence(base + x, base + y, m);
        vstd::arithmetic::div_mod::lemma_mod_equivalence(x, y, m);
    }
    // The same distance, undone.
    let u = UNSTRIDE as int;
    vstd::arithmetic::div_mod::lemma_mul_mod_noop_left(x, u, m);
    vstd::arithmetic::div_mod::lemma_mul_mod_noop_left(y, u, m);
    assert((x * u) % m == (y * u) % m);
    assert(STRIDE * UNSTRIDE == 1 + 10771413168148108919int * m);
    let k = STRIDE as int;
    assert(x * u == a * (k * u)) by (nonlinear_arith)
        requires
            x == a * k,
    ;
    assert(y * u == b * (k * u)) by (nonlinear_arith)
        requires
            y == b * k,
    ;
    let w = 10771413168148108919int;
    assert(a * (1 + w * m) == m * (a * w) + a) by (nonlinear_arith);
    assert(b * (1 + w * m) == m * (b * w) + b) by (nonlinear_arith);
    vstd::arithmetic::div_mod::lemma_mod_multiples_vanish(a * w, a as int, m);
    vstd::arithmetic::div_mod::lemma_mod_multiples_vanish(b * w, b as int, m);
    vstd::arithmetic::div_mod::lemma_small_mod(a as nat, m as nat);
    vstd::arithmetic::div_mod::lemma_small_mod(b as nat, m as nat);
}

/// What one day of a sweep came to.
#[derive(Debug, Clone, Copy, PartialEq, Eq, Structural)]
pub struct DayOutcome {
    /// What it saved, €.
    pub saving_eur: Micros,
    /// What it left the household short of, €.
    pub unserved_eur: Micros,
}

/// One controller's outcome over the days that were run, in their order. The bands
/// were scored over all of them.
pub fn spread_over_days(
    days: &Vec<DayOutcome>,
    seconds: Micros,
    pv_forecast: Calibration,
    load_forecast: Calibration,
) -> (s: Spread)
    ensures
        s.savings_eur@ == Seq::new(days@.len(), |i: int| days@[i].saving_eur),
        s.unserved_eur@ == Seq::new(days@.len(), |i: int| days@[i].unserved_eur),
        s.seconds == seconds,
        s.pv_forecast == pv_forecast,
        s.load_forecast == load_forecast,
{
    let mut savings_eur: Vec<Micros> = Vec::new();
    let mut unserved_eur: Vec<Micros> = Vec::new();
    let mut i: usize = 0;
    while i < days.len()
        invariant
            i <= days@.len(),
            savings_eur@.len() == i,
            unserved_eur@.len() == i,
            forall|j: int| 0 <= j < i ==> #[trigger] savings_eur@[j] == days@[j].saving_eur,
            forall|j: int| 0 <= j < i ==> #[trigger] unserved_eur@[j] == days@[j].unserved_eur,
        decreases days@.len() - i,
    {
        savings_eur.push(days[i].saving_eur);
        unserved_eur.push(days[i].unserved_eur);
        i = i + 1;
    }
    assert(savings_eur@ =~= Seq::new(days@.len(), |i: int| days@[i].saving_eur));
    assert(unserved_eur@ =~= Seq::new(days@.len(), |i: int| days@[i].unserved_eur));
    Spread { savings_eur, unserved_eur, seconds, pv_forecast, load_forecast }
}

/// A sum is the sum of its parts, however a list is cut, and a list of one is its
/// value.
pub proof fn days_add_up(a: Seq<Micros>, b: Seq<Micros>, v: Micros)
    ensures
        total(a + b) == total(a) + total(b),
        total(a + b) == total(b + a),
        total(seq![v]) == v,
{
    lemma_days_add_up(a, b);
    lemma_days_add_up(b, a);
    reveal_with_fuel(total, 2);
    assert(seq![v].drop_last() =~= Seq::empty());
}

proof fn lemma_days_add_up(a: Seq<Micros>, b: Seq<Micros>)
    ensures
        total(a + b) == total(a) + total(b),
    decreases b.len(),
{
    if b.len() == 0 {
        assert(a + b =~= a);
    } else {
        lemma_days_add_up(a, b.drop_last());
        assert((a + b).drop_last() =~= a + b.drop_last());
    }
}

/// As many times the mean as there are days is what the days came to, to within half
/// a unit a day; and no day is no mean.
pub proof fn the_mean_of_the_days_is_what_they_came_to(values: Seq<Micros>)
    ensures
        values.len() > 0 ==> -(values.len() as int) <= 2 * (values.len() * mean_of(values)) - 2 * total(
            values,
        ) <= values.len(),
        values.len() == 0 ==> mean_of(values) == 0,
{
    if values.len() > 0 {
        let n = values.len();
        let sum = total(values);
        if sum < 0 {
            crate::text::rounding_moves_by_at_most_half_a_unit((-sum) as nat, n);
            let q = crate::text::nearest((-sum) as nat, n) as int;
            assert(n * (-q) == -(q * n)) by (nonlinear_arith);
        } else {
            crate::text::rounding_moves_by_at_most_half_a_unit(sum as nat, n);
            let q = crate::text::nearest(sum as nat, n) as int;
            assert(n * q == q * n) by (nonlinear_arith);
        }
    }
}

/// The days of a sweep lie one stride apart, and the first of them is the weather the
/// sweep was asked for.
pub proof fn days_lie_one_stride_apart(base: u64, day: u64)
    requires
        day < u64::MAX,
    ensures
        seed_of(base, 0) == base,
        (seed_of(base, (day + 1) as u64) - seed_of(base, day) - STRIDE)
            % 0x1_0000_0000_0000_0000 == 0,
        0 <= seed_of(base, day) <= u64::MAX,
{
    let m = 0x1_0000_0000_0000_0000int;
    let x = base + day * STRIDE;
    let y = base + (day + 1) * STRIDE;
    assert(0 * STRIDE == 0);
    vstd::arithmetic::div_mod::lemma_small_mod(base as nat, m as nat);
    assert((day + 1) * STRIDE == day * STRIDE + STRIDE) by (nonlinear_arith);
    vstd::arithmetic::div_mod::lemma_fundamental_div_mod(x, m);
    vstd::arithmetic::div_mod::lemma_fundamental_div_mod(y, m);
    let k = x / m - y / m;
    assert(y % m - x % m - STRIDE == m * (x / m) - m * (y / m));
    assert(m * (x / m) - m * (y / m) == k * m + 0) by (nonlinear_arith)
        requires
            k == x / m - y / m,
    ;
    vstd::arithmetic::div_mod::lemma_mod_multiples_basic(k, m);
}

} // verus!

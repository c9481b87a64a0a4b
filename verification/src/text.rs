//! Building and reading short texts.
//!
//! Every surface of the daemon ends in a line somebody reads, so the pieces a
//! line is made of are specified here once: whole numbers, fixed-point figures
//! rounded half to even, padding, trimming and the numbers a person types.

use vstd::prelude::*;

verus! {

/// `String::push` puts one character at the end and changes nothing else.
pub assume_specification[ String::push ](s: &mut String, c: char)
    ensures
        final(s)@ == old(s)@.push(c),
;

// ── Whole numbers ───────────────────────────────────────────────────────────

/// The character of one decimal digit.
pub open spec fn digit(n: nat) -> char {
    ((48 + n % 10) as u8) as char
}

/// A whole number in decimal, without leading zeros.
pub open spec fn decimal(n: nat) -> Seq<char>
    decreases n,
{
    if n < 10 {
        seq![digit(n)]
    } else {
        decimal(n / 10).push(digit(n % 10))
    }
}

/// A whole number in decimal with a leading minus where it is negative.
pub open spec fn signed(n: int) -> Seq<char> {
    if n < 0 {
        seq!['-'] + decimal((-n) as nat)
    } else {
        decimal(n as nat)
    }
}

/// A whole number in exactly `width` digits: the low ones, zeros in front.
pub open spec fn zero_padded(n: nat, width: nat) -> Seq<char>
    decreases width,
{
    if width == 0 {
        Seq::empty()
    } else {
        zero_padded(n / 10, (width - 1) as nat).push(digit(n % 10))
    }
}

/// One digit onto the end of a text.
pub fn push_digit(out: &mut String, n: u8)
    requires
        n < 10,
    ensures
        final(out)@ == old(out)@.push(digit(n as nat)),
{
    let c: char = (48u8 + n) as char;
    out.push(c);
}

/// A whole number onto the end of a text.
pub fn push_decimal(out: &mut String, n: u128)
    ensures
        final(out)@ == old(out)@ + decimal(n as nat),
    decreases n,
{
    if n < 10 {
        push_digit(out, n as u8);
        assert(final(out)@ =~= old(out)@ + decimal(n as nat));
    } else {
        push_decimal(out, n / 10);
        push_digit(out, (n % 10) as u8);
        assert(out@ =~= old(out)@ + decimal(n as nat));
    }
}

/// A signed whole number onto the end of a text.
pub fn push_signed(out: &mut String, n: i64)
    ensures
        final(out)@ == old(out)@ + signed(n as int),
{
    if n < 0 {
        out.push('-');
        push_decimal(out, (-(n as i128)) as u128);
        assert(out@ =~= old(out)@ + signed(n as int));
    } else {
        push_decimal(out, n as u128);
    }
}

/// Exactly `width` digits onto the end of a text.
pub fn push_zero_padded(out: &mut String, n: u128, width: u32)
    ensures
        final(out)@ == old(out)@ + zero_padded(n as nat, width as nat),
    decreases width,
{
    if width > 0 {
        push_zero_padded(out, n / 10, width - 1);
        push_digit(out, (n % 10) as u8);
    }
    assert(out@ =~= old(out)@ + zero_padded(n as nat, width as nat));
}

/// A whole number in at least `width` digits, zeros in front where it has fewer.
pub open spec fn zero_padded_at_least(n: nat, width: nat) -> Seq<char> {
    if n < ten_to(width) {
        zero_padded(n, width)
    } else {
        decimal(n)
    }
}

/// At least `width` digits onto the end of a text.
pub fn push_at_least(out: &mut String, n: u128, width: u32)
    requires
        width <= 6,
    ensures
        final(out)@ == old(out)@ + zero_padded_at_least(n as nat, width as nat),
{
    proof {
        lemma_ten_to();
    }
    let limit: u128 = if width == 0 {
        1
    } else if width == 1 {
        10
    } else if width == 2 {
        100
    } else if width == 3 {
        1_000
    } else if width == 4 {
        10_000
    } else if width == 5 {
        100_000
    } else {
        1_000_000
    };
    if n < limit {
        push_zero_padded(out, n, width);
    } else {
        push_decimal(out, n);
    }
}

// ── Fixed-point figures ─────────────────────────────────────────────────────

/// How many units a figure of `n` millionths is nearest to, where one unit is
/// `unit` millionths; a figure exactly between two goes to the even one.
pub open spec fn nearest(n: nat, unit: nat) -> nat {
    let whole = n / unit;
    let rest = n % unit;
    if 2 * rest < unit || (2 * rest == unit && whole % 2 == 0) {
        whole
    } else {
        whole + 1
    }
}

/// Ten to the power of a small number of digits.
pub open spec fn ten_to(digits: nat) -> nat
    decreases digits,
{
    if digits == 0 {
        1
    } else {
        10 * ten_to((digits - 1) as nat)
    }
}

/// How a sign is shown in front of a figure.
#[derive(Clone, Copy, Debug, PartialEq, Eq, Structural)]
pub enum Sign {
    /// Only a minus, in front of a negative figure.
    WhenNegative,
    /// A plus or a minus in front of every figure.
    Always,
}

/// A figure given in millionths, shown with `dp` decimal places.
///
/// The sign is the figure's own, so a small negative one that rounds to nothing
/// still shows that it was negative.
pub open spec fn fixed(micro: int, dp: nat, sign: Sign) -> Seq<char> {
    let magnitude = if micro < 0 { (-micro) as nat } else { micro as nat };
    let units = nearest(magnitude, ten_to((6 - dp) as nat));
    let lead: Seq<char> = if micro < 0 {
        seq!['-']
    } else if sign == Sign::Always {
        seq!['+']
    } else {
        Seq::empty()
    };
    let whole = lead + decimal(units / ten_to(dp));
    if dp == 0 {
        whole
    } else {
        whole.push('.') + zero_padded(units % ten_to(dp), dp)
    }
}

pub proof fn lemma_ten_to()
    ensures
        ten_to(0) == 1,
        ten_to(1) == 10,
        ten_to(2) == 100,
        ten_to(3) == 1_000,
        ten_to(4) == 10_000,
        ten_to(5) == 100_000,
        ten_to(6) == 1_000_000,
{
    reveal_with_fuel(ten_to, 8);
}

/// Divide to the nearest whole number, a tie going to the even one.
pub fn divide_half_even(n: u128, unit: u128) -> (q: u128)
    requires
        0 < unit <= 0x8000_0000_0000_0000_0000_0000_0000_0000,
    ensures
        q == nearest(n as nat, unit as nat),
{
    let whole: u128 = n / unit;
    let rest: u128 = n % unit;
    if 2 * rest < unit || (2 * rest == unit && whole % 2 == 0) {
        whole
    } else {
        assert(whole < 0xffff_ffff_ffff_ffff_ffff_ffff_ffff_ffff) by (nonlinear_arith)
            requires
                whole == n / unit,
                rest == n % unit,
                unit > 0,
                2 * rest >= unit,
                n <= 0xffff_ffff_ffff_ffff_ffff_ffff_ffff_ffff,
        {
            assert(n == unit * whole + rest);
        }
        whole + 1
    }
}

/// A figure in millionths onto the end of a text.
pub fn push_fixed(out: &mut String, micro: i128, dp: u32, sign: Sign)
    requires
        dp <= 6,
        -0x7fff_ffff_ffff_ffff_ffff_ffff_ffff_ffff <= micro,
    ensures
        final(out)@ == old(out)@ + fixed(micro as int, dp as nat, sign),
{
    proof {
        lemma_ten_to();
    }
    let (scale, unit): (u128, u128) = if dp == 0 {
        (1, 1_000_000)
    } else if dp == 1 {
        (10, 100_000)
    } else if dp == 2 {
        (100, 10_000)
    } else if dp == 3 {
        (1_000, 1_000)
    } else if dp == 4 {
        (10_000, 100)
    } else if dp == 5 {
        (100_000, 10)
    } else {
        (1_000_000, 1)
    };
    let ghost lead: Seq<char> = if micro < 0 {
        seq!['-']
    } else if sign == Sign::Always {
        seq!['+']
    } else {
        Seq::empty()
    };
    if micro < 0 {
        out.push('-');
    } else if sign == Sign::Always {
        out.push('+');
    }
    assert(out@ =~= old(out)@ + lead);
    let magnitude: u128 = if micro < 0 {
        (-micro) as u128
    } else {
        micro as u128
    };
    let units: u128 = divide_half_even(magnitude, unit);
    push_decimal(out, units / scale);
    if dp > 0 {
        out.push('.');
        push_zero_padded(out, units % scale, dp);
    }
    assert(out@ =~= old(out)@ + fixed(micro as int, dp as nat, sign));
}

// ── Padding ─────────────────────────────────────────────────────────────────

/// So many spaces.
pub open spec fn spaces(n: nat) -> Seq<char> {
    Seq::new(n, |i: int| ' ')
}

/// How many characters are missing up to a width.
pub open spec fn missing(len: nat, width: nat) -> nat {
    if len < width {
        (width - len) as nat
    } else {
        0
    }
}

/// A text filled up with spaces behind it.
pub open spec fn left_aligned(s: Seq<char>, width: nat) -> Seq<char> {
    s + spaces(missing(s.len(), width))
}

/// A text filled up with spaces in front of it.
pub open spec fn right_aligned(s: Seq<char>, width: nat) -> Seq<char> {
    spaces(missing(s.len(), width)) + s
}

/// So many spaces onto the end of a text.
pub fn push_spaces(out: &mut String, n: usize)
    ensures
        final(out)@ == old(out)@ + spaces(n as nat),
    decreases n,
{
    if n > 0 {
        push_spaces(out, n - 1);
        out.push(' ');
    }
    assert(out@ =~= old(out)@ + spaces(n as nat));
}

/// A text onto the end of another, filled up with spaces behind it.
pub fn push_left_aligned(out: &mut String, s: &str, width: usize)
    ensures
        final(out)@ == old(out)@ + left_aligned(s@, width as nat),
{
    let len: usize = s.unicode_len();
    out.append(s);
    if len < width {
        push_spaces(out, width - len);
    }
    assert(out@ =~= old(out)@ + left_aligned(s@, width as nat));
}

/// A text onto the end of another, filled up with spaces in front of it.
pub fn push_right_aligned(out: &mut String, s: &str, width: usize)
    ensures
        final(out)@ == old(out)@ + right_aligned(s@, width as nat),
{
    let len: usize = s.unicode_len();
    if len < width {
        push_spaces(out, width - len);
    }
    out.append(s);
    assert(out@ =~= old(out)@ + right_aligned(s@, width as nat));
}

// ── Reading what somebody typed ─────────────────────────────────────────────

/// The characters the Unicode standard calls white space.
pub open spec fn is_white(c: char) -> bool {
    let n = c as u32;
    ||| 0x09 <= n <= 0x0d
    ||| n == 0x20
    ||| n == 0x85
    ||| n == 0xa0
    ||| n == 0x1680
    ||| 0x2000 <= n <= 0x200a
    ||| n == 0x2028
    ||| n == 0x2029
    ||| n == 0x202f
    ||| n == 0x205f
    ||| n == 0x3000
}

/// Whether one character is white space.
pub fn is_white_char(c: char) -> (r: bool)
    ensures
        r == is_white(c),
{
    let n: u32 = c as u32;
    (0x09 <= n && n <= 0x0d) || n == 0x20 || n == 0x85 || n == 0xa0 || n == 0x1680 || (0x2000 <= n
        && n <= 0x200a) || n == 0x2028 || n == 0x2029 || n == 0x202f || n == 0x205f || n == 0x3000
}

/// A text without the white space in front of it.
pub open spec fn trimmed_front(s: Seq<char>) -> Seq<char>
    decreases s.len(),
{
    if s.len() > 0 && is_white(s[0]) {
        trimmed_front(s.drop_first())
    } else {
        s
    }
}

/// A text without the white space behind it.
pub open spec fn trimmed_back(s: Seq<char>) -> Seq<char>
    decreases s.len(),
{
    if s.len() > 0 && is_white(s.last()) {
        trimmed_back(s.drop_last())
    } else {
        s
    }
}

/// A text without the white space around it.
pub open spec fn trimmed(s: Seq<char>) -> Seq<char> {
    trimmed_back(trimmed_front(s))
}

/// A text without the white space around it.
pub fn trim(s: &str) -> (r: &str)
    ensures
        r@ == trimmed(s@),
{
    let n: usize = s.unicode_len();
    let mut from: usize = 0;
    assert(s@.skip(0) =~= s@);
    while from < n && is_white_char(s.get_char(from))
        invariant
            n == s@.len(),
            from <= n,
            trimmed_front(s@) == trimmed_front(s@.skip(from as int)),
        decreases n - from,
    {
        assert(s@.skip(from as int).drop_first() =~= s@.skip(from + 1));
        from = from + 1;
    }
    let ghost front = s@.skip(from as int);
    assert(trimmed_front(s@) == front);
    let mut to: usize = n;
    assert(s@.subrange(from as int, n as int) =~= front);
    while to > from && is_white_char(s.get_char(to - 1))
        invariant
            n == s@.len(),
            from <= to <= n,
            trimmed_back(front) == trimmed_back(s@.subrange(from as int, to as int)),
        decreases to - from,
    {
        assert(s@.subrange(from as int, to as int).drop_last() =~= s@.subrange(
            from as int,
            to - 1,
        ));
        to = to - 1;
    }
    s.substring_char(from, to)
}

/// Whether a character is a decimal digit.
pub open spec fn is_digit(c: char) -> bool {
    '0' <= c <= '9'
}

/// The number a row of digits means.
pub open spec fn value_of(s: Seq<char>) -> nat
    decreases s.len(),
{
    if s.len() == 0 {
        0
    } else {
        10 * value_of(s.drop_last()) + ((s.last() as u32) - 48) as nat
    }
}

/// Whether a text is digits and nothing else.
pub open spec fn all_digits(s: Seq<char>) -> bool {
    forall|i: int| 0 <= i < s.len() ==> is_digit(#[trigger] s[i])
}

/// A text without a plus in front of it.
pub open spec fn without_plus(s: Seq<char>) -> Seq<char> {
    if s.len() > 0 && s[0] == '+' {
        s.drop_first()
    } else {
        s
    }
}

/// What a text means as a 32-bit whole number: digits, a plus in front of them
/// at most, and no more than fits.
pub open spec fn read_u32(s: Seq<char>) -> Option<u32> {
    let digits = without_plus(s);
    if digits.len() > 0 && all_digits(digits) && value_of(digits) <= u32::MAX {
        Some(value_of(digits) as u32)
    } else {
        None
    }
}

proof fn lemma_value_grows(s: Seq<char>, k: int)
    requires
        0 <= k <= s.len(),
        all_digits(s),
    ensures
        value_of(s.take(k)) <= value_of(s),
    decreases s.len() - k,
{
    if k < s.len() {
        lemma_value_grows(s, k + 1);
        assert(s.take(k + 1).drop_last() =~= s.take(k));
        assert(is_digit(s[k]));
    } else {
        assert(s.take(k) =~= s);
    }
}

/// Read a 32-bit whole number.
pub fn parse_u32(s: &str) -> (r: Option<u32>)
    ensures
        r == read_u32(s@),
{
    let n: usize = s.unicode_len();
    let start: usize = if n > 0 && s.get_char(0) == '+' {
        1
    } else {
        0
    };
    let ghost digits = s@.skip(start as int);
    assert(start == 1 ==> s@.drop_first() =~= digits);
    assert(start == 0 ==> digits =~= s@);
    if start == n {
        return None;
    }
    let mut value: u64 = 0;
    let mut i: usize = start;
    assert(digits.take(0) =~= Seq::<char>::empty());
    while i < n
        invariant
            n == s@.len(),
            start <= i <= n,
            digits == s@.skip(start as int),
            forall|j: int| 0 <= j < i - start ==> is_digit(#[trigger] digits[j]),
            value == value_of(digits.take(i - start)),
            value <= u32::MAX,
            digits == without_plus(s@),
        decreases n - i,
    {
        let c: char = s.get_char(i);
        assert(c == digits[i - start]);
        if !('0' <= c && c <= '9') {
            assert(!is_digit(digits[i - start]));
            assert(!all_digits(digits));
            return None;
        }
        let d: u64 = (c as u32 - 48) as u64;
        assert(digits.take(i + 1 - start).drop_last() =~= digits.take(i - start));
        value = value * 10 + d;
        if value > 0xffff_ffff {
            proof {
                if all_digits(digits) {
                    lemma_value_grows(digits, i + 1 - start);
                }
            }
            return None;
        }
        i = i + 1;
    }
    assert(digits.take(n - start) =~= digits);
    Some(value as u32)
}

/// A text split at the first of one character, where it holds one.
pub open spec fn split_at_first(s: Seq<char>, c: char) -> Option<(Seq<char>, Seq<char>)> {
    if s.contains(c) {
        let i = s.index_of_first(c).unwrap();
        Some((s.take(i), s.skip(i + 1)))
    } else {
        None
    }
}

/// Split a text at the first of one character.
pub fn split_once<'a>(s: &'a str, c: char) -> (r: Option<(&'a str, &'a str)>)
    ensures
        match r {
            Some((a, b)) => split_at_first(s@, c) == Some((a@, b@)),
            None => split_at_first(s@, c) is None,
        },
{
    let n: usize = s.unicode_len();
    let mut i: usize = 0;
    while i < n
        invariant
            n == s@.len(),
            i <= n,
            forall|j: int| 0 <= j < i ==> s@[j] != c,
        decreases n - i,
    {
        if s.get_char(i) == c {
            proof {
                s@.index_of_first_ensures(c);
                assert(s@.contains(c));
                assert(s@.index_of_first(c) == Some(i as int));
                assert(s@.subrange(0, i as int) =~= s@.take(i as int));
                assert(s@.subrange(i + 1, n as int) =~= s@.skip(i + 1));
            }
            return Some((s.substring_char(0, i), s.substring_char(i + 1, n)));
        }
        i = i + 1;
    }
    None
}

/// Whether two texts are the same.
pub fn same(a: &str, b: &str) -> (r: bool)
    ensures
        r == (a@ == b@),
{
    let n: usize = a.unicode_len();
    if n != b.unicode_len() {
        return false;
    }
    let mut i: usize = 0;
    while i < n
        invariant
            n == a@.len(),
            n == b@.len(),
            i <= n,
            forall|j: int| 0 <= j < i ==> a@[j] == b@[j],
        decreases n - i,
    {
        if a.get_char(i) != b.get_char(i) {
            return false;
        }
        i = i + 1;
    }
    assert(a@ =~= b@);
    true
}

/// A text without any number of one character behind it.
pub open spec fn without_trailing(s: Seq<char>, c: char) -> Seq<char>
    decreases s.len(),
{
    if s.len() > 0 && s.last() == c {
        without_trailing(s.drop_last(), c)
    } else {
        s
    }
}

/// A text without any number of one character behind it.
pub fn trim_end_matches<'a>(s: &'a str, c: char) -> (r: &'a str)
    ensures
        r@ == without_trailing(s@, c),
{
    let n: usize = s.unicode_len();
    let mut to: usize = n;
    assert(s@.subrange(0, n as int) =~= s@);
    while to > 0 && s.get_char(to - 1) == c
        invariant
            n == s@.len(),
            to <= n,
            without_trailing(s@, c) == without_trailing(s@.subrange(0, to as int), c),
        decreases to,
    {
        assert(s@.subrange(0, to as int).drop_last() =~= s@.subrange(0, to - 1));
        to = to - 1;
    }
    s.substring_char(0, to)
}

/// Whether a text begins with another.
pub open spec fn begins_with(s: Seq<char>, lead: Seq<char>) -> bool {
    lead.len() <= s.len() && s.take(lead.len() as int) == lead
}

/// Whether a text begins with another.
pub fn starts_with(s: &str, lead: &str) -> (r: bool)
    ensures
        r == begins_with(s@, lead@),
{
    let n: usize = s.unicode_len();
    let k: usize = lead.unicode_len();
    if k > n {
        return false;
    }
    assert(s@.subrange(0, k as int) =~= s@.take(k as int));
    same(s.substring_char(0, k), lead)
}

// ── Showing what somebody sent ──────────────────────────────────────────────

/// Bytes read as text, whatever is not text replaced.
pub uninterp spec fn lossy_text(bytes: Seq<u8>) -> Seq<char>;

/// `String::from_utf8_lossy`: the bytes as text, with a replacement character for
/// what is not. Named: the text depends on the bytes alone.
#[verifier::external_body]
pub(crate) fn lossy(bytes: &[u8]) -> (text: String)
    ensures
        text@ == lossy_text(bytes@),
{
    String::from_utf8_lossy(bytes).into_owned()
}

/// A text in quotes, with what cannot be printed escaped.
pub uninterp spec fn quoted_text(text: Seq<char>) -> Seq<char>;

/// The `Debug` form of a text: in quotes, with what cannot be printed escaped.
/// Named: it depends on the text alone.
#[verifier::external_body]
pub(crate) fn quoted(text: &str) -> (out: String)
    ensures
        out@ == quoted_text(text@),
{
    format!("{text:?}")
}

// ── Figures as somebody typed them ──────────────────────────────────────────

/// A figure in millionths with as many decimal places as it needs and no more.
pub open spec fn plain(micro: int) -> Seq<char> {
    let magnitude = if micro < 0 {
        (-micro) as nat
    } else {
        micro as nat
    };
    let whole = if micro < 0 {
        seq!['-'] + decimal(magnitude / 1_000_000)
    } else {
        decimal(magnitude / 1_000_000)
    };
    if magnitude % 1_000_000 == 0 {
        whole
    } else {
        whole.push('.') + without_trailing(zero_padded(magnitude % 1_000_000, 6), '0')
    }
}

/// A figure in millionths onto the end of a text, with as many decimal places as
/// it needs.
pub fn push_plain(out: &mut String, micro: i64)
    ensures
        final(out)@ == old(out)@ + plain(micro as int),
{
    let magnitude: u128 = if micro < 0 {
        out.push('-');
        (-(micro as i128)) as u128
    } else {
        micro as u128
    };
    push_decimal(out, magnitude / 1_000_000);
    let rest: u128 = magnitude % 1_000_000;
    if rest != 0 {
        out.push('.');
        let mut places = String::new();
        push_zero_padded(&mut places, rest, 6);
        assert(places@ =~= zero_padded(rest as nat, 6));
        out.append(trim_end_matches(places.as_str(), '0'));
    }
    assert(out@ =~= old(out)@ + plain(micro as int));
}

// ── What holds of texts and figures ─────────────────────────────────────────

/// Rounding moves a figure by at most half a unit, and a tie goes to the even one. A
/// whole number of units is not moved at all.
pub proof fn rounding_moves_by_at_most_half_a_unit(n: nat, unit: nat)
    requires
        unit > 0,
    ensures
        -(unit as int) <= 2 * (n - nearest(n, unit) * unit) <= unit,
        2 * (n - nearest(n, unit) * unit) == unit || 2 * (nearest(n, unit) * unit - n) == unit
            ==> nearest(n, unit) % 2 == 0,
        n % unit == 0 ==> nearest(n, unit) * unit == n,
        n == 0 ==> nearest(n, unit) == 0,
{
    let whole = n / unit;
    let rest = n % unit;
    assert(n == whole * unit + rest && 0 <= rest < unit) by (nonlinear_arith)
        requires
            unit > 0,
            whole == n / unit,
            rest == n % unit,
    ;
    assert((whole + 1) * unit == whole * unit + unit) by (nonlinear_arith);
}

/// A larger figure never rounds to fewer units.
pub proof fn rounding_keeps_the_order(a: nat, b: nat, unit: nat)
    requires
        unit > 0,
        a <= b,
    ensures
        nearest(a, unit) <= nearest(b, unit),
{
    rounding_moves_by_at_most_half_a_unit(a, unit);
    rounding_moves_by_at_most_half_a_unit(b, unit);
    let x = nearest(a, unit);
    let y = nearest(b, unit);
    if x > y {
        assert(x * unit >= y * unit + unit) by (nonlinear_arith)
            requires
                x >= y + 1,
                unit > 0,
        ;
        assert(2 * (a - x * unit) == -(unit as int));
        assert(2 * (b - y * unit) == unit);
        assert(x == y + 1) by (nonlinear_arith)
            requires
                x * unit == y * unit + unit,
                unit > 0,
        ;
    }
}

proof fn lemma_pushed_digit(s: Seq<char>, n: nat)
    requires
        n < 10,
    ensures
        value_of(s.push(digit(n))) == 10 * value_of(s) + n,
        is_digit(digit(n)),
{
    assert(s.push(digit(n)).drop_last() =~= s);
    assert(digit(n) as u32 == 48 + n);
}

/// A whole number reads back as itself: it is written in digits alone, at least one and
/// none of them a needless zero in front.
pub proof fn a_number_reads_back_as_itself(n: nat)
    ensures
        decimal(n).len() > 0,
        all_digits(decimal(n)),
        value_of(decimal(n)) == n,
        n > 0 ==> decimal(n)[0] != '0',
        n <= u32::MAX ==> read_u32(decimal(n)) == Some(n as u32),
    decreases n,
{
    if n < 10 {
        lemma_pushed_digit(Seq::empty(), n);
        assert(decimal(n) =~= Seq::<char>::empty().push(digit(n)));
        assert(digit(n) as u32 == 48 + n);
    } else {
        a_number_reads_back_as_itself(n / 10);
        lemma_pushed_digit(decimal(n / 10), n % 10);
        let s = decimal(n / 10).push(digit(n % 10));
        assert forall|i: int| 0 <= i < s.len() implies is_digit(#[trigger] s[i]) by {
            if i < s.len() - 1 {
                assert(s[i] == decimal(n / 10)[i]);
            }
        }
        assert(s[0] == decimal(n / 10)[0]);
    }
    assert(is_digit(decimal(n)[0]));
    assert(without_plus(decimal(n)) == decimal(n));
}

/// A number behind a plus is the same number, and a minus marks every negative one and
/// no other.
pub proof fn a_sign_stands_in_front(n: int)
    ensures
        n >= 0 ==> signed(n) == decimal(n as nat),
        n < 0 ==> signed(n) == seq!['-'] + decimal((-n) as nat),
        signed(n)[0] == '-' <==> n < 0,
        0 <= n <= u32::MAX ==> read_u32(seq!['+'] + decimal(n as nat)) == Some(n as u32),
{
    if n >= 0 {
        a_number_reads_back_as_itself(n as nat);
        assert(is_digit(decimal(n as nat)[0]));
        let s = seq!['+'] + decimal(n as nat);
        assert(s.drop_first() =~= decimal(n as nat));
    }
}

/// A text of digits in a given width has that width and reads back as the number, where
/// the number fits into it.
pub proof fn padding_changes_no_number(n: nat, width: nat)
    ensures
        zero_padded(n, width).len() == width,
        all_digits(zero_padded(n, width)),
        n < ten_to(width) ==> value_of(zero_padded(n, width)) == n,
        value_of(zero_padded_at_least(n, width)) == n,
        zero_padded_at_least(n, width).len() >= width,
    decreases width,
{
    if width > 0 {
        let w = (width - 1) as nat;
        padding_changes_no_number(n / 10, w);
        lemma_pushed_digit(zero_padded(n / 10, w), n % 10);
        let s = zero_padded(n, width);
        assert forall|i: int| 0 <= i < s.len() implies is_digit(#[trigger] s[i]) by {
            if i < s.len() - 1 {
                assert(s[i] == zero_padded(n / 10, w)[i]);
            }
        }
        assert(ten_to(width) == 10 * ten_to(w));
        if n < ten_to(width) {
            assert(n / 10 < ten_to(w));
        }
    }
    a_number_reads_back_as_itself(n);
    if n >= ten_to(width) {
        lemma_long_enough(n, width);
    }
}

proof fn lemma_long_enough(n: nat, width: nat)
    requires
        n >= ten_to(width),
    ensures
        decimal(n).len() > width,
    decreases width,
{
    if width > 0 {
        assert(n / 10 >= ten_to((width - 1) as nat));
        lemma_positive_power((width - 1) as nat);
        lemma_long_enough(n / 10, (width - 1) as nat);
    }
}

proof fn lemma_positive_power(n: nat)
    ensures
        ten_to(n) > 0,
    decreases n,
{
    if n > 0 {
        lemma_positive_power((n - 1) as nat);
    }
}

/// A figure with so many decimal places: the places stand behind one point, there are
/// exactly so many, and what is shown is the figure to the nearest unit in the last of
/// them. A minus stands in front of a negative figure, and a plus in front of another
/// where every figure has a sign.
pub proof fn a_figure_is_shown_to_the_nearest_place(micro: int, dp: nat, sign: Sign)
    requires
        0 < dp <= 6,
    ensures
        ({
            let magnitude = if micro < 0 {
                -micro
            } else {
                micro
            };
            let unit = ten_to((6 - dp) as nat);
            let lead: nat = if micro < 0 || sign == Sign::Always {
                1
            } else {
                0
            };
            let s = fixed(micro, dp, sign);
            let point = s.len() - dp - 1;
            let shown = value_of(s.subrange(lead as int, point)) * ten_to(dp) + value_of(
                s.skip(point + 1),
            );
            &&& point > lead
            &&& s[point] == '.'
            &&& all_digits(s.subrange(lead as int, point))
            &&& all_digits(s.skip(point + 1))
            &&& -(unit as int) <= 2 * (magnitude - shown * unit) <= unit
            &&& micro < 0 ==> s[0] == '-'
            &&& micro >= 0 && sign == Sign::Always ==> s[0] == '+'
        }),
{
    let magnitude: nat = if micro < 0 {
        (-micro) as nat
    } else {
        micro as nat
    };
    lemma_positive_power((6 - dp) as nat);
    lemma_positive_power(dp);
    let unit = ten_to((6 - dp) as nat);
    let units = nearest(magnitude, unit);
    rounding_moves_by_at_most_half_a_unit(magnitude, unit);
    let lead: Seq<char> = if micro < 0 {
        seq!['-']
    } else if sign == Sign::Always {
        seq!['+']
    } else {
        Seq::empty()
    };
    let ten = ten_to(dp);
    let whole = decimal(units / ten);
    let places = zero_padded(units % ten, dp);
    a_number_reads_back_as_itself(units / ten);
    assert(units % ten < ten);
    padding_changes_no_number(units % ten, dp);
    let s = fixed(micro, dp, sign);
    let point = s.len() - dp - 1;
    assert(s.subrange(lead.len() as int, point) =~= whole);
    assert(s.skip(point + 1) =~= places);
    assert((units / ten) * ten + units % ten == units) by (nonlinear_arith)
        requires
            ten > 0,
    ;
}

/// A figure without decimal places is the nearest whole number.
pub proof fn a_figure_without_places_is_a_whole_number(micro: int, sign: Sign)
    ensures
        ({
            let magnitude = if micro < 0 {
                -micro
            } else {
                micro
            };
            let lead: int = if micro < 0 || sign == Sign::Always {
                1
            } else {
                0
            };
            let shown = value_of(fixed(micro, 0, sign).skip(lead));
            &&& all_digits(fixed(micro, 0, sign).skip(lead))
            &&& -1_000_000 <= 2 * (magnitude - shown * 1_000_000) <= 1_000_000
            &&& micro < 0 ==> fixed(micro, 0, sign)[0] == '-'
            &&& micro >= 0 && sign == Sign::Always ==> fixed(micro, 0, sign)[0] == '+'
        }),
{
    lemma_ten_to();
    let magnitude: nat = if micro < 0 {
        (-micro) as nat
    } else {
        micro as nat
    };
    let lead: Seq<char> = if micro < 0 {
        seq!['-']
    } else if sign == Sign::Always {
        seq!['+']
    } else {
        Seq::empty()
    };
    let units = nearest(magnitude, 1_000_000);
    rounding_moves_by_at_most_half_a_unit(magnitude, 1_000_000);
    a_number_reads_back_as_itself(units);
    assert(units / 1 == units);
    assert(fixed(micro, 0, sign).skip(lead.len() as int) =~= decimal(units));
}

/// Alignment fills a text up to a width and changes nothing about it: it stands at its
/// own end, and the rest is spaces.
pub proof fn alignment_only_adds_spaces(s: Seq<char>, width: nat)
    ensures
        left_aligned(s, width).len() == if s.len() < width {
            width
        } else {
            s.len()
        },
        right_aligned(s, width).len() == left_aligned(s, width).len(),
        left_aligned(s, width).take(s.len() as int) == s,
        right_aligned(s, width).skip(right_aligned(s, width).len() - s.len()) == s,
        forall|i: int|
            s.len() <= i < left_aligned(s, width).len() ==> #[trigger] left_aligned(s, width)[i]
                == ' ',
        forall|i: int|
            0 <= i < right_aligned(s, width).len() - s.len() ==> #[trigger] right_aligned(
                s,
                width,
            )[i] == ' ',
{
    assert(left_aligned(s, width).take(s.len() as int) =~= s);
    assert(right_aligned(s, width).skip(right_aligned(s, width).len() - s.len()) =~= s);
}

/// Trimming takes white space from both ends and nothing else: what is left is a
/// stretch of the text, everything around it is white, and neither of its ends is.
pub proof fn trimming_takes_only_what_is_white(s: Seq<char>) -> (r: (int, int))
    ensures
        0 <= r.0 <= r.1 <= s.len(),
        trimmed(s) == s.subrange(r.0, r.1),
        forall|i: int| 0 <= i < r.0 ==> is_white(#[trigger] s[i]),
        forall|i: int| r.1 <= i < s.len() ==> is_white(#[trigger] s[i]),
        trimmed(s).len() > 0 ==> !is_white(trimmed(s)[0]) && !is_white(trimmed(s).last()),
{
    let from = lemma_trimmed_front(s);
    let front = trimmed_front(s);
    let to = lemma_trimmed_back(front);
    assert(trimmed(s) =~= s.subrange(from, from + to));
    assert forall|i: int| from + to <= i < s.len() implies is_white(#[trigger] s[i]) by {
        assert(front[i - from] == s[i]);
    }
    (from, from + to)
}

proof fn lemma_trimmed_front(s: Seq<char>) -> (from: int)
    ensures
        0 <= from <= s.len(),
        trimmed_front(s) == s.skip(from),
        forall|i: int| 0 <= i < from ==> is_white(#[trigger] s[i]),
        from < s.len() ==> !is_white(s[from]),
    decreases s.len(),
{
    if s.len() > 0 && is_white(s[0]) {
        let rest = s.drop_first();
        let f = lemma_trimmed_front(rest);
        assert(rest.skip(f) =~= s.skip(f + 1));
        assert forall|i: int| 0 <= i < f + 1 implies is_white(#[trigger] s[i]) by {
            if i > 0 {
                assert(rest[i - 1] == s[i]);
            }
        }
        f + 1
    } else {
        assert(s.skip(0) =~= s);
        0
    }
}

proof fn lemma_trimmed_back(s: Seq<char>) -> (to: int)
    ensures
        0 <= to <= s.len(),
        trimmed_back(s) == s.take(to),
        forall|i: int| to <= i < s.len() ==> is_white(#[trigger] s[i]),
        to > 0 ==> !is_white(s[to - 1]),
    decreases s.len(),
{
    if s.len() > 0 && is_white(s.last()) {
        let rest = s.drop_last();
        let t = lemma_trimmed_back(rest);
        assert(rest.take(t) =~= s.take(t));
        assert forall|i: int| t <= i < s.len() implies is_white(#[trigger] s[i]) by {
            if i < s.len() - 1 {
                assert(rest[i] == s[i]);
            }
        }
        t
    } else {
        assert(s.take(s.len() as int) =~= s);
        s.len() as int
    }
}

/// Splitting loses nothing: the two parts with the character between them are the text,
/// the first part does not hold the character, and a text that holds it is split.
pub proof fn splitting_loses_nothing(s: Seq<char>, c: char)
    ensures
        split_at_first(s, c) is Some <==> s.contains(c),
        split_at_first(s, c) matches Some((a, b)) ==> s == a.push(c) + b && !a.contains(c),
{
    if s.contains(c) {
        s.index_of_first_ensures(c);
        let i = s.index_of_first(c).unwrap();
        assert(s =~= s.take(i).push(c) + s.skip(i + 1));
        if s.take(i).contains(c) {
            let j = choose|j: int| 0 <= j < i && s.take(i)[j] == c;
            assert(s[j] == c);
        }
    }
}

/// What is taken from the end of a text is one character over and over, and what is left
/// does not end with it.
pub proof fn only_the_trailing_character_goes(s: Seq<char>, c: char)
    ensures
        without_trailing(s, c).len() <= s.len(),
        without_trailing(s, c) == s.take(without_trailing(s, c).len() as int),
        forall|i: int| without_trailing(s, c).len() <= i < s.len() ==> #[trigger] s[i] == c,
        without_trailing(s, c).len() > 0 ==> without_trailing(s, c).last() != c,
    decreases s.len(),
{
    if s.len() > 0 && s.last() == c {
        let rest = s.drop_last();
        only_the_trailing_character_goes(rest, c);
        let n = without_trailing(s, c).len() as int;
        assert(rest.take(n) =~= s.take(n));
        assert forall|i: int| n <= i < s.len() implies #[trigger] s[i] == c by {
            if i < s.len() - 1 {
                assert(rest[i] == s[i]);
            }
        }
    } else {
        assert(s.take(s.len() as int) =~= s);
    }
}

/// A text begins with another where it is that one and something behind it.
pub proof fn a_beginning_has_something_behind_it(lead: Seq<char>, tail: Seq<char>, s: Seq<char>)
    ensures
        begins_with(lead + tail, lead),
        begins_with(s, lead) ==> s == lead + s.skip(lead.len() as int),
{
    assert((lead + tail).take(lead.len() as int) =~= lead);
    if begins_with(s, lead) {
        assert(s =~= lead + s.skip(lead.len() as int));
    }
}

/// A figure as somebody typed it is all of the figure: its whole part, and its millionths
/// with only needless zeros left out.
pub proof fn a_typed_figure_loses_nothing(micro: int)
    requires
        micro >= 0,
    ensures
        micro % 1_000_000 == 0 ==> plain(micro) == decimal((micro / 1_000_000) as nat),
        micro % 1_000_000 != 0 ==> {
            let whole = decimal((micro / 1_000_000) as nat);
            let places = plain(micro).skip(whole.len() as int + 1);
            let zeros = Seq::new((6 - places.len()) as nat, |i: int| '0');
            &&& plain(micro).take(whole.len() as int) == whole
            &&& plain(micro)[whole.len() as int] == '.'
            &&& 0 < places.len() <= 6
            &&& places.last() != '0'
            &&& value_of(places + zeros) == micro % 1_000_000
        },
        plain(-micro) == if micro == 0 {
            plain(micro)
        } else {
            seq!['-'] + plain(micro)
        },
{
    let rest = (micro % 1_000_000) as nat;
    let whole = decimal((micro / 1_000_000) as nat);
    if rest != 0 {
        lemma_ten_to();
        let six = zero_padded(rest, 6);
        padding_changes_no_number(rest, 6);
        let places = without_trailing(six, '0');
        only_the_trailing_character_goes(six, '0');
        let zeros = Seq::new((6 - places.len()) as nat, |i: int| '0');
        assert(places + zeros =~= six);
        if places.len() == 0 {
            lemma_zeros(six);
        }
        assert(plain(micro).skip(whole.len() as int + 1) =~= places);
        assert(plain(micro).take(whole.len() as int) =~= whole);
    }
    assert(plain(-micro) =~= if micro == 0 {
        plain(micro)
    } else {
        seq!['-'] + plain(micro)
    });
}

proof fn lemma_zeros(s: Seq<char>)
    requires
        forall|i: int| 0 <= i < s.len() ==> #[trigger] s[i] == '0',
    ensures
        value_of(s) == 0,
    decreases s.len(),
{
    if s.len() > 0 {
        lemma_zeros(s.drop_last());
    }
}

} // verus!

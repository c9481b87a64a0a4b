//! The box's two outbound questions: what does electricity cost, and what will
//! the sky do.
//!
//! Neither answer is a trust anchor. A price that cannot be read is absent rather
//! than nothing to pay, and a box that cannot reach either service loses its plan
//! and nothing else.

use std::collections::BTreeMap;

use vstd::prelude::*;

use crate::clock::{rfc3339, Horizon, Instant, Slot};
use crate::config::FleetSettings;
use crate::text::{lossy, push_decimal, quoted, trim_end_matches};

verus! {

broadcast use vstd::std_specs::btree::group_btree_axioms;

// ── What is asked ───────────────────────────────────────────────────────────

/// The characters an address carries as they are.
pub open spec fn is_unreserved(b: u8) -> bool {
    ||| 0x41 <= b <= 0x5a
    ||| 0x61 <= b <= 0x7a
    ||| 0x30 <= b <= 0x39
    ||| b == 0x2d
    ||| b == 0x5f
    ||| b == 0x2e
    ||| b == 0x7e
}

/// One hexadecimal digit, in capitals.
pub open spec fn hex_digit(n: int) -> char {
    if n < 10 {
        ((48 + n) as u8) as char
    } else {
        ((55 + n) as u8) as char
    }
}

/// What one byte becomes: itself, or a percent sign and its two digits.
pub open spec fn encoded_byte(b: u8) -> Seq<char> {
    if is_unreserved(b) {
        seq![b as char]
    } else {
        seq!['%', hex_digit(b as int / 16), hex_digit(b as int % 16)]
    }
}

/// What a run of bytes becomes.
pub open spec fn encoded(bytes: Seq<u8>) -> Seq<char>
    decreases bytes.len(),
{
    if bytes.len() == 0 {
        Seq::empty()
    } else {
        encoded_byte(bytes[0]) + encoded(bytes.drop_first())
    }
}

/// What one hexadecimal digit is worth.
pub open spec fn hex_value(c: char) -> int {
    if c <= '9' {
        c as int - 48
    } else {
        c as int - 55
    }
}

/// The bytes a receiver reads back.
pub open spec fn decoded(s: Seq<char>) -> Seq<u8>
    decreases s.len(),
{
    if s.len() == 0 {
        Seq::empty()
    } else if s[0] == '%' && s.len() >= 3 {
        seq![(16 * hex_value(s[1]) + hex_value(s[2])) as u8] + decoded(s.skip(3))
    } else {
        seq![s[0] as u8] + decoded(s.skip(1))
    }
}

/// What is sent can be read back: the receiver gets the very bytes.
pub proof fn what_is_encoded_can_be_read_back(bytes: Seq<u8>)
    ensures
        decoded(encoded(bytes)) == bytes,
    decreases bytes.len(),
{
    if bytes.len() > 0 {
        let b = bytes[0];
        let head = encoded_byte(b);
        let tail = encoded(bytes.drop_first());
        let all = encoded(bytes);
        what_is_encoded_can_be_read_back(bytes.drop_first());
        assert(all == head + tail);
        if is_unreserved(b) {
            assert(all[0] == b as char);
            assert(all[0] != '%');
            assert(all.skip(1) =~= tail);
            assert((b as char) as u8 == b);
        } else {
            assert(all[0] == '%');
            assert(all.skip(3) =~= tail);
            assert(hex_value(hex_digit(b as int / 16)) == b as int / 16);
            assert(hex_value(hex_digit(b as int % 16)) == b as int % 16);
        }
        assert(seq![b] + bytes.drop_first() =~= bytes);
    }
}

/// Whether a character can stand in an address as it is.
pub open spec fn is_carried(c: char) -> bool {
    c == '%' || exists|b: u8| #[trigger] is_unreserved(b) && c == b as char
}

/// Nothing an address cannot carry is left in it.
pub proof fn an_address_carries_only_what_it_can(bytes: Seq<u8>, i: int)
    requires
        0 <= i < encoded(bytes).len(),
    ensures
        is_carried(encoded(bytes)[i]),
    decreases bytes.len(),
{
    let b = bytes[0];
    let head = encoded_byte(b);
    if i < head.len() {
        assert(encoded(bytes)[i] == head[i]);
        if is_unreserved(b) {
            assert(head[i] == b as char);
        } else if i > 0 {
            let n = if i == 1 {
                b as int / 16
            } else {
                b as int % 16
            };
            assert(head[i] == hex_digit(n));
            let d: u8 = (if n < 10 {
                48 + n
            } else {
                55 + n
            }) as u8;
            assert(is_unreserved(d));
            assert(hex_digit(n) == d as char);
        }
    } else {
        assert(encoded(bytes)[i] == encoded(bytes.drop_first())[i - head.len()]);
        an_address_carries_only_what_it_can(bytes.drop_first(), i - head.len());
    }
}

/// Two different names are never asked for under one address.
pub proof fn different_names_are_asked_for_differently(a: Seq<char>, b: Seq<char>)
    requires
        encoded(vstd::utf8::encode_utf8(a)) == encoded(vstd::utf8::encode_utf8(b)),
    ensures
        a == b,
{
    what_is_encoded_can_be_read_back(vstd::utf8::encode_utf8(a));
    what_is_encoded_can_be_read_back(vstd::utf8::encode_utf8(b));
    vstd::utf8::encode_utf8_decode_utf8(a);
    vstd::utf8::encode_utf8_decode_utf8(b);
}

fn push_hex(out: &mut String, n: u8)
    requires
        n < 16,
    ensures
        final(out)@ == old(out)@.push(hex_digit(n as int)),
{
    let c: char = if n < 10 {
        (48u8 + n) as char
    } else {
        (55u8 + n) as char
    };
    out.push(c);
}

/// Percent-encode the characters an address cannot carry literally.
pub fn urlencode(value: &str) -> (out: String)
    ensures
        out@ == encoded(vstd::utf8::encode_utf8(value@)),
{
    let bytes = value.as_bytes();
    let mut out = String::new();
    let mut i: usize = 0;
    assert(bytes@.skip(0) =~= bytes@);
    while i < bytes.len()
        invariant
            i <= bytes@.len(),
            bytes@ == vstd::utf8::encode_utf8(value@),
            out@ + encoded(bytes@.skip(i as int)) == encoded(bytes@),
        decreases bytes@.len() - i,
    {
        let b: u8 = bytes[i];
        let ghost before = out@;
        let ghost rest = bytes@.skip(i as int);
        assert(rest.drop_first() =~= bytes@.skip(i + 1));
        assert(rest[0] == b);
        if (0x41 <= b && b <= 0x5a) || (0x61 <= b && b <= 0x7a) || (0x30 <= b && b <= 0x39) || b
            == 0x2d || b == 0x5f || b == 0x2e || b == 0x7e {
            out.push(b as char);
        } else {
            out.push('%');
            push_hex(&mut out, b / 16);
            push_hex(&mut out, b % 16);
        }
        assert(out@ =~= before + encoded_byte(b));
        assert(out@ + encoded(bytes@.skip(i + 1)) =~= before + encoded(rest));
        i = i + 1;
    }
    assert(out@ + encoded(bytes@.skip(i as int)) =~= out@);
    out
}

/// The box's two questions, and where it asks them.
#[derive(Debug)]
pub struct Fleet {
    tariffd: Option<String>,
    forecastd: Option<String>,
    location: Option<String>,
    timeout_s: u64,
}

/// A text a setting may hold, as a value.
pub open spec fn told(s: Option<String>) -> Option<Seq<char>> {
    match s {
        Some(t) => Some(t@),
        None => None,
    }
}

fn copied(s: &Option<String>) -> (r: Option<String>)
    ensures
        told(r) == told(*s),
{
    match s {
        Some(t) => Some(t.clone()),
        None => None,
    }
}

impl Fleet {
    /// Where prices are asked for.
    pub closed spec fn tariffd(self) -> Option<Seq<char>> {
        told(self.tariffd)
    }

    /// Where the weather is asked for.
    pub closed spec fn forecastd(self) -> Option<Seq<char>> {
        told(self.forecastd)
    }

    /// Which sky is this household's.
    pub closed spec fn location(self) -> Option<Seq<char>> {
        told(self.location)
    }

    /// How long a question may take, seconds.
    pub closed spec fn patience(self) -> u64 {
        self.timeout_s
    }

    /// The questions of whatever is configured; each is optional. An answer is
    /// waited for at least a second.
    pub fn new(settings: &FleetSettings) -> (f: Self)
        ensures
            f.tariffd() == told(settings.tariffd_url),
            f.forecastd() == told(settings.forecastd_url),
            f.location() == told(settings.location),
            f.patience() == if settings.request_timeout_s < 1 {
                1
            } else {
                settings.request_timeout_s
            },
    {
        Fleet {
            tariffd: copied(&settings.tariffd_url),
            forecastd: copied(&settings.forecastd_url),
            location: copied(&settings.location),
            timeout_s: if settings.request_timeout_s < 1 {
                1
            } else {
                settings.request_timeout_s
            },
        }
    }

    /// How long a question may take, seconds.
    pub fn timeout_s(&self) -> (s: u64)
        ensures
            s == self.patience(),
    {
        self.timeout_s
    }

    /// Whether anything is configured at all.
    pub fn is_configured(&self) -> (r: bool)
        ensures
            r == (self.tariffd() is Some || self.forecastd() is Some),
    {
        self.tariffd.is_some() || self.forecastd.is_some()
    }

    /// Whether prices are available to be asked for.
    pub fn has_prices(&self) -> (r: bool)
        ensures
            r == (self.tariffd() is Some),
    {
        self.tariffd.is_some()
    }

    /// Whether the sky is.
    pub fn has_weather(&self) -> (r: bool)
        ensures
            r == (self.forecastd() is Some && self.location() is Some),
    {
        self.forecastd.is_some() && self.location.is_some()
    }

    /// The address the day-ahead curve over a horizon is asked for at; none where
    /// there is nobody to ask, which is a household on a fixed tariff and no
    /// fault.
    pub fn prices(&self, horizon: Horizon) -> (url: Option<String>)
        requires
            crate::clock::in_calendar(horizon.first.starts_at()),
        ensures
            told(url) == match self.tariffd() {
                Some(base) => Some(
                    crate::text::without_trailing(base, '/') + "/v1/prices?from="@ + encoded(
                        vstd::utf8::encode_utf8(
                            crate::clock::rfc3339_text(horizon.first.starts_at()),
                        ),
                    ) + "&slots="@ + crate::text::decimal(horizon.len as nat),
                ),
                None => None,
            },
    {
        match &self.tariffd {
            Some(base) => {
                let from = rfc3339(horizon.first.start());
                Some(prices_url(base.as_str(), from.as_str(), horizon.len))
            },
            None => None,
        }
    }

    /// The address this household's sky is asked for at; none where there is
    /// nobody to ask or no place to ask about.
    pub fn sky(&self) -> (url: Option<String>)
        ensures
            told(url) == match (self.forecastd(), self.location()) {
                (Some(base), Some(location)) => Some(
                    crate::text::without_trailing(base, '/') + "/v1/weather/"@ + encoded(
                        vstd::utf8::encode_utf8(location),
                    ),
                ),
                _ => None,
            },
    {
        match (&self.forecastd, &self.location) {
            (Some(base), Some(location)) => {
                let mut url = trim_end_matches(base.as_str(), '/').to_owned();
                url.append("/v1/weather/");
                url.append(urlencode(location.as_str()).as_str());
                Some(url)
            },
            _ => None,
        }
    }
}

/// The address of a day-ahead curve, from the written start of its first quarter
/// hour.
pub fn prices_url(base: &str, from: &str, slots: usize) -> (url: String)
    ensures
        url@ == crate::text::without_trailing(base@, '/') + "/v1/prices?from="@ + encoded(
            vstd::utf8::encode_utf8(from@),
        ) + "&slots="@ + crate::text::decimal(slots as nat),
{
    let mut url = trim_end_matches(base, '/').to_owned();
    url.append("/v1/prices?from=");
    url.append(urlencode(from).as_str());
    url.append("&slots=");
    push_decimal(&mut url, slots as u128);
    url
}

// ── What came back ──────────────────────────────────────────────────────────

/// What a fetch could not do. Every variant is recoverable.
#[derive(Debug)]
pub enum FleetError {
    /// The request did not complete.
    Unreachable {
        /// Prices or weather.
        what: String,
        /// Where it was asked.
        url: String,
        /// Why not.
        source: String,
    },
    /// It completed, and the answer was not one this box understands.
    Unreadable {
        /// Prices or weather.
        what: String,
        /// Where it was asked.
        url: String,
        /// What went wrong.
        detail: String,
    },
}

impl FleetError {
    /// What the error says.
    pub open spec fn said(self) -> Seq<char> {
        match self {
            FleetError::Unreachable { what, url, source } => what@ + " could not be fetched from "@
                + url@ + ": "@ + source@,
            FleetError::Unreadable { what, url, detail } => what@ + " from "@ + url@
                + " was not readable: "@ + detail@,
        }
    }

    /// What the error says.
    pub fn message(&self) -> (out: String)
        ensures
            out@ == self.said(),
    {
        match self {
            FleetError::Unreachable { what, url, source } => {
                let mut out = what.clone();
                out.append(" could not be fetched from ");
                out.append(url.as_str());
                out.append(": ");
                out.append(source.as_str());
                out
            },
            FleetError::Unreadable { what, url, detail } => {
                let mut out = what.clone();
                out.append(" from ");
                out.append(url.as_str());
                out.append(" was not readable: ");
                out.append(detail.as_str());
                out
            },
        }
    }
}

/// What became of one request, before its body is decoded.
#[derive(Debug)]
pub enum Answer {
    /// Nobody answered, and why.
    Silent(String),
    /// Somebody did.
    Replied {
        /// The status.
        status: u16,
        /// The status as it is shown.
        shown: String,
        /// The body, or why it broke off. Nobody reads the one of a refusal.
        body: Result<Vec<u8>, String>,
    },
}

/// Take an answer apart: the body to decode, or why there is none.
pub fn received(what: &str, url: &str, answer: Answer) -> (r: Result<Vec<u8>, FleetError>)
    ensures
        match answer {
            Answer::Silent(why) => r matches Err(e) && e is Unreachable && e.said() == what@
                + " could not be fetched from "@ + url@ + ": "@ + why@,
            Answer::Replied { status, shown, body } => if !crate::report::is_success(
                status as int,
            ) {
                r matches Err(e) && e is Unreadable && e.said() == what@ + " from "@ + url@
                    + " was not readable: "@ + ("the service answered "@ + shown@)
            } else {
                match body {
                    Err(why) => r matches Err(e) && e is Unreachable && e.said() == what@
                        + " could not be fetched from "@ + url@ + ": "@ + why@,
                    Ok(bytes) => r == Ok::<Vec<u8>, FleetError>(bytes),
                }
            },
        },
{
    match answer {
        Answer::Silent(source) => Err(
            FleetError::Unreachable { what: what.to_owned(), url: url.to_owned(), source },
        ),
        Answer::Replied { status, shown, body } => {
            if status < 200 || status >= 300 {
                let mut detail = String::new();
                detail.append("the service answered ");
                detail.append(shown.as_str());
                assert(detail@ =~= "the service answered "@ + shown@);
                return Err(
                    FleetError::Unreadable { what: what.to_owned(), url: url.to_owned(), detail },
                );
            }
            match body {
                Ok(bytes) => Ok(bytes),
                Err(source) => Err(
                    FleetError::Unreachable { what: what.to_owned(), url: url.to_owned(), source },
                ),
            }
        },
    }
}

/// How much of a body that could not be decoded is quoted.
pub const QUOTED: usize = 120;

/// A body that could not be decoded, with the decoder's complaint and the first
/// bytes that arrived, so that somebody can act on it.
pub fn undecodable(what: &str, url: &str, complaint: &str, body: &[u8]) -> (e: FleetError)
    ensures
        e is Unreadable,
        e.said() == what@ + " from "@ + url@ + " was not readable: "@ + (complaint@
            + " — the first bytes were "@ + crate::text::quoted_text(
            crate::text::lossy_text(
                body@.take(
                    if body@.len() < QUOTED {
                        body@.len() as int
                    } else {
                        QUOTED as int
                    },
                ),
            ),
        )),
{
    let shown: usize = if body.len() < QUOTED {
        body.len()
    } else {
        QUOTED
    };
    let first = vstd::slice::slice_subrange(body, 0, shown);
    assert(first@ =~= body@.take(shown as int));
    let mut detail = complaint.to_owned();
    detail.append(" — the first bytes were ");
    detail.append(quoted(lossy(first).as_str()).as_str());
    FleetError::Unreadable { what: what.to_owned(), url: url.to_owned(), detail }
}

/// An exact decimal: a whole number of so many decimal places.
#[derive(Debug, Clone, Copy, PartialEq, Eq, Structural)]
pub struct Exact {
    /// The digits, as one whole number.
    pub mantissa: i128,
    /// How many of them stand behind the point.
    pub scale: u32,
}

/// What a text means as an exact decimal, where it is one: its digits and how
/// many of them stand behind the point.
pub uninterp spec fn decimal_of(text: Seq<char>) -> Option<(i128, u32)>;

/// `rust_decimal::Decimal::from_str`: the exact decimal a text means, as its
/// `mantissa` and its `scale`, and nothing where it is not one. Named: the
/// grammar and its limits are that crate's, and the value depends on the text
/// alone.
#[verifier::external_body]
fn parse_decimal(text: &str) -> (r: Option<(i128, u32)>)
    ensures
        r == decimal_of(text@),
{
    let value = text.parse::<rust_decimal::Decimal>().ok()?;
    Some((value.mantissa(), value.scale()))
}

/// The exact decimal a text means, where it means one.
pub open spec fn exact_of(text: Seq<char>) -> Option<Exact> {
    match decimal_of(text) {
        Some((mantissa, scale)) => Some(Exact { mantissa, scale }),
        None => None,
    }
}

/// One priced quarter hour.
#[derive(Debug)]
pub struct PricePoint {
    /// An instant of the quarter hour.
    pub slot: Instant,
    /// The wholesale price, ct/kWh, as an exact decimal text.
    pub price_ct: String,
}

/// The answer to a price question.
#[derive(Debug)]
pub struct Prices {
    /// The points that are known. A quarter hour nobody can price is absent.
    pub points: Vec<PricePoint>,
    /// How much of the window is priced, millionths.
    pub coverage_ppm: i64,
    /// The last quarter hour reachable from the start without a gap.
    pub contiguous_until: Option<Instant>,
}

/// The quarter hour an instant falls in, by its number.
pub open spec fn slot_number(at: int) -> i64 {
    (at / crate::clock::SLOT as int) as i64
}

/// The curve a list of read prices makes, one text read after the other: what
/// cannot be read is left out, and what is read later stands.
pub open spec fn curve_of(
    slots: Seq<i64>,
    read: Seq<Option<Exact>>,
) -> Map<i64, Exact>
    decreases slots.len(),
{
    if slots.len() == 0 || read.len() != slots.len() {
        Map::empty()
    } else {
        let before = curve_of(slots.drop_last(), read.drop_last());
        match read.last() {
            Some(price) => before.insert(slots.last(), price),
            None => before,
        }
    }
}

impl Prices {
    /// Whether every point has a date.
    pub open spec fn is_dated(self) -> bool {
        forall|i: int|
            0 <= i < self.points@.len() ==> crate::clock::in_calendar(
                (#[trigger] self.points@[i]).slot as int,
            )
    }

    /// The quarter hours of the points.
    pub open spec fn slots(self) -> Seq<i64> {
        Seq::new(self.points@.len(), |i: int| slot_number(self.points@[i].slot as int))
    }

    /// What the points' texts mean.
    pub open spec fn read(self) -> Seq<Option<Exact>> {
        Seq::new(self.points@.len(), |i: int| exact_of(self.points@[i].price_ct@))
    }

    /// The spot curve, by the number of the quarter hour. A point whose price is
    /// not an exact decimal is dropped rather than rounded into one.
    pub fn spot(&self) -> (curve: BTreeMap<i64, Exact>)
        requires
            self.is_dated(),
        ensures
            curve@ == curve_of(self.slots(), self.read()),
    {
        let mut read: Vec<Option<Exact>> = Vec::new();
        let mut i: usize = 0;
        while i < self.points.len()
            invariant
                i <= self.points@.len(),
                read@ =~= self.read().take(i as int),
            decreases self.points@.len() - i,
        {
            let price: Option<Exact> = match parse_decimal(self.points[i].price_ct.as_str()) {
                Some((mantissa, scale)) => Some(Exact { mantissa, scale }),
                None => None,
            };
            read.push(price);
            i = i + 1;
        }
        assert(read@ =~= self.read());
        self.curve(&read)
    }

    /// The spot curve, from what the points' texts mean.
    pub fn curve(&self, read: &Vec<Option<Exact>>) -> (curve: BTreeMap<i64, Exact>)
        requires
            self.is_dated(),
            read@.len() == self.points@.len(),
        ensures
            curve@ == curve_of(self.slots(), read@),
    {
        let mut curve: BTreeMap<i64, Exact> = BTreeMap::new();
        let mut i: usize = 0;
        assert(curve@ =~= curve_of(self.slots().take(0), read@.take(0)));
        while i < self.points.len()
            invariant
                i <= self.points@.len(),
                self.is_dated(),
                read@.len() == self.points@.len(),
                curve@ == curve_of(self.slots().take(i as int), read@.take(i as int)),
            decreases self.points@.len() - i,
        {
            let slot = Slot::containing(self.points[i].slot);
            let ghost slots = self.slots().take(i + 1);
            let ghost texts = read@.take(i + 1);
            assert(slots.drop_last() =~= self.slots().take(i as int));
            assert(texts.drop_last() =~= read@.take(i as int));
            assert(slots.last() == slot.index);
            if let Some(price) = read[i] {
                curve.insert(slot.index, price);
            }
            i = i + 1;
        }
        assert(self.slots().take(i as int) =~= self.slots());
        assert(read@.take(i as int) =~= read@);
        curve
    }
}

/// Whether a read price says something about a quarter hour.
pub open spec fn prices_slot(slots: Seq<i64>, read: Seq<Option<Exact>>, slot: i64, i: int) -> bool {
    0 <= i < slots.len() && slots[i] == slot && read[i] is Some
}

/// A quarter hour has a price exactly where some point of it could be read: what
/// cannot be read is absent rather than free of charge.
pub proof fn an_unreadable_price_is_absent(
    slots: Seq<i64>,
    read: Seq<Option<Exact>>,
    slot: i64,
)
    requires
        slots.len() == read.len(),
    ensures
        curve_of(slots, read).contains_key(slot) <==> exists|i: int|
            prices_slot(slots, read, slot, i),
    decreases slots.len(),
{
    if slots.len() > 0 {
        let s = slots.drop_last();
        let r = read.drop_last();
        let n = slots.len() - 1;
        an_unreadable_price_is_absent(s, r, slot);
        if exists|i: int| prices_slot(s, r, slot, i) {
            let i = choose|i: int| prices_slot(s, r, slot, i);
            assert(prices_slot(slots, read, slot, i));
        }
        if exists|i: int| prices_slot(slots, read, slot, i) {
            let i = choose|i: int| prices_slot(slots, read, slot, i);
            if i < n {
                assert(prices_slot(s, r, slot, i));
            }
        }
        if read.last() is Some && slots.last() == slot {
            assert(prices_slot(slots, read, slot, n));
        }
    }
}

/// Where a quarter hour is priced twice, the later price stands.
pub proof fn the_later_price_stands(slots: Seq<i64>, read: Seq<Option<Exact>>, i: int)
    requires
        slots.len() == read.len(),
        0 <= i < slots.len(),
        read[i] is Some,
        forall|j: int| i < j < slots.len() ==> !prices_slot(slots, read, slots[i], j),
    ensures
        curve_of(slots, read).contains_key(slots[i]),
        curve_of(slots, read)[slots[i]] == read[i]->Some_0,
    decreases slots.len(),
{
    let s = slots.drop_last();
    let r = read.drop_last();
    let n = slots.len() - 1;
    if i < n {
        assert(!prices_slot(slots, read, slots[i], n));
        assert forall|j: int| i < j < s.len() implies !prices_slot(s, r, s[i], j) by {
            assert(!prices_slot(slots, read, slots[i], j));
        }
        the_later_price_stands(s, r, i);
    }
}

/// One quarter hour of sky. Every figure is in millionths of its unit.
#[derive(Debug, Clone, Copy, PartialEq, Eq)]
pub struct SkyPoint {
    /// An instant of the quarter hour.
    pub slot: Instant,
    /// Global horizontal irradiance, W/m².
    pub ghi_w_per_m2: i64,
    /// Air temperature, °C.
    pub temperature_c: i64,
    /// Cloud cover, where the model publishes one.
    pub cloud_cover: Option<i64>,
}

/// A location's current run.
#[derive(Debug)]
pub struct Sky {
    /// When the run was fetched by the service that serves it.
    pub fetched_at: Instant,
    /// The resolution the model published at.
    pub published_minutes: u16,
    /// The points.
    pub points: Vec<SkyPoint>,
}

/// The sky by quarter hour: where two points fall in one, the later stands.
pub open spec fn sky_of(points: Seq<SkyPoint>) -> Map<i64, SkyPoint>
    decreases points.len(),
{
    if points.len() == 0 {
        Map::empty()
    } else {
        sky_of(points.drop_last()).insert(slot_number(points.last().slot as int), points.last())
    }
}

impl Sky {
    /// Whether every point has a date.
    pub open spec fn is_dated(self) -> bool {
        forall|i: int|
            0 <= i < self.points@.len() ==> crate::clock::in_calendar(
                (#[trigger] self.points@[i]).slot as int,
            )
    }

    /// Irradiance and temperature by the number of the quarter hour.
    pub fn by_slot(&self) -> (sky: BTreeMap<i64, SkyPoint>)
        requires
            self.is_dated(),
        ensures
            sky@ == sky_of(self.points@),
    {
        let mut sky: BTreeMap<i64, SkyPoint> = BTreeMap::new();
        let mut i: usize = 0;
        assert(sky@ =~= sky_of(self.points@.take(0)));
        while i < self.points.len()
            invariant
                i <= self.points@.len(),
                self.is_dated(),
                sky@ == sky_of(self.points@.take(i as int)),
            decreases self.points@.len() - i,
        {
            let point = self.points[i];
            assert(self.points@.take(i + 1).drop_last() =~= self.points@.take(i as int));
            sky.insert(Slot::containing(point.slot).index, point);
            i = i + 1;
        }
        assert(self.points@.take(i as int) =~= self.points@);
        sky
    }
}

/// Every point of the sky says which quarter hour it is of.
pub proof fn a_point_of_the_sky_is_of_its_own_quarter_hour(points: Seq<SkyPoint>, slot: i64)
    requires
        sky_of(points).contains_key(slot),
    ensures
        slot_number(sky_of(points)[slot].slot as int) == slot,
        points.contains(sky_of(points)[slot]),
    decreases points.len(),
{
    if points.len() > 0 {
        if slot == slot_number(points.last().slot as int) {
            assert(points[points.len() - 1] == points.last());
        } else {
            let before = points.drop_last();
            a_point_of_the_sky_is_of_its_own_quarter_hour(before, slot);
            let i = choose|i: int| 0 <= i < before.len() && before[i] == sky_of(before)[slot];
            assert(points[i] == before[i]);
        }
    }
}

/// What an address carries as it is: letters, digits and four marks, and nothing with a
/// meaning of its own.
pub proof fn only_letters_digits_and_four_marks_are_carried(b: u8)
    ensures
        is_unreserved(b) <==> 'A' <= b as char <= 'Z' || 'a' <= b as char <= 'z' || '0' <= b as char
            <= '9' || b as char == '-' || b as char == '_' || b as char == '.' || b as char == '~',
{
}

/// A quarter hour's number is that of the quarter hour the instant falls in.
pub proof fn a_number_is_its_quarter_hours(at: int)
    requires
        crate::clock::in_calendar(at),
    ensures
        (Slot { index: slot_number(at) }).covers(at),
{
}

/// A curve is made of the points as they were published: each in its own quarter hour and
/// at the price its text means.
pub proof fn a_curve_is_made_of_the_published_points(prices: Prices, i: int)
    requires
        prices.is_dated(),
        0 <= i < prices.points@.len(),
    ensures
        prices.slots().len() == prices.points@.len(),
        prices.read().len() == prices.points@.len(),
        (Slot { index: prices.slots()[i] }).covers(prices.points@[i].slot as int),
        prices.read()[i] is Some <==> decimal_of(prices.points@[i].price_ct@) is Some,
        prices.read()[i] matches Some(price) ==> decimal_of(prices.points@[i].price_ct@) == Some(
            (price.mantissa, price.scale),
        ),
{
    assert(crate::clock::in_calendar(prices.points@[i].slot as int));
}

/// Every quarter hour that some point falls into is in the sky, and the last such point is
/// the one that stands there.
pub proof fn the_later_point_of_the_sky_stands(points: Seq<SkyPoint>, i: int)
    requires
        0 <= i < points.len(),
        forall|j: int|
            i < j < points.len() ==> slot_number((#[trigger] points[j]).slot as int)
                != slot_number(points[i].slot as int),
    ensures
        sky_of(points).contains_key(slot_number(points[i].slot as int)),
        sky_of(points)[slot_number(points[i].slot as int)] == points[i],
    decreases points.len(),
{
    let n = points.len() - 1;
    if i < n {
        let before = points.drop_last();
        assert(slot_number(points[n].slot as int) != slot_number(points[i].slot as int));
        assert forall|j: int| i < j < before.len() implies slot_number(
            (#[trigger] before[j]).slot as int,
        ) != slot_number(before[i].slot as int) by {
            assert(points[j] == before[j]);
        }
        the_later_point_of_the_sky_stands(before, i);
    }
}

/// A setting is told as it was written.
pub proof fn a_setting_is_told_as_it_was_written(s: Option<String>)
    ensures
        told(s) is Some <==> s is Some,
        s matches Some(text) ==> told(s) == Some(text@),
{
}

} // verus!

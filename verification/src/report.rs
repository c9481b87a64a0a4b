//! Telling the fleet how the day went.
//!
//! What crosses this link is a household's day, so it goes inside TLS unless it
//! is going nowhere. A failure that could succeed later keeps the document; a
//! refusal does not, because no number of retries changes it.

use vstd::prelude::*;

use crate::text::{push_decimal, same, split_once, trim_end_matches};

verus! {

/// Why one delivery attempt failed.
#[derive(Debug)]
pub enum DeliveryError {
    /// The fleet is unavailable: worth keeping the document for.
    Transient(String),
    /// The fleet read the document and refused it.
    Permanent(String),
}

/// Whether a status asks to be asked again: a rate limit, or a fault on the
/// other side.
pub open spec fn asks_again(status: int) -> bool {
    status == 429 || 500 <= status < 600
}

/// Whether a status says the document was taken.
pub open spec fn is_success(status: int) -> bool {
    200 <= status < 300
}

impl DeliveryError {
    /// What the receiver or the network said.
    pub open spec fn detail(self) -> Seq<char> {
        match self {
            DeliveryError::Transient(said) => said@,
            DeliveryError::Permanent(said) => said@,
        }
    }

    /// Whether trying again could ever work.
    pub fn is_transient(&self) -> (r: bool)
        ensures
            r == (*self is Transient),
    {
        matches!(self, DeliveryError::Transient(_))
    }

    /// Classify what a receiver answered.
    pub fn from_status(status: u16) -> (e: Self)
        ensures
            e is Transient <==> asks_again(status as int),
            e.detail() == "HTTP "@ + crate::text::decimal(status as nat),
    {
        let mut said = String::new();
        said.append("HTTP ");
        push_decimal(&mut said, status as u128);
        assert(said@ =~= "HTTP "@ + crate::text::decimal(status as nat));
        if status == 429 || (500 <= status && status < 600) {
            DeliveryError::Transient(said)
        } else {
            DeliveryError::Permanent(said)
        }
    }

    /// What the error says.
    pub fn message(&self) -> (out: String)
        ensures
            out@ == match *self {
                DeliveryError::Transient(said) =>
                    "the fleet did not take it, and might later: "@ + said@,
                DeliveryError::Permanent(said) =>
                    "the fleet refused it, and will refuse it again: "@ + said@,
            },
    {
        let mut out = String::new();
        match self {
            DeliveryError::Transient(said) => {
                out.append("the fleet did not take it, and might later: ");
                out.append(said.as_str());
            },
            DeliveryError::Permanent(said) => {
                out.append("the fleet refused it, and will refuse it again: ");
                out.append(said.as_str());
            },
        }
        assert(out@ =~= match *self {
            DeliveryError::Transient(said) => "the fleet did not take it, and might later: "@
                + said@,
            DeliveryError::Permanent(said) => "the fleet refused it, and will refuse it again: "@
                + said@,
        });
        out
    }
}

/// What an attempt came to: the status the receiver answered, or why there was no
/// answer at all. No answer is the fleet being unreachable and nothing about the
/// document.
pub fn delivered(answer: Result<u16, String>) -> (r: Result<(), DeliveryError>)
    ensures
        match answer {
            Ok(status) => {
                &&& r is Ok <==> is_success(status as int)
                &&& r matches Err(e) ==> {
                    &&& e is Transient <==> asks_again(status as int)
                    &&& e.detail() == "HTTP "@ + crate::text::decimal(status as nat)
                }
            },
            Err(why) => r matches Err(e) && e is Transient && e.detail() == why@,
        },
{
    match answer {
        Ok(status) => if 200 <= status && status < 300 {
            Ok(())
        } else {
            Err(DeliveryError::from_status(status))
        },
        Err(why) => Err(DeliveryError::Transient(why)),
    }
}

/// A rate limit is the one client error worth retrying, and every fault on the
/// other side is.
pub proof fn a_rate_limit_is_the_one_client_error_worth_retrying(status: int)
    ensures
        400 <= status < 500 ==> (asks_again(status) <==> status == 429),
        500 <= status < 600 ==> asks_again(status),
        !(asks_again(status) && is_success(status)),
{
}

// ── Confidentiality ─────────────────────────────────────────────────────────

/// Why an endpoint is not one a household's day may go to.
#[derive(Debug)]
pub enum NotConfidential {
    /// It is not a URL, and what was said about it.
    NotAUrl(String),
    /// It would send the day across a network in the clear.
    InTheClear(String),
}

impl NotConfidential {
    /// What the error says.
    pub open spec fn said(self) -> Seq<char> {
        match self {
            NotConfidential::NotAUrl(why) => why@,
            NotConfidential::InTheClear(endpoint) => endpoint@
                + " would send this household's day across a network in the clear; use https, or report to a loopback address"@,
        }
    }

    /// What the error says.
    pub fn message(&self) -> (out: String)
        ensures
            out@ == self.said(),
    {
        match self {
            NotConfidential::NotAUrl(why) => why.clone(),
            NotConfidential::InTheClear(endpoint) => {
                let out = endpoint.clone();
                out.concat(
                    " would send this household's day across a network in the clear; use https, or report to a loopback address",
                )
            },
        }
    }
}

/// The scheme and the host of a URL, and what is said of a text that is none.
pub uninterp spec fn url_parts(text: Seq<char>) -> Result<
    (Seq<char>, Option<Seq<char>>),
    Seq<char>,
>;

/// `reqwest::Url::parse`: the scheme and the host of a URL, and the parser's message
/// where the text is not one. Named: the grammar is the URL standard's, and the
/// parts and the message depend on the text alone.
#[verifier::external_body]
fn parse_url(text: &str) -> (r: Result<(String, Option<String>), String>)
    ensures
        match r {
            Ok((scheme, host)) => url_parts(text@) == Ok::<
                (Seq<char>, Option<Seq<char>>),
                Seq<char>,
            >(
                (
                    scheme@,
                    match host {
                        Some(h) => Some(h@),
                        None => None,
                    },
                ),
            ),
            Err(why) => url_parts(text@) == Err::<(Seq<char>, Option<Seq<char>>), Seq<char>>(why@),
        },
{
    let url = reqwest::Url::parse(text).map_err(|e| e.to_string())?;
    Ok((url.scheme().to_owned(), url.host_str().map(str::to_owned)))
}

/// What a decimal number of one octet means: no zero in front of other digits,
/// and no more than eight bits hold.
pub open spec fn octet(s: Seq<char>) -> Option<nat> {
    if 1 <= s.len() <= 3 && crate::text::all_digits(s) && (s.len() > 1 ==> s[0] != '0')
        && crate::text::value_of(s) <= 255 {
        Some(crate::text::value_of(s))
    } else {
        None
    }
}

/// The numbers of a dotted address of so many octets.
pub open spec fn dotted(s: Seq<char>, parts: nat) -> Option<Seq<nat>>
    decreases parts,
{
    if parts <= 1 {
        match octet(s) {
            Some(n) => Some(seq![n]),
            None => None,
        }
    } else {
        match crate::text::split_at_first(s, '.') {
            Some((head, tail)) => match (octet(head), dotted(tail, (parts - 1) as nat)) {
                (Some(n), Some(rest)) => Some(seq![n] + rest),
                _ => None,
            },
            None => None,
        }
    }
}

/// Whether a character is one of the brackets a URL puts around an address.
pub open spec fn is_bracket(c: char) -> bool {
    c == '[' || c == ']'
}

/// A text without the brackets in front of it.
pub open spec fn unbracketed_front(s: Seq<char>) -> Seq<char>
    decreases s.len(),
{
    if s.len() > 0 && is_bracket(s[0]) {
        unbracketed_front(s.drop_first())
    } else {
        s
    }
}

/// A text without the brackets behind it.
pub open spec fn unbracketed_back(s: Seq<char>) -> Seq<char>
    decreases s.len(),
{
    if s.len() > 0 && is_bracket(s.last()) {
        unbracketed_back(s.drop_last())
    } else {
        s
    }
}

/// Whether a host is this machine: by its name, by an address of the first
/// version's loopback block, or by the second version's one loopback address as a
/// parsed URL writes it.
pub open spec fn is_loopback(host: Seq<char>) -> bool {
    let bare = unbracketed_back(unbracketed_front(host));
    ||| host == "localhost"@
    ||| bare == "::1"@
    ||| (dotted(bare, 4) matches Some(octets) && octets[0] == 127)
}

/// Whether a scheme and a host keep what is sent confidential: `https` anywhere, and
/// plain `http` to this machine.
pub open spec fn keeps_confidential(scheme: Seq<char>, host: Option<Seq<char>>) -> bool {
    ||| scheme == "https"@
    ||| scheme == "http"@ && (host matches Some(h) && is_loopback(h))
}

fn read_octet(s: &str) -> (r: Option<u32>)
    ensures
        match r {
            Some(n) => octet(s@) == Some(n as nat),
            None => octet(s@) is None,
        },
{
    let n: usize = s.unicode_len();
    if n == 0 || n > 3 {
        return None;
    }
    if s.get_char(0) == '+' || (n > 1 && s.get_char(0) == '0') {
        assert(!crate::text::is_digit(s@[0]) || s@[0] == '0');
        return None;
    }
    assert(crate::text::without_plus(s@) == s@);
    match crate::text::parse_u32(s) {
        Some(v) => if v <= 255 {
            Some(v)
        } else {
            None
        },
        None => None,
    }
}

fn reads_loopback_v4(s: &str) -> (r: bool)
    ensures
        r == (dotted(s@, 4) matches Some(octets) && octets[0] == 127),
{
    reveal_with_fuel(dotted, 5);
    let (a, rest) = match split_once(s, '.') {
        Some(p) => p,
        None => {
            return false;
        },
    };
    let (b, rest) = match split_once(rest, '.') {
        Some(p) => p,
        None => {
            return false;
        },
    };
    let (c, d) = match split_once(rest, '.') {
        Some(p) => p,
        None => {
            return false;
        },
    };
    match (read_octet(a), read_octet(b), read_octet(c), read_octet(d)) {
        (Some(first), Some(_), Some(_), Some(_)) => first == 127,
        _ => false,
    }
}

fn without_brackets(s: &str) -> (r: &str)
    ensures
        r@ == unbracketed_back(unbracketed_front(s@)),
{
    let n: usize = s.unicode_len();
    let mut from: usize = 0;
    assert(s@.skip(0) =~= s@);
    while from < n && (s.get_char(from) == '[' || s.get_char(from) == ']')
        invariant
            n == s@.len(),
            from <= n,
            unbracketed_front(s@) == unbracketed_front(s@.skip(from as int)),
        decreases n - from,
    {
        assert(s@.skip(from as int).drop_first() =~= s@.skip(from + 1));
        from = from + 1;
    }
    let ghost front = s@.skip(from as int);
    assert(unbracketed_front(s@) == front);
    let mut to: usize = n;
    assert(s@.subrange(from as int, n as int) =~= front);
    while to > from && (s.get_char(to - 1) == '[' || s.get_char(to - 1) == ']')
        invariant
            n == s@.len(),
            from <= to <= n,
            unbracketed_back(front) == unbracketed_back(s@.subrange(from as int, to as int)),
        decreases to - from,
    {
        assert(s@.subrange(from as int, to as int).drop_last() =~= s@.subrange(
            from as int,
            to - 1,
        ));
        to = to - 1;
    }
    s.substring_char(from, to)
}

/// Whether a scheme and a host keep what is sent confidential: TLS anywhere, plain
/// `http` only to this machine, and nothing else at all.
pub fn stays_confidential(scheme: &str, host: Option<&str>) -> (r: bool)
    ensures
        r == keeps_confidential(
            scheme@,
            match host {
                Some(h) => Some(h@),
                None => None,
            },
        ),
{
    if same(scheme, "https") {
        return true;
    }
    if !same(scheme, "http") {
        return false;
    }
    match host {
        Some(h) => {
            let bare = without_brackets(h);
            same(h, "localhost") || same(bare, "::1") || reads_loopback_v4(bare)
        },
        None => false,
    }
}

/// Whether an endpoint keeps a household's day confidential in transit.
pub fn is_confidential(endpoint: &str) -> (r: Result<(), NotConfidential>)
    ensures
        match url_parts(endpoint@) {
            Err(why) => r matches Err(NotConfidential::NotAUrl(said)) && said@ == why,
            Ok((scheme, host)) => if keeps_confidential(scheme, host) {
                r is Ok
            } else {
                r matches Err(NotConfidential::InTheClear(named)) && named@ == endpoint@
            },
        },
{
    let (scheme, host) = match parse_url(endpoint) {
        Ok(parts) => parts,
        Err(why) => {
            return Err(NotConfidential::NotAUrl(why));
        },
    };
    let confidential: bool = match &host {
        Some(h) => stays_confidential(scheme.as_str(), Some(h.as_str())),
        None => stays_confidential(scheme.as_str(), None),
    };
    if confidential {
        Ok(())
    } else {
        Err(NotConfidential::InTheClear(endpoint.to_owned()))
    }
}

/// A household's day never leaves a box in the clear: what is let through is
/// inside TLS, or goes to this machine over plain `http`.
pub proof fn a_day_never_leaves_a_box_in_the_clear(scheme: Seq<char>, host: Option<Seq<char>>)
    requires
        keeps_confidential(scheme, host),
        scheme != "https"@,
    ensures
        scheme == "http"@,
        host matches Some(h) && is_loopback(h),
{
}

// ── The document ────────────────────────────────────────────────────────────

/// What one day's document is addressed by.
#[derive(Debug)]
pub struct DayMessage {
    /// Where it comes from.
    pub source: String,
    /// What the receiver recognises it by.
    pub id: String,
    /// What it is about.
    pub subject: String,
}

/// What one day's document is addressed by, from the site and the day's written
/// date. The same day of the same household has the same identifier however often
/// it is sent, so a day that is sent again corrects a message rather than adding
/// one.
pub fn dated_message(site: &str, date: &str) -> (m: DayMessage)
    ensures
        m.source@ == "hems://sites/"@ + site@,
        m.id@ == site@ + ":"@ + date@,
        m.subject@ == date@,
{
    let mut source = String::new();
    source.append("hems://sites/");
    source.append(site);
    assert(source@ =~= "hems://sites/"@ + site@);
    let mut id = site.to_owned();
    id.append(":");
    id.append(date);
    DayMessage { source, id, subject: date.to_owned() }
}

/// What one day's document is addressed by.
pub fn day_message(site: &str, day: i32) -> (m: DayMessage)
    requires
        crate::clock::is_inner_day(day as int),
    ensures
        m.source@ == "hems://sites/"@ + site@,
        m.id@ == site@ + ":"@ + crate::clock::date_text(day as int),
        m.subject@ == crate::clock::date_text(day as int),
{
    let date = crate::clock::date_string(day);
    dated_message(site, date.as_str())
}

/// Where a fleet takes its days.
pub fn days_endpoint(url: &str) -> (out: String)
    ensures
        out@ == crate::text::without_trailing(url@, '/') + "/v1/days"@,
{
    let base = trim_end_matches(url, '/').to_owned();
    base.concat("/v1/days")
}

/// What became of a day that was sent at once.
#[derive(Debug, Clone, Copy, PartialEq, Eq, Structural)]
pub enum Sent {
    /// The fleet took it, and its row leaves the backlog where it has one.
    Taken,
    /// The fleet answered something else; the day is tried again later.
    Queued,
    /// Nobody answered, and the day is tried again later.
    Unreachable,
    /// Nobody answered, and there is nowhere to keep the day.
    Lost,
}

/// What became of a day that was sent at once, by what was answered.
pub open spec fn sent_of(answer: Option<u16>, has_store: bool) -> Sent {
    match answer {
        Some(status) => if is_success(status as int) {
            Sent::Taken
        } else {
            Sent::Queued
        },
        None => if has_store {
            Sent::Unreachable
        } else {
            Sent::Lost
        },
    }
}

/// What became of a day that was sent at once.
pub fn report_day(answer: Option<u16>, has_store: bool) -> (s: Sent)
    ensures
        s == sent_of(answer, has_store),
{
    match answer {
        Some(status) => if 200 <= status && status < 300 {
            Sent::Taken
        } else {
            Sent::Queued
        },
        None => if has_store {
            Sent::Unreachable
        } else {
            Sent::Lost
        },
    }
}

// ── One report, step by step ────────────────────────────────────────────────

/// Whether an endpoint keeps what is sent to it confidential.
pub open spec fn is_safe(endpoint: Seq<char>) -> bool {
    url_parts(endpoint) matches Ok((scheme, host)) && keeps_confidential(scheme, host)
}

/// Whether a reason is the one for which an endpoint is not sent to.
pub open spec fn is_why_not(why: NotConfidential, endpoint: Seq<char>) -> bool {
    match why {
        NotConfidential::NotAUrl(said) => url_parts(endpoint) == Err::<
            (Seq<char>, Option<Seq<char>>),
            Seq<char>,
        >(said@),
        NotConfidential::InTheClear(named) => url_parts(endpoint) is Ok && named@ == endpoint,
    }
}

/// How far the report of a day has come.
#[derive(Debug, Clone, Copy, PartialEq, Eq, Structural)]
pub enum Stage {
    /// The day is being written to the outbox.
    Queueing,
    /// It is being sent, from this row where it has one.
    Sending(Option<i64>),
    /// The fleet took it, and its row is leaving the backlog.
    Marking(i64),
    /// Nothing more happens to it.
    Over,
}

/// What happened to a report.
#[derive(Debug, Clone, Copy, PartialEq, Eq, Structural)]
pub enum Reported {
    /// The day was written to the outbox, as this row.
    Queued(i64),
    /// The row left the backlog.
    Marked,
    /// The store could not be written.
    StoreFailed,
    /// The fleet answered with a status, or nobody answered.
    Answered(Option<u16>),
}

/// What is done next about a report.
#[derive(Debug, Clone, Copy, PartialEq, Eq, Structural)]
pub enum Do {
    /// Write the day to the outbox.
    Queue,
    /// Send it.
    Send,
    /// Say what became of it, and take this row out of the backlog.
    Mark(i64),
    /// Say what became of it; that is all.
    Finish(Sent),
    /// Stop with the store's error.
    Fail,
    /// Nothing: what happened does not concern where the report is.
    Nothing,
}

/// The report of one day, once its endpoint is known to keep it confidential.
#[derive(Debug)]
pub struct DayReport {
    endpoint: String,
    has_store: bool,
    stage: Stage,
}

/// What becomes of a report when something happens to it, and what is done about it.
pub open spec fn reported_after(stage: Stage, has_store: bool, happened: Reported) -> (Stage, Do) {
    match (stage, happened) {
        (Stage::Queueing, Reported::Queued(row)) => (Stage::Sending(Some(row)), Do::Send),
        (Stage::Queueing, Reported::StoreFailed) => (Stage::Over, Do::Fail),
        (Stage::Sending(row), Reported::Answered(answer)) => match (row, sent_of(answer, has_store)) {
            (Some(row), Sent::Taken) => (Stage::Marking(row), Do::Mark(row)),
            (_, sent) => (Stage::Over, Do::Finish(sent)),
        },
        (Stage::Marking(_), Reported::Marked) => (Stage::Over, Do::Finish(Sent::Taken)),
        (Stage::Marking(_), Reported::StoreFailed) => (Stage::Over, Do::Fail),
        _ => (stage, Do::Nothing),
    }
}

impl DayReport {
    /// Where the day is sent.
    pub closed spec fn endpoint(self) -> Seq<char> {
        self.endpoint@
    }

    /// Whether there is somewhere to keep it.
    pub closed spec fn has_store(self) -> bool {
        self.has_store
    }

    /// How far it has come.
    pub closed spec fn stage(self) -> Stage {
        self.stage
    }

    /// The endpoint keeps the day confidential, and a day that has somewhere to be
    /// kept is sent from its row.
    pub open spec fn is_orderly(self) -> bool {
        &&& is_safe(self.endpoint())
        &&& self.stage() matches Stage::Sending(row) ==> (row is Some <==> self.has_store())
        &&& self.stage() is Queueing || self.stage() is Marking ==> self.has_store()
    }

    /// Begin to report a day to a fleet. An endpoint that would publish it ends the
    /// report before anything is written or sent; otherwise the day is queued first
    /// where there is a store, and sent at once where there is none.
    pub fn begin(url: &str, has_store: bool) -> (r: Result<(DayReport, Do), NotConfidential>)
        ensures
            ({
                let endpoint = crate::text::without_trailing(url@, '/') + "/v1/days"@;
                match r {
                    Err(why) => !is_safe(endpoint) && is_why_not(why, endpoint),
                    Ok((report, next)) => {
                        &&& report.is_orderly()
                        &&& report.endpoint() == endpoint
                        &&& report.has_store() == has_store
                        &&& (report.stage(), next) == if has_store {
                            (Stage::Queueing, Do::Queue)
                        } else {
                            (Stage::Sending(None), Do::Send)
                        }
                    },
                }
            }),
    {
        let endpoint = days_endpoint(url);
        match is_confidential(endpoint.as_str()) {
            Err(why) => Err(why),
            Ok(()) => if has_store {
                Ok((DayReport { endpoint, has_store, stage: Stage::Queueing }, Do::Queue))
            } else {
                Ok((DayReport { endpoint, has_store, stage: Stage::Sending(None) }, Do::Send))
            },
        }
    }

    /// Where the day is sent.
    pub fn sends_to(&self) -> (endpoint: &str)
        ensures
            endpoint@ == self.endpoint(),
    {
        self.endpoint.as_str()
    }

    /// What is done about something that happened to the report.
    pub fn on(&mut self, happened: Reported) -> (next: Do)
        requires
            old(self).is_orderly(),
        ensures
            final(self).is_orderly(),
            final(self).endpoint() == old(self).endpoint(),
            final(self).has_store() == old(self).has_store(),
            (final(self).stage(), next) == reported_after(
                old(self).stage(),
                old(self).has_store(),
                happened,
            ),
    {
        let (stage, next): (Stage, Do) = match (self.stage, happened) {
            (Stage::Queueing, Reported::Queued(row)) => (Stage::Sending(Some(row)), Do::Send),
            (Stage::Queueing, Reported::StoreFailed) => (Stage::Over, Do::Fail),
            (Stage::Sending(row), Reported::Answered(answer)) => {
                match (row, report_day(answer, self.has_store)) {
                    (Some(row), Sent::Taken) => (Stage::Marking(row), Do::Mark(row)),
                    (_, sent) => (Stage::Over, Do::Finish(sent)),
                }
            },
            (Stage::Marking(_), Reported::Marked) => (Stage::Over, Do::Finish(Sent::Taken)),
            (Stage::Marking(_), Reported::StoreFailed) => (Stage::Over, Do::Fail),
            (stage, _) => (stage, Do::Nothing),
        };
        self.stage = stage;
        next
    }
}

/// A day that has somewhere to be kept is sent only once it has been queued.
pub proof fn a_day_is_queued_before_it_is_sent(stage: Stage, has_store: bool, happened: Reported)
    requires
        reported_after(stage, has_store, happened).1 == Do::Send,
    ensures
        stage is Queueing,
        happened is Queued,
{
}

/// A send that fails is not fatal, and leaves the day in the backlog: only what the
/// fleet took is marked, and nothing that answers a send ends the report in an error.
pub proof fn a_failed_send_is_a_queued_day(
    stage: Stage,
    has_store: bool,
    answer: Option<u16>,
)
    ensures
        reported_after(stage, has_store, Reported::Answered(answer)).1 != Do::Fail,
        reported_after(stage, has_store, Reported::Answered(answer)).1 is Mark ==> (answer matches
            Some(status) && is_success(status as int)),
{
}

// ── What holds of a delivery ────────────────────────────────────────────────

/// A document is taken where the answer says so, and asked for again where the other side is
/// at fault or in a hurry; every other answer is a refusal.
pub proof fn an_answer_is_a_success_a_delay_or_a_refusal(status: int)
    ensures
        is_success(status) <==> status / 100 == 2,
        asks_again(status) <==> status / 100 == 5 || status == 429,
{
}

/// What became of a day is by its answer: taken where the fleet said so, queued where it
/// said anything else, and lost only where nobody answered and there is nowhere to keep it.
pub proof fn a_day_is_lost_only_where_nobody_could_keep_it(answer: Option<u16>, has_store: bool)
    ensures
        sent_of(answer, has_store) == Sent::Taken <==> (answer matches Some(status) && 200 <= status
            < 300),
        sent_of(answer, has_store) == Sent::Queued <==> (answer matches Some(status) && !(200
            <= status < 300)),
        sent_of(answer, has_store) == Sent::Unreachable <==> answer is None && has_store,
        sent_of(answer, has_store) == Sent::Lost <==> answer is None && !has_store,
{
}

/// A report goes from the queue to the wire to the backlog: a day that is queued is sent, a
/// day the fleet took leaves the backlog by its own row, any other answer ends the report
/// with what became of the day, and a store that fails ends it with that. What does not
/// concern where a report is changes nothing.
pub proof fn a_report_goes_step_by_step(stage: Stage, has_store: bool, row: i64, answer: Option<u16>)
    ensures
        reported_after(Stage::Queueing, has_store, Reported::Queued(row)) == (
            Stage::Sending(Some(row)),
            Do::Send,
        ),
        reported_after(Stage::Queueing, has_store, Reported::StoreFailed) == (Stage::Over, Do::Fail),
        (answer matches Some(status) && 200 <= status < 300) ==> reported_after(
            Stage::Sending(Some(row)),
            has_store,
            Reported::Answered(answer),
        ) == (Stage::Marking(row), Do::Mark(row)),
        (answer matches Some(status) && 200 <= status < 300) ==> reported_after(
            Stage::Sending(None),
            has_store,
            Reported::Answered(answer),
        ) == (Stage::Over, Do::Finish(Sent::Taken)),
        !(answer matches Some(status) && 200 <= status < 300) ==> forall|from: Option<i64>|
            (#[trigger] reported_after(
                Stage::Sending(from),
                has_store,
                Reported::Answered(answer),
            )).0 == Stage::Over && reported_after(
                Stage::Sending(from),
                has_store,
                Reported::Answered(answer),
            ).1 == Do::Finish(
                if answer is Some {
                    Sent::Queued
                } else if has_store {
                    Sent::Unreachable
                } else {
                    Sent::Lost
                },
            ),
        reported_after(Stage::Marking(row), has_store, Reported::Marked) == (
            Stage::Over,
            Do::Finish(Sent::Taken),
        ),
        reported_after(Stage::Marking(row), has_store, Reported::StoreFailed) == (
            Stage::Over,
            Do::Fail,
        ),
        reported_after(Stage::Over, has_store, Reported::Answered(answer)) == (
            Stage::Over,
            Do::Nothing,
        ),
        reported_after(Stage::Over, has_store, Reported::Queued(row)) == (Stage::Over, Do::Nothing),
        reported_after(Stage::Sending(None), has_store, Reported::StoreFailed) == (
            Stage::Sending(None),
            Do::Nothing,
        ),
{
}

/// An octet is a number of at most eight bits, written without needless zeros, and every such
/// number is one.
pub proof fn an_octet_is_a_number_of_eight_bits(n: nat, s: Seq<char>)
    ensures
        n <= 255 ==> octet(crate::text::decimal(n)) == Some(n),
        octet(s) matches Some(v) ==> v <= 255 && crate::text::all_digits(s)
            && crate::text::value_of(s) == v && 0 < s.len() <= 3 && (s[0] == '0' ==> s.len() == 1),
{
    if n <= 255 {
        crate::text::a_number_reads_back_as_itself(n);
        let d = crate::text::decimal(n);
        reveal_with_fuel(crate::text::decimal, 4);
        assert(d.len() <= 3);
        if n == 0 {
            assert(d.len() == 1);
        }
    }
}

proof fn lemma_three_digits(s: Seq<char>)
    requires
        0 < s.len() <= 3,
        crate::text::all_digits(s),
        crate::text::value_of(s) == 127,
    ensures
        s == seq!['1', '2', '7'],
{
    reveal_with_fuel(crate::text::value_of, 5);
    assert(crate::text::is_digit(s[0]));
    assert(crate::text::is_digit(s[s.len() - 1]));
    if s.len() == 3 {
        assert(crate::text::is_digit(s[1]));
        assert(s.drop_last().drop_last() =~= seq![s[0]]);
        assert(s.drop_last().last() == s[1]);
        assert(seq![s[0]].drop_last() =~= Seq::<char>::empty());
        assert(crate::text::value_of(s) == 100 * (s[0] as u32 - 48) + 10 * (s[1] as u32 - 48) + (
        s[2] as u32 - 48));
        assert(s =~= seq!['1', '2', '7']);
    } else if s.len() == 2 {
        assert(s.drop_last() =~= seq![s[0]]);
        assert(seq![s[0]].drop_last() =~= Seq::<char>::empty());
        assert(crate::text::value_of(s) < 100);
    } else {
        assert(s.drop_last() =~= Seq::<char>::empty());
        assert(crate::text::value_of(s) < 10);
    }
}

/// A host that passes for this machine is called `localhost`, or is the second version's
/// loopback address, or is an address that begins with 127 and a point, bare or in brackets.
pub proof fn only_this_machine_passes_for_it(host: Seq<char>)
    requires
        is_loopback(host),
    ensures
        ({
            let bare = unbracketed_back(unbracketed_front(host));
            ||| host == "localhost"@
            ||| bare == "::1"@
            ||| crate::text::begins_with(bare, seq!['1', '2', '7', '.'])
        }),
{
    let bare = unbracketed_back(unbracketed_front(host));
    if dotted(bare, 4) is Some && dotted(bare, 4)->Some_0[0] == 127 {
        crate::text::splitting_loses_nothing(bare, '.');
        let (head, tail) = crate::text::split_at_first(bare, '.')->Some_0;
        assert(octet(head) == Some(127nat)) by {
            let n = octet(head)->Some_0;
            let rest = dotted(tail, 3)->Some_0;
            assert((seq![n] + rest)[0] == n);
        }
        an_octet_is_a_number_of_eight_bits(0, head);
        lemma_three_digits(head);
        assert(bare.take(4) =~= seq!['1', '2', '7', '.']);
    }
}

proof fn lemma_split_here(a: Seq<char>, b: Seq<char>)
    requires
        crate::text::all_digits(a),
    ensures
        crate::text::split_at_first(a.push('.') + b, '.') == Some((a, b)),
{
    let text = a.push('.') + b;
    assert(text[a.len() as int] == '.');
    assert(text.contains('.'));
    crate::text::splitting_loses_nothing(text, '.');
    let (head, tail) = crate::text::split_at_first(text, '.')->Some_0;
    let i = head.len() as int;
    if i < a.len() {
        assert((head.push('.') + tail)[i] == '.');
        assert(text[i] == a[i]);
        assert(crate::text::is_digit(a[i]));
    } else if i > a.len() {
        assert((head.push('.') + tail)[a.len() as int] == head[a.len() as int]);
        assert(head.contains('.'));
    }
    assert(head =~= a) by {
        assert(head =~= text.take(i));
    }
    assert(tail =~= b) by {
        assert(tail =~= text.skip(i + 1));
    }
}

/// Every address of the first version's loopback block is this machine's, and no address of
/// another block is.
pub proof fn the_whole_loopback_block_is_this_machine(first: nat, b: nat, c: nat, d: nat)
    requires
        first <= 255,
        b <= 255,
        c <= 255,
        d <= 255,
    ensures
        ({
            let host = crate::text::decimal(first).push('.') + (crate::text::decimal(b).push('.')
                + (crate::text::decimal(c).push('.') + crate::text::decimal(d)));
            is_loopback(host) <==> first == 127
        }),
{
    an_octet_is_a_number_of_eight_bits(first, Seq::empty());
    an_octet_is_a_number_of_eight_bits(b, Seq::empty());
    an_octet_is_a_number_of_eight_bits(c, Seq::empty());
    an_octet_is_a_number_of_eight_bits(d, Seq::empty());
    crate::text::a_number_reads_back_as_itself(first);
    crate::text::a_number_reads_back_as_itself(b);
    crate::text::a_number_reads_back_as_itself(c);
    crate::text::a_number_reads_back_as_itself(d);
    let w = crate::text::decimal(first);
    let x = crate::text::decimal(b);
    let y = crate::text::decimal(c);
    let z = crate::text::decimal(d);
    let three = y.push('.') + z;
    let two = x.push('.') + three;
    let host = w.push('.') + two;
    lemma_split_here(w, two);
    lemma_split_here(x, three);
    lemma_split_here(y, z);
    reveal_with_fuel(dotted, 5);
    assert(dotted(z, 1) == Some(seq![d]));
    assert(dotted(three, 2) == Some(seq![c] + seq![d]));
    assert(dotted(two, 3) == Some(seq![b] + (seq![c] + seq![d])));
    assert(dotted(host, 4) == Some(seq![first] + (seq![b] + (seq![c] + seq![d]))));
    assert(crate::text::is_digit(w[0]));
    assert(host[0] == w[0]);
    assert(crate::text::is_digit(z[z.len() - 1]));
    assert(host.last() == z.last());
    assert(unbracketed_front(host) == host);
    assert(unbracketed_back(host) == host);
    reveal_strlit("localhost");
    reveal_strlit("::1");
    assert("localhost"@[0] == 'l');
    assert("::1"@[0] == ':');
}

/// TLS is confidential wherever it goes and plain `http` where it goes nowhere; nothing else
/// is.
pub proof fn what_keeps_a_day_confidential(scheme: Seq<char>, host: Option<Seq<char>>)
    ensures
        scheme == "https"@ ==> keeps_confidential(scheme, host),
        scheme == "http"@ && scheme != "https"@ ==> (keeps_confidential(scheme, host) <==> (host
            matches Some(h) && is_loopback(h))),
        scheme != "https"@ && scheme != "http"@ ==> !keeps_confidential(scheme, host),
        is_loopback("localhost"@),
{
}

/// Brackets are taken from both ends of a host and from nowhere else.
pub proof fn only_brackets_around_a_host_go(s: Seq<char>)
    ensures
        s.len() > 0 && !is_bracket(s[0]) && !is_bracket(s.last()) ==> unbracketed_back(
            unbracketed_front(s),
        ) == s,
        s.len() > 0 && !is_bracket(s[0]) && !is_bracket(s.last()) ==> unbracketed_back(
            unbracketed_front(seq!['['] + s.push(']')),
        ) == s,
        forall|c: char| #[trigger] is_bracket(c) <==> c == '[' || c == ']',
{
    let t = seq!['['] + s.push(']');
    if s.len() > 0 && !is_bracket(s[0]) && !is_bracket(s.last()) {
        assert(t.drop_first() =~= s.push(']'));
        assert(s.push(']')[0] == s[0]);
        assert(unbracketed_front(t) == unbracketed_front(s.push(']')));
        assert(unbracketed_front(s.push(']')) == s.push(']'));
        assert(s.push(']').drop_last() =~= s);
        assert(unbracketed_back(s.push(']')) == unbracketed_back(s));
    }
}

/// An endpoint is sent to where it is a URL that keeps a day confidential; where it is not,
/// what is said is that it is none, or which one it is.
pub proof fn an_endpoint_is_safe_or_it_is_said_why_not(
    endpoint: Seq<char>,
    why: NotConfidential,
)
    requires
        !is_safe(endpoint),
        is_why_not(why, endpoint),
    ensures
        why is NotAUrl <==> url_parts(endpoint) is Err,
        why matches NotConfidential::InTheClear(named) ==> named@ == endpoint,
        url_parts(endpoint) matches Ok((scheme, host)) ==> !keeps_confidential(scheme, host),
        url_parts(endpoint) matches Err(said) ==> (why matches NotConfidential::NotAUrl(told)
            && told@ == said),
{
}

} // verus!

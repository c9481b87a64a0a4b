//! Forwarding the box's own record to the fleet.
//!
//! The box records first and forwards second. A row leaves the backlog when the
//! fleet has taken it, or when the fleet has read it and refused it; it never
//! leaves because somebody hoped it had arrived.

use vstd::prelude::*;

use crate::report::{days_endpoint, is_confidential, DeliveryError, NotConfidential};
use crate::text::trim_end_matches;

verus! {

// ── Where to, and with what ─────────────────────────────────────────────────

/// Where the fleet's copy of the record lives, and what may write to it.
#[derive(Debug)]
pub struct HistdSettings {
    /// The base address. Absent leaves the box keeping its own record and
    /// forwarding nothing.
    pub url: Option<String>,
    /// Which site the fleet knows this household as.
    pub site: Option<String>,
    /// The bearer token, or where to find it.
    pub token: Option<String>,
    /// How often to try, seconds.
    pub every_s: u64,
    /// How many rows to send in one round.
    pub batch: usize,
}

/// How often to try where nobody said, seconds.
pub fn default_every_s() -> (s: u64)
    ensures
        s == 300,
{
    300
}

/// How many rows to send in one round where nobody said.
pub fn default_batch() -> (n: usize)
    ensures
        n == 50,
{
    50
}

impl HistdSettings {
    /// Whether anything is configured to forward to.
    pub fn is_configured(&self) -> (r: bool)
        ensures
            r == (self.url is Some && self.site is Some),
    {
        self.url.is_some() && self.site.is_some()
    }
}

impl Default for HistdSettings {
    /// Nowhere to forward to. The period and the batch are the numeric defaults,
    /// which whoever reads them raises.
    fn default() -> (s: Self)
        ensures
            s.url is None,
            s.site is None,
            s.token is None,
            s.every_s == 0,
            s.batch == 0,
    {
        HistdSettings { url: None, site: None, token: None, every_s: 0, batch: 0 }
    }
}

/// Where the box's day report goes.
#[derive(Debug)]
pub struct ObsdSettings {
    /// The base address. Absent means the household has no fleet view.
    pub url: Option<String>,
    /// The secret a report is signed with, or where to find it.
    pub secret: Option<String>,
}

impl ObsdSettings {
    /// Whether anything is configured to report to.
    pub fn is_configured(&self) -> (r: bool)
        ensures
            r == (self.url is Some),
    {
        self.url.is_some()
    }
}

impl Default for ObsdSettings {
    /// Nowhere to report to.
    fn default() -> (s: Self)
        ensures
            s.url is None,
            s.secret is None,
    {
        ObsdSettings { url: None, secret: None }
    }
}

/// Why a configured destination is not one the box will send to.
#[derive(Debug)]
pub enum NotForwarding {
    /// Reports are to be sent with nothing to sign them with.
    NoSecret,
    /// Rows are to be sent with nothing to authorise them.
    NoToken,
    /// The secret or the token could not be found where the settings say.
    Unresolved(String),
    /// A report would cross a network in the clear.
    Exposed(NotConfidential),
}

impl NotForwarding {
    /// What the error says.
    pub open spec fn said(self) -> Seq<char> {
        match self {
            NotForwarding::NoSecret =>
                "an `obsd` is configured with no secret, and it will refuse every day"@,
            NotForwarding::NoToken =>
                "a `histd` is configured with no token, and it will refuse every row"@,
            NotForwarding::Unresolved(why) => why@,
            NotForwarding::Exposed(why) => why.said(),
        }
    }

    /// What the error says.
    pub fn message(&self) -> (out: String)
        ensures
            out@ == self.said(),
    {
        match self {
            NotForwarding::NoSecret =>
                "an `obsd` is configured with no secret, and it will refuse every day".to_owned(),
            NotForwarding::NoToken =>
                "a `histd` is configured with no token, and it will refuse every row".to_owned(),
            NotForwarding::Unresolved(why) => why.clone(),
            NotForwarding::Exposed(why) => why.message(),
        }
    }
}

/// What sends the box's own reports.
#[derive(Debug)]
pub struct Reporter {
    endpoint: String,
    secret: Vec<u8>,
}

/// Where a day goes under a base address.
pub open spec fn days_at(url: Seq<char>) -> Seq<char> {
    crate::text::without_trailing(url, '/') + "/v1/days"@
}

impl Reporter {
    /// Where a day is sent.
    pub closed spec fn endpoint(self) -> Seq<char> {
        self.endpoint@
    }

    /// What a day is signed with.
    pub closed spec fn secret(self) -> Seq<u8> {
        self.secret@
    }

    /// A reporter for a configured destination, or none where there is none.
    ///
    /// `resolved` is what looking the secret up came to; it is read where a secret
    /// is configured and the address may be sent to, so that a box that would
    /// publish a household's day says so when it starts rather than on the first
    /// night.
    pub fn new(
        settings: &ObsdSettings,
        resolved: Result<Vec<u8>, String>,
    ) -> (r: Result<Option<Reporter>, NotForwarding>)
        ensures
            match settings.url {
                None => r matches Ok(None),
                Some(url) => if settings.secret is None {
                    r matches Err(NotForwarding::NoSecret)
                } else if !crate::report::is_safe(days_at(url@)) {
                    r matches Err(NotForwarding::Exposed(why)) && crate::report::is_why_not(
                        why,
                        days_at(url@),
                    )
                } else {
                    match resolved {
                        Err(why) => r matches Err(NotForwarding::Unresolved(said)) && said@ == why@,
                        Ok(secret) => r matches Ok(Some(reporter)) && reporter.endpoint()
                            == days_at(url@) && reporter.secret() == secret@,
                    }
                },
            },
    {
        let url = match &settings.url {
            Some(url) => url,
            None => {
                return Ok(None);
            },
        };
        if settings.secret.is_none() {
            return Err(NotForwarding::NoSecret);
        }
        let endpoint = days_endpoint(url.as_str());
        if let Err(exposed) = is_confidential(endpoint.as_str()) {
            return Err(NotForwarding::Exposed(exposed));
        }
        match resolved {
            Ok(secret) => Ok(Some(Reporter { endpoint, secret })),
            Err(why) => Err(NotForwarding::Unresolved(why)),
        }
    }

    /// Where a day is sent.
    pub fn sends_to(&self) -> (r: &str)
        ensures
            r@ == self.endpoint(),
    {
        self.endpoint.as_str()
    }

    /// What a day is signed with.
    pub fn signs_with(&self) -> (r: &[u8])
        ensures
            r@ == self.secret(),
    {
        self.secret.as_slice()
    }
}

/// What forwards the box's own record.
#[derive(Debug)]
pub struct Outbox {
    url: String,
    site: String,
    token: String,
    batch: usize,
}

impl Outbox {
    /// Where a row is sent.
    pub closed spec fn target(self) -> Seq<char> {
        self.url@ + "/v1/sites/"@ + self.site@ + "/events"@
    }

    /// What authorises it.
    pub closed spec fn token(self) -> Seq<char> {
        self.token@
    }

    /// How many rows one round sends at most.
    pub closed spec fn batch(self) -> nat {
        self.batch as nat
    }

    /// A forwarder for a configured destination, or none where there is none.
    ///
    /// `resolved` is what looking the token up came to; it is read where one is
    /// configured.
    pub fn new(
        settings: &HistdSettings,
        resolved: Result<String, String>,
    ) -> (r: Result<Option<Outbox>, NotForwarding>)
        ensures
            match (settings.url, settings.site) {
                (Some(url), Some(site)) => if settings.token is None {
                    r matches Err(NotForwarding::NoToken)
                } else {
                    match resolved {
                        Err(why) => r matches Err(NotForwarding::Unresolved(said)) && said@ == why@,
                        Ok(token) => {
                            &&& r matches Ok(Some(outbox))
                            &&& outbox.target() == crate::text::without_trailing(url@, '/')
                                + "/v1/sites/"@ + site@ + "/events"@
                            &&& outbox.token() == token@
                            &&& outbox.batch() == if settings.batch < 1 {
                                1
                            } else {
                                settings.batch as nat
                            }
                        },
                    }
                },
                _ => r matches Ok(None),
            },
    {
        match (&settings.url, &settings.site) {
            (Some(url), Some(site)) => {
                if settings.token.is_none() {
                    return Err(NotForwarding::NoToken);
                }
                match resolved {
                    Ok(token) => Ok(
                        Some(
                            Outbox {
                                url: trim_end_matches(url.as_str(), '/').to_owned(),
                                site: site.clone(),
                                token,
                                batch: if settings.batch < 1 {
                                    1
                                } else {
                                    settings.batch
                                },
                            },
                        ),
                    ),
                    Err(why) => Err(NotForwarding::Unresolved(why)),
                }
            },
            _ => Ok(None),
        }
    }

    /// Where a row is sent.
    pub fn sends_to(&self) -> (url: String)
        ensures
            url@ == self.target(),
    {
        let mut url = self.url.clone();
        url.append("/v1/sites/");
        url.append(self.site.as_str());
        url.append("/events");
        url
    }

    /// What authorises it.
    pub fn bearer(&self) -> (token: &str)
        ensures
            token@ == self.token(),
    {
        self.token.as_str()
    }

    /// How many rows one round sends at most.
    pub fn rows_at_once(&self) -> (n: usize)
        ensures
            n == self.batch(),
            n >= 1,
    {
        proof {
            use_type_invariant(self);
        }
        self.batch
    }

    #[verifier::type_invariant]
    spec fn sends_something(self) -> bool {
        self.batch >= 1
    }
}

// ── One round ───────────────────────────────────────────────────────────────

/// What one attempt means for a row.
#[derive(Debug, Clone, Copy, PartialEq, Eq, Structural)]
pub enum Verdict {
    /// The fleet took it.
    Taken,
    /// The fleet was not there; the row stays.
    Later,
    /// The fleet read it and refused it; the row leaves with the refusal on it.
    Never,
}

/// How far a round has come.
pub struct Round {
    /// The rows, oldest first.
    pub rows: Seq<i64>,
    /// How many have been decided.
    pub next: int,
    /// The rows the fleet took.
    pub sent: Seq<i64>,
    /// Whether the round is over before its rows are.
    pub over: bool,
}

impl Round {
    /// A round at its beginning.
    pub open spec fn of(rows: Seq<i64>) -> Round {
        Round { rows, next: 0, sent: Seq::empty(), over: false }
    }

    /// The row that is sent next.
    pub open spec fn wanted(self) -> Option<i64> {
        if !self.over && self.next < self.rows.len() {
            Some(self.rows[self.next])
        } else {
            None
        }
    }

    /// The round after one attempt.
    pub open spec fn after(self, verdict: Verdict) -> Round {
        match self.wanted() {
            None => self,
            Some(row) => match verdict {
                Verdict::Taken => Round { next: self.next + 1, sent: self.sent.push(row), ..self },
                Verdict::Later => Round { over: true, ..self },
                Verdict::Never => Round { next: self.next + 1, ..self },
            },
        }
    }
}

/// A round after a list of attempts.
pub open spec fn played(rows: Seq<i64>, verdicts: Seq<Verdict>) -> Round
    decreases verdicts.len(),
{
    if verdicts.len() == 0 {
        Round::of(rows)
    } else {
        played(rows, verdicts.drop_last()).after(verdicts.last())
    }
}

/// What an attempt means for a row.
pub open spec fn verdict_of(outcome: Result<(), DeliveryError>) -> Verdict {
    match outcome {
        Ok(_) => Verdict::Taken,
        Err(DeliveryError::Transient(_)) => Verdict::Later,
        Err(DeliveryError::Permanent(_)) => Verdict::Never,
    }
}

/// What is written down about a row before the next is sent.
#[derive(Debug)]
pub enum Note {
    /// Nothing yet: it is marked sent when the round ends.
    Nothing,
    /// It was attempted, and this is what came of it.
    Attempted(String),
    /// It is given up on, and this is the refusal.
    Abandoned(String),
}

/// One round over a backlog.
#[derive(Debug)]
pub struct Drain {
    rows: Vec<i64>,
    next: usize,
    sent: Vec<i64>,
    over: bool,
}

impl View for Drain {
    type V = Round;

    closed spec fn view(&self) -> Round {
        Round { rows: self.rows@, next: self.next as int, sent: self.sent@, over: self.over }
    }
}

impl Drain {
    /// A round over these rows, oldest first.
    pub fn new(rows: Vec<i64>) -> (d: Self)
        ensures
            d@ == Round::of(rows@),
    {
        Drain { rows, next: 0, sent: Vec::new(), over: false }
    }

    /// The row to send now; none when the round is over.
    pub fn wanted(&self) -> (row: Option<i64>)
        ensures
            row == self@.wanted(),
    {
        if !self.over && self.next < self.rows.len() {
            Some(self.rows[self.next])
        } else {
            None
        }
    }

    /// What became of a report, and what is written down about it now. A fleet
    /// that was not there ends the round, because it is not there for any of them;
    /// a refusal does not.
    pub fn reported(&mut self, outcome: Result<(), DeliveryError>) -> (note: Note)
        requires
            old(self)@.wanted() is Some,
        ensures
            final(self)@ == old(self)@.after(verdict_of(outcome)),
            match outcome {
                Ok(_) => note is Nothing,
                Err(DeliveryError::Transient(why)) => note matches Note::Attempted(said) && said@
                    == "the fleet did not take it, and might later: "@ + why@,
                Err(DeliveryError::Permanent(why)) => note matches Note::Abandoned(said) && said@
                    == "the fleet refused it, and will refuse it again: "@ + why@,
            },
    {
        let n: usize = self.rows.len();
        assert(self.next < n);
        match outcome {
            Ok(_) => {
                self.sent.push(self.rows[self.next]);
                self.next = self.next + 1;
                Note::Nothing
            },
            Err(e) => {
                let said = e.message();
                if e.is_transient() {
                    self.over = true;
                    Note::Attempted(said)
                } else {
                    self.next = self.next + 1;
                    Note::Abandoned(said)
                }
            },
        }
    }

    /// What became of a row of the record. A row that fails is left where it is,
    /// and so is everything behind it: the next round tries again.
    pub fn forwarded(&mut self, taken: bool)
        requires
            old(self)@.wanted() is Some,
        ensures
            final(self)@ == old(self)@.after(
                if taken {
                    Verdict::Taken
                } else {
                    Verdict::Later
                },
            ),
    {
        let n: usize = self.rows.len();
        assert(self.next < n);
        if taken {
            self.sent.push(self.rows[self.next]);
            self.next = self.next + 1;
        } else {
            self.over = true;
        }
    }

    /// The rows to mark as sent, where there are any.
    pub fn landed(self) -> (ids: Option<Vec<i64>>)
        ensures
            match ids {
                Some(ids) => ids@ == self@.sent && ids@.len() > 0,
                None => self@.sent.len() == 0,
            },
    {
        if self.sent.len() == 0 {
            None
        } else {
            Some(self.sent)
        }
    }
}

/// What the fleet's answer to one row of the record means.
pub fn accepted(status: u16, shown: &str) -> (r: Result<(), String>)
    ensures
        r is Ok <==> crate::report::is_success(status as int),
        r matches Err(why) ==> why@ == "the fleet answered "@ + shown@,
{
    if 200 <= status && status < 300 {
        Ok(())
    } else {
        let mut why = String::new();
        why.append("the fleet answered ");
        why.append(shown);
        assert(why@ =~= "the fleet answered "@ + shown@);
        Err(why)
    }
}

// ── What holds of every round ───────────────────────────────────────────────

proof fn lemma_played(rows: Seq<i64>, verdicts: Seq<Verdict>)
    ensures
        played(rows, verdicts).rows == rows,
        0 <= played(rows, verdicts).next <= rows.len(),
        played(rows, verdicts).next <= verdicts.len(),
        played(rows, verdicts).sent.len() <= played(rows, verdicts).next,
        !played(rows, verdicts).over && verdicts.len() <= rows.len() ==> played(
            rows,
            verdicts,
        ).next == verdicts.len(),
    decreases verdicts.len(),
{
    if verdicts.len() > 0 {
        lemma_played(rows, verdicts.drop_last());
    }
}

/// Whether the fleet was there for the first so many attempts.
pub open spec fn stayed_up(verdicts: Seq<Verdict>, n: int) -> bool {
    forall|j: int| 0 <= j < n ==> #[trigger] verdicts[j] != Verdict::Later
}

/// Whether an attempt took a row, with the fleet there for every one before it.
pub open spec fn was_taken(rows: Seq<i64>, verdicts: Seq<Verdict>, row: i64, k: int) -> bool {
    &&& 0 <= k < verdicts.len()
    &&& k < rows.len()
    &&& rows[k] == row
    &&& verdicts[k] == Verdict::Taken
    &&& stayed_up(verdicts, k)
}

/// How many attempts a round makes at most.
pub open spec fn attempts(rows: Seq<i64>, verdicts: Seq<Verdict>) -> int {
    if verdicts.len() < rows.len() {
        verdicts.len() as int
    } else {
        rows.len() as int
    }
}

/// A round ends early exactly where the fleet was not there for a row.
pub proof fn an_outage_ends_the_round(rows: Seq<i64>, verdicts: Seq<Verdict>)
    ensures
        played(rows, verdicts).over <==> !stayed_up(verdicts, attempts(rows, verdicts)),
        !played(rows, verdicts).over ==> played(rows, verdicts).next == attempts(rows, verdicts),
    decreases verdicts.len(),
{
    if verdicts.len() > 0 {
        let before = verdicts.drop_last();
        let n = verdicts.len() - 1;
        an_outage_ends_the_round(rows, before);
        lemma_played(rows, before);
        assert(forall|j: int| 0 <= j < n ==> verdicts[j] == before[j]);
        if !stayed_up(before, attempts(rows, before)) {
            let j = choose|j: int|
                0 <= j < attempts(rows, before) && #[trigger] before[j] == Verdict::Later;
            assert(verdicts[j] == Verdict::Later);
        } else {
            assert forall|j: int| 0 <= j < attempts(rows, before) implies #[trigger] verdicts[j]
                != Verdict::Later by {
                assert(before[j] != Verdict::Later);
            }
            assert(verdicts[n] == verdicts.last());
        }
    }
}

proof fn lemma_taken(rows: Seq<i64>, verdicts: Seq<Verdict>, row: i64)
    requires
        played(rows, verdicts).sent.contains(row),
    ensures
        exists|k: int| was_taken(rows, verdicts, row, k),
    decreases verdicts.len(),
{
    if verdicts.len() > 0 {
        let before = verdicts.drop_last();
        let n = verdicts.len() - 1;
        let was = played(rows, before);
        let is = played(rows, verdicts);
        assert(is == was.after(verdicts[n]));
        assert(forall|j: int| 0 <= j < n ==> verdicts[j] == before[j]);
        if was.sent.contains(row) {
            lemma_taken(rows, before, row);
            let k = choose|k: int| was_taken(rows, before, row, k);
            assert(stayed_up(verdicts, k));
            assert(was_taken(rows, verdicts, row, k));
        } else {
            let at = choose|at: int| 0 <= at < is.sent.len() && is.sent[at] == row;
            assert(at == was.sent.len());
            an_outage_ends_the_round(rows, before);
            lemma_played(rows, before);
            assert(stayed_up(verdicts, n));
            assert(was_taken(rows, verdicts, row, n));
        }
    } else {
        assert(false);
    }
}

proof fn lemma_marked(rows: Seq<i64>, verdicts: Seq<Verdict>, row: i64, k: int)
    requires
        was_taken(rows, verdicts, row, k),
    ensures
        played(rows, verdicts).sent.contains(row),
    decreases verdicts.len(),
{
    let before = verdicts.drop_last();
    let n = verdicts.len() - 1;
    let was = played(rows, before);
    let is = played(rows, verdicts);
    assert(is == was.after(verdicts[n]));
    assert(forall|j: int| 0 <= j < n ==> verdicts[j] == before[j]);
    if k < n {
        assert(stayed_up(before, k));
        lemma_marked(rows, before, row, k);
        let at = choose|at: int| 0 <= at < was.sent.len() && was.sent[at] == row;
        assert(is.sent[at] == row);
    } else {
        assert(stayed_up(before, n));
        an_outage_ends_the_round(rows, before);
        lemma_played(rows, before);
        assert(is.sent[is.sent.len() - 1] == row);
    }
}

/// A row is marked as sent exactly where the fleet took it in this round.
pub proof fn only_what_the_fleet_took_is_marked(rows: Seq<i64>, verdicts: Seq<Verdict>, row: i64)
    ensures
        played(rows, verdicts).sent.contains(row) <==> exists|k: int|
            was_taken(rows, verdicts, row, k),
{
    if played(rows, verdicts).sent.contains(row) {
        lemma_taken(rows, verdicts, row);
    }
    if exists|k: int| was_taken(rows, verdicts, row, k) {
        lemma_marked(
            rows,
            verdicts,
            row,
            choose|k: int| was_taken(rows, verdicts, row, k),
        );
    }
}

/// A fleet that is down is asked once a round: after it was not there, nothing
/// more is sent, whatever it would have said.
pub proof fn a_fleet_that_is_down_is_asked_once(rows: Seq<i64>, verdicts: Seq<Verdict>, v: Verdict)
    requires
        played(rows, verdicts).over,
    ensures
        played(rows, verdicts).wanted() is None,
        played(rows, verdicts.push(v)) == played(rows, verdicts),
{
    assert(verdicts.push(v).drop_last() =~= verdicts);
}

/// A report the fleet refuses does not hold up the next one.
pub proof fn a_refusal_holds_nothing_up(round: Round)
    requires
        round.wanted() is Some,
        0 <= round.next,
        round.next + 1 < round.rows.len(),
    ensures
        round.after(Verdict::Never).wanted() == Some(round.rows[round.next + 1]),
        round.after(Verdict::Never).sent == round.sent,
{
}

/// Every row is sent at most once a round, oldest first.
pub proof fn the_backlog_is_sent_in_order(rows: Seq<i64>, verdicts: Seq<Verdict>)
    requires
        played(rows, verdicts).wanted() is Some,
    ensures
        verdicts.len() < rows.len(),
        played(rows, verdicts).wanted() == Some(rows[verdicts.len() as int]),
{
    an_outage_ends_the_round(rows, verdicts);
    lemma_played(rows, verdicts);
}

/// What an attempt means for a row: a row the fleet took is taken, one it might take later
/// stays, and one it will refuse again leaves.
pub proof fn an_attempt_is_judged_by_its_answer(outcome: Result<(), DeliveryError>)
    ensures
        verdict_of(outcome) == Verdict::Taken <==> outcome is Ok,
        verdict_of(outcome) == Verdict::Later <==> outcome matches Err(DeliveryError::Transient(_)),
        verdict_of(outcome) == Verdict::Never <==> outcome matches Err(DeliveryError::Permanent(_)),
{
}

/// An attempt on the row that is wanted: one that is taken is marked and the next row is
/// wanted; an outage marks nothing, keeps the row and ends the round. Nothing is wanted of a
/// round that is over, and it changes no more.
pub proof fn an_attempt_decides_one_row(round: Round, verdict: Verdict)
    requires
        0 <= round.next,
    ensures
        round.wanted() is Some <==> !round.over && round.next < round.rows.len(),
        round.wanted() matches Some(row) ==> row == round.rows[round.next],
        round.after(verdict).rows == round.rows,
        round.wanted() is None ==> round.after(verdict) == round,
        round.wanted() is Some ==> {
            let after = round.after(verdict);
            &&& verdict == Verdict::Taken ==> after.next == round.next + 1 && after.sent
                == round.sent.push(round.rows[round.next]) && !after.over
            &&& verdict == Verdict::Later ==> after.next == round.next && after.sent == round.sent
                && after.over
            &&& verdict == Verdict::Never ==> after.next == round.next + 1 && after.sent
                == round.sent && !after.over
        },
{
}

/// A round begins at its oldest row with nothing sent.
pub proof fn a_round_begins_with_its_oldest_row(rows: Seq<i64>)
    ensures
        Round::of(rows).sent.len() == 0,
        rows.len() > 0 ==> Round::of(rows).wanted() == Some(rows[0]),
        rows.len() == 0 ==> Round::of(rows).wanted() is None,
        played(rows, Seq::empty()) == Round::of(rows),
{
}

/// A day goes to the one place under a base address, however many slashes the address was
/// written with.
pub proof fn a_day_goes_under_its_base_address(url: Seq<char>)
    ensures
        days_at(url) == crate::text::without_trailing(url, '/') + "/v1/days"@,
        days_at(url.push('/')) == days_at(url),
{
    assert(url.push('/').drop_last() =~= url);
}

} // verus!

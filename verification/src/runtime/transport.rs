//! One socket, one driver, for as long as the process lives.
//!
//! A driver never sees a socket: somebody else dials, reads, writes and sleeps,
//! and what to do next is decided here. Two things are easy to get wrong. A
//! reconnect has to be told to the driver, because nothing in a stream of bytes
//! says that the socket underneath it is a new one. And a deadline that has
//! already passed is no sleep at all.

use vstd::prelude::*;

use crate::clock::Instant;
use crate::drivers::LinkState;

verus! {

/// How long to wait before the first retry, seconds.
pub const BACKOFF_MIN: u64 = 1;

/// And the longest, seconds.
pub const BACKOFF_MAX: u64 = 60;

/// How long to wait before an appliance is dialled again, at first, seconds.
pub const RECONNECT_MIN: u64 = 2;

/// And at most, seconds.
pub const RECONNECT_MAX: u64 = 60;

/// How much is read from a socket at a time.
pub const READ_BUFFER: usize = 8192;

/// How long a driver without a deadline is left alone, nanoseconds.
pub const IDLE: i128 = 60_000_000_000;

// ── Waiting for a deadline ──────────────────────────────────────────────────

/// How long it is until an instant; nothing where it has passed.
pub open spec fn until(deadline: int, now: int) -> int {
    if deadline <= now {
        0
    } else {
        deadline - now
    }
}

/// How long to sleep until a deadline, nanoseconds. One that has passed is no
/// sleep: the driver is woken now.
pub fn wait_until(deadline: Instant, now: Instant) -> (ns: i128)
    requires
        crate::clock::in_calendar(deadline as int),
        crate::clock::in_calendar(now as int),
    ensures
        ns == until(deadline as int, now as int),
        ns >= 0,
{
    if deadline <= now {
        0
    } else {
        deadline - now
    }
}

/// How long a session sleeps where nothing arrives; for ever where its driver has
/// no deadline.
pub fn session_wait(deadline: Option<Instant>, now: Instant) -> (ns: Option<i128>)
    requires
        deadline matches Some(at) ==> crate::clock::in_calendar(at as int),
        crate::clock::in_calendar(now as int),
    ensures
        ns == match deadline {
            Some(at) => Some(until(at as int, now as int) as i128),
            None => None,
        },
{
    match deadline {
        Some(at) => Some(wait_until(at, now)),
        None => None,
    }
}

/// How long a driver that has only a clock sleeps.
pub fn clock_wait(deadline: Option<Instant>, now: Instant) -> (ns: i128)
    requires
        deadline matches Some(at) ==> crate::clock::in_calendar(at as int),
        crate::clock::in_calendar(now as int),
    ensures
        ns == match deadline {
            Some(at) => until(at as int, now as int),
            None => IDLE as int,
        },
{
    match deadline {
        Some(at) => wait_until(at, now),
        None => IDLE,
    }
}

/// A sleep ends no earlier than its deadline, and a deadline that has passed is
/// none.
pub proof fn a_deadline_that_has_passed_is_no_sleep(deadline: int, now: int)
    ensures
        now + until(deadline, now) >= deadline,
        deadline <= now ==> until(deadline, now) == 0,
        deadline > now ==> now + until(deadline, now) == deadline,
{
}

// ── Inside a session ────────────────────────────────────────────────────────

/// What woke a session.
#[derive(Debug, Clone, Copy, PartialEq, Eq, Structural)]
pub enum Woken {
    /// The process is asked to stop.
    Stopping,
    /// So many bytes were read; none means the peer closed the connection.
    Read(usize),
    /// The read failed.
    ReadFailed,
    /// What the driver said could not be written.
    WriteFailed,
    /// The driver's deadline came first.
    Deadline,
    /// What arrived, or what was to be sent, was no message at all.
    Garbled,
}

/// What a session does about it.
#[derive(Debug, Clone, Copy, PartialEq, Eq, Structural)]
pub enum Pump {
    /// Hand the driver so many bytes.
    Deliver(usize),
    /// Wake the driver.
    Wake,
    /// Go on as before.
    GoOn,
    /// The session is over.
    End,
}

/// What a session does about what woke it. One unreadable message is a device and
/// no outage; a socket that cannot be read or written is gone.
pub fn pump(woken: Woken) -> (p: Pump)
    ensures
        p == match woken {
            Woken::Stopping => Pump::End,
            Woken::Read(n) => if n == 0 {
                Pump::End
            } else {
                Pump::Deliver(n)
            },
            Woken::ReadFailed => Pump::End,
            Woken::WriteFailed => Pump::End,
            Woken::Deadline => Pump::Wake,
            Woken::Garbled => Pump::GoOn,
        },
{
    match woken {
        Woken::Stopping => Pump::End,
        Woken::Read(n) => if n == 0 {
            Pump::End
        } else {
            Pump::Deliver(n)
        },
        Woken::ReadFailed => Pump::End,
        Woken::WriteFailed => Pump::End,
        Woken::Deadline => Pump::Wake,
        Woken::Garbled => Pump::GoOn,
    }
}

// ── What a session carries ──────────────────────────────────────────────────

/// `eebus::model::Datagram`: what a session carries between a device and its driver.
#[verifier::external_type_specification]
#[verifier::external_body]
pub struct ExDatagram(eebus::model::Datagram);

/// The datagram some bytes are, where they are one.
pub uninterp spec fn datagram_of(bytes: Seq<u8>) -> Option<eebus::model::Datagram>;

/// The bytes a datagram is written as, where it can be.
pub uninterp spec fn bytes_of(datagram: eebus::model::Datagram) -> Option<Seq<u8>>;

/// `serde_json::from_slice` into `eebus::model::Datagram`. What it reads depends on the
/// bytes alone and is named; nothing more is said of which bytes are a datagram.
#[verifier::external_body]
fn parse_datagram(bytes: &[u8]) -> (r: Option<eebus::model::Datagram>)
    ensures
        r == datagram_of(bytes@),
{
    serde_json::from_slice::<eebus::model::Datagram>(bytes).ok()
}

/// `serde_json::to_vec` on an `eebus::model::Datagram`. What it writes depends on the
/// datagram alone and is named; nothing more is said of it, nor that reading it gives
/// the datagram back.
#[verifier::external_body]
fn encode_datagram(datagram: &eebus::model::Datagram) -> (r: Option<Vec<u8>>)
    ensures
        match r {
            Some(bytes) => bytes_of(*datagram) == Some(bytes@),
            None => bytes_of(*datagram) is None,
        },
{
    serde_json::to_vec(datagram).ok()
}

/// The datagram that goes out for what a driver wants to say, or what is to be made of
/// its being none.
pub fn outgoing(bytes: &[u8]) -> (r: Result<eebus::model::Datagram, Woken>)
    ensures
        r == match datagram_of(bytes@) {
            Some(datagram) => Ok::<eebus::model::Datagram, Woken>(datagram),
            None => Err(Woken::Garbled),
        },
{
    match parse_datagram(bytes) {
        Some(datagram) => Ok(datagram),
        None => Err(Woken::Garbled),
    }
}

/// The bytes a driver is handed for a datagram that arrived, or what is to be made of
/// there being none.
pub fn incoming(datagram: &eebus::model::Datagram) -> (r: Result<Vec<u8>, Woken>)
    ensures
        match bytes_of(*datagram) {
            Some(bytes) => r matches Ok(written) && written@ == bytes,
            None => r == Err::<Vec<u8>, Woken>(Woken::Garbled),
        },
{
    match encode_datagram(datagram) {
        Some(bytes) => Ok(bytes),
        None => Err(Woken::Garbled),
    }
}

// ── Around a session ────────────────────────────────────────────────────────

/// What whoever owns the socket is doing.
#[derive(Debug, Clone, Copy, PartialEq, Eq, Structural)]
pub enum Phase {
    /// Opening a connection.
    Dialling,
    /// Running a session over one.
    Session,
    /// Waiting before the next attempt.
    Waiting,
    /// Nothing more.
    Stopped,
}

/// What happened to it.
#[derive(Debug, Clone, Copy, PartialEq, Eq, Structural)]
pub enum Happened {
    /// The process is asked to stop.
    Stopping,
    /// The connection is open.
    Connected,
    /// It could not be opened.
    NotConnected,
    /// The session ended.
    Ended,
    /// The wait is over.
    Slept,
}

/// What it does next.
#[derive(Debug, Clone, Copy, PartialEq, Eq, Structural)]
pub enum Next {
    /// Open a connection.
    Dial,
    /// Run a session over the open one.
    Run,
    /// Wait so many seconds.
    Sleep(u64),
    /// Nothing: what happened does not concern what it is doing.
    Nothing,
    /// Stop.
    Stop,
}

/// What is done about something that happened.
#[derive(Debug, Clone, Copy, PartialEq, Eq, Structural)]
pub struct Action {
    /// What the driver is told about its link, before anything else.
    pub tell: Option<LinkState>,
    /// What is done then.
    pub next: Next,
}

/// Who owns a socket: what it is doing, and how patient it has become.
#[derive(Debug, Clone, Copy, PartialEq, Eq, Structural)]
pub struct Link {
    /// What it is doing.
    pub phase: Phase,
    /// How long it waits before the next attempt, seconds.
    pub backoff_s: u64,
    /// How long it waits at first.
    pub min_s: u64,
    /// And at most.
    pub max_s: u64,
    /// Whether an attempt that fails is told to the driver as well.
    pub tells_failures: bool,
}

/// Twice as long, up to the longest wait.
pub open spec fn doubled(wait: int, max: int) -> int {
    if 2 * wait < max {
        2 * wait
    } else {
        max
    }
}

impl Link {
    /// Whether the wait is one of those allowed.
    pub open spec fn is_patient(self) -> bool {
        1 <= self.min_s <= self.backoff_s <= self.max_s
    }

    /// What it is after something happened, and what is done about it.
    pub open spec fn after(self, happened: Happened) -> (Link, Action) {
        match (self.phase, happened) {
            (Phase::Stopped, _) => (self, Action { tell: None, next: Next::Stop }),
            (Phase::Session, Happened::Stopping) => (
                Link { phase: Phase::Stopped, ..self },
                Action { tell: Some(LinkState::Down), next: Next::Stop },
            ),
            (_, Happened::Stopping) => (
                Link { phase: Phase::Stopped, ..self },
                Action { tell: None, next: Next::Stop },
            ),
            (Phase::Dialling, Happened::Connected) => (
                Link { phase: Phase::Session, backoff_s: self.min_s, ..self },
                Action { tell: Some(LinkState::Up), next: Next::Run },
            ),
            (Phase::Dialling, Happened::NotConnected) => (
                Link { phase: Phase::Waiting, ..self },
                Action {
                    tell: if self.tells_failures {
                        Some(LinkState::Down)
                    } else {
                        None
                    },
                    next: Next::Sleep(self.backoff_s),
                },
            ),
            (Phase::Session, Happened::Ended) => (
                Link { phase: Phase::Waiting, ..self },
                Action { tell: Some(LinkState::Down), next: Next::Sleep(self.backoff_s) },
            ),
            (Phase::Waiting, Happened::Slept) => (
                Link {
                    phase: Phase::Dialling,
                    backoff_s: doubled(self.backoff_s as int, self.max_s as int) as u64,
                    ..self
                },
                Action { tell: None, next: Next::Dial },
            ),
            _ => (self, Action { tell: None, next: Next::Nothing }),
        }
    }

    /// Somebody who dials a device the box measures through.
    pub fn to_a_device() -> (link: Link)
        ensures
            link.is_patient(),
            link.phase == Phase::Dialling,
            link.backoff_s == BACKOFF_MIN,
            link.min_s == BACKOFF_MIN,
            link.max_s == BACKOFF_MAX,
            !link.tells_failures,
    {
        Link {
            phase: Phase::Dialling,
            backoff_s: BACKOFF_MIN,
            min_s: BACKOFF_MIN,
            max_s: BACKOFF_MAX,
            tells_failures: false,
        }
    }

    /// Somebody who dials an appliance by its identity.
    pub fn to_a_peer() -> (link: Link)
        ensures
            link.is_patient(),
            link.phase == Phase::Dialling,
            link.backoff_s == RECONNECT_MIN,
            link.min_s == RECONNECT_MIN,
            link.max_s == RECONNECT_MAX,
            link.tells_failures,
    {
        Link {
            phase: Phase::Dialling,
            backoff_s: RECONNECT_MIN,
            min_s: RECONNECT_MIN,
            max_s: RECONNECT_MAX,
            tells_failures: true,
        }
    }

    /// What is done about something that happened.
    pub fn on(&mut self, happened: Happened) -> (action: Action)
        requires
            old(self).is_patient(),
        ensures
            final(self).is_patient(),
            (*final(self), action) == old(self).after(happened),
    {
        match (self.phase, happened) {
            (Phase::Stopped, _) => Action { tell: None, next: Next::Stop },
            (Phase::Session, Happened::Stopping) => {
                self.phase = Phase::Stopped;
                Action { tell: Some(LinkState::Down), next: Next::Stop }
            },
            (_, Happened::Stopping) => {
                self.phase = Phase::Stopped;
                Action { tell: None, next: Next::Stop }
            },
            (Phase::Dialling, Happened::Connected) => {
                self.phase = Phase::Session;
                self.backoff_s = self.min_s;
                Action { tell: Some(LinkState::Up), next: Next::Run }
            },
            (Phase::Dialling, Happened::NotConnected) => {
                self.phase = Phase::Waiting;
                Action {
                    tell: if self.tells_failures {
                        Some(LinkState::Down)
                    } else {
                        None
                    },
                    next: Next::Sleep(self.backoff_s),
                }
            },
            (Phase::Session, Happened::Ended) => {
                self.phase = Phase::Waiting;
                Action { tell: Some(LinkState::Down), next: Next::Sleep(self.backoff_s) }
            },
            (Phase::Waiting, Happened::Slept) => {
                self.phase = Phase::Dialling;
                self.backoff_s = if self.backoff_s < self.max_s - self.backoff_s {
                    2 * self.backoff_s
                } else {
                    self.max_s
                };
                Action { tell: None, next: Next::Dial }
            },
            _ => Action { tell: None, next: Next::Nothing },
        }
    }
}

/// A driver is told about both edges of its link: up when a session begins, down
/// when one ends however it ended, and up at no other time.
pub proof fn a_link_is_told_on_both_edges(link: Link, happened: Happened)
    ensures
        link.phase != Phase::Session && link.after(happened).0.phase == Phase::Session
            <==> link.after(happened).1.tell == Some(LinkState::Up),
        link.phase == Phase::Session && link.after(happened).0.phase != Phase::Session
            ==> link.after(happened).1.tell == Some(LinkState::Down),
{
}

/// Nothing but the end of the process makes a link give up.
pub proof fn a_link_never_gives_up(link: Link, happened: Happened)
    requires
        link.phase != Phase::Stopped,
    ensures
        link.after(happened).0.phase == Phase::Stopped <==> happened == Happened::Stopping,
        link.after(happened).1.next == Next::Stop <==> happened == Happened::Stopping,
{
}

/// How long the wait is after so many attempts that failed one after the other.
pub open spec fn backed_off(min: int, max: int, failures: nat) -> int
    decreases failures,
{
    if failures == 0 {
        min
    } else {
        doubled(backed_off(min, max, (failures - 1) as nat), max)
    }
}

/// A link that has failed so many times in a row, as it dials again.
pub open spec fn failed_again(link: Link, failures: nat) -> Link
    decreases failures,
{
    if failures == 0 {
        link
    } else {
        failed_again(link, (failures - 1) as nat).after(Happened::NotConnected).0.after(
            Happened::Slept,
        ).0
    }
}

/// Every failure in a row doubles the wait, up to the longest and no further.
pub proof fn the_wait_doubles_up_to_the_longest(link: Link, failures: nat)
    requires
        link.is_patient(),
        link.phase == Phase::Dialling,
        link.backoff_s == link.min_s,
    ensures
        failed_again(link, failures).phase == Phase::Dialling,
        failed_again(link, failures).max_s == link.max_s,
        failed_again(link, failures).backoff_s == backed_off(
            link.min_s as int,
            link.max_s as int,
            failures,
        ),
        backed_off(link.min_s as int, link.max_s as int, failures) == {
            let full = link.min_s * vstd::arithmetic::power2::pow2(failures);
            if full < link.max_s {
                full
            } else {
                link.max_s as int
            }
        },
    decreases failures,
{
    vstd::arithmetic::power2::lemma2_to64();
    if failures > 0 {
        let fewer = (failures - 1) as nat;
        the_wait_doubles_up_to_the_longest(link, fewer);
        vstd::arithmetic::power2::lemma_pow2_unfold(failures);
        let p = vstd::arithmetic::power2::pow2(fewer) as int;
        let m = link.min_s as int;
        assert(m * (2 * p) == 2 * (m * p)) by (nonlinear_arith);
    }
}

/// An open connection makes a link impatient again, and nothing else does: the wait
/// is the shortest after one, and until then it only grows, each time it is waited
/// out. How long it waits at first and at most, and whether it tells of failures, is
/// settled when the link is made.
pub proof fn only_a_connection_makes_a_link_impatient(link: Link, happened: Happened)
    requires
        link.is_patient(),
    ensures
        link.after(happened).0.is_patient(),
        link.after(happened).0.min_s == link.min_s,
        link.after(happened).0.max_s == link.max_s,
        link.after(happened).0.tells_failures == link.tells_failures,
        link.after(happened).1.next == Next::Run ==> link.after(happened).0.backoff_s
            == link.min_s,
        link.after(happened).1.next != Next::Run ==> link.after(happened).0.backoff_s
            >= link.backoff_s,
        link.after(happened).0.backoff_s > link.backoff_s ==> link.after(happened).1.next
            == Next::Dial,
        link.after(happened).1.next == Next::Dial && link.backoff_s < link.max_s ==> link.after(
            happened,
        ).0.backoff_s > link.backoff_s,
{
}

/// What a link is told to do is what it is then doing: it dials when it is dialling,
/// waits as long as it has become patient when it is waiting, and is left as it was
/// where there is nothing to do.
pub proof fn a_link_does_what_it_is_doing(link: Link, happened: Happened)
    ensures
        match link.after(happened).1.next {
            Next::Dial => link.phase == Phase::Waiting && happened == Happened::Slept && link.after(
                happened,
            ).0.phase == Phase::Dialling,
            Next::Run => link.phase == Phase::Dialling && happened == Happened::Connected
                && link.after(happened).0.phase == Phase::Session,
            Next::Sleep(seconds) => seconds == link.backoff_s && link.after(happened).0.phase
                == Phase::Waiting && (link.phase == Phase::Dialling && happened
                == Happened::NotConnected || link.phase == Phase::Session && happened
                == Happened::Ended),
            Next::Nothing => link.after(happened).0 == link,
            Next::Stop => link.after(happened).0.phase == Phase::Stopped,
        },
        link.after(happened).0.phase != link.phase ==> link.after(happened).1.next
            != Next::Nothing,
{
}

/// No way forward is passed over: a wait that is over is followed by an attempt, an
/// attempt that succeeded by a session, and an attempt that failed or a session that
/// ended by a wait.
pub proof fn a_link_always_goes_on(link: Link)
    ensures
        link.phase == Phase::Waiting ==> link.after(Happened::Slept).1.next == Next::Dial,
        link.phase == Phase::Dialling ==> link.after(Happened::Connected).1.next == Next::Run,
        link.phase == Phase::Dialling ==> link.after(Happened::NotConnected).1.next is Sleep,
        link.phase == Phase::Session ==> link.after(Happened::Ended).1.next is Sleep,
{
}

/// Outside a session a driver hears of its link only where an attempt failed, and of
/// that only where failures are told.
pub proof fn a_failure_is_told_where_it_is_asked_for(link: Link, happened: Happened)
    ensures
        link.phase != Phase::Session && link.after(happened).1.tell == Some(LinkState::Down)
            <==> link.phase == Phase::Dialling && happened == Happened::NotConnected
            && link.tells_failures,
{
}

/// A later deadline is never a shorter sleep, and waiting for some of the time leaves
/// the rest of it.
pub proof fn a_sleep_is_the_time_that_is_left(deadline: int, now: int, later: int, passed: int)
    requires
        later >= 0,
        0 <= passed <= until(deadline, now),
    ensures
        until(deadline + later, now) >= until(deadline, now),
        until(deadline, now + passed) == until(deadline, now) - passed,
{
}

} // verus!

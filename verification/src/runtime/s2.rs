//! What an external energy manager asks of this household.
//!
//! A manager that has opened a session on a device sends instructions, and each
//! of them is believed for a while. An instruction that was accepted and then
//! overridden by a rule is owed an answer, once. A session that ends, or a
//! resource that is handed back, ends what was asked for with it.

use vstd::prelude::*;

use crate::clock::Instant;
use crate::drivers::{Measurement, Observed};
use crate::names::ByName;
use crate::runtime::api::{TurnedDown, NOT_FOUND};
use crate::site::{product, Site};

verus! {

/// `s2_kit::types::Id`: the identifier of an instruction. It is carried from the
/// session that received the instruction to the session that answers it.
#[verifier::external_type_specification]
#[verifier::external_body]
pub struct ExId(s2_kit::types::Id);

/// `s2_kit::message::Message`: one message of a session. It is carried between the
/// socket and the session.
#[verifier::external_type_specification]
#[verifier::external_body]
pub struct ExMessage(s2_kit::message::Message);

/// How the box lets a manager drive it.
#[derive(Debug, Clone, Copy, PartialEq, Eq, Structural)]
pub struct S2Settings {
    /// Whether the surface exists at all.
    pub enabled: bool,
    /// How long an instruction is believed, in seconds.
    pub instruction_for_secs: u64,
    /// How often the household's own measurements are published, in seconds.
    pub report_every_secs: u64,
}

impl Default for S2Settings {
    fn default() -> (s: Self)
        ensures
            s == (S2Settings {
                enabled: false,
                instruction_for_secs: 900,
                report_every_secs: 5,
            }),
    {
        S2Settings { enabled: false, instruction_for_secs: 15 * 60, report_every_secs: 5 }
    }
}

impl S2Settings {
    /// How long an instruction is believed, in nanoseconds. No more seconds than
    /// a signed count of them holds.
    pub open spec fn belief(self) -> int {
        crate::clock::SECOND * if self.instruction_for_secs <= i64::MAX {
            self.instruction_for_secs as int
        } else {
            i64::MAX as int
        }
    }

    /// How long an instruction is believed, in nanoseconds.
    pub fn instruction_for(&self) -> (d: i128)
        ensures
            d == self.belief(),
    {
        let secs: u64 = if self.instruction_for_secs <= 0x7fff_ffff_ffff_ffff {
            self.instruction_for_secs
        } else {
            0x7fff_ffff_ffff_ffff
        };
        secs as i128 * crate::clock::SECOND
    }

    /// How many seconds lie between two reports: at least one.
    pub fn report_period(&self) -> (s: u64)
        ensures
            s == if self.report_every_secs == 0 {
                1
            } else {
                self.report_every_secs
            },
    {
        if self.report_every_secs == 0 {
            1
        } else {
            self.report_every_secs
        }
    }
}

/// All the powers between two, in milliwatts.
#[derive(Debug, Clone, Copy, PartialEq, Eq, Structural)]
pub struct Interval {
    /// The least.
    pub low: i64,
    /// The most.
    pub high: i64,
}

/// What a manager asks of a device, in milliwatts.
#[derive(Debug, Clone, Copy, PartialEq, Eq, Structural)]
pub enum Wanted {
    /// This power.
    Power(i64),
    /// Any power between these.
    Envelope(Interval),
}

/// What a manager asks of a device, and until when it is believed.
#[derive(Debug, Clone, Copy, PartialEq, Eq, Structural)]
pub struct CemRequest {
    /// What it asks.
    pub wanted: Wanted,
    /// When it stops being believed.
    pub until: Instant,
}

/// Of some requests those that are still believed.
pub open spec fn live(
    requests: Map<Seq<char>, CemRequest>,
    now: int,
) -> Map<Seq<char>, CemRequest> {
    Map::new(
        |k: Seq<char>| requests.dom().contains(k) && requests[k].until > now,
        |k: Seq<char>| requests[k],
    )
}

/// An instruction this box accepted, and whether the manager has been told what
/// became of it.
#[derive(Clone, Copy)]
pub struct Outstanding {
    /// The instruction's own identifier.
    pub id: s2_kit::types::Id,
    /// Whether the manager has been told it was overridden.
    pub told: bool,
}

/// What a session decided about one instruction.
#[derive(Debug, Clone, Copy, PartialEq, Eq, Structural)]
pub enum Instructed {
    /// A power to hold.
    Power(i64),
    /// An interval to stay in; nothing where it leaves none to this device.
    Envelope(Option<Interval>),
    /// A relay state, which is decided elsewhere.
    SgReady,
    /// A programme start, which is decided elsewhere.
    Start,
}

/// What a session said.
#[derive(Clone, Copy)]
pub enum SessionEvent {
    /// The manager selected a control type.
    Ready,
    /// It sent an instruction.
    Instructed(Instructed, s2_kit::types::Id),
    /// It sent one that was refused.
    Refused,
    /// It handed the resource back.
    Released,
    /// The session ended on a protocol fault.
    Closed,
}

/// What the managers ask for, and what they are owed.
pub struct Cem {
    /// What each device is asked for.
    pub requests: ByName<CemRequest>,
    /// The instruction behind each request.
    pub outstanding: ByName<Outstanding>,
    /// The devices on which a rule overrides a manager, and the rule.
    pub overridden: ByName<String>,
    /// The devices a manager has a session on.
    pub active: ByName<()>,
    /// How many instructions were refused.
    pub refused: u64,
    /// How many were accepted that the arbiter does not act on.
    pub unactioned: u64,
}

/// What a screen says about the managers.
#[derive(Debug)]
pub struct CemStatus {
    /// Devices a manager has a session on.
    pub connected: Vec<String>,
    /// Devices a manager has a live instruction on.
    pub instructing: Vec<String>,
    /// Devices where a rule overrides what the manager asked for, and the rule.
    pub overridden: Vec<(String, String)>,
    /// Instructions refused.
    pub refused: u64,
    /// Instructions accepted that the arbiter does not act on.
    pub unactioned: u64,
}

/// Whether an event is an instruction that nothing acts on.
pub open spec fn is_unactioned(event: SessionEvent) -> bool {
    match event {
        SessionEvent::Instructed(wanted, _) => match wanted {
            Instructed::Power(_) => false,
            Instructed::Envelope(interval) => interval is None,
            Instructed::SgReady => true,
            Instructed::Start => true,
        },
        _ => false,
    }
}

/// What an event asks of its device, where it asks anything.
pub open spec fn asked(event: SessionEvent) -> Option<Wanted> {
    match event {
        SessionEvent::Instructed(wanted, _) => match wanted {
            Instructed::Power(p) => Some(Wanted::Power(p)),
            Instructed::Envelope(Some(interval)) => Some(Wanted::Envelope(interval)),
            _ => None,
        },
        _ => None,
    }
}

/// What is asked of the devices after one event on one of them.
pub open spec fn requests_after(
    before: Map<Seq<char>, CemRequest>,
    asset: Seq<char>,
    event: SessionEvent,
    until: int,
) -> Map<Seq<char>, CemRequest> {
    match asked(event) {
        Some(wanted) => before.insert(asset, CemRequest { wanted, until: until as i128 }),
        None => if event is Released {
            before.remove(asset)
        } else {
            before
        },
    }
}

/// What is owed an answer after one event on one device.
pub open spec fn outstanding_after(
    before: Map<Seq<char>, Outstanding>,
    asset: Seq<char>,
    event: SessionEvent,
) -> Map<Seq<char>, Outstanding> {
    match event {
        SessionEvent::Instructed(_, id) => if asked(event) is Some {
            before.insert(asset, Outstanding { id, told: false })
        } else {
            before
        },
        SessionEvent::Released => before.remove(asset),
        _ => before,
    }
}

/// Which devices have a session after one event on one of them.
pub open spec fn active_after(
    before: Set<Seq<char>>,
    asset: Seq<char>,
    event: SessionEvent,
) -> Set<Seq<char>> {
    match event {
        SessionEvent::Ready => before.insert(asset),
        SessionEvent::Released => before.remove(asset),
        _ => before,
    }
}

/// Which devices a rule overrides a manager on after one event on one of them.
pub open spec fn overridden_after(
    before: Map<Seq<char>, String>,
    asset: Seq<char>,
    event: SessionEvent,
) -> Map<Seq<char>, String> {
    if event is Released {
        before.remove(asset)
    } else {
        before
    }
}

/// Everything the managers' state is, as maps.
#[verifier::ext_equal]
pub struct Standing {
    /// What each device is asked for.
    pub requests: Map<Seq<char>, CemRequest>,
    /// The instruction behind each request.
    pub outstanding: Map<Seq<char>, Outstanding>,
    /// The devices a rule overrides a manager on.
    pub overridden: Map<Seq<char>, String>,
    /// The devices a manager has a session on.
    pub active: Set<Seq<char>>,
    /// How many instructions were refused.
    pub refused: int,
    /// How many were accepted that nothing acts on.
    pub unactioned: int,
}

/// Where the managers stand after one event on one device.
pub open spec fn standing_after(
    before: Standing,
    asset: Seq<char>,
    event: SessionEvent,
    until: int,
) -> Standing {
    Standing {
        requests: requests_after(before.requests, asset, event, until),
        outstanding: outstanding_after(before.outstanding, asset, event),
        overridden: overridden_after(before.overridden, asset, event),
        active: active_after(before.active, asset, event),
        refused: before.refused + if event is Refused {
            1int
        } else {
            0int
        },
        unactioned: before.unactioned + if is_unactioned(event) {
            1int
        } else {
            0int
        },
    }
}

/// Where the managers stand after events on one device, in order.
pub open spec fn standing_after_all(
    before: Standing,
    asset: Seq<char>,
    events: Seq<SessionEvent>,
    until: int,
) -> Standing
    decreases events.len(),
{
    if events.len() == 0 {
        before
    } else {
        standing_after(
            standing_after_all(before, asset, events.drop_last(), until),
            asset,
            events.last(),
            until,
        )
    }
}

/// Whether some event ended the session.
pub open spec fn ends(events: Seq<SessionEvent>) -> bool {
    exists|i: int| 0 <= i < events.len() && #[trigger] events[i] is Closed
}

impl View for Cem {
    type V = Standing;

    open spec fn view(&self) -> Standing {
        Standing {
            requests: self.requests@,
            outstanding: self.outstanding@,
            overridden: self.overridden@,
            active: self.active@.dom(),
            refused: self.refused as int,
            unactioned: self.unactioned as int,
        }
    }
}

impl Cem {
    /// Every list is in the order of its devices.
    pub open spec fn in_order(self) -> bool {
        &&& self.requests.in_order()
        &&& self.outstanding.in_order()
        &&& self.overridden.in_order()
        &&& self.active.in_order()
    }

    /// Nothing is asked for.
    pub fn new() -> (c: Self)
        ensures
            c.in_order(),
            c@ == (Standing {
                requests: Map::empty(),
                outstanding: Map::empty(),
                overridden: Map::empty(),
                active: Set::empty(),
                refused: 0,
                unactioned: 0,
            }),
    {
        let c = Cem {
            requests: ByName::new(),
            outstanding: ByName::new(),
            overridden: ByName::new(),
            active: ByName::new(),
            refused: 0,
            unactioned: 0,
        };
        assert(c@.active =~= Set::<Seq<char>>::empty());
        c
    }

    fn expire(&mut self, now: Instant)
        requires
            old(self).in_order(),
        ensures
            final(self).in_order(),
            final(self)@ == (Standing {
                requests: live(old(self)@.requests, now as int),
                ..old(self)@
            }),
    {
        let still = |r: &CemRequest| -> (b: bool)
            ensures
                b == (r.until > now),
            { r.until > now };
        self.requests.retain(still);
        proof {
            assert forall|k: Seq<char>| #[trigger]
                self.requests@.dom().contains(k) == live(
                    old(self).requests@,
                    now as int,
                ).dom().contains(k) by {
                if self.requests@.dom().contains(k) {
                    assert(old(self).requests@.dom().contains(k));
                }
                if old(self).requests@.dom().contains(k) && !self.requests@.dom().contains(k) {
                    assert(call_ensures(still, (&old(self).requests@[k],), false));
                }
            }
            assert forall|k: Seq<char>| #[trigger] self.requests@.dom().contains(k) implies
                self.requests@[k] == live(old(self).requests@, now as int)[k] by {
                assert(old(self).requests@.dom().contains(k));
            }
            assert(self.requests@ =~= live(old(self).requests@, now as int));
        }
    }

    /// What the managers ask for now, as the arbiter wants it. What is no longer
    /// believed is dropped on the way past.
    pub fn active(&mut self, now: Instant) -> (r: ByName<CemRequest>)
        requires
            old(self).in_order(),
        ensures
            final(self).in_order(),
            final(self)@ == (Standing {
                requests: live(old(self)@.requests, now as int),
                ..old(self)@
            }),
            r.in_order(),
            r@ == live(old(self)@.requests, now as int),
    {
        self.expire(now);
        self.requests.copied()
    }

    /// What a screen says about the managers.
    pub fn status(&mut self, now: Instant) -> (s: CemStatus)
        requires
            old(self).in_order(),
        ensures
            final(self).in_order(),
            final(self)@ == (Standing {
                requests: live(old(self)@.requests, now as int),
                ..old(self)@
            }),
            s.connected@.len() == final(self).active.listed().len(),
            forall|i: int|
                0 <= i < s.connected@.len() ==> (#[trigger] s.connected@[i])@ == final(self).active.listed()[i].0@,
            s.instructing@.len() == final(self).requests.listed().len(),
            forall|i: int|
                0 <= i < s.instructing@.len() ==> (#[trigger] s.instructing@[i])@ == final(self).requests.listed()[i].0@,
            reports_overrides(
                s.overridden@,
                final(self).overridden.listed(),
                live(old(self)@.requests, now as int).dom(),
            ),
            s.refused == old(self)@.refused,
            s.unactioned == old(self)@.unactioned,
    {
        self.expire(now);
        let mut overridden: Vec<(String, String)> = Vec::new();
        let n: usize = self.overridden.len();
        let ghost listed = self.overridden.listed();
        let ghost asked = self.requests@.dom();
        let mut i: usize = 0;
        assert(listed.take(0) =~= Seq::<(String, String)>::empty());
        while i < n
            invariant
                n == listed.len(),
                listed == self.overridden.listed(),
                asked == self.requests@.dom(),
                self.in_order(),
                i <= n,
                reports_overrides(overridden@, listed.take(i as int), asked),
            decreases n - i,
        {
            assert(listed.take(i + 1).drop_last() =~= listed.take(i as int));
            let ghost before = overridden@;
            let asset = self.overridden.name_at(i);
            if self.requests.contains(asset) {
                overridden.push((asset.to_owned(), self.overridden.value_at(i).clone()));
                assert(overridden@.drop_last() =~= before);
            }
            i = i + 1;
        }
        assert(listed.take(n as int) =~= listed);
        CemStatus {
            connected: self.active.names(),
            instructing: self.requests.names(),
            overridden,
            refused: self.refused,
            unactioned: self.unactioned,
        }
    }

    /// Which devices a rule is overriding a manager on. The whole map at once,
    /// so that an override that has lifted disappears by not being mentioned.
    pub fn note_overrides(&mut self, overridden: ByName<String>)
        requires
            old(self).in_order(),
            overridden.in_order(),
        ensures
            final(self).in_order(),
            final(self)@ == (Standing { overridden: overridden@, ..old(self)@ }),
    {
        self.overridden = overridden;
    }

    /// The instruction a manager is owed an abort for on one device, and the
    /// rule that overrode it. The answer is given once per instruction.
    pub fn owed_abort(&mut self, asset: &str) -> (r: Option<(s2_kit::types::Id, String)>)
        requires
            old(self).in_order(),
        ensures
            final(self).in_order(),
            match r {
                Some((id, rule)) => {
                    &&& is_owed(old(self)@, asset@)
                    &&& id == old(self)@.outstanding[asset@].id
                    &&& rule@ == old(self)@.overridden[asset@]@
                    &&& final(self)@ == (Standing {
                        outstanding: old(self)@.outstanding.insert(
                            asset@,
                            Outstanding { id, told: true },
                        ),
                        ..old(self)@
                    })
                },
                None => !is_owed(old(self)@, asset@) && final(self)@ == old(self)@,
            },
    {
        let rule: String = match self.overridden.get(asset) {
            Some(rule) => rule.clone(),
            None => {
                return None;
            },
        };
        let held: Outstanding = match self.outstanding.get(asset) {
            Some(o) => *o,
            None => {
                return None;
            },
        };
        if held.told {
            return None;
        }
        self.outstanding.insert(asset.to_owned(), Outstanding { id: held.id, told: true });
        Some((held.id, rule))
    }

    /// A session ended: the manager stops deciding for that device now rather
    /// than when its last instruction would have expired.
    pub fn closed(&mut self, asset: &str)
        requires
            old(self).in_order(),
        ensures
            final(self).in_order(),
            final(self)@ == (Standing {
                requests: old(self)@.requests.remove(asset@),
                outstanding: old(self)@.outstanding.remove(asset@),
                overridden: old(self)@.overridden.remove(asset@),
                active: old(self)@.active.remove(asset@),
                ..old(self)@
            }),
    {
        self.active.remove(asset);
        self.requests.remove(asset);
        self.outstanding.remove(asset);
        self.overridden.remove(asset);
        assert(self@.active =~= old(self)@.active.remove(asset@));
    }

    fn take(&mut self, asset: &str, event: SessionEvent, until: Instant)
        requires
            old(self).in_order(),
            old(self).refused < u64::MAX,
            old(self).unactioned < u64::MAX,
        ensures
            final(self).in_order(),
            final(self)@ == standing_after(old(self)@, asset@, event, until as int),
    {
        match event {
            SessionEvent::Ready => {
                self.active.insert(asset.to_owned(), ());
                assert(self@.active =~= old(self)@.active.insert(asset@));
            },
            SessionEvent::Instructed(wanted, id) => {
                let request: Option<Wanted> = match wanted {
                    Instructed::Power(power) => Some(Wanted::Power(power)),
                    Instructed::Envelope(interval) => match interval {
                        Some(interval) => Some(Wanted::Envelope(interval)),
                        None => None,
                    },
                    Instructed::SgReady => None,
                    Instructed::Start => None,
                };
                match request {
                    Some(wanted) => {
                        self.requests.insert(asset.to_owned(), CemRequest { wanted, until });
                        self.outstanding.insert(
                            asset.to_owned(),
                            Outstanding { id, told: false },
                        );
                    },
                    None => {
                        self.unactioned = self.unactioned + 1;
                    },
                }
            },
            SessionEvent::Refused => {
                self.refused = self.refused + 1;
            },
            SessionEvent::Released => {
                self.closed(asset);
            },
            SessionEvent::Closed => {},
        }
        assert(self@ =~= standing_after(old(self)@, asset@, event, until as int));
    }

    /// Turn what a session decided into what the arbiter reads. Returns whether
    /// the session is over.
    pub fn apply(
        &mut self,
        asset: &str,
        events: &Vec<SessionEvent>,
        settings: &S2Settings,
        now: Instant,
    ) -> (over: bool)
        requires
            old(self).in_order(),
            crate::clock::in_calendar(now as int),
            crate::clock::in_calendar(now + settings.belief()),
            old(self).refused + events@.len() <= u64::MAX,
            old(self).unactioned + events@.len() <= u64::MAX,
        ensures
            final(self).in_order(),
            final(self)@ == standing_after_all(
                old(self)@,
                asset@,
                events@,
                now + settings.belief(),
            ),
            over == ends(events@),
    {
        let until: Instant = now + settings.instruction_for();
        let mut over: bool = false;
        let mut i: usize = 0;
        assert(events@.take(0) =~= Seq::<SessionEvent>::empty());
        while i < events.len()
            invariant
                i <= events@.len(),
                self.in_order(),
                until == now + settings.belief(),
                self@ == standing_after_all(
                    old(self)@,
                    asset@,
                    events@.take(i as int),
                    until as int,
                ),
                self.refused <= old(self).refused + i,
                self.unactioned <= old(self).unactioned + i,
                old(self).refused + events@.len() <= u64::MAX,
                old(self).unactioned + events@.len() <= u64::MAX,
                over == ends(events@.take(i as int)),
            decreases events@.len() - i,
        {
            let ghost upto = events@.take(i as int);
            let ghost next = events@.take(i + 1);
            assert(next.drop_last() =~= upto);
            let event = events[i];
            self.take(asset, event, until);
            if matches!(event, SessionEvent::Closed) {
                over = true;
            }
            proof {
                assert(next[i as int] == event);
                if ends(upto) {
                    let j = choose|j: int| 0 <= j < upto.len() && #[trigger] upto[j] is Closed;
                    assert(next[j] == upto[j]);
                }
                if ends(next) && !(event is Closed) {
                    let j = choose|j: int| 0 <= j < next.len() && #[trigger] next[j] is Closed;
                    assert(upto[j] == next[j]);
                }
            }
            i = i + 1;
        }
        assert(events@.take(events@.len() as int) =~= events@);
        over
    }
}

/// Whether a manager is owed an abort on a device.
pub open spec fn is_owed(s: Standing, asset: Seq<char>) -> bool {
    s.overridden.dom().contains(asset) && s.outstanding.dom().contains(asset)
        && !s.outstanding[asset].told
}

/// Whether a list names the overrides of the devices that are asked for
/// something, and no others, in their order.
pub open spec fn reports_overrides(
    out: Seq<(String, String)>,
    listed: Seq<(String, String)>,
    asked: Set<Seq<char>>,
) -> bool
    decreases listed.len(),
{
    if listed.len() == 0 {
        out.len() == 0
    } else if asked.contains(listed.last().0@) {
        &&& out.len() > 0
        &&& out.last().0@ == listed.last().0@
        &&& out.last().1@ == listed.last().1@
        &&& reports_overrides(out.drop_last(), listed.drop_last(), asked)
    } else {
        reports_overrides(out, listed.drop_last(), asked)
    }
}

/// A manager is told of an override once per instruction: once it has been, it is
/// owed nothing until another instruction is accepted.
pub proof fn an_abort_is_told_once(
    s: Standing,
    asset: Seq<char>,
    events: Seq<SessionEvent>,
    until: int,
)
    requires
        s.outstanding.dom().contains(asset) ==> s.outstanding[asset].told,
        forall|i: int| 0 <= i < events.len() ==> asked(#[trigger] events[i]) is None,
    ensures
        !is_owed(standing_after_all(s, asset, events, until), asset),
    decreases events.len(),
{
    lemma_stays_told(s, asset, events, until);
}

proof fn lemma_stays_told(s: Standing, asset: Seq<char>, events: Seq<SessionEvent>, until: int)
    requires
        s.outstanding.dom().contains(asset) ==> s.outstanding[asset].told,
        forall|i: int| 0 <= i < events.len() ==> asked(#[trigger] events[i]) is None,
    ensures
        ({
            let after = standing_after_all(s, asset, events, until);
            after.outstanding.dom().contains(asset) ==> after.outstanding[asset].told
        }),
    decreases events.len(),
{
    if events.len() > 0 {
        let rest = events.drop_last();
        assert forall|i: int| 0 <= i < rest.len() implies asked(#[trigger] rest[i]) is None by {
            assert(rest[i] == events[i]);
        }
        lemma_stays_told(s, asset, rest, until);
        assert(asked(events[events.len() - 1]) is None);
    }
}

/// A manager that hands a resource back, or whose session ends, is no longer
/// managing it: nothing it asked for is left, nothing is owed to it, and nobody
/// else's device is touched.
pub proof fn a_released_device_is_nobodys(s: Standing, asset: Seq<char>, until: int)
    ensures
        ({
            let after = standing_after(s, asset, SessionEvent::Released, until);
            &&& !after.requests.dom().contains(asset)
            &&& !after.active.contains(asset)
            &&& !is_owed(after, asset)
            &&& forall|other: Seq<char>|
                other != asset && s.requests.dom().contains(other)
                    ==> #[trigger] after.requests.dom().contains(other) && after.requests[other]
                    == s.requests[other]
        }),
{
}

// ── The connection ──────────────────────────────────────────────────────────

/// What a socket brought.
#[derive(Debug, Clone, Copy, PartialEq, Eq, Structural)]
pub enum Frame {
    /// A text that is a message.
    Message,
    /// A text that is not.
    Unreadable,
    /// The peer closed, or there is nothing more to come.
    Closed,
    /// A frame the protocol does not use.
    Other,
    /// The connection failed.
    Failed,
}

/// The message a text is, where it is one.
pub uninterp spec fn message_of(text: Seq<char>) -> Option<s2_kit::message::Message>;

/// The text a message is written as, where it can be.
pub uninterp spec fn text_of(message: s2_kit::message::Message) -> Option<Seq<char>>;

/// `serde_json::from_str` into `s2_kit::message::Message`. What it reads depends on the
/// text alone and is named; nothing more is said of which texts are messages.
#[verifier::external_body]
fn parse_message(text: &str) -> (r: Option<s2_kit::message::Message>)
    ensures
        r == message_of(text@),
{
    serde_json::from_str::<s2_kit::message::Message>(text).ok()
}

/// `serde_json::to_string` on a `s2_kit::message::Message`. What it writes depends on
/// the message alone and is named; nothing more is said of it, nor that reading it
/// gives the message back.
#[verifier::external_body]
fn encode_message(message: &s2_kit::message::Message) -> (r: Option<String>)
    ensures
        match r {
            Some(text) => text_of(*message) == Some(text@),
            None => text_of(*message) is None,
        },
{
    serde_json::to_string(message).ok()
}

/// What a text frame is, and the message in it.
pub fn read_text(text: &str) -> (r: (Frame, Option<s2_kit::message::Message>))
    ensures
        r.1 == message_of(text@),
        r.0 == if message_of(text@) is Some {
            Frame::Message
        } else {
            Frame::Unreadable
        },
{
    match parse_message(text) {
        Some(message) => (Frame::Message, Some(message)),
        None => (Frame::Unreadable, None),
    }
}

/// The text that goes out for the next message a session has queued, or what is to be
/// made of there being none.
pub fn write_text(queued: Option<&s2_kit::message::Message>) -> (r: Result<String, Occurred>)
    ensures
        match queued {
            None => r == Err::<String, Occurred>(Occurred::NothingQueued),
            Some(message) => match text_of(*message) {
                None => r == Err::<String, Occurred>(Occurred::Unencodable),
                Some(text) => r matches Ok(written) && written@ == text,
            },
        },
{
    match queued {
        None => Err(Occurred::NothingQueued),
        Some(message) => match encode_message(message) {
            Some(text) => Ok(text),
            None => Err(Occurred::Unencodable),
        },
    }
}

/// Where a connection is.
#[derive(Debug, Clone, Copy, PartialEq, Eq, Structural)]
pub enum Serving {
    /// What the session has queued is going out.
    Sending,
    /// It waits for a frame or for the next report.
    Listening,
    /// What the session decided is being taken over.
    Settling,
    /// It is over.
    Over,
}

/// What happened on a connection.
#[derive(Debug, Clone, Copy, PartialEq, Eq, Structural)]
pub enum Occurred {
    /// A queued message went out.
    Sent,
    /// A queued message could not be written as text.
    Unencodable,
    /// The socket would not take a queued message.
    SendFailed,
    /// Nothing was queued.
    NothingQueued,
    /// The socket brought a frame.
    Brought(Frame),
    /// A report is due.
    ReportDue,
    /// What the session decided was taken over: whether it has ended.
    Applied(bool),
}

/// What follows from it.
#[derive(Debug, Clone, Copy, PartialEq, Eq, Structural)]
pub enum Turn {
    /// Send the next message the session has queued.
    Transmit,
    /// Wait for a frame or for the next report.
    Wait,
    /// Hand the message to the session, and take over what it decides.
    Deliver,
    /// Leave the frame unread, and take over what the session decided.
    Ignore,
    /// Report the household's measurements, tell the manager of an abort it is
    /// owed, and take over what the session decided.
    Report,
    /// Forget what the manager asked for: the connection is over.
    Close,
}

/// Whether something can happen where a connection is.
pub open spec fn can_occur(at: Serving, occurred: Occurred) -> bool {
    match at {
        Serving::Sending => matches!(
            occurred,
            Occurred::Sent | Occurred::Unencodable | Occurred::SendFailed | Occurred::NothingQueued
        ),
        Serving::Listening => matches!(occurred, Occurred::Brought(_) | Occurred::ReportDue),
        Serving::Settling => matches!(occurred, Occurred::Applied(_)),
        Serving::Over => false,
    }
}

/// Where a connection goes, and what is done there. Everything queued goes out
/// before anything is waited for; a frame nobody can read is a manager speaking a
/// dialect, and no reason to hang up.
pub open spec fn turn_after(at: Serving, occurred: Occurred) -> (Serving, Turn) {
    match (at, occurred) {
        (Serving::Sending, Occurred::Sent) => (Serving::Sending, Turn::Transmit),
        (Serving::Sending, Occurred::Unencodable) => (Serving::Sending, Turn::Transmit),
        (Serving::Sending, _) => (Serving::Listening, Turn::Wait),
        (Serving::Listening, Occurred::Brought(Frame::Message)) => (
            Serving::Settling,
            Turn::Deliver,
        ),
        (Serving::Listening, Occurred::Brought(Frame::Closed)) => (Serving::Over, Turn::Close),
        (Serving::Listening, Occurred::Brought(Frame::Failed)) => (Serving::Over, Turn::Close),
        (Serving::Listening, Occurred::Brought(_)) => (Serving::Settling, Turn::Ignore),
        (Serving::Listening, _) => (Serving::Settling, Turn::Report),
        (Serving::Settling, Occurred::Applied(true)) => (Serving::Over, Turn::Close),
        (Serving::Settling, _) => (Serving::Sending, Turn::Transmit),
        (Serving::Over, _) => (Serving::Over, Turn::Close),
    }
}

impl Serving {
    /// A connection that has just been opened. The box speaks first.
    pub fn opened() -> (r: (Serving, Turn))
        ensures
            r == (Serving::Sending, Turn::Transmit),
    {
        (Serving::Sending, Turn::Transmit)
    }

    /// Where a connection goes, and what is done there.
    pub fn serve(self, occurred: Occurred) -> (r: (Serving, Turn))
        requires
            can_occur(self, occurred),
        ensures
            r == turn_after(self, occurred),
    {
        match (self, occurred) {
            (Serving::Sending, Occurred::Sent) => (Serving::Sending, Turn::Transmit),
            (Serving::Sending, Occurred::Unencodable) => (Serving::Sending, Turn::Transmit),
            (Serving::Sending, _) => (Serving::Listening, Turn::Wait),
            (Serving::Listening, Occurred::Brought(frame)) => match frame {
                Frame::Message => (Serving::Settling, Turn::Deliver),
                Frame::Unreadable | Frame::Other => (Serving::Settling, Turn::Ignore),
                Frame::Closed | Frame::Failed => (Serving::Over, Turn::Close),
            },
            (Serving::Listening, _) => (Serving::Settling, Turn::Report),
            (Serving::Settling, Occurred::Applied(over)) => if over {
                (Serving::Over, Turn::Close)
            } else {
                (Serving::Sending, Turn::Transmit)
            },
            (Serving::Settling, _) => (Serving::Sending, Turn::Transmit),
            (Serving::Over, _) => (Serving::Over, Turn::Close),
        }
    }
}

/// Where a connection is once something has happened, one thing after another.
pub open spec fn serving_after(occurred: Seq<Occurred>) -> Serving
    decreases occurred.len(),
{
    if occurred.len() == 0 {
        Serving::Sending
    } else {
        turn_after(serving_after(occurred.drop_last()), occurred.last()).0
    }
}

/// Whether each of them could happen where the connection was.
pub open spec fn is_a_connection(occurred: Seq<Occurred>) -> bool
    decreases occurred.len(),
{
    occurred.len() > 0 ==> {
        &&& is_a_connection(occurred.drop_last())
        &&& can_occur(serving_after(occurred.drop_last()), occurred.last())
    }
}

/// How often what the manager asked for was forgotten.
pub open spec fn closes(occurred: Seq<Occurred>) -> nat
    decreases occurred.len(),
{
    if occurred.len() == 0 {
        0
    } else {
        closes(occurred.drop_last()) + if turn_after(
            serving_after(occurred.drop_last()),
            occurred.last(),
        ).1 == Turn::Close {
            1nat
        } else {
            0nat
        }
    }
}

/// However a connection goes, what its manager asked for is forgotten once when it
/// is over, and not before.
pub proof fn a_connection_is_closed_once(occurred: Seq<Occurred>)
    requires
        is_a_connection(occurred),
    ensures
        closes(occurred) == if serving_after(occurred) == Serving::Over {
            1nat
        } else {
            0nat
        },
    decreases occurred.len(),
{
    if occurred.len() > 0 {
        a_connection_is_closed_once(occurred.drop_last());
    }
}

/// Nothing is waited for before everything has been said: a wait only ever follows
/// an empty queue, or a socket that would take no more.
pub proof fn a_wait_follows_an_empty_queue(occurred: Seq<Occurred>)
    requires
        is_a_connection(occurred),
        occurred.len() > 0,
        turn_after(serving_after(occurred.drop_last()), occurred.last()).1 == Turn::Wait,
    ensures
        serving_after(occurred.drop_last()) == Serving::Sending,
        occurred.last() == Occurred::NothingQueued || occurred.last() == Occurred::SendFailed,
{
}

/// Whether a manager may open a session on a device, by whether its name is one a
/// device could have.
pub fn upgrade(asset: &str, is_an_identifier: bool, site: &Site) -> (r: Result<(), TurnedDown>)
    ensures
        r is Ok <==> is_an_identifier && site.holds(asset@),
        r matches Err(t) ==> t.status == crate::runtime::api::NOT_FOUND && t.said@
            == if is_an_identifier {
            "this household has no asset called `"@ + asset@ + "`"@
        } else {
            "`"@ + asset@ + "` is not a valid asset identifier"@
        },
{
    let mut said = String::new();
    if !is_an_identifier {
        said.append("`");
        said.append(asset);
        said.append("` is not a valid asset identifier");
        assert(said@ =~= "`"@ + asset@ + "` is not a valid asset identifier"@);
        return Err(TurnedDown { status: NOT_FOUND, said });
    }
    if !site.has(asset) {
        said.append("this household has no asset called `");
        said.append(asset);
        said.append("`");
        assert(said@ =~= "this household has no asset called `"@ + asset@ + "`"@);
        return Err(TurnedDown { status: NOT_FOUND, said });
    }
    Ok(())
}

/// What a device stores, as far as its fill can be told.
#[derive(Debug, Clone, Copy, PartialEq, Eq, Structural)]
pub enum Store {
    /// A battery of a capacity in milliwatt-hours.
    Battery(i64),
    /// A tank, whose heat at a temperature is the installation's own arithmetic:
    /// in millionths of a milliwatt-hour, where the temperature was read.
    Tank(Option<i128>),
    /// Anything else.
    Other,
}

/// How full a store is by a reading: a battery by its state of charge, a tank by its
/// heat; nothing for what is no store or was not read.
pub open spec fn fill_read(store: Option<Store>, measurement: Measurement) -> Option<i128> {
    match store {
        Some(Store::Battery(capacity)) => match measurement.soc_ppm {
            Some(soc) => Some((soc * capacity) as i128),
            None => None,
        },
        Some(Store::Tank(heat)) => heat,
        _ => None,
    }
}

/// How full a store is, in millionths of a milliwatt-hour.
pub fn fill_of(store: Option<Store>, measurement: &Measurement) -> (r: Option<i128>)
    ensures
        r == fill_read(store, *measurement),
{
    match store {
        Some(Store::Battery(capacity)) => match measurement.soc_ppm {
            Some(soc) => Some(product(soc, capacity)),
            None => None,
        },
        Some(Store::Tank(heat)) => heat,
        _ => None,
    }
}

/// What the household tells a manager about one device.
#[derive(Debug, Clone, Copy, PartialEq, Eq, Structural)]
pub struct Report {
    /// What it draws, in milliwatts.
    pub power_mw: Option<i64>,
    /// How full it is, in millionths of a milliwatt-hour.
    pub fill: Option<i128>,
}

/// What the household tells a manager about one device. One that nobody metered is
/// told nothing of, rather than that it is empty.
pub fn report_of(observed: &Observed, asset: &str, store: Option<Store>) -> (r: Report)
    requires
        observed.in_order(),
    ensures
        r == if observed.state.assets@.dom().contains(asset@) {
            let read = observed.state.assets@[asset@];
            Report { power_mw: read.power_mw, fill: fill_read(store, read) }
        } else {
            Report { power_mw: None, fill: None }
        },
{
    match observed.state.assets.get(asset) {
        Some(read) => Report { power_mw: read.power_mw, fill: fill_of(store, read) },
        None => Report { power_mw: None, fill: None },
    }
}

// ── What holds of what a manager asks ───────────────────────────────────────

/// An instruction is believed for as long as it is configured to be, up to what a clock can
/// count.
pub proof fn an_instruction_is_believed_for_its_time(s: S2Settings)
    ensures
        s.instruction_for_secs <= i64::MAX ==> s.belief() == 1_000_000_000
            * s.instruction_for_secs,
        s.instruction_for_secs > i64::MAX ==> s.belief() == 1_000_000_000 * i64::MAX,
{
}

/// A request is in force until its time and not after it, and what is in force is what was
/// asked. Once it is not, it never is again.
pub proof fn a_request_is_in_force_until_its_time(
    requests: Map<Seq<char>, CemRequest>,
    k: Seq<char>,
    now: int,
    later: int,
)
    requires
        now <= later,
    ensures
        live(requests, now).dom().contains(k) <==> requests.dom().contains(k) && now
            < requests[k].until,
        live(requests, now).dom().contains(k) ==> live(requests, now)[k] == requests[k],
        live(live(requests, now), later) == live(requests, later),
{
    assert(live(live(requests, now), later) =~= live(requests, later));
}

/// What an instruction asks: a power is asked for as it is, an interval as it is where it
/// leaves one, and nothing else asks anything of a device. What asks nothing and is an
/// instruction all the same is counted as one nothing acts on.
pub proof fn an_instruction_asks_what_it_says(event: SessionEvent)
    ensures
        event matches SessionEvent::Instructed(wanted, _) ==> {
            &&& wanted matches Instructed::Power(p) ==> asked(event) == Some(Wanted::Power(p))
            &&& wanted matches Instructed::Envelope(Some(interval)) ==> asked(event) == Some(
                Wanted::Envelope(interval),
            )
            &&& wanted matches Instructed::Envelope(None) ==> asked(event) is None
            &&& wanted is SgReady || wanted is Start ==> asked(event) is None
            &&& is_unactioned(event) <==> asked(event) is None
        },
        !(event is Instructed) ==> asked(event) is None && !is_unactioned(event),
{
}

/// What one event changes, and that it changes nothing else. An instruction that asks
/// something is held until its time and owed an answer; a session begins where a manager
/// selects how to control and ends, with everything in it, where it hands the device back;
/// refusals and what nothing acts on are counted. No other device is touched.
pub proof fn an_event_changes_only_what_it_is_about(
    s: Standing,
    asset: Seq<char>,
    event: SessionEvent,
    until: int,
)
    requires
        i128::MIN <= until <= i128::MAX,
    ensures
        ({
            let after = standing_after(s, asset, event, until);
            &&& event matches SessionEvent::Instructed(_, id) ==> {
                &&& asked(event) matches Some(wanted) ==> {
                    &&& after.requests.dom().contains(asset)
                    &&& after.requests[asset].wanted == wanted
                    &&& after.requests[asset].until == until
                    &&& after.outstanding.dom().contains(asset)
                    &&& after.outstanding[asset].id == id
                    &&& !after.outstanding[asset].told
                    &&& after.unactioned == s.unactioned
                }
                &&& asked(event) is None ==> after.requests == s.requests && after.outstanding
                    == s.outstanding && after.unactioned == s.unactioned + 1
                &&& after.active == s.active && after.overridden == s.overridden && after.refused
                    == s.refused
            }
            &&& event is Ready ==> after.active.contains(asset) && after.requests == s.requests
                && after.outstanding == s.outstanding && after.overridden == s.overridden
                && after.refused == s.refused && after.unactioned == s.unactioned
            &&& event is Refused ==> after.refused == s.refused + 1 && after.requests == s.requests
                && after.outstanding == s.outstanding && after.overridden == s.overridden
                && after.active == s.active && after.unactioned == s.unactioned
            &&& event is Released ==> !after.requests.dom().contains(asset)
                && !after.outstanding.dom().contains(asset) && !after.overridden.dom().contains(
                asset,
            ) && !after.active.contains(asset) && after.refused == s.refused && after.unactioned
                == s.unactioned
            &&& event is Closed ==> after == s
            &&& forall|other: Seq<char>|
                #![trigger after.requests.dom().contains(other)]
                other != asset ==> {
                    &&& after.requests.dom().contains(other) <==> s.requests.dom().contains(other)
                    &&& s.requests.dom().contains(other) ==> after.requests[other]
                        == s.requests[other]
                    &&& after.outstanding.dom().contains(other) <==> s.outstanding.dom().contains(
                        other,
                    )
                    &&& s.outstanding.dom().contains(other) ==> after.outstanding[other]
                        == s.outstanding[other]
                    &&& after.active.contains(other) <==> s.active.contains(other)
                    &&& after.overridden.dom().contains(other) <==> s.overridden.dom().contains(
                        other,
                    )
                    &&& s.overridden.dom().contains(other) ==> after.overridden[other]
                        == s.overridden[other]
                }
        }),
{
    let after = standing_after(s, asset, event, until);
    if event is Closed {
        assert(after =~= s);
    }
}

/// Events are taken one after the other: the last instruction that asks something is the one
/// in force, unless the device was handed back since.
pub proof fn the_last_instruction_is_in_force(
    s: Standing,
    asset: Seq<char>,
    events: Seq<SessionEvent>,
    until: int,
    j: int,
    wanted: Wanted,
)
    requires
        i128::MIN <= until <= i128::MAX,
        0 <= j < events.len(),
        asked(events[j]) == Some(wanted),
        forall|i: int|
            j < i < events.len() ==> asked(#[trigger] events[i]) is None && !(
            events[i] is Released),
    ensures
        ({
            let after = standing_after_all(s, asset, events, until);
            &&& after.requests.dom().contains(asset)
            &&& after.requests[asset].wanted == wanted
            &&& after.requests[asset].until == until
        }),
    decreases events.len(),
{
    let n = events.len() - 1;
    assert(events[n] == events.last());
    let rest = events.drop_last();
    if j < n {
        assert(asked(events[n]) is None && !(events[n] is Released));
        assert forall|i: int| j < i < rest.len() implies asked(#[trigger] rest[i]) is None && !(
        rest[i] is Released) by {
            assert(rest[i] == events[i]);
        }
        the_last_instruction_is_in_force(s, asset, rest, until, j, wanted);
    }
}

/// A session is over where its peer closed it, and only there.
pub proof fn a_session_ends_where_it_was_closed(events: Seq<SessionEvent>, i: int)
    ensures
        0 <= i < events.len() && events[i] is Closed ==> ends(events),
        (forall|j: int| 0 <= j < events.len() ==> !(#[trigger] events[j] is Closed)) ==> !ends(
            events,
        ),
{
}

/// An abort is owed where a rule overrides a device, an instruction on it was accepted, and
/// its manager has not been told.
pub proof fn an_abort_is_owed_for_an_overridden_instruction(s: Standing, asset: Seq<char>)
    ensures
        is_owed(s, asset) <==> s.overridden.dom().contains(asset) && s.outstanding.dom().contains(
            asset,
        ) && !s.outstanding[asset].told,
{
}

/// What a screen is told of overrides is every one on a device something is asked of, in
/// order and with its rule, and no other. What is returned says which each of them is.
pub proof fn an_override_is_shown_where_something_is_asked(
    out: Seq<(String, String)>,
    listed: Seq<(String, String)>,
    asked: Set<Seq<char>>,
) -> (picks: Seq<int>)
    requires
        reports_overrides(out, listed, asked),
    ensures
        picks.len() == out.len(),
        forall|j: int|
            0 <= j < picks.len() ==> 0 <= #[trigger] picks[j] < listed.len() && asked.contains(
                listed[picks[j]].0@,
            ) && out[j].0@ == listed[picks[j]].0@ && out[j].1@ == listed[picks[j]].1@,
        forall|j: int, k: int| 0 <= j < k < picks.len() ==> #[trigger] picks[j] < #[trigger] picks[k],
        forall|i: int|
            0 <= i < listed.len() && asked.contains((#[trigger] listed[i]).0@) ==> picks.contains(
                i,
            ),
    decreases listed.len(),
{
    if listed.len() == 0 {
        Seq::empty()
    } else {
        let n = listed.len() - 1;
        let rest = listed.drop_last();
        let shown = asked.contains(listed.last().0@);
        let before = if shown {
            an_override_is_shown_where_something_is_asked(out.drop_last(), rest, asked)
        } else {
            an_override_is_shown_where_something_is_asked(out, rest, asked)
        };
        let picks = if shown {
            before.push(n)
        } else {
            before
        };
        assert forall|i: int|
            0 <= i < listed.len() && asked.contains((#[trigger] listed[i]).0@) implies picks.contains(
            i,
        ) by {
            if i < n {
                assert(rest[i] == listed[i]);
                let j = before.index_of(i);
                assert(picks[j] == i);
            } else {
                assert(picks[picks.len() - 1] == i);
            }
        }
        assert forall|j: int| 0 <= j < picks.len() implies 0 <= #[trigger] picks[j] < listed.len()
            && asked.contains(listed[picks[j]].0@) && out[j].0@ == listed[picks[j]].0@ && out[j].1@
            == listed[picks[j]].1@ by {
            if j < before.len() {
                assert(picks[j] == before[j]);
                assert(rest[before[j]] == listed[before[j]]);
            }
        }
        assert forall|j: int, k: int| 0 <= j < k < picks.len() implies #[trigger] picks[j]
            < #[trigger] picks[k] by {
            if k < before.len() {
                assert(before[j] < before[k]);
            } else {
                assert(picks[j] == before[j]);
            }
        }
        picks
    }
}

/// Where a connection goes: everything queued is sent before anything is waited for; a
/// message is delivered, a report made when it is due, and a frame nobody can read is left
/// unread without hanging up; a peer that closes or fails, and a session that ends, close it.
pub proof fn a_connection_goes_on_until_somebody_ends_it(at: Serving, occurred: Occurred)
    requires
        can_occur(at, occurred),
    ensures
        occurred == Occurred::Sent || occurred == Occurred::Unencodable ==> turn_after(
            at,
            occurred,
        ) == (Serving::Sending, Turn::Transmit),
        occurred == Occurred::NothingQueued || occurred == Occurred::SendFailed ==> turn_after(
            at,
            occurred,
        ) == (Serving::Listening, Turn::Wait),
        occurred == Occurred::Brought(Frame::Message) ==> turn_after(at, occurred) == (
            Serving::Settling,
            Turn::Deliver,
        ),
        occurred == Occurred::Brought(Frame::Unreadable) || occurred == Occurred::Brought(
            Frame::Other,
        ) ==> turn_after(at, occurred) == (Serving::Settling, Turn::Ignore),
        occurred == Occurred::Brought(Frame::Closed) || occurred == Occurred::Brought(
            Frame::Failed,
        ) || occurred == Occurred::Applied(true) ==> turn_after(at, occurred) == (
            Serving::Over,
            Turn::Close,
        ),
        occurred == Occurred::ReportDue ==> turn_after(at, occurred) == (
            Serving::Settling,
            Turn::Report,
        ),
        occurred == Occurred::Applied(false) ==> turn_after(at, occurred) == (
            Serving::Sending,
            Turn::Transmit,
        ),
{
}

/// What can happen depends on where a connection is, and something can wherever it is not
/// over.
pub proof fn what_can_happen_on_a_connection(at: Serving, occurred: Occurred)
    ensures
        at == Serving::Over ==> !can_occur(at, occurred),
        at == Serving::Sending ==> (can_occur(at, occurred) <==> occurred is Sent
            || occurred is Unencodable || occurred is SendFailed || occurred is NothingQueued),
        at == Serving::Listening ==> (can_occur(at, occurred) <==> occurred is Brought
            || occurred is ReportDue),
        at == Serving::Settling ==> (can_occur(at, occurred) <==> occurred is Applied),
{
}

/// How full a device is said to be: a battery holds its share of its capacity, a tank the
/// heat it was found to hold, and what is no store or was not read is said nothing of.
pub proof fn a_store_is_as_full_as_it_was_read(store: Option<Store>, m: Measurement)
    ensures
        store matches Some(Store::Battery(capacity)) ==> {
            &&& fill_read(store, m) is Some <==> m.soc_ppm is Some
            &&& fill_read(store, m) matches Some(fill) ==> fill == capacity * m.soc_ppm->Some_0
        },
        store matches Some(Store::Tank(heat)) ==> fill_read(store, m) == heat,
        store is None || store == Some(Store::Other) ==> fill_read(store, m) is None,
{
    if let (Some(Store::Battery(capacity)), Some(soc)) = (store, m.soc_ppm) {
        assert(i128::MIN <= soc * capacity <= i128::MAX && soc * capacity == capacity * soc)
            by (nonlinear_arith)
            requires
                -0x8000_0000_0000_0000 <= capacity <= 0x7fff_ffff_ffff_ffff,
                -0x8000_0000_0000_0000 <= soc <= 0x7fff_ffff_ffff_ffff,
        ;
    }
}

} // verus!

//! What the household itself asks for.
//!
//! An override is a desire, not a setpoint: the arbiter narrows it into whatever
//! the grid, the fuses and the hardware leave open. Every one carries an expiry,
//! so nothing has to be cancelled for a device to return to the plan.

use vstd::prelude::*;

use crate::clock::Instant;
use crate::names::ByName;

verus! {

/// How long an override lasts when the caller does not say: four hours.
pub const DEFAULT_FOR: i128 = 14_400_000_000_000;

/// The longest one may last: a day.
pub const MAX_FOR: i128 = 86_400_000_000_000;

/// What a household may ask of a device.
#[derive(Debug, Clone, Copy, PartialEq, Eq, Structural)]
pub enum UserOverride {
    /// As much as it can take.
    Boost,
    /// Nothing at all.
    Pause,
    /// Nobody is home.
    Away,
}

/// One override, and when it stops applying.
#[derive(Debug, Clone, Copy, PartialEq, Eq, Structural)]
pub struct Held {
    /// What the household asked for.
    pub what: UserOverride,
    /// When it stops applying.
    pub until: Instant,
}

/// How long a request lasts: as long as it says, and no less than nothing, no
/// more than a day.
pub open spec fn lasting(asked: Option<i128>) -> int {
    let length = match asked {
        Some(d) => d as int,
        None => DEFAULT_FOR as int,
    };
    if length < 0 {
        0
    } else if length > MAX_FOR {
        MAX_FOR as int
    } else {
        length
    }
}

/// Of some overrides those that still apply.
pub open spec fn applying(held: Map<Seq<char>, Held>, now: int) -> Map<Seq<char>, Held> {
    Map::new(|k: Seq<char>| held.dom().contains(k) && held[k].until > now, |k: Seq<char>| held[k])
}

/// Whether every override of a collection ends at an instant that can be written.
pub open spec fn all_end_in_the_calendar(held: Map<Seq<char>, Held>) -> bool {
    forall|k: Seq<char>| #[trigger]
        held.contains_key(k) ==> crate::clock::in_calendar(held[k].until as int)
}

/// The overrides in force.
pub struct Overrides {
    held: ByName<Held>,
}

impl View for Overrides {
    type V = Map<Seq<char>, Held>;

    closed spec fn view(&self) -> Map<Seq<char>, Held> {
        self.held@
    }
}

impl Overrides {
    /// One override to a device, in the order of the devices.
    pub closed spec fn is_listed(self) -> bool {
        self.held.in_order()
    }

    /// One override to a device, and each of them ends at an instant that can be
    /// written.
    pub open spec fn in_order(self) -> bool {
        self.is_listed() && all_end_in_the_calendar(self@)
    }

    /// An empty set.
    pub fn new() -> (r: Self)
        ensures
            r.in_order(),
            r@ == Map::<Seq<char>, Held>::empty(),
    {
        Overrides { held: ByName::new() }
    }

    /// Ask for one, in place of whatever was in force for that device.
    pub fn set(&mut self, asset: String, what: UserOverride, for_: Option<i128>, now: Instant) -> (
    held: Held)
        requires
            old(self).in_order(),
            crate::clock::in_calendar(now as int),
            crate::clock::in_calendar(now + lasting(for_)),
        ensures
            final(self).in_order(),
            held.what == what,
            held.until == now + lasting(for_),
            final(self)@ == old(self)@.insert(asset@, held),
    {
        let asked: i128 = match for_ {
            Some(d) => d,
            None => DEFAULT_FOR,
        };
        let length: i128 = if asked < 0 {
            0
        } else if asked > MAX_FOR {
            MAX_FOR
        } else {
            asked
        };
        let held = Held { what, until: now + length };
        self.held.insert(asset, held);
        held
    }

    /// Withdraw one. Returns whether it was in force.
    pub fn clear(&mut self, asset: &str, now: Instant) -> (r: bool)
        requires
            old(self).in_order(),
        ensures
            final(self).in_order(),
            r == applying(old(self)@, now as int).contains_key(asset@),
            final(self)@ == old(self)@.remove(asset@),
    {
        match self.held.remove(asset) {
            Some(held) => held.until > now,
            None => false,
        }
    }

    /// Withdraw all of them. Returns how many there were.
    pub fn clear_all(&mut self) -> (n: usize)
        requires
            old(self).in_order(),
        ensures
            final(self).in_order(),
            final(self)@ == Map::<Seq<char>, Held>::empty(),
            n == old(self)@.dom().len(),
    {
        let n: usize = self.held.len();
        proof {
            self.held.lemma_view();
            crate::names::lemma_count(self.held.listed());
        }
        self.held.clear();
        n
    }

    /// Drop what no longer applies.
    fn expire(&mut self, now: Instant)
        requires
            old(self).in_order(),
        ensures
            final(self).in_order(),
            final(self)@ == applying(old(self)@, now as int),
    {
        let still = |h: &Held| -> (b: bool)
            ensures
                b == (h.until > now),
            { h.until > now };
        self.held.retain(still);
        proof {
            assert forall|k: Seq<char>| #[trigger]
                self.held@.dom().contains(k) == applying(old(self)@, now as int).dom().contains(
                    k,
                ) by {
                if self.held@.dom().contains(k) {
                    assert(old(self).held@.dom().contains(k));
                }
                if old(self).held@.dom().contains(k) && !self.held@.dom().contains(k) {
                    assert(call_ensures(still, (&old(self).held@[k],), false));
                }
            }
            assert forall|k: Seq<char>| #[trigger] self.held@.dom().contains(k) implies self.held@[k]
                == applying(old(self)@, now as int)[k] by {
                assert(old(self).held@.dom().contains(k));
            }
            assert(self@ =~= applying(old(self)@, now as int));
        }
    }

    /// What is in force now, as the arbiter wants it. What has expired is
    /// dropped on the way past.
    pub fn active(&mut self, now: Instant) -> (r: ByName<UserOverride>)
        requires
            old(self).in_order(),
        ensures
            final(self).in_order(),
            final(self)@ == applying(old(self)@, now as int),
            r.in_order(),
            r@ == applying(old(self)@, now as int).map_values(|h: Held| h.what),
    {
        self.expire(now);
        let mut r: ByName<UserOverride> = ByName::new();
        let n: usize = self.held.len();
        let ghost listed = self.held.listed();
        let mut i: usize = 0;
        while i < n
            invariant
                n == listed.len(),
                listed == self.held.listed(),
                crate::names::ascending(listed),
                i <= n,
                r.in_order(),
                forall|k: Seq<char>|
                    #[trigger] r@.dom().contains(k) <==> crate::names::holds(
                        listed.take(i as int),
                        k,
                    ),
                forall|j: int| 0 <= j < i ==> r@[(#[trigger] listed[j]).0@] == listed[j].1.what,
            decreases n - i,
        {
            let ghost before = r@;
            r.insert(self.held.name_at(i).to_owned(), self.held.value_at(i).what);
            proof {
                let upto = listed.take(i as int);
                let next = listed.take(i + 1);
                assert forall|k: Seq<char>| #[trigger]
                    r@.dom().contains(k) <==> crate::names::holds(next, k) by {
                    if crate::names::holds(upto, k) {
                        let j = crate::names::place(upto, k);
                        assert(next[j].0@ == k);
                    }
                    if crate::names::holds(next, k) {
                        let j = crate::names::place(next, k);
                        if j < i {
                            assert(upto[j].0@ == k);
                        }
                    }
                    assert(next[i as int].0@ == listed[i as int].0@);
                }
                assert forall|j: int| 0 <= j < i + 1 implies r@[(#[trigger] listed[j]).0@]
                    == listed[j].1.what by {
                    if j < i {
                        crate::names::precedes_is_irreflexive(listed[i as int].0@);
                        assert(crate::names::precedes(listed[j].0@, listed[i as int].0@));
                    }
                }
            }
            i = i + 1;
        }
        proof {
            assert(listed.take(n as int) =~= listed);
            self.held.lemma_view();
            let m = applying(old(self)@, now as int).map_values(|h: Held| h.what);
            assert forall|k: Seq<char>| #[trigger] r@.dom().contains(k) implies r@[k] == m[k] by {
                let j = crate::names::place(listed, k);
                crate::names::lemma_place(listed, j);
            }
            assert(r@ =~= m);
        }
        r
    }

    /// What is in force, with the expiry, for a screen: the devices and what
    /// they hold, in the order of their names.
    pub fn all(&mut self, now: Instant) -> (r: Vec<(String, Held)>)
        requires
            old(self).in_order(),
        ensures
            final(self).in_order(),
            final(self)@ == applying(old(self)@, now as int),
            crate::names::ascending(r@),
            crate::names::as_map(r@) == applying(old(self)@, now as int),
            r@.len() == applying(old(self)@, now as int).dom().len(),
    {
        self.expire(now);
        let r = self.held.list();
        proof {
            crate::names::lemma_count(r@);
        }
        r
    }
}

/// An override never lasts longer than a day and never ends before it was asked
/// for.
pub proof fn an_override_lasts_at_most_a_day(asked: Option<i128>)
    ensures
        0 <= lasting(asked) <= MAX_FOR,
        asked is None ==> lasting(asked) == DEFAULT_FOR,
{
}

/// Asking twice for one device is asking once: the second request is the one
/// that is held, and no device has more than one.
pub proof fn asking_twice_is_asking_once(
    held: Map<Seq<char>, Held>,
    asset: Seq<char>,
    first: Held,
    second: Held,
)
    ensures
        held.insert(asset, first).insert(asset, second) == held.insert(asset, second),
{
    assert(held.insert(asset, first).insert(asset, second) =~= held.insert(asset, second));
}

/// An override stops applying on its own, and once it has it never returns.
pub proof fn an_expired_override_stays_expired(held: Map<Seq<char>, Held>, now: int, later: int)
    requires
        now <= later,
    ensures
        applying(applying(held, now), later) == applying(held, later),
        forall|k: Seq<char>|
            #[trigger] held.dom().contains(k) && held[k].until <= now ==> !applying(
                held,
                later,
            ).dom().contains(k),
{
    assert(applying(applying(held, now), later) =~= applying(held, later));
}

/// A request for no time at all, or for less, is never in force.
pub proof fn a_request_for_no_time_is_never_in_force(
    held: Map<Seq<char>, Held>,
    asset: Seq<char>,
    what: UserOverride,
    asked: i128,
    now: Instant,
)
    requires
        asked <= 0,
    ensures
        !applying(
            held.insert(asset, Held { what, until: (now + lasting(Some(asked))) as i128 }),
            now as int,
        ).dom().contains(asset),
{
}

/// A request lasts as long as it says, between nothing and a day, and four hours where it
/// does not say.
pub proof fn a_request_lasts_as_long_as_it_says(asked: Option<i128>)
    ensures
        asked is None ==> lasting(asked) == 4 * crate::clock::HOUR,
        asked matches Some(d) ==> {
            &&& 0 <= d <= crate::clock::DAY ==> lasting(asked) == d
            &&& d < 0 ==> lasting(asked) == 0
            &&& d > crate::clock::DAY ==> lasting(asked) == crate::clock::DAY
        },
{
}

/// An override applies until it ends and not after, and as it was asked for.
pub proof fn an_override_applies_until_it_ends(
    held: Map<Seq<char>, Held>,
    k: Seq<char>,
    now: int,
)
    ensures
        applying(held, now).dom().contains(k) <==> held.dom().contains(k) && now < held[k].until,
        applying(held, now).dom().contains(k) ==> applying(held, now)[k].what == held[k].what
            && applying(held, now)[k].until == held[k].until,
{
}

} // verus!

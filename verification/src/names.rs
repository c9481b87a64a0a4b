//! A map from names, kept in the order of the names.
//!
//! Assets, managers and peers are all known by a name, and every list of them a
//! household is shown is in the order of those names. One structure keeps both
//! facts: a name occurs once, and the entries stand in ascending order.

use vstd::prelude::*;

verus! {

/// Whether one name stands before another: by the first character in which they
/// differ, a shorter name before a longer one it begins.
pub open spec fn precedes(a: Seq<char>, b: Seq<char>) -> bool
    decreases a.len(),
{
    if b.len() == 0 {
        false
    } else if a.len() == 0 {
        true
    } else if a[0] != b[0] {
        a[0] < b[0]
    } else {
        precedes(a.drop_first(), b.drop_first())
    }
}

/// No name stands before itself.
pub proof fn precedes_is_irreflexive(a: Seq<char>)
    ensures
        !precedes(a, a),
    decreases a.len(),
{
    if a.len() > 0 {
        precedes_is_irreflexive(a.drop_first());
    }
}

/// The order of names carries over.
pub proof fn precedes_is_transitive(a: Seq<char>, b: Seq<char>, c: Seq<char>)
    requires
        precedes(a, b),
        precedes(b, c),
    ensures
        precedes(a, c),
    decreases a.len(),
{
    if a.len() > 0 && a[0] == b[0] && b[0] == c[0] {
        precedes_is_transitive(a.drop_first(), b.drop_first(), c.drop_first());
    }
}

/// Of two different names one stands before the other.
pub proof fn precedes_is_total(a: Seq<char>, b: Seq<char>)
    ensures
        a == b || precedes(a, b) || precedes(b, a),
    decreases a.len(),
{
    if a.len() > 0 && b.len() > 0 && a[0] == b[0] {
        precedes_is_total(a.drop_first(), b.drop_first());
        if a.drop_first() == b.drop_first() {
            assert(a =~= seq![a[0]] + a.drop_first());
            assert(b =~= seq![b[0]] + b.drop_first());
        }
    } else if a.len() == 0 && b.len() == 0 {
        assert(a =~= b);
    }
}

/// Whether one name stands before another.
pub fn stands_before(a: &str, b: &str) -> (r: bool)
    ensures
        r == precedes(a@, b@),
{
    let n: usize = a.unicode_len();
    let m: usize = b.unicode_len();
    let mut i: usize = 0;
    assert(a@.skip(0) =~= a@);
    assert(b@.skip(0) =~= b@);
    while i < n && i < m
        invariant
            n == a@.len(),
            m == b@.len(),
            i <= n,
            i <= m,
            precedes(a@, b@) == precedes(a@.skip(i as int), b@.skip(i as int)),
        decreases n - i,
    {
        let x: char = a.get_char(i);
        let y: char = b.get_char(i);
        if x != y {
            return x < y;
        }
        assert(a@.skip(i as int).drop_first() =~= a@.skip(i + 1));
        assert(b@.skip(i as int).drop_first() =~= b@.skip(i + 1));
        i = i + 1;
    }
    i < m
}

/// Entries in ascending order of their names.
pub open spec fn ascending<V>(s: Seq<(String, V)>) -> bool {
    forall|i: int, j: int|
        0 <= i < j < s.len() ==> precedes(#[trigger] s[i].0@, #[trigger] s[j].0@)
}

/// Whether some entry has a name.
pub open spec fn holds<V>(s: Seq<(String, V)>, name: Seq<char>) -> bool {
    exists|i: int| 0 <= i < s.len() && #[trigger] s[i].0@ == name
}

/// Where the entry of a name stands.
pub open spec fn place<V>(s: Seq<(String, V)>, name: Seq<char>) -> int {
    choose|i: int| 0 <= i < s.len() && #[trigger] s[i].0@ == name
}

/// The entries as a map.
pub open spec fn as_map<V>(s: Seq<(String, V)>) -> Map<Seq<char>, V> {
    Map::new(|name: Seq<char>| holds(s, name), |name: Seq<char>| s[place(s, name)].1)
}

/// In ascending entries a name has one place.
pub proof fn lemma_place<V>(s: Seq<(String, V)>, i: int)
    requires
        ascending(s),
        0 <= i < s.len(),
    ensures
        holds(s, s[i].0@),
        place(s, s[i].0@) == i,
        as_map(s).dom().contains(s[i].0@),
        as_map(s)[s[i].0@] == s[i].1,
{
    let name = s[i].0@;
    let p = place(s, name);
    assert(s[i].0@ == name);
    assert(0 <= p < s.len() && s[p].0@ == name);
    precedes_is_irreflexive(name);
    if p < i {
        assert(precedes(s[p].0@, s[i].0@));
    } else if i < p {
        assert(precedes(s[i].0@, s[p].0@));
    }
}

/// Two lists with the same names and values at every place are the same map.
pub proof fn lemma_same_list<V>(a: Seq<(String, V)>, b: Seq<(String, V)>)
    requires
        ascending(b),
        a.len() == b.len(),
        forall|j: int| 0 <= j < a.len() ==> (#[trigger] a[j]).0@ == b[j].0@ && a[j].1 == b[j].1,
    ensures
        ascending(a),
        as_map(a) == as_map(b),
{
    assert forall|i: int, j: int| 0 <= i < j < a.len() implies precedes(
        #[trigger] a[i].0@,
        #[trigger] a[j].0@,
    ) by {
        assert(precedes(b[i].0@, b[j].0@));
    }
    assert forall|k: Seq<char>| holds(a, k) == holds(b, k) by {
        if holds(a, k) {
            let j = place(a, k);
            assert(b[j].0@ == k);
        }
        if holds(b, k) {
            let j = place(b, k);
            assert(a[j].0@ == k);
        }
    }
    assert forall|k: Seq<char>| holds(a, k) implies as_map(a)[k] == as_map(b)[k] by {
        let j = place(a, k);
        lemma_place(a, j);
        lemma_place(b, j);
    }
    assert(as_map(a) =~= as_map(b));
}

/// Ascending entries are as many as their names.
pub proof fn lemma_count<V>(s: Seq<(String, V)>)
    requires
        ascending(s),
    ensures
        as_map(s).dom().finite(),
        as_map(s).dom().len() == s.len(),
    decreases s.len(),
{
    if s.len() == 0 {
        assert(as_map(s).dom() =~= Set::empty());
    } else {
        let rest = s.drop_last();
        let name = s.last().0@;
        lemma_count(rest);
        assert forall|k: Seq<char>| holds(s, k) == (holds(rest, k) || k == name) by {
            if holds(s, k) {
                let j = place(s, k);
                if j < rest.len() {
                    assert(rest[j].0@ == k);
                }
            }
            if holds(rest, k) {
                assert(s[place(rest, k)].0@ == k);
            }
            assert(s[s.len() - 1].0@ == name);
        }
        if holds(rest, name) {
            let j = place(rest, name);
            assert(precedes(s[j].0@, s[s.len() - 1].0@));
            precedes_is_irreflexive(name);
        }
        assert(as_map(s).dom() =~= as_map(rest).dom().insert(name));
    }
}

/// Values by name, in the order of the names.
#[derive(Debug)]
pub struct ByName<V> {
    entries: Vec<(String, V)>,
}

impl<V> View for ByName<V> {
    type V = Map<Seq<char>, V>;

    closed spec fn view(&self) -> Map<Seq<char>, V> {
        as_map(self.entries@)
    }
}

impl<V> ByName<V> {
    /// The entries in their order.
    pub closed spec fn listed(self) -> Seq<(String, V)> {
        self.entries@
    }

    /// A name occurs once, and the entries stand in the order of their names.
    pub open spec fn in_order(self) -> bool {
        ascending(self.listed())
    }

    /// The map is what the list holds.
    pub broadcast proof fn lemma_view(self)
        ensures
            #[trigger] self@ == as_map(self.listed()),
    {
    }

    /// Nothing yet.
    pub fn new() -> (r: Self)
        ensures
            r.in_order(),
            r@ == Map::<Seq<char>, V>::empty(),
            r.listed() == Seq::<(String, V)>::empty(),
    {
        let r = ByName { entries: Vec::new() };
        assert(r@ =~= Map::<Seq<char>, V>::empty());
        r
    }

    /// How many names there are.
    pub fn len(&self) -> (n: usize)
        ensures
            n == self.listed().len(),
    {
        self.entries.len()
    }

    /// Whether there is none.
    pub fn is_empty(&self) -> (r: bool)
        ensures
            r == (self.listed().len() == 0),
            r == (self@ =~= Map::<Seq<char>, V>::empty()),
    {
        proof {
            if self.entries@.len() > 0 {
                assert(holds(self.entries@, self.entries@[0].0@));
                assert(self@.dom().contains(self.entries@[0].0@));
            } else {
                assert(self@ =~= Map::<Seq<char>, V>::empty());
            }
        }
        self.entries.len() == 0
    }

    /// The first place whose name does not stand before `name`.
    fn seek(&self, name: &str) -> (p: usize)
        requires
            self.in_order(),
        ensures
            p <= self.entries@.len(),
            forall|i: int| 0 <= i < p ==> precedes(#[trigger] self.entries@[i].0@, name@),
            forall|i: int|
                p <= i < self.entries@.len() ==> (#[trigger] self.entries@[i].0@ == name@
                    || precedes(name@, self.entries@[i].0@)),
            holds(self.entries@, name@) <==> p < self.entries@.len() && self.entries@[p as int].0@
                == name@,
    {
        let mut p: usize = 0;
        while p < self.entries.len() && stands_before(self.entries[p].0.as_str(), name)
            invariant
                p <= self.entries@.len(),
                forall|i: int| 0 <= i < p ==> precedes(#[trigger] self.entries@[i].0@, name@),
            decreases self.entries@.len() - p,
        {
            p = p + 1;
        }
        proof {
            assert(p < self.entries@.len() ==> !precedes(self.entries@[p as int].0@, name@));
            assert forall|i: int| p <= i < self.entries@.len() implies (
            #[trigger] self.entries@[i].0@ == name@ || precedes(name@, self.entries@[i].0@)) by {
                precedes_is_total(self.entries@[p as int].0@, name@);
                if i > p {
                    assert(precedes(self.entries@[p as int].0@, self.entries@[i].0@));
                    if self.entries@[p as int].0@ != name@ {
                        precedes_is_transitive(
                            name@,
                            self.entries@[p as int].0@,
                            self.entries@[i].0@,
                        );
                    }
                }
            }
            if holds(self.entries@, name@) {
                let i = place(self.entries@, name@);
                precedes_is_irreflexive(name@);
                assert(i >= p);
                if i > p {
                    assert(precedes(self.entries@[p as int].0@, self.entries@[i].0@));
                    precedes_is_total(self.entries@[p as int].0@, name@);
                }
            }
        }
        p
    }

    /// What a name stands for.
    pub fn get(&self, name: &str) -> (r: Option<&V>)
        requires
            self.in_order(),
        ensures
            match r {
                Some(v) => self@.dom().contains(name@) && self@[name@] == *v,
                None => !self@.dom().contains(name@),
            },
    {
        let p: usize = self.seek(name);
        if p < self.entries.len() && crate::text::same(self.entries[p].0.as_str(), name) {
            proof {
                lemma_place(self.entries@, p as int);
            }
            Some(&self.entries[p].1)
        } else {
            None
        }
    }

    /// Whether a name stands for something.
    pub fn contains(&self, name: &str) -> (r: bool)
        requires
            self.in_order(),
        ensures
            r == self@.dom().contains(name@),
    {
        self.get(name).is_some()
    }

    /// Let a name stand for a value, in place of whatever it stood for.
    pub fn insert(&mut self, name: String, value: V)
        requires
            old(self).in_order(),
        ensures
            final(self).in_order(),
            final(self)@ == old(self)@.insert(name@, value),
    {
        let ghost before = self.entries@;
        let ghost text = name@;
        let p: usize = self.seek(name.as_str());
        let found: bool = p < self.entries.len() && crate::text::same(
            self.entries[p].0.as_str(),
            name.as_str(),
        );
        if found {
            self.entries[p] = (name, value);
        } else {
            self.entries.insert(p, (name, value));
        }
        proof {
            let after = self.entries@;
            let at = p as int;
            assert(after[at].0@ == text && after[at].1 == value);
            assert(ascending(after)) by {
                assert forall|i: int, j: int| 0 <= i < j < after.len() implies precedes(
                    #[trigger] after[i].0@,
                    #[trigger] after[j].0@,
                ) by {
                    if found {
                        assert(after[i].0@ == before[i].0@);
                        assert(after[j].0@ == before[j].0@);
                    } else if j < at {
                        assert(after[i] == before[i] && after[j] == before[j]);
                    } else if i < at && j == at {
                        assert(after[i] == before[i]);
                    } else if i < at {
                        assert(after[i] == before[i] && after[j] == before[j - 1]);
                    } else if i == at {
                        assert(after[j] == before[j - 1]);
                        assert(holds(before, before[j - 1].0@));
                    } else {
                        assert(after[i] == before[i - 1] && after[j] == before[j - 1]);
                    }
                }
            }
            assert forall|k: Seq<char>| holds(after, k) == (k == text || holds(before, k)) by {
                if holds(after, k) {
                    let i = place(after, k);
                    if i != at {
                        let b = if found || i < at {
                            i
                        } else {
                            i - 1
                        };
                        assert(before[b] == after[i]);
                        assert(before[b].0@ == k);
                    }
                }
                if holds(before, k) && k != text {
                    let b = place(before, k);
                    let i = if found || b < at {
                        b
                    } else {
                        b + 1
                    };
                    assert(after[i] == before[b]);
                    assert(after[i].0@ == k);
                }
            }
            assert forall|k: Seq<char>| holds(after, k) implies as_map(after)[k] == (if k == text {
                value
            } else {
                as_map(before)[k]
            }) by {
                if k == text {
                    lemma_place(after, at);
                } else {
                    let b = place(before, k);
                    assert(holds(before, k));
                    let i = if found || b < at {
                        b
                    } else {
                        b + 1
                    };
                    assert(after[i] == before[b]);
                    lemma_place(after, i);
                    lemma_place(before, b);
                }
            }
            assert(self@ =~= old(self)@.insert(text, value));
        }
    }

    /// Drop a name. Returns what it stood for.
    pub fn remove(&mut self, name: &str) -> (r: Option<V>)
        requires
            old(self).in_order(),
        ensures
            final(self).in_order(),
            final(self)@ == old(self)@.remove(name@),
            match r {
                Some(v) => old(self)@.dom().contains(name@) && old(self)@[name@] == v,
                None => !old(self)@.dom().contains(name@),
            },
    {
        let p: usize = self.seek(name);
        if p < self.entries.len() && crate::text::same(self.entries[p].0.as_str(), name) {
            proof {
                lemma_place(self.entries@, p as int);
            }
            Some(self.take_out(p))
        } else {
            assert(self@ =~= old(self)@.remove(name@));
            None
        }
    }

    /// Drop the entry at one place.
    fn take_out(&mut self, p: usize) -> (v: V)
        requires
            old(self).in_order(),
            p < old(self).listed().len(),
        ensures
            final(self).in_order(),
            final(self).listed() == old(self).listed().remove(p as int),
            final(self)@ == old(self)@.remove(old(self).listed()[p as int].0@),
            v == old(self).listed()[p as int].1,
    {
        let ghost before = self.entries@;
        let (name, v) = self.entries.remove(p);
        proof {
            let after = self.entries@;
            let at = p as int;
            let text = before[at].0@;
            assert(ascending(after)) by {
                assert forall|i: int, j: int| 0 <= i < j < after.len() implies precedes(
                    #[trigger] after[i].0@,
                    #[trigger] after[j].0@,
                ) by {
                    let x = if i < at {
                        i
                    } else {
                        i + 1
                    };
                    let y = if j < at {
                        j
                    } else {
                        j + 1
                    };
                    assert(after[i] == before[x] && after[j] == before[y]);
                }
            }
            assert forall|k: Seq<char>| holds(after, k) == (k != text && holds(before, k)) by {
                if holds(after, k) {
                    let i = place(after, k);
                    let b = if i < at {
                        i
                    } else {
                        i + 1
                    };
                    assert(before[b] == after[i]);
                    assert(before[b].0@ == k);
                    lemma_place(before, b);
                    lemma_place(before, at);
                }
                if holds(before, k) && k != text {
                    let b = place(before, k);
                    let i = if b < at {
                        b
                    } else {
                        b - 1
                    };
                    assert(after[i] == before[b]);
                    assert(after[i].0@ == k);
                }
            }
            assert forall|k: Seq<char>| holds(after, k) implies as_map(after)[k] == as_map(
                before,
            )[k] by {
                let i = place(after, k);
                let b = if i < at {
                    i
                } else {
                    i + 1
                };
                assert(before[b] == after[i]);
                lemma_place(before, b);
            }
            assert(self@ =~= old(self)@.remove(text));
        }
        v
    }

    /// Keep the values a test accepts and drop the rest.
    pub fn retain<F: Fn(&V) -> bool>(&mut self, keep: F)
        requires
            old(self).in_order(),
            forall|v: &V| call_requires(keep, (v,)),
        ensures
            final(self).in_order(),
            final(self)@.submap_of(old(self)@),
            forall|k: Seq<char>|
                #[trigger] final(self)@.dom().contains(k) ==> call_ensures(
                    keep,
                    (&old(self)@[k],),
                    true,
                ),
            forall|k: Seq<char>|
                #[trigger] old(self)@.dom().contains(k) && !final(self)@.dom().contains(k)
                    ==> call_ensures(keep, (&old(self)@[k],), false),
    {
        let mut i: usize = 0;
        while i < self.entries.len()
            invariant
                i <= self.entries@.len(),
                self.in_order(),
                self@.submap_of(old(self)@),
                forall|v: &V| call_requires(keep, (v,)),
                forall|j: int|
                    0 <= j < i ==> call_ensures(keep, (&(#[trigger] self.entries@[j]).1,), true),
                forall|k: Seq<char>|
                    #[trigger] old(self)@.dom().contains(k) && !self@.dom().contains(k)
                        ==> call_ensures(keep, (&old(self)@[k],), false),
            decreases self.entries@.len() - i,
        {
            let ghost before = self.entries@;
            proof {
                lemma_place(before, i as int);
            }
            if keep(&self.entries[i].1) {
                i = i + 1;
            } else {
                let ghost dropped = before[i as int].0@;
                assert(self@.dom().contains(dropped));
                self.take_out(i);
                assert forall|j: int| 0 <= j < i implies call_ensures(
                    keep,
                    (&(#[trigger] self.entries@[j]).1,),
                    true,
                ) by {
                    assert(self.entries@[j] == before[j]);
                }
            }
        }
        proof {
            assert forall|k: Seq<char>| #[trigger] self@.dom().contains(k) implies call_ensures(
                keep,
                (&old(self)@[k],),
                true,
            ) by {
                let j = place(self.entries@, k);
                lemma_place(self.entries@, j);
                assert(old(self)@.dom().contains(k));
                assert(old(self)@[k] == self@[k]);
            }
        }
    }

    /// Drop every name.
    pub fn clear(&mut self)
        ensures
            final(self).in_order(),
            final(self)@ == Map::<Seq<char>, V>::empty(),
            final(self).listed().len() == 0,
    {
        self.entries.clear();
        assert(self@ =~= Map::<Seq<char>, V>::empty());
    }

    /// The names, in their order.
    pub fn names(&self) -> (r: Vec<String>)
        ensures
            r@.len() == self.listed().len(),
            forall|i: int| 0 <= i < r@.len() ==> (#[trigger] r@[i])@ == self.listed()[i].0@,
    {
        let mut r: Vec<String> = Vec::new();
        let mut i: usize = 0;
        while i < self.entries.len()
            invariant
                i <= self.entries@.len(),
                r@.len() == i,
                forall|j: int| 0 <= j < i ==> (#[trigger] r@[j])@ == self.entries@[j].0@,
            decreases self.entries@.len() - i,
        {
            r.push(self.entries[i].0.clone());
            i = i + 1;
        }
        r
    }

    /// The name at one place of the order.
    pub fn name_at(&self, i: usize) -> (r: &str)
        requires
            i < self.listed().len(),
        ensures
            r@ == self.listed()[i as int].0@,
    {
        self.entries[i].0.as_str()
    }

    /// The value at one place of the order.
    pub fn value_at(&self, i: usize) -> (r: &V)
        requires
            i < self.listed().len(),
        ensures
            *r == self.listed()[i as int].1,
    {
        &self.entries[i].1
    }
}

impl<V: Copy> ByName<V> {
    /// The names and values, in their order.
    pub fn list(&self) -> (r: Vec<(String, V)>)
        ensures
            r@.len() == self.listed().len(),
            forall|i: int|
                0 <= i < r@.len() ==> (#[trigger] r@[i]).0@ == self.listed()[i].0@ && r@[i].1
                    == self.listed()[i].1,
            self.in_order() ==> ascending(r@) && as_map(r@) == self@,
    {
        let mut r: Vec<(String, V)> = Vec::new();
        let mut i: usize = 0;
        while i < self.entries.len()
            invariant
                i <= self.entries@.len(),
                r@.len() == i,
                forall|j: int|
                    0 <= j < i ==> (#[trigger] r@[j]).0@ == self.entries@[j].0@ && r@[j].1
                        == self.entries@[j].1,
            decreases self.entries@.len() - i,
        {
            r.push((self.entries[i].0.clone(), self.entries[i].1));
            i = i + 1;
        }
        proof {
            if self.in_order() {
                lemma_same_list(r@, self.entries@);
            }
        }
        r
    }

    /// The same map once more.
    pub fn copied(&self) -> (r: Self)
        requires
            self.in_order(),
        ensures
            r.in_order(),
            r@ == self@,
    {
        ByName { entries: self.list() }
    }
}

/// Two names stand by the first character in which they differ: whatever follows it,
/// the one with the lesser character there comes first.
pub proof fn names_stand_by_their_first_difference(a: Seq<char>, b: Seq<char>, k: int)
    requires
        0 <= k < a.len(),
        k < b.len(),
        a.take(k) == b.take(k),
        a[k] < b[k],
    ensures
        precedes(a, b),
        !precedes(b, a),
    decreases k,
{
    if k > 0 {
        assert(a[0] == a.take(k)[0] && b[0] == b.take(k)[0]);
        assert(a.drop_first().take(k - 1) =~= a.take(k).drop_first());
        assert(b.drop_first().take(k - 1) =~= b.take(k).drop_first());
        names_stand_by_their_first_difference(a.drop_first(), b.drop_first(), k - 1);
    }
}

/// A name stands before every longer one that begins with it.
pub proof fn a_beginning_stands_before_what_it_begins(a: Seq<char>, more: Seq<char>)
    requires
        more.len() > 0,
    ensures
        precedes(a, a + more),
        !precedes(a + more, a),
    decreases a.len(),
{
    if a.len() > 0 {
        assert((a + more).drop_first() =~= a.drop_first() + more);
        assert((a + more)[0] == a[0]);
        a_beginning_stands_before_what_it_begins(a.drop_first(), more);
    }
}

} // verus!

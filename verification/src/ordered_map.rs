//! A map from names to values that keeps its entries in the order of their names.

use crate::name_order::{
    lemma_precedes_asymmetric, lemma_precedes_irreflexive, lemma_precedes_total,
    lemma_precedes_transitive, precedes, relate, Relation,
};
use vstd::prelude::*;

verus! {

/// The names of `entries` ascend strictly, so no name occurs twice.
pub open spec fn strictly_ordered<T>(entries: Seq<(Seq<char>, T)>) -> bool {
    forall|i: int, j: int|
        0 <= i < j < entries.len() ==> precedes(#[trigger] entries[i].0, #[trigger] entries[j].0)
}

/// The length of the leading run of entries whose names precede `name`. Among strictly
/// ordered entries this is the place where `name` stands or would have to stand.
pub open spec fn rank<T>(entries: Seq<(Seq<char>, T)>, name: Seq<char>) -> int
    decreases entries.len(),
{
    if entries.len() == 0 || !precedes(entries[0].0, name) {
        0
    } else {
        1 + rank(entries.skip(1), name)
    }
}

/// Whether `name` is the name of one of the strictly ordered `entries`.
pub open spec fn holds<T>(entries: Seq<(Seq<char>, T)>, name: Seq<char>) -> bool {
    let at = rank(entries, name);
    at < entries.len() && entries[at].0 == name
}

/// The strictly ordered `entries` after `name` has been given `value`: the entry of that
/// name is replaced if there is one, and otherwise a new entry takes its place in the order.
pub open spec fn inserted<T>(entries: Seq<(Seq<char>, T)>, name: Seq<char>, value: T) -> Seq<
    (Seq<char>, T),
> {
    let at = rank(entries, name);
    if holds(entries, name) {
        entries.update(at, (name, value))
    } else {
        entries.insert(at, (name, value))
    }
}

/// The value that the strictly ordered `entries` hold under `name`, if any.
pub open spec fn lookup<T>(entries: Seq<(Seq<char>, T)>, name: Seq<char>) -> Option<T> {
    if holds(entries, name) {
        Some(entries[rank(entries, name)].1)
    } else {
        None
    }
}

/// The rank of `name` is bounded by the number of entries, every entry below it precedes
/// `name`, and the entry at it, if there is one, does not.
pub proof fn lemma_rank_bounds<T>(entries: Seq<(Seq<char>, T)>, name: Seq<char>)
    ensures
        0 <= rank(entries, name) <= entries.len(),
        forall|j: int| 0 <= j < rank(entries, name) ==> precedes(#[trigger] entries[j].0, name),
        rank(entries, name) < entries.len() ==> !precedes(entries[rank(entries, name)].0, name),
    decreases entries.len(),
{
    if entries.len() > 0 && precedes(entries[0].0, name) {
        let rest = entries.skip(1);
        lemma_rank_bounds(rest, name);
        assert forall|j: int| 0 <= j < rank(entries, name) implies precedes(
            #[trigger] entries[j].0,
            name,
        ) by {
            if j > 0 {
                assert(entries[j] == rest[j - 1]);
            }
        }
        if rank(entries, name) < entries.len() {
            assert(entries[rank(entries, name)] == rest[rank(rest, name)]);
        }
    }
}

/// A place below which every name precedes `name`, and at which the name, if there is one,
/// does not, is the rank of `name`.
pub proof fn lemma_rank_is<T>(entries: Seq<(Seq<char>, T)>, name: Seq<char>, at: int)
    requires
        0 <= at <= entries.len(),
        forall|j: int| 0 <= j < at ==> precedes(#[trigger] entries[j].0, name),
        at < entries.len() ==> !precedes(entries[at].0, name),
    ensures
        rank(entries, name) == at,
    decreases at,
{
    if at > 0 {
        let rest = entries.skip(1);
        assert forall|j: int| 0 <= j < at - 1 implies precedes(#[trigger] rest[j].0, name) by {
            assert(rest[j] == entries[j + 1]);
        }
        if at < entries.len() {
            assert(rest[at - 1] == entries[at]);
        }
        lemma_rank_is(rest, name, at - 1);
    }
}

/// Giving a name a value keeps strictly ordered entries strictly ordered.
pub proof fn lemma_inserted_ordered<T>(entries: Seq<(Seq<char>, T)>, name: Seq<char>, value: T)
    requires
        strictly_ordered(entries),
    ensures
        strictly_ordered(inserted(entries, name, value)),
{
    let at = rank(entries, name);
    let after = inserted(entries, name, value);
    lemma_rank_bounds(entries, name);
    if holds(entries, name) {
        assert forall|i: int, j: int| 0 <= i < j < after.len() implies precedes(
            #[trigger] after[i].0,
            #[trigger] after[j].0,
        ) by {
            assert(after[j].0 == entries[j].0);
        }
    } else {
        assert forall|i: int, j: int| 0 <= i < j < after.len() implies precedes(
            #[trigger] after[i].0,
            #[trigger] after[j].0,
        ) by {
            if j < at {
                assert(after[i] == entries[i] && after[j] == entries[j]);
            } else if j == at {
                assert(after[i] == entries[i]);
            } else if i == at {
                lemma_precedes_total(name, entries[at].0);
                if j - 1 > at {
                    lemma_precedes_transitive(name, entries[at].0, entries[j - 1].0);
                }
            } else if i < at {
                assert(after[i] == entries[i] && after[j] == entries[j - 1]);
            } else {
                assert(after[i] == entries[i - 1] && after[j] == entries[j - 1]);
            }
        }
    }
}

/// The mapping that `entries` stand for: each name of an entry with the value of that entry.
pub open spec fn as_map<T>(entries: Seq<(Seq<char>, T)>) -> Map<Seq<char>, T> {
    Map::new(
        |name: Seq<char>| exists|i: int| 0 <= i < entries.len() && (#[trigger] entries[i]).0 == name,
        |name: Seq<char>|
            entries[choose|i: int| 0 <= i < entries.len() && (#[trigger] entries[i]).0 == name].1,
    )
}

/// Among strictly ordered entries every name stands for the value of its own entry.
pub proof fn lemma_as_map_entry<T>(entries: Seq<(Seq<char>, T)>, i: int)
    requires
        strictly_ordered(entries),
        0 <= i < entries.len(),
    ensures
        as_map(entries).contains_key(entries[i].0),
        as_map(entries)[entries[i].0] == entries[i].1,
{
    let name = entries[i].0;
    let j = choose|j: int| 0 <= j < entries.len() && (#[trigger] entries[j]).0 == name;
    lemma_precedes_irreflexive(name);
    if j < i {
        assert(precedes(entries[j].0, entries[i].0));
    } else if i < j {
        assert(precedes(entries[i].0, entries[j].0));
    }
}

/// Strictly ordered entries hold a name exactly if their rank for it is the place of an
/// entry of that name, and that is exactly if the name is in the mapping.
pub proof fn lemma_holds_as_map<T>(entries: Seq<(Seq<char>, T)>, name: Seq<char>)
    requires
        strictly_ordered(entries),
    ensures
        holds(entries, name) == as_map(entries).contains_key(name),
        lookup(entries, name) == if as_map(entries).contains_key(name) {
            Some(as_map(entries)[name])
        } else {
            None
        },
{
    lemma_rank_bounds(entries, name);
    let at = rank(entries, name);
    if holds(entries, name) {
        lemma_as_map_entry(entries, at);
    } else if as_map(entries).contains_key(name) {
        let i = choose|i: int| 0 <= i < entries.len() && (#[trigger] entries[i]).0 == name;
        lemma_precedes_irreflexive(name);
        if i < at {
            assert(precedes(entries[i].0, name));
        } else if i > at {
            assert(precedes(entries[at].0, entries[i].0));
        }
    }
}

/// To give a name a value among strictly ordered entries is to give it that value in the
/// mapping that they stand for.
pub proof fn lemma_inserted_as_map<T>(entries: Seq<(Seq<char>, T)>, name: Seq<char>, value: T)
    requires
        strictly_ordered(entries),
    ensures
        as_map(inserted(entries, name, value)) == as_map(entries).insert(name, value),
{
    let after = inserted(entries, name, value);
    let at = rank(entries, name);
    lemma_rank_bounds(entries, name);
    lemma_inserted_ordered(entries, name, value);
    lemma_holds_as_map(entries, name);
    lemma_as_map_entry(after, at);
    assert forall|k: Seq<char>| #[trigger]
        as_map(after).contains_key(k) == as_map(entries).insert(name, value).contains_key(
            k,
        ) by {
        if k != name {
            if as_map(after).contains_key(k) {
                let i = choose|i: int| 0 <= i < after.len() && (#[trigger] after[i]).0 == k;
                if holds(entries, name) {
                    assert(entries[i].0 == k);
                } else if i < at {
                    assert(entries[i].0 == k);
                } else {
                    assert(entries[i - 1].0 == k);
                }
            }
            if as_map(entries).contains_key(k) {
                let i = choose|i: int| 0 <= i < entries.len() && (#[trigger] entries[i]).0 == k;
                if holds(entries, name) {
                    assert(after[i].0 == k);
                } else if i < at {
                    assert(after[i].0 == k);
                } else {
                    assert(after[i + 1].0 == k);
                }
            }
        }
    }
    assert forall|k: Seq<char>| #[trigger] as_map(after).contains_key(k) implies as_map(after)[k]
        == as_map(entries).insert(name, value)[k] by {
        if k != name {
            let i = choose|i: int| 0 <= i < entries.len() && (#[trigger] entries[i]).0 == k;
            lemma_as_map_entry(entries, i);
            if holds(entries, name) {
                lemma_as_map_entry(after, i);
            } else if i < at {
                lemma_as_map_entry(after, i);
            } else {
                lemma_as_map_entry(after, i + 1);
            }
        }
    }
}

/// A mapping has one strictly ordered sequence of entries only.
pub proof fn lemma_ordered_unique<T>(a: Seq<(Seq<char>, T)>, b: Seq<(Seq<char>, T)>)
    requires
        strictly_ordered(a),
        strictly_ordered(b),
        as_map(a) == as_map(b),
    ensures
        a == b,
    decreases a.len(),
{
    if a.len() == 0 {
        if b.len() > 0 {
            lemma_as_map_entry(b, 0);
        }
    } else if b.len() == 0 {
        lemma_as_map_entry(a, 0);
    } else {
        let la = a.len() - 1;
        let lb = b.len() - 1;
        lemma_as_map_entry(a, la);
        lemma_as_map_entry(b, lb);
        let i = choose|i: int| 0 <= i < a.len() && (#[trigger] a[i]).0 == b[lb].0;
        let j = choose|j: int| 0 <= j < b.len() && (#[trigger] b[j]).0 == a[la].0;
        assert(a[la].0 == b[lb].0) by {
            if i < la && j < lb {
                lemma_precedes_asymmetric(a[i].0, a[la].0);
            } else if i < la {
                lemma_precedes_irreflexive(a[la].0);
            } else if j < lb {
                lemma_precedes_irreflexive(b[lb].0);
            }
        }
        let top = a[la].0;
        let shorter_a = a.drop_last();
        let shorter_b = b.drop_last();
        assert(strictly_ordered(shorter_a)) by {
            assert forall|x: int, y: int| 0 <= x < y < shorter_a.len() implies precedes(
                #[trigger] shorter_a[x].0,
                #[trigger] shorter_a[y].0,
            ) by {
                assert(precedes(a[x].0, a[y].0));
            }
        }
        assert(strictly_ordered(shorter_b)) by {
            assert forall|x: int, y: int| 0 <= x < y < shorter_b.len() implies precedes(
                #[trigger] shorter_b[x].0,
                #[trigger] shorter_b[y].0,
            ) by {
                assert(precedes(b[x].0, b[y].0));
            }
        }
        lemma_precedes_irreflexive(top);
        assert forall|k: Seq<char>| #[trigger]
            as_map(shorter_a).contains_key(k) == as_map(shorter_b).contains_key(k) by {
            if as_map(shorter_a).contains_key(k) {
                let x = choose|x: int|
                    0 <= x < shorter_a.len() && (#[trigger] shorter_a[x]).0 == k;
                assert(as_map(b).contains_key(k));
                let y = choose|y: int| 0 <= y < b.len() && (#[trigger] b[y]).0 == k;
                assert(shorter_b[y].0 == k);
            }
            if as_map(shorter_b).contains_key(k) {
                let y = choose|y: int|
                    0 <= y < shorter_b.len() && (#[trigger] shorter_b[y]).0 == k;
                assert(as_map(a).contains_key(k));
                let x = choose|x: int| 0 <= x < a.len() && (#[trigger] a[x]).0 == k;
                assert(shorter_a[x].0 == k);
            }
        }
        assert forall|k: Seq<char>| #[trigger] as_map(shorter_a).contains_key(k) implies as_map(
            shorter_a,
        )[k] == as_map(shorter_b)[k] by {
            let x = choose|x: int| 0 <= x < shorter_a.len() && (#[trigger] shorter_a[x]).0 == k;
            let y = choose|y: int| 0 <= y < shorter_b.len() && (#[trigger] shorter_b[y]).0 == k;
            lemma_as_map_entry(shorter_a, x);
            lemma_as_map_entry(shorter_b, y);
            lemma_as_map_entry(a, x);
            lemma_as_map_entry(b, y);
        }
        assert(as_map(shorter_a) =~= as_map(shorter_b));
        lemma_ordered_unique(shorter_a, shorter_b);
        assert(a =~= shorter_a.push(a[la]));
        assert(b =~= shorter_b.push(b[lb]));
    }
}

/// A map from names to values that keeps its entries in the order of their names, so that
/// walking it always meets the same entries in the same order.
#[derive(Debug, PartialEq, Eq)]
pub struct OrderedMap<V> {
    entries: Vec<(String, V)>,
}

impl<V: View> View for OrderedMap<V> {
    type V = Seq<(Seq<char>, V::V)>;

    closed spec fn view(&self) -> Seq<(Seq<char>, V::V)> {
        self.entries@.map_values(|e: (String, V)| (e.0@, e.1@))
    }
}

impl<V> OrderedMap<V> {
    #[verifier::type_invariant]
    spec fn names_ascend(&self) -> bool {
        forall|i: int, j: int|
            0 <= i < j < self.entries@.len() ==> precedes(
                #[trigger] self.entries@[i].0@,
                #[trigger] self.entries@[j].0@,
            )
    }
}

impl<V: View> OrderedMap<V> {
    /// The value at place `i` in the order of names.
    pub closed spec fn value_at(&self, i: int) -> V {
        self.entries@[i].1
    }

    /// A map without entries.
    pub fn new() -> (m: Self)
        ensures
            m@ == Seq::<(Seq<char>, V::V)>::empty(),
    {
        let m = OrderedMap { entries: Vec::new() };
        m
    }

    /// The number of entries. The entries of a map are strictly ordered at all times.
    pub fn len(&self) -> (n: usize)
        ensures
            n == self@.len(),
            strictly_ordered(self@),
    {
        proof {
            use_type_invariant(self);
        }
        self.entries.len()
    }

    /// Whether the map has no entry.
    pub fn is_empty(&self) -> (b: bool)
        ensures
            b == (self@.len() == 0),
    {
        self.entries.len() == 0
    }

    /// The name and the value of the entry at place `i` in the order of names.
    pub fn entry(&self, i: usize) -> (e: (&String, &V))
        requires
            i < self@.len(),
        ensures
            e.0@ == self@[i as int].0,
            e.1@ == self@[i as int].1,
    {
        let e = &self.entries[i];
        (&e.0, &e.1)
    }

    /// The place where `name` stands or would have to stand, and whether it stands there.
    fn place(&self, name: &str) -> (found: (usize, bool))
        ensures
            found.0 == rank(self@, name@),
            found.0 <= self@.len(),
            found.1 == holds(self@, name@),
            strictly_ordered(self@),
    {
        proof {
            use_type_invariant(self);
            lemma_precedes_irreflexive(name@);
            assert forall|i: int, j: int| 0 <= i < j < self@.len() implies precedes(
                #[trigger] self@[i].0,
                #[trigger] self@[j].0,
            ) by {
                assert(precedes(self.entries@[i].0@, self.entries@[j].0@));
            }
        }
        let mut lo: usize = 0;
        let mut hi: usize = self.entries.len();
        let mut present = false;
        while lo < hi
            invariant
                lo <= hi <= self.entries@.len(),
                strictly_ordered(self@),
                !precedes(name@, name@),
                forall|j: int| 0 <= j < lo ==> precedes(#[trigger] self@[j].0, name@),
                forall|j: int| hi <= j < self@.len() ==> !precedes(#[trigger] self@[j].0, name@),
                present == (hi < self@.len() && self@[hi as int].0 == name@),
            decreases hi - lo,
        {
            let mid = lo + (hi - lo) / 2;
            let probe = &self.entries[mid];
            match relate(probe.0.as_str(), name) {
                Relation::Before => {
                    assert forall|j: int| 0 <= j < mid + 1 implies precedes(
                        #[trigger] self@[j].0,
                        name@,
                    ) by {
                        if j < mid {
                            lemma_precedes_transitive(self@[j].0, self@[mid as int].0, name@);
                        }
                    }
                    lo = mid + 1;
                },
                relation => {
                    assert forall|j: int| mid <= j < self@.len() implies !precedes(
                        #[trigger] self@[j].0,
                        name@,
                    ) by {
                        if j > mid && precedes(self@[j].0, name@) {
                            lemma_precedes_transitive(self@[mid as int].0, self@[j].0, name@);
                        }
                    }
                    hi = mid;
                    present = relation == Relation::Same;
                },
            }
        }
        proof {
            lemma_rank_is(self@, name@, lo as int);
        }
        (lo, present)
    }

    /// Whether the map has an entry under `name`.
    pub fn contains_key(&self, name: &str) -> (b: bool)
        ensures
            b == holds(self@, name@),
    {
        self.place(name).1
    }

    /// The value under `name`, if the map has one.
    pub fn get(&self, name: &str) -> (v: Option<&V>)
        ensures
            match v {
                Some(value) => lookup(self@, name@) == Some(value@),
                None => lookup(self@, name@) is None,
            },
    {
        let (at, present) = self.place(name);
        if present {
            Some(&self.entries[at].1)
        } else {
            None
        }
    }

    /// Gives `name` the value `value`, replacing the value that it had, if any.
    pub fn insert(&mut self, name: String, value: V)
        ensures
            final(self)@ == inserted(old(self)@, name@, value@),
            strictly_ordered(final(self)@),
    {
        let (at, present) = self.place(name.as_str());
        let ghost before = self@;
        let ghost after = inserted(before, name@, value@);
        proof {
            lemma_inserted_ordered(before, name@, value@);
        }
        let mut entries: Vec<(String, V)> = Vec::new();
        std::mem::swap(&mut self.entries, &mut entries);
        if present {
            entries.set(at, (name, value));
        } else {
            entries.insert(at, (name, value));
        }
        proof {
            assert forall|i: int, j: int| 0 <= i < j < entries@.len() implies precedes(
                #[trigger] entries@[i].0@,
                #[trigger] entries@[j].0@,
            ) by {
                assert(after[i].0 == entries@[i].0@);
                assert(after[j].0 == entries@[j].0@);
            }
        }
        self.entries = entries;
    }
}

impl<V: View + Clone> Clone for OrderedMap<V> {
    /// A map of the same names, each with a clone of its value.
    fn clone(&self) -> (copy: Self)
        ensures
            copy@.len() == self@.len(),
            forall|i: int| 0 <= i < self@.len() ==> (#[trigger] copy@[i]).0 == self@[i].0,
            forall|i: int|
                0 <= i < self@.len() ==> {
                    &&& cloned(self.value_at(i), #[trigger] copy.value_at(i))
                    &&& copy@[i].1 == copy.value_at(i)@
                    &&& self@[i].1 == self.value_at(i)@
                },
    {
        proof {
            use_type_invariant(self);
        }
        let mut entries: Vec<(String, V)> = Vec::new();
        let mut i: usize = 0;
        while i < self.entries.len()
            invariant
                i <= self.entries@.len(),
                self.names_ascend(),
                entries@.len() == i,
                forall|j: int| 0 <= j < i ==> (#[trigger] entries@[j]).0@ == self.entries@[j].0@,
                forall|j: int|
                    0 <= j < i ==> cloned(self.entries@[j].1, (#[trigger] entries@[j]).1),
            decreases self.entries@.len() - i,
        {
            let e = &self.entries[i];
            entries.push((e.0.clone(), e.1.clone()));
            i = i + 1;
        }
        proof {
            assert forall|a: int, b: int| 0 <= a < b < entries@.len() implies precedes(
                #[trigger] entries@[a].0@,
                #[trigger] entries@[b].0@,
            ) by {
                assert(precedes(self.entries@[a].0@, self.entries@[b].0@));
            }
        }
        OrderedMap { entries }
    }
}

} // verus!

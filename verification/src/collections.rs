//! The collections of strings that the service keeps.

use dashmap::{DashMap, DashSet};
use vstd::prelude::*;

verus! {

/// `dashmap::DashSet`, of which only `set_contents` is known.
#[verifier::external_type_specification]
#[verifier::external_body]
#[verifier::reject_recursive_types(K)]
#[verifier::reject_recursive_types(S)]
pub struct ExDashSet<K, S>(DashSet<K, S>);

/// `dashmap::DashMap`, of which only `map_contents` is known.
#[verifier::external_type_specification]
#[verifier::external_body]
#[verifier::reject_recursive_types(K)]
#[verifier::reject_recursive_types(V)]
#[verifier::reject_recursive_types(S)]
pub struct ExDashMap<K, V, S>(DashMap<K, V, S>);

/// The strings that a `DashSet` holds.
pub uninterp spec fn set_contents(set: DashSet<String>) -> Set<Seq<char>>;

/// The entries that a `DashMap` holds.
pub uninterp spec fn map_contents(map: DashMap<String, bool>) -> Map<Seq<char>, bool>;

/// `DashSet::new`: a set that holds nothing.
#[verifier::external_body]
fn new_set() -> (set: DashSet<String>)
    ensures
        set_contents(set) == Set::<Seq<char>>::empty(),
{
    DashSet::new()
}

/// `DashSet::contains`: whether the set holds a string equal to `key`.
#[verifier::external_body]
fn set_contains(set: &DashSet<String>, key: &str) -> (found: bool)
    ensures
        found == set_contents(*set).contains(key@),
{
    set.contains(key)
}

/// `DashSet::insert`: the set then also holds `key`; the result tells whether it did not before.
/// The set is borrowed exclusively, so that nobody else changes it meanwhile.
#[verifier::external_body]
fn set_insert(set: &mut DashSet<String>, key: String) -> (fresh: bool)
    ensures
        set_contents(*final(set)) == set_contents(*old(set)).insert(key@),
        fresh == !set_contents(*old(set)).contains(key@),
{
    set.insert(key)
}

/// `DashSet::remove`: the set then no longer holds `key`; the result is the string that left, if
/// there was one. The set is borrowed exclusively, so that nobody else changes it meanwhile.
#[verifier::external_body]
fn set_remove(set: &mut DashSet<String>, key: &str) -> (removed: Option<String>)
    ensures
        set_contents(*final(set)) == set_contents(*old(set)).remove(key@),
        removed is Some <==> set_contents(*old(set)).contains(key@),
        removed matches Some(held) ==> held@ == key@,
{
    set.remove(key)
}

/// `DashMap::into_iter`, walked to its end: each entry of the map once, in an order that is left
/// open.
#[verifier::external_body]
pub(crate) fn map_rows(map: DashMap<String, bool>) -> (rows: Vec<(String, bool)>)
    ensures
        lists_entries(rows@, map_contents(map)),
{
    map.into_iter().collect()
}

/// Whether a sequence holds the members of a set, each once.
pub open spec fn lists_members(items: Seq<String>, set: Set<Seq<char>>) -> bool {
    &&& forall|i: int, j: int| 0 <= i < j < items.len() ==> items[i]@ != items[j]@
    &&& forall|i: int| 0 <= i < items.len() ==> set.contains(#[trigger] items[i]@)
    &&& forall|s: Seq<char>| #[trigger]
        set.contains(s) ==> exists|i: int| 0 <= i < items.len() && items[i]@ == s
}

/// Whether a sequence holds the entries of a map, each once.
pub open spec fn lists_entries(rows: Seq<(String, bool)>, map: Map<Seq<char>, bool>) -> bool {
    &&& forall|i: int, j: int| 0 <= i < j < rows.len() ==> rows[i].0@ != rows[j].0@
    &&& forall|i: int|
        0 <= i < rows.len() ==> map.contains_pair((#[trigger] rows[i]).0@, rows[i].1)
    &&& forall|key: Seq<char>| #[trigger]
        map.contains_key(key) ==> exists|i: int| 0 <= i < rows.len() && rows[i].0@ == key
}

/// A set of strings in a `DashSet`, which changes only while it is borrowed exclusively.
pub struct DashStringSet {
    set: DashSet<String>,
}

impl View for DashStringSet {
    type V = Set<Seq<char>>;

    closed spec fn view(&self) -> Set<Seq<char>> {
        set_contents(self.set)
    }
}

impl DashStringSet {
    /// The set without members.
    pub fn new() -> (set: DashStringSet)
        ensures
            set@ == Set::<Seq<char>>::empty(),
    {
        DashStringSet { set: new_set() }
    }

    /// Whether the set holds a string equal to `item`.
    pub fn contains(&self, item: &str) -> (found: bool)
        ensures
            found == self@.contains(item@),
    {
        set_contains(&self.set, item)
    }

    /// Puts a string into the set, and tells whether it was not there before.
    pub fn insert(&mut self, item: String) -> (fresh: bool)
        ensures
            final(self)@ == old(self)@.insert(item@),
            fresh == !old(self)@.contains(item@),
    {
        set_insert(&mut self.set, item)
    }

    /// Takes a string out of the set, and gives it back if it was there.
    pub fn remove(&mut self, item: &str) -> (removed: Option<String>)
        ensures
            final(self)@ == old(self)@.remove(item@),
            removed is Some <==> old(self)@.contains(item@),
            removed matches Some(held) ==> held@ == item@,
    {
        set_remove(&mut self.set, item)
    }
}

/// Nothing is left of items all of which are filtered out.
pub(crate) proof fn lemma_none_kept<A>(items: Seq<A>, pred: spec_fn(A) -> bool)
    requires
        forall|i: int| 0 <= i < items.len() ==> !pred(#[trigger] items[i]),
    ensures
        items.filter(pred) == Seq::<A>::empty(),
    decreases items.len(),
{
    reveal(Seq::filter);
    if items.len() > 0 {
        lemma_none_kept(items.drop_last(), pred);
    }
}

/// Everything is left of items none of which is filtered out.
pub(crate) proof fn lemma_all_kept<A>(items: Seq<A>, pred: spec_fn(A) -> bool)
    requires
        forall|i: int| 0 <= i < items.len() ==> pred(#[trigger] items[i]),
    ensures
        items.filter(pred) == items,
    decreases items.len(),
{
    reveal(Seq::filter);
    if items.len() > 0 {
        lemma_all_kept(items.drop_last(), pred);
        assert(items.drop_last().push(items.last()) =~= items);
    }
}

/// A set of strings that hands its members out in the order in which they came.
pub struct StringSet {
    items: Vec<String>,
}

impl View for StringSet {
    type V = Set<Seq<char>>;

    closed spec fn view(&self) -> Set<Seq<char>> {
        Set::new(|s: Seq<char>| exists|i: int| 0 <= i < self.items@.len() && self.items@[i]@ == s)
    }
}

impl StringSet {
    #[verifier::type_invariant]
    spec fn distinct(self) -> bool {
        forall|i: int, j: int|
            0 <= i < j < self.items@.len() ==> self.items@[i]@ != self.items@[j]@
    }

    /// The set without members.
    pub fn new() -> (set: StringSet)
        ensures
            set@ == Set::<Seq<char>>::empty(),
    {
        let set = StringSet { items: Vec::new() };
        assert(set@ =~= Set::<Seq<char>>::empty());
        set
    }

    fn position(&self, item: &String) -> (found: Option<usize>)
        ensures
            match found {
                Some(i) => i < self.items@.len() && self.items@[i as int]@ == item@,
                None => !self@.contains(item@),
            },
    {
        for i in 0..self.items.len()
            invariant
                forall|j: int| 0 <= j < i ==> self.items@[j]@ != item@,
        {
            if self.items[i] == *item {
                return Some(i);
            }
        }
        None
    }

    /// Whether the set holds a string equal to `item`.
    pub fn contains(&self, item: &String) -> (found: bool)
        ensures
            found == self@.contains(item@),
    {
        self.position(item).is_some()
    }

    /// Puts a string into the set, and tells whether it was not there before.
    pub fn insert(&mut self, item: String) -> (fresh: bool)
        ensures
            final(self)@ == old(self)@.insert(item@),
            fresh == !old(self)@.contains(item@),
    {
        proof {
            use_type_invariant(&*self);
        }
        if self.contains(&item) {
            assert(self@ =~= old(self)@.insert(item@));
            return false;
        }
        let mut items: Vec<String> = Vec::new();
        std::mem::swap(&mut items, &mut self.items);
        items.push(item);
        self.items = items;
        proof {
            let before = old(self).items@;
            assert(self.items@[before.len() as int]@ == item@);
            assert forall|s: Seq<char>| old(self)@.contains(s) implies self@.contains(s) by {
                let i = choose|i: int| 0 <= i < before.len() && before[i]@ == s;
                assert(self.items@[i]@ == s);
            }
            assert(self@ =~= old(self)@.insert(item@));
        }
        true
    }

    /// Takes a string out of the set, and tells whether it was there.
    pub fn remove(&mut self, item: &String) -> (held: bool)
        ensures
            final(self)@ == old(self)@.remove(item@),
            held == old(self)@.contains(item@),
    {
        proof {
            use_type_invariant(&*self);
        }
        match self.position(item) {
            None => {
                assert(self@ =~= old(self)@.remove(item@));
                false
            },
            Some(at) => {
                let mut items: Vec<String> = Vec::new();
                std::mem::swap(&mut items, &mut self.items);
                items.remove(at);
                self.items = items;
                proof {
                    let before = old(self).items@;
                    assert forall|s: Seq<char>|
                        old(self)@.contains(s) && s != item@ implies self@.contains(s) by {
                        let i = choose|i: int| 0 <= i < before.len() && before[i]@ == s;
                        let j = if i < at { i } else { i - 1 };
                        assert(self.items@[j]@ == s);
                    }
                    assert forall|s: Seq<char>| self@.contains(s) implies old(self)@.contains(s)
                        && s != item@ by {
                        let j = choose|j: int|
                            0 <= j < self.items@.len() && self.items@[j]@ == s;
                        let i = if j < at { j } else { j + 1 };
                        assert(before[i]@ == s);
                    }
                    assert(self@ =~= old(self)@.remove(item@));
                }
                true
            },
        }
    }

    /// The members, each once.
    pub fn to_vec(&self) -> (items: Vec<String>)
        ensures
            lists_members(items@, self@),
    {
        proof {
            use_type_invariant(self);
        }
        let items = self.items.clone();
        assert(items@ =~= self.items@);
        items
    }
}

/// The members of a set are listed by exactly those sequences that hold a string if and only if
/// the set does, and no string twice.
pub proof fn law_lists_of_members_are_complete(items: Seq<String>, set: Set<Seq<char>>)
    ensures
        ({
            let held = Seq::new(items.len(), |i: int| items[i]@);
            lists_members(items, set) <==> held.no_duplicates() && held.to_set() == set
        }),
{
    let held = Seq::new(items.len(), |i: int| items[i]@);
    if lists_members(items, set) {
        assert forall|s: Seq<char>| set.contains(s) implies held.contains(s) by {
            let i = choose|i: int| 0 <= i < items.len() && items[i]@ == s;
            assert(held[i] == s);
        }
        assert(held.to_set() =~= set);
    }
    if held.no_duplicates() && held.to_set() == set {
        assert forall|i: int, j: int| 0 <= i < j < items.len() implies items[i]@ != items[j]@ by {
            assert(held[i] != held[j]);
        }
        assert forall|i: int| 0 <= i < items.len() implies set.contains(#[trigger] items[i]@) by {
            assert(held.to_set().contains(held[i]));
        }
        assert forall|s: Seq<char>| #[trigger] set.contains(s) implies exists|i: int|
            0 <= i < items.len() && items[i]@ == s by {
            assert(held.contains(s));
            let i = choose|i: int| 0 <= i < held.len() && held[i] == s;
            assert(items[i]@ == s);
        }
    }
}

/// The entries of a map are listed by exactly those sequences that hold a key with a value if and
/// only if the map does, and no key twice.
pub proof fn law_lists_of_entries_are_complete(
    rows: Seq<(String, bool)>,
    map: Map<Seq<char>, bool>,
)
    ensures
        ({
            let keys = Seq::new(rows.len(), |i: int| rows[i].0@);
            lists_entries(rows, map) <==> keys.no_duplicates() && keys.to_set() == map.dom()
                && forall|i: int| 0 <= i < rows.len() ==> map[(#[trigger] rows[i]).0@] == rows[i].1
        }),
{
    let keys = Seq::new(rows.len(), |i: int| rows[i].0@);
    if lists_entries(rows, map) {
        assert forall|key: Seq<char>| map.dom().contains(key) == keys.contains(key) by {
            if map.contains_key(key) {
                let i = choose|i: int| 0 <= i < rows.len() && rows[i].0@ == key;
                assert(keys[i] == key);
            }
            if keys.contains(key) {
                let i = choose|i: int| 0 <= i < keys.len() && keys[i] == key;
                assert(map.contains_pair(rows[i].0@, rows[i].1));
            }
        }
        assert(keys.to_set() =~= map.dom());
        assert forall|i: int| 0 <= i < rows.len() implies map[(#[trigger] rows[i]).0@]
            == rows[i].1 by {
            assert(map.contains_pair(rows[i].0@, rows[i].1));
        }
    }
    if keys.no_duplicates() && keys.to_set() == map.dom() && (forall|i: int|
        0 <= i < rows.len() ==> map[(#[trigger] rows[i]).0@] == rows[i].1) {
        assert forall|i: int, j: int| 0 <= i < j < rows.len() implies rows[i].0@
            != rows[j].0@ by {
            assert(keys[i] != keys[j]);
        }
        assert forall|i: int| 0 <= i < rows.len() implies map.contains_pair(
            (#[trigger] rows[i]).0@,
            rows[i].1,
        ) by {
            assert(keys.to_set().contains(keys[i]));
        }
        assert forall|key: Seq<char>| #[trigger] map.contains_key(key) implies exists|i: int|
            0 <= i < rows.len() && rows[i].0@ == key by {
            assert(keys.contains(key));
            let i = choose|i: int| 0 <= i < keys.len() && keys[i] == key;
            assert(rows[i].0@ == key);
        }
    }
}

} // verus!

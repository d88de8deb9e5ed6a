//! A map from text to text that remembers the order in which its keys came.

use crate::http::text::same_text;
use vstd::prelude::*;
use vstd::set_lib::lemma_subset_equality;
use vstd::std_specs::cmp::PartialEqSpecImpl;

verus! {

/// A key with its value, as sequences of characters.
pub type Entry = (Seq<char>, Seq<char>);

/// No key stands in two entries.
pub open spec fn distinct_keys(entries: Seq<Entry>) -> bool {
    forall|i: int, j: int|
        0 <= i < j < entries.len() ==> (#[trigger] entries[i]).0 != (#[trigger] entries[j]).0
}

/// Some entry has the key `key`.
pub open spec fn has_key(entries: Seq<Entry>, key: Seq<char>) -> bool {
    exists|i: int| 0 <= i < entries.len() && (#[trigger] entries[i]).0 == key
}

/// The index of an entry with the key `key`; where the keys are distinct
/// there is at most one.
pub open spec fn key_index(entries: Seq<Entry>, key: Seq<char>) -> int {
    choose|i: int| 0 <= i < entries.len() && (#[trigger] entries[i]).0 == key
}

/// The entries after `key` was given the value `value`: the entry of `key`
/// keeps its place, a new key goes to the end.
pub open spec fn put(entries: Seq<Entry>, key: Seq<char>, value: Seq<char>) -> Seq<Entry> {
    if has_key(entries, key) {
        entries.update(key_index(entries, key), (key, value))
    } else {
        entries.push((key, value))
    }
}

/// The entries without the one of `key`; the others keep their order.
pub open spec fn without(entries: Seq<Entry>, key: Seq<char>) -> Seq<Entry> {
    if has_key(entries, key) {
        entries.remove(key_index(entries, key))
    } else {
        entries
    }
}

/// The mapping that the entries stand for. Of two entries with one key the
/// later one counts.
pub open spec fn map_of(entries: Seq<Entry>) -> Map<Seq<char>, Seq<char>>
    decreases entries.len(),
{
    if entries.len() == 0 {
        Map::empty()
    } else {
        map_of(entries.drop_last()).insert(entries.last().0, entries.last().1)
    }
}

/// The domain of `map_of` holds the keys of the entries and no others.
pub proof fn lemma_map_of_domain(entries: Seq<Entry>, key: Seq<char>)
    ensures
        map_of(entries).contains_key(key) <==> has_key(entries, key),
    decreases entries.len(),
{
    if entries.len() > 0 {
        let front = entries.drop_last();
        lemma_map_of_domain(front, key);
        if has_key(front, key) {
            let i = key_index(front, key);
            assert(entries[i] == front[i]);
        }
        if has_key(entries, key) {
            let i = key_index(entries, key);
            if i < front.len() {
                assert(front[i] == entries[i]);
            }
        }
        if entries.last().0 == key {
            assert(entries[entries.len() - 1].0 == key);
        }
    }
}

/// Where the keys are distinct, `map_of` gives each key the value of its entry.
pub proof fn lemma_map_of_value(entries: Seq<Entry>, i: int)
    requires
        distinct_keys(entries),
        0 <= i < entries.len(),
    ensures
        map_of(entries).contains_key(entries[i].0),
        map_of(entries)[entries[i].0] == entries[i].1,
    decreases entries.len(),
{
    let front = entries.drop_last();
    if i < entries.len() - 1 {
        assert(front[i] == entries[i]);
        assert(distinct_keys(front)) by {
            assert forall|a: int, b: int| 0 <= a < b < front.len() implies (#[trigger] front[a]).0
                != (#[trigger] front[b]).0 by {
                assert(front[a] == entries[a]);
                assert(front[b] == entries[b]);
            }
        }
        lemma_map_of_value(front, i);
        assert(entries[i].0 != entries[entries.len() - 1].0);
    }
}

/// Where the keys are distinct, the mapping has as many keys as there are
/// entries.
pub proof fn lemma_map_of_len(entries: Seq<Entry>)
    requires
        distinct_keys(entries),
    ensures
        map_of(entries).dom().finite(),
        map_of(entries).dom().len() == entries.len(),
    decreases entries.len(),
{
    if entries.len() > 0 {
        let front = entries.drop_last();
        assert(distinct_keys(front)) by {
            assert forall|a: int, b: int| 0 <= a < b < front.len() implies (#[trigger] front[a]).0
                != (#[trigger] front[b]).0 by {
                assert(front[a] == entries[a]);
                assert(front[b] == entries[b]);
            }
        }
        lemma_map_of_len(front);
        lemma_map_of_domain(front, entries.last().0);
        if has_key(front, entries.last().0) {
            let i = key_index(front, entries.last().0);
            assert(front[i] == entries[i]);
            assert(entries[i].0 != entries[entries.len() - 1].0);
        }
    }
}

/// Giving a key a value keeps the keys distinct and acts on the mapping as
/// `Map::insert` does.
pub proof fn lemma_put(entries: Seq<Entry>, key: Seq<char>, value: Seq<char>)
    requires
        distinct_keys(entries),
    ensures
        distinct_keys(put(entries, key, value)),
        map_of(put(entries, key, value)) == map_of(entries).insert(key, value),
{
    let after = put(entries, key, value);
    if has_key(entries, key) {
        let at = key_index(entries, key);
        assert forall|a: int, b: int| 0 <= a < b < after.len() implies (#[trigger] after[a]).0 != (
        #[trigger] after[b]).0 by {
            assert(after[a].0 == entries[a].0);
            assert(after[b].0 == entries[b].0);
        }
    } else {
        assert forall|a: int, b: int| 0 <= a < b < after.len() implies (#[trigger] after[a]).0 != (
        #[trigger] after[b]).0 by {
            if b < entries.len() {
                assert(after[a] == entries[a]);
                assert(after[b] == entries[b]);
            } else {
                assert(after[a] == entries[a]);
            }
        }
    }
    assert forall|k: Seq<char>|
        map_of(after).contains_key(k) <==> map_of(entries).insert(key, value).contains_key(
            k,
        ) by {
        lemma_map_of_domain(after, k);
        lemma_map_of_domain(entries, k);
        if has_key(after, k) {
            let i = key_index(after, k);
            if has_key(entries, key) {
                if i != key_index(entries, key) {
                    assert(entries[i].0 == k);
                }
            } else {
                if i < entries.len() {
                    assert(entries[i].0 == k);
                }
            }
        }
        if has_key(entries, k) {
            let i = key_index(entries, k);
            assert(after[i].0 == k);
        }
        if k == key {
            if has_key(entries, key) {
                assert(after[key_index(entries, key)].0 == key);
            } else {
                assert(after[after.len() - 1].0 == key);
            }
        }
    }
    assert forall|k: Seq<char>| #[trigger] map_of(after).contains_key(k) implies map_of(after)[k]
        == map_of(entries).insert(key, value)[k] by {
        lemma_map_of_domain(after, k);
        let i = key_index(after, k);
        lemma_map_of_value(after, i);
        if k != key {
            if has_key(entries, key) {
                assert(i != key_index(entries, key));
            }
            assert(entries[i] == after[i]);
            lemma_map_of_value(entries, i);
        } else {
            if has_key(entries, key) {
                let at = key_index(entries, key);
                assert(after[at].0 == key);
                if i != at {
                    if i < at {
                        assert(after[i].0 != after[at].0);
                    } else {
                        assert(after[at].0 != after[i].0);
                    }
                }
            } else {
                if i < entries.len() {
                    assert(entries[i].0 == key);
                }
            }
        }
    }
    assert(map_of(after) =~= map_of(entries).insert(key, value));
}

/// Taking a key out keeps the keys distinct and acts on the mapping as
/// `Map::remove` does.
pub proof fn lemma_without(entries: Seq<Entry>, key: Seq<char>)
    requires
        distinct_keys(entries),
    ensures
        distinct_keys(without(entries, key)),
        map_of(without(entries, key)) == map_of(entries).remove(key),
{
    let after = without(entries, key);
    if has_key(entries, key) {
        let at = key_index(entries, key);
        assert forall|a: int, b: int| 0 <= a < b < after.len() implies (#[trigger] after[a]).0 != (
        #[trigger] after[b]).0 by {
            let a0 = if a < at { a } else { a + 1 };
            let b0 = if b < at { b } else { b + 1 };
            assert(after[a] == entries[a0]);
            assert(after[b] == entries[b0]);
        }
        assert forall|k: Seq<char>|
            map_of(after).contains_key(k) <==> map_of(entries).remove(key).contains_key(k) by {
            lemma_map_of_domain(after, k);
            lemma_map_of_domain(entries, k);
            if has_key(after, k) {
                let i = key_index(after, k);
                let i0 = if i < at { i } else { i + 1 };
                assert(after[i] == entries[i0]);
                assert(entries[i0].0 == k);
                if i0 < at {
                    assert(entries[i0].0 != entries[at].0);
                } else {
                    assert(entries[at].0 != entries[i0].0);
                }
            }
            if has_key(entries, k) && k != key {
                let i = key_index(entries, k);
                let i1 = if i < at { i } else { i - 1 };
                assert(after[i1] == entries[i]);
                assert(after[i1].0 == k);
            }
        }
        assert forall|k: Seq<char>| #[trigger] map_of(after).contains_key(k) implies map_of(
            after,
        )[k] == map_of(entries).remove(key)[k] by {
            lemma_map_of_domain(after, k);
            let i = key_index(after, k);
            let i0 = if i < at { i } else { i + 1 };
            assert(after[i] == entries[i0]);
            lemma_map_of_value(after, i);
            lemma_map_of_value(entries, i0);
        }
        assert(map_of(after) =~= map_of(entries).remove(key));
    } else {
        lemma_map_of_domain(entries, key);
        assert(map_of(entries).remove(key) =~= map_of(entries));
    }
}

/// The entries that a vector of pairs of strings holds.
spec fn pairs(v: Seq<(String, String)>) -> Seq<Entry> {
    Seq::new(v.len(), |i: int| (v[i].0@, v[i].1@))
}

/// A map from text to text. A key occurs once; the entries keep the order in
/// which their keys were first inserted.
#[derive(Debug)]
pub struct StringMap {
    entries: Vec<(String, String)>,
}

impl View for StringMap {
    type V = Map<Seq<char>, Seq<char>>;

    open spec fn view(&self) -> Map<Seq<char>, Seq<char>> {
        map_of(self.entries())
    }
}

impl StringMap {
    /// The entries, in order.
    pub closed spec fn entries(&self) -> Seq<Entry> {
        pairs(self.entries@)
    }

    #[verifier::type_invariant]
    spec fn well_formed(&self) -> bool {
        distinct_keys(self.entries())
    }

    /// An empty map.
    pub fn new() -> (map: StringMap)
        ensures
            map.entries() == Seq::<Entry>::empty(),
            map@ == Map::<Seq<char>, Seq<char>>::empty(),
    {
        let map = StringMap { entries: Vec::new() };
        assert(map.entries() =~= Seq::<Entry>::empty());
        map
    }

    /// The number of entries.
    pub fn len(&self) -> (n: usize)
        ensures
            n == self.entries().len(),
            n == self@.dom().len(),
            distinct_keys(self.entries()),
    {
        proof {
            use_type_invariant(self);
            lemma_map_of_len(self.entries());
        }
        self.entries.len()
    }

    /// The index of the entry of `key`.
    fn position(&self, key: &str) -> (found: Option<usize>)
        ensures
            match found {
                Some(i) => i < self.entries().len() && self.entries()[i as int].0 == key@
                    && has_key(self.entries(), key@) && key_index(self.entries(), key@) == i,
                None => !has_key(self.entries(), key@),
            },
    {
        proof {
            use_type_invariant(self);
        }
        let mut i: usize = 0;
        while i < self.entries.len()
            invariant
                i <= self.entries@.len(),
                distinct_keys(self.entries()),
                forall|j: int| 0 <= j < i ==> (#[trigger] self.entries()[j]).0 != key@,
            decreases self.entries@.len() - i,
        {
            if same_text(self.entries[i].0.as_str(), key) {
                proof {
                    let ghost entries = self.entries();
                    assert(entries[i as int].0 == key@);
                    let at = key_index(entries, key@);
                    if at < i {
                        assert(entries[at].0 != entries[i as int].0);
                    } else if at > i {
                        assert(entries[i as int].0 != entries[at].0);
                    }
                }
                return Some(i);
            }
            i += 1;
        }
        None
    }

    /// Whether `key` has a value.
    pub fn contains_key(&self, key: &str) -> (present: bool)
        ensures
            present == self@.contains_key(key@),
    {
        proof {
            lemma_map_of_domain(self.entries(), key@);
        }
        self.position(key).is_some()
    }

    /// The value of `key`.
    pub fn get(&self, key: &str) -> (value: Option<&String>)
        ensures
            match value {
                Some(v) => self@.contains_key(key@) && v@ == self@[key@],
                None => !self@.contains_key(key@),
            },
    {
        proof {
            use_type_invariant(self);
            lemma_map_of_domain(self.entries(), key@);
        }
        match self.position(key) {
            Some(i) => {
                proof {
                    lemma_map_of_value(self.entries(), i as int);
                }
                Some(&self.entries[i].1)
            },
            None => None,
        }
    }

    /// Gives `key` the value `value`, in place of the one it had, if any.
    pub fn insert(&mut self, key: String, value: String)
        ensures
            final(self).entries() == put(old(self).entries(), key@, value@),
            final(self)@ == old(self)@.insert(key@, value@),
            distinct_keys(final(self).entries()),
    {
        proof {
            use_type_invariant(&*self);
            lemma_put(self.entries(), key@, value@);
        }
        let ghost before = self.entries();
        let found = self.position(key.as_str());
        let mut entries: Vec<(String, String)> = Vec::new();
        std::mem::swap(&mut self.entries, &mut entries);
        match found {
            Some(i) => {
                entries.set(i, (key, value));
            },
            None => {
                entries.push((key, value));
            },
        }
        assert(pairs(entries@) =~= put(before, key@, value@));
        self.entries = entries;
    }

    /// Takes `key` and its value out; returns the value.
    pub fn remove(&mut self, key: &str) -> (removed: Option<String>)
        ensures
            final(self).entries() == without(old(self).entries(), key@),
            final(self)@ == old(self)@.remove(key@),
            distinct_keys(final(self).entries()),
            match removed {
                Some(v) => old(self)@.contains_key(key@) && v@ == old(self)@[key@],
                None => !old(self)@.contains_key(key@),
            },
    {
        proof {
            use_type_invariant(&*self);
            lemma_without(self.entries(), key@);
            lemma_map_of_domain(self.entries(), key@);
        }
        let ghost before = self.entries();
        match self.position(key) {
            Some(i) => {
                proof {
                    lemma_map_of_value(before, i as int);
                }
                let mut entries: Vec<(String, String)> = Vec::new();
                std::mem::swap(&mut self.entries, &mut entries);
                let entry = entries.remove(i);
                assert(pairs(entries@) =~= without(before, key@));
                self.entries = entries;
                Some(entry.1)
            },
            None => None,
        }
    }

    /// The key of the entry at index `i`.
    pub fn key_at(&self, i: usize) -> (key: &String)
        requires
            i < self.entries().len(),
        ensures
            key@ == self.entries()[i as int].0,
    {
        &self.entries[i].0
    }

    /// The value of the entry at index `i`.
    pub fn value_at(&self, i: usize) -> (value: &String)
        requires
            i < self.entries().len(),
        ensures
            value@ == self.entries()[i as int].1,
    {
        &self.entries[i].1
    }
}

impl PartialEq for StringMap {
    /// Two maps are equal where they give the same keys the same values; the
    /// order of the entries does not count.
    fn eq(&self, other: &StringMap) -> (same: bool) {
        proof {
            use_type_invariant(self);
            use_type_invariant(other);
            lemma_map_of_len(self.entries());
            lemma_map_of_len(other.entries());
        }
        if self.entries.len() != other.entries.len() {
            return false;
        }
        let mut i: usize = 0;
        while i < self.entries.len()
            invariant
                i <= self.entries@.len(),
                distinct_keys(self.entries()),
                forall|j: int|
                    0 <= j < i ==> other@.contains_key((#[trigger] self.entries()[j]).0)
                        && other@[self.entries()[j].0] == self.entries()[j].1,
            decreases self.entries@.len() - i,
        {
            proof {
                lemma_map_of_value(self.entries(), i as int);
            }
            match other.get(self.entries[i].0.as_str()) {
                Some(value) => {
                    if !same_text(value.as_str(), self.entries[i].1.as_str()) {
                        return false;
                    }
                },
                None => {
                    return false;
                },
            }
            i += 1;
        }
        proof {
            assert forall|k: Seq<char>| #[trigger] self@.contains_key(k) implies other@.contains_key(
                k,
            ) && other@[k] == self@[k] by {
                lemma_map_of_domain(self.entries(), k);
                let at = key_index(self.entries(), k);
                lemma_map_of_value(self.entries(), at);
            }
            assert(self@.dom().subset_of(other@.dom()));
            lemma_subset_equality(self@.dom(), other@.dom());
            assert(self@ =~= other@);
        }
        true
    }
}

impl PartialEqSpecImpl for StringMap {
    open spec fn obeys_eq_spec() -> bool {
        true
    }

    open spec fn eq_spec(&self, other: &StringMap) -> bool {
        self@ == other@
    }
}

impl Clone for StringMap {
    fn clone(&self) -> (copy: StringMap)
        ensures
            copy.entries() == self.entries(),
            copy@ == self@,
    {
        proof {
            use_type_invariant(self);
        }
        let mut entries: Vec<(String, String)> = Vec::new();
        let mut i: usize = 0;
        while i < self.entries.len()
            invariant
                i <= self.entries@.len(),
                entries@.len() == i,
                forall|j: int|
                    0 <= j < i ==> (#[trigger] entries@[j]).0@ == self.entries@[j].0@
                        && entries@[j].1@ == self.entries@[j].1@,
            decreases self.entries@.len() - i,
        {
            entries.push((self.entries[i].0.clone(), self.entries[i].1.clone()));
            i += 1;
        }
        assert(pairs(entries@) =~= self.entries());
        StringMap { entries }
    }
}

} // verus!

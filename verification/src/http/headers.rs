//! Header fields: a map from names to values in which the case of a name
//! does not count.

use crate::http::strmap::distinct_keys;
use crate::http::strmap::put;
use crate::http::strmap::without;
use crate::http::strmap::Entry;
use crate::http::strmap::StringMap;
use vstd::prelude::*;
use vstd::std_specs::cmp::PartialEqSpecImpl;
use vstd::utf8::is_ascii_chars;

verus! {

/// The text that `str::to_lowercase` gives for `text`: its lower-case
/// equivalent by the Unicode rules.
pub uninterp spec fn lowercase(text: Seq<char>) -> Seq<char>;

/// The lower-case form of a character of ASCII: `A` to `Z` become `a` to
/// `z`, every other character stays.
pub open spec fn ascii_lower(c: char) -> char {
    if 'A' <= c <= 'Z' {
        ((c as u8 + 32) as u8) as char
    } else {
        c
    }
}

/// The lower-case form of a text of ASCII, character by character.
pub open spec fn ascii_lowercase(text: Seq<char>) -> Seq<char> {
    Seq::new(text.len(), |i: int| ascii_lower(text[i]))
}

/// Where `name` is ASCII, its lower-case form is the plain one: of the same
/// length, with `A` to `Z` as `a` to `z` and nothing else changed.
pub open spec fn folds_plainly(name: Seq<char>) -> bool {
    is_ascii_chars(name) ==> lowercase(name) == ascii_lowercase(name)
}

/// `str::to_lowercase`: the lower-case equivalent of `text` as a new string.
/// The result is a function of the text alone; `lowercase` is its name. For
/// a text of ASCII the Unicode rules change the letters `A` to `Z` and
/// nothing else.
#[verifier::external_body]
pub(crate) fn to_lowercase(text: &str) -> (folded: String)
    ensures
        folded@ == lowercase(text@),
        is_ascii_chars(text@) ==> folded@ == ascii_lowercase(text@),
{
    text.to_lowercase()
}

/// `key` is the lower-case form of some name.
pub open spec fn is_folded(key: Seq<char>) -> bool {
    exists|name: Seq<char>| #[trigger] lowercase(name) == key
}

/// Every key is the lower-case form of some name.
pub open spec fn folded_keys(entries: Seq<Entry>) -> bool {
    forall|i: int| 0 <= i < entries.len() ==> is_folded((#[trigger] entries[i]).0)
}

/// Header fields. A name is stored in lower case, and looked up and removed
/// by its lower-case form, so that names that differ only in case are one
/// field. Of two values given to one field the later one stays.
#[derive(Debug)]
pub struct Headers {
    fields: StringMap,
}

impl View for Headers {
    type V = Map<Seq<char>, Seq<char>>;

    open spec fn view(&self) -> Map<Seq<char>, Seq<char>> {
        crate::http::strmap::map_of(self.entries())
    }
}

impl Headers {
    /// The fields as stored: lower-case name and value, in the order in which
    /// the names first came.
    pub closed spec fn entries(&self) -> Seq<Entry> {
        self.fields.entries()
    }

    #[verifier::type_invariant]
    spec fn well_formed(&self) -> bool {
        folded_keys(self.fields.entries())
    }

    /// No fields.
    pub fn new() -> (headers: Headers)
        ensures
            headers.entries() == Seq::<Entry>::empty(),
            headers@ == Map::<Seq<char>, Seq<char>>::empty(),
    {
        Headers { fields: StringMap::new() }
    }

    /// The number of fields. The stored names are distinct and in lower case.
    pub fn len(&self) -> (n: usize)
        ensures
            n == self.entries().len(),
            n == self@.dom().len(),
            distinct_keys(self.entries()),
            folded_keys(self.entries()),
    {
        proof {
            use_type_invariant(self);
        }
        self.fields.len()
    }

    /// Whether the field `name` has a value, whatever the case of `name`.
    pub fn contains(&self, name: &str) -> (present: bool)
        ensures
            present == self@.contains_key(lowercase(name@)),
            folds_plainly(name@),
    {
        let key = to_lowercase(name);
        self.fields.contains_key(key.as_str())
    }

    /// The value of the field `name`, whatever the case of `name`.
    pub fn get(&self, name: &str) -> (value: Option<&String>)
        ensures
            match value {
                Some(v) => self@.contains_key(lowercase(name@)) && v@ == self@[lowercase(name@)],
                None => !self@.contains_key(lowercase(name@)),
            },
            folds_plainly(name@),
    {
        let key = to_lowercase(name);
        self.fields.get(key.as_str())
    }

    /// Gives the field `name` the value `value`, in place of the one it had.
    /// The value is kept as it is: nothing is trimmed.
    pub fn insert(&mut self, name: &str, value: String)
        ensures
            final(self).entries() == put(old(self).entries(), lowercase(name@), value@),
            final(self)@ == old(self)@.insert(lowercase(name@), value@),
            distinct_keys(final(self).entries()),
            folded_keys(final(self).entries()),
            folds_plainly(name@),
    {
        proof {
            use_type_invariant(&*self);
        }
        let key = to_lowercase(name);
        let ghost before = self.fields.entries();
        let mut fields = StringMap::new();
        std::mem::swap(&mut self.fields, &mut fields);
        fields.insert(key, value);
        proof {
            let after = fields.entries();
            assert(is_folded(lowercase(name@)));
            assert forall|i: int| 0 <= i < after.len() implies is_folded(
                (#[trigger] after[i]).0,
            ) by {
                if i < before.len() && after[i].0 == before[i].0 {
                    assert(is_folded(before[i].0));
                }
            }
        }
        self.fields = fields;
    }

    /// Takes the field `name` out, whatever the case of `name`; returns its
    /// value.
    pub fn remove(&mut self, name: &str) -> (removed: Option<String>)
        ensures
            final(self).entries() == without(old(self).entries(), lowercase(name@)),
            final(self)@ == old(self)@.remove(lowercase(name@)),
            match removed {
                Some(v) => old(self)@.contains_key(lowercase(name@)) && v@ == old(self)@[lowercase(
                    name@,
                )],
                None => !old(self)@.contains_key(lowercase(name@)),
            },
            distinct_keys(final(self).entries()),
            folded_keys(final(self).entries()),
            folds_plainly(name@),
    {
        proof {
            use_type_invariant(&*self);
        }
        let key = to_lowercase(name);
        let ghost before = self.fields.entries();
        let mut fields = StringMap::new();
        std::mem::swap(&mut self.fields, &mut fields);
        let removed = fields.remove(key.as_str());
        proof {
            let after = fields.entries();
            assert forall|i: int| 0 <= i < after.len() implies is_folded(
                (#[trigger] after[i]).0,
            ) by {
                if after.len() < before.len() {
                    let at = crate::http::strmap::key_index(before, key@);
                    let i0 = if i < at { i } else { i + 1 };
                    assert(after[i] == before[i0]);
                    assert(is_folded(before[i0].0));
                } else {
                    assert(is_folded(before[i].0));
                }
            }
        }
        self.fields = fields;
        removed
    }

    /// The stored name of the field at index `i`.
    pub fn name_at(&self, i: usize) -> (name: &String)
        requires
            i < self.entries().len(),
        ensures
            name@ == self.entries()[i as int].0,
    {
        self.fields.key_at(i)
    }

    /// The value of the field at index `i`.
    pub fn value_at(&self, i: usize) -> (value: &String)
        requires
            i < self.entries().len(),
        ensures
            value@ == self.entries()[i as int].1,
    {
        self.fields.value_at(i)
    }
}

impl Clone for Headers {
    fn clone(&self) -> (copy: Headers)
        ensures
            copy.entries() == self.entries(),
            copy@ == self@,
    {
        proof {
            use_type_invariant(self);
        }
        Headers { fields: self.fields.clone() }
    }
}

impl PartialEq for Headers {
    /// Two sets of fields are equal where they give the same names the same
    /// values; the order of the fields does not count.
    fn eq(&self, other: &Headers) -> (same: bool) {
        self.fields.eq(&other.fields)
    }
}

impl PartialEqSpecImpl for Headers {
    open spec fn obeys_eq_spec() -> bool {
        true
    }

    open spec fn eq_spec(&self, other: &Headers) -> bool {
        self@ == other@
    }
}

/// Names that differ only in case are one field: what was stored under one
/// is found under the other.
pub proof fn law_lookup_ignores_case(
    fields: Map<Seq<char>, Seq<char>>,
    stored: Seq<char>,
    asked: Seq<char>,
    value: Seq<char>,
)
    requires
        lowercase(stored) == lowercase(asked),
    ensures
        fields.insert(lowercase(stored), value).contains_key(lowercase(asked)),
        fields.insert(lowercase(stored), value)[lowercase(asked)] == value,
{
}

/// Two values given under names that differ only in case leave one field,
/// which holds the later value.
pub proof fn law_later_value_stays(
    entries: Seq<Entry>,
    first: Seq<char>,
    second: Seq<char>,
    early: Seq<char>,
    late: Seq<char>,
)
    requires
        distinct_keys(entries),
        lowercase(first) == lowercase(second),
    ensures
        ({
            let once = put(entries, lowercase(first), late);
            let twice = put(put(entries, lowercase(first), early), lowercase(second), late);
            &&& twice == once
            &&& twice.len() == put(entries, lowercase(first), early).len()
            &&& crate::http::strmap::map_of(twice)[lowercase(first)] == late
            &&& distinct_keys(twice)
        }),
{
    let key = lowercase(first);
    let one = put(entries, key, early);
    let twice = put(one, key, late);
    let once = put(entries, key, late);
    crate::http::strmap::lemma_put(entries, key, early);
    crate::http::strmap::lemma_put(one, key, late);
    crate::http::strmap::lemma_put(entries, key, late);
    if crate::http::strmap::has_key(entries, key) {
        let at = crate::http::strmap::key_index(entries, key);
        assert(one[at].0 == key);
        let again = crate::http::strmap::key_index(one, key);
        if again != at {
            if again < at {
                assert(one[again].0 != one[at].0);
            } else {
                assert(one[at].0 != one[again].0);
            }
        }
        assert(twice =~= once);
    } else {
        assert(one[one.len() - 1].0 == key);
        let again = crate::http::strmap::key_index(one, key);
        if again != one.len() - 1 {
            assert(one[again].0 != one[one.len() - 1].0);
        }
        assert(twice =~= once);
    }
}

} // verus!

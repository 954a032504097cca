//! The headers of a message: a mapping from names to values that keeps the
//! order in which the names first came.

use crate::entries::{
    distinct_keys, lemma_position, lemma_position_is, lemma_with_entry_distinct, position,
    value_of, with_entry,
};
use crate::strings::str_eq;
use vstd::prelude::*;
use vstd::seq_lib::seq_to_set_is_finite;
use vstd::set_lib::lemma_subset_equality;
use vstd::std_specs::cmp::PartialEqSpecImpl;

verus! {

/// `entries` after one more line was read: with the entry that the line
/// gave, or as they were where it gave none.
pub open spec fn headers_step(
    entries: Seq<(Seq<char>, Seq<char>)>,
    entry: Option<(Seq<char>, Seq<char>)>,
) -> Seq<(Seq<char>, Seq<char>)> {
    match entry {
        Some(pair) => with_entry(entries, pair.0, pair.1),
        None => entries,
    }
}

/// What is left of a list of pairs when each in turn is set in an empty mapping.
pub open spec fn collected(pairs: Seq<(Seq<char>, Seq<char>)>) -> Seq<(Seq<char>, Seq<char>)>
    decreases pairs.len(),
{
    if pairs.len() == 0 {
        Seq::<(Seq<char>, Seq<char>)>::empty()
    } else {
        with_entry(collected(pairs.drop_last()), pairs.last().0, pairs.last().1)
    }
}

/// Two lists of entries with as many entries each, where every entry of the
/// first has its name and value in the second.
pub open spec fn same_entries(
    a: Seq<(Seq<char>, Seq<char>)>,
    b: Seq<(Seq<char>, Seq<char>)>,
) -> bool {
    a.len() == b.len() && forall|i: int|
        0 <= i < a.len() ==> value_of(b, (#[trigger] a[i]).0) == Some(a[i].1)
}

/// The texts of a list of pairs of strings.
pub open spec fn pair_texts(pairs: Seq<(String, String)>) -> Seq<(Seq<char>, Seq<char>)> {
    Seq::new(pairs.len(), |i: int| (pairs[i].0@, pairs[i].1@))
}

/// The names of a list of entries, in order.
pub open spec fn names(entries: Seq<(Seq<char>, Seq<char>)>) -> Seq<Seq<char>> {
    Seq::new(entries.len(), |i: int| entries[i].0)
}

/// Two lists with distinct names that have the same entries give every name
/// the same value: the order of the entries does not count, and neither
/// does which of the two lists comes first.
pub proof fn lemma_same_entries_same_values(
    a: Seq<(Seq<char>, Seq<char>)>,
    b: Seq<(Seq<char>, Seq<char>)>,
    key: Seq<char>,
)
    requires
        distinct_keys(a),
        distinct_keys(b),
        same_entries(a, b),
    ensures
        value_of(a, key) == value_of(b, key),
        same_entries(b, a),
{
    let in_a = names(a);
    let in_b = names(b);
    seq_to_set_is_finite(in_a);
    seq_to_set_is_finite(in_b);
    in_a.unique_seq_to_set();
    in_b.unique_seq_to_set();
    assert forall|name: Seq<char>| in_a.to_set().contains(name) implies in_b.to_set().contains(
        name,
    ) by {
        let i = choose|i: int| 0 <= i < in_a.len() && in_a[i] == name;
        assert(a[i].0 == name);
        lemma_position(b, name, 0);
        assert(in_b[position(b, name, 0)] == name);
    }
    lemma_subset_equality(in_a.to_set(), in_b.to_set());
    assert forall|name: Seq<char>| value_of(a, name) == value_of(b, name) by {
        lemma_position(a, name, 0);
        lemma_position(b, name, 0);
        let at = position(a, name, 0);
        if at < a.len() {
            assert(a[at].0 == name);
        } else if position(b, name, 0) < b.len() {
            assert(in_b[position(b, name, 0)] == name);
            assert(in_b.to_set().contains(name));
            assert(in_a.to_set().contains(name));
            let i = choose|i: int| 0 <= i < in_a.len() && in_a[i] == name;
            assert(a[i].0 == name);
        }
    }
    assert forall|j: int| 0 <= j < b.len() implies value_of(a, (#[trigger] b[j]).0) == Some(
        b[j].1,
    ) by {
        lemma_position_is(b, b[j].0, 0, j);
    }
}

/// The headers of a request or of a response.
#[derive(Debug)]
pub struct Headers {
    entries: Vec<(String, String)>,
}

impl View for Headers {
    type V = Seq<(Seq<char>, Seq<char>)>;

    /// The entries as pairs of a name and its value, in the order in which the names came.
    closed spec fn view(&self) -> Seq<(Seq<char>, Seq<char>)> {
        pair_texts(self.entries@)
    }
}

impl Headers {
    #[verifier::type_invariant]
    spec fn names_differ(&self) -> bool {
        distinct_keys(self@)
    }

    /// Headers without an entry.
    pub fn new() -> (headers: Headers)
        ensures
            headers@ == Seq::<(Seq<char>, Seq<char>)>::empty(),
    {
        let headers = Headers { entries: Vec::new() };
        assert(headers@ =~= Seq::<(Seq<char>, Seq<char>)>::empty());
        headers
    }

    /// The number of names.
    pub fn len(&self) -> (n: usize)
        ensures
            n == self@.len(),
            distinct_keys(self@),
    {
        proof {
            use_type_invariant(self);
        }
        self.entries.len()
    }

    /// Tells whether there is no entry.
    pub fn is_empty(&self) -> (empty: bool)
        ensures
            empty == (self@.len() == 0),
    {
        self.entries.len() == 0
    }

    /// The name of the entry at `index`.
    pub fn key_at(&self, index: usize) -> (key: &String)
        requires
            index < self@.len(),
        ensures
            key@ == self@[index as int].0,
    {
        &self.entries[index].0
    }

    /// The value of the entry at `index`.
    pub fn value_at(&self, index: usize) -> (value: &String)
        requires
            index < self@.len(),
        ensures
            value@ == self@[index as int].1,
    {
        &self.entries[index].1
    }

    /// Where the entry named `key` stands, or `len()` if there is none.
    fn find(&self, key: &str) -> (at: usize)
        ensures
            at == position(self@, key@, 0),
            at <= self@.len(),
    {
        let mut i: usize = 0;
        while i < self.entries.len()
            invariant
                i <= self@.len(),
                self@.len() == self.entries@.len(),
                forall|j: int| 0 <= j < i ==> (#[trigger] self@[j]).0 != key@,
            decreases self@.len() - i,
        {
            if str_eq(self.entries[i].0.as_str(), key) {
                proof {
                    lemma_position_is(self@, key@, 0, i as int);
                }
                return i;
            }
            i += 1;
        }
        proof {
            lemma_position_is(self@, key@, 0, i as int);
        }
        i
    }

    /// The value of the entry named `key`.
    pub fn get(&self, key: &str) -> (value: Option<&String>)
        ensures
            match value {
                Some(text) => value_of(self@, key@) == Some(text@),
                None => value_of(self@, key@) is None,
            },
    {
        let at = self.find(key);
        if at < self.entries.len() {
            Some(&self.entries[at].1)
        } else {
            None
        }
    }

    /// Tells whether there is an entry named `key`.
    pub fn contains_key(&self, key: &str) -> (found: bool)
        ensures
            found == value_of(self@, key@) is Some,
    {
        let at = self.find(key);
        at < self.entries.len()
    }

    /// Sets `key` to `value`. A name that is new goes to the end; one that is
    /// there already keeps its place and takes the new value.
    pub fn insert(&mut self, key: String, value: String)
        ensures
            final(self)@ == with_entry(old(self)@, key@, value@),
    {
        proof {
            use_type_invariant(&*self);
            lemma_with_entry_distinct(self@, key@, value@);
        }
        let at = self.find(key.as_str());
        let mut entries: Vec<(String, String)> = Vec::new();
        assert(pair_texts(entries@) =~= Seq::<(Seq<char>, Seq<char>)>::empty());
        std::mem::swap(&mut self.entries, &mut entries);
        if at < entries.len() {
            entries.set(at, (key, value));
        } else {
            entries.push((key, value));
        }
        assert(pair_texts(entries@) =~= with_entry(old(self)@, key@, value@));
        std::mem::swap(&mut self.entries, &mut entries);
    }

    /// The headers that hold each pair of `pairs`, set in the order of the list.
    pub fn from_pairs(pairs: Vec<(String, String)>) -> (headers: Headers)
        ensures
            headers@ == collected(pair_texts(pairs@)),
    {
        let mut headers = Headers::new();
        let mut i: usize = 0;
        let ghost all = pair_texts(pairs@);
        while i < pairs.len()
            invariant
                i <= pairs@.len(),
                all == pair_texts(pairs@),
                headers@ == collected(all.take(i as int)),
            decreases pairs@.len() - i,
        {
            let key = pairs[i].0.clone();
            let value = pairs[i].1.clone();
            assert(all.take(i + 1).drop_last() =~= all.take(i as int));
            assert(all.take(i + 1).last() == (key@, value@));
            headers.insert(key, value);
            i += 1;
        }
        assert(all.take(i as int) =~= all);
        headers
    }
}

impl PartialEq for Headers {
    /// Two sets of headers are equal when they give the same names the same
    /// values, in whatever order.
    fn eq(&self, other: &Headers) -> (same: bool) {
        if self.entries.len() != other.entries.len() {
            return false;
        }
        let mut i: usize = 0;
        while i < self.entries.len()
            invariant
                i <= self@.len(),
                self@.len() == self.entries@.len(),
                self@.len() == other@.len(),
                forall|j: int| 0 <= j < i ==> value_of(other@, (#[trigger] self@[j]).0) == Some(self@[j].1),
            decreases self@.len() - i,
        {
            match other.get(self.entries[i].0.as_str()) {
                Some(text) => {
                    if !str_eq(text.as_str(), self.entries[i].1.as_str()) {
                        assert(value_of(other@, self@[i as int].0) != Some(self@[i as int].1));
                        return false;
                    }
                },
                None => {
                    assert(value_of(other@, self@[i as int].0) != Some(self@[i as int].1));
                    return false;
                },
            }
            i += 1;
        }
        true
    }
}

impl PartialEqSpecImpl for Headers {
    open spec fn obeys_eq_spec() -> bool {
        true
    }

    open spec fn eq_spec(&self, other: &Headers) -> bool {
        same_entries(self@, other@)
    }
}

} // verus!

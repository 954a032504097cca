//! Lists of named entries, read as mappings: the first entry with a name
//! gives that name its value.

use vstd::prelude::*;

verus! {

/// The first index at or after `from` whose entry has the name `key`;
/// `entries.len()` if there is none.
pub open spec fn position<V>(entries: Seq<(Seq<char>, V)>, key: Seq<char>, from: int) -> int
    decreases entries.len() - from,
{
    if from < 0 || from >= entries.len() {
        entries.len() as int
    } else if entries[from].0 == key {
        from
    } else {
        position(entries, key, from + 1)
    }
}

/// The value that `entries` gives to `key`: that of the first entry with this name.
pub open spec fn value_of<V>(entries: Seq<(Seq<char>, V)>, key: Seq<char>) -> Option<V> {
    let at = position(entries, key, 0);
    if at < entries.len() {
        Some(entries[at].1)
    } else {
        None
    }
}

/// `entries` with `key` set to `value`: in the place where `key` stood, or at
/// the end where it is new.
pub open spec fn with_entry<V>(
    entries: Seq<(Seq<char>, V)>,
    key: Seq<char>,
    value: V,
) -> Seq<(Seq<char>, V)> {
    let at = position(entries, key, 0);
    if at < entries.len() {
        entries.update(at, (key, value))
    } else {
        entries.push((key, value))
    }
}

/// No name occurs twice.
pub open spec fn distinct_keys<V>(entries: Seq<(Seq<char>, V)>) -> bool {
    forall|i: int, j: int|
        0 <= i < j < entries.len() ==> (#[trigger] entries[i]).0 != (#[trigger] entries[j]).0
}

/// `position` stays within `from ..= entries.len()`, stops on `key`, and
/// passes over no entry with that name.
pub proof fn lemma_position<V>(entries: Seq<(Seq<char>, V)>, key: Seq<char>, from: int)
    requires
        0 <= from <= entries.len(),
    ensures
        from <= position(entries, key, from) <= entries.len(),
        position(entries, key, from) < entries.len() ==> entries[position(entries, key, from)].0
            == key,
        forall|i: int| from <= i < position(entries, key, from) ==> (#[trigger] entries[i]).0 != key,
    decreases entries.len() - from,
{
    if from < entries.len() && entries[from].0 != key {
        lemma_position(entries, key, from + 1);
    }
}

/// The first entry named `key` at or after `from` is at `at`, when no entry
/// between the two has that name.
pub proof fn lemma_position_is<V>(
    entries: Seq<(Seq<char>, V)>,
    key: Seq<char>,
    from: int,
    at: int,
)
    requires
        0 <= from <= at <= entries.len(),
        forall|i: int| from <= i < at ==> (#[trigger] entries[i]).0 != key,
        at < entries.len() ==> entries[at].0 == key,
    ensures
        position(entries, key, from) == at,
    decreases at - from,
{
    if from < at {
        lemma_position_is(entries, key, from + 1, at);
    }
}

/// Setting a name keeps the names distinct, and adds an entry only for a new name.
pub proof fn lemma_with_entry_distinct<V>(
    entries: Seq<(Seq<char>, V)>,
    key: Seq<char>,
    value: V,
)
    requires
        distinct_keys(entries),
    ensures
        distinct_keys(with_entry(entries, key, value)),
        value_of(entries, key) is Some ==> with_entry(entries, key, value).len() == entries.len(),
        value_of(entries, key) is None ==> with_entry(entries, key, value).len() == entries.len()
            + 1,
{
    lemma_position(entries, key, 0);
    let at = position(entries, key, 0);
    let after = with_entry(entries, key, value);
    assert forall|i: int, j: int| 0 <= i < j < after.len() implies (#[trigger] after[i]).0 != (
    #[trigger] after[j]).0 by {
        if at < entries.len() {
            assert(after[i].0 == entries[i].0);
            assert(after[j].0 == entries[j].0);
        } else if j == entries.len() {
            assert(after[i] == entries[i]);
        } else {
            assert(after[i] == entries[i]);
            assert(after[j] == entries[j]);
        }
    }
}

/// A name that was set has the value it was set to; every other name keeps its value.
pub proof fn lemma_with_entry_value<V>(
    entries: Seq<(Seq<char>, V)>,
    key: Seq<char>,
    value: V,
    other: Seq<char>,
)
    ensures
        value_of(with_entry(entries, key, value), key) == Some(value),
        other != key ==> value_of(with_entry(entries, key, value), other) == value_of(
            entries,
            other,
        ),
{
    lemma_position(entries, key, 0);
    lemma_position(entries, other, 0);
    let at = position(entries, key, 0);
    let after = with_entry(entries, key, value);
    assert forall|i: int| 0 <= i < at implies (#[trigger] after[i]).0 != key by {
        assert(after[i] == entries[i]);
    }
    lemma_position_is(after, key, 0, at);
    if other != key {
        let there = position(entries, other, 0);
        assert forall|i: int| 0 <= i < there implies (#[trigger] after[i]).0 != other by {
            if i != at {
                assert(after[i] == entries[i]);
            }
        }
        if there < entries.len() {
            assert(after[there] == entries[there]);
            lemma_position_is(after, other, 0, there);
        } else {
            assert forall|i: int| 0 <= i < after.len() implies (#[trigger] after[i]).0 != other by {
                if i != at {
                    assert(after[i] == entries[i]);
                }
            }
            lemma_position_is(after, other, 0, after.len() as int);
        }
    }
}

} // verus!

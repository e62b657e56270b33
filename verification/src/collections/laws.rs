//! Laws of economic maps and sets: what a read gives back after a write, and
//! what a removal leaves.
use vstd::prelude::*;
use crate::collections::btree_economic_map::sorted_keys_of;
use crate::collections::economic_map::{lookup, EconomicMap};
use crate::collections::economic_set::EconomicSet;
use crate::collections::map_cursor::UnmodifiableMapCursor;

verus! {

/// After `put(key, value)`, a lookup of `key` gives `value`, and lookups of
/// other keys give what they gave before.
pub proof fn law_put_then_get<K, V, M: EconomicMap<K, V>>(before: M, after: M, key: K, value: Option<V>)
    requires
        after.contents() == before.contents().insert(key, value),
    ensures
        lookup(after.contents(), key) == value,
        after.contents().contains_key(key),
        forall|other: K| other != key ==> lookup(after.contents(), other) == lookup(before.contents(), other),
{
}

/// After `remove_key(key)`, the key is absent, lookups of other keys are
/// unchanged, and the size shrinks by one where the key was present.
pub proof fn law_remove_then_absent<K, V, M: EconomicMap<K, V>>(before: M, after: M, key: K)
    requires
        before.contents().dom().finite(),
        after.contents() == before.contents().remove(key),
    ensures
        !after.contents().contains_key(key),
        lookup(after.contents(), key) is None,
        forall|other: K| other != key ==> lookup(after.contents(), other) == lookup(before.contents(), other),
        before.contents().contains_key(key) ==> after.contents().len() + 1 == before.contents().len(),
        !before.contents().contains_key(key) ==> after.contents().len() == before.contents().len(),
{
    if before.contents().contains_key(key) {
        assert(before.contents().dom().remove(key).len() + 1 == before.contents().dom().len());
    } else {
        assert(before.contents().remove(key) =~= before.contents());
    }
}

/// Putting a key that was absent and then removing it gives back the map
/// as it was.
pub proof fn law_put_remove_roundtrip<K, V, M: EconomicMap<K, V>>(start: M, middle: M, end: M, key: K, value: Option<V>)
    requires
        !start.contents().contains_key(key),
        middle.contents() == start.contents().insert(key, value),
        end.contents() == middle.contents().remove(key),
    ensures
        end.contents() == start.contents(),
{
    assert(end.contents() =~= start.contents());
}

/// Putting the same key twice keeps only the second value.
pub proof fn law_put_overwrites<K, V, M: EconomicMap<K, V>>(start: M, middle: M, end: M, key: K, first: Option<V>, second: Option<V>)
    requires
        middle.contents() == start.contents().insert(key, first),
        end.contents() == middle.contents().insert(key, second),
    ensures
        end.contents() == start.contents().insert(key, second),
{
    assert(end.contents() =~= start.contents().insert(key, second));
}

/// After `add(element)` the set contains the element; adding it again
/// changes nothing.
pub proof fn law_add_then_contains<E, S: EconomicSet<E>>(before: S, after: S, again: S, element: E)
    requires
        after.elements() == before.elements().insert(element),
        again.elements() == after.elements().insert(element),
    ensures
        after.elements().contains(element),
        again.elements() == after.elements(),
        forall|other: E| other != element ==> (after.elements().contains(other) == before.elements().contains(other)),
{
    assert(again.elements() =~= after.elements());
}

/// Adding an element to a (finite) set grows its size by one exactly where
/// the element was new, as `add` reports.
pub proof fn law_add_size<E, S: EconomicSet<E>>(before: S, after: S, element: E, added: bool)
    requires
        before.elements().finite(),
        after.elements() == before.elements().insert(element),
        added == !before.elements().contains(element),
    ensures
        after.elements().len() == before.elements().len() + if added { 1nat } else { 0nat },
{
    if !added {
        assert(after.elements() =~= before.elements());
    }
}

/// Putting a key into a (finite) map grows its size by one exactly where the
/// key was new.
pub proof fn law_put_size<K, V, M: EconomicMap<K, V>>(before: M, after: M, key: K, value: Option<V>)
    requires
        before.contents().dom().finite(),
        after.contents() == before.contents().insert(key, value),
    ensures
        after.contents().len() == before.contents().len() + if before.contents().contains_key(key) { 0nat } else { 1nat },
{
    if before.contents().contains_key(key) {
        assert(after.contents().dom() =~= before.contents().dom());
    } else {
        assert(after.contents().dom() =~= before.contents().dom().insert(key));
    }
}

/// After `remove(element)` the set no longer contains it; other elements stay.
pub proof fn law_remove_then_not_contains<E, S: EconomicSet<E>>(before: S, after: S, element: E)
    requires
        after.elements() == before.elements().remove(element),
    ensures
        !after.elements().contains(element),
        forall|other: E| other != element ==> (after.elements().contains(other) == before.elements().contains(other)),
{
}

/// Walking a cursor from its start visits every entry once, in order: after
/// `i` advances it stands at entry `i - 1` (and stays past the last entry),
/// the advance that reaches an entry answers `true`, and the entries never
/// change.
pub proof fn law_cursor_walk<K, V, C: UnmodifiableMapCursor<K, V>>(states: Seq<C>, answers: Seq<bool>, i: int)
    requires
        states.len() == answers.len() + 1,
        states.len() > 0,
        states[0].position() == -1,
        forall|k: int| 0 < k < states.len() ==> {
            &&& (#[trigger] states[k]).entries() == states[k - 1].entries()
            &&& states[k].position() == if states[k - 1].position() < states[k - 1].entries().len() {
                states[k - 1].position() + 1
            } else {
                states[k - 1].position()
            }
            &&& answers[k - 1] == (states[k].position() < states[k].entries().len())
        },
        0 <= i < states.len(),
    ensures
        states[i].entries() == states[0].entries(),
        states[i].position() == if i - 1 <= states[0].entries().len() { i - 1 } else { states[0].entries().len() as int },
        0 < i ==> answers[i - 1] == (i - 1 < states[0].entries().len()),
    decreases i,
{
    if i > 0 {
        law_cursor_walk(states, answers, i - 1);
        assert(states[i].entries() == states[i - 1].entries());
    }
}

/// Walking a cursor whose entries are the keys of a map in increasing order,
/// each with its value, answers `true` exactly as many times as the map has
/// keys; after the `i`-th advance that answers `true` it stands at the `i`-th
/// smallest key and its value.
pub proof fn law_sorted_walk<K, V, C: UnmodifiableMapCursor<K, V>>(
    m: Map<K, Option<V>>,
    states: Seq<C>,
    answers: Seq<bool>,
    i: int,
)
    requires
        states.len() == answers.len() + 1,
        states[0].position() == -1,
        sorted_keys_of(states[0].entries().map_values(|e: (K, Option<V>)| e.0), m),
        forall|j: int| 0 <= j < states[0].entries().len() ==> #[trigger] states[0].entries()[j].1 == m[states[0].entries()[j].0],
        forall|k: int| 0 < k < states.len() ==> {
            &&& (#[trigger] states[k]).entries() == states[k - 1].entries()
            &&& states[k].position() == if states[k - 1].position() < states[k - 1].entries().len() {
                states[k - 1].position() + 1
            } else {
                states[k - 1].position()
            }
            &&& answers[k - 1] == (states[k].position() < states[k].entries().len())
        },
        0 < i < states.len(),
    ensures
        m.dom().finite(),
        states[0].entries().len() == m.dom().len(),
        answers[i - 1] == (i - 1 < m.dom().len()),
        i - 1 < m.dom().len() ==> {
            &&& states[i].position() == i - 1
            &&& states[i].entries()[i - 1] == states[0].entries()[i - 1]
            &&& m.dom().contains(states[i].entries()[i - 1].0)
            &&& states[i].entries()[i - 1].1 == m[states[i].entries()[i - 1].0]
        },
{
    let ks = states[0].entries().map_values(|e: (K, Option<V>)| e.0);
    ks.unique_seq_to_set();
    law_cursor_walk(states, answers, i);
    if i - 1 < m.dom().len() {
        assert(ks[i - 1] == states[0].entries()[i - 1].0);
        assert(ks.to_set().contains(ks[i - 1]));
    }
}

} // verus!

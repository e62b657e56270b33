//! Cursors over the entries of an economic map.
use vstd::prelude::*;
use crate::collections::economic_map::opt_ref;

verus! {

/// Cursor that walks the entries of a map without changing them. An entry's
/// value is optional: an absent value stands for an entry mapped to null.
pub trait UnmodifiableMapCursor<K, V> {
    /// The entries the cursor walks, in walking order.
    spec fn entries(&self) -> Seq<(K, Option<V>)>;

    /// The index of the current entry; -1 before the first advance, and the
    /// number of entries once the walk is over.
    spec fn position(&self) -> int;

    /// Moves to the next entry; returns whether there is one.
    fn advance(&mut self) -> (r: bool)
        requires
            -1 <= old(self).position() <= old(self).entries().len(),
        ensures
            final(self).entries() == old(self).entries(),
            final(self).position() == if old(self).position() < old(self).entries().len() {
                old(self).position() + 1
            } else {
                old(self).position()
            },
            r == (final(self).position() < final(self).entries().len()),
    ;

    /// The key of the current entry.
    fn get_key(&self) -> (r: &K)
        requires
            0 <= self.position() < self.entries().len(),
        ensures
            *r == self.entries()[self.position()].0,
    ;

    /// The value of the current entry; nothing for an entry mapped to null.
    fn get_value(&self) -> (r: Option<&V>)
        requires
            0 <= self.position() < self.entries().len(),
        ensures
            r == opt_ref(self.entries()[self.position()].1),
    ;
}

/// Cursor over a map that may change the entries it walks.
pub trait MapCursor<K, V>: UnmodifiableMapCursor<K, V> {
    /// Whether this cursor can change the entries of its map.
    spec fn supports_update(&self) -> bool;

    /// Removes the current entry; the next advance moves to the entry after it.
    fn remove(&mut self)
        requires
            old(self).supports_update(),
            0 <= old(self).position() < old(self).entries().len(),
        ensures
            final(self).entries() == old(self).entries().remove(old(self).position()),
            final(self).position() == old(self).position() - 1,
    ;

    /// Sets the value of the current entry; returns the previous value.
    fn set_value(&mut self, new_value: Option<V>) -> (r: Option<V>)
        requires
            old(self).supports_update(),
            0 <= old(self).position() < old(self).entries().len(),
        ensures
            r == old(self).entries()[old(self).position()].1,
            final(self).entries() == old(self).entries().update(
                old(self).position(),
                (old(self).entries()[old(self).position()].0, new_value),
            ),
            final(self).position() == old(self).position(),
    ;
}

} // verus!

//! The always-empty map, set and cursor.
use vstd::prelude::*;
use core::marker::PhantomData;
use crate::collections::economic_map::{lookup, opt_ref, EconomicMap, UnmodifiableEconomicMap};
use crate::collections::economic_set::{EconomicSet, UnmodifiableEconomicSet};
use crate::collections::equivalence::Equivalence;
use crate::collections::map_cursor::UnmodifiableMapCursor;

verus! {

/// The cursor over no entries.
#[derive(Debug)]
pub struct EmptyCursor<K, V> {
    _phantom: PhantomData<(K, V)>,
    advanced: bool,
}

impl<K, V> EmptyCursor<K, V> {
    /// A cursor before its (absent) first entry.
    pub fn new() -> (r: Self)
        ensures
            r.entries() == Seq::<(K, Option<V>)>::empty(),
            r.position() == -1,
    {
        EmptyCursor { _phantom: PhantomData, advanced: false }
    }
}

impl<K, V> Default for EmptyCursor<K, V> {
    fn default() -> (r: Self)
        ensures
            r.entries() == Seq::<(K, Option<V>)>::empty(),
            r.position() == -1,
    {
        Self::new()
    }
}

impl<K, V> UnmodifiableMapCursor<K, V> for EmptyCursor<K, V> {
    open spec fn entries(&self) -> Seq<(K, Option<V>)> {
        Seq::empty()
    }

    closed spec fn position(&self) -> int {
        if self.advanced { 0 } else { -1 }
    }

    fn advance(&mut self) -> (r: bool) {
        self.advanced = true;
        false
    }

    fn get_key(&self) -> (r: &K) {
        vstd::pervasive::unreached()
    }

    fn get_value(&self) -> (r: Option<&V>) {
        vstd::pervasive::unreached()
    }
}

/// The map that has no entries and refuses every change.
#[derive(Debug)]
pub struct EmptyMap<K, V> {
    _phantom: PhantomData<(K, V)>,
}

impl<K, V> EmptyMap<K, V> {
    /// The always-empty map.
    pub fn new() -> (r: Self)
        ensures
            r.contents() == Map::<K, Option<V>>::empty(),
            !r.modifiable(),
    {
        EmptyMap { _phantom: PhantomData }
    }

    /// The cursor over its (no) entries.
    pub fn get_entries(&self) -> (r: EmptyCursor<K, V>)
        ensures
            r.entries() == Seq::<(K, Option<V>)>::empty(),
            r.position() == -1,
    {
        EmptyCursor::new()
    }
}

impl<K, V> Default for EmptyMap<K, V> {
    fn default() -> (r: Self)
        ensures
            r.contents() == Map::<K, Option<V>>::empty(),
            !r.modifiable(),
    {
        Self::new()
    }
}

impl<K, V> UnmodifiableEconomicMap<K, V> for EmptyMap<K, V> {
    open spec fn contents(&self) -> Map<K, Option<V>> {
        Map::empty()
    }

    open spec fn strategy(&self) -> Equivalence {
        Equivalence::Default
    }

    fn get(&self, key: &K) -> (r: Option<&V>) {
        None
    }

    fn get_or_default<'a>(&'a self, key: &K, default_value: &'a V) -> (r: Option<&'a V>) {
        Some(default_value)
    }

    fn contains_key(&self, key: &K) -> (r: bool) {
        false
    }

    fn size(&self) -> (r: usize) {
        0
    }

    fn is_empty(&self) -> (r: bool) {
        true
    }

    fn get_values(&self) -> (r: Vec<Option<&V>>) {
        let r: Vec<Option<&V>> = Vec::new();
        assert(Seq::<K>::empty().to_set() =~= Set::<K>::empty());
        assert(Seq::<K>::empty().no_duplicates());
        r
    }

    fn get_keys(&self) -> (r: Vec<&K>) {
        let r: Vec<&K> = Vec::new();
        assert(r@.unref() =~= Seq::<K>::empty());
        assert(Seq::<K>::empty().to_set() =~= Set::<K>::empty());
        r
    }

    fn get_equivalence_strategy(&self) -> (r: Equivalence) {
        Equivalence::DEFAULT
    }
}

impl<K, V> EconomicMap<K, V> for EmptyMap<K, V> {
    /// The always-empty map refuses every change.
    open spec fn modifiable(&self) -> bool {
        false
    }

    fn put(&mut self, key: K, value: Option<V>) -> (r: Option<V>) {
        vstd::pervasive::unreached()
    }

    fn clear(&mut self) {
        vstd::pervasive::unreached()
    }

    fn remove_key(&mut self, key: &K) -> (r: Option<V>) {
        vstd::pervasive::unreached()
    }

    fn replace_all<F: Fn(&K, Option<&V>) -> Option<V>>(&mut self, function: &F) {
        vstd::pervasive::unreached()
    }
}

/// The set that has no elements and refuses every change.
#[derive(Debug)]
pub struct EmptySet<E> {
    _phantom: PhantomData<E>,
}

impl<E> EmptySet<E> {
    /// The always-empty set.
    pub fn new() -> (r: Self)
        ensures
            r.elements() == Set::<E>::empty(),
            !r.modifiable(),
    {
        EmptySet { _phantom: PhantomData }
    }
}

impl<E> Default for EmptySet<E> {
    fn default() -> (r: Self)
        ensures
            r.elements() == Set::<E>::empty(),
            !r.modifiable(),
    {
        Self::new()
    }
}

impl<E> UnmodifiableEconomicSet<E> for EmptySet<E> {
    open spec fn elements(&self) -> Set<E> {
        Set::empty()
    }

    open spec fn strategy(&self) -> Equivalence {
        Equivalence::Default
    }

    open spec fn order(&self) -> Seq<E> {
        Seq::empty()
    }

    fn contains(&self, element: &E) -> (r: bool) {
        false
    }

    fn size(&self) -> (r: usize) {
        0
    }

    fn is_empty(&self) -> (r: bool) {
        true
    }

    fn iterator(&self) -> (r: Vec<&E>) {
        let r: Vec<&E> = Vec::new();
        assert(r@.unref() =~= Seq::<E>::empty());
        assert(Seq::<E>::empty().to_set() =~= Set::<E>::empty());
        r
    }

    fn get_equivalence_strategy(&self) -> (r: Equivalence) {
        Equivalence::DEFAULT
    }
}

impl<E> EconomicSet<E> for EmptySet<E> {
    /// The always-empty set refuses every change.
    open spec fn modifiable(&self) -> bool {
        false
    }

    fn add(&mut self, element: E) -> (r: bool) {
        vstd::pervasive::unreached()
    }

    fn remove(&mut self, element: &E) {
        vstd::pervasive::unreached()
    }

    fn clear(&mut self) {
        vstd::pervasive::unreached()
    }
}

} // verus!

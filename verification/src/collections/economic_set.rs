//! The interface of economic sets.
use vstd::prelude::*;
use crate::collections::economic_map::exact_clone;
use crate::collections::equivalence::Equivalence;

verus! {

/// A set whose elements cannot be changed through this interface.
pub trait UnmodifiableEconomicSet<E> {
    /// The elements of the set.
    spec fn elements(&self) -> Set<E>;

    /// The strategy the set compares elements with.
    spec fn strategy(&self) -> Equivalence;

    /// The elements in iteration order.
    spec fn order(&self) -> Seq<E>;

    /// Whether `element` is in the set.
    fn contains(&self, element: &E) -> (r: bool)
        ensures
            r == self.elements().contains(*element),
    ;

    /// The number of elements.
    fn size(&self) -> (r: usize)
        ensures
            r == self.elements().len(),
            self.elements().finite(),
    ;

    /// Whether the set has no elements.
    fn is_empty(&self) -> (r: bool)
        ensures
            r == (self.elements().len() == 0),
    {
        self.size() == 0
    }

    /// The elements in iteration order, each once.
    fn iterator(&self) -> (r: Vec<&E>)
        ensures
            r@.unref().no_duplicates(),
            r@.unref().to_set() == self.elements(),
            r@.len() == self.elements().len(),
            r@.unref() == self.order(),
    ;

    /// Copies the elements, in iteration order, into `target`, whose length
    /// must be the size of the set.
    fn to_array(&self, target: &mut Vec<E>) where E: Clone
        requires
            old(target)@.len() == self.elements().len(),
        ensures
            final(target)@.len() == old(target)@.len(),
            exact_clone::<E>() ==> final(target)@.no_duplicates() && final(target)@.to_set()
                == self.elements(),
            exact_clone::<E>() ==> final(target)@ == self.order(),
            forall|j: int| 0 <= j < final(target)@.len() ==> cloned(self.order()[j], #[trigger] final(target)@[j]),
    {
        let elems = self.iterator();
        let ghost order = elems@.unref();
        let mut index: usize = 0;
        while index < elems.len()
            invariant
                order == elems@.unref(),
                elems@.len() == target@.len(),
                index <= elems@.len(),
                exact_clone::<E>() ==> forall|j: int| 0 <= j < index ==> #[trigger] target@[j] == order[j],
                forall|j: int| 0 <= j < index ==> cloned(order[j], #[trigger] target@[j]),
            decreases elems.len() - index,
        {
            let c = elems[index].clone();
            proof {
                assert(cloned(*elems@[index as int], c));
            }
            target.set(index, c);
            index = index + 1;
        }
        proof {
            if exact_clone::<E>() {
                assert(target@ =~= order);
            }
        }
    }

    /// A hash set holding copies of the elements.
    fn to_hash_set(&self) -> (r: std::collections::HashSet<E>) where E: Clone + std::hash::Hash + Eq
        ensures
            exact_clone::<E>() && vstd::std_specs::hash::obeys_key_model::<E>() ==> r@ == self.elements(),
    {
        let elems = self.iterator();
        let ghost order = elems@.unref();
        let mut set = std::collections::HashSet::with_capacity(self.size());
        let mut i: usize = 0;
        while i < elems.len()
            invariant
                order == elems@.unref(),
                i <= elems@.len(),
                exact_clone::<E>() && vstd::std_specs::hash::obeys_key_model::<E>() ==> set@
                    == order.take(i as int).to_set(),
            decreases elems.len() - i,
        {
            let c = elems[i].clone();
            set.insert(c);
            proof {
                if exact_clone::<E>() && vstd::std_specs::hash::obeys_key_model::<E>() {
                    assert(cloned(*elems@[i as int], c));
                    assert(order.take(i + 1) =~= order.take(i as int).push(c));
                    order.take(i as int).lemma_push_to_set_commute(c);
                }
            }
            i = i + 1;
        }
        proof {
            assert(order.take(elems@.len() as int) =~= order);
        }
        set
    }

    /// Copies of the elements, in iteration order.
    fn to_list(&self) -> (r: Vec<E>) where E: Clone
        ensures
            r@.len() == self.elements().len(),
            exact_clone::<E>() ==> r@.no_duplicates() && r@.to_set() == self.elements(),
            forall|j: int| 0 <= j < r@.len() ==> cloned(self.order()[j], #[trigger] r@[j]),
    {
        let elems = self.iterator();
        let ghost order = elems@.unref();
        let mut list: Vec<E> = Vec::with_capacity(self.size());
        let mut i: usize = 0;
        while i < elems.len()
            invariant
                order == elems@.unref(),
                i <= elems@.len(),
                list@.len() == i,
                exact_clone::<E>() ==> list@ == order.take(i as int),
                forall|j: int| 0 <= j < i ==> cloned(order[j], #[trigger] list@[j]),
            decreases elems.len() - i,
        {
            let c = elems[i].clone();
            proof {
                assert(cloned(*elems@[i as int], c));
                if exact_clone::<E>() {
                    assert(cloned(*elems@[i as int], c));
                    assert(order.take(i + 1) =~= order.take(i as int).push(c));
                }
            }
            list.push(c);
            i = i + 1;
        }
        proof {
            assert(order.take(elems@.len() as int) =~= order);
        }
        list
    }

    /// Whether every element of `coll` is in the set.
    fn contains_all(&self, coll: &[E]) -> (r: bool)
        ensures
            r == forall|i: int| 0 <= i < coll@.len() ==> self.elements().contains(#[trigger] coll@[i]),
    {
        let mut i: usize = 0;
        while i < coll.len()
            invariant
                i <= coll@.len(),
                forall|j: int| 0 <= j < i ==> self.elements().contains(#[trigger] coll@[j]),
            decreases coll.len() - i,
        {
            if !self.contains(&coll[i]) {
                return false;
            }
            i = i + 1;
        }
        true
    }

    /// The strategy the set compares elements with.
    fn get_equivalence_strategy(&self) -> (r: Equivalence)
        ensures
            r == self.strategy(),
    ;
}

/// Whether every element of `from` has a clone in `to`.
pub open spec fn clones_in<E: Clone>(from: Set<E>, to: Set<E>) -> bool {
    forall|x: E| #[trigger] from.contains(x) ==> exists|y: E| #[trigger] cloned(x, y) && to.contains(y)
}

/// Whether every element of `to` outside `kept` is a clone of an element of `from`.
pub open spec fn only_clones_added<E: Clone>(kept: Set<E>, from: Set<E>, to: Set<E>) -> bool {
    forall|y: E| #[trigger] to.contains(y) && !kept.contains(y) ==> exists|x: E| #[trigger] cloned(x, y) && from.contains(x)
}

/// A set whose elements can be changed.
pub trait EconomicSet<E>: UnmodifiableEconomicSet<E> {
    /// Whether the set accepts changes (the always-empty set does not).
    spec fn modifiable(&self) -> bool;

    /// Adds `element`; returns whether it was new.
    fn add(&mut self, element: E) -> (r: bool)
        requires
            old(self).modifiable(),
        ensures
            final(self).modifiable(),
            final(self).strategy() == old(self).strategy(),
            final(self).elements() == old(self).elements().insert(element),
            r == !old(self).elements().contains(element),
    ;

    /// Removes `element` if present.
    fn remove(&mut self, element: &E)
        requires
            old(self).modifiable(),
        ensures
            final(self).modifiable(),
            final(self).strategy() == old(self).strategy(),
            final(self).elements() == old(self).elements().remove(*element),
    ;

    /// Removes all elements.
    fn clear(&mut self)
        requires
            old(self).modifiable(),
        ensures
            final(self).modifiable(),
            final(self).strategy() == old(self).strategy(),
            final(self).elements() == Set::<E>::empty(),
    ;

    /// Adds copies of the elements of `other`.
    fn add_all_set<S: UnmodifiableEconomicSet<E>>(&mut self, other: &S) where E: Clone
        requires
            old(self).modifiable(),
        ensures
            final(self).modifiable(),
            final(self).strategy() == old(self).strategy(),
            exact_clone::<E>() ==> final(self).elements() == old(self).elements() + other.elements(),
            old(self).elements().subset_of(final(self).elements()),
            clones_in(other.elements(), final(self).elements()),
            only_clones_added(old(self).elements(), other.elements(), final(self).elements()),
    {
        let elems = other.iterator();
        let ghost order = elems@.unref();
        let mut i: usize = 0;
        while i < elems.len()
            invariant
                self.modifiable(),
                self.strategy() == old(self).strategy(),
                order == elems@.unref(),
                order.to_set() == other.elements(),
                i <= elems@.len(),
                exact_clone::<E>() ==> self.elements() == old(self).elements() + order.take(
                    i as int,
                ).to_set(),
                old(self).elements().subset_of(self.elements()),
                clones_in(order.take(i as int).to_set(), self.elements()),
                only_clones_added(old(self).elements(), other.elements(), self.elements()),
            decreases elems.len() - i,
        {
            let c = elems[i].clone();
            let ghost before = self.elements();
            self.add(c);
            proof {
                let x = order[i as int];
                assert(cloned(x, c));
                assert(other.elements().contains(x)) by {
                    assert(order.to_set().contains(order[i as int]));
                }
                assert(order.take(i + 1).to_set() == order.take(i as int).to_set().insert(x)) by {
                    assert(order.take(i + 1) =~= order.take(i as int).push(x));
                    order.take(i as int).lemma_push_to_set_commute(x);
                }
                assert forall|z: E| #[trigger] order.take(i + 1).to_set().contains(z) implies exists|y: E|
                    #[trigger] cloned(z, y) && self.elements().contains(y) by {
                    if z == x {
                        assert(cloned(z, c) && self.elements().contains(c));
                    } else {
                        assert(order.take(i as int).to_set().contains(z));
                        let y = choose|y: E| #[trigger] cloned(z, y) && before.contains(y);
                        assert(cloned(z, y) && self.elements().contains(y));
                    }
                }
                assert forall|y: E| #[trigger] self.elements().contains(y) && !old(self).elements().contains(y)
                    implies exists|w: E| #[trigger] cloned(w, y) && other.elements().contains(w) by {
                    if y == c {
                        assert(cloned(x, y) && other.elements().contains(x));
                    } else {
                        assert(before.contains(y));
                    }
                }
                if exact_clone::<E>() {
                    assert(cloned(*elems@[i as int], c));
                    assert(order.take(i + 1) =~= order.take(i as int).push(c));
                    order.take(i as int).lemma_push_to_set_commute(c);
                    assert(self.elements() =~= old(self).elements() + order.take(i + 1).to_set());
                }
            }
            i = i + 1;
        }
        proof {
            assert(order.take(elems@.len() as int) =~= order);
        }
    }

    /// Adds copies of the elements of `values`.
    fn add_all_slice(&mut self, values: &[E]) where E: Clone
        requires
            old(self).modifiable(),
        ensures
            final(self).modifiable(),
            final(self).strategy() == old(self).strategy(),
            exact_clone::<E>() ==> final(self).elements() == old(self).elements() + values@.to_set(),
            old(self).elements().subset_of(final(self).elements()),
            clones_in(values@.to_set(), final(self).elements()),
            only_clones_added(old(self).elements(), values@.to_set(), final(self).elements()),
    {
        let mut i: usize = 0;
        while i < values.len()
            invariant
                self.modifiable(),
                self.strategy() == old(self).strategy(),
                i <= values@.len(),
                exact_clone::<E>() ==> self.elements() == old(self).elements() + values@.take(
                    i as int,
                ).to_set(),
                old(self).elements().subset_of(self.elements()),
                clones_in(values@.take(i as int).to_set(), self.elements()),
                only_clones_added(old(self).elements(), values@.to_set(), self.elements()),
            decreases values.len() - i,
        {
            let c = values[i].clone();
            let ghost before = self.elements();
            self.add(c);
            proof {
                let x = values@[i as int];
                assert(cloned(x, c));
                assert(values@.to_set().contains(x));
                assert(values@.take(i + 1).to_set() == values@.take(i as int).to_set().insert(x)) by {
                    assert(values@.take(i + 1) =~= values@.take(i as int).push(x));
                    values@.take(i as int).lemma_push_to_set_commute(x);
                }
                assert forall|z: E| #[trigger] values@.take(i + 1).to_set().contains(z) implies exists|y: E|
                    #[trigger] cloned(z, y) && self.elements().contains(y) by {
                    if z == x {
                        assert(cloned(z, c) && self.elements().contains(c));
                    } else {
                        assert(values@.take(i as int).to_set().contains(z));
                        let y = choose|y: E| #[trigger] cloned(z, y) && before.contains(y);
                        assert(cloned(z, y) && self.elements().contains(y));
                    }
                }
                assert forall|y: E| #[trigger] self.elements().contains(y) && !old(self).elements().contains(y)
                    implies exists|w: E| #[trigger] cloned(w, y) && values@.to_set().contains(w) by {
                    if y == c {
                        assert(cloned(x, y) && values@.to_set().contains(x));
                    } else {
                        assert(before.contains(y));
                    }
                }
                if exact_clone::<E>() {
                    assert(cloned(values@[i as int], c));
                    assert(values@.take(i + 1) =~= values@.take(i as int).push(c));
                    values@.take(i as int).lemma_push_to_set_commute(c);
                    assert(self.elements() =~= old(self).elements() + values@.take(i + 1).to_set());
                }
            }
            i = i + 1;
        }
        proof {
            assert(values@.take(values@.len() as int) =~= values@);
        }
    }

    /// Removes the elements of `other`.
    fn remove_all_set<S: UnmodifiableEconomicSet<E>>(&mut self, other: &S)
        requires
            old(self).modifiable(),
        ensures
            final(self).modifiable(),
            final(self).strategy() == old(self).strategy(),
            final(self).elements() == old(self).elements() - other.elements(),
    {
        let elems = other.iterator();
        let ghost order = elems@.unref();
        let mut i: usize = 0;
        while i < elems.len()
            invariant
                self.modifiable(),
                self.strategy() == old(self).strategy(),
                order == elems@.unref(),
                order.to_set() == other.elements(),
                i <= elems@.len(),
                self.elements() == old(self).elements() - order.take(i as int).to_set(),
            decreases elems.len() - i,
        {
            self.remove(elems[i]);
            proof {
                assert(order.take(i + 1) =~= order.take(i as int).push(order[i as int]));
                order.take(i as int).lemma_push_to_set_commute(order[i as int]);
                assert(self.elements() =~= old(self).elements() - order.take(i + 1).to_set());
            }
            i = i + 1;
        }
        proof {
            assert(order.take(elems@.len() as int) =~= order);
        }
    }

    /// Removes the elements of `values`.
    fn remove_all_slice(&mut self, values: &[E])
        requires
            old(self).modifiable(),
        ensures
            final(self).modifiable(),
            final(self).strategy() == old(self).strategy(),
            final(self).elements() == old(self).elements() - values@.to_set(),
    {
        let mut i: usize = 0;
        while i < values.len()
            invariant
                self.modifiable(),
                self.strategy() == old(self).strategy(),
                i <= values@.len(),
                self.elements() == old(self).elements() - values@.take(i as int).to_set(),
            decreases values.len() - i,
        {
            self.remove(&values[i]);
            proof {
                assert(values@.take(i + 1) =~= values@.take(i as int).push(values@[i as int]));
                values@.take(i as int).lemma_push_to_set_commute(values@[i as int]);
                assert(self.elements() =~= old(self).elements() - values@.take(i + 1).to_set());
            }
            i = i + 1;
        }
        proof {
            assert(values@.take(values@.len() as int) =~= values@);
        }
    }

    /// Removes the elements that are not in `other`.
    fn retain_all<S: UnmodifiableEconomicSet<E>>(&mut self, other: &S) where E: Clone
        requires
            old(self).modifiable(),
        ensures
            final(self).modifiable(),
            final(self).strategy() == old(self).strategy(),
            exact_clone::<E>() ==> final(self).elements() == old(self).elements().intersect(
                other.elements(),
            ),
            final(self).elements().subset_of(old(self).elements()),
    {
        let to_remove = self.collect_unless(other);
        let ghost gone = to_remove@;
        proof {
            if exact_clone::<E>() {
                assert(old(self).elements() - gone.to_set() =~= old(self).elements().intersect(
                    other.elements()));
            }
        }
        self.remove_all_slice(to_remove.as_slice());
    }

    /// Copies of the elements that `other` does not contain.
    fn collect_unless<S: UnmodifiableEconomicSet<E>>(&self, other: &S) -> (r: Vec<E>) where E: Clone
        ensures
            exact_clone::<E>() ==> r@.to_set() == self.elements().difference(other.elements()),
    {
        let elems = self.iterator();
        let ghost order = elems@.unref();
        let mut r: Vec<E> = Vec::new();
        let mut i: usize = 0;
        while i < elems.len()
            invariant
                order == elems@.unref(),
                order.to_set() == self.elements(),
                i <= elems@.len(),
                exact_clone::<E>() ==> r@.to_set() == order.take(i as int).to_set().difference(
                    other.elements(),
                ),
            decreases elems.len() - i,
        {
            let e: &E = elems[i];
            if !other.contains(e) {
                let c = e.clone();
                proof {
                    if exact_clone::<E>() {
                        assert(cloned(*e, c));
                        r@.lemma_push_to_set_commute(c);
                    }
                }
                r.push(c);
            }
            proof {
                if exact_clone::<E>() {
                    assert(order.take(i + 1) =~= order.take(i as int).push(*e));
                    order.take(i as int).lemma_push_to_set_commute(*e);
                    assert(r@.to_set() =~= order.take(i + 1).to_set().difference(other.elements()));
                }
            }
            i = i + 1;
        }
        proof {
            assert(order.take(elems@.len() as int) =~= order);
        }
        r
    }

    /// Removes the elements for which `filter` holds; returns whether any
    /// element was removed.
    fn remove_if<F: Fn(&E) -> bool>(&mut self, filter: &F) -> (r: bool) where E: Clone
        requires
            old(self).modifiable(),
            forall|e: E| #[trigger] old(self).elements().contains(e) ==> call_requires(*filter, (&e,)),
        ensures
            final(self).modifiable(),
            final(self).strategy() == old(self).strategy(),
            forall|e: E| #[trigger] final(self).elements().contains(e) ==> old(self).elements().contains(e),
            exact_clone::<E>() ==> forall|e: E| #[trigger] old(self).elements().contains(e)
                && !final(self).elements().contains(e) ==> call_ensures(*filter, (&e,), true),
            exact_clone::<E>() ==> forall|e: E| #[trigger] final(self).elements().contains(e)
                ==> call_ensures(*filter, (&e,), false),
            exact_clone::<E>() ==> r == (final(self).elements() != old(self).elements()),
    {
        let elems = self.iterator();
        let ghost order = elems@.unref();
        let mut to_remove: Vec<E> = Vec::new();
        let mut i: usize = 0;
        while i < elems.len()
            invariant
                forall|e: E| #[trigger] self.elements().contains(e) ==> call_requires(*filter, (&e,)),
                order == elems@.unref(),
                order.to_set() == self.elements(),
                i <= elems@.len(),
                exact_clone::<E>() ==> forall|e: E| #[trigger] to_remove@.contains(e) ==> order.take(
                    i as int).contains(e) && call_ensures(*filter, (&e,), true),
                exact_clone::<E>() ==> forall|j: int| 0 <= j < i ==> (#[trigger] to_remove@.contains(order[j]))
                    || call_ensures(*filter, (&order[j],), false),
            decreases elems.len() - i,
        {
            let e: &E = elems[i];
            proof {
                assert(order[i as int] == *e);
                assert(order.to_set().contains(order[i as int]));
            }
            let ghost prev = to_remove@;
            let b = filter(e);
            if b {
                let c = e.clone();
                proof {
                    if exact_clone::<E>() {
                        assert(cloned(*e, c));
                    }
                }
                to_remove.push(c);
            }
            proof {
                if exact_clone::<E>() {
                    assert(order[i as int] == *e);
                    assert(order.take(i + 1) =~= order.take(i as int).push(*e));
                    assert forall|x: E| #[trigger] to_remove@.contains(x) implies order.take(i + 1).contains(x)
                        && call_ensures(*filter, (&x,), true) by {
                        if prev.contains(x) {
                            let j = choose|j: int| 0 <= j < order.take(i as int).len() && order.take(i as int)[j] == x;
                            assert(order.take(i + 1)[j] == x);
                        } else {
                            assert(to_remove@[to_remove@.len() - 1] == x);
                            assert(order.take(i + 1)[i as int] == x);
                        }
                    }
                    assert forall|j: int| 0 <= j < i + 1 implies (#[trigger] to_remove@.contains(order[j]))
                        || call_ensures(*filter, (&order[j],), false) by {
                        if j < i {
                            if prev.contains(order[j]) {
                                let k = choose|k: int| 0 <= k < prev.len() && prev[k] == order[j];
                                assert(to_remove@[k] == order[j]);
                            }
                        } else if b {
                            assert(to_remove@[to_remove@.len() - 1] == order[j]);
                        }
                    }
                }
            }
            i = i + 1;
        }
        let removed = to_remove.len() > 0;
        let ghost before = self.elements();
        self.remove_all_slice(to_remove.as_slice());
        proof {
            if exact_clone::<E>() {
                assert(order.take(elems@.len() as int) =~= order);
                assert forall|e: E| #[trigger] final(self).elements().contains(e) implies call_ensures(
                    *filter, (&e,), false) by {
                    let j = choose|j: int| 0 <= j < order.len() && order[j] == e;
                    assert(!to_remove@.to_set().contains(e));
                }
                if removed {
                    let x = to_remove@[0];
                    assert(to_remove@.contains(x));
                    assert(!self.elements().contains(x));
                } else {
                    assert(to_remove@.to_set() =~= Set::<E>::empty());
                    assert(self.elements() =~= before);
                }
            }
        }
        removed
    }
}

} // verus!

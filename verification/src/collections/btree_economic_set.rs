//! An economic set backed by an ordered tree set.
use vstd::prelude::*;
use std::collections::BTreeSet;
use vstd::std_specs::iter::IteratorSpec;
use crate::collections::economic_map::exact_clone;
use crate::collections::economic_set::{clones_in, only_clones_added, EconomicSet, UnmodifiableEconomicSet};
use crate::collections::empty::EmptySet;
use crate::collections::equivalence::Equivalence;
use crate::collections::order::{lawful_order, lemma_increasing_unique, lemma_unref_increasing};

verus! {

broadcast use vstd::std_specs::btree::group_btree_axioms;

/// An economic set whose elements are held in an ordered tree set;
/// elements are iterated in increasing order.
pub struct BTreeEconomicSet<E> where E: Ord {
    inner: BTreeSet<E>,
    strategy: Equivalence,
}

/// The elements of a tree set, in increasing order, as references into it.
fn tree_set_elements<'a, E: Ord>(s: &'a BTreeSet<E>) -> (r: Vec<&'a E>)
    requires
        lawful_order::<E>(),
    ensures
        r@.unref().no_duplicates(),
        r@.unref().to_set() == s@,
        r@.len() == s@.len(),
        vstd::std_specs::btree::increasing_seq(r@.unref()),
{
    let mut r: Vec<&'a E> = Vec::new();
    let ghost order = vstd::std_specs::btree::spec_btree_keys_iter(s).remaining();
    proof {
        vstd::std_specs::btree::axiom_spec_btree_keys_iter(s);
    }
    for e in it: s.iter()
        invariant
            it.seq() == order,
            r@ == order.take(it.index() as int),
    {
        r.push(e);
    }
    proof {
        assert(r@ =~= order);
        lemma_unref_increasing(order);
    }
    r
}

impl<E: Ord> BTreeEconomicSet<E> {
    /// The element type's ordering is a lawful total order.
    #[verifier::type_invariant]
    spec fn well_formed(self) -> bool {
        lawful_order::<E>()
    }

    /// A new empty set comparing elements by value.
    pub fn create() -> (r: Self)
        requires
            lawful_order::<E>(),
        ensures
            r.elements() == Set::<E>::empty(),
            r.strategy() == Equivalence::Default,
    {
        Self::create_with_strategy(Equivalence::DEFAULT)
    }

    /// A new empty set; the capacity hint is not needed by the tree.
    pub fn create_with_capacity(initial_capacity: usize) -> (r: Self)
        requires
            lawful_order::<E>(),
        ensures
            r.elements() == Set::<E>::empty(),
            r.strategy() == Equivalence::Default,
    {
        Self::create()
    }

    /// A new empty set recording the given comparison strategy.
    pub fn create_with_strategy(strategy: Equivalence) -> (r: Self)
        requires
            lawful_order::<E>(),
        ensures
            r.elements() == Set::<E>::empty(),
            r.strategy() == strategy,
    {
        BTreeEconomicSet { inner: BTreeSet::new(), strategy }
    }

    /// A new empty set with a strategy; the capacity hint is not needed.
    pub fn create_with_strategy_capacity(strategy: Equivalence, initial_capacity: usize) -> (r:
        Self)
        requires
            lawful_order::<E>(),
        ensures
            r.elements() == Set::<E>::empty(),
            r.strategy() == strategy,
    {
        Self::create_with_strategy(strategy)
    }

    /// A new set holding copies of the elements of `c`.
    pub fn create_from<S: UnmodifiableEconomicSet<E>>(c: &S) -> (r: Self) where E: Clone
        requires
            lawful_order::<E>(),
        ensures
            r.strategy() == Equivalence::Default,
            exact_clone::<E>() ==> r.elements() == c.elements(),
            clones_in(c.elements(), r.elements()),
            only_clones_added(Set::<E>::empty(), c.elements(), r.elements()),
    {
        Self::create_with_strategy_from(Equivalence::DEFAULT, c)
    }

    /// A new set with a strategy holding copies of the elements of `c`.
    pub fn create_with_strategy_from<S: UnmodifiableEconomicSet<E>>(strategy: Equivalence, c: &S) -> (r: Self) where
        E: Clone,
        requires
            lawful_order::<E>(),
        ensures
            r.strategy() == strategy,
            exact_clone::<E>() ==> r.elements() == c.elements(),
            clones_in(c.elements(), r.elements()),
            only_clones_added(Set::<E>::empty(), c.elements(), r.elements()),
    {
        let mut set = Self::create_with_strategy(strategy);
        set.add_all_set(c);
        assert(Set::<E>::empty() + c.elements() =~= c.elements());
        set
    }

    /// A new set holding copies of the elements of `values`.
    pub fn create_from_slice(values: &[E]) -> (r: Self) where E: Clone
        requires
            lawful_order::<E>(),
        ensures
            r.strategy() == Equivalence::Default,
            exact_clone::<E>() ==> r.elements() == values@.to_set(),
            clones_in(values@.to_set(), r.elements()),
            only_clones_added(Set::<E>::empty(), values@.to_set(), r.elements()),
    {
        let mut set = Self::create();
        set.add_all_slice(values);
        assert(Set::<E>::empty() + values@.to_set() =~= values@.to_set());
        set
    }

    /// The always-empty, unmodifiable set.
    pub fn empty_set() -> (r: EmptySet<E>)
        ensures
            r.elements() == Set::<E>::empty(),
            !r.modifiable(),
    {
        EmptySet::new()
    }

    /// The set holding only `elem`.
    pub fn of(elem: E) -> (r: Self)
        requires
            lawful_order::<E>(),
        ensures
            r.elements() == Set::<E>::empty().insert(elem),
            r.strategy() == Equivalence::Default,
    {
        let mut set = Self::create_with_capacity(1);
        set.add(elem);
        set
    }
}

impl<E: Ord> UnmodifiableEconomicSet<E> for BTreeEconomicSet<E> {
    closed spec fn elements(&self) -> Set<E> {
        self.inner@
    }

    closed spec fn strategy(&self) -> Equivalence {
        self.strategy
    }

    /// The elements in increasing order.
    closed spec fn order(&self) -> Seq<E> {
        choose|s: Seq<E>| vstd::std_specs::btree::increasing_seq(s) && s.to_set() == self.inner@
    }

    fn contains(&self, element: &E) -> (r: bool) {
        proof {
            use_type_invariant(self);
        }
        self.inner.contains(element)
    }

    fn size(&self) -> (r: usize) {
        proof {
            use_type_invariant(self);
        }
        let r = tree_set_elements(&self.inner);
        proof {
            r@.unref().unique_seq_to_set();
        }
        self.inner.len()
    }

    /// The elements come in increasing order.
    fn iterator(&self) -> (r: Vec<&E>)
        ensures
            vstd::std_specs::btree::increasing_seq(r@.unref()),
    {
        proof {
            use_type_invariant(self);
        }
        let r = tree_set_elements(&self.inner);
        proof {
            let s = r@.unref();
            assert(vstd::std_specs::btree::increasing_seq(s) && s.to_set() == self.inner@);
            let c = self.order();
            lemma_increasing_unique(s, c);
        }
        r
    }

    fn get_equivalence_strategy(&self) -> (r: Equivalence) {
        self.strategy
    }
}

impl<E: Ord> EconomicSet<E> for BTreeEconomicSet<E> {
    open spec fn modifiable(&self) -> bool {
        true
    }

    fn add(&mut self, element: E) -> (r: bool) {
        proof {
            use_type_invariant(&*self);
        }
        let mut s = BTreeSet::new();
        std::mem::swap(&mut s, &mut self.inner);
        let r = s.insert(element);
        self.inner = s;
        r
    }

    fn remove(&mut self, element: &E) {
        proof {
            use_type_invariant(&*self);
        }
        let mut s = BTreeSet::new();
        std::mem::swap(&mut s, &mut self.inner);
        s.remove(element);
        self.inner = s;
    }

    fn clear(&mut self) {
        proof {
            use_type_invariant(&*self);
        }
        self.inner = BTreeSet::new();
    }
}

} // verus!

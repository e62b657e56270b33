//! Strategies for comparing and hashing keys of economic maps and sets.
use vstd::prelude::*;
use vstd::std_specs::cmp::PartialEqSpec;
use core::hash::{Hash, Hasher};
use std::collections::hash_map::DefaultHasher;

verus! {

/// Strategy for comparing two objects: value equality, or identity of the
/// referenced objects (with one of two hash sources).
#[derive(Copy, Clone, Debug, PartialEq, Eq, Structural, Hash)]
pub enum Equivalence {
    /// Value equality through `PartialEq`, hashing through `Hash`.
    Default,
    /// Identity of the referenced objects, hashing through `Hash`.
    Identity,
    /// Identity of the referenced objects, hashing by address.
    IdentityWithSystemHashCode,
}

/// Whether two references designate the same object (std `core::ptr::eq`).
/// The addresses themselves are not modelled; the contract only states that
/// the same object is necessarily the same value.
#[verifier::external_body]
fn same_object<K: ?Sized>(a: &K, b: &K) -> (r: bool)
    ensures
        r ==> a == b,
{
    core::ptr::eq(a, b)
}

/// Feeds a value to a hasher through the value's `Hash` impl
/// (`Hash::hash`). What it writes depends on that impl, which nothing here
/// models, so nothing is stated of the hasher afterwards.
#[verifier::external_body]
fn feed_hash<K: Hash + ?Sized>(o: &K, hasher: &mut DefaultHasher) {
    o.hash(hasher)
}

/// The value's own hash: std's default hasher fed through the value's
/// `Hash` impl, cut to 32 bits.
pub(crate) fn value_hash_i32<K: Hash + ?Sized>(o: &K) -> i32 {
    let mut hasher = DefaultHasher::new();
    feed_hash(o, &mut hasher);
    let h: u64 = hasher.finish();
    h as i32
}

/// The address of the referenced object (std `ptr::from_ref`, which only
/// turns the reference into a pointer, then the pointer's `addr`).
/// Addresses are not modelled, so nothing is stated of the value.
#[verifier::external_body]
fn object_address<K: ?Sized>(o: &K) -> usize {
    core::ptr::from_ref(o).addr()
}

impl Equivalence {
    /// The value-equality strategy.
    pub const DEFAULT: Equivalence = Equivalence::Default;
    /// The identity strategy.
    pub const IDENTITY: Equivalence = Equivalence::Identity;
    /// The identity strategy that hashes by address.
    pub const IDENTITY_WITH_SYSTEM_HASHCODE: Equivalence = Equivalence::IdentityWithSystemHashCode;

    /// Whether `a` and `b` are equivalent under this strategy: value
    /// equality for `Default`, identity of the referenced objects otherwise.
    pub fn equals<K: PartialEq + ?Sized>(&self, a: &K, b: &K) -> (r: bool)
        ensures
            *self == Equivalence::Default && K::obeys_eq_spec() ==> r == a.eq_spec(b),
            *self != Equivalence::Default && r ==> a == b,
    {
        match self {
            Equivalence::Default => a == b,
            Equivalence::Identity => same_object(a, b),
            Equivalence::IdentityWithSystemHashCode => same_object(a, b),
        }
    }

    /// The 32-bit hash code of `o` under this strategy: the value's own hash
    /// for `Default` and `Identity`, its address for `IdentityWithSystemHashCode`.
    pub fn hash_code<K: Hash + ?Sized>(&self, o: &K) -> i32 {
        match self {
            Equivalence::Default => value_hash_i32(o),
            Equivalence::Identity => value_hash_i32(o),
            Equivalence::IdentityWithSystemHashCode => object_address(o) as i32,
        }
    }
}

} // verus!

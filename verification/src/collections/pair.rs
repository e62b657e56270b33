//! A pair of optional values.
use vstd::prelude::*;
use core::hash::{Hash, Hasher};
use crate::collections::equivalence::value_hash_i32;
use crate::text::{push_char, push_text, TextForm};

verus! {

/// A pair of values, each of which may be absent.
#[derive(Debug, PartialEq, Eq)]
pub struct Pair<L, R> {
    left: Option<L>,
    right: Option<R>,
}

/// The textual form of an optional value: the value's own form, or `null`.
pub open spec fn nullable_text<T: TextForm>(v: Option<T>) -> Seq<char> {
    match v {
        Some(x) => x.text_form(),
        None => seq!['n', 'u', 'l', 'l'],
    }
}

impl<L, R> Pair<L, R> {
    /// The left value.
    pub closed spec fn left_value(&self) -> Option<L> {
        self.left
    }

    /// The right value.
    pub closed spec fn right_value(&self) -> Option<R> {
        self.right
    }

    /// The pair with neither value.
    pub fn empty() -> (p: Self)
        ensures
            p.left_value() is None,
            p.right_value() is None,
    {
        Pair { left: None, right: None }
    }

    /// The pair whose left value is `left` and whose right value is absent.
    pub fn create_left(left: Option<L>) -> (p: Self)
        ensures
            p.left_value() == left,
            p.right_value() is None,
    {
        match left {
            None => Pair::empty(),
            Some(value) => Pair { left: Some(value), right: None },
        }
    }

    /// The pair whose right value is `right` and whose left value is absent.
    pub fn create_right(right: Option<R>) -> (p: Self)
        ensures
            p.left_value() is None,
            p.right_value() == right,
    {
        match right {
            None => Pair::empty(),
            Some(value) => Pair { left: None, right: Some(value) },
        }
    }

    /// The pair of `left` and `right`.
    pub fn create(left: Option<L>, right: Option<R>) -> (p: Self)
        ensures
            p.left_value() == left,
            p.right_value() == right,
    {
        if left.is_none() && right.is_none() {
            Pair::empty()
        } else {
            Pair { left, right }
        }
    }

    /// The left value.
    pub fn get_left(&self) -> (r: Option<&L>)
        ensures
            r == match self.left_value() { Some(v) => Some(&v), None => None::<&L> },
    {
        self.left.as_ref()
    }

    /// The right value.
    pub fn get_right(&self) -> (r: Option<&R>)
        ensures
            r == match self.right_value() { Some(v) => Some(&v), None => None::<&R> },
    {
        self.right.as_ref()
    }
}

/// The hash code of a pair from the hash codes of its values (0 for an
/// absent value): `left + 31 * right`, wrapping around in 32 bits.
pub fn combine_hash_codes(left: i32, right: i32) -> (r: i32)
    ensures
        r == left.wrapping_add(31i32.wrapping_mul(right)),
{
    left.wrapping_add(31i32.wrapping_mul(right))
}

/// Feeds a 32-bit integer to a hasher (`Hash::hash` of `i32`). What the
/// hasher does with it is its own affair, so nothing is stated.
#[verifier::external_body]
fn feed_i32<H: Hasher>(value: i32, state: &mut H) {
    value.hash(state)
}

impl<L: Hash, R: Hash> Pair<L, R> {
    /// The pair's hash code: the values' own hash codes, 0 for an absent
    /// value, combined as `left + 31 * right`.
    pub fn hash_code(&self) -> (r: i32)
        ensures
            self.left_value() is None && self.right_value() is None ==> r == 0,
    {
        let left_hash: i32 = match &self.left {
            Some(l) => value_hash_i32(l),
            None => 0,
        };
        let right_hash: i32 = match &self.right {
            Some(v) => value_hash_i32(v),
            None => 0,
        };
        combine_hash_codes(left_hash, right_hash)
    }
}

impl<L: Hash, R: Hash> Hash for Pair<L, R> {
    fn hash<H: Hasher>(&self, state: &mut H) {
        feed_i32(self.hash_code(), state)
    }
}

impl<L: TextForm, R: TextForm> TextForm for Pair<L, R> {
    /// `(left, right)`, where an absent value reads `null`.
    open spec fn text_form(&self) -> Seq<char> {
        seq!['('] + nullable_text(self.left_value()) + seq![',', ' '] + nullable_text(
            self.right_value(),
        ) + seq![')']
    }

    fn to_text(&self) -> (r: String) {
        let mut s = String::new();
        push_char(&mut s, '(');
        match &self.left {
            Some(l) => {
                let t = l.to_text();
                push_text(&mut s, t.as_str());
            },
            None => {
                push_text(&mut s, "null");
                proof { reveal_strlit("null"); }
            },
        }
        push_char(&mut s, ',');
        push_char(&mut s, ' ');
        match &self.right {
            Some(r) => {
                let t = r.to_text();
                push_text(&mut s, t.as_str());
            },
            None => {
                push_text(&mut s, "null");
                proof { reveal_strlit("null"); }
            },
        }
        push_char(&mut s, ')');
        assert(s@ =~= seq!['('] + nullable_text(self.left_value()) + seq![',', ' ']
            + nullable_text(self.right_value()) + seq![')']);
        s
    }
}

} // verus!

//! Assertions that stop the compilation when a condition does not hold, and
//! the messages they carry.
use vstd::prelude::*;
use crate::text::{owned, push_text};

verus! {

/// Checks of conditions that must hold.
pub struct Assertions;

/// The message of an assertion error raised with a context prefix.
pub open spec fn context_message(prefix: Seq<char>, msg: Seq<char>) -> Seq<char> {
    prefix + ": "@ + msg
}

impl Assertions {
    /// Checks that `condition` holds (a failing check stops with `msg`).
    pub fn assert_true(condition: bool, msg: &str)
        requires
            condition,
    {
    }

    /// Checks that `condition` does not hold (a failing check stops with `msg`).
    pub fn assert_false(condition: bool, msg: &str)
        requires
            !condition,
    {
    }

    /// Checks that a value is present (a failing check stops with `msg`).
    pub fn assert_not_null<T>(value: Option<&T>, msg: &str)
        requires
            value is Some,
    {
    }

    /// Checks that a value is absent (a failing check stops with `msg`).
    pub fn assert_null<T>(value: Option<&T>, msg: &str)
        requires
            value is None,
    {
    }

    /// The message of an assertion error.
    pub fn error_message(msg: &str) -> (r: String)
        ensures
            r@ == msg@,
    {
        owned(msg)
    }

    /// The message of an assertion error with a context prefix: `prefix: msg`.
    pub fn error_message_context(prefix: &str, msg: &str) -> (r: String)
        ensures
            r@ == context_message(prefix@, msg@),
    {
        let mut r = owned(prefix);
        push_text(&mut r, ": ");
        push_text(&mut r, msg);
        r
    }
}

/// An error raised by a failing assertion.
#[derive(Debug)]
pub struct AssertionError {
    message: String,
}

impl AssertionError {
    /// The message of the error.
    pub closed spec fn text(&self) -> Seq<char> {
        self.message@
    }

    /// An error with the given message.
    pub fn new(message: String) -> (r: Self)
        ensures
            r.text() == message@,
    {
        AssertionError { message }
    }

    /// The message of the error.
    pub fn message(&self) -> (r: &str)
        ensures
            r@ == self.text(),
    {
        self.message.as_str()
    }
}

} // verus!

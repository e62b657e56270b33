//! The error raised by graph operations.
use vstd::prelude::*;
use crate::text::push_text;

verus! {

/// An error of a graph operation: a message and an optional cause, kept by
/// its message.
#[derive(Debug)]
pub struct GraalGraphError {
    message: String,
    cause: Option<String>,
}

/// The text of a graph error: `message: cause`, or the message alone.
pub open spec fn graph_error_text(message: Seq<char>, cause: Option<Seq<char>>) -> Seq<char> {
    match cause {
        Some(c) => message + ": "@ + c,
        None => message,
    }
}

impl GraalGraphError {
    /// The message.
    pub closed spec fn text(&self) -> Seq<char> {
        self.message@
    }

    /// The cause's message, if any.
    pub closed spec fn cause_text(&self) -> Option<Seq<char>> {
        match self.cause {
            Some(c) => Some(c@),
            None => None,
        }
    }

    /// An error without cause.
    pub fn new(msg: String) -> (r: Self)
        ensures
            r.text() == msg@,
            r.cause_text() is None,
    {
        GraalGraphError { message: msg, cause: None }
    }

    /// An error with a cause.
    pub fn with_cause(cause: String, msg: String) -> (r: Self)
        ensures
            r.text() == msg@,
            r.cause_text() == Some(cause@),
    {
        GraalGraphError { message: msg, cause: Some(cause) }
    }

    /// The cause's message, if any.
    pub fn cause(&self) -> (r: Option<&str>)
        ensures
            match (r, self.cause_text()) {
                (Some(a), Some(b)) => a@ == b,
                (None, None) => true,
                _ => false,
            },
    {
        match &self.cause {
            Some(c) => Some(c.as_str()),
            None => None,
        }
    }

    /// The error's text.
    pub fn to_string(&self) -> (r: String)
        ensures
            r@ == graph_error_text(self.text(), self.cause_text()),
    {
        let mut r = self.message.clone();
        match &self.cause {
            Some(c) => {
                push_text(&mut r, ": ");
                push_text(&mut r, c.as_str());
            },
            None => {},
        }
        r
    }
}

} // verus!

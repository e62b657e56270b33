//! The error raised by the compiler, with an optional cause.
use vstd::prelude::*;
use crate::text::{owned, push_text};

verus! {

/// An error of the compiler: a message, an optional cause (kept by its
/// message), and whether its stack trace is printed.
#[derive(Debug)]
pub struct GraalError {
    message: String,
    cause: Option<String>,
    print_stack_trace: bool,
}

/// The text of an error: its message, then `\nCaused by: ` and the cause, if any.
pub open spec fn error_text(message: Seq<char>, cause: Option<Seq<char>>) -> Seq<char> {
    match cause {
        Some(c) => message + "\nCaused by: "@ + c,
        None => message,
    }
}

impl GraalError {
    /// The error's message.
    pub closed spec fn text(&self) -> Seq<char> {
        self.message@
    }

    /// The message of the error's cause, if it has one.
    pub closed spec fn cause_text(&self) -> Option<Seq<char>> {
        match self.cause {
            Some(c) => Some(c@),
            None => None,
        }
    }

    /// Whether the error's stack trace is printed.
    pub closed spec fn prints_stack_trace(&self) -> bool {
        self.print_stack_trace
    }

    /// An error without cause whose stack trace is printed.
    pub fn new(message: String) -> (r: Self)
        ensures
            r.text() == message@,
            r.cause_text() is None,
            r.prints_stack_trace(),
    {
        GraalError { message, cause: None, print_stack_trace: true }
    }

    /// An error with a cause whose stack trace is printed.
    pub fn with_cause(message: String, cause: String) -> (r: Self)
        ensures
            r.text() == message@,
            r.cause_text() == Some(cause@),
            r.prints_stack_trace(),
    {
        GraalError { message, cause: Some(cause), print_stack_trace: true }
    }

    /// Whether the error's stack trace is printed.
    pub fn should_print_stack_trace(&self) -> (r: bool)
        ensures
            r == self.prints_stack_trace(),
    {
        self.print_stack_trace
    }

    /// Sets whether the error's stack trace is printed.
    pub fn set_print_stack_trace(&mut self, print: bool)
        ensures
            final(self).prints_stack_trace() == print,
            final(self).text() == old(self).text(),
            final(self).cause_text() == old(self).cause_text(),
    {
        self.print_stack_trace = print;
    }

    /// The error's message.
    pub fn message(&self) -> (r: &str)
        ensures
            r@ == self.text(),
    {
        self.message.as_str()
    }

    /// The message of the error's cause, if any.
    pub fn cause(&self) -> (r: Option<&str>)
        ensures
            match (r, self.cause_text()) {
                (Some(a), Some(b)) => a@ == b,
                (None, None) => true,
                _ => false,
            },
    {
        match &self.cause {
            Some(c) => Some(c.as_str()),
            None => None,
        }
    }

    /// The error for a place that should never be reached.
    pub fn should_not_reach_here() -> (r: Self)
        ensures
            r.text() == "should not reach here"@,
            r.cause_text() is None,
            r.prints_stack_trace(),
    {
        GraalError::new(owned("should not reach here"))
    }

    /// The error for a place that should never be reached, with a detail.
    pub fn should_not_reach_here_msg(msg: &str) -> (r: Self)
        ensures
            r.text() == "should not reach here: "@ + msg@,
            r.cause_text() is None,
            r.prints_stack_trace(),
    {
        let mut m = owned("should not reach here: ");
        push_text(&mut m, msg);
        GraalError::new(m)
    }

    /// The error for a place that should never be reached, with its cause.
    pub fn should_not_reach_here_cause(cause: String) -> (r: Self)
        ensures
            r.text() == "should not reach here"@,
            r.cause_text() == Some(cause@),
            r.prints_stack_trace(),
    {
        GraalError::with_cause(owned("should not reach here"), cause)
    }

    /// The error for something not implemented.
    pub fn unimplemented() -> (r: Self)
        ensures
            r.text() == "unimplemented"@,
            r.cause_text() is None,
            r.prints_stack_trace(),
    {
        GraalError::new(owned("unimplemented"))
    }

    /// The error for something not implemented, with a detail.
    pub fn unimplemented_msg(msg: &str) -> (r: Self)
        ensures
            r.text() == "unimplemented: "@ + msg@,
            r.cause_text() is None,
            r.prints_stack_trace(),
    {
        let mut m = owned("unimplemented: ");
        push_text(&mut m, msg);
        GraalError::new(m)
    }

    /// Success where the condition holds, else the error `guarantee failed: <msg>`.
    pub fn guarantee(condition: bool, msg: &str) -> (r: Result<(), GraalError>)
        ensures
            condition <==> r is Ok,
            r matches Err(e) ==> e.text() == "guarantee failed: "@ + msg@ && e.cause_text() is None
                && e.prints_stack_trace(),
    {
        if !condition {
            let mut m = owned("guarantee failed: ");
            push_text(&mut m, msg);
            Err(GraalError::new(m))
        } else {
            Ok(())
        }
    }

    /// The error for a method that subclasses must override.
    pub fn unimplemented_override() -> (r: Self)
        ensures
            r.text() == "unimplemented override"@,
            r.cause_text() is None,
            r.prints_stack_trace(),
    {
        GraalError::new(owned("unimplemented override"))
    }

    /// The error's text: the message, then the cause on a line of its own.
    pub fn to_string(&self) -> (r: String)
        ensures
            r@ == error_text(self.text(), self.cause_text()),
    {
        let mut r = self.message.clone();
        match &self.cause {
            Some(c) => {
                push_text(&mut r, "\nCaused by: ");
                push_text(&mut r, c.as_str());
            },
            None => {},
        }
        r
    }
}

} // verus!

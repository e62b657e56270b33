//! Handlers that dump or verify objects being debugged.
use vstd::prelude::*;

verus! {

/// Dumps an object (handed over by its textual form) under a name;
/// implemented by the users of the debug context.
pub trait DebugDumpHandler {
    /// Dumps the object.
    fn dump(&self, object: &str, name: &str, args: &[&str]);
}

/// Verifies an object (handed over by its textual form); implemented by the
/// users of the debug context.
pub trait DebugVerifyHandler {
    /// The error this handler finds in the object (by its textual form)
    /// under the name and arguments, if any.
    spec fn error_in(&self, object: Seq<char>, name: Seq<char>, args: Seq<Seq<char>>) -> Option<Seq<char>>;

    /// The error found in the object, if any.
    fn verify(&self, object: &str, name: &str, args: &[&str]) -> (r: Option<String>)
        ensures
            match (r, self.error_in(object@, name@, args@.map_values(|a: &str| a@))) {
                (Some(e), Some(f)) => e@ == f,
                (None, None) => true,
                _ => false,
            },
    ;
}

/// The first error that one of the handlers finds in the object, in order.
pub open spec fn first_error(
    handlers: Seq<Box<dyn DebugVerifyHandler>>,
    object: Seq<char>,
    name: Seq<char>,
) -> Option<Seq<char>>
    decreases handlers.len(),
{
    if handlers.len() == 0 {
        None
    } else {
        match handlers[0].error_in(object, name, Seq::empty()) {
            Some(e) => Some(e),
            None => first_error(handlers.skip(1), object, name),
        }
    }
}

} // verus!

//! What a debug context knows of the method being compiled.
use vstd::prelude::*;

verus! {

/// Gives the name of the method a context is about; implemented by the
/// users of the debug context.
pub trait JavaMethodContext {
    /// The name of the method the context is about, if it is about one.
    spec fn method_name(&self) -> Option<Seq<char>>;

    /// The method's name, where the context is about a method.
    fn as_java_method(&self) -> (r: Option<&str>)
        ensures
            match (r, self.method_name()) {
                (Some(a), Some(b)) => a@ == b,
                (None, None) => true,
                _ => false,
            },
    ;
}

} // verus!

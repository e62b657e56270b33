//! Where in the source a node comes from: a method and bytecode index, with
//! the chain of callers it was inlined into.
use vstd::prelude::*;

verus! {

/// A source position, with the position of its caller where it was inlined.
#[derive(Debug)]
pub struct NodeSourcePosition {
    /// The method, if known.
    pub method: Option<String>,
    /// The bytecode index.
    pub bci: i32,
    /// The caller's position.
    pub caller: Option<Box<NodeSourcePosition>>,
    /// Whether the position was substituted.
    pub substituted: bool,
}

/// The number of callers above a position.
pub open spec fn call_depth(p: NodeSourcePosition) -> nat
    decreases p,
{
    match p.caller {
        Some(c) => 1 + call_depth(*c),
        None => 0,
    }
}

/// Whether two positions have the same method, index and substitution, and
/// so do their callers, all the way up.
pub open spec fn same_source(a: NodeSourcePosition, b: NodeSourcePosition) -> bool
    decreases a,
{
    &&& (match (a.method, b.method) {
        (Some(x), Some(y)) => x@ == y@,
        (None, None) => true,
        _ => false,
    })
    &&& a.bci == b.bci
    &&& a.substituted == b.substituted
    &&& match (a.caller, b.caller) {
        (Some(x), Some(y)) => same_source(*x, *y),
        (None, None) => true,
        _ => false,
    }
}

impl Clone for NodeSourcePosition {
    fn clone(&self) -> (r: Self)
        ensures
            r == *self,
        decreases self,
    {
        NodeSourcePosition {
            method: match &self.method {
                Some(m) => Some(m.clone()),
                None => None,
            },
            bci: self.bci,
            caller: match &self.caller {
                Some(c) => Some(Box::new((**c).clone())),
                None => None,
            },
            substituted: self.substituted,
        }
    }
}

impl NodeSourcePosition {
    /// A position in a method at a bytecode index, inlined into the caller if
    /// one is given; not substituted.
    pub fn new(caller: Option<NodeSourcePosition>, method: Option<String>, bci: i32) -> (r: Self)
        ensures
            r.method == method,
            r.bci == bci,
            match caller {
                Some(c) => r.caller == Some(Box::new(c)),
                None => r.caller is None,
            },
            !r.substituted,
    {
        let caller = match caller {
            Some(c) => Some(Box::new(c)),
            None => None,
        };
        NodeSourcePosition { method, bci, caller, substituted: false }
    }

    /// The method, if known.
    pub fn get_method(&self) -> (r: Option<&str>)
        ensures
            match (r, self.method) {
                (Some(a), Some(b)) => a@ == b@,
                (None, None) => true,
                _ => false,
            },
    {
        match &self.method {
            Some(m) => Some(m.as_str()),
            None => None,
        }
    }

    /// The bytecode index.
    pub fn get_bci(&self) -> (r: i32)
        ensures
            r == self.bci,
    {
        self.bci
    }

    /// The caller's position, if any.
    pub fn get_caller(&self) -> (r: Option<&NodeSourcePosition>)
        ensures
            match self.caller {
                Some(c) => r == Some(&*c),
                None => r is None,
            },
    {
        match &self.caller {
            Some(c) => Some(&**c),
            None => None,
        }
    }

    /// Whether the position was substituted.
    pub fn is_substituted(&self) -> (r: bool)
        ensures
            r == self.substituted,
    {
        self.substituted
    }

    /// Sets whether the position was substituted.
    pub fn set_substituted(&mut self, substituted: bool)
        ensures
            final(self).substituted == substituted,
            final(self).method == old(self).method,
            final(self).bci == old(self).bci,
            final(self).caller == old(self).caller,
    {
        self.substituted = substituted;
    }

    /// The number of callers above the position.
    pub fn get_call_depth(&self) -> (r: usize)
        requires
            call_depth(*self) <= usize::MAX,
        ensures
            r == call_depth(*self),
        decreases self,
    {
        match &self.caller {
            Some(c) => 1 + c.get_call_depth(),
            None => 0,
        }
    }

    /// Whether the positions have the same source all the way up the callers.
    pub fn source_equals(&self, other: &NodeSourcePosition) -> (r: bool)
        ensures
            r == same_source(*self, *other),
        decreases self,
    {
        let same_method = match (&self.method, &other.method) {
            (Some(x), Some(y)) => *x == *y,
            (None, None) => true,
            _ => false,
        };
        same_method && self.bci == other.bci && self.substituted == other.substituted && match (&self.caller, &other.caller) {
            (Some(a), Some(b)) => a.source_equals(b),
            (None, None) => true,
            _ => false,
        }
    }
}

} // verus!

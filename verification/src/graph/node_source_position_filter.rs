//! Filters of source positions by method, bytecode index range and depth.
use vstd::prelude::*;
use crate::graph::node_source_position::{call_depth, NodeSourcePosition};
use crate::text::{contains_seq, str_contains};

verus! {

/// Selects source positions: by a text that the method must contain, a range
/// of bytecode indexes, and a largest call depth.
#[derive(Debug)]
pub struct NodeSourcePositionFilter {
    method_pattern: Option<String>,
    min_bci: i32,
    max_bci: i32,
    max_depth: Option<usize>,
}

impl NodeSourcePositionFilter {
    /// The text the method must contain, if any.
    pub closed spec fn pattern(&self) -> Option<Seq<char>> {
        match self.method_pattern {
            Some(p) => Some(p@),
            None => None,
        }
    }

    /// The smallest bytecode index selected.
    pub closed spec fn low(&self) -> i32 {
        self.min_bci
    }

    /// The largest bytecode index selected.
    pub closed spec fn high(&self) -> i32 {
        self.max_bci
    }

    /// The largest call depth selected, if limited.
    pub closed spec fn depth_limit(&self) -> Option<usize> {
        self.max_depth
    }

    /// Whether the filter selects the position.
    pub open spec fn selects(&self, pos: NodeSourcePosition) -> bool {
        &&& match self.pattern() {
            Some(p) => match pos.method {
                Some(m) => contains_seq(m@, p),
                None => false,
            },
            None => true,
        }
        &&& self.low() <= pos.bci <= self.high()
        &&& match self.depth_limit() {
            Some(d) => call_depth(pos) <= d,
            None => true,
        }
    }

    /// A filter that selects every position.
    pub fn new() -> (r: Self)
        ensures
            r.pattern() is None,
            r.low() == i32::MIN,
            r.high() == i32::MAX,
            r.depth_limit() is None,
    {
        NodeSourcePositionFilter { method_pattern: None, min_bci: i32::MIN, max_bci: i32::MAX, max_depth: None }
    }

    /// Sets the text the method must contain (none: any method).
    pub fn set_method_pattern(&mut self, pattern: Option<String>)
        ensures
            final(self).pattern() == match pattern {
                Some(p) => Some(p@),
                None => None,
            },
            final(self).low() == old(self).low(),
            final(self).high() == old(self).high(),
            final(self).depth_limit() == old(self).depth_limit(),
    {
        self.method_pattern = pattern;
    }

    /// Sets the range of bytecode indexes selected.
    pub fn set_bci_range(&mut self, min: i32, max: i32)
        ensures
            final(self).low() == min,
            final(self).high() == max,
            final(self).pattern() == old(self).pattern(),
            final(self).depth_limit() == old(self).depth_limit(),
    {
        self.min_bci = min;
        self.max_bci = max;
    }

    /// Sets the largest call depth selected (none: any depth).
    pub fn set_max_depth(&mut self, depth: Option<usize>)
        ensures
            final(self).depth_limit() == depth,
            final(self).pattern() == old(self).pattern(),
            final(self).low() == old(self).low(),
            final(self).high() == old(self).high(),
    {
        self.max_depth = depth;
    }

    /// Whether the filter selects the position.
    pub fn matches(&self, pos: &NodeSourcePosition) -> (r: bool)
        requires
            call_depth(*pos) <= usize::MAX,
        ensures
            r == self.selects(*pos),
    {
        match &self.method_pattern {
            Some(pattern) => match pos.get_method() {
                Some(method) => {
                    if !str_contains(method, pattern.as_str()) {
                        return false;
                    }
                },
                None => {
                    return false;
                },
            },
            None => {},
        }
        if pos.bci < self.min_bci || pos.bci > self.max_bci {
            return false;
        }
        match self.max_depth {
            Some(max_depth) => {
                if pos.get_call_depth() > max_depth {
                    return false;
                }
            },
            None => {},
        }
        true
    }
}

impl Default for NodeSourcePositionFilter {
    fn default() -> (r: Self)
        ensures
            r.pattern() is None,
            r.low() == i32::MIN,
            r.high() == i32::MAX,
            r.depth_limit() is None,
    {
        NodeSourcePositionFilter::new()
    }
}

impl Clone for NodeSourcePositionFilter {
    fn clone(&self) -> (r: Self)
        ensures
            r.pattern() == self.pattern(),
            r.low() == self.low(),
            r.high() == self.high(),
            r.depth_limit() == self.depth_limit(),
    {
        NodeSourcePositionFilter {
            method_pattern: match &self.method_pattern {
                Some(p) => Some(p.clone()),
                None => None,
            },
            min_bci: self.min_bci,
            max_bci: self.max_bci,
            max_depth: self.max_depth,
        }
    }
}

} // verus!

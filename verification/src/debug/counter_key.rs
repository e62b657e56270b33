//! Keys that name debug counters and timers.
use vstd::prelude::*;

verus! {

/// The key of a debug counter: its name.
#[derive(Debug)]
pub struct CounterKey {
    /// The counter's name.
    pub name: String,
}

impl CounterKey {
    /// The key with the given name.
    pub fn new(name: String) -> (r: Self)
        ensures
            r.name == name,
    {
        CounterKey { name }
    }

    /// The counter's name.
    pub fn get_name(&self) -> (r: &str)
        ensures
            r@ == self.name@,
    {
        self.name.as_str()
    }
}

/// The key of a debug timer: its name.
#[derive(Debug)]
pub struct TimerKey {
    /// The timer's name.
    pub name: String,
}

impl TimerKey {
    /// The key with the given name.
    pub fn new(name: String) -> (r: Self)
        ensures
            r.name == name,
    {
        TimerKey { name }
    }

    /// The timer's name.
    pub fn get_name(&self) -> (r: &str)
        ensures
            r@ == self.name@,
    {
        self.name.as_str()
    }
}

} // verus!

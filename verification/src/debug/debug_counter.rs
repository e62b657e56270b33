//! Named counters that count only while they are enabled.
use vstd::prelude::*;

verus! {

/// A named counter. Its value wraps around on overflow.
#[derive(Debug)]
pub struct DebugCounter {
    /// The current value.
    pub value: i64,
    /// Whether the counter counts.
    pub enabled: bool,
    /// The counter's name.
    pub name: String,
}

impl DebugCounter {
    /// A disabled counter at zero.
    pub fn new(name: String) -> (r: Self)
        ensures
            r.value == 0,
            !r.enabled,
            r.name == name,
    {
        DebugCounter { value: 0, enabled: false, name }
    }

    /// The counter's name.
    pub fn get_name(&self) -> (r: &str)
        ensures
            r@ == self.name@,
    {
        self.name.as_str()
    }

    /// Whether the counter counts.
    pub fn is_enabled(&self) -> (r: bool)
        ensures
            r == self.enabled,
    {
        self.enabled
    }

    /// Turns counting on or off.
    pub fn set_enabled(&mut self, enabled: bool)
        ensures
            *final(self) == (DebugCounter { enabled, ..*old(self) }),
    {
        self.enabled = enabled;
    }

    /// Adds one, where enabled.
    pub fn increment(&mut self)
        ensures
            *final(self) == (DebugCounter {
                value: if old(self).enabled { old(self).value.wrapping_add(1) } else { old(self).value },
                ..*old(self)
            }),
    {
        if self.enabled {
            self.value = self.value.wrapping_add(1);
        }
    }

    /// Adds `delta`, where enabled.
    pub fn add(&mut self, delta: i64)
        ensures
            *final(self) == (DebugCounter {
                value: if old(self).enabled { old(self).value.wrapping_add(delta) } else { old(self).value },
                ..*old(self)
            }),
    {
        if self.enabled {
            self.value = self.value.wrapping_add(delta);
        }
    }

    /// Subtracts one, where enabled.
    pub fn decrement(&mut self)
        ensures
            *final(self) == (DebugCounter {
                value: if old(self).enabled { old(self).value.wrapping_sub(1) } else { old(self).value },
                ..*old(self)
            }),
    {
        if self.enabled {
            self.value = self.value.wrapping_sub(1);
        }
    }

    /// The current value.
    pub fn get_current_value(&self) -> (r: i64)
        ensures
            r == self.value,
    {
        self.value
    }

    /// Sets the value, where enabled.
    pub fn set(&mut self, value: i64)
        ensures
            *final(self) == (DebugCounter { value: if old(self).enabled { value } else { old(self).value }, ..*old(self) }),
    {
        if self.enabled {
            self.value = value;
        }
    }

    /// Sets the value back to zero, enabled or not.
    pub fn reset(&mut self)
        ensures
            *final(self) == (DebugCounter { value: 0, ..*old(self) }),
    {
        self.value = 0;
    }
}

} // verus!

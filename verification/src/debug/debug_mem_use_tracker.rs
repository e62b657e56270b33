//! Named trackers of the memory used between a start and a stop.
use vstd::prelude::*;

verus! {

/// A named memory use tracker: the memory used over completed intervals, and
/// the memory in use at the start of the running interval.
#[derive(Debug)]
pub struct DebugMemUseTracker {
    /// The memory used over completed intervals.
    pub value: i64,
    /// The memory in use when the running interval started.
    pub start: i64,
    /// Whether an interval runs.
    pub tracking: bool,
    /// Whether the tracker tracks.
    pub enabled: bool,
    /// The tracker's name.
    pub name: String,
}

impl DebugMemUseTracker {
    /// A disabled tracker that has tracked nothing.
    pub fn new(name: String) -> (r: Self)
        ensures
            r.value == 0,
            r.start == 0,
            !r.tracking,
            !r.enabled,
            r.name == name,
    {
        DebugMemUseTracker { value: 0, start: 0, tracking: false, enabled: false, name }
    }

    /// The tracker's name.
    pub fn get_name(&self) -> (r: &str)
        ensures
            r@ == self.name@,
    {
        self.name.as_str()
    }

    /// Whether the tracker tracks.
    pub fn is_enabled(&self) -> (r: bool)
        ensures
            r == self.enabled,
    {
        self.enabled
    }

    /// Turns tracking on or off.
    pub fn set_enabled(&mut self, enabled: bool)
        ensures
            *final(self) == (DebugMemUseTracker { enabled, ..*old(self) }),
    {
        self.enabled = enabled;
    }

    /// Starts an interval at the given memory use, where enabled and none runs.
    pub fn start(&mut self, current_mem_used: i64)
        ensures
            *final(self) == if old(self).enabled && !old(self).tracking {
                DebugMemUseTracker { start: current_mem_used, tracking: true, ..*old(self) }
            } else {
                *old(self)
            },
    {
        if self.enabled && !self.tracking {
            self.start = current_mem_used;
            self.tracking = true;
        }
    }

    /// Ends the running interval, if any, at the given memory use, adding the
    /// memory used during it.
    pub fn stop(&mut self, current_mem_used: i64)
        requires
            old(self).tracking ==> {
                &&& i64::MIN <= current_mem_used - old(self).start <= i64::MAX
                &&& i64::MIN <= old(self).value + (current_mem_used - old(self).start) <= i64::MAX
            },
        ensures
            *final(self) == if old(self).tracking {
                DebugMemUseTracker {
                    value: (old(self).value + (current_mem_used - old(self).start)) as i64,
                    tracking: false,
                    ..*old(self)
                }
            } else {
                *old(self)
            },
    {
        if self.tracking {
            let delta = current_mem_used - self.start;
            self.value = self.value + delta;
            self.tracking = false;
        }
    }

    /// The memory used over completed intervals.
    pub fn get_current_value(&self) -> (r: i64)
        ensures
            r == self.value,
    {
        self.value
    }

    /// Forgets everything tracked, including the running interval.
    pub fn reset(&mut self)
        ensures
            *final(self) == (DebugMemUseTracker { value: 0, start: 0, tracking: false, ..*old(self) }),
    {
        self.value = 0;
        self.start = 0;
        self.tracking = false;
    }
}

} // verus!

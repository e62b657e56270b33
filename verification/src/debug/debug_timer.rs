//! Named timers that accumulate the time between starts and stops.
use std::time::{Duration, Instant};
use vstd::prelude::*;

verus! {

/// A moment of the monotonic clock (std `Instant`).
#[verifier::external_type_specification]
#[verifier::external_body]
pub struct ExInstant(Instant);

/// The present moment of the monotonic clock (std `Instant::now`). What it
/// returns depends on the time, so nothing is stated of it.
#[verifier::external_body]
fn clock_now() -> (r: Instant) {
    Instant::now()
}

/// The time passed since `start` (std `Instant::elapsed`); it depends on the
/// time, so nothing is stated of it.
#[verifier::external_body]
fn elapsed_since(start: &Instant) -> (r: Duration) {
    start.elapsed()
}

/// The whole nanoseconds of a duration (std `Duration::as_nanos`). No model
/// of `Duration` is kept, so the result is not stated.
#[verifier::external_body]
fn duration_nanos(d: &Duration) -> (r: u128) {
    d.as_nanos()
}

/// The nanoseconds passed since `start`, cut to 64 bits as the timer keeps
/// them. The reading comes from the clock, so nothing is stated of it.
fn nanos_since(start: &Instant) -> u64 {
    let d = elapsed_since(start);
    let n = duration_nanos(&d);
    n as u64
}

/// A named timer: the time accumulated over completed start/stop intervals,
/// plus the start of the running interval, if one runs. Accumulated time
/// wraps around on overflow.
#[derive(Debug)]
pub struct DebugTimer {
    /// The accumulated time in nanoseconds.
    pub time: u64,
    /// The start of the running interval.
    pub start: Option<Instant>,
    /// Whether the timer measures.
    pub enabled: bool,
    /// The timer's name.
    pub name: String,
}

impl DebugTimer {
    /// A disabled timer with no time accumulated.
    pub fn new(name: String) -> (r: Self)
        ensures
            r.time == 0,
            r.start is None,
            !r.enabled,
            r.name == name,
    {
        DebugTimer { time: 0, start: None, enabled: false, name }
    }

    /// The timer's name.
    pub fn get_name(&self) -> (r: &str)
        ensures
            r@ == self.name@,
    {
        self.name.as_str()
    }

    /// Whether the timer measures.
    pub fn is_enabled(&self) -> (r: bool)
        ensures
            r == self.enabled,
    {
        self.enabled
    }

    /// Turns measuring on or off.
    pub fn set_enabled(&mut self, enabled: bool)
        ensures
            final(self).enabled == enabled,
            final(self).time == old(self).time,
            final(self).start == old(self).start,
            final(self).name == old(self).name,
    {
        self.enabled = enabled;
    }

    /// Starts an interval, where enabled and none runs yet.
    pub fn start(&mut self)
        ensures
            final(self).time == old(self).time,
            final(self).enabled == old(self).enabled,
            final(self).name == old(self).name,
            final(self).start is Some <==> (old(self).start is Some || old(self).enabled),
            old(self).start is Some ==> final(self).start == old(self).start,
    {
        if self.enabled && self.start.is_none() {
            self.start = Some(clock_now());
        }
    }

    /// Ends the running interval, if any, adding its length (read from the
    /// clock) to the time; see `stop_after`.
    pub fn stop(&mut self)
        ensures
            final(self).start is None,
            old(self).start is None ==> final(self).time == old(self).time,
            final(self).enabled == old(self).enabled,
            final(self).name == old(self).name,
    {
        let elapsed: u64 = match &self.start {
            Some(s) => nanos_since(s),
            None => 0,
        };
        self.stop_after(elapsed);
    }

    /// Ends the running interval, if any, whose length is `elapsed`
    /// nanoseconds: a running timer adds it to its time, wrapping around.
    pub fn stop_after(&mut self, elapsed: u64)
        ensures
            final(self).time == if old(self).start is Some {
                old(self).time.wrapping_add(elapsed)
            } else {
                old(self).time
            },
            final(self).start is None,
            final(self).enabled == old(self).enabled,
            final(self).name == old(self).name,
    {
        if self.start.is_some() {
            self.time = self.time.wrapping_add(elapsed);
        }
        self.start = None;
    }

    /// The length of the running interval so far, read from the clock; 0
    /// where none runs.
    pub fn running_nanos(&self) -> (r: u64)
        ensures
            self.start is None ==> r == 0,
    {
        match &self.start {
            Some(s) => nanos_since(s),
            None => 0,
        }
    }

    /// The accumulated time, plus the length of the running interval (read
    /// from the clock), if any; see `current_value_after`.
    pub fn get_current_value(&self) -> (r: u64)
        ensures
            self.start is None ==> r == self.time,
    {
        let elapsed: u64 = match &self.start {
            Some(s) => nanos_since(s),
            None => 0,
        };
        self.current_value_after(elapsed)
    }

    /// The value of the timer when its running interval, if any, has lasted
    /// `elapsed` nanoseconds: the time plus that length, wrapping around.
    pub fn current_value_after(&self, elapsed: u64) -> (r: u64)
        ensures
            r == if self.start is Some { self.time.wrapping_add(elapsed) } else { self.time },
    {
        if self.start.is_some() {
            self.time.wrapping_add(elapsed)
        } else {
            self.time
        }
    }

    /// Forgets all time, including the running interval.
    pub fn reset(&mut self)
        ensures
            final(self).time == 0,
            final(self).start is None,
            final(self).enabled == old(self).enabled,
            final(self).name == old(self).name,
    {
        self.time = 0;
        self.start = None;
    }
}

} // verus!

//! Simulation time: absolute ticks, durations between ticks, micro-steps within a tick,
//! and the status records that the executor hands to runners.
use vstd::prelude::*;
use vstd::std_specs::ops::AddSpecImpl;
use vstd::std_specs::ops::SubSpecImpl;

verus! {

/// A count of simulation ticks.
pub type TimeTick = u64;

/// An absolute point of simulation time, counted in ticks from the start.
#[derive(Clone, Copy, PartialEq, Eq, Structural, Hash, Debug, PartialOrd, Ord)]
pub struct SimTime(pub u64);

/// A span of simulation time, counted in ticks.
#[derive(Clone, Copy, PartialEq, Eq, Structural, Hash, Debug, PartialOrd, Ord)]
pub struct Duration(pub u64);

/// The index of a step within one tick.
#[derive(Clone, Copy, PartialEq, Eq, Structural, Hash, Debug, PartialOrd, Ord)]
pub struct MicroStep(pub u64);

impl SimTime {
    /// The start of every simulation.
    pub fn zero() -> (r: SimTime)
        ensures
            r.0 == 0,
    {
        SimTime(0)
    }

    /// The point `ticks` ticks after the start.
    pub fn from_ticks(ticks: TimeTick) -> (r: SimTime)
        ensures
            r.0 == ticks,
    {
        SimTime(ticks)
    }

    /// The number of ticks since the start.
    pub fn as_time_tick(&self) -> (r: TimeTick)
        ensures
            r == self.0,
    {
        self.0
    }
}

impl core::ops::Add<Duration> for SimTime {
    type Output = SimTime;

    fn add(self, rhs: Duration) -> SimTime {
        SimTime(self.0 + rhs.0)
    }
}

impl AddSpecImpl<Duration> for SimTime {
    open spec fn obeys_add_spec() -> bool {
        true
    }

    open spec fn add_req(self, rhs: Duration) -> bool {
        self.0 + rhs.0 <= u64::MAX
    }

    open spec fn add_spec(self, rhs: Duration) -> SimTime {
        SimTime((self.0 + rhs.0) as u64)
    }
}

impl core::ops::Sub<Duration> for SimTime {
    type Output = SimTime;

    fn sub(self, rhs: Duration) -> SimTime {
        SimTime(self.0 - rhs.0)
    }
}

impl SubSpecImpl<Duration> for SimTime {
    open spec fn obeys_sub_spec() -> bool {
        true
    }

    open spec fn sub_req(self, rhs: Duration) -> bool {
        self.0 >= rhs.0
    }

    open spec fn sub_spec(self, rhs: Duration) -> SimTime {
        SimTime((self.0 - rhs.0) as u64)
    }
}

impl core::ops::Sub<SimTime> for SimTime {
    type Output = Duration;

    fn sub(self, rhs: SimTime) -> Duration {
        Duration(self.0 - rhs.0)
    }
}

impl SubSpecImpl<SimTime> for SimTime {
    open spec fn obeys_sub_spec() -> bool {
        true
    }

    open spec fn sub_req(self, rhs: SimTime) -> bool {
        self.0 >= rhs.0
    }

    open spec fn sub_spec(self, rhs: SimTime) -> Duration {
        Duration((self.0 - rhs.0) as u64)
    }
}

impl Duration {
    /// A span of `ticks` ticks.
    pub fn ticks(ticks: TimeTick) -> (r: Duration)
        ensures
            r.0 == ticks,
    {
        Duration(ticks)
    }

    /// The empty span.
    pub fn zero() -> (r: Duration)
        ensures
            r.0 == 0,
    {
        Duration(0)
    }

    /// A span of one tick.
    pub fn one() -> (r: Duration)
        ensures
            r.0 == 1,
    {
        Duration(1)
    }

    /// The number of ticks in the span.
    pub fn as_time_tick(&self) -> (r: TimeTick)
        ensures
            r == self.0,
    {
        self.0
    }
}

impl core::ops::Add<Duration> for Duration {
    type Output = Duration;

    fn add(self, rhs: Duration) -> Duration {
        Duration(self.0 + rhs.0)
    }
}

impl AddSpecImpl<Duration> for Duration {
    open spec fn obeys_add_spec() -> bool {
        true
    }

    open spec fn add_req(self, rhs: Duration) -> bool {
        self.0 + rhs.0 <= u64::MAX
    }

    open spec fn add_spec(self, rhs: Duration) -> Duration {
        Duration((self.0 + rhs.0) as u64)
    }
}

impl core::ops::Sub<Duration> for Duration {
    type Output = Duration;

    fn sub(self, rhs: Duration) -> Duration {
        Duration(self.0 - rhs.0)
    }
}

impl SubSpecImpl<Duration> for Duration {
    open spec fn obeys_sub_spec() -> bool {
        true
    }

    open spec fn sub_req(self, rhs: Duration) -> bool {
        self.0 >= rhs.0
    }

    open spec fn sub_spec(self, rhs: Duration) -> Duration {
        Duration((self.0 - rhs.0) as u64)
    }
}

impl MicroStep {
    /// The first step of a tick.
    pub fn zero() -> (r: MicroStep)
        ensures
            r.0 == 0,
    {
        MicroStep(0)
    }

    /// The step with index `value`.
    pub fn new(value: u64) -> (r: MicroStep)
        ensures
            r.0 == value,
    {
        MicroStep(value)
    }

    /// The index of the step.
    pub fn value(&self) -> (r: u64)
        ensures
            r == self.0,
    {
        self.0
    }

    /// The step that follows this one.
    pub fn next(&self) -> (r: MicroStep)
        requires
            self.0 < u64::MAX,
        ensures
            r.0 == self.0 + 1,
    {
        MicroStep(self.0 + 1)
    }
}

/// The tick a runner is about to process (or is processing), with the number of
/// idle ticks that were skipped to reach it.
#[derive(Clone, Copy, PartialEq, Eq, Structural, Hash, Debug)]
pub struct TickStatus {
    pub current_tick: SimTime,
    pub skipped: Duration,
}

/// Whether a simulation limited to `tick_count` ticks is over once `current` is the next tick
/// to process: with `include_zero_tick` tick 0 counts as one of the ticks (ticks `0..tick_count`
/// are processed), without it ticks `0..=tick_count` are processed.
pub open spec fn done_ticks(current: u64, include_zero_tick: bool, tick_count: u64) -> bool {
    if include_zero_tick {
        current >= tick_count
    } else {
        current > tick_count
    }
}

impl TickStatus {
    /// A status for `current_tick`, reached after skipping `skipped` idle ticks.
    pub fn new(current_tick: SimTime, skipped: Duration) -> (r: TickStatus)
        ensures
            r.current_tick == current_tick,
            r.skipped == skipped,
    {
        TickStatus { current_tick, skipped }
    }

    /// The status of the first tick of a simulation: tick 0, nothing skipped.
    pub fn initialize() -> (r: TickStatus)
        ensures
            r.current_tick.0 == 0,
            r.skipped.0 == 0,
    {
        TickStatus { current_tick: SimTime(0), skipped: Duration(0) }
    }

    /// The tick.
    pub fn current(&self) -> (r: SimTime)
        ensures
            r == self.current_tick,
    {
        self.current_tick
    }

    /// The idle ticks skipped to reach this tick.
    pub fn skipped(&self) -> (r: Duration)
        ensures
            r == self.skipped,
    {
        self.skipped
    }

    /// The tick minus the skipped span.
    pub fn previous(&self) -> (r: SimTime)
        requires
            self.current_tick.0 >= self.skipped.0,
        ensures
            r.0 == self.current_tick.0 - self.skipped.0,
    {
        self.current_tick - self.skipped
    }

    /// Whether a run limited to `tick_count` ticks stops before this tick (see [`done_ticks`]).
    pub fn is_done_ticks(&self, include_zero_tick: bool, tick_count: TimeTick) -> (r: bool)
        ensures
            r == done_ticks(self.current_tick.0, include_zero_tick, tick_count),
    {
        if include_zero_tick {
            self.current_tick.0 >= tick_count
        } else {
            self.current_tick.0 > tick_count
        }
    }
}

/// The micro-step a tick is at.
#[derive(Clone, Copy, PartialEq, Eq, Structural, Hash, Debug)]
pub struct MicroStepStatus {
    pub current_micro_step: MicroStep,
}

impl MicroStepStatus {
    /// A status at `current_micro_step`.
    pub fn new(current_micro_step: MicroStep) -> (r: MicroStepStatus)
        ensures
            r.current_micro_step == current_micro_step,
    {
        MicroStepStatus { current_micro_step }
    }

    /// The status at the first micro-step.
    pub fn initialize() -> (r: MicroStepStatus)
        ensures
            r.current_micro_step.0 == 0,
    {
        MicroStepStatus { current_micro_step: MicroStep(0) }
    }

    /// The micro-step.
    pub fn current(&self) -> (r: MicroStep)
        ensures
            r == self.current_micro_step,
    {
        self.current_micro_step
    }
}

} // verus!

use vstd::prelude::*;

verus! {

/// How the window runs the simulation: paused or not, how many generations each tick, and
/// how many milliseconds between ticks.
#[derive(Clone, Copy, Debug, PartialEq, Eq, Structural)]
pub struct Settings {
    pub paused: bool,
    pub steps_per_tick: usize,
    pub ms_per_tick: usize,
}

/// A change of one of the two speeds, as the arrow keys ask for it.
#[derive(Clone, Copy, Debug, PartialEq, Eq, Structural)]
pub enum SpeedChange {
    /// Twice as much; from 0, 1.
    Double,
    /// Half as much, rounded down.
    Halve,
    /// 10 less, but never below 1.
    Decrease,
    /// 10 more.
    Increase,
}

/// `value` after `change`.
pub open spec fn changed(value: usize, change: SpeedChange) -> int {
    match change {
        SpeedChange::Double => if value > 0 {
            2 * value
        } else {
            1
        },
        SpeedChange::Halve => (value / 2) as int,
        SpeedChange::Decrease => if value > 10 {
            value - 10
        } else {
            1
        },
        SpeedChange::Increase => value + 10,
    }
}

/// `value` after `change`.
pub fn change_speed(value: usize, change: SpeedChange) -> (r: usize)
    requires
        changed(value, change) <= usize::MAX,
    ensures
        r == changed(value, change),
{
    match change {
        SpeedChange::Double => if value > 0 {
            value * 2
        } else {
            1
        },
        SpeedChange::Halve => value / 2,
        SpeedChange::Decrease => if value > 10 {
            value - 10
        } else {
            1
        },
        SpeedChange::Increase => value + 10,
    }
}

/// Whether `value` after `change` still fits: [`change_speed`] needs exactly this.
pub fn can_change_speed(value: usize, change: SpeedChange) -> (r: bool)
    ensures
        r == (changed(value, change) <= usize::MAX),
{
    match change {
        SpeedChange::Double => value <= usize::MAX / 2,
        SpeedChange::Halve => true,
        SpeedChange::Decrease => true,
        SpeedChange::Increase => value <= usize::MAX - 10,
    }
}

impl Settings {
    /// Whether the window should run the simulation on each tick: not paused, and at least
    /// one generation per tick.
    pub fn is_running(&self) -> (r: bool)
        ensures
            r == (!self.paused && self.steps_per_tick > 0),
    {
        !self.paused && self.steps_per_tick > 0
    }

    /// Pauses a running simulation or resumes a paused one; returns whether it is now paused.
    pub fn toggle_pause(&mut self) -> (paused: bool)
        ensures
            paused == !old(self).paused,
            *final(self) == (Settings { paused, ..*old(self) }),
    {
        self.paused = !self.paused;
        self.paused
    }

    /// Changes the time between ticks (`on_ms`) or the generations per tick.
    pub fn change(&mut self, change: SpeedChange, on_ms: bool)
        requires
            changed(if on_ms { old(self).ms_per_tick } else { old(self).steps_per_tick }, change)
                <= usize::MAX,
        ensures
            on_ms ==> *final(self) == (Settings { ms_per_tick: changed(old(self).ms_per_tick, change) as usize, ..*old(self) }),
            !on_ms ==> *final(self) == (Settings {
                steps_per_tick: changed(old(self).steps_per_tick, change) as usize,
                ..*old(self)
            }),
    {
        if on_ms {
            self.ms_per_tick = change_speed(self.ms_per_tick, change);
        } else {
            self.steps_per_tick = change_speed(self.steps_per_tick, change);
        }
    }
}

impl Default for Settings {
    /// Paused, 10 generations every 10 milliseconds.
    fn default() -> (s: Settings)
        ensures
            s == (Settings { paused: true, steps_per_tick: 10, ms_per_tick: 10 }),
    {
        Settings { paused: true, steps_per_tick: 10, ms_per_tick: 10 }
    }
}

/// The arrow keys as inverse pairs: halving undoes doubling, decreasing undoes increasing
/// (from 1 on), and neither speed ever changes to 0 but by halving 1 or by halving 0.
pub proof fn lemma_speed_changes(value: usize)
    ensures
        0 < value <= usize::MAX / 2 ==> changed(changed(value, SpeedChange::Double) as usize, SpeedChange::Halve) == value,
        0 < value <= usize::MAX - 10 ==> changed(changed(value, SpeedChange::Increase) as usize, SpeedChange::Decrease) == value,
        changed(value, SpeedChange::Double) > value,
        changed(value, SpeedChange::Increase) == value + 10,
        changed(value, SpeedChange::Decrease) >= 1,
        value > 10 ==> changed(value, SpeedChange::Decrease) + 10 == value,
        2 * changed(value, SpeedChange::Halve) <= value < 2 * changed(value, SpeedChange::Halve) + 2,
{
}

} // verus!

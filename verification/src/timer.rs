//! Countdown timer with the CHIP-8 activation quirk: a freshly assigned
//! nonzero value is noticed by the next tick, which activates the timer,
//! decrements a second time on that same cycle, and fires the activation
//! signal exactly once.

use vstd::prelude::*;

verus! {

/// Mathematical state of a [`Timer`].
pub struct TimerView {
    pub value: u8,
    pub active: bool,
}

/// One tick of the timer state machine, and whether the activation
/// transition fired on this tick.
///
/// In this exact order: an active timer with a nonzero value counts down by
/// one; then an inactive timer holding a nonzero value activates, counts
/// down once and fires its activation signal; finally a timer at zero
/// deactivates. An active timer whose value was externally forced to zero
/// simply deactivates, so the count never underflows.
pub open spec fn spec_timer_tick(t: TimerView) -> (TimerView, bool) {
    let v1 = if t.active && t.value > 0 {
        (t.value - 1) as u8
    } else {
        t.value
    };
    let a1 = t.active;
    let fired = v1 > 0 && !a1;
    let v2 = if fired {
        (v1 - 1) as u8
    } else {
        v1
    };
    let a2 = if fired {
        true
    } else {
        a1
    };
    let a3 = if v2 == 0 {
        false
    } else {
        a2
    };
    (TimerView { value: v2, active: a3 }, fired)
}

/// An 8-bit countdown timer. The host observes the activation signal as the
/// boolean returned by [`Timer::tick`]; the sound timer's host plays a beep
/// on it, the delay timer's host ignores it.
pub struct Timer {
    /// Current countdown value; the machine assigns it directly (0xFx15 and
    /// 0xFx18 write a register into it).
    pub value: u8,
    /// Whether the timer is currently counting down.
    pub is_active: bool,
}

impl Timer {
    pub open spec fn view(&self) -> TimerView {
        TimerView { value: self.value, active: self.is_active }
    }

    /// A fresh, idle timer whose activation signal the host observes.
    pub fn new() -> (t: Timer)
        ensures
            t@ == (TimerView { value: 0u8, active: false }),
    {
        Timer { value: 0, is_active: false }
    }

    /// A fresh, idle timer whose activation signal nobody listens to.
    pub fn new_no_callback() -> (t: Timer)
        ensures
            t@ == (TimerView { value: 0u8, active: false }),
    {
        Timer { value: 0, is_active: false }
    }

    /// Whether the timer is currently counting down.
    pub fn is_active(&self) -> (r: bool)
        ensures
            r == self@.active,
    {
        self.is_active
    }

    /// Advance the timer by one cycle; returns true exactly when the
    /// activation transition fired on this tick.
    pub fn tick(&mut self) -> (fired: bool)
        ensures
            final(self)@ == spec_timer_tick(old(self)@).0,
            fired == spec_timer_tick(old(self)@).1,
    {
        if self.is_active && self.value > 0 {
            self.value = self.value - 1;
        }

        let mut fired = false;
        if self.value > 0 && !self.is_active {
            self.is_active = true;
            self.value = self.value - 1;
            fired = true;
        }

        if self.value == 0 {
            self.is_active = false;
        }

        fired
    }
}

} // verus!

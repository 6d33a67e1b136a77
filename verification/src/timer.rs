//! Countdown timers decremented at a fixed real-time rate.
//!
//! A timer owns a byte value, the instant (in milliseconds) of its last
//! decrement, and a fixed decrement period derived from a target frequency.
//! The wall clock is injected: every operation that needs the current time
//! takes it as a `now_ms` argument, so the whole component is deterministic.

use vstd::prelude::*;

verus! {

/// A countdown byte value, decremented once per `ms_per_cycle` milliseconds
/// of elapsed injected time, and floored at zero.
#[derive(Clone, Copy, PartialEq, Eq, Structural, Debug)]
pub struct Timer {
    pub value: u8,
    pub last_decremented_ms: u64,
    pub ms_per_cycle: u64,
}

impl Timer {
    /// The decrement period is always at least one millisecond.
    pub open spec fn wf(self) -> bool {
        self.ms_per_cycle >= 1
    }

    /// The timer value after the whole decrement periods between
    /// `self.last_decremented_ms` and `now_ms` have been applied: the value
    /// drops by one unit per whole period, floored at zero, and the reference
    /// instant advances by exactly the elapsed whole periods, so fractional
    /// progress toward the next decrement is never lost.
    pub open spec fn refreshed(self, now_ms: u64) -> Timer {
        let elapsed = if now_ms >= self.last_decremented_ms {
            now_ms - self.last_decremented_ms
        } else {
            0
        };
        let ticks = elapsed / (self.ms_per_cycle as int);
        Timer {
            value: if ticks >= self.value { 0 } else { (self.value - ticks) as u8 },
            last_decremented_ms: (self.last_decremented_ms + ticks * self.ms_per_cycle) as u64,
            ms_per_cycle: self.ms_per_cycle,
        }
    }

    /// The timer after `set`: the new value, with the reference instant reset
    /// to the given current time.
    pub open spec fn set_to(self, time: u8, now_ms: u64) -> Timer {
        Timer { value: time, last_decremented_ms: now_ms, ms_per_cycle: self.ms_per_cycle }
    }

    /// A fresh timer at frequency `hz`, holding zero, referenced to `now_ms`.
    pub fn new(hz: u8, now_ms: u64) -> (r: Timer)
        requires
            hz >= 1,
        ensures
            r.wf(),
            r.value == 0,
            r.last_decremented_ms == now_ms,
            r.ms_per_cycle == 1000u64 / hz as u64,
    {
        let period: u64 = 1000u64 / hz as u64;
        proof {
            vstd::arithmetic::div_mod::lemma_div_is_ordered_by_denominator(1000, hz as int, 255);
        }
        Timer { value: 0, last_decremented_ms: now_ms, ms_per_cycle: period }
    }

    /// Decrement the value by the number of whole periods elapsed since the
    /// reference instant, floored at zero, and advance the reference by
    /// exactly that many whole periods.
    pub fn check_decrement(&mut self, now_ms: u64)
        requires
            old(self).wf(),
        ensures
            final(self).wf(),
            *final(self) == old(self).refreshed(now_ms),
    {
        if now_ms >= self.last_decremented_ms {
            let elapsed: u64 = now_ms - self.last_decremented_ms;
            let ticks: u64 = elapsed / self.ms_per_cycle;
            proof {
                vstd::arithmetic::div_mod::lemma_fundamental_div_mod(
                    elapsed as int,
                    self.ms_per_cycle as int,
                );
            }
            if ticks >= self.value as u64 {
                self.value = 0;
            } else {
                self.value = self.value - ticks as u8;
            }
            self.last_decremented_ms = self.last_decremented_ms + ticks * self.ms_per_cycle;
        }
    }

    /// Assign the countdown value and reset the reference instant to now.
    pub fn set(&mut self, time: u8, now_ms: u64)
        requires
            old(self).wf(),
        ensures
            final(self).wf(),
            *final(self) == old(self).set_to(time, now_ms),
    {
        self.value = time;
        self.last_decremented_ms = now_ms;
    }

    /// Read the current value; no side effect.
    pub fn get(&self) -> (r: u8)
        ensures
            r == self.value,
    {
        self.value
    }
}

/// A timer set to `v` reads exactly zero once `v` full decrement periods have
/// elapsed, and stays at zero under any further elapsed time: it never goes
/// negative and never wraps.
pub proof fn lemma_timer_expires(t: Timer, v: u8, start_ms: u64, later_ms: u64)
    requires
        t.wf(),
        start_ms + v * t.ms_per_cycle <= u64::MAX,
        later_ms >= start_ms + v * t.ms_per_cycle,
    ensures
        ({
            let expired = t.set_to(v, start_ms).refreshed((start_ms + v * t.ms_per_cycle) as u64);
            expired.value == 0 && expired.refreshed(later_ms).value == 0
        }),
{
    let s = t.set_to(v, start_ms);
    let at = (start_ms + v * t.ms_per_cycle) as u64;
    vstd::arithmetic::div_mod::lemma_div_by_multiple(v as int, t.ms_per_cycle as int);
    let expired = s.refreshed(at);
    assert(expired.value == 0);
    assert(expired.refreshed(later_ms).value == 0) by {
        vstd::arithmetic::div_mod::lemma_div_is_ordered(
            0,
            if later_ms >= expired.last_decremented_ms {
                later_ms - expired.last_decremented_ms
            } else {
                0
            },
            expired.ms_per_cycle as int,
        );
    }
}

} // verus!

//! The setpoint adjustment shared between the encoder interrupt and the tick:
//! a single pending step of -1, 0 or +1. The encoder writes it, last write
//! winning; the tick takes it and clears it, each access under the caller's
//! critical section.
use vstd::prelude::*;

verus! {

/// Raw-code change of one encoder step: five degrees Fahrenheit
/// (`f_to_raw(50) - f_to_raw(45)`).
pub const ENC_TEMP_INCREMENT: u16 = 12;

/// The pending step after an encoder edge: +1 where the data line read low,
/// -1 where it read high. Whatever was pending is overwritten.
pub open spec fn after_event(pending: i8, dt_low: bool) -> i8 {
    if dt_low {
        1i8
    } else {
        -1i8
    }
}

/// The target after a tick takes `pending`: one step up or down, held to the
/// range of a raw code, or unchanged where nothing was pending.
pub open spec fn target_after(target: u16, pending: i8) -> int {
    if pending > 0 {
        if target + ENC_TEMP_INCREMENT > 65535 {
            65535
        } else {
            target + ENC_TEMP_INCREMENT
        }
    } else if pending < 0 {
        if target < ENC_TEMP_INCREMENT {
            0
        } else {
            target - ENC_TEMP_INCREMENT
        }
    } else {
        target as int
    }
}

/// The step quantum is the raw-code difference between 50 °F and 45 °F.
pub proof fn lemma_step_is_five_degrees()
    ensures
        ENC_TEMP_INCREMENT == crate::max6675::raw_of_fahrenheit(50)
            - crate::max6675::raw_of_fahrenheit(45),
{
}

/// The pending step.
pub struct SetpointChannel {
    pub pending: i8,
}

impl SetpointChannel {
    pub open spec fn wf(&self) -> bool {
        -1 <= self.pending <= 1
    }

    /// Nothing pending.
    pub fn new() -> (r: Self)
        ensures
            r.wf(),
            r.pending == 0,
    {
        SetpointChannel { pending: 0 }
    }

    /// Records an encoder edge, given the level of the encoder's data line.
    pub fn encoder_step(&mut self, dt_low: bool)
        ensures
            final(self).wf(),
            final(self).pending == after_event(old(self).pending, dt_low),
    {
        if dt_low {
            self.pending = 1;
        } else {
            self.pending = -1;
        }
    }

    /// Takes the pending step, leaving nothing pending.
    pub fn take(&mut self) -> (r: i8)
        ensures
            r == old(self).pending,
            final(self).pending == 0,
            final(self).wf(),
    {
        let p = self.pending;
        self.pending = 0;
        p
    }
}

/// Any number of encoder edges in one direction before a tick leave the same
/// pending step as one edge, and so move the target by the same single step.
pub proof fn lemma_encoder_overwrite(pending: i8, dt_low: bool, target: u16)
    ensures
        after_event(after_event(pending, dt_low), dt_low) == after_event(pending, dt_low),
        target_after(target, after_event(after_event(pending, dt_low), dt_low))
            == target_after(target, after_event(pending, dt_low)),
        ENC_TEMP_INCREMENT <= target <= 65535 - ENC_TEMP_INCREMENT ==> {
            let moved = target_after(target, after_event(pending, dt_low)) - target;
            moved == ENC_TEMP_INCREMENT || moved == -ENC_TEMP_INCREMENT
        },
{
}

} // verus!

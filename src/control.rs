//! The averaging filter and the proportional-derivative valve controller.
use vstd::prelude::*;
use crate::ring::{ring_push, ring_fill, window_start, lemma_ring_window, samples_of, errors_of, SampleRing, ErrorRing};

verus! {

/// Number of readings averaged, and of error terms the derivative spans.
pub const TEMP_AVG_BUFFER_SIZE: usize = 16;
/// Proportional gain.
pub const P_TERM: i32 = 1;
/// Derivative gain.
pub const D_TERM: i32 = 256;
/// Largest raw code a reading can carry.
pub const RAW_MAX: i32 = 65535;
/// Largest scaled average: sixteen readings at `RAW_MAX`.
pub const SCALED_MAX: i32 = 1048560;

/// Sum of a sequence of readings.
pub open spec fn seq_sum(s: Seq<u16>) -> int
    decreases s.len(),
{
    if s.len() == 0 {
        0
    } else {
        seq_sum(s.drop_last()) + s.last()
    }
}

pub proof fn lemma_seq_sum_bounds(s: Seq<u16>)
    ensures
        0 <= seq_sum(s) <= 65535 * s.len(),
    decreases s.len(),
{
    if s.len() > 0 {
        lemma_seq_sum_bounds(s.drop_last());
    }
}

/// Fixed-width window over the latest sixteen raw readings.
pub struct TemperatureFilter {
    pub samples: SampleRing,
}

impl TemperatureFilter {
    /// The readings held, oldest first.
    pub open spec fn samples(&self) -> Seq<u16> {
        samples_of(self.samples)
    }

    pub open spec fn wf(&self) -> bool {
        self.samples().len() <= 16
    }

    /// Whether a full window of readings is held.
    pub open spec fn primed(&self) -> bool {
        self.samples().len() == 16
    }

    pub fn new() -> (r: Self)
        ensures
            r.wf(),
            r.samples() == Seq::<u16>::empty(),
    {
        TemperatureFilter { samples: SampleRing::new() }
    }

    /// Number of readings held.
    pub fn len(&self) -> (r: usize)
        requires
            self.wf(),
        ensures
            r == self.samples().len(),
    {
        self.samples.len()
    }

    /// Sum of the readings held.
    fn sum(&self) -> (r: i32)
        requires
            self.wf(),
        ensures
            r == seq_sum(self.samples()),
    {
        let n = self.samples.len();
        let ghost v = self.samples();
        let mut total: i32 = 0;
        let mut i: usize = 0;
        while i < n
            invariant
                v == self.samples(),
                n == v.len(),
                v.len() <= 16,
                i <= v.len(),
                total == seq_sum(v.take(i as int)),
                0 <= total <= 65535 * i,
            decreases n - i,
        {
            proof {
                assert(v.take(i as int + 1).drop_last() =~= v.take(i as int));
            }
            total = total + self.samples.get(i) as i32;
            i = i + 1;
        }
        proof {
            assert(v.take(v.len() as int) =~= v);
        }
        total
    }

    /// Takes in a reading. Once sixteen are held, returns their sum: the average
    /// kept at sixteen times its value, so that no fraction is lost.
    pub fn observe(&mut self, raw: u16) -> (r: Option<i32>)
        requires
            old(self).wf(),
        ensures
            final(self).wf(),
            final(self).samples() == ring_push(old(self).samples(), raw, 16),
            final(self).primed() ==> r == Some(seq_sum(final(self).samples()) as i32),
            !final(self).primed() ==> r is None,
            0 <= seq_sum(final(self).samples()) <= SCALED_MAX,
    {
        self.samples.push(raw);
        proof {
            lemma_seq_sum_bounds(self.samples());
        }
        if self.len() < TEMP_AVG_BUFFER_SIZE {
            None
        } else {
            Some(self.sum())
        }
    }
}

/// The error term at the filter's scale: sixteen times the target, less the scaled average.
pub open spec fn error_term(target: u16, scaled_average: int) -> int {
    target as int * 16 - scaled_average
}

/// How far the valve moves for an error `e` whose oldest buffered value is `oldest`.
pub open spec fn valve_step(e: int, oldest: int) -> int {
    crate::max6675::trunc_div(P_TERM as int * e + D_TERM as int * (e - oldest), 16)
}

/// `v` held to the valve's range `[0, 65535]`.
pub open spec fn saturate(v: int) -> int {
    if v < 0 {
        0
    } else if v > 65535 {
        65535
    } else {
        v
    }
}

/// Whether every error term lies within what a valid target and average can give.
pub open spec fn errors_in_range(s: Seq<i32>) -> bool {
    forall|i: int| 0 <= i < s.len() ==> -SCALED_MAX <= #[trigger] s[i] <= SCALED_MAX
}

/// The error window after a step with error term `e`: pushed, or, on a reset,
/// written into all sixteen slots.
pub open spec fn errors_after(errors: Seq<i32>, e: int, reset: bool) -> Seq<i32> {
    if reset {
        Seq::new(16, |i: int| e as i32)
    } else {
        ring_push(errors, e as i32, 16)
    }
}

/// The valve position after a step with error term `e`, given the error window
/// that step left: moved and saturated once the window is full, else unchanged.
pub open spec fn valve_after(errors: Seq<i32>, valve_pos: u16, e: int) -> int {
    if errors.len() == 16 {
        saturate(valve_pos + valve_step(e, errors[0] as int))
    } else {
        valve_pos as int
    }
}

/// The proportional-derivative controller: a window of sixteen error terms, the
/// valve position it integrates into, and the target temperature.
pub struct Controller {
    pub errors: ErrorRing,
    /// 0 is fully closed, 65535 fully open.
    pub valve_pos: u16,
    /// Target as a raw code.
    pub target_temp_raw: u16,
}

impl Controller {
    /// The error terms held, oldest first.
    pub open spec fn errors(&self) -> Seq<i32> {
        errors_of(self.errors)
    }

    pub open spec fn wf(&self) -> bool {
        self.errors().len() <= 16 && errors_in_range(self.errors())
    }

    /// Whether a full window of error terms is held.
    pub open spec fn primed(&self) -> bool {
        self.errors().len() == 16
    }

    /// A controller with no error history, the valve fully open, aiming at `target_temp_raw`.
    pub fn new(target_temp_raw: u16) -> (r: Self)
        ensures
            r.wf(),
            r.errors() == Seq::<i32>::empty(),
            r.valve_pos == 65535,
            r.target_temp_raw == target_temp_raw,
    {
        Controller { errors: ErrorRing::new(), valve_pos: 65535, target_temp_raw }
    }

    /// Number of error terms held.
    pub fn len(&self) -> (r: usize)
        requires
            self.wf(),
        ensures
            r == self.errors().len(),
    {
        self.errors.len()
    }

    /// Runs one control step on a scaled average. The error term is pushed into
    /// the window, or, where `reset_error` is set, written into every slot of it,
    /// so that a change of target does not read as a jump of temperature. With a
    /// full window the valve moves by `valve_step`, held to its range, and its new
    /// position is returned.
    pub fn update(&mut self, scaled_average: i32, reset_error: bool) -> (r: Option<u16>)
        requires
            old(self).wf(),
            0 <= scaled_average <= SCALED_MAX,
        ensures
            final(self).wf(),
            final(self).target_temp_raw == old(self).target_temp_raw,
            final(self).errors() == errors_after(
                old(self).errors(),
                error_term(old(self).target_temp_raw, scaled_average as int),
                reset_error,
            ),
            final(self).valve_pos == valve_after(
                final(self).errors(),
                old(self).valve_pos,
                error_term(old(self).target_temp_raw, scaled_average as int),
            ),
            r == (if final(self).primed() { Some(final(self).valve_pos) } else { None }),
            reset_error ==> final(self).valve_pos == saturate(
                old(self).valve_pos + valve_step(
                    error_term(old(self).target_temp_raw, scaled_average as int),
                    error_term(old(self).target_temp_raw, scaled_average as int),
                ),
            ),
    {
        let ghost e = error_term(self.target_temp_raw, scaled_average as int);
        let error: i32 = (self.target_temp_raw as i32) * (TEMP_AVG_BUFFER_SIZE as i32) - scaled_average;
        if reset_error {
            self.errors.fill(error);
        } else {
            self.errors.push(error);
        }
        proof {
            let s = self.errors();
            assert(errors_in_range(s)) by {
                if !reset_error {
                    let o = old(self).errors();
                    assert forall|i: int| 0 <= i < s.len() implies -SCALED_MAX <= #[trigger] s[i] <= SCALED_MAX by {
                        if o.len() < 16 {
                            if i < o.len() {
                                assert(s[i] == o[i]);
                            }
                        } else {
                            if i < 15 {
                                assert(s[i] == o[i + 1]);
                            }
                        }
                    }
                }
            }
        }
        if self.errors.len() < TEMP_AVG_BUFFER_SIZE {
            return None;
        }
        let oldest: i32 = self.errors.get(0);
        let error_d: i32 = error - oldest;
        let swing: i32 = P_TERM * error + D_TERM * error_d;
        let valve_d: i32 = if swing >= 0 {
            swing / (TEMP_AVG_BUFFER_SIZE as i32)
        } else {
            -((-swing) / (TEMP_AVG_BUFFER_SIZE as i32))
        };
        if valve_d < -(self.valve_pos as i32) {
            self.valve_pos = 0;
        } else if valve_d > (65535 - self.valve_pos) as i32 {
            self.valve_pos = 65535;
        } else {
            self.valve_pos = (self.valve_pos as i32 + valve_d) as u16;
        }
        Some(self.valve_pos)
    }
}

/// Fed any sequence of readings from empty, the filter holds sixteen, and so
/// returns an average, exactly once sixteen readings have come; the average it
/// returns is then the sum of the last sixteen.
pub proof fn lemma_filter_priming(readings: Seq<u16>)
    ensures
        (ring_fill(Seq::<u16>::empty(), readings, 16).len() == 16) == (readings.len() >= 16),
        readings.len() >= 16 ==> seq_sum(ring_fill(Seq::<u16>::empty(), readings, 16))
            == seq_sum(readings.subrange(readings.len() - 16, readings.len() as int)),
{
    lemma_ring_window(readings, 16);
}

/// From an empty error window, the controller is primed exactly from the
/// sixteenth error term on, whether each step pushes or resets; once primed,
/// every later step, pushing or resetting, leaves it primed.
pub proof fn lemma_controller_priming(terms: Seq<i32>, e: int, reset: bool, s: Seq<i32>)
    ensures
        (ring_fill(Seq::<i32>::empty(), terms, 16).len() == 16) == (terms.len() >= 16),
        s.len() == 16 ==> errors_after(s, e, reset).len() == 16,
{
    lemma_ring_window(terms, 16);
}

/// On a step that resets the window, every slot holds the step's error term,
/// so the derivative part of the step is zero.
pub proof fn lemma_reset_clears_derivative(errors: Seq<i32>, e: int, valve_pos: u16)
    requires
        -SCALED_MAX <= e <= SCALED_MAX,
    ensures
        forall|i: int| 0 <= i < 16 ==> #[trigger] errors_after(errors, e, true)[i] == e,
        valve_after(errors_after(errors, e, true), valve_pos, e) == saturate(
            valve_pos + crate::max6675::trunc_div(P_TERM as int * e, 16),
        ),
{
}

} // verus!

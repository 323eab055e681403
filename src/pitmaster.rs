//! The controller's whole state, advanced once per tick, and what the status
//! display shows of it.
use vstd::prelude::*;
use crate::max6675::{f_to_raw, raw_to_f, raw_of_fahrenheit, fahrenheit_of, signed_code};
use crate::ring::{ring_push, columns_of, ColumnRing};
use crate::control::{valve_step, saturate, 
    TemperatureFilter, Controller, seq_sum, error_term, errors_after, valve_after, SCALED_MAX,
};
use crate::setpoint::{target_after, ENC_TEMP_INCREMENT};
use crate::history::{GRAPH_STEP_TICKS, HistoryRecorder, record_step, column_of, DISPLAY_WIDTH};

verus! {

/// Display height in pixels.
pub const DISPLAY_HEIGHT: usize = 64;
/// Height of each of the two graphs: half the display.
pub const GRAPH_HEIGHT: usize = 32;
/// Valve duty at position 0 (fully closed).
pub const VALVE_MIN_PWM_DUTY: u32 = 15700;
/// Valve duty at full open.
pub const VALVE_MAX_PWM_DUTY: u32 = 37000;
/// Width of the valve's duty range.
pub const VALVE_DUTY_RANGE: u32 = 21300;
/// Smallest span of scaled temperature the temperature graph shows: a pixel per
/// sixteenth of a scaled degree code.
pub const MIN_TEMP_RANGE: u32 = 512;
/// Width of the warm-up progress bar.
pub const PROGRESS_BAR_WIDTH: u32 = 108;
/// Ticks of warm-up: the filter's window, then the controller's.
pub const PROGRESS_MAX: u32 = 32;

/// Whole controller state: filter, controller and history.
pub struct State {
    pub filter: TemperatureFilter,
    pub controller: Controller,
    pub history: HistoryRecorder,
}

/// The warm-up screen: how far the bar is filled, and the percentage shown.
#[derive(Clone, Copy, Debug, PartialEq, Eq, Structural)]
pub struct StartupProgress {
    pub bar_width: u32,
    pub percent: u32,
}

/// The scaled-temperature window the temperature graph spans: `low` at its
/// bottom pixel row, `low + span` at its top.
#[derive(Clone, Copy, Debug, PartialEq, Eq, Structural)]
pub struct GraphRange {
    pub low: u32,
    pub high: u32,
    pub span: u32,
}

/// The live screen, as numbers and pixel positions.
#[derive(Clone, Debug)]
pub struct Dashboard {
    /// Current temperature, degrees Fahrenheit.
    pub temp_f: i16,
    /// Valve openness, percent.
    pub valve_percent: u32,
    /// Label at the top of the temperature graph, degrees Fahrenheit.
    pub max_f: i16,
    /// Label at the bottom of the temperature graph, degrees Fahrenheit.
    pub min_f: i16,
    /// Target, degrees Fahrenheit.
    pub target_f: i16,
    /// Window of the temperature graph.
    pub range: GraphRange,
    /// Row of the dotted target line, where the target lies within the window.
    pub target_line_y: Option<i32>,
    /// Number of history columns shown, in each graph.
    pub columns: usize,
    /// In its first `columns` slots, one `(x, y)` pixel per temperature column,
    /// right-aligned; `(0, 0)` after them.
    pub temp_points: [(i32, i32); 128],
    /// In its first `columns` slots, one `(x, y)` pixel per valve column,
    /// right-aligned; `(0, 0)` after them.
    pub valve_points: [(i32, i32); 128],
}

/// Least element of a non-empty sequence.
pub open spec fn seq_min(s: Seq<u16>) -> int
    decreases s.len(),
{
    if s.len() <= 1 {
        s[0] as int
    } else if seq_min(s.drop_last()) <= s.last() {
        seq_min(s.drop_last())
    } else {
        s.last() as int
    }
}

/// Greatest element of a non-empty sequence.
pub open spec fn seq_max(s: Seq<u16>) -> int
    decreases s.len(),
{
    if s.len() <= 1 {
        s[0] as int
    } else if seq_max(s.drop_last()) >= s.last() {
        seq_max(s.drop_last())
    } else {
        s.last() as int
    }
}

pub proof fn lemma_min_max_bound(s: Seq<u16>)
    requires
        s.len() > 0,
    ensures
        forall|j: int| 0 <= j < s.len() ==> seq_min(s) <= #[trigger] s[j] <= seq_max(s),
    decreases s.len(),
{
    if s.len() > 1 {
        lemma_min_max_bound(s.drop_last());
        assert forall|j: int| 0 <= j < s.len() implies seq_min(s) <= #[trigger] s[j] <= seq_max(s) by {
            if j < s.len() - 1 {
                assert(s[j] == s.drop_last()[j]);
            }
        }
    }
}

/// The window the temperature graph spans for history between `lo` and `hi`:
/// where the span is under `MIN_TEMP_RANGE`, it is widened to that about the
/// midpoint, and where that would go below zero, it starts at zero and the
/// remainder goes to the top, so that it still spans `MIN_TEMP_RANGE`.
pub open spec fn graph_window(lo: int, hi: int) -> (int, int, int) {
    if hi - lo < MIN_TEMP_RANGE {
        let mid = (hi + lo) / 2;
        if mid > MIN_TEMP_RANGE / 2 {
            (mid - MIN_TEMP_RANGE / 2, mid + MIN_TEMP_RANGE / 2, MIN_TEMP_RANGE as int)
        } else {
            (0, MIN_TEMP_RANGE as int, MIN_TEMP_RANGE as int)
        }
    } else {
        (lo, hi, hi - lo)
    }
}

/// Pixel row of scaled temperature `t` in a window starting at `low` and `span` tall.
pub open spec fn temp_row(t: int, low: int, span: int) -> int {
    GRAPH_HEIGHT - (t - low) * GRAPH_HEIGHT / span
}

/// Pixel row of valve position `v` on the lower graph.
pub open spec fn valve_row(v: int) -> int {
    DISPLAY_HEIGHT - 1 - v / 2048
}

/// Valve openness in percent as the display shows it: `v * 101 >> 16`.
pub open spec fn valve_percent_of(v: int) -> int {
    v * 101 / 65536
}

/// Servo duty for a valve position: an affine map onto the calibrated duty range.
pub open spec fn duty_of(v: int) -> int {
    v * VALVE_DUTY_RANGE / 65536 + VALVE_MIN_PWM_DUTY
}

/// Everything a tick reads and changes, as mathematical values.
pub struct StateView {
    pub samples: Seq<u16>,
    pub errors: Seq<i32>,
    pub valve_pos: int,
    pub target: u16,
    pub temps: Seq<u16>,
    pub valves: Seq<u16>,
    pub tick_cnt: int,
}

/// One tick on a view, as `on_temp_read` performs it.
pub open spec fn tick_view(v: StateView, raw: u16, reset_error: bool) -> StateView {
    let samples = ring_push(v.samples, raw, 16);
    if samples.len() < 16 {
        StateView { samples, ..v }
    } else {
        let avg = seq_sum(samples);
        let e = error_term(v.target, avg);
        let errors = errors_after(v.errors, e, reset_error);
        let valve_pos = valve_after(errors, v.valve_pos as u16, e);
        if errors.len() < 16 {
            StateView { samples, errors, valve_pos, ..v }
        } else {
            let h = record_step(v.temps, v.valves, v.tick_cnt, column_of(avg), valve_pos as u16);
            StateView { samples, errors, valve_pos, temps: h.0, valves: h.1, tick_cnt: h.2, ..v }
        }
    }
}

/// A view after ticks on each of `raws` in turn, with no setpoint change.
pub open spec fn run_view(v: StateView, raws: Seq<u16>) -> StateView
    decreases raws.len(),
{
    if raws.len() == 0 {
        v
    } else {
        tick_view(run_view(v, raws.drop_last()), raws.last(), false)
    }
}

/// Ticks counted from a state with empty windows: the filter is primed from
/// the sixteenth tick on, and the controller from the thirty-first, so that the
/// first fifteen ticks after the filter primes leave it unprimed; every tick
/// from then on returns a valve position.
pub proof fn lemma_state_priming(v: StateView, raws: Seq<u16>)
    requires
        v.samples.len() == 0,
        v.errors.len() == 0,
        0 <= v.valve_pos <= 65535,
    ensures
        run_view(v, raws).samples.len() == if raws.len() < 16 { raws.len() as int } else { 16 },
        run_view(v, raws).errors.len() == if raws.len() < 16 {
            0
        } else if raws.len() < 31 {
            raws.len() - 15
        } else {
            16
        },
        0 <= run_view(v, raws).valve_pos <= 65535,
        (run_view(v, raws).errors.len() == 16) == (raws.len() >= 31),
    decreases raws.len(),
{
    if raws.len() > 0 {
        lemma_state_priming(v, raws.drop_last());
    }
}

/// With both windows full and a column just committed, the next
/// `GRAPH_STEP_TICKS - 1` ticks only overwrite that column, and the tick after
/// them commits exactly one new column (the oldest leaving once 128 are held).
pub proof fn lemma_state_decimation(v: StateView, raws: Seq<u16>)
    requires
        v.samples.len() == 16,
        v.errors.len() == 16,
        0 <= v.valve_pos <= 65535,
        v.temps.len() == v.valves.len(),
        0 < v.temps.len() <= 128,
        v.tick_cnt == 1,
        raws.len() <= GRAPH_STEP_TICKS,
    ensures
        raws.len() < GRAPH_STEP_TICKS ==> {
            &&& run_view(v, raws).temps.len() == v.temps.len()
            &&& run_view(v, raws).valves.len() == v.valves.len()
            &&& run_view(v, raws).tick_cnt == 1 + raws.len()
        },
        raws.len() == GRAPH_STEP_TICKS ==> {
            &&& run_view(v, raws).temps.len() == if v.temps.len() < 128 { v.temps.len() + 1 } else { 128 }
            &&& run_view(v, raws).valves.len() == run_view(v, raws).temps.len()
            &&& run_view(v, raws).tick_cnt == 1
            &&& run_view(v, raws).temps.last() == column_of(seq_sum(run_view(v, raws).samples))
            &&& run_view(v, raws).valves.last() == run_view(v, raws).valve_pos
        },
        run_view(v, raws).samples.len() == 16,
        run_view(v, raws).errors.len() == 16,
        0 <= run_view(v, raws).valve_pos <= 65535,
    decreases raws.len(),
{
    if raws.len() > 0 {
        lemma_state_decimation(v, raws.drop_last());
    }
}

proof fn lemma_sum_constant(n: nat, c: u16)
    ensures
        seq_sum(Seq::new(n, |i: int| c)) == n * c,
    decreases n,
{
    let s = Seq::new(n, |i: int| c);
    if n > 0 {
        let t = Seq::new((n - 1) as nat, |i: int| c);
        assert(s.drop_last() =~= t);
        lemma_sum_constant((n - 1) as nat, c);
        assert(seq_sum(s) == seq_sum(t) + c);
        assert(seq_sum(t) == (n - 1) * c);
        assert((n - 1) * c + c == n * c) by (nonlinear_arith);
    } else {
        assert(seq_sum(s) == 0);
        assert(n * c == 0);
    }
}

/// With the target at raw 980 and every reading at raw 904, from empty windows
/// and a valve at `v.valve_pos`: the filter's average is 14464, the error term
/// 1216 in every slot, and from the thirty-first tick on each tick opens the
/// valve by 76, up to fully open and never beyond.
pub proof fn lemma_steady_heating(v: StateView, raws: Seq<u16>)
    requires
        v.samples.len() == 0,
        v.errors.len() == 0,
        0 <= v.valve_pos <= 65535,
        v.target == 980,
        forall|i: int| 0 <= i < raws.len() ==> #[trigger] raws[i] == 904,
    ensures
        run_view(v, raws).target == v.target,
        run_view(v, raws).samples == Seq::new(
            if raws.len() < 16 { raws.len() } else { 16 },
            |i: int| 904u16,
        ),
        run_view(v, raws).errors == Seq::new(
            if raws.len() < 16 { 0 } else if raws.len() < 31 { (raws.len() - 15) as nat } else { 16 },
            |i: int| 1216i32,
        ),
        run_view(v, raws).valve_pos == if raws.len() <= 30 {
            v.valve_pos
        } else if v.valve_pos + 76 * (raws.len() - 30) > 65535 {
            65535
        } else {
            v.valve_pos + 76 * (raws.len() - 30)
        },
    decreases raws.len(),
{
    if raws.len() > 0 {
        let k = raws.len();
        let prev = raws.drop_last();
        assert forall|i: int| 0 <= i < prev.len() implies #[trigger] prev[i] == 904 by {
            assert(prev[i] == raws[i]);
        }
        lemma_steady_heating(v, prev);
        let p = run_view(v, prev);
        assert(raws.last() == raws[k - 1]);
        assert(run_view(v, raws) == tick_view(p, 904u16, false));
        let samples = ring_push(p.samples, 904u16, 16);
        let n_s: nat = if k < 16 { k } else { 16 };
        assert(samples =~= Seq::new(n_s, |i: int| 904u16));
        if k >= 16 {
            lemma_sum_constant(16, 904);
            assert(seq_sum(samples) == 14464);
            assert(error_term(980, 14464) == 1216);
            let n_e: nat = if k < 31 { (k - 15) as nat } else { 16 };
            let errors = errors_after(p.errors, 1216, false);
            assert(errors =~= Seq::new(n_e, |i: int| 1216i32));
            assert(valve_step(1216, 1216) == 76) by {
                assert(crate::max6675::trunc_div(1216, 16) == 76);
            }
            if k >= 31 {
                assert(errors[0] == 1216i32);
                assert(valve_after(errors, p.valve_pos as u16, 1216) == saturate(p.valve_pos + 76));
            }
        }
    }
}

/// Ticks of warm-up done: readings in the filter plus error terms in the controller.
pub open spec fn warmup_count(s: &State) -> int {
    s.filter.samples().len() as int + s.controller.errors().len() as int
}

impl State {
    /// The state as mathematical values.
    pub open spec fn view(&self) -> StateView {
        StateView {
            samples: self.filter.samples(),
            errors: self.controller.errors(),
            valve_pos: self.controller.valve_pos as int,
            target: self.controller.target_temp_raw,
            temps: self.history.temp_columns(),
            valves: self.history.valve_columns(),
            tick_cnt: self.history.tick_cnt as int,
        }
    }

    pub open spec fn wf(&self) -> bool {
        &&& self.filter.wf()
        &&& self.controller.wf()
        &&& self.history.wf()
        &&& self.controller.primed() ==> self.history.temp_columns().len() > 0
    }

    /// Empty windows and history, the valve fully open, the target at 226 °F.
    pub fn new() -> (r: State)
        ensures
            r.wf(),
            r.filter.samples() == Seq::<u16>::empty(),
            r.controller.errors() == Seq::<i32>::empty(),
            r.controller.valve_pos == 65535,
            r.controller.target_temp_raw == raw_of_fahrenheit(226),
            r.history.temp_columns() == Seq::<u16>::empty(),
            r.history.valve_columns() == Seq::<u16>::empty(),
            r.history.tick_cnt == crate::history::GRAPH_STEP_TICKS,
    {
        State {
            filter: TemperatureFilter::new(),
            controller: Controller::new(f_to_raw(226)),
            history: HistoryRecorder::new(),
        }
    }

    /// One tick: the reading enters the filter; with a full filter window the
    /// controller steps on the scaled average; once the controller is primed,
    /// the average and the new valve position are recorded in the history.
    pub fn on_temp_read(&mut self, new_temp_raw: u16, reset_error: bool)
        requires
            old(self).wf(),
        ensures
            final(self).wf(),
            final(self).view() == tick_view(old(self).view(), new_temp_raw, reset_error),
            final(self).filter.samples() == ring_push(old(self).filter.samples(), new_temp_raw, 16),
            final(self).controller.target_temp_raw == old(self).controller.target_temp_raw,
            !final(self).filter.primed() ==> {
                &&& final(self).controller.errors() == old(self).controller.errors()
                &&& final(self).controller.valve_pos == old(self).controller.valve_pos
            },
            final(self).filter.primed() ==> ({
                let e = error_term(old(self).controller.target_temp_raw, seq_sum(final(self).filter.samples()));
                &&& final(self).controller.errors() == errors_after(old(self).controller.errors(), e, reset_error)
                &&& final(self).controller.valve_pos == valve_after(
                    final(self).controller.errors(),
                    old(self).controller.valve_pos,
                    e,
                )
            }),
            final(self).filter.primed() && final(self).controller.primed() ==> (
                final(self).history.temp_columns(),
                final(self).history.valve_columns(),
                final(self).history.tick_cnt as int,
            ) == record_step(
                old(self).history.temp_columns(),
                old(self).history.valve_columns(),
                old(self).history.tick_cnt as int,
                column_of(seq_sum(final(self).filter.samples())),
                final(self).controller.valve_pos,
            ),
            !(final(self).filter.primed() && final(self).controller.primed()) ==> {
                &&& final(self).history.temp_columns() == old(self).history.temp_columns()
                &&& final(self).history.valve_columns() == old(self).history.valve_columns()
                &&& final(self).history.tick_cnt == old(self).history.tick_cnt
            },
    {
        let average = self.filter.observe(new_temp_raw);
        if let Some(t_avg) = average {
            let valve = self.controller.update(t_avg, reset_error);
            if let Some(v) = valve {
                self.history.record(t_avg, v);
            }
        }
    }

    /// Whether the controller is primed, so that the valve may be driven.
    pub fn is_ready(&self) -> (r: bool)
        requires
            self.wf(),
        ensures
            r == self.controller.primed(),
    {
        self.controller.len() == 16
    }

    /// Servo duty for the current valve position.
    pub fn valve_pwm_duty(&self) -> (r: u16)
        ensures
            r == duty_of(self.controller.valve_pos as int),
    {
        ((self.controller.valve_pos as u32) * VALVE_DUTY_RANGE / 65536 + VALVE_MIN_PWM_DUTY) as u16
    }

    /// The warm-up bar: both windows' fill counts out of 32 ticks.
    pub fn startup_progress(&self) -> (r: StartupProgress)
        requires
            self.wf(),
        ensures
            r.bar_width == warmup_count(self) * PROGRESS_BAR_WIDTH as int / PROGRESS_MAX as int,
            r.percent == warmup_count(self) * 101 / PROGRESS_MAX as int,
    {
        let progress: u32 = (self.filter.len() + self.controller.len()) as u32;
        StartupProgress {
            bar_width: progress * PROGRESS_BAR_WIDTH / PROGRESS_MAX,
            percent: progress * 101 / PROGRESS_MAX,
        }
    }
    /// Applies a pending setpoint step taken from the encoder channel. Returns
    /// whether the target moved this tick, which is what the controller's
    /// `reset_error` is to be.
    pub fn apply_setpoint_step(&mut self, pending: i8) -> (reset_error: bool)
        ensures
            final(self).controller.target_temp_raw == target_after(
                old(self).controller.target_temp_raw,
                pending,
            ),
            reset_error == (pending != 0),
            final(self).filter == old(self).filter,
            final(self).history == old(self).history,
            final(self).controller.errors == old(self).controller.errors,
            final(self).controller.valve_pos == old(self).controller.valve_pos,
    {
        if pending > 0 {
            self.controller.target_temp_raw = self.controller.target_temp_raw.saturating_add(ENC_TEMP_INCREMENT);
            true
        } else if pending < 0 {
            self.controller.target_temp_raw = self.controller.target_temp_raw.saturating_sub(ENC_TEMP_INCREMENT);
            true
        } else {
            false
        }
    }

    /// Hardware duty to drive the valve servo with, on a timer whose full scale
    /// is `max_duty`; `None` until the controller is primed, when the valve must
    /// not be driven.
    pub fn servo_command(&self, max_duty: u16) -> (r: Option<u16>)
        requires
            self.wf(),
        ensures
            r is None <==> !self.controller.primed(),
            r matches Some(d) ==> d == duty_of(self.controller.valve_pos as int) * max_duty as int
                / 65535,
    {
        if self.is_ready() {
            Some(servo_duty(self.valve_pwm_duty(), max_duty))
        } else {
            None
        }
    }

    /// The live screen, once the controller is primed; `None` before.
    pub fn dashboard(&self) -> (r: Option<Dashboard>)
        requires
            self.wf(),
        ensures
            r is None <==> !self.controller.primed(),
            r matches Some(d) ==> ({
                let temps = self.history.temp_columns();
                let valves = self.history.valve_columns();
                let w = graph_window(seq_min(temps), seq_max(temps));
                let target_m = self.controller.target_temp_raw * 16;
                &&& d.temp_f == fahrenheit_of(temps.last() as int / 16)
                &&& d.valve_percent == valve_percent_of(self.controller.valve_pos as int)
                &&& (d.range.low as int, d.range.high as int, d.range.span as int) == w
                &&& d.max_f == fahrenheit_of(w.1 / 16)
                &&& d.min_f == fahrenheit_of(w.0 / 16)
                &&& d.target_f == fahrenheit_of(signed_code(self.controller.target_temp_raw))
                &&& d.target_line_y == (if w.0 <= target_m <= w.1 {
                    Some(temp_row(target_m, w.0, w.2) as i32)
                } else {
                    None
                })
                &&& d.columns == temps.len()
                &&& forall|j: int| 0 <= j < temps.len() ==> #[trigger] d.temp_points@[j] == (
                    (DISPLAY_WIDTH - temps.len() + j) as i32,
                    temp_row(temps[j] as int, w.0, w.2) as i32,
                )
                &&& forall|j: int| 0 <= j < valves.len() ==> #[trigger] d.valve_points@[j] == (
                    (DISPLAY_WIDTH - valves.len() + j) as i32,
                    valve_row(valves[j] as int) as i32,
                )
                &&& forall|j: int| temps.len() <= j < 128 ==> #[trigger] d.temp_points@[j] == (0i32, 0i32)
                &&& forall|j: int| valves.len() <= j < 128 ==> #[trigger] d.valve_points@[j] == (0i32, 0i32)
            }),
    {
        if !self.is_ready() {
            return None;
        }
        let temps = &self.history.temps;
        let valves = &self.history.valves;
        let (lo, hi) = min_max(temps);
        proof {
            lemma_min_max_bound(columns_of(*temps));
        }
        let range = graph_range(lo, hi);
        let columns = temps.len();
        let last: u16 = temps.get(columns - 1);
        let target_m: u32 = (self.controller.target_temp_raw as u32) * 16;
        let target_line_y: Option<i32> = if target_m >= range.low && target_m <= range.high {
            Some(GRAPH_HEIGHT as i32 - ((target_m - range.low) * 32 / range.span) as i32)
        } else {
            None
        };
        let temp_pixels = temp_points(temps, range);
        let valve_pixels = valve_points(valves);
        Some(Dashboard {
            temp_f: raw_to_f(last / 16),
            valve_percent: (self.controller.valve_pos as u32) * 101 / 65536,
            max_f: raw_to_f((range.high / 16) as u16),
            min_f: raw_to_f((range.low / 16) as u16),
            target_f: raw_to_f(self.controller.target_temp_raw),
            range,
            target_line_y,
            columns,
            temp_points: temp_pixels,
            valve_points: valve_pixels,
        })
    }
}

/// Hardware duty for a servo duty, on a timer whose full scale is `max_duty`.
pub fn servo_duty(duty: u16, max_duty: u16) -> (r: u16)
    ensures
        r == duty as int * max_duty as int / 65535,
{
    let d: u32 = duty as u32;
    let m: u32 = max_duty as u32;
    assert(d * m <= 65535 * m && 65535 * m <= 65535 * 65535) by (nonlinear_arith)
        requires
            d <= 65535,
            m <= 65535,
    ;
    assert(d * m / 65535 <= m) by (nonlinear_arith)
        requires
            d * m <= 65535 * m,
    ;
    (d * m / 65535) as u16
}

/// Least and greatest of the columns of a non-empty ring.
fn min_max(v: &ColumnRing) -> (r: (u16, u16))
    requires
        columns_of(*v).len() > 0,
    ensures
        r.0 == seq_min(columns_of(*v)),
        r.1 == seq_max(columns_of(*v)),
{
    let ghost s = columns_of(*v);
    let n = v.len();
    let mut lo: u16 = v.get(0);
    let mut hi: u16 = lo;
    let mut i: usize = 1;
    while i < n
        invariant
            s == columns_of(*v),
            n == s.len(),
            1 <= i <= s.len(),
            lo == seq_min(s.take(i as int)),
            hi == seq_max(s.take(i as int)),
        decreases n - i,
    {
        proof {
            assert(s.take(i as int + 1).drop_last() =~= s.take(i as int));
        }
        let c = v.get(i);
        if c < lo {
            lo = c;
        }
        if c > hi {
            hi = c;
        }
        i = i + 1;
    }
    proof {
        assert(s.take(s.len() as int) =~= s);
    }
    (lo, hi)
}

/// The temperature graph's window for history between `lo` and `hi`.
pub fn graph_range(lo: u16, hi: u16) -> (r: GraphRange)
    requires
        lo <= hi,
    ensures
        (r.low as int, r.high as int, r.span as int) == graph_window(lo as int, hi as int),
        r.span >= MIN_TEMP_RANGE,
        r.high == r.low + r.span,
        r.low <= lo,
        hi <= r.high,
{
    let lo32: u32 = lo as u32;
    let hi32: u32 = hi as u32;
    if hi32 - lo32 < MIN_TEMP_RANGE {
        let mid: u32 = (hi32 + lo32) / 2;
        if mid > MIN_TEMP_RANGE / 2 {
            GraphRange { low: mid - MIN_TEMP_RANGE / 2, high: mid + MIN_TEMP_RANGE / 2, span: MIN_TEMP_RANGE }
        } else {
            GraphRange { low: 0, high: MIN_TEMP_RANGE, span: MIN_TEMP_RANGE }
        }
    } else {
        GraphRange { low: lo32, high: hi32, span: hi32 - lo32 }
    }
}

/// Pixels of the temperature graph: column `i` of `n` stands at `x = 128 - n + i`.
fn temp_points(v: &ColumnRing, range: GraphRange) -> (r: [(i32, i32); 128])
    requires
        columns_of(*v).len() <= DISPLAY_WIDTH,
        range.span > 0,
        forall|j: int| 0 <= j < columns_of(*v).len() ==> range.low <= #[trigger] columns_of(*v)[j],
    ensures
        forall|j: int|
            0 <= j < columns_of(*v).len() ==> #[trigger] r@[j] == (
                (DISPLAY_WIDTH - columns_of(*v).len() + j) as i32,
                temp_row(columns_of(*v)[j] as int, range.low as int, range.span as int) as i32,
            ),
        forall|j: int| columns_of(*v).len() <= j < 128 ==> #[trigger] r@[j] == (0i32, 0i32),
{
    let ghost s = columns_of(*v);
    let n = v.len();
    let mut out: [(i32, i32); 128] = [(0i32, 0i32); 128];
    let start: i32 = (DISPLAY_WIDTH - n) as i32;
    let mut i: usize = 0;
    while i < n
        invariant
            s == columns_of(*v),
            n == s.len(),
            n <= DISPLAY_WIDTH,
            start == DISPLAY_WIDTH - n,
            range.span > 0,
            forall|j: int| 0 <= j < s.len() ==> range.low <= #[trigger] s[j],
            i <= n,
            out@.len() == 128,
            forall|j: int|
                0 <= j < i ==> #[trigger] out@[j] == (
                    (DISPLAY_WIDTH - n + j) as i32,
                    temp_row(s[j] as int, range.low as int, range.span as int) as i32,
                ),
            forall|j: int| i <= j < 128 ==> #[trigger] out@[j] == (0i32, 0i32),
        decreases n - i,
    {
        let t: u32 = v.get(i) as u32;
        let diff: u32 = t - range.low;
        assert(diff * 32 <= 65535 * 32) by (nonlinear_arith)
            requires
                diff <= 65535,
        ;
        let above: u32 = diff * 32 / range.span;
        out[i] = (start + i as i32, GRAPH_HEIGHT as i32 - above as i32);
        i = i + 1;
    }
    out
}

/// Pixels of the valve graph: column `i` of `n` stands at `x = 128 - n + i`.
fn valve_points(v: &ColumnRing) -> (r: [(i32, i32); 128])
    requires
        columns_of(*v).len() <= DISPLAY_WIDTH,
    ensures
        forall|j: int|
            0 <= j < columns_of(*v).len() ==> #[trigger] r@[j] == (
                (DISPLAY_WIDTH - columns_of(*v).len() + j) as i32,
                valve_row(columns_of(*v)[j] as int) as i32,
            ),
        forall|j: int| columns_of(*v).len() <= j < 128 ==> #[trigger] r@[j] == (0i32, 0i32),
{
    let ghost s = columns_of(*v);
    let n = v.len();
    let mut out: [(i32, i32); 128] = [(0i32, 0i32); 128];
    let start: i32 = (DISPLAY_WIDTH - n) as i32;
    let mut i: usize = 0;
    while i < n
        invariant
            s == columns_of(*v),
            n == s.len(),
            n <= DISPLAY_WIDTH,
            start == DISPLAY_WIDTH - n,
            i <= n,
            out@.len() == 128,
            forall|j: int|
                0 <= j < i ==> #[trigger] out@[j] == (
                    (DISPLAY_WIDTH - n + j) as i32,
                    valve_row(s[j] as int) as i32,
                ),
            forall|j: int| i <= j < 128 ==> #[trigger] out@[j] == (0i32, 0i32),
        decreases n - i,
    {
        let divisor: i32 = 65536 / (GRAPH_HEIGHT as i32);
        out[i] = (start + i as i32, DISPLAY_HEIGHT as i32 - 1 - (v.get(i) as i32 / divisor));
        i = i + 1;
    }
    out
}

} // verus!

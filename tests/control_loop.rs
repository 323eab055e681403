use pitmaster::control::{Controller, TemperatureFilter};
use pitmaster::history::HistoryRecorder;
use pitmaster::ring::{ColumnRing, ErrorRing};
use pitmaster::pitmaster::{graph_range, servo_duty, State};
use pitmaster::setpoint::{SetpointChannel, ENC_TEMP_INCREMENT};

fn columns(r: &ColumnRing) -> Vec<u16> {
    (0..r.len()).map(|i| r.get(i)).collect()
}

fn errors(r: &ErrorRing) -> Vec<i32> {
    (0..r.len()).map(|i| r.get(i)).collect()
}

#[test]
fn filter_primes_on_sixteenth_reading() {
    let mut f = TemperatureFilter::new();
    for i in 0..15u16 {
        assert_eq!(f.observe(100 + i), None);
    }
    assert_eq!(f.len(), 15);
    // 100 + ... + 114 + 115
    assert_eq!(f.observe(115), Some(1720));
    // the oldest (100) leaves the window
    assert_eq!(f.observe(200), Some(1720 - 100 + 200));
    assert_eq!(f.len(), 16);
}

#[test]
fn scenario_filter_sum_of_identical_readings() {
    let mut f = TemperatureFilter::new();
    let mut last = None;
    for _ in 0..16 {
        last = f.observe(904);
    }
    assert_eq!(last, Some(14464));
}

#[test]
fn controller_primes_after_sixteen_terms() {
    let mut c = Controller::new(980);
    for _ in 0..15 {
        assert_eq!(c.update(14464, false), None);
        assert_eq!(c.valve_pos, 65535);
    }
    assert_eq!(c.len(), 15);
    // error 980 * 16 - 14464 = 1216, derivative 0, step 1216 / 16 = 76; already fully open
    assert_eq!(c.update(14464, false), Some(65535));
    assert_eq!(c.update(14464, false), Some(65535));
}

#[test]
fn scenario_first_primed_step_moves_valve() {
    let mut c = Controller::new(980);
    for _ in 0..15 {
        c.update(14464, false);
    }
    c.valve_pos = 1000;
    assert_eq!(c.update(14464, false), Some(1076));
    assert_eq!(c.update(14464, false), Some(1152));
}

#[test]
fn derivative_term_uses_oldest_error() {
    let mut c = Controller::new(100);
    c.valve_pos = 30000;
    for _ in 0..15 {
        c.update(1600, false);
    }
    // error term 0 so far; now the average drops by 16: error 16, derivative 16
    // step (16 + 256 * 16) / 16 = 257
    assert_eq!(c.update(1584, false), Some(30257));
}

#[test]
fn negative_step_truncates_toward_zero() {
    let mut c = Controller::new(0);
    c.valve_pos = 30000;
    for _ in 0..15 {
        c.update(8, false);
    }
    // error -8, derivative 0: -8 / 16 truncates to 0
    assert_eq!(c.update(8, false), Some(30000));
}

#[test]
fn saturation_at_zero() {
    let mut c = Controller::new(0);
    for _ in 0..40 {
        let r = c.update(1048560, false);
        if let Some(v) = r {
            assert_eq!(v, 0);
        }
    }
    assert_eq!(c.valve_pos, 0);
}

#[test]
fn saturation_at_full_open() {
    let mut c = Controller::new(65535);
    c.valve_pos = 10;
    for _ in 0..40 {
        c.update(0, false);
    }
    assert_eq!(c.valve_pos, 65535);
}

#[test]
fn reset_fills_window_and_primes() {
    let mut c = Controller::new(980);
    c.valve_pos = 1000;
    // a reset fills all sixteen slots with the same term: primed at once, no derivative
    assert_eq!(c.update(14464, true), Some(1076));
    assert_eq!(c.len(), 16);
    assert_eq!(errors(&c.errors), vec![1216; 16]);
}

#[test]
fn reset_suppresses_derivative_spike() {
    let mut c = Controller::new(100);
    c.valve_pos = 30000;
    for _ in 0..16 {
        c.update(1600, false);
    }
    c.target_temp_raw = 112;
    // error 192 with derivative 0: step 12
    assert_eq!(c.update(1600, true), Some(30012));
}

#[test]
fn decimation_commits_one_column_per_step() {
    let mut h = HistoryRecorder::new();
    h.record(1000, 5);
    assert_eq!(columns(&h.temps), vec![1000]);
    assert_eq!(h.tick_cnt, 1);
    for i in 0..74 {
        h.record(2000 + i, 6);
    }
    assert_eq!(columns(&h.temps), vec![2073]);
    assert_eq!(columns(&h.valves), vec![6]);
    assert_eq!(h.tick_cnt, 75);
    h.record(3000, 7);
    assert_eq!(columns(&h.temps), vec![2073, 3000]);
    assert_eq!(columns(&h.valves), vec![6, 7]);
    assert_eq!(h.tick_cnt, 1);
}

#[test]
fn history_keeps_latest_columns_at_capacity() {
    let mut h = HistoryRecorder::new();
    for col in 0..130 {
        for _ in 0..75 {
            h.record(col, col as u16);
        }
    }
    let temps = columns(&h.temps);
    assert_eq!(temps.len(), 128);
    assert_eq!(temps[0], 2);
    assert_eq!(temps[127], 129);
}

#[test]
fn history_column_keeps_low_sixteen_bits() {
    let mut h = HistoryRecorder::new();
    h.record(65536 + 40, 0);
    assert_eq!(columns(&h.temps), vec![40]);
}

#[test]
fn state_new_defaults() {
    let s = State::new();
    assert_eq!(s.controller.valve_pos, 65535);
    assert_eq!(s.controller.target_temp_raw, 431);
    assert!(!s.is_ready());
    assert!(s.dashboard().is_none());
}

#[test]
fn scenario_state_priming_and_dashboard() {
    let mut s = State::new();
    s.controller.target_temp_raw = 980;
    for tick in 1..=31 {
        s.on_temp_read(904, false);
        assert_eq!(s.is_ready(), tick >= 31, "tick {}", tick);
    }
    assert_eq!(columns(&s.history.temps), vec![14464]);
    let d = s.dashboard().unwrap();
    assert_eq!(d.temp_f, 438);
    assert_eq!(d.valve_percent, 100);
    assert_eq!(d.range.low, 14208);
    assert_eq!(d.range.high, 14720);
    assert_eq!(d.range.span, 512);
    assert_eq!(d.max_f, 446);
    assert_eq!(d.min_f, 431);
    assert_eq!(d.target_f, 473);
    assert_eq!(d.target_line_y, None);
    assert_eq!(d.columns, 1);
    assert_eq!(d.temp_points[0], (127, 16));
    assert_eq!(d.valve_points[0], (127, 32));
    assert_eq!(d.temp_points[1], (0, 0));
}

#[test]
fn dashboard_target_line_inside_window() {
    let mut s = State::new();
    s.controller.target_temp_raw = 904;
    for _ in 0..31 {
        s.on_temp_read(904, false);
    }
    let d = s.dashboard().unwrap();
    // target 14464 is the window's midpoint
    assert_eq!(d.target_line_y, Some(16));
}

#[test]
fn startup_progress_counts_both_windows() {
    let mut s = State::new();
    let p = s.startup_progress();
    assert_eq!((p.bar_width, p.percent), (0, 0));
    for _ in 0..20 {
        s.on_temp_read(500, false);
    }
    let p = s.startup_progress();
    // 16 readings + 5 error terms
    assert_eq!(p.bar_width, 21 * 108 / 32);
    assert_eq!(p.percent, 21 * 101 / 32);
}

#[test]
fn valve_duty_affine_map() {
    let mut s = State::new();
    assert_eq!(s.valve_pwm_duty(), 36999);
    s.controller.valve_pos = 0;
    assert_eq!(s.valve_pwm_duty(), 15700);
    s.controller.valve_pos = 32768;
    assert_eq!(s.valve_pwm_duty(), 15700 + 10650);
}

#[test]
fn servo_duty_scales_to_timer() {
    assert_eq!(servo_duty(36999, 1000), 564);
    assert_eq!(servo_duty(65535, 1000), 1000);
    assert_eq!(servo_duty(0, 1000), 0);
}

#[test]
fn graph_range_widening() {
    let r = graph_range(0, 100);
    assert_eq!((r.low, r.high, r.span), (0, 512, 512));
    let r = graph_range(0, 0);
    assert_eq!((r.low, r.high, r.span), (0, 512, 512));
    let r = graph_range(1000, 1100);
    assert_eq!((r.low, r.high, r.span), (794, 1306, 512));
    let r = graph_range(1000, 5000);
    assert_eq!((r.low, r.high, r.span), (1000, 5000, 4000));
}

#[test]
fn encoder_overwrite_gives_single_step() {
    let mut ch = SetpointChannel::new();
    ch.encoder_step(true);
    ch.encoder_step(true);
    let mut s = State::new();
    let before = s.controller.target_temp_raw;
    let pending = ch.take();
    assert_eq!(pending, 1);
    assert_eq!(ch.take(), 0);
    assert!(s.apply_setpoint_step(pending));
    assert_eq!(s.controller.target_temp_raw, before + ENC_TEMP_INCREMENT);
    assert!(!s.apply_setpoint_step(ch.take()));
    assert_eq!(s.controller.target_temp_raw, before + ENC_TEMP_INCREMENT);
}

#[test]
fn encoder_last_direction_wins() {
    let mut ch = SetpointChannel::new();
    ch.encoder_step(true);
    ch.encoder_step(false);
    let mut s = State::new();
    let pending = ch.take();
    assert_eq!(pending, -1);
    assert!(s.apply_setpoint_step(pending));
    assert_eq!(s.controller.target_temp_raw, 431 - 12);
}

#[test]
fn setpoint_step_saturates() {
    let mut s = State::new();
    s.controller.target_temp_raw = 5;
    s.apply_setpoint_step(-1);
    assert_eq!(s.controller.target_temp_raw, 0);
    s.controller.target_temp_raw = 65530;
    s.apply_setpoint_step(1);
    assert_eq!(s.controller.target_temp_raw, 65535);
}

#[test]
fn scenario_valve_rises_toward_full_open() {
    let mut c = Controller::new(980);
    c.valve_pos = 60000;
    for _ in 0..15 {
        assert_eq!(c.update(14464, false), None);
    }
    let mut prev = c.valve_pos;
    for _ in 0..100 {
        let v = c.update(14464, false).unwrap();
        assert!(v >= prev);
        assert!(v == 65535 || v == prev + 76);
        prev = v;
    }
    assert_eq!(prev, 65535);
}

#[test]
fn servo_command_only_once_primed() {
    let mut s = State::new();
    for _ in 0..30 {
        s.on_temp_read(904, false);
        assert_eq!(s.servo_command(1000), None);
    }
    s.on_temp_read(904, false);
    // error 431 * 16 - 14464 = -7568, step -473: valve 65062, duty 36845
    assert_eq!(s.controller.valve_pos, 65062);
    assert_eq!(s.valve_pwm_duty(), 36845);
    assert_eq!(s.servo_command(1000), Some(562));
}

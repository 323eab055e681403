//! Decimated trend history: one column per display pixel, each column holding
//! the latest sample of up to `GRAPH_STEP_TICKS` ticks.
use vstd::prelude::*;
use crate::ring::{ring_push, columns_of, ColumnRing};
use crate::control::SCALED_MAX;

verus! {

/// Number of display columns, and so of history columns kept.
pub const DISPLAY_WIDTH: usize = 128;
/// Ticks that one history column spans.
pub const GRAPH_STEP_TICKS: u8 = 75;

/// The temperature column that a scaled average is recorded as: its low 16 bits.
pub open spec fn column_of(scaled_average: int) -> u16 {
    (scaled_average % 65536) as u16
}

/// What recording one tick does to the pair of histories and the tick counter:
/// a new column is committed when none is held or the counter has reached the
/// step; otherwise the newest column is overwritten.
pub open spec fn record_step(
    temps: Seq<u16>,
    valves: Seq<u16>,
    count: int,
    t: u16,
    v: u16,
) -> (Seq<u16>, Seq<u16>, int) {
    if temps.len() == 0 || count >= GRAPH_STEP_TICKS {
        (ring_push(temps, t, 128), ring_push(valves, v, 128), 1)
    } else {
        (temps.update(temps.len() - 1, t), valves.update(valves.len() - 1, v), count + 1)
    }
}

/// The pair of histories and the counter after recording each of `ticks`
/// (temperature column, valve position) in turn.
pub open spec fn record_all(
    temps: Seq<u16>,
    valves: Seq<u16>,
    count: int,
    ticks: Seq<(u16, u16)>,
) -> (Seq<u16>, Seq<u16>, int)
    decreases ticks.len(),
{
    if ticks.len() == 0 {
        (temps, valves, count)
    } else {
        let prev = record_all(temps, valves, count, ticks.drop_last());
        record_step(prev.0, prev.1, prev.2, ticks.last().0, ticks.last().1)
    }
}

/// Right after a column is committed, each of the next `GRAPH_STEP_TICKS - 1`
/// ticks only overwrites that column, with the latest tick's values.
pub proof fn lemma_decimation_overwrites(
    temps: Seq<u16>,
    valves: Seq<u16>,
    ticks: Seq<(u16, u16)>,
)
    requires
        temps.len() > 0,
        valves.len() == temps.len(),
        1 <= ticks.len() < GRAPH_STEP_TICKS,
    ensures
        record_all(temps, valves, 1, ticks) == (
            temps.update(temps.len() - 1, ticks.last().0),
            valves.update(valves.len() - 1, ticks.last().1),
            1 + ticks.len() as int,
        ),
    decreases ticks.len(),
{
    if ticks.len() > 1 {
        lemma_decimation_overwrites(temps, valves, ticks.drop_last());
        let t1 = temps.update(temps.len() - 1, ticks.last().0);
        assert(temps.update(temps.len() - 1, ticks.drop_last().last().0).update(temps.len() - 1, ticks.last().0) =~= t1);
        assert(valves.update(valves.len() - 1, ticks.drop_last().last().1).update(valves.len() - 1, ticks.last().1)
            =~= valves.update(valves.len() - 1, ticks.last().1));
    } else {
        assert(record_all(temps, valves, 1, ticks.drop_last()) == (temps, valves, 1int));
    }
}

/// Right after a column is committed, exactly `GRAPH_STEP_TICKS` more ticks
/// commit exactly one new column: the committed column ends with the values
/// of the tick before the last, and the last tick opens the new one.
pub proof fn lemma_decimation_commits_once(
    temps: Seq<u16>,
    valves: Seq<u16>,
    ticks: Seq<(u16, u16)>,
)
    requires
        temps.len() > 0,
        valves.len() == temps.len(),
        ticks.len() == GRAPH_STEP_TICKS,
    ensures
        record_all(temps, valves, 1, ticks) == (
            ring_push(temps.update(temps.len() - 1, ticks[ticks.len() - 2].0), ticks.last().0, 128),
            ring_push(valves.update(valves.len() - 1, ticks[ticks.len() - 2].1), ticks.last().1, 128),
            1int,
        ),
{
    lemma_decimation_overwrites(temps, valves, ticks.drop_last());
}

/// Temperature and valve history for the trend graphs.
pub struct HistoryRecorder {
    pub temps: ColumnRing,
    pub valves: ColumnRing,
    pub tick_cnt: u8,
}

impl HistoryRecorder {
    /// Temperature columns (scaled averages), oldest first.
    pub open spec fn temp_columns(&self) -> Seq<u16> {
        columns_of(self.temps)
    }

    /// Valve columns, oldest first.
    pub open spec fn valve_columns(&self) -> Seq<u16> {
        columns_of(self.valves)
    }

    pub open spec fn wf(&self) -> bool {
        &&& self.temp_columns().len() <= 128
        &&& self.valve_columns().len() == self.temp_columns().len()
        &&& 1 <= self.tick_cnt <= GRAPH_STEP_TICKS
    }

    /// Empty histories; the first record commits a column.
    pub fn new() -> (r: Self)
        ensures
            r.wf(),
            r.temp_columns() == Seq::<u16>::empty(),
            r.valve_columns() == Seq::<u16>::empty(),
            r.tick_cnt == GRAPH_STEP_TICKS,
    {
        HistoryRecorder { temps: ColumnRing::new(), valves: ColumnRing::new(), tick_cnt: GRAPH_STEP_TICKS }
    }

    /// Records one tick's scaled average and valve position.
    pub fn record(&mut self, scaled_average: i32, valve_pos: u16)
        requires
            old(self).wf(),
            0 <= scaled_average <= SCALED_MAX,
        ensures
            final(self).wf(),
            (final(self).temp_columns(), final(self).valve_columns(), final(self).tick_cnt as int)
                == record_step(
                old(self).temp_columns(),
                old(self).valve_columns(),
                old(self).tick_cnt as int,
                column_of(scaled_average as int),
                valve_pos,
            ),
    {
        let column: u16 = (scaled_average % 65536) as u16;
        let held = self.temps.len();
        if held == 0 || self.tick_cnt >= GRAPH_STEP_TICKS {
            self.temps.push(column);
            self.valves.push(valve_pos);
            self.tick_cnt = 1;
        } else {
            self.temps.set_newest(column);
            self.valves.set_newest(valve_pos);
            self.tick_cnt = self.tick_cnt + 1;
        }
    }
}

} // verus!

//! Espresso state snapshots and the bounded snapshot history.
//!
//! One snapshot is taken per control tick; the last few are kept so that
//! derivatives (pressure change speed, weight accumulation) can be estimated
//! from the previous reading.

use vstd::prelude::*;
use crate::pump::{
    spec_pump_flow_mg, get_pump_flow, CPS_READING_MAX, FLOW_BOUND_MG, PRESSURE_MB_MAX,
};
use crate::sensors::{Flow, FLOW_SENSOR_MAX_MG};

verus! {

/// Estimated shot weight saturates here: one million grams, far beyond any cup.
pub const WEIGHT_CAP_MG: i64 = 1_000_000_000;

/// Largest magnitude `pressure_change_speed` can reach: the full pressure
/// range in one millisecond.
pub const PCS_BOUND_MB_S: i64 = 25_000_000;

/// How many snapshots the history retains.
pub const SNAPSHOT_HISTORY_CAPACITY: usize = 16;

/// One reading of every sensor, taken at the top of a control tick.
#[derive(Clone, Copy, Debug, PartialEq, Eq, Structural)]
pub struct SensorReading {
    /// Group pressure, millibar.
    pub pressure: i64,
    /// Boiler temperature, millidegrees Celsius.
    pub boiler_temp: i64,
    /// Mains click rate, clicks per second.
    pub cps: i64,
    /// Flow-meter pair, mg/s.
    pub flow: Flow,
}

impl SensorReading {
    pub open spec fn wf(self) -> bool {
        &&& 0 <= self.pressure <= PRESSURE_MB_MAX
        &&& -1_000_000_000 <= self.boiler_temp <= 1_000_000_000
        &&& 0 <= self.cps <= CPS_READING_MAX
        &&& self.flow.wf()
    }
}

/// A timestamped read of all sensors plus derived quantities; one per tick.
#[derive(Clone, Copy, Debug, PartialEq, Eq, Structural)]
pub struct EspressoStateSnapshot {
    /// Group pressure, millibar.
    pub pressure: i64,
    /// Boiler temperature, millidegrees Celsius.
    pub boiler_temp: i64,
    /// Estimated espresso flow, mg/s (no estimator is fitted yet: zero).
    pub estimated_espresso_flow: i64,
    /// Monotonic timestamp, milliseconds.
    pub time: i64,
    /// Time since the previous snapshot, milliseconds; zero for the first.
    pub elapsed_time_from_last_read: i64,
    /// Running integral of exit flow, milligrams.
    pub estimated_weight: i64,
    /// The raw flow-meter pair, mg/s.
    pub measured_flow: Flow,
    /// Net flow through the group: enter minus exit, mg/s.
    pub espresso_flow: i64,
    /// Pressure derivative, millibar per second; zero for the first snapshot.
    pub pressure_change_speed: i64,
    /// Flow the pump model predicts at the observed click rate, mg/s.
    pub pump_flow: i64,
}

impl EspressoStateSnapshot {
    pub open spec fn wf(self) -> bool {
        &&& 0 <= self.pressure <= PRESSURE_MB_MAX
        &&& -1_000_000_000 <= self.boiler_temp <= 1_000_000_000
        &&& 0 <= self.time
        &&& 0 <= self.elapsed_time_from_last_read
        &&& 0 <= self.estimated_weight <= WEIGHT_CAP_MG
        &&& self.measured_flow.wf()
        &&& self.espresso_flow == self.measured_flow.enter - self.measured_flow.exit
        &&& -FLOW_BOUND_MG <= self.estimated_espresso_flow <= FLOW_BOUND_MG
        &&& -PCS_BOUND_MB_S <= self.pressure_change_speed <= PCS_BOUND_MB_S
        &&& -FLOW_BOUND_MG <= self.pump_flow <= FLOW_BOUND_MG
    }
}

/// Weight after one tick: the previous estimate plus the water that left
/// through the exit meter during `elapsed_ms`, saturating at the cap.
pub open spec fn spec_weight_step(prev_weight: int, exit_flow: int, elapsed_ms: int) -> int {
    let w = prev_weight + (exit_flow * elapsed_ms) / 1000;
    if w > WEIGHT_CAP_MG {
        WEIGHT_CAP_MG as int
    } else {
        w
    }
}

/// Pressure derivative in millibar per second, truncated toward zero.
pub open spec fn spec_pressure_change_speed(dp: int, elapsed_ms: int) -> int {
    if elapsed_ms <= 0 {
        0
    } else if dp >= 0 {
        (dp * 1000) / elapsed_ms
    } else {
        -((-dp * 1000) / elapsed_ms)
    }
}

/// The snapshot a reading produces, given the previous snapshot if any.
pub open spec fn spec_snapshot(
    r: SensorReading,
    now_ms: int,
    prev: Option<EspressoStateSnapshot>,
) -> EspressoStateSnapshot {
    let elapsed = match prev {
        Option::Some(p) => now_ms - p.time,
        Option::None => 0,
    };
    EspressoStateSnapshot {
        pressure: r.pressure,
        boiler_temp: r.boiler_temp,
        estimated_espresso_flow: 0,
        time: now_ms as i64,
        elapsed_time_from_last_read: elapsed as i64,
        estimated_weight: (match prev {
            Option::Some(p) => spec_weight_step(
                p.estimated_weight as int,
                r.flow.exit as int,
                elapsed,
            ),
            Option::None => 0,
        }) as i64,
        measured_flow: r.flow,
        espresso_flow: (r.flow.enter - r.flow.exit) as i64,
        pressure_change_speed: (match prev {
            Option::Some(p) => spec_pressure_change_speed(r.pressure - p.pressure, elapsed),
            Option::None => 0,
        }) as i64,
        pump_flow: spec_pump_flow_mg(r.cps as int, r.pressure as int) as i64,
    }
}

/// Ordered bounded sequence of the most recent snapshots; newest at the end.
pub struct SnapshotHistory {
    /// Oldest first, newest last.
    pub snapshots: Vec<EspressoStateSnapshot>,
    /// Bound on the length; the oldest snapshot is evicted beyond it.
    pub capacity: usize,
}

impl SnapshotHistory {
    pub open spec fn view(self) -> Seq<EspressoStateSnapshot> {
        self.snapshots@
    }

    /// Timestamps strictly increase and the weight estimate never falls from
    /// one snapshot to the next.
    pub open spec fn wf(self) -> bool {
        &&& 2 <= self.capacity <= 16
        &&& self.snapshots@.len() <= self.capacity
        &&& forall|i: int|
            0 <= i < self.snapshots@.len() ==> (#[trigger] self.snapshots@[i]).wf()
        &&& forall|i: int|
            0 <= i && i + 1 < self.snapshots@.len() ==> (#[trigger] self.snapshots@[i]).time
                < self.snapshots@[i + 1].time && self.snapshots@[i].estimated_weight
                <= self.snapshots@[i + 1].estimated_weight
    }

    pub fn len(&self) -> (n: usize)
        ensures
            n == self.view().len(),
    {
        self.snapshots.len()
    }

    /// The newest snapshot, if one exists.
    pub fn last(&self) -> (s: Option<&EspressoStateSnapshot>)
        ensures
            match s {
                Option::Some(p) => self.view().len() > 0 && *p == self.view().last(),
                Option::None => self.view().len() == 0,
            },
    {
        if self.snapshots.len() == 0 {
            Option::None
        } else {
            Option::Some(&self.snapshots[self.snapshots.len() - 1])
        }
    }

    /// Empties the history; the capacity is kept.
    pub fn clear(&mut self)
        ensures
            final (self).view().len() == 0,
            final (self).capacity == old(self).capacity,
    {
        self.snapshots.clear();
    }
}

/// An empty snapshot history at the default capacity.
pub fn init_espresso_memory_stack() -> (h: SnapshotHistory)
    ensures
        h.wf(),
        h.view().len() == 0,
        h.capacity == SNAPSHOT_HISTORY_CAPACITY,
{
    SnapshotHistory { snapshots: Vec::new(), capacity: SNAPSHOT_HISTORY_CAPACITY }
}

/// Appends a snapshot; when the history is full the oldest one is evicted.
pub fn push_snapshot(history: &mut SnapshotHistory, snapshot: EspressoStateSnapshot)
    requires
        old(history).wf(),
        snapshot.wf(),
        old(history).view().len() > 0 ==> snapshot.time > old(history).view().last().time
            && snapshot.estimated_weight >= old(history).view().last().estimated_weight,
    ensures
        final (history).wf(),
        final (history).capacity == old(history).capacity,
        final (history).view() == if old(history).view().len() < old(history).capacity {
            old(history).view().push(snapshot)
        } else {
            old(history).view().subrange(1, old(history).view().len() as int).push(snapshot)
        },
{
    let ghost old_s = history.snapshots@;
    let ghost evict = history.snapshots@.len() >= history.capacity;
    if history.snapshots.len() >= history.capacity {
        history.snapshots.remove(0);
    }
    history.snapshots.push(snapshot);
    proof {
        let s = history.snapshots@;
        if evict {
            assert(s.len() == old_s.len());
            assert(forall|i: int| 0 <= i < s.len() - 1 ==> (#[trigger] s[i]) == old_s[i + 1]);
            assert(s =~= old_s.subrange(1, old_s.len() as int).push(snapshot));
        } else {
            assert(s.len() == old_s.len() + 1);
            assert(forall|i: int| 0 <= i < s.len() - 1 ==> (#[trigger] s[i]) == old_s[i]);
            assert(s =~= old_s.push(snapshot));
        }
        assert(s[s.len() - 1] == snapshot);
        assert forall|i: int| 0 <= i < s.len() implies (#[trigger] s[i]).wf() by {
            if i < s.len() - 1 {
                if evict {
                    assert(s[i] == old_s[i + 1]);
                } else {
                    assert(s[i] == old_s[i]);
                }
            }
        }
        assert forall|i: int|
            0 <= i && i + 1 < s.len() implies ((#[trigger] s[i]).time < s[i + 1].time
            && s[i].estimated_weight <= s[i + 1].estimated_weight) by {
            let last = old_s.len() - 1;
            if evict {
                assert(s[i] == old_s[i + 1]);
                if i + 1 < s.len() - 1 {
                    assert(s[i + 1] == old_s[i + 2]);
                } else {
                    assert(s[i + 1] == snapshot);
                    assert(old_s[i + 1] == old_s[last]);
                }
            } else {
                assert(s[i] == old_s[i]);
                if i + 1 < s.len() - 1 {
                    assert(s[i + 1] == old_s[i + 1]);
                } else {
                    assert(s[i + 1] == snapshot);
                    assert(old_s[i] == old_s[last]);
                }
            }
        }
    }
}


/// Discards the newest snapshot, if any.
pub fn pop_snapshot(history: &mut SnapshotHistory)
    requires
        old(history).wf(),
    ensures
        final (history).wf(),
        final (history).capacity == old(history).capacity,
        final (history).view() == if old(history).view().len() == 0 {
            old(history).view()
        } else {
            old(history).view().drop_last()
        },
{
    if history.snapshots.len() > 0 {
        let n = history.snapshots.len();
        history.snapshots.remove(n - 1);
        proof {
            let old_s = old(history).view();
            let s = history.snapshots@;
            assert(s.len() == old_s.len() - 1);
            assert(forall|i: int| 0 <= i < s.len() ==> (#[trigger] s[i]) == old_s[i]);
            assert(s =~= old_s.drop_last());
            assert forall|i: int| 0 <= i < s.len() implies (#[trigger] s[i]).wf() by {
                assert(s[i] == old_s[i]);
            }
            assert forall|i: int|
                0 <= i && i + 1 < s.len() implies ((#[trigger] s[i]).time < s[i + 1].time
                && s[i].estimated_weight <= s[i + 1].estimated_weight) by {
                assert(s[i] == old_s[i]);
                assert(s[i + 1] == old_s[i + 1]);
            }
        }
    }
}

/// Milliseconds since the newest snapshot; zero when there is none.
pub fn calculate_elapsed_time_from_last_snapshot(
    history: &SnapshotHistory,
    current_time_ms: i64,
) -> (dt: i64)
    requires
        history.wf(),
        history.view().len() > 0 ==> current_time_ms >= history.view().last().time,
    ensures
        dt == if history.view().len() == 0 {
            0
        } else {
            current_time_ms - history.view().last().time
        },
        dt >= 0,
{
    match history.last() {
        Option::None => 0,
        Option::Some(prev) => current_time_ms - prev.time,
    }
}

/// Pressure derivative against the previous snapshot, millibar per second.
pub fn calculate_pressure_change_speed(
    current_pressure: i64,
    previous_pressure: i64,
    elapsed_ms: i64,
) -> (pcs: i64)
    requires
        0 <= current_pressure <= PRESSURE_MB_MAX,
        0 <= previous_pressure <= PRESSURE_MB_MAX,
    ensures
        pcs == spec_pressure_change_speed(
            current_pressure - previous_pressure,
            elapsed_ms as int,
        ),
        -PCS_BOUND_MB_S <= pcs <= PCS_BOUND_MB_S,
{
    if elapsed_ms <= 0 {
        0
    } else if current_pressure >= previous_pressure {
        let num: i64 = (current_pressure - previous_pressure) * 1000;
        let q: i64 = num / elapsed_ms;
        proof {
            vstd::arithmetic::div_mod::lemma_div_pos_is_pos(num as int, elapsed_ms as int);
            vstd::arithmetic::div_mod::lemma_div_is_ordered(num as int, 25_000_000, elapsed_ms as int);
            vstd::arithmetic::div_mod::lemma_div_nonincreasing(num as int, elapsed_ms as int);
        }
        q
    } else {
        let num: i64 = (previous_pressure - current_pressure) * 1000;
        let q: i64 = num / elapsed_ms;
        proof {
            vstd::arithmetic::div_mod::lemma_div_pos_is_pos(num as int, elapsed_ms as int);
            vstd::arithmetic::div_mod::lemma_div_is_ordered(num as int, 25_000_000, elapsed_ms as int);
            vstd::arithmetic::div_mod::lemma_div_nonincreasing(num as int, elapsed_ms as int);
        }
        -q
    }
}

/// Weight after one tick of exit flow, saturating at the cap.
pub fn calculated_weight(prev_weight: i64, exit_flow: i64, elapsed_ms: i64) -> (w: i64)
    requires
        0 <= prev_weight <= WEIGHT_CAP_MG,
        0 <= exit_flow <= FLOW_SENSOR_MAX_MG,
        0 <= elapsed_ms,
    ensures
        w == spec_weight_step(prev_weight as int, exit_flow as int, elapsed_ms as int),
        prev_weight <= w <= WEIGHT_CAP_MG,
{
    proof {
        assert(0 <= exit_flow * elapsed_ms <= 1_000_000 * 9_223_372_036_854_775_807i128)
            by (nonlinear_arith)
            requires
                0 <= exit_flow <= 1_000_000,
                0 <= elapsed_ms <= 9_223_372_036_854_775_807i128,
        ;
        vstd::arithmetic::div_mod::lemma_div_pos_is_pos((exit_flow * elapsed_ms) as int, 1000);
        vstd::arithmetic::div_mod::lemma_div_nonincreasing((exit_flow * elapsed_ms) as int, 1000);
    }
    let add: i128 = ((exit_flow as i128) * (elapsed_ms as i128)) / 1000;
    let w: i128 = (prev_weight as i128) + add;
    if w > WEIGHT_CAP_MG as i128 {
        WEIGHT_CAP_MG
    } else {
        w as i64
    }
}

impl EspressoStateSnapshot {
    /// Builds the snapshot for one control tick from a sensor reading, the
    /// current monotonic time, and the snapshot history.
    pub fn get_state(
        reading: &SensorReading,
        now_ms: i64,
        history: &SnapshotHistory,
    ) -> (s: EspressoStateSnapshot)
        requires
            reading.wf(),
            history.wf(),
            0 <= now_ms,
            history.view().len() > 0 ==> now_ms > history.view().last().time,
        ensures
            s == spec_snapshot(
                *reading,
                now_ms as int,
                if history.view().len() == 0 {
                    Option::<EspressoStateSnapshot>::None
                } else {
                    Option::Some(history.view().last())
                },
            ),
            s.wf(),
            s.time == now_ms,
            history.view().len() > 0 ==> s.time > history.view().last().time
                && s.estimated_weight >= history.view().last().estimated_weight,
            history.view().len() == 0 ==> s.elapsed_time_from_last_read == 0
                && s.pressure_change_speed == 0 && s.estimated_weight == 0,
    {
        let elapsed = calculate_elapsed_time_from_last_snapshot(history, now_ms);
        let (weight, pcs): (i64, i64) = match history.last() {
            Option::None => (0, 0),
            Option::Some(prev) => (
                calculated_weight(prev.estimated_weight, reading.flow.exit, elapsed),
                calculate_pressure_change_speed(reading.pressure, prev.pressure, elapsed),
            ),
        };
        let pump_flow = get_pump_flow(reading.cps, reading.pressure);
        EspressoStateSnapshot {
            pressure: reading.pressure,
            boiler_temp: reading.boiler_temp,
            estimated_espresso_flow: 0,
            time: now_ms,
            elapsed_time_from_last_read: elapsed,
            estimated_weight: weight,
            measured_flow: reading.flow,
            espresso_flow: reading.flow.enter - reading.flow.exit,
            pressure_change_speed: pcs,
            pump_flow,
        }
    }
}

/// Two snapshots anywhere in a well-formed history keep their order: the
/// later one has a strictly greater timestamp and at least as much estimated
/// weight.
pub proof fn lemma_history_ordered(h: SnapshotHistory, i: int, j: int)
    requires
        h.wf(),
        0 <= i < j < h.view().len(),
    ensures
        h.view()[i].time < h.view()[j].time,
        h.view()[i].estimated_weight <= h.view()[j].estimated_weight,
    decreases j - i,
{
    if j == i + 1 {
        assert(h.snapshots@[i].time < h.snapshots@[i + 1].time);
    } else {
        lemma_history_ordered(h, i, j - 1);
        assert(h.snapshots@[j - 1].time < h.snapshots@[j].time);
    }
}

} // verus!

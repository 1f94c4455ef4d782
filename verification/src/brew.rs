//! The brew controller: an `Idle <-> Brewing` state machine driven by the
//! brew trigger, the shot profile and the sensor snapshots.
//!
//! One call of [`BrewSession::tick`] is one control tick.  The caller reads
//! the sensors and the trigger, hands them in as plain values, and applies
//! the returned pump and valve commands to the hardware.

use vstd::prelude::*;
use crate::espresso::ShotConfig;
use crate::machine::MachineMode;
use crate::pump::{set_pump_off, set_pump_pressure, spec_pump_pressure_raw, PUMP_RANGE};
use crate::state::{
    init_espresso_memory_stack, push_snapshot, EspressoStateSnapshot, SensorReading,
    SnapshotHistory, spec_snapshot,
};

verus! {

/// The brew state machine's two states.
#[derive(Clone, Copy, Debug, PartialEq, Eq, Structural)]
pub enum BrewState {
    Idle,
    Brewing,
}

/// What one tick asks the hardware to do.
#[derive(Clone, Copy, Debug, PartialEq, Eq)]
pub struct TickOutcome {
    /// Raw PSM value to command; `None` leaves the pump as it is (a skipped
    /// tick after a single sensor error).
    pub pump_raw: Option<u8>,
    /// Whether the three-way valve should be open after this tick.
    pub valve_open: bool,
    /// Whether a snapshot was taken and appended to the history.
    pub snapshot_taken: bool,
}

/// Whether a tick that begins in `state` enters a shot: the machine is idle,
/// the trigger is asserted and the machine is in manual-brew mode.
pub open spec fn spec_enters(state: BrewState, trigger: bool, mode: MachineMode) -> bool {
    state == BrewState::Idle && trigger && mode == MachineMode::ManualBrew
}

/// Whether a freshly built snapshot ends the shot: the estimated weight
/// reached the weight override, or the shot ran past the time override.
pub open spec fn spec_exit_condition(
    shot: ShotConfig,
    s: EspressoStateSnapshot,
    start_ms: int,
    now_ms: int,
) -> bool {
    ||| match shot.override_final_weight {
        Option::Some(w) => s.estimated_weight >= w,
        Option::None => false,
    }
    ||| match shot.override_shot_time {
        Option::Some(t) => now_ms - start_ms >= t * 1000,
        Option::None => false,
    }
}

/// State, error counter and pump command after a tick whose sensor read
/// failed: `(next_state, next_consecutive_errors, pump_command)`, with
/// `None` for "leave the pump as it is".
pub open spec fn spec_error_step(
    state: BrewState,
    consecutive_errors: int,
    trigger: bool,
    mode: MachineMode,
) -> (BrewState, int, Option<int>) {
    if state == BrewState::Idle && !spec_enters(state, trigger, mode) {
        (BrewState::Idle, 0, Option::Some(0int))
    } else if state == BrewState::Idle {
        (BrewState::Brewing, 1, Option::None)
    } else if !trigger {
        (BrewState::Idle, 0, Option::Some(0int))
    } else if consecutive_errors >= 1 {
        (BrewState::Idle, 0, Option::Some(0int))
    } else {
        (BrewState::Brewing, 1, Option::None)
    }
}

/// One brew session: the state machine plus the snapshot history it owns.
pub struct BrewSession {
    pub state: BrewState,
    /// Sensor errors seen in a row during the current shot; two force idle.
    pub consecutive_errors: u8,
    /// When the current shot began, milliseconds.
    pub shot_start_time: i64,
    /// Snapshots of the current shot, oldest first.
    pub history: SnapshotHistory,
}

impl BrewSession {
    pub open spec fn wf(self) -> bool {
        &&& self.history.wf()
        &&& self.consecutive_errors <= 1
        &&& 0 <= self.shot_start_time
        &&& (self.state == BrewState::Idle ==> self.consecutive_errors == 0)
    }

    /// A fresh, idle session with an empty history.
    pub fn new() -> (s: BrewSession)
        ensures
            s.wf(),
            s.state == BrewState::Idle,
            s.history.view().len() == 0,
    {
        BrewSession {
            state: BrewState::Idle,
            consecutive_errors: 0,
            shot_start_time: 0,
            history: init_espresso_memory_stack(),
        }
    }

    /// The snapshot this tick builds, given the reading: against an empty
    /// history when a shot is entered, else against the newest snapshot.
    pub open spec fn spec_tick_snapshot(
        self,
        entering: bool,
        r: SensorReading,
        now_ms: int,
    ) -> EspressoStateSnapshot {
        spec_snapshot(
            r,
            now_ms,
            if entering || self.history.view().len() == 0 {
                Option::None
            } else {
                Option::Some(self.history.view().last())
            },
        )
    }

    /// One control tick.
    ///
    /// `trigger` is the brew button, `reading` the sensor read of this tick
    /// (`None` when any sensor failed), `now_ms` the monotonic clock.  The
    /// returned outcome carries the pump and valve commands; the session
    /// moves according to the brew state machine:
    ///
    /// * idle stays idle with the pump off until the trigger is asserted in
    ///   manual-brew mode; entering a shot clears the history and starts the
    ///   shot timer;
    /// * while brewing, each successful snapshot is appended to the history
    ///   and the pressure controller commands the pump from the shot
    ///   profile, unless an override terminal condition ends the shot;
    /// * releasing the trigger ends the shot: valve closed, pump off, one
    ///   final snapshot when the read succeeded;
    /// * one failed read skips actuation; a second in a row fails safe to
    ///   idle with the pump off.
    pub fn tick(
        &mut self,
        trigger: bool,
        mode: MachineMode,
        shot: &ShotConfig,
        reading: Option<SensorReading>,
        now_ms: i64,
    ) -> (out: TickOutcome)
        requires
            old(self).wf(),
            shot.wf(),
            match reading {
                Option::Some(r) => r.wf(),
                Option::None => true,
            },
            0 <= now_ms,
            old(self).history.view().len() > 0 ==> now_ms > old(self).history.view().last().time,
        ensures
            final (self).wf(),
            final (self).history.capacity == old(self).history.capacity,
            out.valve_open == (final (self).state == BrewState::Brewing),
            match out.pump_raw {
                Option::Some(v) => v <= PUMP_RANGE,
                Option::None => true,
            },
            // Idle tick without entering: nothing happens, pump held off.
            (old(self).state == BrewState::Idle && !spec_enters(
                old(self).state,
                trigger,
                mode,
            )) ==> final (self).state == BrewState::Idle && out.pump_raw
                == Option::Some(0u8) && !out.snapshot_taken && final (self).history
                == old(self).history,
            // Entering a shot starts the timer on a cleared history.
            spec_enters(old(self).state, trigger, mode) ==> final (self).shot_start_time
                == now_ms,
            // Trigger released while brewing: the shot ends.
            (old(self).state == BrewState::Brewing && !trigger) ==> final (self).state
                == BrewState::Idle && out.pump_raw == Option::Some(0u8) && !out.valve_open,
            // A failed read moves exactly as the error automaton says.
            reading.is_none() ==> ({
                let (st, errs, cmd) = spec_error_step(
                    old(self).state,
                    old(self).consecutive_errors as int,
                    trigger,
                    mode,
                );
                &&& final (self).state == st
                &&& final (self).consecutive_errors == errs
                &&& out.pump_raw == match cmd {
                    Option::Some(v) => Option::Some(v as u8),
                    Option::None => Option::<u8>::None,
                }
                &&& !out.snapshot_taken
            }),
            // A successful read during an active shot takes a snapshot …
            ((old(self).state == BrewState::Brewing || spec_enters(
                old(self).state,
                trigger,
                mode,
            )) && trigger && reading.is_some()) ==> ({
                let entering = spec_enters(old(self).state, trigger, mode);
                let s = old(self).spec_tick_snapshot(entering, reading.unwrap(), now_ms as int);
                let start = if entering {
                    now_ms as int
                } else {
                    old(self).shot_start_time as int
                };
                &&& out.snapshot_taken
                &&& final (self).consecutive_errors == 0
                &&& final (self).history.view().len() > 0
                &&& final (self).history.view().last() == s
                &&& (if spec_exit_condition(*shot, s, start, now_ms as int) {
                    // … and ends the shot when an override condition is met …
                    final (self).state == BrewState::Idle && out.pump_raw == Option::Some(0u8)
                } else {
                    // … else commands the pressure controller's duty.
                    final (self).state == BrewState::Brewing && out.pump_raw == Option::Some(
                        spec_pump_pressure_raw(
                            shot.pressure as int,
                            shot.flow_restriction as int,
                            s,
                        ) as u8,
                    )
                })
            }),
    {
        let entering = match self.state {
            BrewState::Idle => trigger && matches!(mode, MachineMode::ManualBrew),
            BrewState::Brewing => false,
        };
        let was_idle = matches!(self.state, BrewState::Idle);
        if was_idle && !entering {
            return TickOutcome {
                pump_raw: Option::Some(set_pump_off()),
                valve_open: false,
                snapshot_taken: false,
            };
        }
        if entering {
            self.history.clear();
            self.shot_start_time = now_ms;
            self.state = BrewState::Brewing;
            self.consecutive_errors = 0;
        }
        if !trigger {
            // The trigger was released: close the valve, stop the pump, and
            // emit one final snapshot when the sensors allowed one.
            let taken = match reading {
                Option::Some(r) => {
                    let s = EspressoStateSnapshot::get_state(&r, now_ms, &self.history);
                    push_snapshot(&mut self.history, s);
                    true
                },
                Option::None => false,
            };
            self.state = BrewState::Idle;
            self.consecutive_errors = 0;
            return TickOutcome {
                pump_raw: Option::Some(set_pump_off()),
                valve_open: false,
                snapshot_taken: taken,
            };
        }
        match reading {
            Option::None => {
                if self.consecutive_errors >= 1 {
                    // Second failed read in a row: fail safe.
                    self.state = BrewState::Idle;
                    self.consecutive_errors = 0;
                    TickOutcome {
                        pump_raw: Option::Some(set_pump_off()),
                        valve_open: false,
                        snapshot_taken: false,
                    }
                } else {
                    self.consecutive_errors = 1;
                    TickOutcome {
                        pump_raw: Option::None,
                        valve_open: true,
                        snapshot_taken: false,
                    }
                }
            },
            Option::Some(r) => {
                self.consecutive_errors = 0;
                let s = EspressoStateSnapshot::get_state(&r, now_ms, &self.history);
                push_snapshot(&mut self.history, s);
                let over_weight = match shot.override_final_weight {
                    Option::Some(w) => s.estimated_weight >= w,
                    Option::None => false,
                };
                let over_time = match shot.override_shot_time {
                    Option::Some(t) => now_ms - self.shot_start_time >= (t as i64) * 1000,
                    Option::None => false,
                };
                if over_weight || over_time {
                    self.state = BrewState::Idle;
                    TickOutcome {
                        pump_raw: Option::Some(set_pump_off()),
                        valve_open: false,
                        snapshot_taken: true,
                    }
                } else {
                    let raw = set_pump_pressure(shot.pressure, shot.flow_restriction, &s);
                    TickOutcome {
                        pump_raw: Option::Some(raw),
                        valve_open: true,
                        snapshot_taken: true,
                    }
                }
            },
        }
    }
}

/// Two sensor errors in a row during a shot fail safe: from any well-formed
/// brewing state whose previous tick succeeded, the first failed read keeps
/// the shot alive without touching the pump, and the second ends it — idle,
/// pump commanded off.
pub proof fn lemma_two_errors_fail_safe(trigger1: bool, trigger2: bool, mode: MachineMode)
    requires
        trigger1,
        trigger2,
    ensures
        ({
            let (st1, errs1, cmd1) = spec_error_step(BrewState::Brewing, 0, trigger1, mode);
            let (st2, errs2, cmd2) = spec_error_step(st1, errs1, trigger2, mode);
            st1 == BrewState::Brewing && cmd1.is_none() && st2 == BrewState::Idle && cmd2
                == Option::Some(0int)
        }),
{
}

/// A failed read after an earlier error in the same shot ends it at once.
pub proof fn lemma_error_after_error_fails_safe(trigger: bool, mode: MachineMode)
    requires
        trigger,
    ensures
        ({
            let (st, errs, cmd) = spec_error_step(BrewState::Brewing, 1, trigger, mode);
            st == BrewState::Idle && errs == 0 && cmd == Option::Some(0int)
        }),
{
}

} // verus!

use espresso_core::brew::{BrewSession, BrewState};
use espresso_core::espresso::{init_espresso_config, InitialisationType, ShotConfig};
use espresso_core::machine::MachineMode;
use espresso_core::sensors::Flow;
use espresso_core::state::SensorReading;

fn reading(pressure: i64, cps: i64, exit: i64) -> SensorReading {
    SensorReading { pressure, boiler_temp: 92_500, cps, flow: Flow { enter: exit, exit } }
}

fn stock_shot() -> ShotConfig {
    ShotConfig::default()
}

#[test]
fn idle_without_trigger_keeps_pump_off() {
    let mut s = BrewSession::new();
    let out = s.tick(false, MachineMode::ManualBrew, &stock_shot(), Some(reading(0, 40, 0)), 1_000);
    assert_eq!(s.state, BrewState::Idle);
    assert_eq!(out.pump_raw, Some(0));
    assert!(!out.valve_open);
    assert!(!out.snapshot_taken);
}

#[test]
fn other_modes_act_as_idle() {
    let mut s = BrewSession::new();
    let out = s.tick(true, MachineMode::Steam, &stock_shot(), Some(reading(0, 40, 0)), 1_000);
    assert_eq!(s.state, BrewState::Idle);
    assert_eq!(out.pump_raw, Some(0));
}

#[test]
fn pressure_series_drives_the_expected_raw_series() {
    // Stock shot: 9 bar target, 2 g/s flow restriction; the pressure climbs,
    // overshoots, then settles while decaying.
    let mut s = BrewSession::new();
    let shot = stock_shot();
    let series: [i64; 6] = [0, 2_000, 5_000, 8_000, 9_100, 9_000];
    let expected: [u8; 6] = [15, 19, 27, 32, 0, 16];
    for (k, p) in series.iter().enumerate() {
        let now = 1_000 * (k as i64 + 1);
        let out = s.tick(true, MachineMode::ManualBrew, &shot, Some(reading(*p, 40, 0)), now);
        assert_eq!(s.state, BrewState::Brewing);
        assert!(out.valve_open);
        assert_eq!(out.pump_raw, Some(expected[k]), "tick {k}");
    }
}

#[test]
fn releasing_the_trigger_ends_the_shot() {
    let mut s = BrewSession::new();
    let shot = stock_shot();
    for k in 0..3i64 {
        let out = s.tick(
            true,
            MachineMode::ManualBrew,
            &shot,
            Some(reading(2_000 * (k + 1), 40, 0)),
            1_000 * (k + 1),
        );
        assert_eq!(s.state, BrewState::Brewing);
        assert!(out.valve_open);
    }
    let out = s.tick(false, MachineMode::ManualBrew, &shot, Some(reading(8_000, 40, 0)), 4_000);
    assert_eq!(s.state, BrewState::Idle);
    assert_eq!(out.pump_raw, Some(0));
    assert!(!out.valve_open);
}

#[test]
fn weight_override_ends_the_shot() {
    // A 36 g override with a steady 2 g/s exit flow: the estimate grows by
    // 2 g per one-second tick and reaches 36 g on the nineteenth snapshot,
    // eighteen seconds into the shot.
    let mut s = BrewSession::new();
    let mut shot = stock_shot();
    shot.override_final_weight = Some(36_000);
    let mut ended_at: Option<i64> = None;
    for k in 0..25i64 {
        let now = 1_000 * (k + 1);
        let out = s.tick(true, MachineMode::ManualBrew, &shot, Some(reading(9_000, 40, 2_000)), now);
        if s.state == BrewState::Idle {
            assert_eq!(out.pump_raw, Some(0));
            assert!(!out.valve_open);
            ended_at = Some(now);
            break;
        }
    }
    assert_eq!(ended_at, Some(19_000));
    let last = s.history.snapshots.last().unwrap();
    assert!(last.estimated_weight >= 36_000 && last.estimated_weight <= 38_000);
}

#[test]
fn time_override_ends_the_shot() {
    let mut s = BrewSession::new();
    let mut shot = stock_shot();
    shot.override_shot_time = Some(5);
    let mut ended_at: Option<i64> = None;
    for k in 0..10i64 {
        let now = 1_000 * (k + 1);
        let out = s.tick(true, MachineMode::ManualBrew, &shot, Some(reading(7_000, 40, 0)), now);
        if s.state == BrewState::Idle {
            assert_eq!(out.pump_raw, Some(0));
            ended_at = Some(now);
            break;
        }
    }
    // The shot began at the first tick; five seconds later it ends.
    assert_eq!(ended_at, Some(6_000));
}

#[test]
fn two_sensor_errors_fail_safe_to_idle() {
    let mut s = BrewSession::new();
    let shot = stock_shot();
    s.tick(true, MachineMode::ManualBrew, &shot, Some(reading(4_000, 40, 0)), 1_000);
    assert_eq!(s.state, BrewState::Brewing);
    // First failed read: the tick is skipped, the shot stays alive.
    let out1 = s.tick(true, MachineMode::ManualBrew, &shot, None, 2_000);
    assert_eq!(s.state, BrewState::Brewing);
    assert_eq!(out1.pump_raw, None);
    // Second in a row: pump off, back to idle.
    let out2 = s.tick(true, MachineMode::ManualBrew, &shot, None, 3_000);
    assert_eq!(s.state, BrewState::Idle);
    assert_eq!(out2.pump_raw, Some(0));
    assert!(!out2.valve_open);
    // The next trigger re-enters a shot.
    let out3 = s.tick(true, MachineMode::ManualBrew, &shot, Some(reading(4_000, 40, 0)), 4_000);
    assert_eq!(s.state, BrewState::Brewing);
    assert!(out3.valve_open);
}

#[test]
fn single_error_then_recovery_keeps_brewing() {
    let mut s = BrewSession::new();
    let shot = stock_shot();
    s.tick(true, MachineMode::ManualBrew, &shot, Some(reading(4_000, 40, 0)), 1_000);
    s.tick(true, MachineMode::ManualBrew, &shot, None, 2_000);
    let out = s.tick(true, MachineMode::ManualBrew, &shot, Some(reading(5_000, 40, 0)), 3_000);
    assert_eq!(s.state, BrewState::Brewing);
    assert!(out.pump_raw.is_some());
    // Another lone error later still does not end the shot.
    let out2 = s.tick(true, MachineMode::ManualBrew, &shot, None, 4_000);
    assert_eq!(s.state, BrewState::Brewing);
    assert_eq!(out2.pump_raw, None);
}

#[test]
fn entering_a_shot_clears_the_history_and_resets_weight() {
    let mut s = BrewSession::new();
    let shot = stock_shot();
    for k in 0..3i64 {
        s.tick(
            true,
            MachineMode::ManualBrew,
            &shot,
            Some(reading(9_000, 40, 2_000)),
            1_000 * (k + 1),
        );
    }
    assert!(s.history.snapshots.last().unwrap().estimated_weight > 0);
    s.tick(false, MachineMode::ManualBrew, &shot, None, 4_000);
    assert_eq!(s.state, BrewState::Idle);
    // A fresh shot starts from an empty history and zero weight.
    s.tick(true, MachineMode::ManualBrew, &shot, Some(reading(1_000, 40, 2_000)), 5_000);
    assert_eq!(s.history.snapshots.len(), 1);
    assert_eq!(s.history.snapshots[0].estimated_weight, 0);
}

#[test]
fn boot_espresso_config() {
    let c = init_espresso_config();
    assert_eq!(c.initialisation_type, InitialisationType::AnalogButton);
    assert_eq!(c._shot_config, ShotConfig::default());
    assert_eq!(c._shot_config.pressure, 9_000);
    assert_eq!(c._shot_config.flow_restriction, 2_000);
    assert_eq!(c._shot_config.grains_weight_in, 16_000);
    assert_eq!(c._shot_config.espresso_yield, Some(2_000));
    assert_eq!(c._shot_config.override_final_weight, None);
    assert_eq!(c._shot_config.override_shot_time, None);
}

use espresso_core::psm::{calculate_cps, ZeroCrossingCounter};
use espresso_core::sensors::{
    calculate_espresso_flow, convert_volt_to_pressure, read_flow, Flow,
};
use espresso_core::state::{
    calculate_elapsed_time_from_last_snapshot, calculate_pressure_change_speed,
    calculated_weight, init_espresso_memory_stack, pop_snapshot, push_snapshot,
    EspressoStateSnapshot, SensorReading, WEIGHT_CAP_MG,
};

fn reading(pressure: i64, cps: i64, exit: i64) -> SensorReading {
    SensorReading { pressure, boiler_temp: 92_500, cps, flow: Flow { enter: exit, exit } }
}

#[test]
fn adc_conversion_endpoints() {
    // Full scale reads just over 22 bar; the offset ninth reads zero.
    assert_eq!(convert_volt_to_pressure(4_095), 22_222);
    assert_eq!(convert_volt_to_pressure(455), 0);
    assert_eq!(convert_volt_to_pressure(0), 0);
    // Mid scale: (2048/4095 - 1/9) * 25000, rounded.
    assert_eq!(convert_volt_to_pressure(2_048), 9_725);
}

#[test]
fn flow_meters_read_zero_on_this_build() {
    let f = read_flow();
    assert_eq!(f.enter, 0);
    assert_eq!(f.exit, 0);
    assert_eq!(calculate_espresso_flow(&Flow { enter: 2_500, exit: 1_000 }), 1_500);
}

#[test]
fn cps_measurement_rounds_the_ratio() {
    // 6 edges in 100 ms is 60 per second: a 60 Hz mains.
    assert_eq!(calculate_cps(6, 100), 60);
    // 5 edges in 100 ms: 50 per second.
    assert_eq!(calculate_cps(5, 100), 50);
    // 7 edges in 150 ms: 46.67, rounded to 47.
    assert_eq!(calculate_cps(7, 150), 47);
    // An empty window reports zero, as does a zero-length one.
    assert_eq!(calculate_cps(0, 100), 0);
    assert_eq!(calculate_cps(7, 0), 0);
}

#[test]
fn zero_crossing_counter_counts_and_resets() {
    let mut c = ZeroCrossingCounter::new();
    for _ in 0..6 {
        c.record_click();
    }
    assert_eq!(c.take(), 6);
    assert_eq!(c.take(), 0);
}

#[test]
fn first_snapshot_has_no_derivatives() {
    let h = init_espresso_memory_stack();
    let s = EspressoStateSnapshot::get_state(&reading(1_500, 40, 0), 5_000, &h);
    assert_eq!(s.elapsed_time_from_last_read, 0);
    assert_eq!(s.pressure_change_speed, 0);
    assert_eq!(s.estimated_weight, 0);
    assert_eq!(s.time, 5_000);
    assert_eq!(s.pressure, 1_500);
}

#[test]
fn second_snapshot_measures_elapsed_time_and_derivative() {
    let mut h = init_espresso_memory_stack();
    let s1 = EspressoStateSnapshot::get_state(&reading(2_000, 40, 0), 1_000, &h);
    push_snapshot(&mut h, s1);
    let s2 = EspressoStateSnapshot::get_state(&reading(3_000, 40, 0), 3_000, &h);
    assert_eq!(s2.elapsed_time_from_last_read, 2_000);
    // One bar up over two seconds: half a bar per second.
    assert_eq!(s2.pressure_change_speed, 500);
}

#[test]
fn falling_pressure_gives_a_negative_derivative() {
    assert_eq!(calculate_pressure_change_speed(2_000, 3_000, 2_000), -500);
    assert_eq!(calculate_pressure_change_speed(3_000, 2_000, 2_000), 500);
    assert_eq!(calculate_pressure_change_speed(3_000, 2_000, 0), 0);
}

#[test]
fn weight_integrates_exit_flow() {
    // 2 g/s over one second adds two grams.
    assert_eq!(calculated_weight(10_000, 2_000, 1_000), 12_000);
    // The estimate saturates at its cap instead of overflowing.
    assert_eq!(calculated_weight(WEIGHT_CAP_MG, 2_000, 10_000), WEIGHT_CAP_MG);
    let mut h = init_espresso_memory_stack();
    let s1 = EspressoStateSnapshot::get_state(&reading(9_000, 40, 2_000), 1_000, &h);
    push_snapshot(&mut h, s1);
    let s2 = EspressoStateSnapshot::get_state(&reading(9_000, 40, 2_000), 2_000, &h);
    assert_eq!(s2.estimated_weight, 2_000);
}

#[test]
fn history_keeps_time_order_and_weight_monotone() {
    let mut h = init_espresso_memory_stack();
    for k in 0..5i64 {
        let s = EspressoStateSnapshot::get_state(&reading(8_000, 40, 2_000), 1_000 * (k + 1), &h);
        push_snapshot(&mut h, s);
    }
    for k in 1..5usize {
        assert!(h.snapshots[k - 1].time < h.snapshots[k].time);
        assert!(h.snapshots[k - 1].estimated_weight <= h.snapshots[k].estimated_weight);
    }
}

#[test]
fn history_evicts_the_oldest_beyond_capacity() {
    let mut h = init_espresso_memory_stack();
    for k in 0..20i64 {
        let s = EspressoStateSnapshot::get_state(&reading(8_000, 40, 0), 1_000 * (k + 1), &h);
        push_snapshot(&mut h, s);
    }
    assert_eq!(h.snapshots.len(), 16);
    // The four oldest are gone; the newest survives at the end.
    assert_eq!(h.snapshots[0].time, 5_000);
    assert_eq!(h.snapshots[15].time, 20_000);
}

#[test]
fn pop_discards_the_newest() {
    let mut h = init_espresso_memory_stack();
    let s1 = EspressoStateSnapshot::get_state(&reading(8_000, 40, 0), 1_000, &h);
    push_snapshot(&mut h, s1);
    let s2 = EspressoStateSnapshot::get_state(&reading(8_000, 40, 0), 2_000, &h);
    push_snapshot(&mut h, s2);
    pop_snapshot(&mut h);
    assert_eq!(h.snapshots.len(), 1);
    assert_eq!(h.snapshots[0].time, 1_000);
    pop_snapshot(&mut h);
    pop_snapshot(&mut h);
    assert_eq!(h.snapshots.len(), 0);
}

#[test]
fn elapsed_time_from_empty_history_is_zero() {
    let h = init_espresso_memory_stack();
    assert_eq!(calculate_elapsed_time_from_last_snapshot(&h, 9_999), 0);
}

use espresso_core::pump::{
    get_clicks_per_second_for_flow, get_pump_flow, get_pump_flow_per_click, get_pump_pct,
    pump_init, set_pump_flow, set_pump_full_on, set_pump_off, set_pump_pressure,
    set_pump_to_raw_value, PumpConfig, MAX_PUMP_CLICKS_PER_SECOND, PUMP_RANGE,
};
use espresso_core::sensors::Flow;
use espresso_core::state::EspressoStateSnapshot;

fn snapshot(pressure: i64, pump_flow: i64, pressure_change_speed: i64) -> EspressoStateSnapshot {
    EspressoStateSnapshot {
        pressure,
        boiler_temp: 90_000,
        estimated_espresso_flow: 0,
        time: 1_000,
        elapsed_time_from_last_read: 0,
        estimated_weight: 0,
        measured_flow: Flow { enter: 0, exit: 0 },
        espresso_flow: 0,
        pressure_change_speed,
        pump_flow,
    }
}

#[test]
fn fpc_exact_values() {
    // 9 bar: a little under 110 mg per click.
    assert_eq!(get_pump_flow_per_click(9_000), 109_944_000_000_000_000);
    // Below the clamp the curve is evaluated at 10 millibar.
    assert_eq!(get_pump_flow_per_click(5), get_pump_flow_per_click(10));
    assert_eq!(get_pump_flow_per_click(10), 269_711_820_821_460_000);
    // Past its zero crossing the curve goes negative.
    assert!(get_pump_flow_per_click(12_000) < 0);
}

#[test]
fn fpc_positive_and_decreasing_over_operating_range() {
    // Sampled version of the monotonicity and positivity invariant.
    let mut prev = get_pump_flow_per_click(100);
    for mb in (200..=11_500).step_by(100) {
        let cur = get_pump_flow_per_click(mb);
        assert!(cur > 0, "fpc not positive at {mb} mb");
        assert!(cur < prev, "fpc not decreasing at {mb} mb");
        prev = cur;
    }
}

#[test]
fn cps_for_flow_values() {
    // 2 g/s at 9 bar needs a little over 18 clicks per second.
    assert_eq!(get_clicks_per_second_for_flow(2_000, 9_000), 18_191);
    // Demands beyond the mains rate cap at 50 clicks per second.
    assert_eq!(get_clicks_per_second_for_flow(1_000_000, 9_000), 50_000);
    // No flow, no clicks; the same where the curve is not positive.
    assert_eq!(get_clicks_per_second_for_flow(0, 9_000), 0);
    assert_eq!(get_clicks_per_second_for_flow(2_000, 12_000), 0);
}

#[test]
fn pump_flow_values() {
    assert_eq!(get_pump_flow(40, 6_000), 5_598);
    assert_eq!(get_pump_flow(30, 10_000), 2_520);
    // A 60 Hz mains drives more flow through the same curve.
    assert_eq!(get_pump_flow(60, 9_000), 6_596);
    assert_eq!(get_pump_flow(0, 9_000), 0);
}

#[test]
fn ramp_branch_far_below_target() {
    // Three bar below target, no restriction: a quarter plus a fifth per bar.
    let st = snapshot(6_000, get_pump_flow(40, 6_000), 0);
    assert_eq!(get_pump_pct(9_000, 0, &st), 850_000);
    assert_eq!(set_pump_pressure(9_000, 0, &st), 85);
}

#[test]
fn overshoot_with_decay_branch() {
    // One bar over target while pressure falls: light maintenance duty.
    let st = snapshot(10_000, get_pump_flow(30, 10_000), -500);
    assert_eq!(get_pump_pct(9_000, 0, &st), 120_000);
    assert_eq!(set_pump_pressure(9_000, 0, &st), 12);
}

#[test]
fn overshoot_without_decay_commands_zero() {
    let st = snapshot(10_000, get_pump_flow(30, 10_000), 100);
    assert_eq!(set_pump_pressure(9_000, 0, &st), 0);
}

#[test]
fn flow_restriction_caps_the_ramp() {
    // At zero pressure the ramp wants 85 percent or more, but a 2 g/s
    // restriction holds it to the rate that moves 2 g/s.
    let st = snapshot(0, 0, 0);
    assert_eq!(get_pump_pct(9_000, 2_000, &st), 148_300);
    assert_eq!(set_pump_pressure(9_000, 2_000, &st), 15);
    // The same target unrestricted runs far higher.
    assert!(get_pump_pct(9_000, 0, &st) == 1_000_000);
}

#[test]
fn zero_target_means_zero_duty() {
    // Regardless of the other inputs.
    let st = snapshot(500, 123_456, -10_000);
    assert_eq!(set_pump_pressure(0, 0, &st), 0);
    assert_eq!(set_pump_pressure(0, 2_000, &st), 0);
    let st2 = snapshot(20_000, 0, 0);
    assert_eq!(set_pump_pressure(0, 5_000, &st2), 0);
}

#[test]
fn raw_value_always_within_pump_range() {
    for target in [0i64, 1, 2_500, 9_000, 12_000, 1_000_000_000] {
        for restriction in [-5i64, 0, 100, 2_000, 1_000_000_000] {
            for p in [0i64, 500, 6_000, 9_000, 22_222] {
                let st = snapshot(p, get_pump_flow(40, p), -100);
                let raw = set_pump_pressure(target, restriction, &st);
                assert!(raw <= PUMP_RANGE);
                let raw2 = set_pump_flow(restriction.max(0), target, &st);
                assert!(raw2 <= PUMP_RANGE);
            }
        }
    }
}

#[test]
fn repeating_a_command_gives_the_same_raw_value() {
    let st = snapshot(6_000, get_pump_flow(40, 6_000), 0);
    let first = set_pump_pressure(9_000, 2_000, &st);
    let second = set_pump_pressure(9_000, 2_000, &st);
    assert_eq!(first, second);
}

#[test]
fn flow_controller_delegates_when_pressure_restriction_binds() {
    // 6 bar is above half of the 9 bar restriction: the roles swap.
    let st = snapshot(6_000, get_pump_flow(40, 6_000), 0);
    let raw = set_pump_flow(3_000, 9_000, &st);
    assert_eq!(raw, set_pump_pressure(9_000, 3_000, &st));
    assert_eq!(raw, 43);
}

#[test]
fn flow_controller_commands_directly_when_pressure_is_low() {
    // 3 bar is not above half of 9 bar: duty straight from the click rate.
    let st = snapshot(3_000, get_pump_flow(40, 3_000), 0);
    assert_eq!(set_pump_flow(3_000, 9_000, &st), 32);
}

#[test]
fn fixed_raw_commands() {
    assert_eq!(set_pump_off(), 0);
    assert_eq!(set_pump_full_on(), PUMP_RANGE);
    assert_eq!(set_pump_to_raw_value(42), 42);
    assert_eq!(set_pump_to_raw_value(255), PUMP_RANGE);
}

#[test]
fn pump_config_defaults() {
    let c: PumpConfig = pump_init(50, 270_000_000_000_000_000);
    assert_eq!(c.max_pump_clicks_per_second, MAX_PUMP_CLICKS_PER_SECOND);
    assert_eq!(c.flow_per_click_at_zero_bar_atto, 270_000_000_000_000_000);
    assert_eq!(c.fpc_multiplier_milli, 1_200);
}

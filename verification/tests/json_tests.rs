use espresso_core::espresso::ShotConfig;
use espresso_core::json::{
    decode_machine_write, decode_shot_config, encode_shot_config, encode_snapshot, JsonError,
};
use espresso_core::machine::{led_level_for_write, LedLevel, MachineConfigWrite};
use espresso_core::sensors::Flow;
use espresso_core::state::EspressoStateSnapshot;

fn decode(bytes: &[u8], base: &ShotConfig) -> Result<ShotConfig, JsonError> {
    decode_shot_config(bytes, base)
}

#[test]
fn shot_config_round_trips_through_json() {
    // Encoding then decoding yields an equal record, whatever the base.
    let stock = ShotConfig::default();
    let other = ShotConfig {
        grains_weight_in: 1,
        espresso_yield: None,
        override_final_weight: Some(5),
        override_shot_time: Some(7),
        pressure: 2,
        flow_restriction: 3,
    };
    let bytes = encode_shot_config(&stock);
    assert_eq!(decode(&bytes, &other), Ok(stock));
    assert_eq!(decode(&bytes, &stock), Ok(stock));
}

#[test]
fn shot_config_round_trips_with_overrides_set() {
    let c = ShotConfig {
        grains_weight_in: 18_500,
        espresso_yield: Some(2_500),
        override_final_weight: Some(36_000),
        override_shot_time: Some(25),
        pressure: 6_000,
        flow_restriction: 0,
    };
    let bytes = encode_shot_config(&c);
    assert_eq!(decode(&bytes, &ShotConfig::default()), Ok(c));
}

#[test]
fn fields_not_present_keep_the_base_values() {
    let base = ShotConfig::default();
    let c = decode(b"{}", &base).unwrap();
    assert_eq!(c, base);
    let c = decode(b"{\"pressure\": 8000}", &base).unwrap();
    assert_eq!(c.pressure, 8_000);
    assert_eq!(c.grains_weight_in, base.grains_weight_in);
    assert_eq!(c.flow_restriction, base.flow_restriction);
    assert_eq!(c.espresso_yield, base.espresso_yield);
}

#[test]
fn unknown_fields_are_ignored() {
    let base = ShotConfig::default();
    let c = decode(
        b"{\"profile\": {\"a\": [1, 2, \"x\"]}, \"note\": \"9 bar\", \"pressure\": 7000}",
        &base,
    )
    .unwrap();
    assert_eq!(c.pressure, 7_000);
    assert_eq!(c.grains_weight_in, base.grains_weight_in);
}

#[test]
fn overrides_can_be_written_and_cleared() {
    let base = ShotConfig::default();
    let c = decode(b"{\"override_final_weight\": 36000}", &base).unwrap();
    assert_eq!(c.override_final_weight, Some(36_000));
    let c2 = decode(b"{\"override_final_weight\": null}", &c).unwrap();
    assert_eq!(c2.override_final_weight, None);
}

#[test]
fn malformed_writes_are_rejected_whole() {
    let base = ShotConfig::default();
    // Not an object.
    assert!(decode(b"42", &base).is_err());
    assert!(decode(b"", &base).is_err());
    // Truncated object and trailing garbage.
    assert!(decode(b"{\"pressure\": 9000", &base).is_err());
    assert!(decode(b"{\"pressure\": 9000} x", &base).is_err());
    // A trailing comma, a missing value, an unquoted key.
    assert!(decode(b"{\"pressure\": 9000,}", &base).is_err());
    assert!(decode(b"{\"pressure\"}", &base).is_err());
    assert!(decode(b"{pressure: 9000}", &base).is_err());
}

#[test]
fn out_of_range_numbers_are_rejected() {
    let base = ShotConfig::default();
    // Negative, leading zero, beyond twelve digits, beyond the field limit.
    assert!(decode(b"{\"pressure\": -5}", &base).is_err());
    assert!(decode(b"{\"pressure\": 09}", &base).is_err());
    assert!(decode(b"{\"pressure\": 1000000000000}", &base).is_err());
    assert!(decode(b"{\"pressure\": 2000000000}", &base).is_err());
    // The largest accepted value still decodes.
    let c = decode(b"{\"pressure\": 1000000000}", &base).unwrap();
    assert_eq!(c.pressure, 1_000_000_000);
}

#[test]
fn whitespace_is_tolerated() {
    let base = ShotConfig::default();
    let c = decode(b"  { \"pressure\" :\t9500 , \"flow_restriction\" : 1500 }\n", &base)
        .unwrap();
    assert_eq!(c.pressure, 9_500);
    assert_eq!(c.flow_restriction, 1_500);
}

#[test]
fn encoded_shot_config_is_valid_json() {
    let bytes = encode_shot_config(&ShotConfig::default());
    let v: serde_json::Value = serde_json::from_slice(&bytes).unwrap();
    assert_eq!(v.get("grains_weight_in").unwrap().as_i64(), Some(16_000));
    assert_eq!(v.get("espresso_yield").unwrap().as_i64(), Some(2_000));
    assert!(v.get("override_final_weight").unwrap().is_null());
    assert!(v.get("override_shot_time").unwrap().is_null());
    assert_eq!(v.get("pressure").unwrap().as_i64(), Some(9_000));
    assert_eq!(v.get("flow_restriction").unwrap().as_i64(), Some(2_000));
}

#[test]
fn encoded_snapshot_is_valid_json() {
    let s = EspressoStateSnapshot {
        pressure: 9_000,
        boiler_temp: 92_500,
        estimated_espresso_flow: 0,
        time: 12_000,
        elapsed_time_from_last_read: 1_000,
        estimated_weight: 24_000,
        measured_flow: Flow { enter: 2_000, exit: 2_000 },
        espresso_flow: 0,
        pressure_change_speed: -500,
        pump_flow: 4_397,
    };
    let bytes = encode_snapshot(&s);
    let v: serde_json::Value = serde_json::from_slice(&bytes).unwrap();
    assert_eq!(v.get("pressure").unwrap().as_i64(), Some(9_000));
    assert_eq!(v.get("pressure_change_speed").unwrap().as_i64(), Some(-500));
    assert_eq!(v.get("estimated_weight").unwrap().as_i64(), Some(24_000));
    assert_eq!(
        v.get("measured_flow").unwrap().get("exit").unwrap().as_i64(),
        Some(2_000)
    );
    assert_eq!(v.get("time").unwrap().as_i64(), Some(12_000));
}

#[test]
fn machine_write_toggles_the_led() {
    let w = decode_machine_write(b"{\"led\": true, \"temperature\": 90}").unwrap();
    assert_eq!(w, MachineConfigWrite { led: Some(true), temperature: 90 });
    assert_eq!(led_level_for_write(&w), Some(LedLevel::Low));
    let w2 = decode_machine_write(b"{\"led\": false, \"temperature\": 90}").unwrap();
    assert_eq!(led_level_for_write(&w2), Some(LedLevel::High));
}

#[test]
fn machine_write_without_led_leaves_it_alone() {
    let w = decode_machine_write(b"{\"temperature\": 85}").unwrap();
    assert_eq!(w.led, None);
    assert_eq!(w.temperature, 85);
    assert_eq!(led_level_for_write(&w), None);
}

#[test]
fn machine_write_requires_a_temperature() {
    assert_eq!(
        decode_machine_write(b"{\"led\": true}"),
        Err(JsonError::Malformed)
    );
    // A temperature beyond a byte is rejected.
    assert!(decode_machine_write(b"{\"led\": true, \"temperature\": 300}").is_err());
    // Unknown fields are ignored here too.
    let w = decode_machine_write(b"{\"who\": \"me\", \"temperature\": 80}").unwrap();
    assert_eq!(w.temperature, 80);
}

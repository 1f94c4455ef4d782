//! Machine-level configuration and the wireless configuration write.

use vstd::prelude::*;

verus! {

/// Whether the boiler relay is energised.
#[derive(Clone, Copy, Debug, PartialEq, Eq, Structural)]
pub enum BoillerState {
    On,
    Off,
}

/// The machine's operating mode.  Modes other than `ManualBrew` are accepted
/// but currently act as idle.
#[derive(Clone, Copy, Debug, PartialEq, Eq, Structural)]
pub enum MachineMode {
    ManualBrew,
    ShotProfiling,
    Steam,
    Descale,
}

/// Desired level of the status LED; the write side-effects it directly.
#[derive(Clone, Copy, Debug, PartialEq, Eq, Structural)]
pub enum LedLevel {
    Low,
    High,
}

/// A last-read picture of the machine outside the brew loop.
#[derive(Clone, Copy, Debug, PartialEq, Eq)]
pub struct MachineSnapshot {
    /// Boiler temperature, millidegrees Celsius.
    pub boiler_temp: i64,
    /// Pump duty last commanded, ppm.
    pub pump_state: i64,
    /// Whether the three-way valve is open.
    pub valve_state: bool,
    /// Whether the brew button is pressed.
    pub brew_button: bool,
    /// Whether the steam button is pressed.
    pub steam_button: bool,
    /// When the steam button was pressed, milliseconds, if it is held.
    pub steam_button_on_time: Option<i64>,
}

impl MachineSnapshot {
    /// Builds the snapshot from a boiler temperature reading.  The remaining
    /// senses are not wired on this build and read as inactive.
    pub fn get_machine_snapshot(boiler_temp: i64) -> (s: MachineSnapshot)
        ensures
            s.boiler_temp == boiler_temp,
            s.pump_state == 0,
            !s.valve_state,
            !s.brew_button,
            !s.steam_button,
            s.steam_button_on_time.is_none(),
    {
        MachineSnapshot {
            boiler_temp,
            pump_state: 0,
            valve_state: false,
            brew_button: false,
            steam_button: false,
            steam_button_on_time: Option::None,
        }
    }
}

/// Process-wide machine configuration.
#[derive(Clone, Copy, Debug, PartialEq, Eq)]
pub struct CoffeeMachineConfig {
    /// Brew temperature setpoint, whole degrees Celsius.
    pub brew_temp_setpoint: u8,
    /// Whether the machine is steaming.
    pub is_steam: bool,
    pub mode: MachineMode,
    pub machine_snapshot: MachineSnapshot,
}

impl CoffeeMachineConfig {
    /// The boot configuration: manual brew at a setpoint of 90 degrees.
    pub fn default(machine_snapshot: MachineSnapshot) -> (c: CoffeeMachineConfig)
        ensures
            c.brew_temp_setpoint == 90,
            !c.is_steam,
            c.mode == MachineMode::ManualBrew,
            c.machine_snapshot == machine_snapshot,
    {
        CoffeeMachineConfig {
            brew_temp_setpoint: 90,
            is_steam: false,
            mode: MachineMode::ManualBrew,
            machine_snapshot,
        }
    }
}

/// The boot machine configuration for a machine snapshot.
pub fn init_machine_config(machine_snapshot: MachineSnapshot) -> (c: CoffeeMachineConfig)
    ensures
        c.brew_temp_setpoint == 90,
        !c.is_steam,
        c.mode == MachineMode::ManualBrew,
        c.machine_snapshot == machine_snapshot,
{
    CoffeeMachineConfig::default(machine_snapshot)
}

/// One wireless write to the machine-configuration attribute.
#[derive(Clone, Copy, Debug, PartialEq, Eq)]
pub struct MachineConfigWrite {
    /// Requested LED state, when the write carries one.
    pub led: Option<bool>,
    /// Brew temperature setpoint, whole degrees Celsius.
    pub temperature: u8,
}

/// The LED level a configuration write asks for: `true` drives the pin low
/// (the LED is active-low), `false` drives it high, and a write without the
/// field leaves the LED alone.
pub fn led_level_for_write(w: &MachineConfigWrite) -> (level: Option<LedLevel>)
    ensures
        level == match w.led {
            Option::Some(true) => Option::Some(LedLevel::Low),
            Option::Some(false) => Option::Some(LedLevel::High),
            Option::None => Option::<LedLevel>::None,
        },
{
    match w.led {
        Option::Some(true) => Option::Some(LedLevel::Low),
        Option::Some(false) => Option::Some(LedLevel::High),
        Option::None => Option::None,
    }
}

} // verus!

//! Shot configuration and espresso run records.

use vstd::prelude::*;
use crate::pump::TARGET_LIMIT;

verus! {

/// The drink a shot is profiled for.
#[derive(Clone, Copy, Debug, PartialEq, Eq, Structural)]
pub enum EspressoType {
    Double,
    Lungo,
    Single,
    Ristretto,
}

/// How a shot is started: from the analog brew button or from a program.
#[derive(Clone, Copy, Debug, PartialEq, Eq, Structural)]
pub enum InitialisationType {
    AnalogButton,
    Program,
}

/// One shot's profile.  Masses in milligrams, pressure in millibar, flow in
/// mg/s, the time override in whole seconds.
#[derive(Clone, Copy, Debug, PartialEq, Eq)]
pub struct ShotConfig {
    /// Dry dose, milligrams.
    pub grains_weight_in: i64,
    /// Target yield ratio, thousandths, when set.
    pub espresso_yield: Option<i64>,
    /// Stop the shot at this estimated weight, milligrams, when set.
    pub override_final_weight: Option<i64>,
    /// Stop the shot after this many seconds, when set.
    pub override_shot_time: Option<u32>,
    /// Target brew pressure, millibar.
    pub pressure: i64,
    /// Flow cap during the shot, mg/s.
    pub flow_restriction: i64,
}

/// The stock profile: a 16 g dose at a ratio of two, 9 bar, capped at 2 g/s.
pub open spec fn spec_default_shot_config() -> ShotConfig {
    ShotConfig {
        grains_weight_in: 16_000,
        espresso_yield: Option::Some(2_000i64),
        override_final_weight: Option::None,
        override_shot_time: Option::None,
        pressure: 9_000,
        flow_restriction: 2_000,
    }
}

impl ShotConfig {
    /// Every quantity is non-negative and within the accepted range.
    pub open spec fn wf(self) -> bool {
        &&& 0 <= self.grains_weight_in <= TARGET_LIMIT
        &&& match self.espresso_yield {
            Option::Some(v) => 0 <= v <= TARGET_LIMIT,
            Option::None => true,
        }
        &&& match self.override_final_weight {
            Option::Some(v) => 0 <= v <= TARGET_LIMIT,
            Option::None => true,
        }
        &&& 0 <= self.pressure <= TARGET_LIMIT
        &&& 0 <= self.flow_restriction <= TARGET_LIMIT
    }
}

impl Default for ShotConfig {
    /// The stock profile.
    fn default() -> (c: ShotConfig)
        ensures
            c == spec_default_shot_config(),
            c.wf(),
    {
        ShotConfig {
            grains_weight_in: 16_000,
            espresso_yield: Option::Some(2_000i64),
            override_final_weight: Option::None,
            override_shot_time: Option::None,
            pressure: 9_000,
            flow_restriction: 2_000,
        }
    }
}

/// How espresso runs are started, together with the active shot profile.
#[derive(Clone, Copy, Debug, PartialEq, Eq)]
pub struct EspressoConfig {
    pub initialisation_type: InitialisationType,
    pub _shot_config: ShotConfig,
}

/// The boot-time espresso configuration: analog-button start with the stock
/// shot profile.
pub fn init_espresso_config() -> (c: EspressoConfig)
    ensures
        c.initialisation_type == InitialisationType::AnalogButton,
        c._shot_config == spec_default_shot_config(),
        c._shot_config.wf(),
{
    EspressoConfig {
        initialisation_type: InitialisationType::AnalogButton,
        _shot_config: Default::default(),
    }
}

} // verus!

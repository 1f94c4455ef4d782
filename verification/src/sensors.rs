//! Sensor value conversion: pressure transducer and flow meters.
//!
//! The one-shot ADC read itself happens outside this crate; the conversions
//! from raw counts to engineering units live here.

use vstd::prelude::*;

verus! {

/// Full scale of the 12-bit pressure ADC.
pub const ADC_FULL_SCALE: u16 = 4095;

/// Highest pressure the transducer conversion can report, in millibar.
pub const PRESSURE_READING_MAX_MB: i64 = 22_222;

/// Largest flow a meter can report, in mg/s (1000 g/s).
pub const FLOW_SENSOR_MAX_MG: i64 = 1_000_000;

/// A paired flow-meter reading, in mg/s.
#[derive(Clone, Copy, Debug, PartialEq, Eq, Structural)]
pub struct Flow {
    /// Water entering the group head.
    pub enter: i64,
    /// Water leaving to the cup.
    pub exit: i64,
}

impl Flow {
    /// Both channels are non-negative and within the meter's range.
    pub open spec fn wf(self) -> bool {
        0 <= self.enter <= FLOW_SENSOR_MAX_MG && 0 <= self.exit <= FLOW_SENSOR_MAX_MG
    }
}

/// Pressure, in millibar, for a raw ADC count: the transducer front-end sits
/// a ninth of full scale above zero and spans 25 bar, so the count maps
/// through `(raw / 4095 - 1/9) * 25000`, rounded to the nearest millibar.
/// Counts below the offset are clamped to zero.
pub open spec fn spec_adc_to_pressure_mb(raw: int) -> int {
    let num = 225_000 * raw - 102_375_000;
    if num <= 0 {
        0
    } else {
        (num + 18_427) / 36_855
    }
}

/// Converts a raw pressure ADC count to millibar.
pub fn convert_volt_to_pressure(adc_value: u16) -> (mb: i64)
    requires
        adc_value <= ADC_FULL_SCALE,
    ensures
        mb == spec_adc_to_pressure_mb(adc_value as int),
        0 <= mb <= PRESSURE_READING_MAX_MB,
{
    let num: i64 = 225_000 * (adc_value as i64) - 102_375_000;
    if num <= 0 {
        0
    } else {
        let q: i64 = (num + 18_427) / 36_855;
        proof {
            vstd::arithmetic::div_mod::lemma_div_pos_is_pos(num + 18_427, 36_855);
            vstd::arithmetic::div_mod::lemma_div_is_ordered(num + 18_427, 819_018_427, 36_855);
        }
        q
    }
}

/// Reads both flow meters.  The meters are not fitted on this build, so both
/// channels report zero flow.
pub fn read_flow() -> (f: Flow)
    ensures
        f.enter == 0 && f.exit == 0,
        f.wf(),
{
    Flow { enter: 0, exit: 0 }
}

/// Net flow through the group head: what enters minus what leaves.
pub fn calculate_espresso_flow(f: &Flow) -> (net: i64)
    requires
        f.wf(),
    ensures
        net == f.enter - f.exit,
        -FLOW_SENSOR_MAX_MG <= net <= FLOW_SENSOR_MAX_MG,
{
    f.enter - f.exit
}

} // verus!

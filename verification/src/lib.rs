//! Control core for a single-group espresso machine.
//!
//! The crate contains the real-time brew control logic: the pump model that
//! turns a pressure or flow target into a phase-skipping-modulator duty, the
//! sensor-fusion snapshot builder with its bounded history, the brew state
//! machine, the configuration records, and the JSON codec used by the
//! wireless configuration surface.
//!
//! All quantities are exact fixed-point integers so that every computation
//! can be specified and proved precisely:
//!
//! * pressure: millibar (`1 bar == 1000`)
//! * flow: milligrams per second (`1 g/s == 1000`)
//! * mass: milligrams
//! * temperature: millidegrees Celsius
//! * time: milliseconds
//! * pump duty: parts per million of full duty (`1.0 == 1_000_000`)
//! * flow per pump click: attograms (`1 g == 10^18`)
//!
//! Hardware access (GPIO, ADC, the PSM driver, the radio) lives outside this
//! crate; the functions here take sensor readings as plain values and return
//! the commands to apply.

pub mod brew;
pub mod espresso;
pub mod json;
pub mod machine;
pub mod psm;
pub mod pump;
pub mod sensors;
pub mod state;

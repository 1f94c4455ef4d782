//! Vibratory pump model and duty computation.
//!
//! The pump fires on AC half-cycles ("clicks"); the phase-skipping modulator
//! accepts a raw duty in `0..=PUMP_RANGE`.  The model below gives the mass of
//! water one click moves at a given pressure, derived from a publicly
//! calibrated vibratory-pump curve.
//!
//! Fixed-point conventions (see the crate root): pressure in millibar, flow
//! in mg/s, flow per click in attograms (10^-18 g), click rates in
//! milli-clicks per second (mcps), duty in parts per million (ppm).

use vstd::prelude::*;
use crate::state::EspressoStateSnapshot;

verus! {

/// Raw duty range accepted by the PSM driver: `0` is off, `PUMP_RANGE` full on.
pub const PUMP_RANGE: u8 = 100;

/// Both half-cycles of a 50 Hz mains: the most clicks the pump can fire per second.
pub const MAX_PUMP_CLICKS_PER_SECOND: i32 = 50;

/// `MAX_PUMP_CLICKS_PER_SECOND` in milli-clicks per second.
pub const CPS_MAX_MCPS: i64 = 50_000;

/// Flow per click at zero bar, in attograms (270 mg).
pub const FLOW_PER_CLICK_AT_ZERO_BAR_ATTO: i128 = 270_000_000_000_000_000;

/// Calibration multiplier applied to the raw pump curve, in thousandths (6/5).
pub const FPC_MULTIPLIER_MILLI: i32 = 1200;

/// Greatest pressure the model accepts: 25 bar, beyond the sensor's full scale.
pub const PRESSURE_MB_MAX: i64 = 25_000;

/// Pressures below this are clamped before evaluating the pump curve, so the
/// curve's low-pressure end stays well defined (a hundredth of a bar).
pub const PRESSURE_EPSILON_MB: i64 = 10;

/// Largest flow magnitude, in mg/s, that the click-rate conversion accepts;
/// `get_pump_flow` stays within it.
pub const FLOW_BOUND_MG: i64 = 10_000_000_000;

/// Largest click rate, in clicks per second, accepted when deriving pump flow.
/// Far beyond any physical mains frequency.
pub const CPS_READING_MAX: i64 = 1_000_000;

/// The calibrated flow-per-click polynomial, in attograms, at `m` millibar.
///
/// This is the expanded exact form of the calibrated curve
/// `((K5/p + K6) * (-p^2) + (FPC0 - K0) - (K1 + (K2 - (K3 - K4*p)*p)*p)*p) * 6/5`
/// with `p = m / 1000` bar, `FPC0` the 270 mg zero-bar flow and `K` the seven
/// pressure-inefficiency coefficients (45, 15, 33/10, 685/1000, 45/1000, 9,
/// -9/5 — each in thousandths).  Multiplying through by 10^18 clears every
/// denominator, so the integer polynomial below equals the real-valued curve
/// exactly at every whole millibar.
pub open spec fn fpc_poly_atto(m: int) -> int {
    let m2 = m * m;
    let m3 = m2 * m;
    let m4 = m3 * m;
    270_000_000_000_000_000 - 28_800_000_000_000 * m - 1_800_000_000 * m2 + 822_000 * m3
        - 54 * m4
}

/// Flow per click in attograms at `m` millibar, with the low-pressure clamp.
pub open spec fn spec_fpc_atto(m: int) -> int {
    fpc_poly_atto(if m < PRESSURE_EPSILON_MB { PRESSURE_EPSILON_MB as int } else { m })
}

/// One step of the pump curve: each extra millibar strictly lowers the flow
/// per click, over the whole accepted pressure range.
proof fn lemma_fpc_poly_step(m: int)
    requires
        0 <= m < 25_000,
    ensures
        fpc_poly_atto(m + 1) < fpc_poly_atto(m),
{
    assert(270_000_000_000_000_000 - 28_800_000_000_000 * (m + 1) - 1_800_000_000 * ((m + 1) * (m
        + 1)) + 822_000 * (((m + 1) * (m + 1)) * (m + 1)) - 54 * ((((m + 1) * (m + 1)) * (m + 1))
        * (m + 1)) < 270_000_000_000_000_000 - 28_800_000_000_000 * m - 1_800_000_000 * (m * m)
        + 822_000 * ((m * m) * m) - 54 * (((m * m) * m) * m)) by (nonlinear_arith)
        requires
            0 <= m < 25_000,
    ;
}

proof fn lemma_fpc_poly_decreasing(m1: int, m2: int)
    requires
        0 <= m1 < m2 <= 25_000,
    ensures
        fpc_poly_atto(m2) < fpc_poly_atto(m1),
    decreases m2 - m1,
{
    if m2 == m1 + 1 {
        lemma_fpc_poly_step(m1);
    } else {
        lemma_fpc_poly_decreasing(m1, m2 - 1);
        lemma_fpc_poly_step(m2 - 1);
    }
}

/// The pump moves less water per click the higher the pressure: the flow per
/// click is strictly monotonically decreasing over the accepted range.
pub proof fn lemma_fpc_monotone_decreasing(m1: int, m2: int)
    requires
        PRESSURE_EPSILON_MB <= m1 < m2 <= PRESSURE_MB_MAX,
    ensures
        spec_fpc_atto(m2) < spec_fpc_atto(m1),
{
    lemma_fpc_poly_decreasing(m1, m2);
}

/// The flow per click stays positive from the low-pressure clamp up to
/// 11587 millibar; it crosses zero just below 11588 millibar.
pub proof fn lemma_fpc_positive(m: int)
    requires
        0 <= m <= 11_587,
    ensures
        spec_fpc_atto(m) > 0,
{
    let c = if m < PRESSURE_EPSILON_MB { PRESSURE_EPSILON_MB as int } else { m };
    assert(fpc_poly_atto(11_587) == 6_974_964_366_906);
    if c < 11_587 {
        lemma_fpc_poly_decreasing(c, 11_587);
    }
}

/// The flow per click never reaches 280 mg, and never falls below minus
/// 10^19 attograms, over the accepted pressure range.
pub proof fn lemma_fpc_bounds(m: int)
    requires
        0 <= m <= PRESSURE_MB_MAX,
    ensures
        -10_000_000_000_000_000_000 < spec_fpc_atto(m) <= 270_000_000_000_000_000,
{
    let c = if m < PRESSURE_EPSILON_MB { PRESSURE_EPSILON_MB as int } else { m };
    assert(fpc_poly_atto(10) == 269_711_820_821_460_000);
    assert(fpc_poly_atto(25_000) == -9_825_000_000_000_000_000);
    if c < 25_000 {
        lemma_fpc_poly_decreasing(c, 25_000);
    }
    if 10 < c {
        lemma_fpc_poly_decreasing(10, c);
    }
}

/// Flow one click moves at the given pressure, in attograms.
pub fn get_pump_flow_per_click(pressure_mb: i64) -> (fpc: i128)
    requires
        0 <= pressure_mb <= PRESSURE_MB_MAX,
    ensures
        fpc == spec_fpc_atto(pressure_mb as int),
        -10_000_000_000_000_000_000 < fpc <= 270_000_000_000_000_000,
{
    proof {
        lemma_fpc_bounds(pressure_mb as int);
    }
    let m: i128 = if pressure_mb < PRESSURE_EPSILON_MB {
        PRESSURE_EPSILON_MB as i128
    } else {
        pressure_mb as i128
    };
    assert(10 <= m <= 25_000);
    assert(m * m <= 625_000_000) by (nonlinear_arith)
        requires
            10 <= m <= 25_000,
    ;
    let m2: i128 = m * m;
    assert(m2 * m <= 15_625_000_000_000) by (nonlinear_arith)
        requires
            10 <= m <= 25_000,
            m2 == m * m,
    ;
    let m3: i128 = m2 * m;
    assert(m3 * m <= 390_625_000_000_000_000) by (nonlinear_arith)
        requires
            10 <= m <= 25_000,
            m2 == m * m,
            m3 == m2 * m,
    ;
    let m4: i128 = m3 * m;
    assert(0 <= m2 && 0 <= m3 && 0 <= m4) by (nonlinear_arith)
        requires
            10 <= m,
            m2 == m * m,
            m3 == m2 * m,
            m4 == m3 * m,
    ;
    270_000_000_000_000_000 - 28_800_000_000_000 * m - 1_800_000_000 * m2 + 822_000 * m3
        - 54 * m4
}

/// Click rate, in milli-clicks per second, needed to move `flow_mg` at
/// pressure `m` millibar, capped at the mains rate.  Outside the calibrated
/// range — no forward flow, or a pressure at which the curve is not positive —
/// the needed rate is zero.
pub open spec fn spec_cps_for_flow_mcps(flow_mg: int, m: int) -> int {
    if flow_mg <= 0 {
        0
    } else {
        let g = spec_fpc_atto(m);
        if g <= 0 {
            0
        } else {
            let c = (flow_mg * 1_000_000_000_000_000_000) / g;
            if c < CPS_MAX_MCPS {
                c
            } else {
                CPS_MAX_MCPS as int
            }
        }
    }
}

/// Flow, in mg/s, the pump delivers when firing `cps` clicks per second at
/// pressure `m` millibar.
pub open spec fn spec_pump_flow_mg(cps: int, m: int) -> int {
    let g = spec_fpc_atto(m);
    if g >= 0 {
        (cps * g) / 1_000_000_000_000_000
    } else {
        -((cps * (-g)) / 1_000_000_000_000_000)
    }
}

/// Click rate needed to move the given flow at the given pressure.
pub fn get_clicks_per_second_for_flow(flow_mg: i64, pressure_mb: i64) -> (mcps: i64)
    requires
        -FLOW_BOUND_MG <= flow_mg <= FLOW_BOUND_MG,
        0 <= pressure_mb <= PRESSURE_MB_MAX,
    ensures
        mcps == spec_cps_for_flow_mcps(flow_mg as int, pressure_mb as int),
        0 <= mcps <= CPS_MAX_MCPS,
{
    if flow_mg <= 0 {
        return 0;
    }
    let g = get_pump_flow_per_click(pressure_mb);
    if g <= 0 {
        return 0;
    }
    let num: u128 = (flow_mg as u128) * 1_000_000_000_000_000_000;
    let gu: u128 = g as u128;
    let c: u128 = num / gu;
    proof {
        vstd::arithmetic::div_mod::lemma_div_pos_is_pos(num as int, gu as int);
    }
    if c >= CPS_MAX_MCPS as u128 {
        CPS_MAX_MCPS
    } else {
        c as i64
    }
}

/// Pump flow at the given click rate and pressure.
pub fn get_pump_flow(cps: i64, pressure_mb: i64) -> (flow_mg: i64)
    requires
        0 <= cps <= CPS_READING_MAX,
        0 <= pressure_mb <= PRESSURE_MB_MAX,
    ensures
        flow_mg == spec_pump_flow_mg(cps as int, pressure_mb as int),
        -FLOW_BOUND_MG <= flow_mg <= FLOW_BOUND_MG,
{
    let g = get_pump_flow_per_click(pressure_mb);
    if g >= 0 {
        let cu: u128 = cps as u128;
        let gu: u128 = g as u128;
        assert(cu * gu <= 270_000_000_000_000_000_000_000) by (nonlinear_arith)
            requires
                cu <= 1_000_000,
                gu <= 270_000_000_000_000_000,
        ;
        let prod: u128 = cu * gu;
        let q: u128 = prod / 1_000_000_000_000_000;
        proof {
            vstd::arithmetic::div_mod::lemma_div_is_ordered(
                prod as int,
                270_000_000_000_000_000_000_000,
                1_000_000_000_000_000,
            );
            vstd::arithmetic::div_mod::lemma_div_pos_is_pos(prod as int, 1_000_000_000_000_000);
        }
        q as i64
    } else {
        let neg: i128 = -g;
        let cu: u128 = cps as u128;
        let nu: u128 = neg as u128;
        assert(cu * nu <= 10_000_000_000_000_000_000_000_000) by (nonlinear_arith)
            requires
                cu <= 1_000_000,
                nu <= 10_000_000_000_000_000_000,
        ;
        let prod: u128 = cu * nu;
        let q: u128 = prod / 1_000_000_000_000_000;
        proof {
            vstd::arithmetic::div_mod::lemma_div_is_ordered(
                prod as int,
                10_000_000_000_000_000_000_000_000,
                1_000_000_000_000_000,
            );
            vstd::arithmetic::div_mod::lemma_div_pos_is_pos(prod as int, 1_000_000_000_000_000);
        }
        -(q as i64)
    }
}

/// Bound on target pressures and flow restrictions accepted by the duty
/// computation; configuration decoding enforces it.
pub const TARGET_LIMIT: i64 = 1_000_000_000;

/// Duty cap from a flow restriction, in ppm: no restriction caps at full
/// duty; otherwise at the duty whose click rate moves the restricted flow.
pub open spec fn spec_max_pump_pct_ppm(flow_restriction: int, m: int) -> int {
    if flow_restriction <= 0 {
        1_000_000
    } else {
        spec_cps_for_flow_mcps(flow_restriction, m) * 20
    }
}

/// Duty that holds the current pump flow steady, in milli-clicks per second.
pub open spec fn spec_maintain_mcps(st: EspressoStateSnapshot) -> int {
    spec_cps_for_flow_mcps(st.pump_flow as int, st.pressure as int)
}

/// The pressure controller's duty, in ppm.
///
/// A zero target always commands zero.  Far below target the duty ramps with
/// the gap; near target it tracks the duty that would hold the current flow,
/// with a small bias; above target it cuts to zero unless pressure is already
/// decaying, in which case a light maintenance duty prevents collapse.  A
/// positive flow restriction caps the duty in every branch.
pub open spec fn spec_pump_pct_ppm(
    target_mb: int,
    flow_restriction_mg: int,
    st: EspressoStateSnapshot,
) -> int {
    if target_mb == 0 {
        0
    } else {
        let diff = target_mb - st.pressure;
        let max_ppm = spec_max_pump_pct_ppm(flow_restriction_mg, st.pressure as int);
        let maint = spec_maintain_mcps(st);
        if diff > 2000 {
            let ramp = 250_000 + 200 * diff;
            if ramp < max_ppm {
                ramp
            } else {
                max_ppm
            }
        } else if diff > 0 {
            let hold = 19 * maint + 100_000 + 200 * diff;
            if hold < max_ppm {
                hold
            } else {
                max_ppm
            }
        } else if st.pressure_change_speed < 0 {
            let decay = 4 * maint;
            if decay < max_ppm {
                decay
            } else {
                max_ppm
            }
        } else {
            0
        }
    }
}

/// Raw PSM value for a duty in ppm: rounded to the nearest percent.
pub open spec fn spec_duty_raw(ppm: int) -> int {
    (ppm + 5000) / 10_000
}

/// Raw PSM value the pressure controller commands.
pub open spec fn spec_pump_pressure_raw(
    target_mb: int,
    flow_restriction_mg: int,
    st: EspressoStateSnapshot,
) -> int {
    spec_duty_raw(spec_pump_pct_ppm(target_mb, flow_restriction_mg, st))
}

/// Fractional duty for a pressure target, in ppm.
pub fn get_pump_pct(
    target_pressure_mb: i64,
    flow_restriction_mg: i64,
    current_state: &EspressoStateSnapshot,
) -> (ppm: i64)
    requires
        0 <= target_pressure_mb <= TARGET_LIMIT,
        -TARGET_LIMIT <= flow_restriction_mg <= TARGET_LIMIT,
        current_state.wf(),
    ensures
        ppm == spec_pump_pct_ppm(
            target_pressure_mb as int,
            flow_restriction_mg as int,
            *current_state,
        ),
        0 <= ppm <= 1_000_000,
        target_pressure_mb == 0 ==> ppm == 0,
{
    if target_pressure_mb == 0 {
        return 0;
    }
    let diff: i64 = target_pressure_mb - current_state.pressure;
    let max_ppm: i64 = if flow_restriction_mg <= 0 {
        1_000_000
    } else {
        20 * get_clicks_per_second_for_flow(flow_restriction_mg, current_state.pressure)
    };
    let maint: i64 = get_clicks_per_second_for_flow(
        current_state.pump_flow,
        current_state.pressure,
    );
    if diff > 2000 {
        let ramp: i64 = 250_000 + 200 * diff;
        if ramp < max_ppm {
            ramp
        } else {
            max_ppm
        }
    } else if diff > 0 {
        let hold: i64 = 19 * maint + 100_000 + 200 * diff;
        if hold < max_ppm {
            hold
        } else {
            max_ppm
        }
    } else if current_state.pressure_change_speed < 0 {
        let decay: i64 = 4 * maint;
        if decay < max_ppm {
            decay
        } else {
            max_ppm
        }
    } else {
        0
    }
}

/// Raw value for the PSM driver from a pressure target: the fractional duty
/// rounded to the nearest percent.  Always within `0..=PUMP_RANGE`.
pub fn set_pump_pressure(
    target_pressure_mb: i64,
    flow_restriction_mg: i64,
    current_state: &EspressoStateSnapshot,
) -> (raw: u8)
    requires
        0 <= target_pressure_mb <= TARGET_LIMIT,
        -TARGET_LIMIT <= flow_restriction_mg <= TARGET_LIMIT,
        current_state.wf(),
    ensures
        raw == spec_pump_pressure_raw(
            target_pressure_mb as int,
            flow_restriction_mg as int,
            *current_state,
        ),
        raw <= PUMP_RANGE,
        target_pressure_mb == 0 ==> raw == 0,
{
    let ppm = get_pump_pct(target_pressure_mb, flow_restriction_mg, current_state);
    ((ppm + 5000) / 10_000) as u8
}

/// Raw PSM value the flow controller commands: when a pressure restriction
/// binds — the current pressure is above half of it — the roles swap and the
/// pressure controller runs with the flow target as its cap; otherwise the
/// duty follows the click rate that moves the target flow.
pub open spec fn spec_pump_flow_raw(
    target_flow_mg: int,
    pressure_restriction_mb: int,
    st: EspressoStateSnapshot,
) -> int {
    if pressure_restriction_mb > 0 && 2 * st.pressure > pressure_restriction_mb {
        spec_pump_pressure_raw(pressure_restriction_mb, target_flow_mg, st)
    } else {
        spec_duty_raw(spec_cps_for_flow_mcps(target_flow_mg, st.pressure as int) * 20)
    }
}

/// Raw value for the PSM driver from a flow target.
pub fn set_pump_flow(
    target_flow_mg: i64,
    pressure_restriction_mb: i64,
    current_state: &EspressoStateSnapshot,
) -> (raw: u8)
    requires
        -TARGET_LIMIT <= target_flow_mg <= TARGET_LIMIT,
        0 <= pressure_restriction_mb <= TARGET_LIMIT,
        current_state.wf(),
    ensures
        raw == spec_pump_flow_raw(
            target_flow_mg as int,
            pressure_restriction_mb as int,
            *current_state,
        ),
        raw <= PUMP_RANGE,
{
    if pressure_restriction_mb > 0 && 2 * current_state.pressure > pressure_restriction_mb {
        set_pump_pressure(pressure_restriction_mb, target_flow_mg, current_state)
    } else {
        let mcps = get_clicks_per_second_for_flow(target_flow_mg, current_state.pressure);
        let ppm: i64 = 20 * mcps;
        ((ppm + 5000) / 10_000) as u8
    }
}

/// The pump command is a function of its inputs alone: the same target,
/// restriction and snapshot always yield the same raw value, so repeating a
/// command never changes what the PSM is asked to do.
pub proof fn lemma_pump_pressure_idempotent(
    t1: int,
    r1: int,
    s1: EspressoStateSnapshot,
    t2: int,
    r2: int,
    s2: EspressoStateSnapshot,
)
    requires
        t1 == t2,
        r1 == r2,
        s1 == s2,
    ensures
        spec_pump_pressure_raw(t1, r1, s1) == spec_pump_pressure_raw(t2, r2, s2),
{
}

/// Stops the pump: the zero raw value.
pub fn set_pump_off() -> (raw: u8)
    ensures
        raw == 0,
{
    0
}

/// Runs the pump at every click: the full raw value.
pub fn set_pump_full_on() -> (raw: u8)
    ensures
        raw == PUMP_RANGE,
{
    PUMP_RANGE
}

/// Bounds an arbitrary raw request to the PSM range.
pub fn set_pump_to_raw_value(val: u8) -> (raw: u8)
    ensures
        raw == if val <= PUMP_RANGE {
            val as int
        } else {
            PUMP_RANGE as int
        },
        raw <= PUMP_RANGE,
{
    if val <= PUMP_RANGE {
        val
    } else {
        PUMP_RANGE
    }
}

/// The calibration constants of the pump model, as one record.
pub struct PumpConfig {
    /// Flow per click at zero bar, attograms.
    pub flow_per_click_at_zero_bar_atto: i128,
    /// Most clicks the pump can fire per second.
    pub max_pump_clicks_per_second: i32,
    /// Calibration multiplier, thousandths.
    pub fpc_multiplier_milli: i32,
}

impl PumpConfig {
    /// The calibration this crate is built around.
    pub fn default() -> (c: PumpConfig)
        ensures
            c.flow_per_click_at_zero_bar_atto == FLOW_PER_CLICK_AT_ZERO_BAR_ATTO,
            c.max_pump_clicks_per_second == MAX_PUMP_CLICKS_PER_SECOND,
            c.fpc_multiplier_milli == FPC_MULTIPLIER_MILLI,
    {
        PumpConfig {
            flow_per_click_at_zero_bar_atto: FLOW_PER_CLICK_AT_ZERO_BAR_ATTO,
            max_pump_clicks_per_second: MAX_PUMP_CLICKS_PER_SECOND,
            fpc_multiplier_milli: FPC_MULTIPLIER_MILLI,
        }
    }
}

/// Pump bring-up: the calibration record.  The line frequency and zero-bar
/// flow are fixed by the calibration, so the arguments are accepted and the
/// default record is returned.
pub fn pump_init(power_line_frequency: i32, pump_flow_at_zero_atto: i128) -> (c: PumpConfig)
    ensures
        c.flow_per_click_at_zero_bar_atto == FLOW_PER_CLICK_AT_ZERO_BAR_ATTO,
        c.max_pump_clicks_per_second == MAX_PUMP_CLICKS_PER_SECOND,
        c.fpc_multiplier_milli == FPC_MULTIPLIER_MILLI,
{
    let _ = power_line_frequency;
    let _ = pump_flow_at_zero_atto;
    PumpConfig::default()
}

} // verus!

//! Torque controller: control-angle prediction and the estimated-current
//! FOC voltage computation, in integer arithmetic.
//!
//! The last stage of a control cycle, the inverse Park/Clarke transform with
//! min-max injection, is floating-point modulation and is applied by the
//! caller to the [`VoltageCommand`] computed here.
use vstd::prelude::*;
use crate::angle::{IntAngle, full_turn};
use crate::arith::{tdiv, fits_i32, fits_i64, lemma_pow2_facts, div_i32, div_i64};
use crate::hal::BldcMotor;
use crate::pll::KinematicEst;

verus! {

/// Numerator of the integer approximation of 2π used by the velocity conversion.
pub const TAU_INT_NUM: i64 = 6_283;

/// Denominator of the integer approximation of 2π.
pub const TAU_INT_DEN: i64 = 1_000;

/// The angle advance (counts) over `control_lag_us` at `velocity` counts per second.
pub open spec fn control_angle_delta(velocity: i32, control_lag_us: u64) -> int {
    tdiv(velocity * (control_lag_us as i64), 1_000_000)
}

/// Predicts the angle at the moment the PWM update takes effect: the angle
/// advanced by `velocity · control_lag_us / 10⁶` counts, wrapping on `i32`.
pub fn estimate_control_angle<const BITS: usize>(
    angle: IntAngle<BITS>,
    velocity: i32,
    control_lag_us: u64,
) -> (r: IntAngle<BITS>)
    requires
        fits_i64(velocity * (control_lag_us as i64)),
    ensures
        r@ == angle@.wrapping_add(control_angle_delta(velocity, control_lag_us) as i32),
        1 <= BITS <= 30 ==> (r@ as int) % full_turn(BITS as nat)
            == (angle@ + (control_angle_delta(velocity, control_lag_us) as i32)) % full_turn(BITS as nat),
{
    // Using i64 prevents overflow during the multiplication.
    let delta_angle = (velocity as i64 * #[verifier::truncate] (control_lag_us as i64)) / 1_000_000;
    proof {
        lemma_tdiv_i64_facts(velocity * (control_lag_us as i64));
        let d = control_angle_delta(velocity, control_lag_us) as i32;
        if 1 <= BITS <= 30 {
            crate::angle::lemma_add_sub_congruent(angle@, d);
            crate::angle::lemma_wrap_exact_mod_turn(angle@ + d, angle@.wrapping_add(d) as int, BITS as nat);
        }
    }
    IntAngle::from_raw(angle.raw_value().wrapping_add(#[verifier::truncate] (delta_angle as i32)))
}

proof fn lemma_tdiv_i64_facts(x: int)
    requires
        fits_i64(x),
    ensures
        fits_i64(tdiv(x, 1_000_000)),
{
    crate::arith::lemma_tdiv_bound(x, 1_000_000);
}

/// `velocity` (counts/s of a `bits`-bit angle) times `num / den`, converted to
/// rad/s with 2π ≈ 6283/1000.
pub open spec fn velocity_to_rad_s(velocity: int, num: int, den: int, bits: nat) -> int {
    tdiv(num * velocity * TAU_INT_NUM, den * full_turn(bits) * TAU_INT_DEN)
}

/// Converts a velocity in counts per second to rad/s, multiplied by the
/// fraction `num / den`: `(num · velocity · 6283) / (den · 2^BITS · 1000)`.
pub fn frac_mul_velocity_to_rad_s<const BITS: usize>(velocity: i32, num: i64, den: i64) -> (r: i64)
    requires
        1 <= BITS <= 30,
        den != 0,
        fits_i64(num * velocity),
        fits_i64(num * velocity * TAU_INT_NUM),
        fits_i64(den * full_turn(BITS as nat)),
        fits_i64(den * full_turn(BITS as nat) * TAU_INT_DEN),
    ensures
        r == velocity_to_rad_s(velocity as int, num as int, den as int, BITS as nat),
{
    let full = IntAngle::<BITS>::a360().raw_value();
    proof {
        lemma_pow2_facts(BITS as nat, 30);
        assert(den * full != 0) by (nonlinear_arith) requires den != 0, full > 0;
    }
    let numerator = num * velocity as i64 * TAU_INT_NUM;
    let denominator = den * full as i64 * TAU_INT_DEN;
    div_i64(numerator, denominator)
}

/// `x` clamped to `[lo, hi]`.
pub open spec fn clamp(x: int, lo: int, hi: int) -> int {
    if x < lo {
        lo
    } else if x > hi {
        hi
    } else {
        x
    }
}

/// `x` clamped to `[lo, hi]` (`i32::clamp`, which panics when `lo > hi`).
fn clamp_i32(x: i32, lo: i32, hi: i32) -> (r: i32)
    requires
        lo <= hi,
    ensures
        r == clamp(x as int, lo as int, hi as int),
{
    if x < lo {
        lo
    } else if x > hi {
        hi
    } else {
        x
    }
}

/// The current of one axis after the current limit.
pub open spec fn limited_current<const BITS: usize, M: BldcMotor<BITS>>(current: int) -> int {
    clamp(current, -M::MAX_CURRENT, M::MAX_CURRENT as int)
}

/// The resistive voltage drop of the limited `current`: current times the
/// phase resistance (mΩ, hence the division by 1000).
pub open spec fn resistive_drop<const BITS: usize, M: BldcMotor<BITS>>(current: int) -> int {
    tdiv(limited_current::<BITS, M>(current) * M::PHASE_RESISTANCE, 1_000)
}

/// The estimated back-EMF voltage at `velocity`: the back-EMF coefficient times
/// the velocity in rad/s, truncated to `i32`.
pub open spec fn bemf_voltage<const BITS: usize, M: BldcMotor<BITS>>(velocity: int) -> int {
    velocity_to_rad_s(velocity, M::BACK_EMF_COEFFICIENT as int, 1, BITS as nat) as i32 as int
}

/// The q-axis flux linkage of the limited q current: current times the q-axis
/// inductance (µH, hence the division by 10⁶).
pub open spec fn flux_linkage_q<const BITS: usize, M: BldcMotor<BITS>>(q_current: int) -> int {
    tdiv(limited_current::<BITS, M>(q_current) * M::Q_AXIS_INDUCTANCE, 1_000_000)
}

/// The lag voltage: the q-axis flux linkage times the electrical velocity
/// (velocity times the pole pairs) in rad/s, truncated to `i32`.
pub open spec fn lag_voltage<const BITS: usize, M: BldcMotor<BITS>>(q_current: int, velocity: int) -> int {
    velocity_to_rad_s(
        velocity * M::POLE_PAIRS,
        flux_linkage_q::<BITS, M>(q_current),
        1,
        BITS as nat,
    ) as i32 as int
}

/// The q-axis voltage: resistive drop plus estimated back-EMF, then the voltage limit.
pub open spec fn q_axis_voltage<const BITS: usize, M: BldcMotor<BITS>>(q_current: int, velocity: int) -> int {
    clamp(
        resistive_drop::<BITS, M>(q_current) + bemf_voltage::<BITS, M>(velocity),
        -M::MAX_VOLTAGE,
        M::MAX_VOLTAGE as int,
    )
}

/// The d-axis voltage: resistive drop within the voltage limit, less the lag
/// voltage of the q-axis current.
pub open spec fn d_axis_voltage<const BITS: usize, M: BldcMotor<BITS>>(
    q_current: int,
    d_current: int,
    velocity: int,
) -> int {
    clamp(resistive_drop::<BITS, M>(d_current), -M::MAX_VOLTAGE, M::MAX_VOLTAGE as int)
        - lag_voltage::<BITS, M>(q_current, velocity)
}

/// The motor's limits are usable: both limits non-negative.
pub open spec fn limits_ok<const BITS: usize, M: BldcMotor<BITS>>() -> bool {
    M::MAX_CURRENT >= 0 && M::MAX_VOLTAGE >= 0
}

/// No step of the FOC computation on these currents and velocity overflows.
pub open spec fn foc_fits<const BITS: usize, M: BldcMotor<BITS>>(q_current: int, d_current: int, velocity: int) -> bool {
    let flux = flux_linkage_q::<BITS, M>(q_current);
    let electrical = velocity * M::POLE_PAIRS;
    &&& fits_i32(limited_current::<BITS, M>(q_current) * M::PHASE_RESISTANCE)
    &&& fits_i32(limited_current::<BITS, M>(d_current) * M::PHASE_RESISTANCE)
    &&& fits_i64(M::BACK_EMF_COEFFICIENT * velocity)
    &&& fits_i64(M::BACK_EMF_COEFFICIENT * velocity * TAU_INT_NUM)
    &&& fits_i32(resistive_drop::<BITS, M>(q_current) + bemf_voltage::<BITS, M>(velocity))
    &&& fits_i32(electrical)
    &&& fits_i32(limited_current::<BITS, M>(q_current) * M::Q_AXIS_INDUCTANCE)
    &&& fits_i64(flux * electrical)
    &&& fits_i64(flux * electrical * TAU_INT_NUM)
    &&& fits_i32(d_axis_voltage::<BITS, M>(q_current, d_current, velocity))
}

proof fn lemma_unit_den_fits(bits: nat)
    requires
        1 <= bits <= 30,
    ensures
        fits_i64(1 * full_turn(bits)),
        fits_i64(1 * full_turn(bits) * TAU_INT_DEN),
{
    lemma_pow2_facts(bits, 30);
}

/// Estimated-current FOC: turns q- and d-axis current targets into q- and
/// d-axis voltages. The q axis gets the resistive drop of the limited current
/// plus the estimated back-EMF, within the voltage limit; the d axis gets its
/// resistive drop within the voltage limit, less the inductive lag voltage of
/// the q current at the electrical velocity.
pub fn foc_algorithm<const BITS: usize, M: BldcMotor<BITS>>(
    q_axis_current_ma: i32,
    d_axis_current_ma: i32,
    velocity: i32,
) -> (r: (i32, i32))
    requires
        1 <= BITS <= 30,
        limits_ok::<BITS, M>(),
        foc_fits::<BITS, M>(q_axis_current_ma as int, d_axis_current_ma as int, velocity as int),
    ensures
        r.0 == q_axis_voltage::<BITS, M>(q_axis_current_ma as int, velocity as int),
        r.1 == d_axis_voltage::<BITS, M>(q_axis_current_ma as int, d_axis_current_ma as int, velocity as int),
{
    proof { lemma_unit_den_fits(BITS as nat); }
    // Feed-forwards
    let i_q_ff: i32 = 0;
    let i_d_ff: i32 = 0;
    let u_q_ff: i32 = 0;
    let u_d_ff: i32 = 0;

    // Q axis
    // 1. Current limit and feed-forward
    let i_q_limited = clamp_i32(q_axis_current_ma, -M::MAX_CURRENT, M::MAX_CURRENT);
    let i_q_total = i_q_limited + i_q_ff;
    // 2. Phase resistance drop (mΩ)
    let u_q_res = i_q_total * M::PHASE_RESISTANCE / 1_000;
    proof { crate::arith::lemma_tdiv_bound(i_q_total * M::PHASE_RESISTANCE, 1_000); }
    // 3. Estimated back-EMF (Ke times velocity)
    let u_bemf = #[verifier::truncate] (frac_mul_velocity_to_rad_s::<BITS>(velocity, M::BACK_EMF_COEFFICIENT as i64, 1) as i32);
    // 4. Resistive drop plus back-EMF
    let u_q_interp = u_q_res + u_bemf;
    // 5. Voltage limit and feed-forward
    let u_q_limited = clamp_i32(u_q_interp, -M::MAX_VOLTAGE, M::MAX_VOLTAGE);
    let u_q = u_q_limited + u_q_ff;

    // D axis
    // 1. Current limit and feed-forward
    let i_d_limited = clamp_i32(d_axis_current_ma, -M::MAX_CURRENT, M::MAX_CURRENT);
    let i_d_total = i_d_limited + i_d_ff;
    // 2. Phase resistance drop and voltage limit
    let u_d_res = i_d_total * M::PHASE_RESISTANCE / 1_000;
    proof { crate::arith::lemma_tdiv_bound(i_d_total * M::PHASE_RESISTANCE, 1_000); }
    let u_d_limited = clamp_i32(u_d_res, -M::MAX_VOLTAGE, M::MAX_VOLTAGE);
    // 3. Lag voltage: q flux linkage times electrical velocity
    let electrical_velocity = velocity * M::POLE_PAIRS;
    let flux_linkage_q = i_q_total * M::Q_AXIS_INDUCTANCE / 1_000_000;
    proof { crate::arith::lemma_tdiv_bound(i_q_total * M::Q_AXIS_INDUCTANCE, 1_000_000); }
    let u_lag = #[verifier::truncate] (frac_mul_velocity_to_rad_s::<BITS>(electrical_velocity, flux_linkage_q as i64, 1) as i32);
    // 4. Subtract the lag voltage and add the feed-forward
    let u_d = u_d_limited - u_lag + u_d_ff;

    (u_q, u_d)
}

/// The exact product of two `i32` values.
fn mul_wide(a: i32, b: i32) -> (r: i64)
    ensures
        r == a * b,
{
    proof {
        assert(-0x4000_0000_0000_0000 <= a * b <= 0x4000_0000_0000_0000) by (nonlinear_arith)
            requires
                i32::MIN <= a <= i32::MAX,
                i32::MIN <= b <= i32::MAX;
    }
    a as i64 * b as i64
}

fn fits_i32_exec(x: i64) -> (b: bool)
    ensures
        b == fits_i32(x as int),
{
    x >= i32::MIN as i64 && x <= i32::MAX as i64
}

/// Whether the FOC computation on these currents and velocity runs without
/// overflow (see [`foc_fits`]).
pub fn foc_can_run<const BITS: usize, M: BldcMotor<BITS>>(
    q_axis_current_ma: i32,
    d_axis_current_ma: i32,
    velocity: i32,
) -> (b: bool)
    requires
        1 <= BITS <= 30,
        limits_ok::<BITS, M>(),
    ensures
        b == foc_fits::<BITS, M>(q_axis_current_ma as int, d_axis_current_ma as int, velocity as int),
{
    proof { lemma_unit_den_fits(BITS as nat); }
    let i_q = clamp_i32(q_axis_current_ma, -M::MAX_CURRENT, M::MAX_CURRENT);
    let i_d = clamp_i32(d_axis_current_ma, -M::MAX_CURRENT, M::MAX_CURRENT);
    let drop_q = mul_wide(i_q, M::PHASE_RESISTANCE);
    if !fits_i32_exec(drop_q) {
        return false;
    }
    let drop_d = mul_wide(i_d, M::PHASE_RESISTANCE);
    if !fits_i32_exec(drop_d) {
        return false;
    }
    let k = M::BACK_EMF_COEFFICIENT as i64;
    let kv = match k.checked_mul(velocity as i64) {
        Some(x) => x,
        None => return false,
    };
    if kv.checked_mul(TAU_INT_NUM).is_none() {
        return false;
    }
    let u_bemf = #[verifier::truncate] (frac_mul_velocity_to_rad_s::<BITS>(velocity, k, 1) as i32);
    proof { crate::arith::lemma_tdiv_bound(i_q * M::PHASE_RESISTANCE, 1_000); }
    let u_q_res = (drop_q as i32) / 1_000;
    if !fits_i32_exec(u_q_res as i64 + u_bemf as i64) {
        return false;
    }
    let electrical = mul_wide(velocity, M::POLE_PAIRS);
    if !fits_i32_exec(electrical) {
        return false;
    }
    let flux_raw = mul_wide(i_q, M::Q_AXIS_INDUCTANCE);
    if !fits_i32_exec(flux_raw) {
        return false;
    }
    proof { crate::arith::lemma_tdiv_bound(i_q * M::Q_AXIS_INDUCTANCE, 1_000_000); }
    let flux = (flux_raw as i32) / 1_000_000;
    let fe = match (flux as i64).checked_mul(electrical) {
        Some(x) => x,
        None => return false,
    };
    if fe.checked_mul(TAU_INT_NUM).is_none() {
        return false;
    }
    let u_lag = #[verifier::truncate] (frac_mul_velocity_to_rad_s::<BITS>(electrical as i32, flux as i64, 1) as i32);
    proof { crate::arith::lemma_tdiv_bound(i_d * M::PHASE_RESISTANCE, 1_000); }
    let u_d_limited = clamp_i32((drop_d as i32) / 1_000, -M::MAX_VOLTAGE, M::MAX_VOLTAGE);
    fits_i32_exec(u_d_limited as i64 - u_lag as i64)
}

/// The FOC output respects the motor's limits: the current entering the
/// computation lies within `±MAX_CURRENT`, the q-axis voltage within
/// `±MAX_VOLTAGE`, and the d-axis voltage before the lag compensation within
/// `±MAX_VOLTAGE`, whatever current and velocity are given.
pub proof fn lemma_voltage_within_limits<const BITS: usize, M: BldcMotor<BITS>>(
    q_current: int,
    d_current: int,
    velocity: int,
)
    requires
        limits_ok::<BITS, M>(),
    ensures
        -M::MAX_CURRENT <= limited_current::<BITS, M>(q_current) <= M::MAX_CURRENT,
        -M::MAX_VOLTAGE <= q_axis_voltage::<BITS, M>(q_current, velocity) <= M::MAX_VOLTAGE,
        -M::MAX_VOLTAGE <= d_axis_voltage::<BITS, M>(q_current, d_current, velocity)
            + lag_voltage::<BITS, M>(q_current, velocity) <= M::MAX_VOLTAGE,
{
}

/// At rest and with no torque asked for, a control cycle commands no voltage
/// on either axis.
pub proof fn lemma_zero_torque_zero_voltage<const BITS: usize, M: BldcMotor<BITS>>()
    requires
        limits_ok::<BITS, M>(),
        M::TORQUE_COEFFICIENT != 0,
    ensures
        q_current_of::<BITS, M>(0) == 0,
        q_axis_voltage::<BITS, M>(q_current_of::<BITS, M>(0), 0) == 0,
        d_axis_voltage::<BITS, M>(q_current_of::<BITS, M>(0), 0, 0) == 0,
{
    let tc = M::TORQUE_COEFFICIENT as int;
    let r = M::PHASE_RESISTANCE as int;
    let l = M::Q_AXIS_INDUCTANCE as int;
    let k = M::BACK_EMF_COEFFICIENT as int;
    let pp = M::POLE_PAIRS as int;
    assert(0int / tc == 0) by (nonlinear_arith) requires tc != 0;
    assert(0int * r == 0) by (nonlinear_arith);
    assert(0int * l == 0) by (nonlinear_arith);
    assert(k * 0int * TAU_INT_NUM == 0) by (nonlinear_arith);
    assert(0int * pp == 0) by (nonlinear_arith);
    let f = flux_linkage_q::<BITS, M>(0);
    assert(f * 0int * TAU_INT_NUM == 0) by (nonlinear_arith);
    assert(0int / 1000 == 0);
    assert(0int / 1_000_000 == 0);
    let d = 1 * full_turn(BITS as nat) * TAU_INT_DEN;
    lemma_pow2_facts(BITS as nat, 0);
    assert(0int / d == 0) by (nonlinear_arith) requires d > 0;
}

/// Rust's truncating division is odd: `tdiv(-a, b) == -tdiv(a, b)`.
proof fn lemma_tdiv_odd(a: int, b: int)
    requires
        b != 0,
    ensures
        tdiv(-a, b) == -tdiv(a, b),
{
    if a == 0 {
        assert(0int / b == 0) by (nonlinear_arith) requires b != 0;
    }
}

/// Rust's truncating division by a positive divisor is monotone.
proof fn lemma_tdiv_monotone(a1: int, a2: int, b: int)
    requires
        b > 0,
        a1 <= a2,
    ensures
        tdiv(a1, b) <= tdiv(a2, b),
{
    crate::arith::lemma_tdiv_bound(a1, b);
    crate::arith::lemma_tdiv_bound(a2, b);
    if a1 >= 0 {
        vstd::arithmetic::div_mod::lemma_div_is_ordered(a1, a2, b);
    } else if a2 < 0 {
        vstd::arithmetic::div_mod::lemma_div_is_ordered(-a2, -a1, b);
    }
}

/// The velocity conversion is odd in the velocity: reversing the velocity
/// reverses the result exactly (the division truncates toward zero).
pub proof fn lemma_velocity_to_rad_s_odd(velocity: int, num: int, den: int, bits: nat)
    requires
        den != 0,
    ensures
        velocity_to_rad_s(-velocity, num, den, bits) == -velocity_to_rad_s(velocity, num, den, bits),
{
    let a = num * velocity * TAU_INT_NUM;
    assert(num * (-velocity) * TAU_INT_NUM == -a) by (nonlinear_arith)
        requires a == num * velocity * TAU_INT_NUM;
    lemma_pow2_facts(bits, 0);
    let d = den * full_turn(bits) * TAU_INT_DEN;
    assert(d != 0) by (nonlinear_arith) requires den != 0, full_turn(bits) > 0, d == den * full_turn(bits) * TAU_INT_DEN;
    lemma_tdiv_odd(a, d);
}

/// At rest, reversing both requested currents reverses both voltages exactly.
pub proof fn lemma_foc_odd_at_rest<const BITS: usize, M: BldcMotor<BITS>>(q_current: int, d_current: int)
    requires
        limits_ok::<BITS, M>(),
    ensures
        q_axis_voltage::<BITS, M>(-q_current, 0) == -q_axis_voltage::<BITS, M>(q_current, 0),
        d_axis_voltage::<BITS, M>(-q_current, -d_current, 0)
            == -d_axis_voltage::<BITS, M>(q_current, d_current, 0),
{
    let r = M::PHASE_RESISTANCE as int;
    let k = M::BACK_EMF_COEFFICIENT as int;
    let pp = M::POLE_PAIRS as int;
    let lq = limited_current::<BITS, M>(q_current);
    let ld = limited_current::<BITS, M>(d_current);
    assert(limited_current::<BITS, M>(-q_current) == -lq);
    assert(limited_current::<BITS, M>(-d_current) == -ld);
    assert((-lq) * r == -(lq * r)) by (nonlinear_arith);
    assert((-ld) * r == -(ld * r)) by (nonlinear_arith);
    lemma_tdiv_odd(lq * r, 1_000);
    lemma_tdiv_odd(ld * r, 1_000);
    // no back-EMF and no lag voltage at rest
    let d = 1 * full_turn(BITS as nat) * TAU_INT_DEN;
    assert(k * 0int * TAU_INT_NUM == 0) by (nonlinear_arith);
    assert(0int * pp == 0) by (nonlinear_arith);
    let f1 = flux_linkage_q::<BITS, M>(q_current);
    let f2 = flux_linkage_q::<BITS, M>(-q_current);
    assert(f1 * 0int * TAU_INT_NUM == 0) by (nonlinear_arith);
    assert(f2 * 0int * TAU_INT_NUM == 0) by (nonlinear_arith);
    lemma_pow2_facts(BITS as nat, 0);
    assert(0int / d == 0) by (nonlinear_arith) requires d > 0;
    assert(bemf_voltage::<BITS, M>(0) == 0);
    assert(lag_voltage::<BITS, M>(q_current, 0) == 0);
    assert(lag_voltage::<BITS, M>(-q_current, 0) == 0);
}

/// Asking for more q-axis current never yields less q-axis voltage (for a
/// non-negative phase resistance), at any velocity.
pub proof fn lemma_q_voltage_monotone<const BITS: usize, M: BldcMotor<BITS>>(q1: int, q2: int, velocity: int)
    requires
        limits_ok::<BITS, M>(),
        M::PHASE_RESISTANCE >= 0,
        q1 <= q2,
    ensures
        q_axis_voltage::<BITS, M>(q1, velocity) <= q_axis_voltage::<BITS, M>(q2, velocity),
{
    let r = M::PHASE_RESISTANCE as int;
    let l1 = limited_current::<BITS, M>(q1);
    let l2 = limited_current::<BITS, M>(q2);
    assert(l1 <= l2);
    assert(l1 * r <= l2 * r) by (nonlinear_arith)
        requires l1 <= l2, r >= 0;
    lemma_tdiv_monotone(l1 * r, l2 * r, 1_000);
}

/// The output of a control cycle before modulation: the electrical angle at
/// which the field is to point and the q- and d-axis voltages (mV).
#[derive(Clone, Copy, Debug)]
pub struct VoltageCommand<const BITS: usize> {
    pub electrical_angle: IntAngle<BITS>,
    pub q_axis_voltage_mv: i32,
    pub d_axis_voltage_mv: i32,
}

/// The q-axis current asked for by `target_torque`.
pub open spec fn q_current_of<const BITS: usize, M: BldcMotor<BITS>>(target_torque: int) -> int {
    tdiv(target_torque, M::TORQUE_COEFFICIENT as int)
}

/// A control cycle can run on `kin_data` and `target_torque` without panicking.
pub open spec fn cycle_ok<const BITS: usize, M: BldcMotor<BITS>>(kin_data: KinematicEst<BITS>, target_torque: i32) -> bool {
    &&& 1 <= BITS <= 30
    &&& limits_ok::<BITS, M>()
    &&& M::TORQUE_COEFFICIENT != 0
    &&& !(target_torque == i32::MIN && M::TORQUE_COEFFICIENT == -1)
    &&& fits_i64(kin_data.velocity * (M::PWM_CONTROL_LAG_US as i64))
    &&& foc_fits::<BITS, M>(q_current_of::<BITS, M>(target_torque as int), 0, kin_data.velocity as int)
}

/// The command a control cycle produces for `kin_data` and `target_torque`.
pub open spec fn cycle_command<const BITS: usize, M: BldcMotor<BITS>>(
    kin_data: KinematicEst<BITS>,
    target_torque: i32,
    r: VoltageCommand<BITS>,
) -> bool {
    let control_raw = kin_data.angle@.wrapping_add(
        control_angle_delta(kin_data.velocity, M::PWM_CONTROL_LAG_US) as i32,
    );
    &&& r.electrical_angle@ == control_raw.wrapping_mul(M::POLE_PAIRS)
    &&& r.q_axis_voltage_mv == q_axis_voltage::<BITS, M>(
        q_current_of::<BITS, M>(target_torque as int),
        kin_data.velocity as int,
    )
    &&& r.d_axis_voltage_mv == d_axis_voltage::<BITS, M>(
        q_current_of::<BITS, M>(target_torque as int),
        0,
        kin_data.velocity as int,
    )
}

/// One control cycle: predicts the control angle from the estimate, turns the
/// torque target into a q-axis current (d-axis current 0), runs the FOC
/// voltage computation, and scales the angle to electrical degrees by the
/// pole pairs.
pub fn controller_cycle<const BITS: usize, M: BldcMotor<BITS>>(
    kin_data: KinematicEst<BITS>,
    target_torque: i32,
) -> (r: VoltageCommand<BITS>)
    requires
        cycle_ok::<BITS, M>(kin_data, target_torque),
    ensures
        cycle_command::<BITS, M>(kin_data, target_torque, r),
{
    let control_angle = estimate_control_angle(kin_data.angle, kin_data.velocity, M::PWM_CONTROL_LAG_US);

    let target_q_axis_current_ma = div_i32(target_torque, M::TORQUE_COEFFICIENT);

    let (q_axis_voltage_mv, d_axis_voltage_mv) = foc_algorithm::<BITS, M>(
        target_q_axis_current_ma,
        0,
        kin_data.velocity,
    );

    VoltageCommand {
        electrical_angle: control_angle.times(M::POLE_PAIRS),
        q_axis_voltage_mv,
        d_axis_voltage_mv,
    }
}

/// Whether a control cycle on `kin_data` and `target_torque` runs without
/// panicking (see [`cycle_ok`]).
pub fn can_cycle<const BITS: usize, M: BldcMotor<BITS>>(kin_data: KinematicEst<BITS>, target_torque: i32) -> (b: bool)
    ensures
        b == cycle_ok::<BITS, M>(kin_data, target_torque),
{
    if M::MAX_CURRENT < 0 || M::MAX_VOLTAGE < 0 || M::TORQUE_COEFFICIENT == 0 {
        return false;
    }
    if target_torque == i32::MIN && M::TORQUE_COEFFICIENT == -1 {
        return false;
    }
    let lag = #[verifier::truncate] (M::PWM_CONTROL_LAG_US as i64);
    if (kin_data.velocity as i64).checked_mul(lag).is_none() {
        return false;
    }
    if BITS < 1 || BITS > 30 {
        return false;
    }
    let i_q = div_i32(target_torque, M::TORQUE_COEFFICIENT);
    foc_can_run::<BITS, M>(i_q, 0, kin_data.velocity)
}

/// The decision of the controller task on a PWM wake-up: a cycle runs only when
/// both an estimate and a torque target are available.
pub fn controller_step<const BITS: usize, M: BldcMotor<BITS>>(
    kin_data: Option<KinematicEst<BITS>>,
    target_torque: Option<i32>,
) -> (r: Option<VoltageCommand<BITS>>)
    requires
        kin_data is Some && target_torque is Some ==> cycle_ok::<BITS, M>(kin_data->0, target_torque->0),
    ensures
        r is Some <==> (kin_data is Some && target_torque is Some),
        r is Some ==> cycle_command::<BITS, M>(kin_data->0, target_torque->0, r->0),
{
    match (kin_data, target_torque) {
        (Some(kin), Some(torque)) => Some(controller_cycle::<BITS, M>(kin, torque)),
        _ => None,
    }
}

} // verus!

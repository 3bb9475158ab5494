use bldc_driver::arith::{i64_saturating_add, i64_saturating_mul};
use bldc_driver::encoder::{as5048a_angle, decode_as5048a};
use bldc_driver::angle::IntAngle;
use bldc_driver::controller::{
    controller_cycle, controller_step, estimate_control_angle, foc_algorithm,
    frac_mul_velocity_to_rad_s,
};
use bldc_driver::hal::{BldcMotor, EncoderData};
use bldc_driver::pll::{KinematicEst, PllConfigError, PllObserver};
use bldc_driver::sim::{TestMotor, _wrap_angle_around_0, AngleIterItem};

/// A motor whose voltage limit is below its resistive drop at full current.
struct LowVoltageMotor {}

impl BldcMotor<14> for LowVoltageMotor {
    const PHASE_RESISTANCE: i32 = 5600;
    const Q_AXIS_INDUCTANCE: i32 = 4600;
    const POLE_PAIRS: i32 = 7;
    const BACK_EMF_COEFFICIENT: i32 = 47_000_000;
    const TORQUE_COEFFICIENT: i32 = 70;
    const MAX_VOLTAGE: i32 = 5_000;
    const MAX_CURRENT: i32 = 2_000;
    const PWM_CONTROL_LAG_US: u64 = 100;
    const PWM_TOP: u32 = 1250;
    const PWM_FREQ: u32 = 60000;
}

#[test]
fn angle_constants_and_raw_values() {
    assert_eq!(IntAngle::<14>::a360().raw_value(), 16384);
    assert_eq!(IntAngle::<14>::a180().raw_value(), 8192);
    assert_eq!(IntAngle::<12>::a360().raw_value(), 4096);
    assert_eq!(IntAngle::<14>::from_raw(-5).raw_value(), -5);
    assert_eq!(IntAngle::<14>::default().raw_value(), 0);
}

#[test]
fn angle_times_wraps_on_i32() {
    assert_eq!(IntAngle::<14>::from_raw(1000).times(7).raw_value(), 7000);
    assert_eq!(IntAngle::<14>::from_raw(i32::MAX).times(2).raw_value(), -2);
}

#[test]
fn wrap_angle_around_zero_moves_by_one_turn() {
    assert_eq!(_wrap_angle_around_0(IntAngle::<14>::from_raw(9000)), 9000 - 16384);
    assert_eq!(_wrap_angle_around_0(IntAngle::<14>::from_raw(-9000)), -9000 + 16384);
    assert_eq!(_wrap_angle_around_0(IntAngle::<14>::from_raw(8192)), 8192);
    assert_eq!(_wrap_angle_around_0(IntAngle::<14>::from_raw(-8192)), -8192);
    assert_eq!(_wrap_angle_around_0(IntAngle::<14>::from_raw(100)), 100);
}

#[test]
fn control_angle_advances_by_velocity_times_lag() {
    let a = IntAngle::<14>::from_raw(1000);
    assert_eq!(estimate_control_angle(a, 20_000, 100).raw_value(), 1002);
    // rounding toward zero: -1.5 counts becomes -1
    assert_eq!(estimate_control_angle(a, -15_000, 100).raw_value(), 999);
    assert_eq!(estimate_control_angle(a, 123_456, 0).raw_value(), 1000);
    let top = IntAngle::<14>::from_raw(i32::MAX);
    assert_eq!(
        estimate_control_angle(top, 1_000_000, 1_000_000).raw_value(),
        i32::MIN + 999_999
    );
}

#[test]
fn velocity_to_rad_s_uses_integer_tau() {
    assert_eq!(frac_mul_velocity_to_rad_s::<14>(16384, 1, 1), 6);
    assert_eq!(frac_mul_velocity_to_rad_s::<14>(-16384, 1, 1), -6);
    assert_eq!(frac_mul_velocity_to_rad_s::<14>(163_840, 1, 1), 62);
    assert_eq!(frac_mul_velocity_to_rad_s::<14>(16384, 1, -1), -6);
    assert_eq!(frac_mul_velocity_to_rad_s::<14>(16384, 7, 2), 21);
}

#[test]
fn foc_resistive_drop() {
    assert_eq!(foc_algorithm::<14, TestMotor>(1000, 0, 0), (5600, 0));
    // current limit at 2000
    assert_eq!(foc_algorithm::<14, TestMotor>(5000, -5000, 0), (11200, -11200));
    // division rounds toward zero
    assert_eq!(foc_algorithm::<14, TestMotor>(-1, 1, 0), (-5, 5));
}

#[test]
fn foc_adds_back_emf_on_q_and_lag_on_d() {
    // one turn per second: the back-EMF term (47e6 * 16384 * 6283 / 16384e3)
    // saturates the q axis; the lag of 4 mWb at 7 * 6.283 rad/s is 175 mV
    assert_eq!(foc_algorithm::<14, TestMotor>(1000, 0, 16384), (12000, -175));
    assert_eq!(foc_algorithm::<14, TestMotor>(1000, 0, 1_000_000), (12000, -10737));
    assert_eq!(foc_algorithm::<14, TestMotor>(2000, 0, 1000), (12000, -24));
    // one count per second already adds 18023 mV of back-EMF
    assert_eq!(foc_algorithm::<14, TestMotor>(1000, 0, 1), (12000, 0));
    assert_eq!(foc_algorithm::<14, TestMotor>(1000, 0, -3), (-12000, 0));
    assert_eq!(foc_algorithm::<14, LowVoltageMotor>(1000, 0, 16384), (5000, -175));
}

#[test]
fn foc_voltage_limit() {
    assert_eq!(foc_algorithm::<14, LowVoltageMotor>(2000, -2000, 0), (5000, -5000));
    assert_eq!(foc_algorithm::<14, LowVoltageMotor>(500, -500, 0), (2800, -2800));
}

#[test]
fn controller_cycle_commands_q_axis_voltage() {
    let kin = KinematicEst { angle: IntAngle::<14>::from_raw(1000), velocity: 0, timestamp: 5 };
    let cmd = controller_cycle::<14, TestMotor>(kin, 70_000);
    assert_eq!(cmd.electrical_angle.raw_value(), 7000);
    assert_eq!(cmd.q_axis_voltage_mv, 5600);
    assert_eq!(cmd.d_axis_voltage_mv, 0);
    let cmd = controller_cycle::<14, TestMotor>(kin, -71);
    assert_eq!(cmd.q_axis_voltage_mv, -5);
}

#[test]
fn controller_cycle_predicts_angle_with_lag() {
    let kin = KinematicEst { angle: IntAngle::<14>::from_raw(1000), velocity: 20_000, timestamp: 0 };
    let cmd = controller_cycle::<14, LowVoltageMotor>(kin, 1_000_000);
    // 1000 + 20000 * 100 / 10^6 = 1002, times 7 pole pairs
    assert_eq!(cmd.electrical_angle.raw_value(), 7014);
    assert_eq!(cmd.q_axis_voltage_mv, 5000);
    assert_eq!(cmd.d_axis_voltage_mv, -483);
}

#[test]
fn controller_step_needs_both_inputs() {
    let kin = KinematicEst { angle: IntAngle::<14>::from_raw(10), velocity: 0, timestamp: 0 };
    assert!(controller_step::<14, TestMotor>(Some(kin), None).is_none());
    assert!(controller_step::<14, TestMotor>(None, Some(5)).is_none());
    assert!(controller_step::<14, TestMotor>(None, None).is_none());
    let cmd = controller_step::<14, TestMotor>(Some(kin), Some(700)).unwrap();
    assert_eq!(cmd.electrical_angle.raw_value(), 70);
    assert_eq!(cmd.q_axis_voltage_mv, 56);
}

#[test]
fn pll_config_accepts_simulation_tuning() {
    assert_eq!(PllObserver::<14>::check_config(10, 6283, 2200), Ok(()));
}

#[test]
fn pll_config_gain_overflow() {
    assert_eq!(PllObserver::<14>::check_config(10, 2_000_000, 2200), Err(PllConfigError::GainOverflow));
    assert_eq!(PllObserver::<14>::check_config(i32::MAX, 1_500_000, 0), Err(PllConfigError::GainOverflow));
}

#[test]
fn pll_config_integral_overflow() {
    assert_eq!(PllObserver::<14>::check_config(1000, 1_000_000, 2200), Err(PllConfigError::IntegralOverflow));
}

#[test]
fn pll_config_integrator_overflow() {
    assert_eq!(PllObserver::<14>::check_config(i32::MAX, 1, i32::MAX), Err(PllConfigError::IntegratorOverflow));
}

#[test]
fn pll_config_speed_out_of_range() {
    assert_eq!(PllObserver::<14>::check_config(10, 6283, -1), Err(PllConfigError::SpeedOutOfRange));
    assert_eq!(PllObserver::<24>::check_config(10, 6283, 100_000), Err(PllConfigError::SpeedOutOfRange));
}

#[test]
fn pll_starts_at_zero() {
    let pll = PllObserver::<14>::new(10, 6283, 2200);
    assert_eq!(pll.angle_est().raw_value(), 0);
}

#[test]
fn pll_tracks_a_step() {
    let mut pll = PllObserver::<14>::new(10, 6283, 2200);
    let a = IntAngle::<14>::from_raw(100);
    assert!(pll.can_update(a));
    let (angle, velocity) = pll.update(a);
    assert_eq!((angle.raw_value(), velocity), (9, 39476));
    let (angle, velocity) = pll.update(a);
    assert_eq!((angle.raw_value(), velocity), (18, 75289));
    let (angle, velocity) = pll.update(a);
    assert_eq!((angle.raw_value(), velocity), (26, 107623));
    let (angle, velocity) = pll.update(IntAngle::<14>::from_raw(200));
    assert_eq!((angle.raw_value(), velocity), (43, 176137));
    assert_eq!(pll.angle_est().raw_value(), 43);
}

#[test]
fn pll_takes_a_half_turn_error() {
    // 200 Hz bandwidth: kp = 1775, and 1775 * 2^23 does not fit in i32
    let mut pll = PllObserver::<14>::new(10, 1256, 2200);
    let half = IntAngle::<14>::from_raw(8192);
    assert!(pll.can_update(half));
    let (angle, velocity) = pll.update(half);
    assert_eq!((angle.raw_value(), velocity), (146, 129231));
    let mut pll = PllObserver::<14>::new(10, 6283, 2200);
    let near_half = IntAngle::<14>::from_raw(8000);
    assert!(pll.can_update(near_half));
    let (angle, velocity) = pll.update(near_half);
    assert_eq!((angle.raw_value(), velocity), (742, 3158087));
}

#[test]
fn pll_refuses_an_overflowing_error() {
    // ki_ts = -2^40 passes the constructor's check (ki_ts * 2^23 is i64::MIN),
    // but an error of minus half a turn makes the integral product 2^63
    assert_eq!(PllObserver::<14>::check_config(-1_048_576, 1024, 0), Ok(()));
    let pll = PllObserver::<14>::new(-1_048_576, 1024, 0);
    assert!(!pll.can_update(IntAngle::<14>::from_raw(-8192)));
}

#[test]
fn encoder_and_sim_records_hold_their_fields() {
    let e = EncoderData { angle: IntAngle::<14>::from_raw(77), timestamp: 12 };
    assert_eq!((e.angle.raw_value(), e.timestamp), (77, 12));
    let item = AngleIterItem { ts: 3, angle: IntAngle::<14>::from_raw(5), velocity: -2 };
    assert_eq!((item.ts, item.angle.raw_value(), item.velocity), (3, 5, -2));
}

#[test]
fn pll_wraps_error_and_estimate_across_zero() {
    let mut pll = PllObserver::<14>::new(10, 6283, 2200);
    // 16380 counts is 4 counts short of a full turn: the error wraps to -4096
    // at 24 bits, and the estimate wraps below zero to just under a full turn.
    let a = IntAngle::<14>::from_raw(16380);
    assert!(pll.can_update(a));
    let (angle, velocity) = pll.update(a);
    assert_eq!((angle.raw_value(), velocity), (16383, -1580));
}

#[test]
fn zero_torque_commands_zero_voltage() {
    let kin = KinematicEst { angle: IntAngle::<14>::from_raw(1234), velocity: 0, timestamp: 0 };
    let cmd = controller_cycle::<14, TestMotor>(kin, 0);
    assert_eq!((cmd.q_axis_voltage_mv, cmd.d_axis_voltage_mv), (0, 0));
    assert!(bldc_driver::controller::can_cycle::<14, TestMotor>(kin, 0));
    // moving, the q axis still carries the back-EMF
    let moving = KinematicEst { angle: IntAngle::<14>::from_raw(1234), velocity: 5000, timestamp: 0 };
    let cmd = controller_cycle::<14, TestMotor>(moving, 0);
    assert_eq!((cmd.q_axis_voltage_mv, cmd.d_axis_voltage_mv), (12000, 0));
}

/// A motor whose torque coefficient would divide by zero.
struct BrokenMotor {}

impl BldcMotor<14> for BrokenMotor {
    const PHASE_RESISTANCE: i32 = 5600;
    const Q_AXIS_INDUCTANCE: i32 = 4600;
    const POLE_PAIRS: i32 = 7;
    const BACK_EMF_COEFFICIENT: i32 = 47_000_000;
    const TORQUE_COEFFICIENT: i32 = 0;
    const MAX_VOLTAGE: i32 = 12_000;
    const MAX_CURRENT: i32 = 2_000_000;
    const PWM_CONTROL_LAG_US: u64 = 0;
    const PWM_TOP: u32 = 1250;
    const PWM_FREQ: u32 = 60000;
}

/// A motor whose resistive drop overflows `i32` at full current.
struct HighCurrentMotor {}

impl BldcMotor<14> for HighCurrentMotor {
    const PHASE_RESISTANCE: i32 = 5600;
    const Q_AXIS_INDUCTANCE: i32 = 4600;
    const POLE_PAIRS: i32 = 7;
    const BACK_EMF_COEFFICIENT: i32 = 47_000_000;
    const TORQUE_COEFFICIENT: i32 = 70;
    const MAX_VOLTAGE: i32 = 12_000_000;
    const MAX_CURRENT: i32 = 2_000_000;
    const PWM_CONTROL_LAG_US: u64 = 0;
    const PWM_TOP: u32 = 1250;
    const PWM_FREQ: u32 = 60000;
}

#[test]
fn cycle_refused_where_it_would_panic() {
    let kin = KinematicEst { angle: IntAngle::<14>::from_raw(0), velocity: 0, timestamp: 0 };
    assert!(!bldc_driver::controller::can_cycle::<14, BrokenMotor>(kin, 100));
    // 1_000_000_000 / 70 is clamped to 2_000_000; times 5600 overflows i32
    assert!(!bldc_driver::controller::can_cycle::<14, HighCurrentMotor>(kin, 1_000_000_000));
    // 7_000_000 / 70 = 100_000; times 5600 = 560_000_000 fits
    assert!(bldc_driver::controller::can_cycle::<14, HighCurrentMotor>(kin, 7_000_000));
    let cmd = controller_cycle::<14, HighCurrentMotor>(kin, 7_000_000);
    assert_eq!(cmd.q_axis_voltage_mv, 560_000);
}

#[test]
fn as5048a_frame_fields() {
    let f = decode_as5048a([0xFF, 0xFF]);
    assert_eq!((f.parity, f.error, f.angle_raw), (1, 1, 16383));
    let f = decode_as5048a([0x12, 0x34]);
    assert_eq!((f.parity, f.error, f.angle_raw), (0, 0, 0x1234));
    let f = decode_as5048a([0x80, 0x01]);
    assert_eq!((f.parity, f.error, f.angle_raw), (1, 0, 1));
    assert_eq!(as5048a_angle([0xFF, 0xFF]).raw_value(), -16383 - 7781);
    assert_eq!(as5048a_angle([0x12, 0x34]).raw_value(), -0x1234 - 7781);
    assert_eq!(as5048a_angle([0x40, 0x00]).raw_value(), -7781);
}

#[test]
fn angle_negate_and_minus() {
    let a = IntAngle::<14>::from_raw(100);
    assert_eq!(a.negate().raw_value(), -100);
    assert_eq!(a.minus(IntAngle::from_raw(250)).raw_value(), -150);
    assert_eq!(IntAngle::<14>::from_raw(i32::MIN).negate().raw_value(), i32::MIN);
}

#[test]
fn pll_config_counts_the_proportional_branch_at_max_speed() {
    // With a negative gain the proportional branch lowers the worst-case loop
    // output enough for the integrator product to fit; the speed check then fails.
    assert_eq!(
        PllObserver::<14>::check_config(1_000_000, -1048, 31_430_000),
        Err(PllConfigError::SpeedOutOfRange)
    );
}

#[test]
fn pll_locked_at_rest_stays_put() {
    let mut pll = PllObserver::<14>::new(10, 6283, 2200);
    let zero = IntAngle::<14>::from_raw(0);
    for _ in 0..3 {
        assert!(pll.can_update(zero));
        let (angle, velocity) = pll.update(zero);
        assert_eq!((angle.raw_value(), velocity), (0, 0));
    }
}

#[test]
fn saturating_arithmetic_clamps_to_i64() {
    assert_eq!(i64_saturating_mul(1775, 0x80_0000), 1775 * 0x80_0000);
    assert_eq!(i64_saturating_mul(i64::MAX, 2), i64::MAX);
    assert_eq!(i64_saturating_mul(i64::MIN, 2), i64::MIN);
    assert_eq!(i64_saturating_mul(i64::MIN, -1), i64::MAX);
    assert_eq!(i64_saturating_mul(-3, i64::MAX), i64::MIN);
    assert_eq!(i64_saturating_add(i64::MAX, 1), i64::MAX);
    assert_eq!(i64_saturating_add(i64::MIN, -1), i64::MIN);
    assert_eq!(i64_saturating_add(-5, 3), -2);
}

#[test]
fn velocity_conversion_is_odd() {
    for v in [1, 1000, 16384, 123_457, 1_000_000] {
        assert_eq!(
            frac_mul_velocity_to_rad_s::<14>(-v, 47_000, 3),
            -frac_mul_velocity_to_rad_s::<14>(v, 47_000, 3)
        );
    }
    assert_eq!(frac_mul_velocity_to_rad_s::<14>(-3000, 1, 1), -1);
}

#[test]
fn foc_reverses_with_the_currents_at_rest() {
    for (q, d) in [(1000, 0), (1, -1), (2500, 300), (-777, 1999), (0, 0)] {
        let (u, w) = foc_algorithm::<14, TestMotor>(q, d, 0);
        assert_eq!(foc_algorithm::<14, TestMotor>(-q, -d, 0), (-u, -w));
    }
    assert_eq!(foc_algorithm::<14, TestMotor>(-2500, -300, 0), (-11200, -1680));
}

#[test]
fn more_q_current_never_gives_less_q_voltage() {
    let mut last = i32::MIN;
    for q in [-5000, -2000, -1, 0, 1, 999, 1000, 1500, 2000, 3000] {
        let (u, _) = foc_algorithm::<14, LowVoltageMotor>(q, 0, 0);
        assert!(u >= last);
        last = u;
    }
    assert_eq!(last, 5000);
}

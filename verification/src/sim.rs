//! Data of the host-side simulation harness: the simulated encoder samples,
//! the simulated motor and the angle unwrapping used when exporting traces.
use vstd::prelude::*;
use crate::angle::{IntAngle, full_turn, half_turn};
use crate::hal::BldcMotor;

verus! {

/// Angle resolution of the simulated encoder.
pub const SIM_BITS: usize = 14;

/// One simulated encoder sample: time (µs), angle and the true velocity (counts/s).
#[derive(Clone, Copy, Debug)]
pub struct AngleIterItem {
    pub ts: u64,
    pub angle: IntAngle<14>,
    pub velocity: i32,
}

/// The GBM2804H-100T gimbal motor on a 12 V driver, as used by the simulation.
pub struct TestMotor {}

impl BldcMotor<14> for TestMotor {
    const PHASE_RESISTANCE: i32 = 5600;
    const Q_AXIS_INDUCTANCE: i32 = 4600;
    const POLE_PAIRS: i32 = 7;
    const BACK_EMF_COEFFICIENT: i32 = 47_000_000;
    const TORQUE_COEFFICIENT: i32 = 70;
    const MAX_VOLTAGE: i32 = 12_000;
    const MAX_CURRENT: i32 = 2_000;
    // The simulation applies each command at once: no PWM lag.
    const PWM_CONTROL_LAG_US: u64 = 0;
    const PWM_TOP: u32 = 1250;
    const PWM_FREQ: u32 = 60000;
}

/// The simulated motor's parameters, as seen from other modules.
pub proof fn lemma_test_motor_parameters()
    ensures
        <TestMotor as BldcMotor<14>>::PHASE_RESISTANCE == 5600,
        <TestMotor as BldcMotor<14>>::Q_AXIS_INDUCTANCE == 4600,
        <TestMotor as BldcMotor<14>>::POLE_PAIRS == 7,
        <TestMotor as BldcMotor<14>>::BACK_EMF_COEFFICIENT == 47_000_000,
        <TestMotor as BldcMotor<14>>::TORQUE_COEFFICIENT == 70,
        <TestMotor as BldcMotor<14>>::MAX_VOLTAGE == 12_000,
        <TestMotor as BldcMotor<14>>::MAX_CURRENT == 2_000,
        <TestMotor as BldcMotor<14>>::PWM_CONTROL_LAG_US == 0,
        <TestMotor as BldcMotor<14>>::PWM_TOP == 1250,
        <TestMotor as BldcMotor<14>>::PWM_FREQ == 60000,
        full_turn(14) == 16384,
{
    vstd::arithmetic::power2::lemma2_to64();
}

/// The raw count of `angle` brought into `[-half turn, half turn]` by one turn
/// when it lies just outside it.
pub open spec fn wrapped_around_zero(raw: int, bits: nat) -> int {
    if raw > half_turn(bits) {
        raw - full_turn(bits)
    } else if raw < -half_turn(bits) {
        raw + full_turn(bits)
    } else {
        raw
    }
}

/// Shifts the raw count of `angle` by one turn toward zero when it lies outside
/// `[-half turn, half turn]`.
pub fn _wrap_angle_around_0<const BITS: usize>(angle: IntAngle<BITS>) -> (r: i32)
    requires
        1 <= BITS <= 30,
    ensures
        r == wrapped_around_zero(angle@ as int, BITS as nat),
{
    let half = IntAngle::<BITS>::a180().raw_value();
    let full = IntAngle::<BITS>::a360().raw_value();
    proof {
        crate::arith::lemma_pow2_facts((BITS - 1) as nat, BITS as nat);
        crate::arith::lemma_pow2_facts(BITS as nat, 30);
    }
    if angle.raw_value() > half {
        angle.raw_value() - full
    } else if angle.raw_value() < -half {
        angle.raw_value() + full
    } else {
        angle.raw_value()
    }
}

} // verus!

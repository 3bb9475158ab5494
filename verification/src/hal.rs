//! Hardware-facing data and motor parameters shared by the driver tasks.
use vstd::prelude::*;
use crate::angle::IntAngle;

verus! {

/// A single encoder reading: the measured angle and the time it was taken (µs).
#[derive(Clone, Copy, Debug)]
pub struct EncoderData<const BITS: usize> {
    pub angle: IntAngle<BITS>,
    pub timestamp: u64,
}

/// Electrical and PWM parameters of a BLDC motor and its driver stage.
/// Units follow the controller: resistance in mΩ, currents in the unit of the
/// torque target divided by `TORQUE_COEFFICIENT`, voltages in mV.
pub trait BldcMotor<const BITS: usize> {
    /// Phase resistance (mΩ).
    const PHASE_RESISTANCE: i32;
    /// Q-axis inductance (µH).
    const Q_AXIS_INDUCTANCE: i32;
    /// Number of pole pairs (electrical turns per mechanical turn).
    const POLE_PAIRS: i32;
    /// Back-EMF coefficient.
    const BACK_EMF_COEFFICIENT: i32;
    /// Torque per unit of q-axis current.
    const TORQUE_COEFFICIENT: i32;
    /// Largest phase voltage the controller may command.
    const MAX_VOLTAGE: i32;
    /// Largest phase current the controller may command.
    const MAX_CURRENT: i32;
    /// Latency between the angle estimate and the PWM update (µs).
    const PWM_CONTROL_LAG_US: u64;
    /// The value the PWM timer reaches before wrapping.
    const PWM_TOP: u32;
    /// PWM frequency (Hz).
    const PWM_FREQ: u32;
}

} // verus!

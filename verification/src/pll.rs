//! Type-II phase-locked loop observer that turns raw encoder angles into a
//! smoothed angle estimate and an angular velocity estimate.
//!
//! The loop runs at a fixed internal precision of 24 bits per turn: an encoder
//! angle of `BITS` bits is shifted left by `24 - BITS` before it is compared
//! with the estimate.
use vstd::prelude::*;
use vstd::arithmetic::power2::pow2;
use crate::angle::{IntAngle, full_turn};
use crate::arith::{tdiv, fits_i32, fits_i64, i64_saturating_mul, i64_saturating_add, saturate_i64,
    lemma_pow2_facts, lemma_tdiv_bound, lemma_i32_shl_nonneg, lemma_i32_shr_nonneg, lemma_i64_shr_nonneg};

verus! {

/// Half a turn at the observer's 24-bit precision.
pub const HALF_ROTATION: i32 = 0x80_0000;

/// A full turn at the observer's 24-bit precision.
pub const FULL_ROTATION: i32 = 0x100_0000;

/// `2·ζ·1000` for the damping ratio `ζ = 1/√2`, truncated: the proportional
/// gain is `ω_n · 1414 / 1000`.
pub const DAMPING_GAIN_MILLI: i32 = 1414;

/// Overshoot allowance (percent) of the velocity integrator with `ζ = 1/√2`.
pub const OVERSHOOT_PERCENT: i64 = 105;

/// The left shift from an angle of `bits` bits to the observer's 24 bits.
pub open spec fn pll_shift(bits: nat) -> u32 {
    (24 - bits) as u32
}

/// The angle error brought into `[-half turn, half turn]` by one turn when it lies outside.
pub open spec fn wrap_error(e: int) -> int {
    if e > HALF_ROTATION {
        e - FULL_ROTATION
    } else if e < -HALF_ROTATION {
        e + FULL_ROTATION
    } else {
        e
    }
}

/// The angle estimate brought back into `[0, full turn]` by one turn when it
/// leaves that range.
pub open spec fn wrap_estimate(a: int) -> int {
    if a > FULL_ROTATION {
        a - FULL_ROTATION
    } else if a < 0 {
        a + FULL_ROTATION
    } else {
        a
    }
}


/// Proportional gain for a natural angular frequency `omega_n` (rad/s).
pub open spec fn kp_of(omega_n: int) -> int {
    tdiv(omega_n * DAMPING_GAIN_MILLI, 1000)
}

/// Integral gain times the sample period, `ω_n² · period_us` (scaled by 10⁶).
pub open spec fn ki_ts_of(omega_n: int, period_us: int) -> int {
    omega_n * omega_n * period_us
}

/// The velocity integrator's value at `max_speed_rpm`, in 24-bit counts per second,
/// with the overshoot allowance.
pub open spec fn max_integral_of(max_speed_rpm: int) -> int {
    tdiv(max_speed_rpm * FULL_ROTATION * OVERSHOOT_PERCENT, 6000)
}

/// The loop filter output at maximum speed and maximum (half-turn) error.
pub open spec fn max_loop_output_of(omega_n: int, max_speed_rpm: int) -> int {
    saturate_i64(max_integral_of(max_speed_rpm) + saturate_i64(kp_of(omega_n) * HALF_ROTATION))
}

/// Why a set of observer parameters is refused.
#[derive(Clone, Copy, Debug, PartialEq, Eq, Structural)]
pub enum PllConfigError {
    /// Computing the gains from `omega_n` and `period_us` overflows.
    GainOverflow,
    /// `ki_ts · error` could overflow `i64` at half a turn of error.
    IntegralOverflow,
    /// `loop_output · period_us` could overflow `i64` at maximum speed and error.
    IntegratorOverflow,
    /// `max_speed_rpm` is negative, or its velocity in counts per second exceeds `i32`.
    SpeedOutOfRange,
}

/// The gains can be computed without overflow.
pub open spec fn gains_fit(period_us: int, omega_n: int) -> bool {
    fits_i32(omega_n * DAMPING_GAIN_MILLI) && fits_i64(ki_ts_of(omega_n, period_us))
}

/// `ki_ts · (half a turn)` fits in `i64`.
pub open spec fn integral_fits(period_us: int, omega_n: int) -> bool {
    fits_i64(ki_ts_of(omega_n, period_us) * HALF_ROTATION)
}

/// The loop output at maximum speed and error, times the period, fits in `i64`.
pub open spec fn integrator_fits(period_us: int, omega_n: int, max_speed_rpm: int) -> bool {
    fits_i64(max_loop_output_of(omega_n, max_speed_rpm) * period_us)
}

/// `max_speed_rpm` is non-negative and its velocity in `bits`-bit counts per second fits in `i32`.
pub open spec fn speed_fits(bits: nat, max_speed_rpm: int) -> bool {
    max_speed_rpm >= 0 && ((max_integral_of(max_speed_rpm) as i64) >> pll_shift(bits)) <= i32::MAX
}

/// The outcome of checking observer parameters, in the order the checks are made.
pub open spec fn config_check(bits: nat, period_us: int, omega_n: int, max_speed_rpm: int) -> Result<(), PllConfigError> {
    if !gains_fit(period_us, omega_n) {
        Err(PllConfigError::GainOverflow)
    } else if !integral_fits(period_us, omega_n) {
        Err(PllConfigError::IntegralOverflow)
    } else if !integrator_fits(period_us, omega_n, max_speed_rpm) {
        Err(PllConfigError::IntegratorOverflow)
    } else if !speed_fits(bits, max_speed_rpm) {
        Err(PllConfigError::SpeedOutOfRange)
    } else {
        Ok(())
    }
}

/// The abstract state of an observer.
pub struct PllState {
    /// Estimated angle, 24-bit counts.
    pub angle_est: i32,
    /// Estimated velocity, encoder counts per second.
    pub velocity_est: i32,
    /// State of the PI integrator, 24-bit counts per second.
    pub integral_term: i64,
    /// Proportional gain.
    pub kp: i32,
    /// Integral gain times the sample period (scaled by 10⁶).
    pub ki_ts: i64,
    /// Sample period (µs).
    pub period_us: i32,
}

impl PllState {
    /// The encoder angle `raw` at the observer's precision.
    pub open spec fn target(raw: i32, s: u32) -> i32 {
        raw << s
    }

    /// The raw phase error before wrapping.
    pub open spec fn raw_error(self, raw: i32, s: u32) -> int {
        Self::target(raw, s) - self.angle_est
    }

    /// The phase error, wrapped into half a turn either way.
    pub open spec fn error(self, raw: i32, s: u32) -> int {
        wrap_error(self.raw_error(raw, s))
    }

    /// The proportional branch of the loop filter.
    pub open spec fn proportional(self, raw: i32, s: u32) -> int {
        self.kp * self.error(raw, s)
    }

    /// The integrator after this sample.
    pub open spec fn integral_next(self, raw: i32, s: u32) -> int {
        self.integral_term + tdiv(self.ki_ts * self.error(raw, s), 1_000_000)
    }

    /// The loop filter output (24-bit counts per second).
    pub open spec fn loop_output(self, raw: i32, s: u32) -> int {
        self.proportional(raw, s) + self.integral_next(raw, s)
    }

    /// The angle advance over one sample period.
    pub open spec fn angle_inc(self, raw: i32, s: u32) -> int {
        tdiv(self.loop_output(raw, s) * self.period_us, 1_000_000)
    }

    /// The estimate advanced by one period, before it is wrapped.
    pub open spec fn angle_sum(self, raw: i32, s: u32) -> int {
        self.angle_est + (self.angle_inc(raw, s) as i32)
    }

    /// The estimate lies within one turn, `[0, full turn]`.
    pub open spec fn in_turn(self) -> bool {
        0 <= self.angle_est <= FULL_ROTATION
    }

    /// The update with encoder angle `raw` advances the estimate by at most one turn.
    pub open spec fn advance_within_turn(self, raw: i32, s: u32) -> bool {
        -FULL_ROTATION <= (self.angle_inc(raw, s) as i32) <= FULL_ROTATION
    }

    /// No step of an update with encoder angle `raw` overflows its integer type.
    pub open spec fn update_ok(self, raw: i32, s: u32) -> bool {
        &&& fits_i32(self.raw_error(raw, s))
        &&& fits_i64(self.ki_ts * self.error(raw, s))
        &&& fits_i64(self.integral_next(raw, s))
        &&& fits_i64(self.loop_output(raw, s))
        &&& fits_i64(self.loop_output(raw, s) * self.period_us)
        &&& fits_i32(self.angle_sum(raw, s))
    }

    /// The state after an update with encoder angle `raw`.
    pub open spec fn next(self, raw: i32, s: u32) -> PllState {
        PllState {
            angle_est: wrap_estimate(self.angle_sum(raw, s)) as i32,
            velocity_est: (((self.integral_next(raw, s) as i64) >> s) as i32),
            integral_term: self.integral_next(raw, s) as i64,
            kp: self.kp,
            ki_ts: self.ki_ts,
            period_us: self.period_us,
        }
    }
}

/// PLL observer (used to reduce voltage phase lag).
#[derive(Debug)]
pub struct PllObserver<const BITS: usize> {
    /// Estimated angle
    angle_est: i32,
    /// Estimated angular velocity (in IntAngle/s)
    velocity_est: i32,
    /// Internal state of the PI controller
    integral_term: i64,
    /// Proportional gain (numerator)
    kp_num: i32,
    /// Proportional gain (denominator)
    kp_den: i32,
    /// Integral gain multiplied by sample time (numerator)
    ki_ts_num: i64,
    /// Integral gain multiplied by sample time (denominator)
    ki_ts_den: i64,
    /// Sample period in microseconds
    period_us: i32,
}

impl<const BITS: usize> View for PllObserver<BITS> {
    type V = PllState;

    closed spec fn view(&self) -> PllState {
        PllState {
            angle_est: self.angle_est,
            velocity_est: self.velocity_est,
            integral_term: self.integral_term,
            kp: self.kp_num,
            ki_ts: self.ki_ts_num,
            period_us: self.period_us,
        }
    }
}

impl<const BITS: usize> PllObserver<BITS> {
    #[verifier::type_invariant]
    spec fn inv(self) -> bool {
        &&& 1 <= BITS <= 24
        &&& self.kp_den == 1
        &&& self.ki_ts_den == 1_000_000
        &&& fits_i64(self.ki_ts_num * HALF_ROTATION)
    }

    /// The shift from encoder precision to the observer's 24 bits.
    fn shift() -> (s: u32)
        requires
            1 <= BITS <= 24,
        ensures
            s == pll_shift(BITS as nat),
            s <= 23,
    {
        (24 - BITS) as u32
    }

    /// Checks observer parameters as the constructor does: `period_us` is the
    /// sample period (µs), `omega_n` the natural angular frequency (rad/s,
    /// `2π · bandwidth`), `max_speed_rpm` the highest speed to be tracked.
    pub fn check_config(period_us: i32, omega_n: i32, max_speed_rpm: i32) -> (r: Result<(), PllConfigError>)
        requires
            1 <= BITS <= 24,
        ensures
            r == config_check(BITS as nat, period_us as int, omega_n as int, max_speed_rpm as int),
    {
        let kp_scaled = match omega_n.checked_mul(DAMPING_GAIN_MILLI) {
            Some(v) => v,
            None => return Err(PllConfigError::GainOverflow),
        };
        let kp = kp_scaled / 1000;
        proof {
            assert(0 <= omega_n * omega_n <= 0x4000_0000_0000_0000) by (nonlinear_arith)
                requires i32::MIN <= omega_n <= i32::MAX;
        }
        let ki = omega_n as i64 * omega_n as i64;
        let ki_ts_num = match ki.checked_mul(period_us as i64) {
            Some(v) => v,
            None => return Err(PllConfigError::GainOverflow),
        };
        let max_error = HALF_ROTATION as i64;
        if ki_ts_num.checked_mul(max_error).is_none() {
            return Err(PllConfigError::IntegralOverflow);
        }
        proof {
            assert(max_speed_rpm * FULL_ROTATION * OVERSHOOT_PERCENT <= i64::MAX) by (nonlinear_arith)
                requires max_speed_rpm <= i32::MAX;
            assert(max_speed_rpm * FULL_ROTATION * OVERSHOOT_PERCENT >= i64::MIN) by (nonlinear_arith)
                requires max_speed_rpm >= i32::MIN;
        }
        let max_integral = (max_speed_rpm as i64 * FULL_ROTATION as i64) * OVERSHOOT_PERCENT / (60 * 100);
        let max_proportional = i64_saturating_mul(kp as i64, max_error);
        let max_loop_output = i64_saturating_add(max_integral, max_proportional);
        if max_loop_output.checked_mul(period_us as i64).is_none() {
            return Err(PllConfigError::IntegratorOverflow);
        }
        let max_velocity = max_integral >> Self::shift();
        if !(max_speed_rpm >= 0 && max_velocity <= i32::MAX as i64) {
            return Err(PllConfigError::SpeedOutOfRange);
        }
        Ok(())
    }

    /// Creates an observer at angle 0 and rest, with gains from the natural
    /// angular frequency `omega_n` (rad/s) and sample period `period_us` (µs).
    pub fn new(period_us: i32, omega_n: i32, max_speed_rpm: i32) -> (pll: Self)
        requires
            1 <= BITS <= 24,
            config_check(BITS as nat, period_us as int, omega_n as int, max_speed_rpm as int) is Ok,
        ensures
            pll@ == (PllState {
                angle_est: 0,
                velocity_est: 0,
                integral_term: 0,
                kp: kp_of(omega_n as int) as i32,
                ki_ts: ki_ts_of(omega_n as int, period_us as int) as i64,
                period_us,
            }),
            pll@.in_turn(),
    {
        let kp = (omega_n * DAMPING_GAIN_MILLI) / 1_000;
        proof {
            assert(0 <= omega_n * omega_n <= 0x4000_0000_0000_0000) by (nonlinear_arith)
                requires i32::MIN <= omega_n <= i32::MAX;
        }
        let ki = omega_n as i64 * omega_n as i64;
        let ki_ts_num = ki * period_us as i64;
        PllObserver {
            angle_est: 0,
            velocity_est: 0,
            integral_term: 0,
            kp_num: kp,
            kp_den: 1,
            ki_ts_num,
            ki_ts_den: 1_000_000,
            period_us,
        }
    }

    /// The current angle estimate at encoder precision.
    pub fn angle_est(&self) -> (a: IntAngle<BITS>)
        ensures
            a@ == self@.angle_est >> pll_shift(BITS as nat),
            self@.in_turn() ==> 0 <= a@ <= full_turn(BITS as nat),
    {
        proof {
            use_type_invariant(self);
            if self@.in_turn() {
                lemma_shifted_estimate_in_turn(self@.angle_est, BITS as nat);
            }
        }
        IntAngle::from_raw(self.angle_est >> Self::shift())
    }

    /// Whether `update(angle_read)` runs without overflowing any of its integer steps.
    pub fn can_update(&self, angle_read: IntAngle<BITS>) -> (b: bool)
        ensures
            b == self@.update_ok(angle_read@, pll_shift(BITS as nat)),
    {
        proof { use_type_invariant(self); }
        let shift = Self::shift();
        let target_angle = angle_read.raw_value() << shift;
        let raw_error = target_angle as i64 - self.angle_est as i64;
        if raw_error < i32::MIN as i64 || raw_error > i32::MAX as i64 {
            return false;
        }
        let mut error = raw_error;
        if error > HALF_ROTATION as i64 {
            error -= FULL_ROTATION as i64;
        } else if error < -(HALF_ROTATION as i64) {
            error += FULL_ROTATION as i64;
        }
        proof {
            assert(-0x4000_0000_0000_0000 <= self.kp_num * error <= 0x4000_0000_0000_0000) by (nonlinear_arith)
                requires
                    i32::MIN <= self.kp_num <= i32::MAX,
                    i32::MIN <= error <= i32::MAX;
        }
        let proportional = self.kp_num as i64 * error;
        let product = match self.ki_ts_num.checked_mul(error) {
            Some(v) => v,
            None => return false,
        };
        let integral_next = match self.integral_term.checked_add(product / 1_000_000) {
            Some(v) => v,
            None => return false,
        };
        let loop_output = match proportional.checked_add(integral_next) {
            Some(v) => v,
            None => return false,
        };
        let scaled = match loop_output.checked_mul(self.period_us as i64) {
            Some(v) => v,
            None => return false,
        };
        let angle_inc = scaled / 1_000_000;
        let angle_sum = self.angle_est as i64 + (#[verifier::truncate] (angle_inc as i32)) as i64;
        angle_sum >= i32::MIN as i64 && angle_sum <= i32::MAX as i64
    }

    /// Updates the observer with a new raw encoder angle; returns the new angle
    /// estimate and velocity estimate.
    pub fn update(&mut self, angle_read: IntAngle<BITS>) -> (r: (IntAngle<BITS>, i32))
        requires
            old(self)@.update_ok(angle_read@, pll_shift(BITS as nat)),
        ensures
            final(self)@ == old(self)@.next(angle_read@, pll_shift(BITS as nat)),
            r.0@ == final(self)@.angle_est >> pll_shift(BITS as nat),
            r.1 == final(self)@.velocity_est,
            old(self)@.in_turn() && old(self)@.advance_within_turn(angle_read@, pll_shift(BITS as nat))
                ==> final(self)@.in_turn() && 0 <= r.0@ <= full_turn(BITS as nat),
    {
        proof {
            use_type_invariant(&*self);
            let pre = self@;
            if pre.in_turn() && pre.advance_within_turn(angle_read@, pll_shift(BITS as nat)) {
                lemma_estimate_stays_in_turn(pre, angle_read@, BITS as nat);
            }
        }
        let shift = Self::shift();
        // Phase detector: estimation error
        let target_angle = angle_read.raw_value() << shift;
        let mut error = target_angle - self.angle_est;

        // One wrap suffices: the error never exceeds a full turn per sample.
        if error > HALF_ROTATION {
            error -= FULL_ROTATION;
        } else if error < -HALF_ROTATION {
            error += FULL_ROTATION;
        }

        // Loop filter: PI controller on the error
        proof {
            assert(-0x4000_0000_0000_0000 <= self.kp_num * error <= 0x4000_0000_0000_0000) by (nonlinear_arith)
                requires
                    i32::MIN <= self.kp_num <= i32::MAX,
                    i32::MIN <= error <= i32::MAX;
        }
        // The proportional branch is computed in i64: half a turn of error
        // times the gain need not fit in i32.
        let proportional = (self.kp_num as i64 * error as i64) / self.kp_den as i64;
        self.integral_term += (self.ki_ts_num as i64 * error as i64) / self.ki_ts_den as i64;

        let loop_output = proportional + self.integral_term;

        // Arithmetic right shift keeps the sign.
        self.velocity_est = #[verifier::truncate] ((self.integral_term >> shift) as i32);

        // Integrator: next estimated angle
        let angle_inc = (loop_output * self.period_us as i64) / 1_000_000;
        self.angle_est += #[verifier::truncate] (angle_inc as i32);

        if self.angle_est > FULL_ROTATION {
            self.angle_est -= FULL_ROTATION;
        } else if self.angle_est < 0 {
            self.angle_est += FULL_ROTATION;
        }

        (self.angle_est(), self.velocity_est)
    }
}

/// While the estimate lies in `[0, full turn]` and the encoder reading in
/// `[0, 2^bits]`, the phase error cannot overflow and, once wrapped, lies within
/// half a turn either way; an integral gain that passed the constructor's
/// check (`ki_ts · half turn` fits in `i64`) then cannot overflow `ki_ts · error`,
/// save when that product is exactly `i64::MIN` (then `-half turn` overflows).
pub proof fn lemma_error_within_half_turn(s: PllState, raw: i32, bits: nat)
    requires
        1 <= bits <= 24,
        0 <= s.angle_est <= FULL_ROTATION,
        0 <= raw <= full_turn(bits),
    ensures
        fits_i32(s.raw_error(raw, pll_shift(bits))),
        -HALF_ROTATION <= s.error(raw, pll_shift(bits)) <= HALF_ROTATION,
        fits_i64(s.ki_ts * HALF_ROTATION) && s.ki_ts * HALF_ROTATION > i64::MIN
            ==> fits_i64(s.ki_ts * s.error(raw, pll_shift(bits))),
{
    let sh = pll_shift(bits);
    lemma_pow2_facts(bits, sh as nat);
    lemma_pow2_facts(bits, 30);
    assert(raw * pow2(sh as nat) <= pow2(bits) * pow2(sh as nat)) by (nonlinear_arith)
        requires 0 <= raw <= pow2(bits), pow2(sh as nat) > 0;
    assert(raw * pow2(sh as nat) >= 0) by (nonlinear_arith)
        requires 0 <= raw, pow2(sh as nat) > 0;
    lemma_i32_shl_nonneg(raw, sh);
    let e = s.error(raw, sh);
    if fits_i64(s.ki_ts * HALF_ROTATION) && s.ki_ts * HALF_ROTATION > i64::MIN {
        let k = s.ki_ts as int;
        let h = HALF_ROTATION as int;
        if k >= 0 {
            assert(-(k * h) <= k * e <= k * h) by (nonlinear_arith)
                requires k >= 0, -h <= e <= h;
        } else {
            assert(k * h <= k * e <= -(k * h)) by (nonlinear_arith)
                requires k < 0, -h <= e <= h;
        }
    }
}

/// When the estimate lies in `[0, full turn]` and one period's advance is at most
/// a full turn either way, the updated estimate lies in `[0, full turn]` again and
/// the angle that `update` returns lies in `[0, 2^bits]`.
pub proof fn lemma_estimate_stays_in_turn(s: PllState, raw: i32, bits: nat)
    requires
        1 <= bits <= 24,
        0 <= s.angle_est <= FULL_ROTATION,
        s.update_ok(raw, pll_shift(bits)),
        -FULL_ROTATION <= (s.angle_inc(raw, pll_shift(bits)) as i32) <= FULL_ROTATION,
    ensures
        0 <= s.next(raw, pll_shift(bits)).angle_est <= FULL_ROTATION,
        0 <= (s.next(raw, pll_shift(bits)).angle_est >> pll_shift(bits)) <= full_turn(bits),
{
    let sh = pll_shift(bits);
    let a = s.next(raw, sh).angle_est;
    assert(0 <= a <= FULL_ROTATION);
    lemma_shifted_estimate_in_turn(a, bits);
}

/// The state after updates with the encoder angles `reads`, in order.
pub open spec fn after_updates(s: PllState, reads: Seq<i32>, sh: u32) -> PllState
    decreases reads.len(),
{
    if reads.len() == 0 {
        s
    } else {
        after_updates(s.next(reads[0], sh), reads.drop_first(), sh)
    }
}

/// Each update with the angles `reads`, in order, runs without overflow and
/// moves the estimate by at most one turn.
pub open spec fn updates_within_turn(s: PllState, reads: Seq<i32>, sh: u32) -> bool
    decreases reads.len(),
{
    reads.len() == 0 || {
        &&& s.update_ok(reads[0], sh)
        &&& s.advance_within_turn(reads[0], sh)
        &&& updates_within_turn(s.next(reads[0], sh), reads.drop_first(), sh)
    }
}

/// The estimate stays within one turn over any run of updates that each move
/// it by at most one turn: from a state within one turn (such as a new
/// observer's), every later state is within one turn, and so is the angle
/// that `update` returns.
pub proof fn lemma_estimate_in_turn_after_updates(s: PllState, reads: Seq<i32>, bits: nat)
    requires
        1 <= bits <= 24,
        s.in_turn(),
        updates_within_turn(s, reads, pll_shift(bits)),
    ensures
        after_updates(s, reads, pll_shift(bits)).in_turn(),
        0 <= (after_updates(s, reads, pll_shift(bits)).angle_est >> pll_shift(bits)) <= full_turn(bits),
    decreases reads.len(),
{
    let sh = pll_shift(bits);
    if reads.len() == 0 {
        lemma_shifted_estimate_in_turn(s.angle_est, bits);
    } else {
        lemma_estimate_stays_in_turn(s, reads[0], bits);
        lemma_estimate_in_turn_after_updates(s.next(reads[0], sh), reads.drop_first(), bits);
    }
}

/// The phase error differs from the raw error by whole turns, and it lies
/// within half a turn either way whenever the raw error is within one and a
/// half turns (as it is while the estimate and the reading lie within a turn).
pub proof fn lemma_error_is_raw_error_mod_turn(s: PllState, raw: i32, sh: u32)
    ensures
        (s.error(raw, sh) - s.raw_error(raw, sh)) % (FULL_ROTATION as int) == 0,
        -(FULL_ROTATION + HALF_ROTATION) <= s.raw_error(raw, sh) <= FULL_ROTATION + HALF_ROTATION
            ==> -HALF_ROTATION <= s.error(raw, sh) <= HALF_ROTATION,
{
    let d = s.error(raw, sh) - s.raw_error(raw, sh);
    assert(d == 0 || d == FULL_ROTATION || d == -FULL_ROTATION);
    assert((FULL_ROTATION as int) % (FULL_ROTATION as int) == 0);
    assert((-FULL_ROTATION as int) % (FULL_ROTATION as int) == 0);
}

/// The wrapped estimate differs from the advanced estimate by whole turns, and
/// it lies within one turn whenever the advanced estimate is within a turn of
/// that range.
pub proof fn lemma_estimate_is_sum_mod_turn(s: PllState, raw: i32, sh: u32)
    requires
        fits_i32(s.angle_sum(raw, sh)),
    ensures
        (s.next(raw, sh).angle_est - s.angle_sum(raw, sh)) % (FULL_ROTATION as int) == 0,
        -FULL_ROTATION <= s.angle_sum(raw, sh) <= 2 * FULL_ROTATION
            ==> 0 <= s.next(raw, sh).angle_est <= FULL_ROTATION,
{
    let a = s.angle_sum(raw, sh);
    let w = wrap_estimate(a);
    assert(fits_i32(w));
    assert(s.next(raw, sh).angle_est == w);
    let d = w - a;
    assert(d == 0 || d == FULL_ROTATION || d == -FULL_ROTATION);
    assert((FULL_ROTATION as int) % (FULL_ROTATION as int) == 0);
    assert((-FULL_ROTATION as int) % (FULL_ROTATION as int) == 0);
}

/// The speed check accepts exactly the non-negative speeds whose integrator
/// value (with the overshoot allowance), scaled down to encoder counts per
/// second, fits in `i32`: with the other checks passed, parameters are
/// accepted exactly when `max_speed_rpm >= 0` and
/// `max_speed_rpm · 2^24 · 105 / 6000 / 2^(24 - bits) <= i32::MAX`.
pub proof fn lemma_speed_check_is_velocity_range(bits: nat, period_us: int, omega_n: int, max_speed_rpm: i32)
    requires
        1 <= bits <= 24,
        gains_fit(period_us, omega_n),
        integral_fits(period_us, omega_n),
        integrator_fits(period_us, omega_n, max_speed_rpm as int),
    ensures
        config_check(bits, period_us, omega_n, max_speed_rpm as int) is Ok <==> (max_speed_rpm >= 0
            && (max_speed_rpm as int) * 0x100_0000 * 105 / 6000 / (pow2((24 - bits) as nat) as int)
                <= i32::MAX),
{
    let ms = max_speed_rpm as int;
    if ms >= 0 {
        let sh = pll_shift(bits);
        let sh64 = sh as u64;
        assert(0 <= ms * FULL_ROTATION * OVERSHOOT_PERCENT <= 0x7fff_ffff * 0x100_0000 * 105) by (nonlinear_arith)
            requires 0 <= ms <= 0x7fff_ffff;
        let x = max_integral_of(ms);
        assert(x == ms * FULL_ROTATION * OVERSHOOT_PERCENT / 6000);
        vstd::arithmetic::div_mod::lemma_div_pos_is_pos(ms * FULL_ROTATION * OVERSHOOT_PERCENT, 6000);
        vstd::arithmetic::div_mod::lemma_div_is_ordered_by_denominator(ms * FULL_ROTATION * OVERSHOOT_PERCENT, 1, 6000);
        let xi = x as i64;
        assert(xi >> sh == xi >> sh64);
        lemma_i64_shr_nonneg(xi, sh64);
        assert((24 - bits) as nat == sh as nat);
    }
}

/// An estimate within one turn at 24 bits lies within one turn at `bits` bits.
/// An estimate within one turn at 24 bits lies within one turn at `bits` bits.
pub proof fn lemma_shifted_estimate_in_turn(a: i32, bits: nat)
    requires
        1 <= bits <= 24,
        0 <= a <= FULL_ROTATION,
    ensures
        0 <= (a >> pll_shift(bits)) <= full_turn(bits),
{
    let sh = pll_shift(bits);
    lemma_i32_shr_nonneg(a, sh);
    lemma_pow2_facts(bits, sh as nat);
    vstd::arithmetic::div_mod::lemma_div_is_ordered(a as int, FULL_ROTATION as int, pow2(sh as nat) as int);
    vstd::arithmetic::div_mod::lemma_div_multiples_vanish(pow2(bits) as int, pow2(sh as nat) as int);
    vstd::arithmetic::mul::lemma_mul_is_commutative(pow2(bits) as int, pow2(sh as nat) as int);
}

/// The constructor's second check at work: for parameters that passed all
/// checks with `omega_n >= 0`, while the phase error lies within half a turn and
/// the integrator within the velocity allowed by `max_speed_rpm`, neither the
/// loop output nor its product with the period overflows `i64` (save when the
/// checked product is exactly `i64::MIN`, whose negation does not fit).
pub proof fn lemma_integrator_fits_at_max_speed(
    s: PllState,
    raw: i32,
    bits: nat,
    omega_n: i32,
    max_speed_rpm: i32,
)
    requires
        1 <= bits <= 24,
        omega_n >= 0,
        config_check(bits, s.period_us as int, omega_n as int, max_speed_rpm as int) is Ok,
        s.kp == kp_of(omega_n as int),
        -HALF_ROTATION <= s.error(raw, pll_shift(bits)) <= HALF_ROTATION,
        -max_integral_of(max_speed_rpm as int) <= s.integral_next(raw, pll_shift(bits))
            <= max_integral_of(max_speed_rpm as int),
        max_loop_output_of(omega_n as int, max_speed_rpm as int) * s.period_us > i64::MIN,
    ensures
        fits_i64(s.loop_output(raw, pll_shift(bits))),
        fits_i64(s.loop_output(raw, pll_shift(bits)) * s.period_us),
{
    let sh = pll_shift(bits);
    let w = omega_n as int;
    let ms = max_speed_rpm as int;
    let kp = s.kp as int;
    let h = HALF_ROTATION as int;
    let e = s.error(raw, sh);
    let mi = max_integral_of(ms);
    let p = s.period_us as int;
    lemma_tdiv_bound(w * DAMPING_GAIN_MILLI, 1000);
    assert(0 <= w * DAMPING_GAIN_MILLI) by (nonlinear_arith) requires w >= 0;
    assert(0 <= kp <= i32::MAX);
    assert(ms >= 0);
    assert(0 <= ms * FULL_ROTATION * OVERSHOOT_PERCENT <= 0x7fff_ffff * 0x100_0000 * 105) by (nonlinear_arith)
        requires 0 <= ms <= 0x7fff_ffff;
    lemma_tdiv_bound(ms * FULL_ROTATION * OVERSHOOT_PERCENT, 6000);
    assert(0 <= mi <= 0x7fff_ffff * 0x100_0000 * 105);
    assert(0 <= kp * h <= 0x7fff_ffff * 0x80_0000) by (nonlinear_arith)
        requires 0 <= kp <= 0x7fff_ffff, h == 0x80_0000;
    let m = max_loop_output_of(w, ms);
    assert(m == mi + kp * h);
    assert(-(kp * h) <= kp * e <= kp * h) by (nonlinear_arith)
        requires 0 <= kp, -h <= e <= h;
    let lo = s.loop_output(raw, sh);
    assert(-m <= lo <= m);
    assert(fits_i64(m * p));
    if p >= 0 {
        assert(-(m * p) <= lo * p <= m * p) by (nonlinear_arith)
            requires -m <= lo <= m, p >= 0;
    } else {
        assert(m * p <= lo * p <= -(m * p)) by (nonlinear_arith)
            requires -m <= lo <= m, p < 0;
    }
}

/// The constructor's third check at work: while the integrator lies within the
/// velocity allowed by a `max_speed_rpm` that passed the check, the velocity
/// estimate is the integrator shifted down to encoder precision, with no
/// truncation to `i32`.
pub proof fn lemma_velocity_fits_at_max_speed(s: PllState, raw: i32, bits: nat, max_speed_rpm: i32)
    requires
        1 <= bits <= 24,
        speed_fits(bits, max_speed_rpm as int),
        fits_i64(s.integral_next(raw, pll_shift(bits))),
        -max_integral_of(max_speed_rpm as int) <= s.integral_next(raw, pll_shift(bits))
            <= max_integral_of(max_speed_rpm as int),
    ensures
        s.next(raw, pll_shift(bits)).velocity_est as int
            == ((s.integral_next(raw, pll_shift(bits)) as i64) >> pll_shift(bits)) as int,
{
    let sh = pll_shift(bits);
    let ms = max_speed_rpm as int;
    assert(0 <= ms * FULL_ROTATION * OVERSHOOT_PERCENT <= 0x7fff_ffff * 0x100_0000 * 105) by (nonlinear_arith)
        requires 0 <= ms <= 0x7fff_ffff;
    lemma_tdiv_bound(ms * FULL_ROTATION * OVERSHOOT_PERCENT, 6000);
    let m = max_integral_of(ms) as i64;
    let x = s.integral_next(raw, sh) as i64;
    let sh64 = sh as u64;
    assert(x >> sh == x >> sh64);
    assert(m >> sh == m >> sh64);
    lemma_i64_shr_nonneg(m, sh64);
    lemma_pow2_facts(sh as nat, 30);
    if x >= 0 {
        lemma_i64_shr_nonneg(x, sh64);
        vstd::arithmetic::div_mod::lemma_div_is_ordered(x as int, m as int, pow2(sh as nat) as int);
    } else {
        let y: i64 = (-(x as int) - 1) as i64;
        assert(x >> sh64 == -(y >> sh64) - 1) by (bit_vector)
            requires
                y == -x - 1,
                x < 0,
                sh64 < 63,
        ;
        lemma_i64_shr_nonneg(y, sh64);
        vstd::arithmetic::div_mod::lemma_div_is_ordered(y as int, m as int, pow2(sh as nat) as int);
    }
}

/// What the constructor's checks buy: for an observer whose gains come from
/// parameters that passed them (with `omega_n >= 0`), while the estimate and the
/// reading lie within one turn, the integrator within the velocity allowed by
/// `max_speed_rpm`, and the advance within one turn, no step of the update
/// overflows (save when a checked product is exactly `i64::MIN`, whose negation
/// does not fit).
pub proof fn lemma_update_safe_at_max_speed(
    s: PllState,
    raw: i32,
    bits: nat,
    omega_n: i32,
    max_speed_rpm: i32,
)
    requires
        1 <= bits <= 24,
        omega_n >= 0,
        config_check(bits, s.period_us as int, omega_n as int, max_speed_rpm as int) is Ok,
        s.kp == kp_of(omega_n as int),
        s.ki_ts == ki_ts_of(omega_n as int, s.period_us as int),
        s.in_turn(),
        0 <= raw <= full_turn(bits),
        -max_integral_of(max_speed_rpm as int) <= s.integral_next(raw, pll_shift(bits))
            <= max_integral_of(max_speed_rpm as int),
        s.advance_within_turn(raw, pll_shift(bits)),
        s.ki_ts * HALF_ROTATION > i64::MIN,
        max_loop_output_of(omega_n as int, max_speed_rpm as int) * s.period_us > i64::MIN,
    ensures
        s.update_ok(raw, pll_shift(bits)),
{
    let ms = max_speed_rpm as int;
    lemma_error_within_half_turn(s, raw, bits);
    assert(0 <= ms * FULL_ROTATION * OVERSHOOT_PERCENT <= 0x7fff_ffff * 0x100_0000 * 105) by (nonlinear_arith)
        requires 0 <= ms <= 0x7fff_ffff;
    lemma_tdiv_bound(ms * FULL_ROTATION * OVERSHOOT_PERCENT, 6000);
    lemma_integrator_fits_at_max_speed(s, raw, bits, omega_n, max_speed_rpm);
}

/// An observer locked on the encoder reading and at rest stays there: when the
/// estimate equals the reading and the integrator is empty, the update cannot
/// overflow, and it leaves the estimate where it is with zero velocity.
pub proof fn lemma_locked_at_rest(s: PllState, raw: i32, bits: nat)
    requires
        1 <= bits <= 24,
        0 <= s.angle_est <= FULL_ROTATION,
        s.raw_error(raw, pll_shift(bits)) == 0,
        s.integral_term == 0,
    ensures
        s.update_ok(raw, pll_shift(bits)),
        s.next(raw, pll_shift(bits)).angle_est == s.angle_est,
        s.next(raw, pll_shift(bits)).integral_term == 0,
        s.next(raw, pll_shift(bits)).velocity_est == 0,
{
    let sh = pll_shift(bits);
    assert(s.error(raw, sh) == 0);
    assert(s.kp * 0 == 0) by (nonlinear_arith);
    assert(s.ki_ts * 0 == 0) by (nonlinear_arith);
    assert(0int * s.period_us == 0) by (nonlinear_arith);
    assert(0i64 >> sh == 0) by (bit_vector)
        requires sh <= 23;
}

/// An angle and velocity estimate together with the time of the encoder sample it came from.
#[derive(Clone, Copy, Debug)]
pub struct KinematicEst<const BITS: usize> {
    pub angle: IntAngle<BITS>,
    pub velocity: i32,
    pub timestamp: u64,
}

} // verus!

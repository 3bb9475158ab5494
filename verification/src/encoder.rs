//! Decoding of the AS5048A magnetic encoder's 16-bit SPI answer: parity bit,
//! error flag and a 14-bit angle, turned into the driver's angle convention
//! (direction reversed and shifted by the mounting offset).
use vstd::prelude::*;
use crate::angle::IntAngle;

verus! {

/// Angle resolution of the AS5048A.
pub const ENCODER_BITS: usize = 14;

/// Raw angle of the encoder at the rotor's zero position.
pub const ENCODER_OFFSET_RAW: i32 = 7781;

/// The fields of one AS5048A answer.
#[derive(Clone, Copy, Debug, PartialEq, Eq, Structural)]
pub struct As5048aFrame {
    /// Even parity bit (bit 15).
    pub parity: u8,
    /// Error flag of the previous command (bit 14).
    pub error: u8,
    /// Angle in 1/16384 of a turn (bits 13..0).
    pub angle_raw: u16,
}

/// Splits the two bytes received (most significant first) into their fields.
pub fn decode_as5048a(rx: [u8; 2]) -> (f: As5048aFrame)
    ensures
        f.parity == (rx[0] & 0x80) >> 7u8,
        f.error == (rx[0] & 0x40) >> 6u8,
        f.angle_raw == (((rx[0] & 0x3f) as u16) << 8u16) | (rx[1] as u16),
        f.parity <= 1,
        f.error <= 1,
        f.angle_raw == (rx[0] % 64) * 256 + rx[1],
        f.angle_raw < 16384,
{
    let b0 = rx[0];
    let b1 = rx[1];
    let parity = (b0 & 0x80) >> 7u8;
    let error = (b0 & 0x40) >> 6u8;
    let angle_raw = (((b0 & 0x3f) as u16) << 8u16) | (b1 as u16);
    proof {
        assert(parity <= 1 && error <= 1) by (bit_vector)
            requires
                parity == (b0 & 0x80) >> 7u8,
                error == (b0 & 0x40) >> 6u8,
        ;
        assert(angle_raw == (b0 % 64) as u16 * 256 + b1 as u16 && angle_raw < 16384) by (bit_vector)
            requires
                angle_raw == (((b0 & 0x3f) as u16) << 8u16) | (b1 as u16),
        ;
    }
    As5048aFrame { parity, error, angle_raw }
}

/// The rotor angle read from an AS5048A answer: the encoder angle with its
/// direction reversed, less the mounting offset.
pub fn as5048a_angle(rx: [u8; 2]) -> (a: IntAngle<14>)
    ensures
        a@ == -(as5048a_angle_field(rx)) - ENCODER_OFFSET_RAW,
        -(16383 + ENCODER_OFFSET_RAW) <= a@ <= -ENCODER_OFFSET_RAW,
{
    let frame = decode_as5048a(rx);
    IntAngle::from_raw(frame.angle_raw as i32).negate().minus(IntAngle::from_raw(ENCODER_OFFSET_RAW))
}

/// The 14-bit angle field of an AS5048A answer.
pub open spec fn as5048a_angle_field(rx: [u8; 2]) -> int {
    (rx[0] % 64) * 256 + rx[1]
}

} // verus!

//! Fixed-point core of a field-oriented BLDC motor driver: the encoder angle
//! type, the PLL angle/velocity observer, the torque controller, and the
//! telemetry capture and flash layout.
pub mod angle;
pub mod arith;
pub mod controller;
pub mod encoder;
pub mod flash;
pub mod hal;
pub mod pll;
pub mod sim;
pub mod telemetry;

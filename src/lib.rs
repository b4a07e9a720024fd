//! Driver logic for an ion-specific-electrode probe board on an SMBus link.
//!
//! The library never touches the bus itself. Each operation of the probe is
//! described as a short program of bus steps (select a register, write a byte,
//! read a byte, wait), and the bytes that the program reads back are turned
//! into results by verified functions. 32-bit floats travel as their IEEE-754
//! bit patterns (`u32`); the float arithmetic of a pH reading is left to the
//! caller, and the rules around it (which readings count, the direction and
//! size of the temperature correction) are here.

pub mod codec;
pub mod ieee;
pub mod bus;
pub mod ph;
pub mod config;
pub mod probe;
pub mod model;

pub use codec::{decode_float_bits, encode_float_bits};
pub use bus::BusStep;
pub use ph::{Correction, normalized_mv, validated_ph, correction_is_negative, temperature_correction};
pub use probe::{IseProbe, PhReading};

//! Conversion between balanced-ternary numerals (trits and trytes) and
//! signed integers: bounded decoders into `i64`, an extended decoder into a
//! signed 129-bit sign-magnitude integer, and addition over that integer.

pub mod alphabet;
pub mod math;
pub mod numbers;
pub mod types;

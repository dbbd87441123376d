//! Arithmetic and bitwise logic on bitstrings, evaluated at run time and
//! proved against a mathematical model of each value.
pub mod arithmetic;
mod array;
mod bits;
pub mod conditional;
pub mod gates;
pub mod laws;
pub mod model;

pub use arithmetic::addition::{Add, HalfAdd};
pub use arithmetic::subtraction::{HalfSubtract, Subtract};
pub use array::{Array, BadLength};
pub use bits::{Bit, Bitstring, Tape};
pub use conditional::{GlobalBoolean, GlobalFalse, GlobalTrue};

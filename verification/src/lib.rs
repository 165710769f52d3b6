//! Verified core of a curve store: fixed-point decimal arithmetic, a fixed
//! binary record layout for piecewise-linear curves on a uniform grid, a
//! parameter validator, a linear-interpolation lookup, and the
//! ownership-gated create/alter/delete lifecycle over account slots.

pub mod calc;
pub mod codec;
pub mod curve;
pub mod decimal;
pub mod error;
pub mod instruction;
pub mod processor;
pub mod utils;

//! Strongly-typed physical quantities with exact rational magnitudes.
//!
//! A `Quantity` pairs a rational magnitude, stored in the canonical base
//! unit of its dimension, with a dimension vector of rational exponents.
//! Arithmetic between incompatible dimensions is rejected, unit conversions
//! are exact, and values can be rendered in any compatible unit.

pub mod dimension;
pub mod format;
pub mod quantity;
pub mod rational;
pub mod sample;
pub mod unit;

use vstd::prelude::*;

verus! {

/// The failure conditions of the quantity system. None is ever coerced
/// into a default value: every failure propagates to the caller.
#[derive(Clone, Copy, PartialEq, Eq, Structural, Debug)]
pub enum QuantityError {
    /// An operand or unit dimension disagrees with the quantity's.
    DimensionMismatch,
    /// A catalog lookup for a symbol that was never registered.
    UnknownUnit,
    /// A registration of a symbol already bound to another dimension.
    ConflictingRegistration,
    /// A division by a quantity whose magnitude is exactly zero.
    DivisionByZero,
}

} // verus!

//! Dimension-tagged quantities and their checked arithmetic.
//!
//! A quantity stores its magnitude in the canonical base unit of its
//! dimension, so cross-unit arithmetic never rescales: conversion happens
//! once, at construction and at extraction. Addition and subtraction
//! demand equal dimensions; multiplication and division combine any two
//! quantities and derive the result dimension through the dimension
//! algebra. Every operation succeeds on its whole admitted domain; the
//! only machine limit is that the reduced exact result must fit in 64
//! bits, stated as a precondition with an executable `can_*` check
//! beside each operation.

use vstd::prelude::*;
use crate::QuantityError;
use crate::dimension::{
    Dim, dim_eq, is_dim_sum, is_dim_diff, dim_sum_fits, dim_diff_fits, lemma_dim_mul_div_cancel,
};
use crate::rational::{
    Rat, rat_eq, is_reduced_of, reduce_fits, add_num, sub_num, mul_num, prod_den, quot_num,
    quot_den, lemma_mul_cancel, lemma_eq_mul,
};
use crate::unit::Unit;

verus! {

/// An immutable value tagged with its physical dimension. The magnitude
/// is held in the dimension's canonical base unit.
#[derive(Clone, Copy, PartialEq, Eq, Structural, Debug)]
pub struct Quantity {
    pub value: Rat,
    pub dim: Dim,
}

impl Quantity {
    pub open spec fn wf(self) -> bool {
        &&& self.value.wf()
        &&& self.dim.wf()
    }

    /// Whether `raw * unit.factor` fits in 64 bits once reduced, so that
    /// `new` is defined. A caller unsure of its magnitudes runs this
    /// first.
    pub fn can_new(raw: &Rat, unit: &Unit) -> (r: bool)
        requires
            raw.wf(),
            unit.wf(),
        ensures
            r == reduce_fits(mul_num(*raw, unit.factor), prod_den(*raw, unit.factor)),
    {
        raw.checked_mul(&unit.factor).is_some()
    }

    /// A quantity of `raw` units of `unit`: the magnitude is rescaled by
    /// the unit's conversion factor and tagged with the unit's dimension.
    /// Never fails on its admitted domain.
    pub fn new(raw: Rat, unit: &Unit) -> (q: Quantity)
        requires
            raw.wf(),
            unit.wf(),
            reduce_fits(mul_num(raw, unit.factor), prod_den(raw, unit.factor)),
        ensures
            q.wf(),
            q.dim == unit.dimension,
            is_reduced_of(q.value, mul_num(raw, unit.factor), prod_den(raw, unit.factor)),
            q.value.num * prod_den(raw, unit.factor) == mul_num(raw, unit.factor) * q.value.den,
    {
        match raw.checked_mul(&unit.factor) {
            Some(v) => Quantity { value: v, dim: unit.dimension },
            None => {
                proof {
                    assert(false);
                }
                vstd::pervasive::unreached()
            },
        }
    }

    /// Whether this quantity's magnitude, expressed in `unit`, fits in 64
    /// bits once reduced, so that `get` is defined.
    pub fn can_get(&self, unit: &Unit) -> (r: bool)
        requires
            self.wf(),
            unit.wf(),
        ensures
            r == (dim_eq(self.dim, unit.dimension) ==> reduce_fits(
                quot_num(self.value, unit.factor),
                quot_den(self.value, unit.factor),
            )),
    {
        !self.dim.same_dimension(&unit.dimension) || self.value.checked_div(&unit.factor).is_some()
    }

    /// The raw value of this quantity expressed in `unit`: the base
    /// magnitude divided by the unit's conversion factor. Fails exactly
    /// when the unit owns another dimension.
    pub fn get(&self, unit: &Unit) -> (r: Result<Rat, QuantityError>)
        requires
            self.wf(),
            unit.wf(),
            dim_eq(self.dim, unit.dimension) ==> reduce_fits(
                quot_num(self.value, unit.factor),
                quot_den(self.value, unit.factor),
            ),
        ensures
            r.is_ok() <==> dim_eq(self.dim, unit.dimension),
            !dim_eq(self.dim, unit.dimension) ==> r == Err::<Rat, QuantityError>(
                QuantityError::DimensionMismatch,
            ),
            r.is_ok() ==> ({
                let v = r.unwrap();
                &&& v.wf()
                &&& is_reduced_of(v, quot_num(self.value, unit.factor), quot_den(self.value, unit.factor))
                &&& v.num * quot_den(self.value, unit.factor) == quot_num(self.value, unit.factor)
                    * v.den
            }),
    {
        if !self.dim.same_dimension(&unit.dimension) {
            return Err(QuantityError::DimensionMismatch);
        }
        match self.value.checked_div(&unit.factor) {
            Some(v) => Ok(v),
            None => {
                proof {
                    assert(false);
                }
                vstd::pervasive::unreached()
            },
        }
    }

    /// Whether the exact sum of the two magnitudes fits in 64 bits once
    /// reduced, so that `add` is defined.
    pub fn can_add(&self, other: &Quantity) -> (r: bool)
        requires
            self.wf(),
            other.wf(),
        ensures
            r == (dim_eq(self.dim, other.dim) ==> reduce_fits(
                add_num(self.value, other.value),
                prod_den(self.value, other.value),
            )),
    {
        !self.dim.same_dimension(&other.dim) || self.value.checked_add(&other.value).is_some()
    }

    /// The sum of two quantities of one dimension. A mismatched operand
    /// is rejected, never coerced; nothing else fails.
    pub fn add(&self, other: &Quantity) -> (r: Result<Quantity, QuantityError>)
        requires
            self.wf(),
            other.wf(),
            dim_eq(self.dim, other.dim) ==> reduce_fits(
                add_num(self.value, other.value),
                prod_den(self.value, other.value),
            ),
        ensures
            r.is_ok() <==> dim_eq(self.dim, other.dim),
            !dim_eq(self.dim, other.dim) ==> r == Err::<Quantity, QuantityError>(
                QuantityError::DimensionMismatch,
            ),
            r.is_ok() ==> ({
                let q = r.unwrap();
                &&& q.wf()
                &&& q.dim == self.dim
                &&& is_reduced_of(q.value, add_num(self.value, other.value), prod_den(self.value, other.value))
                &&& q.value.num * prod_den(self.value, other.value) == add_num(self.value, other.value)
                    * q.value.den
            }),
    {
        if !self.dim.same_dimension(&other.dim) {
            return Err(QuantityError::DimensionMismatch);
        }
        match self.value.checked_add(&other.value) {
            Some(v) => Ok(Quantity { value: v, dim: self.dim }),
            None => {
                proof {
                    assert(false);
                }
                vstd::pervasive::unreached()
            },
        }
    }

    /// Whether the exact difference of the two magnitudes fits in 64 bits
    /// once reduced, so that `subtract` is defined.
    pub fn can_subtract(&self, other: &Quantity) -> (r: bool)
        requires
            self.wf(),
            other.wf(),
        ensures
            r == (dim_eq(self.dim, other.dim) ==> reduce_fits(
                sub_num(self.value, other.value),
                prod_den(self.value, other.value),
            )),
    {
        !self.dim.same_dimension(&other.dim) || self.value.checked_sub(&other.value).is_some()
    }

    /// The difference of two quantities of one dimension.
    pub fn subtract(&self, other: &Quantity) -> (r: Result<Quantity, QuantityError>)
        requires
            self.wf(),
            other.wf(),
            dim_eq(self.dim, other.dim) ==> reduce_fits(
                sub_num(self.value, other.value),
                prod_den(self.value, other.value),
            ),
        ensures
            r.is_ok() <==> dim_eq(self.dim, other.dim),
            !dim_eq(self.dim, other.dim) ==> r == Err::<Quantity, QuantityError>(
                QuantityError::DimensionMismatch,
            ),
            r.is_ok() ==> ({
                let q = r.unwrap();
                &&& q.wf()
                &&& q.dim == self.dim
                &&& is_reduced_of(q.value, sub_num(self.value, other.value), prod_den(self.value, other.value))
                &&& q.value.num * prod_den(self.value, other.value) == sub_num(self.value, other.value)
                    * q.value.den
            }),
    {
        if !self.dim.same_dimension(&other.dim) {
            return Err(QuantityError::DimensionMismatch);
        }
        match self.value.checked_sub(&other.value) {
            Some(v) => Ok(Quantity { value: v, dim: self.dim }),
            None => {
                proof {
                    assert(false);
                }
                vstd::pervasive::unreached()
            },
        }
    }

    /// Whether the exact product — exponent sums and magnitude product —
    /// fits in 64 bits once reduced, so that `multiply` is defined.
    pub fn can_multiply(&self, other: &Quantity) -> (r: bool)
        requires
            self.wf(),
            other.wf(),
        ensures
            r == (dim_sum_fits(self.dim, other.dim) && reduce_fits(
                mul_num(self.value, other.value),
                prod_den(self.value, other.value),
            )),
    {
        self.dim.multiply(&other.dim).is_some() && self.value.checked_mul(&other.value).is_some()
    }

    /// The product of any two quantities: magnitudes multiply and
    /// dimension exponents add. Always succeeds, whatever the two
    /// dimensions.
    pub fn multiply(&self, other: &Quantity) -> (q: Quantity)
        requires
            self.wf(),
            other.wf(),
            dim_sum_fits(self.dim, other.dim),
            reduce_fits(mul_num(self.value, other.value), prod_den(self.value, other.value)),
        ensures
            q.wf(),
            is_dim_sum(q.dim, self.dim, other.dim),
            is_reduced_of(q.value, mul_num(self.value, other.value), prod_den(self.value, other.value)),
            q.value.num * prod_den(self.value, other.value) == mul_num(self.value, other.value)
                * q.value.den,
    {
        let dim = self.dim.multiply(&other.dim);
        let value = self.value.checked_mul(&other.value);
        match (dim, value) {
            (Some(d), Some(v)) => Quantity { value: v, dim: d },
            _ => {
                proof {
                    assert(false);
                }
                vstd::pervasive::unreached()
            },
        }
    }

    /// Whether the exact quotient — exponent differences and magnitude
    /// quotient — fits in 64 bits once reduced, so that `divide` is
    /// defined.
    pub fn can_divide(&self, other: &Quantity) -> (r: bool)
        requires
            self.wf(),
            other.wf(),
        ensures
            r == (other.value.num != 0 ==> dim_diff_fits(self.dim, other.dim) && reduce_fits(
                quot_num(self.value, other.value),
                quot_den(self.value, other.value),
            )),
    {
        other.value.num == 0 || (self.dim.divide(&other.dim).is_some()
            && self.value.checked_div(&other.value).is_some())
    }

    /// The quotient of any two quantities: magnitudes divide and
    /// dimension exponents subtract. Dividing by an exactly zero quantity
    /// is a numeric-domain failure, distinct from a dimension error;
    /// nothing else fails.
    pub fn divide(&self, other: &Quantity) -> (r: Result<Quantity, QuantityError>)
        requires
            self.wf(),
            other.wf(),
            other.value.num != 0 ==> dim_diff_fits(self.dim, other.dim) && reduce_fits(
                quot_num(self.value, other.value),
                quot_den(self.value, other.value),
            ),
        ensures
            r.is_ok() <==> other.value.num != 0,
            other.value.num == 0 ==> r == Err::<Quantity, QuantityError>(
                QuantityError::DivisionByZero,
            ),
            r.is_ok() ==> ({
                let q = r.unwrap();
                &&& q.wf()
                &&& is_dim_diff(q.dim, self.dim, other.dim)
                &&& is_reduced_of(q.value, quot_num(self.value, other.value), quot_den(self.value, other.value))
                &&& q.value.num * quot_den(self.value, other.value) == quot_num(self.value, other.value)
                    * q.value.den
            }),
    {
        if other.value.num == 0 {
            return Err(QuantityError::DivisionByZero);
        }
        let dim = self.dim.divide(&other.dim);
        let value = self.value.checked_div(&other.value);
        match (dim, value) {
            (Some(d), Some(v)) => Ok(Quantity { value: v, dim: d }),
            _ => {
                proof {
                    assert(false);
                }
                vstd::pervasive::unreached()
            },
        }
    }

    /// Exact equality: the dimensions agree and the magnitudes stand for
    /// the same rational. No implicit tolerance.
    pub fn equals(&self, other: &Quantity) -> (r: bool)
        ensures
            r == (dim_eq(self.dim, other.dim) && rat_eq(self.value, other.value)),
    {
        self.dim.same_dimension(&other.dim) && self.value.eq_rat(&other.value)
    }
}

/// Law: conversion round-trip. A quantity built from a raw value in some
/// unit, read back in the same unit, yields the raw value it started
/// from: `stored` relates to `raw * factor` as `Quantity::new` promises,
/// `back` relates to `stored / factor` as `get` promises, and then
/// `back` equals `raw` as a rational.
pub proof fn lemma_conversion_round_trip(raw: Rat, factor: Rat, stored: Rat, back: Rat)
    requires
        raw.wf(),
        factor.wf(),
        0 < factor.num,
        stored.wf(),
        back.wf(),
        stored.num * prod_den(raw, factor) == mul_num(raw, factor) * stored.den,
        back.num * quot_den(stored, factor) == quot_num(stored, factor) * back.den,
    ensures
        rat_eq(back, raw),
{
    let vn = raw.num as int;
    let vd = raw.den as int;
    let fn_ = factor.num as int;
    let fd = factor.den as int;
    let sn = stored.num as int;
    let sd = stored.den as int;
    let bn = back.num as int;
    let bd = back.den as int;
    let c = sd * (fn_ * fd);
    lemma_eq_mul(bn * (sd * fn_), (sn * fd) * bd, vd * fd);
    assert((bn * (sd * fn_)) * (vd * fd) == (bn * vd) * c) by (nonlinear_arith)
        requires
            c == sd * (fn_ * fd),
    ;
    assert(((sn * fd) * bd) * (vd * fd) == (sn * (vd * fd)) * (bd * fd)) by (nonlinear_arith);
    lemma_eq_mul(sn * (vd * fd), (vn * fn_) * sd, bd * fd);
    assert(((vn * fn_) * sd) * (bd * fd) == (vn * bd) * c) by (nonlinear_arith)
        requires
            c == sd * (fn_ * fd),
    ;
    assert((bn * vd) * c == (vn * bd) * c);
    assert(c != 0) by (nonlinear_arith)
        requires
            c == sd * (fn_ * fd),
            0 < sd,
            0 < fn_,
            0 < fd,
    ;
    lemma_mul_cancel(bn * vd, vn * bd, c);
}

/// Law: dimension closure under multiply and divide. Multiplying two
/// quantities and dividing the product by the second operand lands back
/// on the first operand's dimension: if `m` carries the exponent-wise
/// sum of the dimensions of `a` and `b`, and `q` the exponent-wise
/// difference of those of `m` and `b`, then `q` and `a` have equal
/// dimensions.
pub proof fn lemma_multiply_then_divide_dimension(a: Quantity, b: Quantity, m: Quantity, q: Quantity)
    requires
        a.wf(),
        b.wf(),
        m.wf(),
        q.wf(),
        is_dim_sum(m.dim, a.dim, b.dim),
        is_dim_diff(q.dim, m.dim, b.dim),
    ensures
        dim_eq(q.dim, a.dim),
{
    lemma_dim_mul_div_cancel(a.dim, b.dim, m.dim, q.dim);
}

} // verus!

//! A small worked example on top of the quantity system: two powers and
//! a dimensionless rate, combined into sums and a rate-scaled power.

use vstd::prelude::*;
use crate::dimension::{dim_eq, spec_dim_none, spec_dim_power, spec_dim_time};
use crate::quantity::Quantity;
use crate::rational::{
    Rat, rat_eq, is_reduced_of, mul_num, prod_den, reduce_fits, lemma_reduce_multiple,
    lemma_reduce_fits_small,
};
use crate::unit::{watt, second, ratio};

verus! {

/// Convenience constructor: a power of `pwr` watts. The watt is the base
/// unit of power, so the stored magnitude is the raw value itself, in
/// reduced form. Never fails for a well-formed raw value.
pub fn watts(pwr: Rat) -> (q: Quantity)
    requires
        pwr.wf(),
    ensures
        q.wf(),
        q.dim == spec_dim_power(),
        is_reduced_of(q.value, pwr.num as int, pwr.den as int),
        rat_eq(q.value, pwr),
{
    let w = watt();
    proof {
        lemma_reduce_fits_small(mul_num(pwr, w.factor), prod_den(pwr, w.factor));
    }
    Quantity::new(pwr, &w)
}

/// A fixed scenario: a power of ten watts, a power of one watt, and a
/// dimensionless rate of ten.
pub struct UnitThing {
    pub a: Quantity,
    pub b: Quantity,
    pub c: Quantity,
}

impl UnitThing {
    pub open spec fn wf(self) -> bool {
        &&& self.a == (Quantity {
            value: Rat { num: 10i64, den: 1i64 },
            dim: spec_dim_power(),
        })
        &&& self.b == (Quantity { value: Rat { num: 1i64, den: 1i64 }, dim: spec_dim_power() })
        &&& self.c == (Quantity { value: Rat { num: 10i64, den: 1i64 }, dim: spec_dim_none() })
    }

    /// Ten watts, one watt, and a ratio of ten.
    pub fn new() -> (u: UnitThing)
        ensures
            u.wf(),
    {
        proof {
            lemma_reduce_multiple(10, 1);
            lemma_reduce_multiple(1, 1);
        }
        let a = Quantity::new(Rat::from_int(10), &watt());
        let b = Quantity::new(Rat::from_int(1), &watt());
        let c = Quantity::new(Rat::from_int(10), &ratio());
        UnitThing { a, b, c }
    }

    /// The two powers summed: exactly eleven watts.
    pub fn sum_powers(&self) -> (q: Quantity)
        requires
            self.wf(),
        ensures
            q.wf(),
            q.dim == spec_dim_power(),
            q.value == (Rat { num: 11i64, den: 1i64 }),
    {
        proof {
            lemma_reduce_multiple(11, 1);
        }
        match self.a.add(&self.b) {
            Ok(q) => q,
            Err(_) => {
                proof {
                    assert(false);
                }
                vstd::pervasive::unreached()
            },
        }
    }

    /// Whether ten times the magnitude of `time` fits in 64 bits once
    /// reduced, so that `multiply_power_rate` is defined.
    pub fn can_multiply_power_rate(&self, time: &Quantity) -> (r: bool)
        requires
            self.wf(),
            time.wf(),
        ensures
            r == reduce_fits(10 * time.value.num, time.value.den as int),
    {
        let ten = Rat::from_int(10);
        ten.checked_mul(&time.value).is_some()
    }

    /// The rate times one watt per second times `time`: a power again,
    /// ten times the magnitude of `time`. Never fails on its admitted
    /// domain.
    pub fn multiply_power_rate(&self, time: Quantity) -> (q: Quantity)
        requires
            self.wf(),
            time.wf(),
            dim_eq(time.dim, spec_dim_time()),
            reduce_fits(10 * time.value.num, time.value.den as int),
        ensures
            q.wf(),
            dim_eq(q.dim, spec_dim_power()),
            q.value.num * time.value.den == 10 * time.value.num * q.value.den,
    {
        let num = watts(Rat::from_int(1));
        proof {
            lemma_reduce_multiple(1, 1);
            lemma_reduce_multiple(2, 1);
            lemma_reduce_multiple(-3, 1);
            lemma_reduce_multiple(-4, 1);
            lemma_reduce_multiple(10, 1);
            assert(num.value == (Rat { num: 1i64, den: 1i64 }));
        }
        let denom = Quantity::new(Rat::from_int(1), &second());
        let step1 = self.c.multiply(&num);
        proof {
            assert(step1.dim.mass == (Rat { num: 1i64, den: 1i64 }));
            assert(step1.dim.length == (Rat { num: 2i64, den: 1i64 }));
            assert(step1.dim.time == (Rat { num: -3i64, den: 1i64 }));
            assert(step1.value == (Rat { num: 10i64, den: 1i64 }));
        }
        let step2 = match step1.divide(&denom) {
            Ok(q) => q,
            Err(_) => {
                proof {
                    assert(false);
                }
                vstd::pervasive::unreached()
            },
        };
        proof {
            assert(step2.dim.mass == (Rat { num: 1i64, den: 1i64 }));
            assert(step2.dim.length == (Rat { num: 2i64, den: 1i64 }));
            assert(step2.dim.time == (Rat { num: -4i64, den: 1i64 }));
            assert(step2.value == (Rat { num: 10i64, den: 1i64 }));
            assert(time.dim.mass.num == 0) by (nonlinear_arith)
                requires
                    time.dim.mass.num * 1 == 0 * time.dim.mass.den,
            ;
            assert(time.dim.length.num == 0) by (nonlinear_arith)
                requires
                    time.dim.length.num * 1 == 0 * time.dim.length.den,
            ;
            assert(time.dim.time.num == time.dim.time.den) by (nonlinear_arith)
                requires
                    time.dim.time.num * 1 == 1 * time.dim.time.den,
            ;
            lemma_reduce_multiple(1, time.dim.mass.den as int);
            lemma_reduce_multiple(2, time.dim.length.den as int);
            lemma_reduce_multiple(-3, time.dim.time.den as int);
        }
        step2.multiply(&time)
    }
}

} // verus!

//! Physical dimensions as vectors of rational exponents.
//!
//! A dimension records one exponent per base dimension (mass, length,
//! time). Two dimensions are equal when every exponent pair stands for
//! the same rational; multiplying quantities adds exponents, dividing
//! subtracts them, and inversion negates them.

use vstd::prelude::*;
use crate::rational::{
    Rat, rat_eq, is_reduced_of, reduce_fits, add_num, sub_num, prod_den, lemma_mul_pos,
    lemma_mul_cancel, lemma_reduced_keeps_value, lemma_eq_mul,
};

verus! {

/// A physical dimension: rational exponents over the base dimensions.
#[derive(Clone, Copy, PartialEq, Eq, Structural, Debug)]
pub struct Dim {
    pub mass: Rat,
    pub length: Rat,
    pub time: Rat,
}

impl Dim {
    pub open spec fn wf(self) -> bool {
        &&& self.mass.wf()
        &&& self.length.wf()
        &&& self.time.wf()
    }
}

/// Dimension equality: every exponent pair stands for the same rational.
pub open spec fn dim_eq(a: Dim, b: Dim) -> bool {
    &&& rat_eq(a.mass, b.mass)
    &&& rat_eq(a.length, b.length)
    &&& rat_eq(a.time, b.time)
}

/// Exponent-wise: `m` holds the reduced sums of the exponents of `a`
/// and `b`.
pub open spec fn is_dim_sum(m: Dim, a: Dim, b: Dim) -> bool {
    &&& is_reduced_of(m.mass, add_num(a.mass, b.mass), prod_den(a.mass, b.mass))
    &&& is_reduced_of(m.length, add_num(a.length, b.length), prod_den(a.length, b.length))
    &&& is_reduced_of(m.time, add_num(a.time, b.time), prod_den(a.time, b.time))
}

/// Exponent-wise: `q` holds the reduced differences of the exponents of
/// `a` and `b`.
pub open spec fn is_dim_diff(q: Dim, a: Dim, b: Dim) -> bool {
    &&& is_reduced_of(q.mass, sub_num(a.mass, b.mass), prod_den(a.mass, b.mass))
    &&& is_reduced_of(q.length, sub_num(a.length, b.length), prod_den(a.length, b.length))
    &&& is_reduced_of(q.time, sub_num(a.time, b.time), prod_den(a.time, b.time))
}

/// All three exponent sums of `a` and `b` fit once reduced.
pub open spec fn dim_sum_fits(a: Dim, b: Dim) -> bool {
    &&& reduce_fits(add_num(a.mass, b.mass), prod_den(a.mass, b.mass))
    &&& reduce_fits(add_num(a.length, b.length), prod_den(a.length, b.length))
    &&& reduce_fits(add_num(a.time, b.time), prod_den(a.time, b.time))
}

/// All three exponent differences of `a` and `b` fit once reduced.
pub open spec fn dim_diff_fits(a: Dim, b: Dim) -> bool {
    &&& reduce_fits(sub_num(a.mass, b.mass), prod_den(a.mass, b.mass))
    &&& reduce_fits(sub_num(a.length, b.length), prod_den(a.length, b.length))
    &&& reduce_fits(sub_num(a.time, b.time), prod_den(a.time, b.time))
}

/// The zero exponent.
pub open spec fn rat_zero() -> Rat {
    Rat { num: 0, den: 1 }
}

/// The unit exponent.
pub open spec fn rat_one() -> Rat {
    Rat { num: 1, den: 1 }
}

/// The dimensionless (ratio) dimension: the zero vector.
pub open spec fn spec_dim_none() -> Dim {
    Dim { mass: rat_zero(), length: rat_zero(), time: rat_zero() }
}

/// Length.
pub open spec fn spec_dim_length() -> Dim {
    Dim { mass: rat_zero(), length: rat_one(), time: rat_zero() }
}

/// Time.
pub open spec fn spec_dim_time() -> Dim {
    Dim { mass: rat_zero(), length: rat_zero(), time: rat_one() }
}

/// Velocity: length over time.
pub open spec fn spec_dim_velocity() -> Dim {
    Dim {
        mass: rat_zero(),
        length: rat_one(),
        time: Rat { num: -1i64, den: 1 },
    }
}

/// Power: mass times length squared over time cubed.
pub open spec fn spec_dim_power() -> Dim {
    Dim {
        mass: rat_one(),
        length: Rat { num: 2, den: 1 },
        time: Rat { num: -3i64, den: 1 },
    }
}

impl Dim {
    /// A dimension from its three exponents.
    pub fn new(mass: Rat, length: Rat, time: Rat) -> (d: Dim)
        requires
            mass.wf(),
            length.wf(),
            time.wf(),
        ensures
            d.wf(),
            d == (Dim { mass, length, time }),
    {
        Dim { mass, length, time }
    }

    /// The dimensionless (ratio) dimension.
    pub fn dimensionless() -> (d: Dim)
        ensures
            d.wf(),
            d == spec_dim_none(),
    {
        Dim {
            mass: Rat { num: 0, den: 1 },
            length: Rat { num: 0, den: 1 },
            time: Rat { num: 0, den: 1 },
        }
    }

    /// The length dimension.
    pub fn base_length() -> (d: Dim)
        ensures
            d.wf(),
            d == spec_dim_length(),
    {
        Dim {
            mass: Rat { num: 0, den: 1 },
            length: Rat { num: 1, den: 1 },
            time: Rat { num: 0, den: 1 },
        }
    }

    /// The time dimension.
    pub fn base_time() -> (d: Dim)
        ensures
            d.wf(),
            d == spec_dim_time(),
    {
        Dim {
            mass: Rat { num: 0, den: 1 },
            length: Rat { num: 0, den: 1 },
            time: Rat { num: 1, den: 1 },
        }
    }

    /// The velocity dimension.
    pub fn velocity() -> (d: Dim)
        ensures
            d.wf(),
            d == spec_dim_velocity(),
    {
        Dim {
            mass: Rat { num: 0, den: 1 },
            length: Rat { num: 1, den: 1 },
            time: Rat { num: -1, den: 1 },
        }
    }

    /// The power dimension.
    pub fn power() -> (d: Dim)
        ensures
            d.wf(),
            d == spec_dim_power(),
    {
        Dim {
            mass: Rat { num: 1, den: 1 },
            length: Rat { num: 2, den: 1 },
            time: Rat { num: -3, den: 1 },
        }
    }

    /// Whether the two dimensions are equal, exponent by exponent.
    pub fn same_dimension(&self, other: &Dim) -> (r: bool)
        ensures
            r == dim_eq(*self, *other),
    {
        self.mass.eq_rat(&other.mass) && self.length.eq_rat(&other.length) && self.time.eq_rat(
            &other.time,
        )
    }

    /// The dimension of a product: exponent-wise sum.
    pub fn multiply(&self, other: &Dim) -> (r: Option<Dim>)
        requires
            self.wf(),
            other.wf(),
        ensures
            r.is_some() <==> dim_sum_fits(*self, *other),
            r.is_some() ==> r.unwrap().wf(),
            r.is_some() ==> is_dim_sum(r.unwrap(), *self, *other),
    {
        let mass = self.mass.checked_add(&other.mass);
        let length = self.length.checked_add(&other.length);
        let time = self.time.checked_add(&other.time);
        match (mass, length, time) {
            (Some(m), Some(l), Some(t)) => Some(Dim { mass: m, length: l, time: t }),
            _ => None,
        }
    }

    /// The dimension of a quotient: exponent-wise difference.
    pub fn divide(&self, other: &Dim) -> (r: Option<Dim>)
        requires
            self.wf(),
            other.wf(),
        ensures
            r.is_some() <==> dim_diff_fits(*self, *other),
            r.is_some() ==> r.unwrap().wf(),
            r.is_some() ==> is_dim_diff(r.unwrap(), *self, *other),
    {
        let mass = self.mass.checked_sub(&other.mass);
        let length = self.length.checked_sub(&other.length);
        let time = self.time.checked_sub(&other.time);
        match (mass, length, time) {
            (Some(m), Some(l), Some(t)) => Some(Dim { mass: m, length: l, time: t }),
            _ => None,
        }
    }

    /// The dimension of a reciprocal: every exponent negated.
    pub fn invert(&self) -> (r: Dim)
        requires
            self.wf(),
        ensures
            r.wf(),
            r.mass.num == -self.mass.num && r.mass.den == self.mass.den,
            r.length.num == -self.length.num && r.length.den == self.length.den,
            r.time.num == -self.time.num && r.time.den == self.time.den,
    {
        Dim { mass: self.mass.negate(), length: self.length.negate(), time: self.time.negate() }
    }
}

/// One exponent of a product dimension, divided back by the same factor,
/// stands for the exponent it started from.
proof fn lemma_rat_add_sub_cancel(a: Rat, b: Rat, m: Rat, q: Rat)
    requires
        a.wf(),
        b.wf(),
        m.wf(),
        q.wf(),
        m.num * prod_den(a, b) == add_num(a, b) * m.den,
        q.num * prod_den(m, b) == sub_num(m, b) * q.den,
    ensures
        rat_eq(q, a),
{
    let an = a.num as int;
    let ad = a.den as int;
    let bn = b.num as int;
    let bd = b.den as int;
    let mn = m.num as int;
    let md = m.den as int;
    let qn = q.num as int;
    let qd = q.den as int;
    let s = mn * bd - bn * md;
    let t = qd * ad;
    let u = md * qd;
    lemma_eq_mul(qn * (md * bd), s * qd, ad);
    assert((qn * (md * bd)) * ad == (qn * ad) * (md * bd)) by (nonlinear_arith);
    assert((s * qd) * ad == s * t) by (nonlinear_arith)
        requires
            t == qd * ad,
    ;
    assert(s * t == (mn * bd) * t - (bn * md) * t) by (nonlinear_arith)
        requires
            s == mn * bd - bn * md,
    ;
    assert((mn * bd) * t == (mn * (ad * bd)) * qd) by (nonlinear_arith)
        requires
            t == qd * ad,
    ;
    assert((bn * md) * t == (bn * ad) * u) by (nonlinear_arith)
        requires
            t == qd * ad,
            u == md * qd,
    ;
    lemma_eq_mul(mn * (ad * bd), (an * bd + bn * ad) * md, qd);
    assert(((an * bd + bn * ad) * md) * qd == (an * bd + bn * ad) * u) by (nonlinear_arith)
        requires
            u == md * qd,
    ;
    assert((an * bd + bn * ad) * u == (an * bd) * u + (bn * ad) * u) by (nonlinear_arith);
    assert((an * bd) * u == (an * qd) * (md * bd)) by (nonlinear_arith)
        requires
            u == md * qd,
    ;
    assert((qn * ad) * (md * bd) == (an * qd) * (md * bd));
    assert(md * bd != 0) by (nonlinear_arith)
        requires
            0 < md,
            0 < bd,
    ;
    lemma_mul_cancel(qn * ad, an * qd, md * bd);
}

/// Law: dimension closure under multiply and divide. A product dimension
/// divided back by one factor is the other factor: if `m` is the
/// exponent-wise sum of `a` and `b`, and `q` the exponent-wise difference
/// of `m` and `b`, then `q` equals `a`.
pub proof fn lemma_dim_mul_div_cancel(a: Dim, b: Dim, m: Dim, q: Dim)
    requires
        a.wf(),
        b.wf(),
        m.wf(),
        q.wf(),
        is_dim_sum(m, a, b),
        is_dim_diff(q, m, b),
    ensures
        dim_eq(q, a),
{
    lemma_mul_pos(a.mass.den as int, b.mass.den as int);
    lemma_mul_pos(a.length.den as int, b.length.den as int);
    lemma_mul_pos(a.time.den as int, b.time.den as int);
    lemma_mul_pos(m.mass.den as int, b.mass.den as int);
    lemma_mul_pos(m.length.den as int, b.length.den as int);
    lemma_mul_pos(m.time.den as int, b.time.den as int);
    lemma_reduced_keeps_value(m.mass, add_num(a.mass, b.mass), prod_den(a.mass, b.mass));
    lemma_reduced_keeps_value(m.length, add_num(a.length, b.length), prod_den(a.length, b.length));
    lemma_reduced_keeps_value(m.time, add_num(a.time, b.time), prod_den(a.time, b.time));
    lemma_reduced_keeps_value(q.mass, sub_num(m.mass, b.mass), prod_den(m.mass, b.mass));
    lemma_reduced_keeps_value(q.length, sub_num(m.length, b.length), prod_den(m.length, b.length));
    lemma_reduced_keeps_value(q.time, sub_num(m.time, b.time), prod_den(m.time, b.time));
    lemma_rat_add_sub_cancel(a.mass, b.mass, m.mass, q.mass);
    lemma_rat_add_sub_cancel(a.length, b.length, m.length, q.length);
    lemma_rat_add_sub_cancel(a.time, b.time, m.time, q.time);
}

} // verus!

//! Exact rational numbers over 64-bit integers.
//!
//! A `Rat` is a numerator together with a positive denominator. Every
//! arithmetic operation computes the exact result, removes the greatest
//! common divisor, and reports `None` when even the reduced result does
//! not fit in 64 bits. Two rationals are mathematically equal when they
//! cross-multiply to the same product, whatever their representations.

use vstd::prelude::*;
use vstd::arithmetic::div_mod::*;
use vstd::math::abs;

verus! {

/// Greatest common divisor by Euclid's recursion.
pub open spec fn spec_gcd(a: nat, b: nat) -> nat
    decreases b,
{
    if b == 0 {
        a
    } else {
        spec_gcd(b, a % b)
    }
}

/// The numerator of `n/d` once the greatest common divisor of the two
/// magnitudes has been removed.
pub open spec fn reduced_num(n: int, d: int) -> int {
    let g = spec_gcd(abs(n), abs(d)) as int;
    if n >= 0 {
        abs(n) as int / g
    } else {
        -(abs(n) as int / g)
    }
}

/// The denominator of `n/d` once the greatest common divisor of the two
/// magnitudes has been removed.
pub open spec fn reduced_den(n: int, d: int) -> int {
    let g = spec_gcd(abs(n), abs(d)) as int;
    abs(d) as int / g
}

/// Whether the reduced form of `n/d` fits in a `Rat`.
pub open spec fn reduce_fits(n: int, d: int) -> bool {
    &&& -(i64::MAX as int) <= reduced_num(n, d) <= i64::MAX as int
    &&& reduced_den(n, d) <= i64::MAX as int
}

/// An exact rational number. The denominator is positive; the numerator
/// stays clear of `i64::MIN` so that negation is always defined.
#[derive(Clone, Copy, PartialEq, Eq, Structural, Debug)]
pub struct Rat {
    pub num: i64,
    pub den: i64,
}

impl Rat {
    pub open spec fn wf(self) -> bool {
        &&& i64::MIN < self.num
        &&& 0 < self.den
    }
}

/// Mathematical equality of two rationals: equal cross-products.
pub open spec fn rat_eq(a: Rat, b: Rat) -> bool {
    a.num * b.den == b.num * a.den
}

/// `r` holds exactly the reduced form of the rational `n/d`.
pub open spec fn is_reduced_of(r: Rat, n: int, d: int) -> bool {
    &&& r.num == reduced_num(n, d)
    &&& r.den == reduced_den(n, d)
}

/// Exact numerator of a sum, before reduction.
pub open spec fn add_num(a: Rat, b: Rat) -> int {
    a.num * b.den + b.num * a.den
}

/// Exact numerator of a difference, before reduction.
pub open spec fn sub_num(a: Rat, b: Rat) -> int {
    a.num * b.den - b.num * a.den
}

/// Exact numerator of a product, before reduction.
pub open spec fn mul_num(a: Rat, b: Rat) -> int {
    a.num * b.num
}

/// Exact denominator of a sum, difference or product, before reduction.
pub open spec fn prod_den(a: Rat, b: Rat) -> int {
    a.den * b.den
}

/// Exact numerator of a quotient, before reduction, with the sign moved
/// onto the numerator.
pub open spec fn quot_num(a: Rat, b: Rat) -> int {
    if b.num >= 0 {
        a.num * b.den
    } else {
        -(a.num * b.den)
    }
}

/// Exact (positive) denominator of a quotient, before reduction.
pub open spec fn quot_den(a: Rat, b: Rat) -> int {
    if b.num >= 0 {
        a.den * b.num
    } else {
        -(a.den * b.num)
    }
}

pub proof fn lemma_mul_bounds(x: int, y: int, bx: int, by: int) by (nonlinear_arith)
    requires
        -bx <= x <= bx,
        -by <= y <= by,
    ensures
        -(bx * by) <= x * y <= bx * by,
{
}

pub proof fn lemma_mul_pos(x: int, y: int) by (nonlinear_arith)
    requires
        0 < x,
        0 < y,
    ensures
        0 < x * y,
{
}

/// Multiplying both sides of an equality by the same factor keeps it.
pub proof fn lemma_eq_mul(x: int, y: int, c: int) by (nonlinear_arith)
    requires
        x == y,
    ensures
        x * c == y * c,
{
}

/// Equal products with a nonzero common factor have equal cofactors.
pub proof fn lemma_mul_cancel(a: int, b: int, c: int) by (nonlinear_arith)
    requires
        a * c == b * c,
        c != 0,
    ensures
        a == b,
{
}

/// The greatest common divisor is positive and divides both arguments.
proof fn lemma_gcd_divides(a: nat, b: nat)
    requires
        a > 0 || b > 0,
    ensures
        spec_gcd(a, b) > 0,
        a % spec_gcd(a, b) == 0,
        b % spec_gcd(a, b) == 0,
    decreases b,
{
    let g = spec_gcd(a, b);
    if b == 0 {
        lemma_mod_self_0(a as int);
        lemma_small_mod(0, a);
    } else {
        let r = a % b;
        lemma_gcd_divides(b, r);
        let q = a as int / b as int;
        lemma_fundamental_div_mod(a as int, b as int);
        assert(a as int == b as int * q + r);
        lemma_mul_mod_noop_right(q, b as int, g as int);
        assert(q * (b as int % g as int) == 0) by (nonlinear_arith)
            requires
                b as int % g as int == 0,
        ;
        lemma_small_mod(0, g);
        assert((q * b as int) % g as int == 0) by {
            assert(q * b as int == b as int * q) by (nonlinear_arith);
        }
        lemma_add_mod_noop(b as int * q, r as int, g as int);
        assert((b as int * q) % g as int == (q * b as int) % g as int) by {
            assert(b as int * q == q * b as int) by (nonlinear_arith);
        }
    }
}

/// Reduction keeps the value of `n/d`, keeps the denominator positive,
/// and never grows either side.
proof fn lemma_reduce_represents(n: int, d: int)
    requires
        0 < d,
    ensures
        0 < reduced_den(n, d),
        reduced_num(n, d) * d == n * reduced_den(n, d),
        abs(reduced_num(n, d)) <= abs(n),
        reduced_den(n, d) <= d,
{
    let na = abs(n) as int;
    let g = spec_gcd(abs(n), abs(d)) as int;
    lemma_gcd_divides(abs(n), abs(d));
    lemma_fundamental_div_mod(na, g);
    lemma_fundamental_div_mod(d, g);
    let qn = na / g;
    let qd = d / g;
    lemma_div_pos_is_pos(na, g);
    lemma_div_pos_is_pos(d, g);
    assert(0 < qd) by (nonlinear_arith)
        requires
            d == g * qd + 0,
            0 < d,
            0 < g,
            0 <= qd,
    ;
    assert(qn * d == na * qd) by (nonlinear_arith)
        requires
            na == g * qn + 0,
            d == g * qd + 0,
    ;
    assert(qn <= na) by (nonlinear_arith)
        requires
            na == g * qn + 0,
            1 <= g,
            0 <= qn,
    ;
    assert(qd <= d) by (nonlinear_arith)
        requires
            d == g * qd + 0,
            1 <= g,
            0 <= qd,
    ;
    if n < 0 {
        assert((-qn) * d == n * qd) by (nonlinear_arith)
            requires
                qn * d == na * qd,
                na == -n,
        ;
    }
}

/// A reduced form stands for the rational it was reduced from: the
/// cross-products agree.
pub proof fn lemma_reduced_keeps_value(r: Rat, n: int, d: int)
    requires
        0 < d,
        is_reduced_of(r, n, d),
    ensures
        r.num * d == n * r.den,
        0 < r.den,
{
    lemma_reduce_represents(n, d);
}


/// A rational whose sides already fit in 64 bits still fits once
/// reduced: reduction never grows either side.
pub proof fn lemma_reduce_fits_small(n: int, d: int)
    requires
        0 < d <= i64::MAX as int,
        -(i64::MAX as int) <= n <= i64::MAX as int,
    ensures
        reduce_fits(n, d),
{
    lemma_reduce_represents(n, d);
}

/// Reducing `(k * x) / x` lands exactly on the whole number `k`.
pub proof fn lemma_reduce_multiple(k: int, x: int)
    requires
        0 < x,
        -(i64::MAX as int) <= k <= i64::MAX as int,
    ensures
        reduced_num(k * x, x) == k,
        reduced_den(k * x, x) == 1,
        reduce_fits(k * x, x),
{
    let n = k * x;
    let ka = abs(k) as int;
    let na = abs(n) as int;
    assert(n >= 0 <==> k >= 0) by (nonlinear_arith)
        requires
            n == k * x,
            0 < x,
    ;
    assert(na == ka * x) by (nonlinear_arith)
        requires
            n == k * x,
            0 < x,
            na == if n >= 0 { n } else { -n },
            ka == if k >= 0 { k } else { -k },
    ;
    lemma_mod_multiples_basic(ka, x);
    assert(spec_gcd(na as nat, x as nat) == x as nat) by {
        reveal_with_fuel(spec_gcd, 3);
        assert(na as nat % x as nat == 0);
    }
    lemma_div_by_multiple(ka, x);
    lemma_div_by_self(x);
}

/// Greatest common divisor of two machine words.
fn gcd_u128(a: u128, b: u128) -> (g: u128)
    ensures
        g as nat == spec_gcd(a as nat, b as nat),
    decreases b,
{
    if b == 0 {
        a
    } else {
        gcd_u128(b, a % b)
    }
}

/// Reduce the rational `n/d` and pack it into a `Rat`, or report that
/// even the reduced form does not fit in 64 bits.
fn reduce(n: i128, d: i128) -> (r: Option<Rat>)
    requires
        0 < d,
        i128::MIN < n,
    ensures
        r.is_some() <==> reduce_fits(n as int, d as int),
        r.is_some() ==> r.unwrap().wf(),
        r.is_some() ==> is_reduced_of(r.unwrap(), n as int, d as int),
        r.is_some() ==> r.unwrap().num * d == n * r.unwrap().den,
        r.is_some() ==> abs(r.unwrap().num as int) <= abs(n as int) && r.unwrap().den <= d,
{
    proof {
        lemma_reduce_represents(n as int, d as int);
    }
    let neg = n < 0;
    let na: u128 = if n < 0 {
        (-n) as u128
    } else {
        n as u128
    };
    let g = gcd_u128(na, d as u128);
    proof {
        lemma_gcd_divides(na as nat, d as nat);
        lemma_div_pos_is_pos(na as int, g as int);
        lemma_div_pos_is_pos(d as int, g as int);
    }
    let qn = na / g;
    let qd = (d as u128) / g;
    if qn <= (i64::MAX as u128) && qd <= (i64::MAX as u128) {
        let num: i64 = if neg {
            -(qn as i64)
        } else {
            qn as i64
        };
        let den: i64 = qd as i64;
        Some(Rat { num, den })
    } else {
        None
    }
}

impl Rat {
    /// The rational `num/den`, reduced. Always fits: reduction never
    /// grows the numerator or the denominator.
    pub fn new(num: i64, den: i64) -> (r: Rat)
        requires
            i64::MIN < num,
            0 < den,
        ensures
            r.wf(),
            is_reduced_of(r, num as int, den as int),
            r.num * den == num * r.den,
    {
        proof {
            lemma_reduce_represents(num as int, den as int);
        }
        match reduce(num as i128, den as i128) {
            Some(v) => v,
            None => {
                proof {
                    assert(false);
                }
                vstd::pervasive::unreached()
            },
        }
    }

    /// The whole number `n` as a rational.
    pub fn from_int(n: i64) -> (r: Rat)
        requires
            i64::MIN < n,
        ensures
            r.wf(),
            r.num == n,
            r.den == 1,
    {
        Rat { num: n, den: 1 }
    }

    /// Mathematical equality: `self` and `other` stand for the same
    /// rational number.
    pub fn eq_rat(&self, other: &Rat) -> (r: bool)
        ensures
            r == rat_eq(*self, *other),
    {
        proof {
            lemma_mul_bounds(self.num as int, other.den as int, i64::MAX as int + 1, i64::MAX as int + 1);
            lemma_mul_bounds(other.num as int, self.den as int, i64::MAX as int + 1, i64::MAX as int + 1);
        }
        (self.num as i128) * (other.den as i128) == (other.num as i128) * (self.den as i128)
    }

    /// Exact sum, reduced; `None` when the reduced sum does not fit.
    pub fn checked_add(&self, other: &Rat) -> (r: Option<Rat>)
        requires
            self.wf(),
            other.wf(),
        ensures
            r.is_some() <==> reduce_fits(add_num(*self, *other), prod_den(*self, *other)),
            r.is_some() ==> r.unwrap().wf(),
            r.is_some() ==> is_reduced_of(r.unwrap(), add_num(*self, *other), prod_den(*self, *other)),
            r.is_some() ==> r.unwrap().num * prod_den(*self, *other) == add_num(*self, *other)
                * r.unwrap().den,
    {
        proof {
            lemma_mul_bounds(self.num as int, other.den as int, i64::MAX as int, i64::MAX as int);
            lemma_mul_bounds(other.num as int, self.den as int, i64::MAX as int, i64::MAX as int);
            lemma_mul_bounds(self.den as int, other.den as int, i64::MAX as int, i64::MAX as int);
            lemma_mul_pos(self.den as int, other.den as int);
        }
        let n: i128 = (self.num as i128) * (other.den as i128) + (other.num as i128)
            * (self.den as i128);
        let d: i128 = (self.den as i128) * (other.den as i128);
        reduce(n, d)
    }

    /// Exact difference, reduced; `None` when the reduced difference does
    /// not fit.
    pub fn checked_sub(&self, other: &Rat) -> (r: Option<Rat>)
        requires
            self.wf(),
            other.wf(),
        ensures
            r.is_some() <==> reduce_fits(sub_num(*self, *other), prod_den(*self, *other)),
            r.is_some() ==> r.unwrap().wf(),
            r.is_some() ==> is_reduced_of(r.unwrap(), sub_num(*self, *other), prod_den(*self, *other)),
            r.is_some() ==> r.unwrap().num * prod_den(*self, *other) == sub_num(*self, *other)
                * r.unwrap().den,
    {
        proof {
            lemma_mul_bounds(self.num as int, other.den as int, i64::MAX as int, i64::MAX as int);
            lemma_mul_bounds(other.num as int, self.den as int, i64::MAX as int, i64::MAX as int);
            lemma_mul_bounds(self.den as int, other.den as int, i64::MAX as int, i64::MAX as int);
            lemma_mul_pos(self.den as int, other.den as int);
        }
        let n: i128 = (self.num as i128) * (other.den as i128) - (other.num as i128)
            * (self.den as i128);
        let d: i128 = (self.den as i128) * (other.den as i128);
        reduce(n, d)
    }

    /// Exact product, reduced; `None` when the reduced product does not
    /// fit.
    pub fn checked_mul(&self, other: &Rat) -> (r: Option<Rat>)
        requires
            self.wf(),
            other.wf(),
        ensures
            r.is_some() <==> reduce_fits(mul_num(*self, *other), prod_den(*self, *other)),
            r.is_some() ==> r.unwrap().wf(),
            r.is_some() ==> is_reduced_of(r.unwrap(), mul_num(*self, *other), prod_den(*self, *other)),
            r.is_some() ==> r.unwrap().num * prod_den(*self, *other) == mul_num(*self, *other)
                * r.unwrap().den,
    {
        proof {
            lemma_mul_bounds(self.num as int, other.num as int, i64::MAX as int, i64::MAX as int);
            lemma_mul_bounds(self.den as int, other.den as int, i64::MAX as int, i64::MAX as int);
            lemma_mul_pos(self.den as int, other.den as int);
        }
        let n: i128 = (self.num as i128) * (other.num as i128);
        let d: i128 = (self.den as i128) * (other.den as i128);
        reduce(n, d)
    }

    /// Exact quotient, reduced; `None` when the reduced quotient does not
    /// fit. The divisor must not be zero.
    pub fn checked_div(&self, other: &Rat) -> (r: Option<Rat>)
        requires
            self.wf(),
            other.wf(),
            other.num != 0,
        ensures
            r.is_some() <==> reduce_fits(quot_num(*self, *other), quot_den(*self, *other)),
            r.is_some() ==> r.unwrap().wf(),
            r.is_some() ==> is_reduced_of(r.unwrap(), quot_num(*self, *other), quot_den(*self, *other)),
            r.is_some() ==> r.unwrap().num * quot_den(*self, *other) == quot_num(*self, *other)
                * r.unwrap().den,
    {
        proof {
            lemma_mul_bounds(self.num as int, other.den as int, i64::MAX as int, i64::MAX as int);
            lemma_mul_bounds(self.den as int, other.num as int, i64::MAX as int, i64::MAX as int);
            assert(other.num < 0 ==> (self.den as int) * (other.num as int) < 0) by (nonlinear_arith)
                requires
                    0 < self.den,
            ;
            assert(other.num > 0 ==> (self.den as int) * (other.num as int) > 0) by (nonlinear_arith)
                requires
                    0 < self.den,
            ;
        }
        let n0: i128 = (self.num as i128) * (other.den as i128);
        let d0: i128 = (self.den as i128) * (other.num as i128);
        if d0 < 0 {
            reduce(-n0, -d0)
        } else {
            reduce(n0, d0)
        }
    }

    /// Exact negation; always fits.
    pub fn negate(&self) -> (r: Rat)
        requires
            self.wf(),
        ensures
            r.wf(),
            r.num == -self.num,
            r.den == self.den,
    {
        Rat { num: -self.num, den: self.den }
    }
}

} // verus!

//! Rendering quantities as text.
//!
//! A binding pairs a unit with a display style once and then renders any
//! quantity of the matching dimension as `"<value> <label>"`, where the
//! label is the unit's abbreviation or its full name. The value is the
//! exact rational in the bound unit: a whole number renders as its
//! decimal digits; a value whose reduced denominator divides a power of
//! ten renders as an exact decimal; any other rational renders as
//! `numerator/denominator`. The output is a pure function of the binding
//! and the quantity, so equal inputs always render to equal strings.

use vstd::prelude::*;
use vstd::arithmetic::div_mod::{
    lemma_div_decreases, lemma_div_non_zero, lemma_fundamental_div_mod,
    lemma_mod_division_less_than_divisor, lemma_small_mod,
};
use vstd::math::abs;
use vstd::string::StringExecFns;
use crate::QuantityError;
use crate::dimension::dim_eq;
use crate::quantity::Quantity;
use crate::rational::{Rat, quot_num, quot_den, reduce_fits, reduced_num, reduced_den};
use crate::unit::{Catalog, Unit, has_symbol, unit_like};

verus! {

/// How a binding labels the values it renders.
#[derive(Clone, Copy, PartialEq, Eq, Structural, Debug)]
pub enum Style {
    /// Label with the unit's abbreviation.
    Abbreviation,
    /// Label with the unit's full name.
    FullName,
}

/// The decimal digit character for `d`.
pub open spec fn digit_char(d: int) -> char {
    if d == 0 {
        '0'
    } else if d == 1 {
        '1'
    } else if d == 2 {
        '2'
    } else if d == 3 {
        '3'
    } else if d == 4 {
        '4'
    } else if d == 5 {
        '5'
    } else if d == 6 {
        '6'
    } else if d == 7 {
        '7'
    } else if d == 8 {
        '8'
    } else {
        '9'
    }
}

/// The decimal digits of `n`, most significant first.
pub open spec fn spec_digits(n: nat) -> Seq<char>
    decreases n,
{
    if n < 10 {
        seq![digit_char(n as int)]
    } else {
        spec_digits(n / 10).push(digit_char((n % 10) as int))
    }
}

/// The decimal rendering of a signed whole number.
pub open spec fn spec_int_chars(n: int) -> Seq<char> {
    if n < 0 {
        seq!['-'] + spec_digits((-n) as nat)
    } else {
        spec_digits(n as nat)
    }
}

/// What is left of `d` once every factor `p` has been divided out.
pub open spec fn strip_factor(d: nat, p: nat) -> nat
    decreases d,
    via strip_factor_decreases
{
    if 2 <= p && 0 < d && d % p == 0 {
        strip_factor(d / p, p)
    } else {
        d
    }
}

#[via_fn]
proof fn strip_factor_decreases(d: nat, p: nat) {
    if 2 <= p && 0 < d && d % p == 0 {
        lemma_div_decreases(d as int, p as int);
    }
}

/// How many times `p` divides `d`.
pub open spec fn count_factor(d: nat, p: nat) -> nat
    decreases d,
    via count_factor_decreases
{
    if 2 <= p && 0 < d && d % p == 0 {
        count_factor(d / p, p) + 1
    } else {
        0
    }
}

#[via_fn]
proof fn count_factor_decreases(d: nat, p: nat) {
    if 2 <= p && 0 < d && d % p == 0 {
        lemma_div_decreases(d as int, p as int);
    }
}

/// `d` divides a power of ten: nothing but twos and fives remains in it.
pub open spec fn divides_pow10(d: nat) -> bool {
    strip_factor(strip_factor(d, 2), 5) == 1
}

/// The number of digits after the decimal point for denominator `d`: as
/// many as the larger of its counts of twos and of fives asks for.
pub open spec fn dec_places(d: nat) -> nat {
    let c2 = count_factor(d, 2);
    let c5 = count_factor(strip_factor(d, 2), 5);
    if c2 >= c5 {
        c2
    } else {
        c5
    }
}

/// The first `e` fraction digits of `r/d`, by long division.
pub open spec fn spec_frac_digits(r: nat, d: nat, e: nat) -> Seq<char>
    decreases e,
{
    if e == 0 {
        Seq::empty()
    } else {
        seq![digit_char(((r * 10) / d) as int)] + spec_frac_digits((r * 10) % d, d, (e - 1) as nat)
    }
}

/// The exact decimal rendering of `n/d`: sign, whole part, point, and
/// the fraction digits that `d` asks for.
pub open spec fn spec_decimal_chars(n: int, d: int) -> Seq<char> {
    let mag = abs(n);
    let body = spec_digits(mag / (d as nat)) + seq!['.'] + spec_frac_digits(
        mag % (d as nat),
        d as nat,
        dec_places(d as nat),
    );
    if n < 0 {
        seq!['-'] + body
    } else {
        body
    }
}

/// The rendering of the rational `n/d`: plain digits for a whole number,
/// an exact decimal when `d` divides a power of ten, and
/// `numerator/denominator` otherwise.
pub open spec fn spec_rat_chars(n: int, d: int) -> Seq<char> {
    if d == 1 {
        spec_int_chars(n)
    } else if divides_pow10(d as nat) {
        spec_decimal_chars(n, d)
    } else {
        spec_int_chars(n) + seq!['/'] + spec_digits(d as nat)
    }
}

/// The full rendering: the value in the bound unit, a space, the label.
pub open spec fn spec_rendered(n: int, d: int, label: Seq<char>) -> Seq<char> {
    spec_rat_chars(n, d) + seq![' '] + label
}

/// The label a style picks from a unit.
pub open spec fn spec_label(unit: Unit, style: Style) -> Seq<char> {
    if style == Style::Abbreviation {
        unit.abbreviation@
    } else {
        unit.symbol@
    }
}

/// The decimal digit string for `d`.
fn digit_str(d: u64) -> (s: &'static str)
    requires
        d < 10,
    ensures
        s@ == seq![digit_char(d as int)],
{
    let r: &'static str = match d {
        0 => "0",
        1 => "1",
        2 => "2",
        3 => "3",
        4 => "4",
        5 => "5",
        6 => "6",
        7 => "7",
        8 => "8",
        _ => "9",
    };
    proof {
        reveal_strlit("0");
        reveal_strlit("1");
        reveal_strlit("2");
        reveal_strlit("3");
        reveal_strlit("4");
        reveal_strlit("5");
        reveal_strlit("6");
        reveal_strlit("7");
        reveal_strlit("8");
        reveal_strlit("9");
        assert(r@ =~= seq![digit_char(d as int)]);
    }
    r
}

/// The decimal digits of `n`, most significant first.
fn u64_digits(n: u64) -> (s: String)
    ensures
        s@ == spec_digits(n as nat),
    decreases n,
{
    if n < 10 {
        digit_str(n).to_owned()
    } else {
        let mut s = u64_digits(n / 10);
        s.append(digit_str(n % 10));
        proof {
            assert(s@ =~= spec_digits((n / 10) as nat).push(digit_char((n % 10) as int)));
        }
        s
    }
}

/// Divide every factor `p` out of `d`, counting how many there were.
fn strip(d: u64, p: u64) -> (r: (u64, u64))
    requires
        0 < d,
        2 <= p,
    ensures
        r.0 as nat == count_factor(d as nat, p as nat),
        r.1 as nat == strip_factor(d as nat, p as nat),
        r.0 < d,
        0 < r.1 <= d,
    decreases d,
{
    if d % p == 0 {
        proof {
            if d < p {
                lemma_small_mod(d as nat, p as nat);
            }
            lemma_div_non_zero(d as int, p as int);
            lemma_div_decreases(d as int, p as int);
        }
        let (c, rest) = strip(d / p, p);
        (c + 1, rest)
    } else {
        (0, d)
    }
}

/// The first `e` fraction digits of `r0/d`, by long division.
fn frac_string(r0: u64, d: u64, e: u64) -> (s: String)
    requires
        0 < d,
        r0 < d,
    ensures
        s@ == spec_frac_digits(r0 as nat, d as nat, e as nat),
    decreases e,
{
    if e == 0 {
        let s = String::new();
        proof {
            assert(s@ =~= spec_frac_digits(r0 as nat, d as nat, 0));
        }
        s
    } else {
        let r10: u128 = (r0 as u128) * 10;
        proof {
            lemma_fundamental_div_mod(r10 as int, d as int);
            lemma_mod_division_less_than_divisor(r10 as int, d as int);
            assert(r10 / (d as u128) < 10) by (nonlinear_arith)
                requires
                    r10 as int == d as int * (r10 as int / d as int) + r10 as int % d as int,
                    0 <= r10 as int % d as int,
                    r10 < 10 * (d as int),
                    0 < d,
            ;
        }
        let digit: u64 = (r10 / (d as u128)) as u64;
        let rest: u64 = (r10 % (d as u128)) as u64;
        let mut s = digit_str(digit).to_owned();
        let tail = frac_string(rest, d, e - 1);
        s.append(tail.as_str());
        proof {
            assert(s@ =~= spec_frac_digits(r0 as nat, d as nat, e as nat));
        }
        s
    }
}

/// The exact rendering of a rational: whole digits, an exact decimal, or
/// a fraction, as `spec_rat_chars` lays down.
fn rat_string(v: &Rat) -> (s: String)
    requires
        v.wf(),
    ensures
        s@ == spec_rat_chars(v.num as int, v.den as int),
{
    let mag: u64 = if v.num < 0 {
        (-v.num) as u64
    } else {
        v.num as u64
    };
    if v.den == 1 {
        let digits = u64_digits(mag);
        if v.num < 0 {
            let mut s = "-".to_owned();
            s.append(digits.as_str());
            proof {
                reveal_strlit("-");
                assert("-"@ =~= seq!['-']);
                assert(s@ =~= spec_int_chars(v.num as int));
            }
            s
        } else {
            digits
        }
    } else {
        let den: u64 = v.den as u64;
        let (c2, r2) = strip(den, 2);
        let (c5, rest) = strip(r2, 5);
        if rest == 1 {
            let e: u64 = if c2 >= c5 {
                c2
            } else {
                c5
            };
            let whole = u64_digits(mag / den);
            let frac = frac_string(mag % den, den, e);
            let mut s: String;
            if v.num < 0 {
                s = "-".to_owned();
                s.append(whole.as_str());
            } else {
                s = whole;
            }
            s.append(".");
            s.append(frac.as_str());
            proof {
                reveal_strlit("-");
                reveal_strlit(".");
                assert("-"@ =~= seq!['-']);
                assert("."@ =~= seq!['.']);
                assert(s@ =~= spec_decimal_chars(v.num as int, v.den as int));
            }
            s
        } else {
            let digits = u64_digits(mag);
            let mut s: String;
            if v.num < 0 {
                s = "-".to_owned();
                s.append(digits.as_str());
                proof {
                    reveal_strlit("-");
                    assert("-"@ =~= seq!['-']);
                    assert(s@ =~= spec_int_chars(v.num as int));
                }
            } else {
                s = digits;
            }
            s.append("/");
            let den_digits = u64_digits(den);
            s.append(den_digits.as_str());
            proof {
                reveal_strlit("/");
                assert("/"@ =~= seq!['/']);
                assert(s@ =~= spec_rat_chars(v.num as int, v.den as int));
            }
            s
        }
    }
}

/// A reusable pairing of a unit and a display style. It holds no other
/// state: rendering is a pure function of the binding and the quantity.
pub struct FormatBinding {
    pub unit: Unit,
    pub style: Style,
}

impl FormatBinding {
    pub open spec fn wf(self) -> bool {
        self.unit.wf()
    }

    /// Whether `q`'s magnitude, expressed in the bound unit, fits in 64
    /// bits once reduced, so that `render` is defined.
    pub fn can_render(&self, q: &Quantity) -> (r: bool)
        requires
            self.wf(),
            q.wf(),
        ensures
            r == (dim_eq(q.dim, self.unit.dimension) ==> reduce_fits(
                quot_num(q.value, self.unit.factor),
                quot_den(q.value, self.unit.factor),
            )),
    {
        q.can_get(&self.unit)
    }

    /// Render `q` in the bound unit under the bound style, as
    /// `"<value> <label>"`. Fails exactly when `q` owns another
    /// dimension.
    pub fn render(&self, q: &Quantity) -> (r: Result<String, QuantityError>)
        requires
            self.wf(),
            q.wf(),
            dim_eq(q.dim, self.unit.dimension) ==> reduce_fits(
                quot_num(q.value, self.unit.factor),
                quot_den(q.value, self.unit.factor),
            ),
        ensures
            r.is_ok() <==> dim_eq(q.dim, self.unit.dimension),
            !dim_eq(q.dim, self.unit.dimension) ==> r == Err::<String, QuantityError>(
                QuantityError::DimensionMismatch,
            ),
            r.is_ok() ==> r.unwrap()@ == spec_rendered(
                reduced_num(quot_num(q.value, self.unit.factor), quot_den(q.value, self.unit.factor)),
                reduced_den(quot_num(q.value, self.unit.factor), quot_den(q.value, self.unit.factor)),
                spec_label(self.unit, self.style),
            ),
    {
        match q.get(&self.unit) {
            Ok(v) => {
                let mut s = rat_string(&v);
                s.append(" ");
                match self.style {
                    Style::Abbreviation => s.append(self.unit.abbreviation.as_str()),
                    Style::FullName => s.append(self.unit.symbol.as_str()),
                }
                proof {
                    reveal_strlit(" ");
                    assert(" "@ =~= seq![' ']);
                    assert(s@ =~= spec_rendered(
                        v.num as int,
                        v.den as int,
                        spec_label(self.unit, self.style),
                    ));
                }
                Ok(s)
            },
            Err(e) => Err(e),
        }
    }
}

impl Catalog {
    /// Bind the unit registered under `symbol` to a display style for
    /// repeated rendering. An unregistered symbol is reported.
    pub fn bind(&self, symbol: &String, style: Style) -> (r: Result<FormatBinding, QuantityError>)
        requires
            self.wf(),
        ensures
            r.is_ok() <==> has_symbol(self.units@, symbol@),
            !has_symbol(self.units@, symbol@) ==> r == Err::<FormatBinding, QuantityError>(
                QuantityError::UnknownUnit,
            ),
            r.is_ok() ==> ({
                let b = r.unwrap();
                &&& b.wf()
                &&& b.style == style
                &&& b.unit.symbol@ == symbol@
                &&& exists|i: int|
                    0 <= i < self.units@.len() && unit_like(b.unit, #[trigger] self.units@[i])
            }),
    {
        match self.lookup(symbol) {
            Ok(u) => Ok(FormatBinding { unit: u, style }),
            Err(e) => Err(e),
        }
    }
}

/// One-shot conversion and rendering: bind `unit` to `style`, render `q`,
/// and keep nothing. Fails exactly as `render` does.
pub fn convert_and_render(q: &Quantity, unit: &Unit, style: Style) -> (r: Result<
    String,
    QuantityError,
>)
    requires
        q.wf(),
        unit.wf(),
        dim_eq(q.dim, unit.dimension) ==> reduce_fits(
            quot_num(q.value, unit.factor),
            quot_den(q.value, unit.factor),
        ),
    ensures
        r.is_ok() <==> dim_eq(q.dim, unit.dimension),
        !dim_eq(q.dim, unit.dimension) ==> r == Err::<String, QuantityError>(
            QuantityError::DimensionMismatch,
        ),
        r.is_ok() ==> r.unwrap()@ == spec_rendered(
            reduced_num(quot_num(q.value, unit.factor), quot_den(q.value, unit.factor)),
            reduced_den(quot_num(q.value, unit.factor), quot_den(q.value, unit.factor)),
            spec_label(*unit, style),
        ),
{
    let binding = FormatBinding { unit: unit.duplicate(), style };
    binding.render(q)
}

/// Law: formatter determinism. Rendering one quantity through one
/// binding twice yields identical strings: every render result for the
/// same reduced value and the same label is the same sequence of
/// characters.
pub proof fn lemma_render_deterministic(
    s1: Seq<char>,
    s2: Seq<char>,
    n: int,
    d: int,
    label: Seq<char>,
)
    requires
        s1 == spec_rendered(n, d, label),
        s2 == spec_rendered(n, d, label),
    ensures
        s1 == s2,
{
}

} // verus!

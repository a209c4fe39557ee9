//! Named units and the unit catalog.
//!
//! A unit ties a symbol and a display abbreviation to a dimension and a
//! linear conversion factor: a raw value in the unit times the factor is
//! the value in the dimension's canonical base unit. Metric prefixes are
//! ordinary catalog rows whose factor carries the prefix multiplier. The
//! catalog refuses to rebind a symbol to a different definition and
//! reports a lookup of an unregistered symbol.

use vstd::prelude::*;
use crate::QuantityError;
use crate::dimension::{
    Dim, dim_eq, spec_dim_none, spec_dim_length, spec_dim_time, spec_dim_velocity, spec_dim_power,
};
use crate::rational::{Rat, rat_eq};

verus! {

/// A named unit: symbol, display abbreviation, owning dimension, and the
/// conversion factor to the dimension's canonical base unit.
pub struct Unit {
    pub symbol: String,
    pub abbreviation: String,
    pub dimension: Dim,
    pub factor: Rat,
}

impl Unit {
    /// Conversion factors are positive: a unit never flips or collapses
    /// the values it measures.
    pub open spec fn wf(self) -> bool {
        &&& self.dimension.wf()
        &&& self.factor.wf()
        &&& 0 < self.factor.num
    }

    /// A unit from its parts.
    pub fn new(symbol: String, abbreviation: String, dimension: Dim, factor: Rat) -> (u: Unit)
        requires
            dimension.wf(),
            factor.wf(),
            0 < factor.num,
        ensures
            u.wf(),
            u.symbol@ == symbol@,
            u.abbreviation@ == abbreviation@,
            u.dimension == dimension,
            u.factor == factor,
    {
        Unit { symbol, abbreviation, dimension, factor }
    }

    /// A fresh unit with the same symbol, abbreviation, dimension and
    /// factor.
    pub fn duplicate(&self) -> (u: Unit)
        ensures
            unit_like(u, *self),
    {
        Unit {
            symbol: self.symbol.clone(),
            abbreviation: self.abbreviation.clone(),
            dimension: self.dimension,
            factor: self.factor,
        }
    }
}

/// The two units agree in symbol, abbreviation, dimension and factor.
pub open spec fn unit_like(a: Unit, b: Unit) -> bool {
    &&& a.symbol@ == b.symbol@
    &&& a.abbreviation@ == b.abbreviation@
    &&& a.dimension == b.dimension
    &&& a.factor == b.factor
}

/// Some unit in `s` carries the symbol `sym`.
pub open spec fn has_symbol(s: Seq<Unit>, sym: Seq<char>) -> bool {
    exists|i: int| 0 <= i < s.len() && (#[trigger] s[i]).symbol@ == sym
}

/// Every unit in `s` carrying the symbol `sym` agrees with `u` in
/// dimension, conversion factor and abbreviation.
pub open spec fn symbol_matches_definition(s: Seq<Unit>, sym: Seq<char>, u: Unit) -> bool {
    forall|i: int|
        0 <= i < s.len() && (#[trigger] s[i]).symbol@ == sym ==> dim_eq(s[i].dimension, u.dimension)
            && rat_eq(s[i].factor, u.factor) && s[i].abbreviation@ == u.abbreviation@
}

/// The registry of known units. Registration happens up front; lookups
/// never change it.
pub struct Catalog {
    pub units: Vec<Unit>,
}

impl Catalog {
    /// Every entry is well formed and no symbol appears twice.
    pub open spec fn wf(self) -> bool {
        &&& forall|i: int| 0 <= i < self.units@.len() ==> (#[trigger] self.units@[i]).wf()
        &&& forall|i: int, j: int|
            0 <= i < j < self.units@.len() ==> self.units@[i].symbol@ != self.units@[j].symbol@
    }

    /// An empty catalog.
    pub fn new() -> (c: Catalog)
        ensures
            c.wf(),
            c.units@.len() == 0,
    {
        Catalog { units: Vec::new() }
    }

    /// Add a unit definition. Registering a symbol already bound to a
    /// different dimension, factor or abbreviation fails and changes
    /// nothing; registering the same definition again is accepted and
    /// changes nothing.
    pub fn register(&mut self, unit: Unit) -> (r: Result<(), QuantityError>)
        requires
            old(self).wf(),
            unit.wf(),
        ensures
            final(self).wf(),
            !has_symbol(old(self).units@, unit.symbol@) ==> r == Ok::<(), QuantityError>(())
                && final(self).units@ == old(self).units@.push(unit),
            has_symbol(old(self).units@, unit.symbol@) ==> final(self).units@ == old(self).units@,
            has_symbol(old(self).units@, unit.symbol@) ==> (r == Ok::<(), QuantityError>(())
                <==> symbol_matches_definition(old(self).units@, unit.symbol@, unit)),
            r != Ok::<(), QuantityError>(()) ==> r == Err::<(), QuantityError>(
                QuantityError::ConflictingRegistration,
            ),
    {
        let n = self.units.len();
        let mut i: usize = 0;
        while i < n
            invariant
                self.wf(),
                n == self.units@.len(),
                0 <= i <= n,
                forall|j: int| 0 <= j < i ==> (#[trigger] self.units@[j]).symbol@ != unit.symbol@,
            decreases n - i,
        {
            if self.units[i].symbol == unit.symbol {
                if self.units[i].dimension.same_dimension(&unit.dimension)
                    && self.units[i].factor.eq_rat(&unit.factor)
                    && self.units[i].abbreviation == unit.abbreviation {
                    return Ok(());
                } else {
                    return Err(QuantityError::ConflictingRegistration);
                }
            }
            i += 1;
        }
        self.units.push(unit);
        Ok(())
    }

    /// Find the unit registered under `symbol`.
    pub fn lookup(&self, symbol: &String) -> (r: Result<Unit, QuantityError>)
        requires
            self.wf(),
        ensures
            r.is_ok() <==> has_symbol(self.units@, symbol@),
            !has_symbol(self.units@, symbol@) ==> r == Err::<Unit, QuantityError>(
                QuantityError::UnknownUnit,
            ),
            r.is_ok() ==> r.unwrap().wf() && r.unwrap().symbol@ == symbol@ && exists|i: int|
                0 <= i < self.units@.len() && unit_like(r.unwrap(), #[trigger] self.units@[i]),
    {
        let n = self.units.len();
        let mut i: usize = 0;
        while i < n
            invariant
                self.wf(),
                n == self.units@.len(),
                0 <= i <= n,
                forall|j: int| 0 <= j < i ==> (#[trigger] self.units@[j]).symbol@ != symbol@,
            decreases n - i,
        {
            if self.units[i].symbol == *symbol {
                let u = self.units[i].duplicate();
                return Ok(u);
            }
            i += 1;
        }
        Err(QuantityError::UnknownUnit)
    }
}

/// The base unit of power.
pub fn watt() -> (u: Unit)
    ensures
        u.wf(),
        u.symbol@ == "watt"@,
        u.abbreviation@ == "W"@,
        u.dimension == spec_dim_power(),
        u.factor == (Rat { num: 1i64, den: 1i64 }),
{
    Unit {
        symbol: "watt".to_owned(),
        abbreviation: "W".to_owned(),
        dimension: Dim::power(),
        factor: Rat { num: 1, den: 1 },
    }
}

/// A thousand watts.
pub fn kilowatt() -> (u: Unit)
    ensures
        u.wf(),
        u.symbol@ == "kilowatt"@,
        u.abbreviation@ == "kW"@,
        u.dimension == spec_dim_power(),
        u.factor == (Rat { num: 1000i64, den: 1i64 }),
{
    Unit {
        symbol: "kilowatt".to_owned(),
        abbreviation: "kW".to_owned(),
        dimension: Dim::power(),
        factor: Rat { num: 1000, den: 1 },
    }
}

/// The base unit of length.
pub fn meter() -> (u: Unit)
    ensures
        u.wf(),
        u.symbol@ == "meter"@,
        u.abbreviation@ == "m"@,
        u.dimension == spec_dim_length(),
        u.factor == (Rat { num: 1i64, den: 1i64 }),
{
    Unit {
        symbol: "meter".to_owned(),
        abbreviation: "m".to_owned(),
        dimension: Dim::base_length(),
        factor: Rat { num: 1, den: 1 },
    }
}

/// A hundredth of a meter.
pub fn centimeter() -> (u: Unit)
    ensures
        u.wf(),
        u.symbol@ == "centimeter"@,
        u.abbreviation@ == "cm"@,
        u.dimension == spec_dim_length(),
        u.factor == (Rat { num: 1i64, den: 100i64 }),
{
    Unit {
        symbol: "centimeter".to_owned(),
        abbreviation: "cm".to_owned(),
        dimension: Dim::base_length(),
        factor: Rat { num: 1, den: 100 },
    }
}

/// A thousand meters.
pub fn kilometer() -> (u: Unit)
    ensures
        u.wf(),
        u.symbol@ == "kilometer"@,
        u.abbreviation@ == "km"@,
        u.dimension == spec_dim_length(),
        u.factor == (Rat { num: 1000i64, den: 1i64 }),
{
    Unit {
        symbol: "kilometer".to_owned(),
        abbreviation: "km".to_owned(),
        dimension: Dim::base_length(),
        factor: Rat { num: 1000, den: 1 },
    }
}

/// The base unit of time.
pub fn second() -> (u: Unit)
    ensures
        u.wf(),
        u.symbol@ == "second"@,
        u.abbreviation@ == "s"@,
        u.dimension == spec_dim_time(),
        u.factor == (Rat { num: 1i64, den: 1i64 }),
{
    Unit {
        symbol: "second".to_owned(),
        abbreviation: "s".to_owned(),
        dimension: Dim::base_time(),
        factor: Rat { num: 1, den: 1 },
    }
}

/// The base unit of velocity.
pub fn meter_per_second() -> (u: Unit)
    ensures
        u.wf(),
        u.symbol@ == "meter_per_second"@,
        u.abbreviation@ == "m/s"@,
        u.dimension == spec_dim_velocity(),
        u.factor == (Rat { num: 1i64, den: 1i64 }),
{
    Unit {
        symbol: "meter_per_second".to_owned(),
        abbreviation: "m/s".to_owned(),
        dimension: Dim::velocity(),
        factor: Rat { num: 1, den: 1 },
    }
}

/// A thousand meters per second.
pub fn kilometer_per_second() -> (u: Unit)
    ensures
        u.wf(),
        u.symbol@ == "kilometer_per_second"@,
        u.abbreviation@ == "km/s"@,
        u.dimension == spec_dim_velocity(),
        u.factor == (Rat { num: 1000i64, den: 1i64 }),
{
    Unit {
        symbol: "kilometer_per_second".to_owned(),
        abbreviation: "km/s".to_owned(),
        dimension: Dim::velocity(),
        factor: Rat { num: 1000, den: 1 },
    }
}

/// The dimensionless ratio unit.
pub fn ratio() -> (u: Unit)
    ensures
        u.wf(),
        u.symbol@ == "ratio"@,
        u.abbreviation@ == ""@,
        u.dimension == spec_dim_none(),
        u.factor == (Rat { num: 1i64, den: 1i64 }),
{
    Unit {
        symbol: "ratio".to_owned(),
        abbreviation: "".to_owned(),
        dimension: Dim::dimensionless(),
        factor: Rat { num: 1, den: 1 },
    }
}

impl Catalog {
    /// The catalog with the standard entries: power, length, time and
    /// velocity units together with the dimensionless ratio.
    pub fn standard() -> (c: Catalog)
        ensures
            c.wf(),
            c.units@.len() == 9,
            entry_is(c.units@[0], "watt"@, "W"@, spec_dim_power(), 1, 1),
            entry_is(c.units@[1], "kilowatt"@, "kW"@, spec_dim_power(), 1000, 1),
            entry_is(c.units@[2], "meter"@, "m"@, spec_dim_length(), 1, 1),
            entry_is(c.units@[3], "centimeter"@, "cm"@, spec_dim_length(), 1, 100),
            entry_is(c.units@[4], "kilometer"@, "km"@, spec_dim_length(), 1000, 1),
            entry_is(c.units@[5], "second"@, "s"@, spec_dim_time(), 1, 1),
            entry_is(c.units@[6], "meter_per_second"@, "m/s"@, spec_dim_velocity(), 1, 1),
            entry_is(c.units@[7], "kilometer_per_second"@, "km/s"@, spec_dim_velocity(), 1000, 1),
            entry_is(c.units@[8], "ratio"@, ""@, spec_dim_none(), 1, 1),
    {
        let mut units: Vec<Unit> = Vec::new();
        units.push(watt());
        units.push(kilowatt());
        units.push(meter());
        units.push(centimeter());
        units.push(kilometer());
        units.push(second());
        units.push(meter_per_second());
        units.push(kilometer_per_second());
        units.push(ratio());
        proof {
            reveal_strlit("watt");
            reveal_strlit("kilowatt");
            reveal_strlit("meter");
            reveal_strlit("centimeter");
            reveal_strlit("kilometer");
            reveal_strlit("second");
            reveal_strlit("meter_per_second");
            reveal_strlit("kilometer_per_second");
            reveal_strlit("ratio");
            assert(units@.len() == 9);
            assert(units@[0].symbol@ == "watt"@ && "watt"@.len() == 4);
            assert(units@[1].symbol@ == "kilowatt"@ && "kilowatt"@.len() == 8);
            assert(units@[2].symbol@ == "meter"@ && "meter"@.len() == 5);
            assert(units@[3].symbol@ == "centimeter"@ && "centimeter"@.len() == 10);
            assert(units@[4].symbol@ == "kilometer"@ && "kilometer"@.len() == 9);
            assert(units@[5].symbol@ == "second"@ && "second"@.len() == 6);
            assert(units@[6].symbol@ == "meter_per_second"@ && "meter_per_second"@.len() == 16);
            assert(units@[7].symbol@ == "kilometer_per_second"@ && "kilometer_per_second"@.len()
                == 20);
            assert(units@[8].symbol@ == "ratio"@ && "ratio"@.len() == 5);
            assert("meter"@[0] != "ratio"@[0]);
            assert(forall|i: int, j: int|
                0 <= i < j < units@.len() ==> units@[i].symbol@ != units@[j].symbol@);
        }
        Catalog { units }
    }
}

/// The unit `u` carries exactly this symbol, abbreviation, dimension and
/// conversion factor.
pub open spec fn entry_is(u: Unit, sym: Seq<char>, abbr: Seq<char>, d: Dim, fnum: int, fden: int) -> bool {
    &&& u.symbol@ == sym
    &&& u.abbreviation@ == abbr
    &&& u.dimension == d
    &&& u.factor.num == fnum
    &&& u.factor.den == fden
}

} // verus!

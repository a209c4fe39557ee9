use quantities::QuantityError;
use quantities::dimension::Dim;
use quantities::format::{Style, convert_and_render};
use quantities::quantity::Quantity;
use quantities::rational::Rat;
use quantities::sample::{UnitThing, watts};
use quantities::unit::{
    Catalog, Unit, centimeter, kilometer, kilometer_per_second, kilowatt, meter, meter_per_second,
    ratio, second, watt,
};

#[test]
fn test_that_powers_sum() {
    let u = UnitThing::new();
    let sum = u.sum_powers();
    assert_eq!(sum, Quantity::new(Rat::new(11, 1000), &kilowatt()));
}

#[test]
fn conversion_round_trip() {
    let v = Rat::new(7, 2);
    let q = Quantity::new(v, &centimeter());
    assert_eq!(q.get(&centimeter()).unwrap(), v);
    let w = Rat::new(-15, 4);
    let p = Quantity::new(w, &kilowatt());
    assert_eq!(p.get(&kilowatt()).unwrap(), w);
}

#[test]
fn mismatched_addition_is_rejected() {
    let l = Quantity::new(Rat::new(1, 1), &meter());
    let t = Quantity::new(Rat::new(1, 1), &second());
    assert_eq!(l.add(&t), Err(QuantityError::DimensionMismatch));
    assert_eq!(l.subtract(&t), Err(QuantityError::DimensionMismatch));
    assert_eq!(l.get(&second()), Err(QuantityError::DimensionMismatch));
}

#[test]
fn additivity_across_units() {
    let l1 = Quantity::new(Rat::new(15, 1), &meter());
    let l2 = Quantity::new(Rat::new(10, 1), &centimeter());
    let sum = l1.add(&l2).unwrap();
    assert_eq!(sum.get(&meter()).unwrap(), Rat::new(1510, 100));
}

#[test]
fn prefix_consistency() {
    let l1 = Quantity::new(Rat::new(15, 1), &meter());
    let l2 = Quantity::new(Rat::new(10, 1), &centimeter());
    let sum = l1.add(&l2).unwrap();
    assert_eq!(sum.get(&kilometer()).unwrap(), Rat::new(1510, 100000));
}

#[test]
fn derived_unit_equivalence() {
    let l = Quantity::new(Rat::new(15, 1), &meter());
    let t = Quantity::new(Rat::new(50, 1), &second());
    let v = l.divide(&t).unwrap();
    assert_eq!(v.get(&meter_per_second()).unwrap(), Rat::new(3, 10));
    assert_eq!(v.get(&kilometer_per_second()).unwrap(), Rat::new(3, 10000));
}

#[test]
fn power_sum_scenario() {
    let a = Quantity::new(Rat::new(10, 1), &watt());
    let b = Quantity::new(Rat::new(1, 1), &watt());
    let sum = a.add(&b).unwrap();
    assert_eq!(sum.get(&kilowatt()).unwrap(), Rat::new(11, 1000));
}

#[test]
fn formatter_determinism() {
    let catalog = Catalog::standard();
    let binding = catalog.bind(&"meter".to_owned(), Style::Abbreviation).unwrap();
    let q = Quantity::new(Rat::new(151, 10), &meter());
    let first = binding.render(&q).unwrap();
    let again = binding.render(&q).unwrap();
    assert_eq!(first, again);
}

#[test]
fn rendering_styles_and_values() {
    let catalog = Catalog::standard();
    let q = Quantity::new(Rat::new(151, 10), &meter());
    let abbreviated = catalog.bind(&"meter".to_owned(), Style::Abbreviation).unwrap();
    assert_eq!(abbreviated.render(&q).unwrap(), "15.1 m");
    let full = catalog.bind(&"meter".to_owned(), Style::FullName).unwrap();
    assert_eq!(full.render(&q).unwrap(), "15.1 meter");
    let whole = Quantity::new(Rat::new(15, 1), &meter());
    assert_eq!(abbreviated.render(&whole).unwrap(), "15 m");
    let negative = Quantity::new(Rat::new(-3, 2), &meter());
    assert_eq!(abbreviated.render(&negative).unwrap(), "-1.5 m");
    let third = Quantity::new(Rat::new(1, 3), &meter());
    assert_eq!(abbreviated.render(&third).unwrap(), "1/3 m");
    let thousandth = Quantity::new(Rat::new(11, 1000), &meter());
    assert_eq!(abbreviated.render(&thousandth).unwrap(), "0.011 m");
}

#[test]
fn convert_and_render_one_shot() {
    let l1 = Quantity::new(Rat::new(15, 1), &meter());
    let l2 = Quantity::new(Rat::new(10, 1), &centimeter());
    let sum = l1.add(&l2).unwrap();
    assert_eq!(
        convert_and_render(&sum, &kilometer(), Style::Abbreviation).unwrap(),
        "0.0151 km"
    );
    assert_eq!(
        convert_and_render(&sum, &second(), Style::Abbreviation),
        Err(QuantityError::DimensionMismatch)
    );
}

#[test]
fn render_rejects_mismatched_dimension() {
    let catalog = Catalog::standard();
    let binding = catalog.bind(&"meter".to_owned(), Style::Abbreviation).unwrap();
    let t = Quantity::new(Rat::new(1, 1), &second());
    assert_eq!(binding.render(&t), Err(QuantityError::DimensionMismatch));
}

#[test]
fn unknown_unit_is_reported() {
    let catalog = Catalog::standard();
    assert!(matches!(
        catalog.lookup(&"furlong".to_owned()),
        Err(QuantityError::UnknownUnit)
    ));
    assert!(matches!(
        catalog.bind(&"furlong".to_owned(), Style::Abbreviation),
        Err(QuantityError::UnknownUnit)
    ));
}

#[test]
fn conflicting_registration_is_reported() {
    let mut catalog = Catalog::new();
    assert_eq!(catalog.register(meter()), Ok(()));
    assert_eq!(catalog.register(meter()), Ok(()));
    let clash = Unit::new(
        "meter".to_owned(),
        "m".to_owned(),
        Dim::power(),
        Rat::new(1, 1),
    );
    assert_eq!(
        catalog.register(clash),
        Err(QuantityError::ConflictingRegistration)
    );
    let factor_clash = Unit::new(
        "meter".to_owned(),
        "m".to_owned(),
        Dim::base_length(),
        Rat::new(2, 1),
    );
    assert_eq!(
        catalog.register(factor_clash),
        Err(QuantityError::ConflictingRegistration)
    );
    let abbreviation_clash = Unit::new(
        "meter".to_owned(),
        "mtr".to_owned(),
        Dim::base_length(),
        Rat::new(1, 1),
    );
    assert_eq!(
        catalog.register(abbreviation_clash),
        Err(QuantityError::ConflictingRegistration)
    );
    assert!(catalog.lookup(&"meter".to_owned()).is_ok());
}

#[test]
fn division_by_zero_is_reported() {
    let l = Quantity::new(Rat::new(3, 1), &meter());
    let zero = Quantity::new(Rat::new(0, 1), &second());
    assert_eq!(l.divide(&zero), Err(QuantityError::DivisionByZero));
}

#[test]
fn magnitude_limits_are_detectable() {
    let big = Quantity::new(Rat::new(i64::MAX, 1), &watt());
    assert!(!big.can_multiply(&big));
    assert!(!big.can_add(&big));
    assert!(!Quantity::can_new(&Rat::new(i64::MAX, 1), &kilowatt()));
    assert!(Quantity::can_new(&Rat::new(5, 1), &kilowatt()));
    let long = Quantity::new(Rat::new(i64::MAX, 1), &meter());
    assert!(!long.can_get(&centimeter()));
    let small = Quantity::new(Rat::new(5, 1), &meter());
    assert!(small.can_get(&kilometer()));
    assert!(small.can_subtract(&small));
    let z = Quantity::new(Rat::new(0, 1), &second());
    assert!(small.can_divide(&z));
    let u = UnitThing::new();
    assert!(!u.can_multiply_power_rate(&Quantity::new(Rat::new(i64::MAX, 1), &second())));
    assert!(u.can_multiply_power_rate(&Quantity::new(Rat::new(3, 1), &second())));
}

#[test]
fn dimension_closure_under_multiply_divide() {
    let a = Quantity::new(Rat::new(6, 1), &meter());
    let b = Quantity::new(Rat::new(4, 1), &second());
    let m = a.multiply(&b);
    let q = m.divide(&b).unwrap();
    assert!(q.dim.same_dimension(&a.dim));
    assert!(q.equals(&a));
}

#[test]
fn equals_is_exact_and_dimension_aware() {
    let half_meter = Quantity::new(Rat::new(1, 2), &meter());
    let fifty_cm = Quantity::new(Rat::new(50, 1), &centimeter());
    assert!(half_meter.equals(&fifty_cm));
    let half_second = Quantity::new(Rat::new(1, 2), &second());
    assert!(!half_meter.equals(&half_second));
    let other = Quantity::new(Rat::new(2, 3), &meter());
    assert!(!half_meter.equals(&other));
}

#[test]
fn scalar_ratio_multiplication_scales_directly() {
    let l = Quantity::new(Rat::new(7, 2), &meter());
    let scale = Quantity::new(Rat::new(3, 1), &ratio());
    let scaled = l.multiply(&scale);
    assert!(scaled.dim.same_dimension(&l.dim));
    assert_eq!(scaled.get(&meter()).unwrap(), Rat::new(21, 2));
}

#[test]
fn watts_constructor_matches_watt_unit() {
    let p = watts(Rat::new(5, 1));
    assert!(p.equals(&Quantity::new(Rat::new(5, 1), &watt())));
    assert_eq!(p.get(&watt()).unwrap(), Rat::new(5, 1));
}

#[test]
fn multiply_power_rate_scales_time() {
    let u = UnitThing::new();
    let t = Quantity::new(Rat::new(3, 1), &second());
    assert!(u.can_multiply_power_rate(&t));
    let p = u.multiply_power_rate(t);
    assert_eq!(p.get(&watt()).unwrap(), Rat::new(30, 1));
    assert_eq!(p.get(&kilowatt()).unwrap(), Rat::new(3, 100));
}

#[test]
fn dimension_invert_negates_exponents() {
    let v = Dim::velocity();
    let inv = v.invert();
    let product = v.multiply(&inv).unwrap();
    assert!(product.same_dimension(&Dim::dimensionless()));
}

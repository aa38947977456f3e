use lsystem::value::{Value, MAX_MAG, SCALE};

#[test]
fn whole_numbers_are_scaled() {
    let three = Value::from_int(3);
    assert_eq!(three.units(), 3 * SCALE);
    assert!(!three.is_negative());

    let minus_two = Value::from_int(-2);
    assert_eq!(minus_two.units(), 2 * SCALE);
    assert!(minus_two.is_negative());
}

#[test]
fn addition_and_subtraction_are_exact() {
    let a = Value::from_int(7);
    let b = Value::from_int(-9);
    let sum = a.checked_add(&b).unwrap();
    assert_eq!(sum.units(), 2 * SCALE);
    assert!(sum.is_negative());

    let diff = a.checked_sub(&b).unwrap();
    assert_eq!(diff.units(), 16 * SCALE);
    assert!(!diff.is_negative());
}

#[test]
fn addition_reports_overflow() {
    let big = Value::from_units(false, MAX_MAG).unwrap();
    let one = Value::one();
    assert!(big.checked_add(&one).is_none());
    assert!(big.checked_sub(&one).is_some());
}

#[test]
fn multiplication_truncates_toward_zero() {
    let half = Value::from_units(false, SCALE / 2).unwrap();
    let third = Value::from_units(false, 333_333).unwrap();
    let prod = half.checked_mul(&third).unwrap();
    // 0.5 * 0.333333 = 0.1666665, exactly representable.
    assert_eq!(prod.units(), 166_666);

    let tiny = Value::from_units(true, 1).unwrap();
    let prod2 = tiny.checked_mul(&tiny).unwrap();
    // (-0.000001)^2 truncates to zero.
    assert_eq!(prod2.units(), 0);
    assert!(!prod2.is_negative());
}

#[test]
fn division_truncates_toward_zero() {
    let one = Value::from_int(1);
    let three = Value::from_int(3);
    let q = one.checked_div(&three).unwrap();
    assert_eq!(q.units(), 333_333);

    let minus_one = Value::from_int(-1);
    let q2 = minus_one.checked_div(&three).unwrap();
    assert_eq!(q2.units(), 333_333);
    assert!(q2.is_negative());
}

#[test]
fn powers_multiply_out() {
    let two = Value::from_int(2);
    let p = two.checked_pow(10).unwrap();
    assert_eq!(p.units(), 1024 * SCALE);

    let zero_pow = two.checked_pow(0).unwrap();
    assert_eq!(zero_pow.units(), SCALE);

    // Repeated squaring of a large base runs out of range.
    let big = Value::from_int(1_000_000);
    assert!(big.checked_pow(4).is_none());
}

#[test]
fn comparisons_follow_the_number_line() {
    let a = Value::from_int(-3);
    let b = Value::from_int(2);
    assert!(a.lt(&b));
    assert!(!b.lt(&a));
    assert!(a.le(&a));
    assert!(a.equals(&a));
    assert!(!a.equals(&b));
    assert_eq!(a.negate().units(), 3 * SCALE);
    assert!(!a.negate().is_negative());
}

#[test]
fn unit_constructor_rejects_out_of_range() {
    assert!(Value::from_units(false, MAX_MAG).is_some());
    assert!(Value::from_units(false, MAX_MAG + 1).is_none());
    // Negative zero collapses to plain zero.
    let z = Value::from_units(true, 0).unwrap();
    assert!(!z.is_negative());
    assert_eq!(z.units(), 0);
}

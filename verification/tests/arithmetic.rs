use algs::error::ClassifierError;
use algs::fixed::{dot_product, floor_divide, isqrt, multiply, Label, EPSILON, SCALE};
use algs::statistics::{mean, std_dev};

#[test]
fn scale_is_one_million_and_epsilon_one_unit() {
    assert_eq!(SCALE, 1_000_000);
    assert_eq!(EPSILON, 1);
}

#[test]
fn label_values_are_plus_or_minus_one() {
    assert_eq!(Label::Positive.value(), 1);
    assert_eq!(Label::Negative.value(), -1);
}

#[test]
fn label_of_zero_is_positive() {
    assert_eq!(Label::of(0), Label::Positive);
    assert_eq!(Label::of(1), Label::Positive);
    assert_eq!(Label::of(-1), Label::Negative);
    assert_eq!(Label::of(i128::MIN), Label::Negative);
    assert_eq!(Label::of(i128::MAX), Label::Positive);
}

#[test]
fn dot_product_is_sum_of_products() {
    let a = vec![1_000_000, 2, -3];
    let b = vec![4, 5, 6];
    assert_eq!(dot_product(&a, &b), Ok(4_000_000 + 10 - 18));
    assert_eq!(dot_product(&vec![], &vec![]), Ok(0));
}

#[test]
fn dot_product_of_extremes_does_not_overflow() {
    let a = vec![i32::MIN, i32::MIN, i32::MAX];
    let b = vec![i32::MIN, i32::MAX, i32::MAX];
    let min = i32::MIN as i128;
    let max = i32::MAX as i128;
    assert_eq!(dot_product(&a, &b), Ok(min * min + min * max + max * max));
}

#[test]
fn dot_product_refuses_different_lengths() {
    assert_eq!(dot_product(&vec![1, 2], &vec![1]), Err(ClassifierError::DimensionMismatch));
}

#[test]
fn floor_divide_rounds_down() {
    assert_eq!(floor_divide(7, 2), Some(3));
    assert_eq!(floor_divide(-7, 2), Some(-4));
    assert_eq!(floor_divide(7, -2), Some(-4));
    assert_eq!(floor_divide(-7, -2), Some(3));
    assert_eq!(floor_divide(6, 3), Some(2));
    assert_eq!(floor_divide(-6, 3), Some(-2));
    assert_eq!(floor_divide(0, -5), Some(0));
}

#[test]
fn floor_divide_refuses_zero_and_overflow() {
    assert_eq!(floor_divide(1, 0), None);
    assert_eq!(floor_divide(i64::MIN, -1), None);
    assert_eq!(floor_divide(i64::MIN, 1), Some(i64::MIN));
    assert_eq!(floor_divide(i64::MAX, -1), Some(-i64::MAX));
}

#[test]
fn multiply_is_fixed_point_product() {
    assert_eq!(multiply(1_500_000, 1_500_000), Some(2_250_000));
    assert_eq!(multiply(500_000, -500_000), Some(-250_000));
    assert_eq!(multiply(SCALE, 123_456), Some(123_456));
    assert_eq!(multiply(0, i32::MIN), Some(0));
}

#[test]
fn multiply_rounds_towards_negative_infinity() {
    assert_eq!(multiply(1, 1), Some(0));
    assert_eq!(multiply(-1, 1), Some(-1));
    assert_eq!(multiply(-1, -1), Some(0));
    assert_eq!(multiply(1_000, 1_999), Some(1));
    assert_eq!(multiply(-1_000, 1_001), Some(-2));
}

#[test]
fn multiply_refuses_what_does_not_fit() {
    assert_eq!(multiply(i32::MAX, i32::MAX), None);
    assert_eq!(multiply(i32::MIN, i32::MAX), None);
    assert_eq!(multiply(46_340_000, 46_340_000), Some(2_147_395_600));
    assert_eq!(multiply(46_341_000, 46_341_000), None);
}

#[test]
fn isqrt_rounds_down() {
    assert_eq!(isqrt(0), 0);
    assert_eq!(isqrt(1), 1);
    assert_eq!(isqrt(3), 1);
    assert_eq!(isqrt(4), 2);
    assert_eq!(isqrt(15), 3);
    assert_eq!(isqrt(16), 4);
    assert_eq!(isqrt(250_000_000_000), 500_000);
    assert_eq!(isqrt(u64::MAX), 4_294_967_295);
}

#[test]
fn mean_rounds_down() {
    assert_eq!(mean(&vec![1, 2, 4]), Some(2));
    assert_eq!(mean(&vec![-1, -2]), Some(-2));
    assert_eq!(mean(&vec![i32::MAX, i32::MAX]), Some(i32::MAX));
    assert_eq!(mean(&vec![i32::MIN, i32::MIN, i32::MIN]), Some(i32::MIN));
}

#[test]
fn mean_and_deviation_of_nothing_are_none() {
    assert_eq!(mean(&vec![]), None);
    assert_eq!(std_dev(&vec![]), None);
}

#[test]
fn std_dev_is_population_deviation() {
    // mean 0.5, both values 0.5 away
    assert_eq!(std_dev(&vec![0, 1_000_000]), Some(500_000));
    // mean 2, squares 1 + 0 + 4, variance 5 / 3 = 1
    assert_eq!(std_dev(&vec![1, 2, 4]), Some(1));
    // mean 5, squares 9 + 1 + 1 + 9 = 20, variance 5, root 2
    assert_eq!(std_dev(&vec![2, 4, 6, 8]), Some(2));
}

#[test]
fn std_dev_of_extremes_does_not_overflow() {
    // mean -1 (rounded down from -0.5), distances 2^31 - 1 + 1 and 2^31 - 1
    let d = std_dev(&vec![i32::MIN, i32::MAX]).unwrap();
    assert_eq!(d, 2_147_483_647);
}

#[test]
fn constant_errors_have_their_value_as_mean_and_no_deviation() {
    for c in [0, 1, 123_456, SCALE, -7] {
        let values = vec![c; 300];
        assert_eq!(mean(&values), Some(c));
        assert_eq!(std_dev(&values), Some(0));
    }
}

use algs::error::ClassifierError;
use algs::fixed::{Label, EPSILON, SCALE};
use algs::linalg::Matrix;
use algs::linear_classifiers::in_sample_error::{count_mismatches, in_sample_error};
use algs::linear_classifiers::linear_classifier::{apply_perceptron, LinearClassifier};
use nalgebra::{DMatrix, DVector};

fn to_fixed(v: f64) -> Option<i32> {
    let raw = (v * SCALE as f64).round();
    if raw.is_finite() && raw >= i32::MIN as f64 && raw <= i32::MAX as f64 {
        Some(raw as i32)
    } else {
        None
    }
}

fn least_squares(sample: &Matrix, labels: &Vec<Label>, eps: i32) -> Option<Vec<i32>> {
    let points = DMatrix::<f64>::from_fn(sample.nrows(), sample.ncols(), |r, c| {
        sample.get(r, c).unwrap() as f64 / SCALE as f64
    });
    let target = DVector::<f64>::from_fn(labels.len(), |i, _| labels[i].value() as f64);
    let inverse = points.transpose().pseudo_inverse(eps as f64 / SCALE as f64).ok()?;
    (inverse * target).iter().map(|w| to_fixed(*w)).collect()
}

fn four_points() -> Matrix {
    // (0, 1), (0, -1), (1, 1), (-1, -1): abscissas first, then ordinates
    let flat = vec![0, 0, SCALE, -SCALE, SCALE, -SCALE, SCALE, -SCALE];
    LinearClassifier::parse_sample(4, &flat).unwrap()
}

fn signs(labels: &Vec<Label>) -> Vec<i32> {
    labels.iter().map(|l| l.value()).collect()
}

#[test]
fn parse_sample_puts_the_bias_in_front() {
    let m = four_points();
    assert_eq!(m.nrows(), 3);
    assert_eq!(m.ncols(), 4);
    for c in 0..4 {
        assert_eq!(m.get(0, c), Some(SCALE));
    }
    assert_eq!(m.column(0), Some(&vec![SCALE, 0, SCALE]));
    assert_eq!(m.column(1), Some(&vec![SCALE, 0, -SCALE]));
    assert_eq!(m.column(2), Some(&vec![SCALE, SCALE, SCALE]));
    assert_eq!(m.column(3), Some(&vec![SCALE, -SCALE, -SCALE]));
    assert_eq!(m.column(4), None);
}

#[test]
fn parse_sample_refuses_a_wrong_length() {
    assert_eq!(
        LinearClassifier::parse_sample(2, &[1, 2, 3]).err(),
        Some(ClassifierError::DimensionMismatch)
    );
    assert_eq!(
        LinearClassifier::parse_sample(2, &[1, 2, 3, 4, 5]).err(),
        Some(ClassifierError::DimensionMismatch)
    );
    assert_eq!(
        LinearClassifier::parse_sample(usize::MAX, &[1, 2]).err(),
        Some(ClassifierError::DimensionMismatch)
    );
    let empty = LinearClassifier::parse_sample(0, &[]).unwrap();
    assert_eq!((empty.nrows(), empty.ncols()), (3, 0));
}

#[test]
fn predict_before_training_is_refused() {
    let lc = LinearClassifier::new();
    assert_eq!(lc.predict(&four_points()), Err(ClassifierError::UntrainedModel));
    // even where the dimensions would not match either
    assert_eq!(lc.predict(&Matrix::zeros(7, 2)), Err(ClassifierError::UntrainedModel));
}

#[test]
fn get_weights_before_training_is_refused() {
    assert_eq!(LinearClassifier::new().get_weights(), Err(ClassifierError::UntrainedModel));
    assert_eq!(LinearClassifier::default().get_weights(), Err(ClassifierError::UntrainedModel));
}

#[test]
fn training_on_four_points_reproduces_their_labels() {
    let sample = four_points();
    let labels = apply_perceptron(&sample, &vec![0, 0, SCALE]).unwrap();
    assert_eq!(signs(&labels), vec![1, -1, 1, -1]);

    let mut lc = LinearClassifier::new();
    let weights = lc.train(&sample, &labels, &least_squares).unwrap();
    assert_eq!(weights, vec![0, 0, SCALE]);
    assert_eq!(lc.get_weights(), Ok(vec![0, 0, SCALE]));

    let predicted = lc.predict(&sample).unwrap();
    assert_eq!(signs(&predicted), vec![1, -1, 1, -1]);
    assert_eq!(predicted, labels);
    assert_eq!(count_mismatches(&predicted, &labels), Ok(0));
    assert_eq!(in_sample_error(&predicted, &labels), Ok(0));
}

#[test]
fn predict_twice_gives_the_same_labels() {
    let sample = four_points();
    let labels = vec![Label::Positive, Label::Negative, Label::Positive, Label::Negative];
    let mut lc = LinearClassifier::new();
    lc.train(&sample, &labels, &least_squares).unwrap();
    let first = lc.predict(&sample);
    let second = lc.predict(&sample);
    assert_eq!(first, second);
    assert_eq!(lc.get_weights(), Ok(vec![0, 0, SCALE]));
}

#[test]
fn train_hands_the_tolerance_to_the_solver() {
    let sample = four_points();
    let labels = vec![Label::Positive; 4];
    let mut lc = LinearClassifier::new();
    let echo =
        |s: &Matrix, l: &Vec<Label>, eps: i32| Some(vec![eps, s.ncols() as i32, l.len() as i32]);
    assert_eq!(lc.train(&sample, &labels, &echo), Ok(vec![EPSILON, 4, 4]));
}

#[test]
fn train_refuses_labels_that_do_not_match_the_sample() {
    let sample = four_points();
    let labels = vec![Label::Positive; 3];
    let mut lc = LinearClassifier::new();
    let never = |_: &Matrix, _: &Vec<Label>, _: i32| -> Option<Vec<i32>> { panic!("asked") };
    assert_eq!(lc.train(&sample, &labels, &never), Err(ClassifierError::DimensionMismatch));
    assert_eq!(
        LinearClassifier::check_training_set(&sample, &labels),
        Err(ClassifierError::DimensionMismatch)
    );
    assert_eq!(lc.get_weights(), Err(ClassifierError::UntrainedModel));
}

#[test]
fn train_refuses_an_empty_sample_without_asking_the_solver() {
    let mut lc = LinearClassifier::new();
    let never = |_: &Matrix, _: &Vec<Label>, _: i32| -> Option<Vec<i32>> { panic!("asked") };
    let no_points = Matrix::zeros(3, 0);
    assert_eq!(lc.train(&no_points, &vec![], &never), Err(ClassifierError::NumericalSolveFailure));
    let no_features = Matrix::zeros(0, 2);
    assert_eq!(
        lc.train(&no_features, &vec![Label::Positive; 2], &never),
        Err(ClassifierError::NumericalSolveFailure)
    );
    assert_eq!(
        LinearClassifier::check_training_set(&no_points, &vec![]),
        Err(ClassifierError::NumericalSolveFailure)
    );
}

#[test]
fn train_reports_a_failed_solve_and_keeps_the_old_weights() {
    let sample = four_points();
    let labels = vec![Label::Positive, Label::Negative, Label::Positive, Label::Negative];
    let mut lc = LinearClassifier::new();
    lc.train(&sample, &labels, &least_squares).unwrap();

    let fails = |_: &Matrix, _: &Vec<Label>, _: i32| -> Option<Vec<i32>> { None };
    assert_eq!(lc.train(&sample, &labels, &fails), Err(ClassifierError::NumericalSolveFailure));
    assert_eq!(lc.get_weights(), Ok(vec![0, 0, SCALE]));

    let short = |_: &Matrix, _: &Vec<Label>, _: i32| Some(vec![1, 2]);
    assert_eq!(lc.train(&sample, &labels, &short), Err(ClassifierError::NumericalSolveFailure));
    assert_eq!(lc.get_weights(), Ok(vec![0, 0, SCALE]));
}

#[test]
fn train_replaces_earlier_weights() {
    let sample = four_points();
    let labels = vec![Label::Positive; 4];
    let mut lc = LinearClassifier::new();
    let first = |_: &Matrix, _: &Vec<Label>, _: i32| Some(vec![1, 2, 3]);
    let second = |_: &Matrix, _: &Vec<Label>, _: i32| Some(vec![-4, -5, -6]);
    assert_eq!(lc.train(&sample, &labels, &first), Ok(vec![1, 2, 3]));
    assert_eq!(lc.train(&sample, &labels, &second), Ok(vec![-4, -5, -6]));
    assert_eq!(lc.get_weights(), Ok(vec![-4, -5, -6]));
}

#[test]
fn train_with_solution_takes_the_weights_over() {
    let sample = four_points();
    let labels = vec![Label::Negative; 4];
    let mut lc = LinearClassifier::new();
    assert_eq!(lc.train_with_solution(&sample, &labels, Some(vec![7, 8, 9])), Ok(vec![7, 8, 9]));
    assert_eq!(lc.get_weights(), Ok(vec![7, 8, 9]));
    assert_eq!(
        lc.train_with_solution(&sample, &labels, None),
        Err(ClassifierError::NumericalSolveFailure)
    );
    assert_eq!(
        lc.train_with_solution(&sample, &labels, Some(vec![1, 2, 3, 4])),
        Err(ClassifierError::NumericalSolveFailure)
    );
    assert_eq!(
        lc.train_with_solution(&sample, &vec![Label::Negative; 5], Some(vec![1, 2, 3])),
        Err(ClassifierError::DimensionMismatch)
    );
    assert_eq!(lc.get_weights(), Ok(vec![7, 8, 9]));
}

#[test]
fn predict_refuses_a_sample_of_other_dimension() {
    let mut lc = LinearClassifier::new();
    lc.train_with_solution(&four_points(), &vec![Label::Positive; 4], Some(vec![0, 0, SCALE]))
        .unwrap();
    assert_eq!(lc.predict(&Matrix::zeros(6, 2)), Err(ClassifierError::DimensionMismatch));
    assert_eq!(lc.predict(&Matrix::zeros(3, 0)), Ok(vec![]));
}

#[test]
fn a_point_on_the_boundary_is_positive() {
    // (1, 0) and (-1, 0) lie on the boundary y = 0
    let flat = vec![SCALE, -SCALE, 0, 0];
    let sample = LinearClassifier::parse_sample(2, &flat).unwrap();
    let labels = apply_perceptron(&sample, &vec![0, 0, SCALE]).unwrap();
    assert_eq!(labels, vec![Label::Positive, Label::Positive]);
    // all-zero weights put every point on the boundary
    let labels = apply_perceptron(&four_points(), &vec![0, 0, 0]).unwrap();
    assert_eq!(labels, vec![Label::Positive; 4]);
}

#[test]
fn apply_perceptron_takes_the_sign_of_the_dot_product() {
    // weights 0.5 - x + 0.25 y
    let weights = vec![500_000, -SCALE, 250_000];
    // (0, 1): 0.75; (0, -1): 0.25; (1, 1): -0.25; (-1, -1): 1.25
    let labels = apply_perceptron(&four_points(), &weights).unwrap();
    assert_eq!(signs(&labels), vec![1, 1, -1, 1]);
    assert_eq!(
        apply_perceptron(&four_points(), &vec![1, 2]),
        Err(ClassifierError::DimensionMismatch)
    );
}

#[test]
fn in_sample_error_is_the_fraction_of_mismatches() {
    let p = Label::Positive;
    let n = Label::Negative;
    assert_eq!(count_mismatches(&vec![p, n, p, n], &vec![p, p, p, n]), Ok(1));
    assert_eq!(in_sample_error(&vec![p, n, p, n], &vec![p, p, p, n]), Ok(250_000));
    assert_eq!(in_sample_error(&vec![p, n, p], &vec![p, p, p]), Ok(333_333));
    assert_eq!(in_sample_error(&vec![p, n], &vec![n, p]), Ok(SCALE));
    assert_eq!(in_sample_error(&vec![p, n], &vec![p, n]), Ok(0));
}

#[test]
fn in_sample_error_refuses_mismatched_and_empty_labels() {
    let p = Label::Positive;
    assert_eq!(count_mismatches(&vec![p], &vec![p, p]), Err(ClassifierError::DimensionMismatch));
    assert_eq!(in_sample_error(&vec![p], &vec![p, p]), Err(ClassifierError::DimensionMismatch));
    assert_eq!(in_sample_error(&vec![], &vec![]), Err(ClassifierError::NumericalSolveFailure));
    assert_eq!(count_mismatches(&vec![], &vec![]), Ok(0));
}

#[test]
fn least_squares_fits_a_rank_deficient_sample() {
    // two points, three features: the tolerance keeps the solve defined
    let flat = vec![SCALE, -SCALE, 0, 0];
    let sample = LinearClassifier::parse_sample(2, &flat).unwrap();
    let labels = vec![Label::Positive, Label::Negative];
    let mut lc = LinearClassifier::new();
    let weights = lc.train(&sample, &labels, &least_squares).unwrap();
    assert_eq!(weights, vec![0, SCALE, 0]);
    assert_eq!(lc.predict(&sample), Ok(labels));
}

#[test]
fn least_squares_may_mislabel_a_separable_sample() {
    // on the x axis: two points at 0 labelled -1, one at 0.05 and ten at 1
    // labelled +1; the line x = 0.025 separates them, yet the regression
    // is drawn towards the far points and puts 0.05 on the negative side
    let mut flat = vec![0, 0, 50_000];
    flat.extend(vec![SCALE; 10]);
    flat.extend(vec![0; 13]);
    let sample = LinearClassifier::parse_sample(13, &flat).unwrap();
    let mut labels = vec![Label::Negative, Label::Negative];
    labels.extend(vec![Label::Positive; 11]);
    assert_eq!(apply_perceptron(&sample, &vec![-25_000, SCALE, 0]), Ok(labels.clone()));

    let mut lc = LinearClassifier::new();
    let weights = lc.train(&sample, &labels, &least_squares).unwrap();
    // a = -10.98 / 29.03, b = 40.2 / 29.03
    assert_eq!(weights, vec![-378_229, 1_384_774, 0]);
    let predicted = lc.predict(&sample).unwrap();
    assert_eq!(predicted[2], Label::Negative);
    assert_eq!(count_mismatches(&predicted, &labels), Ok(1));
    assert_eq!(in_sample_error(&predicted, &labels), Ok(76_923));
}

use vstd::prelude::*;
use vstd::arithmetic::div_mod::{lemma_div_is_ordered, lemma_div_multiples_vanish};
use rand::rngs::SmallRng;
use crate::error::ClassifierError;
use crate::fixed::{Label, EPSILON, SCALE};
use crate::linalg::Matrix;
use crate::linear_classifiers::linear_classifier::{predicted, LinearClassifier};
use crate::linear_classifiers::nonlinear_features::LCFeatures;
use crate::linear_classifiers::utils::{
    get_random_sample, is_random_sample, learned_from, refused_by, solver_accepts,
};
use crate::statistics::{constant, lemma_constant_values, mean, mean_of, std_dev, std_dev_of};

verus! {

/// The number of trainings behind one mean and standard deviation.
pub const RUNS: usize = 300;

/// The boundary that labels every sample of the estimator:
/// `-0.05 + 0.2 x + 0.2 y = 0`.
pub open spec fn preset_boundary() -> Seq<i32> {
    seq![-50_000i32, 200_000i32, 200_000i32]
}

/// The number of places among the first `k` at which `a` and `b` differ.
pub open spec fn mismatches_prefix(a: Seq<Label>, b: Seq<Label>, k: nat) -> nat
    decreases k,
{
    if k == 0 {
        0
    } else {
        mismatches_prefix(a, b, (k - 1) as nat) + if a[k - 1] != b[k - 1] {
            1nat
        } else {
            0nat
        }
    }
}

/// The number of places at which `a` and `b` differ.
pub open spec fn mismatches(a: Seq<Label>, b: Seq<Label>) -> nat {
    mismatches_prefix(a, b, a.len())
}

/// The fraction of places at which `a` and `b` differ, as a fixed-point
/// number rounded down.
pub open spec fn error_fraction(a: Seq<Label>, b: Seq<Label>) -> int
    recommends
        a.len() > 0,
{
    (mismatches(a, b) * SCALE) / (a.len() as int)
}

/// Every value of `s` is a fraction, from 0.0 to 1.0.
pub open spec fn fractions(s: Seq<i32>) -> bool {
    forall|i: int| 0 <= i < s.len() ==> 0 <= #[trigger] s[i] <= SCALE
}

/// `e` is the in-sample error of one run on `n` points: of the weights that
/// `solve` answered for some sample of the sampling square labelled by the
/// preset boundary, predicting that same sample.
pub open spec fn is_run_error<F: Fn(&Matrix, &Vec<Label>, i32) -> Option<Vec<i32>>>(
    solve: &F,
    n: nat,
    e: i32,
) -> bool {
    exists|sample: Matrix, labels: Vec<Label>, answer: Vec<i32>|
        {
            &&& #[trigger] call_ensures(*solve, (&sample, &labels, EPSILON), Some(answer))
            &&& sample.well_formed()
            &&& sample.rows() == 3
            &&& is_random_sample(LCFeatures::Linear, n, sample@)
            &&& labels@ == predicted(sample@, preset_boundary())
            &&& answer@.len() == 3
            &&& e == error_fraction(predicted(sample@, answer@), labels@)
        }
}

/// Sequences that agree at each of the first `k` places differ at none of
/// them.
pub proof fn lemma_no_mismatches(a: Seq<Label>, b: Seq<Label>, k: nat)
    requires
        forall|i: int| 0 <= i < k ==> a[i] == b[i],
    ensures
        mismatches_prefix(a, b, k) == 0,
    decreases k,
{
    if k > 0 {
        lemma_no_mismatches(a, b, (k - 1) as nat);
    }
}

/// A prediction that reproduces every label has the in-sample error 0.0.
pub proof fn lemma_reproduced_labels_no_error(guessed: Seq<Label>, truth: Seq<Label>)
    requires
        guessed == truth,
        truth.len() > 0,
    ensures
        mismatches(guessed, truth) == 0,
        error_fraction(guessed, truth) == 0,
{
    lemma_no_mismatches(guessed, truth, guessed.len());
}

/// The number of places at which the labels differ; labels of different
/// lengths are refused.
pub fn count_mismatches(guessed: &Vec<Label>, truth: &Vec<Label>) -> (r: Result<
    usize,
    ClassifierError,
>)
    ensures
        guessed@.len() != truth@.len() ==> r == Err::<usize, ClassifierError>(
            ClassifierError::DimensionMismatch,
        ),
        guessed@.len() == truth@.len() ==> r == Ok::<usize, ClassifierError>(
            mismatches(guessed@, truth@) as usize,
        ) && mismatches(guessed@, truth@) <= guessed@.len(),
{
    let n: usize = guessed.len();
    if n != truth.len() {
        return Err(ClassifierError::DimensionMismatch);
    }
    let mut count: usize = 0;
    let mut i: usize = 0;
    while i < n
        invariant
            i <= n,
            n == guessed@.len(),
            n == truth@.len(),
            count == mismatches_prefix(guessed@, truth@, i as nat),
            count <= i,
        decreases n - i,
    {
        if guessed[i] != truth[i] {
            count = count + 1;
        }
        i = i + 1;
    }
    Ok(count)
}

/// The in-sample error: the fraction of points whose predicted label
/// differs from the true one. Labels of different lengths are refused, and
/// so is an empty sample, which has no error.
pub fn in_sample_error(guessed: &Vec<Label>, truth: &Vec<Label>) -> (r: Result<
    i32,
    ClassifierError,
>)
    ensures
        guessed@.len() != truth@.len() ==> r == Err::<i32, ClassifierError>(
            ClassifierError::DimensionMismatch,
        ),
        guessed@.len() == truth@.len() && truth@.len() == 0 ==> r == Err::<i32, ClassifierError>(
            ClassifierError::NumericalSolveFailure,
        ),
        guessed@.len() == truth@.len() && truth@.len() > 0 ==> r == Ok::<i32, ClassifierError>(
            error_fraction(guessed@, truth@) as i32,
        ) && 0 <= error_fraction(guessed@, truth@) <= SCALE,
{
    let count: usize = match count_mismatches(guessed, truth) {
        Ok(count) => count,
        Err(e) => {
            return Err(e);
        },
    };
    let n: usize = guessed.len();
    if n == 0 {
        return Err(ClassifierError::NumericalSolveFailure);
    }
    let scaled: u128 = (count as u128) * (SCALE as u128);
    proof {
        lemma_div_is_ordered(0, scaled as int, n as int);
        lemma_div_is_ordered(scaled as int, n * SCALE, n as int);
        lemma_div_multiples_vanish(SCALE as int, n as int);
    }
    let fraction: u128 = scaled / (n as u128);
    Ok(fraction as i32)
}

/// The mean and the standard deviation of the errors of a run; none of no
/// errors.
pub fn summarize(errors: &Vec<i32>) -> (r: Option<(i32, i64)>)
    ensures
        r is Some <==> errors@.len() > 0,
        r matches Some((m, d)) ==> m == mean_of(errors@) && d == std_dev_of(errors@),
{
    match (mean(errors), std_dev(errors)) {
        (Some(m), Some(d)) => Some((m, d)),
        _ => None,
    }
}

/// Of runs whose errors all equal `c`, the mean is `c` and the standard
/// deviation is zero.
pub proof fn lemma_constant_errors(errors: Seq<i32>, c: i32, m: int, d: int)
    requires
        errors.len() > 0,
        constant(errors, c),
        m == mean_of(errors),
        d == std_dev_of(errors),
    ensures
        m == c,
        d == 0,
{
    lemma_constant_values(errors, c);
}

/// Estimates the in-sample error of the classifier against a preset linear
/// boundary: trains `RUNS` times on fresh samples and keeps the error of
/// each run with their mean and standard deviation.
#[derive(Debug)]
pub struct LCInSampleError {
    mean: i32,
    deviation: i64,
    errors: Vec<i32>,
    lc: LinearClassifier,
}

impl LCInSampleError {
    pub closed spec fn spec_mean(&self) -> i32 {
        self.mean
    }

    pub closed spec fn spec_std_dev(&self) -> i64 {
        self.deviation
    }

    pub closed spec fn spec_errors(&self) -> Seq<i32> {
        self.errors@
    }

    /// The weights learned in the last training of the last completed run.
    pub closed spec fn learned(&self) -> Option<Seq<i32>> {
        self.lc.weights()
    }

    /// An estimator that has not run: no errors, mean and deviation zero,
    /// and a classifier that was never trained.
    pub fn new() -> (e: Self)
        ensures
            e.mean() == 0,
            e.std_dev() == 0,
            e.spec_errors() == Seq::<i32>::empty(),
            e.learned() == None::<Seq<i32>>,
    {
        LCInSampleError { mean: 0, deviation: 0, errors: Vec::new(), lc: LinearClassifier::new() }
    }

    /// The mean of the errors of the last completed run.
    #[verifier::when_used_as_spec(spec_mean)]
    pub fn mean(&self) -> (m: i32)
        ensures
            m == self.mean(),
    {
        self.mean
    }

    /// The standard deviation of the errors of the last completed run.
    #[verifier::when_used_as_spec(spec_std_dev)]
    pub fn std_dev(&self) -> (d: i64)
        ensures
            d == self.std_dev(),
    {
        self.deviation
    }

    /// The in-sample errors of the last completed run, one per training.
    pub fn errors(&self) -> (e: &Vec<i32>)
        ensures
            e@ == self.spec_errors(),
    {
        &self.errors
    }

    /// The classifier as the last completed run left it.
    pub fn classifier(&self) -> (lc: &LinearClassifier)
        ensures
            lc.weights() == self.learned(),
    {
        &self.lc
    }

    /// The preset boundary as weights.
    pub fn boundary() -> (f: Vec<i32>)
        ensures
            f@ == preset_boundary(),
    {
        let mut f: Vec<i32> = Vec::new();
        f.push(-50_000);
        f.push(200_000);
        f.push(200_000);
        f
    }

    /// Runs the estimate on samples of `n` points: `RUNS` times, draws a
    /// sample labelled by the preset boundary, trains on it, predicts the
    /// same sample and records the fraction of mislabelled points; then
    /// takes the mean and the standard deviation of the fractions. It fails
    /// only on an empty sample or where the solver gave no usable weights
    /// for one of the samples; the estimate stops there and everything
    /// stays as the run before left it.
    pub fn run<F: Fn(&Matrix, &Vec<Label>, i32) -> Option<Vec<i32>>>(
        &mut self,
        n: usize,
        rng: &mut SmallRng,
        solve: &F,
    ) -> (r: Result<(), ClassifierError>)
        requires
            solver_accepts(solve, LCFeatures::Linear, n as nat, preset_boundary()),
        ensures
            n == 0 ==> r is Err,
            r is Err ==> {
                &&& r == Err::<(), ClassifierError>(ClassifierError::NumericalSolveFailure)
                &&& n == 0 || refused_by(solve, LCFeatures::Linear, n as nat, preset_boundary())
                &&& final(self).mean() == old(self).mean()
                &&& final(self).std_dev() == old(self).std_dev()
                &&& final(self).spec_errors() == old(self).spec_errors()
                &&& final(self).learned() == old(self).learned()
            },
            r is Ok ==> {
                &&& final(self).spec_errors().len() == RUNS
                &&& fractions(final(self).spec_errors())
                &&& forall|i: int|
                    0 <= i < RUNS ==> is_run_error(
                        solve,
                        n as nat,
                        #[trigger] final(self).spec_errors()[i],
                    )
                &&& final(self).mean() == mean_of(final(self).spec_errors())
                &&& final(self).std_dev() == std_dev_of(final(self).spec_errors())
                &&& final(self).learned() matches Some(w)
                &&& w.len() == 3
                &&& learned_from(solve, LCFeatures::Linear, n as nat, preset_boundary(), w)
            },
    {
        let f = LCInSampleError::boundary();
        let mut fresh = LinearClassifier::new();
        let mut errors: Vec<i32> = Vec::new();
        let mut run: usize = 0;
        while run < RUNS
            invariant
                run <= RUNS,
                n == 0 ==> run == 0,
                solver_accepts(solve, LCFeatures::Linear, n as nat, preset_boundary()),
                f@ == preset_boundary(),
                errors@.len() == run,
                fractions(errors@),
                forall|i: int|
                    0 <= i < run ==> is_run_error(solve, n as nat, #[trigger] errors@[i]),
                run > 0 ==> {
                    &&& fresh.weights() matches Some(w)
                    &&& w.len() == 3
                    &&& learned_from(solve, LCFeatures::Linear, n as nat, preset_boundary(), w)
                },
                *self == *old(self),
            decreases RUNS - run,
        {
            let (sample, labels) = get_random_sample(n, &f, LCFeatures::Linear, rng).unwrap();
            let weights = match fresh.train(&sample, &labels, solve) {
                Ok(weights) => weights,
                Err(e) => {
                    return Err(e);
                },
            };
            let guessed = fresh.predict(&sample).unwrap();
            let e = in_sample_error(&guessed, &labels).unwrap();
            assert(is_run_error(solve, n as nat, e));
            errors.push(e);
            run = run + 1;
        }
        let (m, d) = summarize(&errors).unwrap();
        self.mean = m;
        self.deviation = d;
        self.errors = errors;
        self.lc = fresh;
        Ok(())
    }
}

} // verus!

use vstd::prelude::*;
use crate::error::ClassifierError;
use crate::fixed::{dot, dot_product, label_of, Label, EPSILON, SCALE};
use crate::linalg::Matrix;

verus! {

/// The labels that the weights `w` give to the columns of `sample`: for each
/// point the sign of its dot product with `w`, zero counting as positive.
pub open spec fn predicted(sample: Seq<Seq<i32>>, w: Seq<i32>) -> Seq<Label> {
    Seq::new(sample.len(), |c: int| label_of(dot(sample[c], w)))
}

/// What a classifier holding `weights` answers for a sample of `rows`
/// features per point.
pub open spec fn prediction(weights: Option<Seq<i32>>, rows: nat, sample: Seq<Seq<i32>>) -> Result<
    Seq<Label>,
    ClassifierError,
> {
    match weights {
        None => Err(ClassifierError::UntrainedModel),
        Some(w) => if w.len() != rows {
            Err(ClassifierError::DimensionMismatch)
        } else {
            Ok(predicted(sample, w))
        },
    }
}

/// What rules a training set out before any solve is attempted: labels that
/// do not match the points one to one, or a sample without points or
/// without features.
pub open spec fn training_obstacle(rows: nat, sample: Seq<Seq<i32>>, labels: Seq<Label>) -> Option<
    ClassifierError,
> {
    if sample.len() != labels.len() {
        Some(ClassifierError::DimensionMismatch)
    } else if sample.len() == 0 || rows == 0 {
        Some(ClassifierError::NumericalSolveFailure)
    } else {
        None
    }
}

/// How training ends when the solver answered `solution`: with the weights
/// it gave, if it gave one weight per feature.
pub open spec fn training_outcome(
    rows: nat,
    sample: Seq<Seq<i32>>,
    labels: Seq<Label>,
    solution: Option<Seq<i32>>,
) -> Result<Seq<i32>, ClassifierError> {
    match training_obstacle(rows, sample, labels) {
        Some(e) => Err(e),
        None => match solution {
            Some(w) => if w.len() == rows {
                Ok(w)
            } else {
                Err(ClassifierError::NumericalSolveFailure)
            },
            None => Err(ClassifierError::NumericalSolveFailure),
        },
    }
}

/// The weights a classifier holds after a training that ended in `outcome`:
/// the new ones, or on failure those it held before.
pub open spec fn weights_after(
    before: Option<Seq<i32>>,
    outcome: Result<Seq<i32>, ClassifierError>,
) -> Option<Seq<i32>> {
    match outcome {
        Ok(w) => Some(w),
        Err(_) => before,
    }
}

/// What a classifier holding `weights` answers when asked for them.
pub open spec fn held_weights(weights: Option<Seq<i32>>) -> Result<Seq<i32>, ClassifierError> {
    match weights {
        None => Err(ClassifierError::UntrainedModel),
        Some(w) => Ok(w),
    }
}

/// A result holding weights, with the weights as a sequence.
pub open spec fn weights_view(r: Result<Vec<i32>, ClassifierError>) -> Result<
    Seq<i32>,
    ClassifierError,
> {
    match r {
        Ok(w) => Ok(w@),
        Err(e) => Err(e),
    }
}

/// A result holding labels, with the labels as a sequence.
pub open spec fn labels_view(r: Result<Vec<Label>, ClassifierError>) -> Result<
    Seq<Label>,
    ClassifierError,
> {
    match r {
        Ok(l) => Ok(l@),
        Err(e) => Err(e),
    }
}

/// The sample that a flat array of `n` abscissas followed by `n` ordinates
/// stands for: one column `[1.0, x, y]` per point.
pub open spec fn parsed(n: nat, flat: Seq<i32>) -> Seq<Seq<i32>> {
    Seq::new(n, |c: int| seq![SCALE, flat[c], flat[n + c]])
}

/// Labels every column of `points` by the sign of its dot product with
/// `perc`, zero counting as positive.
pub fn apply_perceptron(points: &Matrix, perc: &Vec<i32>) -> (r: Result<
    Vec<Label>,
    ClassifierError,
>)
    ensures
        labels_view(r) == prediction(Some(perc@), points.rows(), points@),
{
    if perc.len() != points.nrows() {
        return Err(ClassifierError::DimensionMismatch);
    }
    let n: usize = points.ncols();
    let mut labels: Vec<Label> = Vec::new();
    let mut c: usize = 0;
    while c < n
        invariant
            c <= n,
            n == points.cols(),
            perc@.len() == points.rows(),
            labels@.len() == c,
            forall|k: int| 0 <= k < c ==> #[trigger] labels@[k] == label_of(dot(points@[k], perc@)),
        decreases n - c,
    {
        let column = points.column(c).unwrap();
        labels.push(Label::of(dot_product(column, perc).unwrap()));
        c = c + 1;
    }
    assert(labels@ =~= predicted(points@, perc@));
    Ok(labels)
}

/// A linear classifier: untrained until the first successful `train`, then
/// holding the weights of the last one.
#[derive(Debug)]
pub struct LinearClassifier {
    perceptron: Option<Vec<i32>>,
}

impl LinearClassifier {
    /// The weights held, once trained.
    pub closed spec fn weights(&self) -> Option<Seq<i32>> {
        match self.perceptron {
            Some(w) => Some(w@),
            None => None,
        }
    }

    /// Whether a training has succeeded.
    pub open spec fn is_trained(&self) -> bool {
        self.weights() is Some
    }

    /// An untrained classifier.
    pub fn new() -> (lc: Self)
        ensures
            lc.weights() == None::<Seq<i32>>,
    {
        LinearClassifier { perceptron: None }
    }

    /// Says what rules a training set out before any solve, if anything
    /// does.
    pub fn check_training_set(sample: &Matrix, labels: &Vec<Label>) -> (r: Result<
        (),
        ClassifierError,
    >)
        ensures
            match training_obstacle(sample.rows(), sample@, labels@) {
                Some(e) => r == Err::<(), ClassifierError>(e),
                None => r is Ok,
            },
    {
        if sample.ncols() != labels.len() {
            Err(ClassifierError::DimensionMismatch)
        } else if sample.ncols() == 0 || sample.nrows() == 0 {
            Err(ClassifierError::NumericalSolveFailure)
        } else {
            Ok(())
        }
    }

    /// Ends a training for which the least-squares solver answered
    /// `solution`: takes the weights over if the training set is in order
    /// and the solver gave one weight per feature, and otherwise keeps what
    /// the classifier held.
    pub fn train_with_solution(
        &mut self,
        sample: &Matrix,
        labels: &Vec<Label>,
        solution: Option<Vec<i32>>,
    ) -> (r: Result<Vec<i32>, ClassifierError>)
        ensures
            weights_view(r) == training_outcome(
                sample.rows(),
                sample@,
                labels@,
                match solution {
                    Some(w) => Some(w@),
                    None => None,
                },
            ),
            final(self).weights() == weights_after(old(self).weights(), weights_view(r)),
            r matches Ok(w) ==> solution == Some(w),
    {
        match LinearClassifier::check_training_set(sample, labels) {
            Err(e) => Err(e),
            Ok(_) => match solution {
                None => Err(ClassifierError::NumericalSolveFailure),
                Some(w) => {
                    if w.len() != sample.nrows() {
                        Err(ClassifierError::NumericalSolveFailure)
                    } else {
                        self.perceptron = Some(w.clone());
                        Ok(w)
                    }
                },
            },
        }
    }

    /// Trains on a labelled sample: `solve` is asked for the least-squares
    /// weights, `pseudo_inverse(transpose(sample)) * labels`, with the
    /// tolerance `EPSILON`, and its answer is taken over as
    /// `train_with_solution` says. A training set that is ruled out
    /// beforehand never reaches the solver.
    pub fn train<F: Fn(&Matrix, &Vec<Label>, i32) -> Option<Vec<i32>>>(
        &mut self,
        sample: &Matrix,
        labels: &Vec<Label>,
        solve: &F,
    ) -> (r: Result<Vec<i32>, ClassifierError>)
        requires
            training_obstacle(sample.rows(), sample@, labels@) is None ==> call_requires(
                *solve,
                (sample, labels, EPSILON),
            ),
        ensures
            final(self).weights() == weights_after(old(self).weights(), weights_view(r)),
            r matches Ok(w) ==> call_ensures(*solve, (sample, labels, EPSILON), Some(w)),
            match training_obstacle(sample.rows(), sample@, labels@) {
                Some(e) => r == Err::<Vec<i32>, ClassifierError>(e),
                None => exists|answer: Option<Vec<i32>>| #[trigger]
                    call_ensures(*solve, (sample, labels, EPSILON), answer) && weights_view(r)
                        == training_outcome(
                        sample.rows(),
                        sample@,
                        labels@,
                        match answer {
                            Some(w) => Some(w@),
                            None => None,
                        },
                    ),
            },
    {
        match LinearClassifier::check_training_set(sample, labels) {
            Err(e) => Err(e),
            Ok(_) => {
                let answer = solve(sample, labels, EPSILON);
                self.train_with_solution(sample, labels, answer)
            },
        }
    }

    /// Labels every point of `sample` with the trained weights; refused
    /// before any training, and for a sample whose points have another
    /// number of features than there are weights.
    pub fn predict(&self, sample: &Matrix) -> (r: Result<Vec<Label>, ClassifierError>)
        ensures
            labels_view(r) == prediction(self.weights(), sample.rows(), sample@),
    {
        match &self.perceptron {
            None => Err(ClassifierError::UntrainedModel),
            Some(w) => apply_perceptron(sample, w),
        }
    }

    /// The trained weights, one per feature; refused before any training.
    pub fn get_weights(&self) -> (r: Result<Vec<i32>, ClassifierError>)
        ensures
            weights_view(r) == held_weights(self.weights()),
    {
        match &self.perceptron {
            None => Err(ClassifierError::UntrainedModel),
            Some(w) => Ok(w.clone()),
        }
    }

    /// Unflattens `n` abscissas followed by `n` ordinates into a sample of
    /// `n` points, each with the bias 1.0 in front.
    pub fn parse_sample(n: usize, sample: &[i32]) -> (r: Result<Matrix, ClassifierError>)
        ensures
            sample@.len() != 2 * n ==> r is Err && r->Err_0 == ClassifierError::DimensionMismatch,
            sample@.len() == 2 * n ==> r is Ok && r->Ok_0.well_formed() && r->Ok_0.rows() == 3
                && r->Ok_0@ == parsed(n as nat, sample@),
    {
        let len: usize = sample.len();
        if n > len / 2 || len != 2 * n {
            return Err(ClassifierError::DimensionMismatch);
        }
        let mut columns: Vec<Vec<i32>> = Vec::new();
        let mut c: usize = 0;
        while c < n
            invariant
                c <= n,
                sample@.len() == 2 * n,
                columns@.len() == c,
                forall|k: int|
                    0 <= k < c ==> (#[trigger] columns@[k])@ == seq![
                        SCALE,
                        sample@[k],
                        sample@[n + k],
                    ],
            decreases n - c,
        {
            let mut column: Vec<i32> = Vec::new();
            column.push(SCALE);
            column.push(sample[c]);
            column.push(sample[n + c]);
            columns.push(column);
            c = c + 1;
        }
        let m = Matrix::from_columns(3, columns).unwrap();
        Ok(m)
    }
}

impl Default for LinearClassifier {
    fn default() -> (lc: Self)
        ensures
            lc.weights() == None::<Seq<i32>>,
    {
        LinearClassifier::new()
    }
}

/// A classifier that was never trained answers neither a prediction nor
/// its weights: both are refused as an untrained model, whatever the
/// sample.
pub proof fn lemma_untrained_refuses(lc: LinearClassifier, sample: Matrix)
    requires
        lc.weights() is None,
    ensures
        prediction(lc.weights(), sample.rows(), sample@) == Err::<Seq<Label>, ClassifierError>(
            ClassifierError::UntrainedModel,
        ),
        held_weights(lc.weights()) == Err::<Seq<i32>, ClassifierError>(
            ClassifierError::UntrainedModel,
        ),
{
}

/// Two predictions from the same classifier on the same sample agree.
pub proof fn lemma_predict_twice(
    lc: LinearClassifier,
    sample: Matrix,
    first: Result<Vec<Label>, ClassifierError>,
    second: Result<Vec<Label>, ClassifierError>,
)
    requires
        labels_view(first) == prediction(lc.weights(), sample.rows(), sample@),
        labels_view(second) == prediction(lc.weights(), sample.rows(), sample@),
    ensures
        labels_view(first) == labels_view(second),
{
}

/// The label of a point depends on the point and the weights alone: the
/// same point gets the same label in whatever sample and at whatever place
/// it stands.
pub proof fn lemma_same_point_same_label(
    first: Seq<Seq<i32>>,
    second: Seq<Seq<i32>>,
    w: Seq<i32>,
    i: int,
    j: int,
)
    requires
        0 <= i < first.len(),
        0 <= j < second.len(),
        first[i] == second[j],
    ensures
        predicted(first, w)[i] == predicted(second, w)[j],
        predicted(first, w)[i] == label_of(dot(first[i], w)),
{
}

/// After a training that succeeded with the weights `w`, a prediction on
/// the training sample is what `w` gives; so where `w` gives every point
/// the label it was trained with, the prediction reproduces the labels.
pub proof fn lemma_train_then_predict(
    before: Option<Seq<i32>>,
    rows: nat,
    sample: Seq<Seq<i32>>,
    labels: Seq<Label>,
    solution: Option<Seq<i32>>,
    w: Seq<i32>,
)
    requires
        training_outcome(rows, sample, labels, solution) == Ok::<Seq<i32>, ClassifierError>(w),
    ensures
        solution == Some(w),
        prediction(
            weights_after(before, training_outcome(rows, sample, labels, solution)),
            rows,
            sample,
        ) == Ok::<Seq<Label>, ClassifierError>(predicted(sample, w)),
        predicted(sample, w) == labels ==> prediction(
            weights_after(before, training_outcome(rows, sample, labels, solution)),
            rows,
            sample,
        ) == Ok::<Seq<Label>, ClassifierError>(labels),
{
}

} // verus!

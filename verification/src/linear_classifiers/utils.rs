use vstd::prelude::*;
use rand::rngs::SmallRng;
use crate::error::ClassifierError;
use crate::fixed::{dot, label_of, Label, EPSILON, SCALE};
use crate::linalg::Matrix;
use crate::linear_classifiers::linear_classifier::{apply_perceptron, predicted};
use crate::linear_classifiers::nonlinear_features::{lemma_expansion_bound, LCFeatures};
use crate::random::uniform;

verus! {

/// The largest magnitude of the bias of a random line, 0.2.
pub const LINE_BIAS_LIMIT: i32 = 200_000;

/// The largest magnitude of a coefficient of a random quadratic, 0.1.
pub const QUADRATIC_LIMIT: i32 = 100_000;

/// `w` may come out of `get_random_line`: a bias from -0.2 up to 0.2 and two
/// coefficients from -1.0 up to 1.0, the upper ends not included.
pub open spec fn is_random_line(w: Seq<i32>) -> bool {
    &&& w.len() == 3
    &&& -LINE_BIAS_LIMIT <= w[0] < LINE_BIAS_LIMIT
    &&& -SCALE <= w[1] < SCALE
    &&& -SCALE <= w[2] < SCALE
}

/// `w` may come out of `get_random_quadratic`: six coefficients from -0.1 up
/// to 0.1, the upper end not included.
pub open spec fn is_random_quadratic(w: Seq<i32>) -> bool {
    &&& w.len() == 6
    &&& forall|i: int| 0 <= i < 6 ==> -QUADRATIC_LIMIT <= #[trigger] w[i] < QUADRATIC_LIMIT
}

/// `w` may come out of the boundary generator of `mode`.
pub open spec fn is_random_boundary(mode: LCFeatures, w: Seq<i32>) -> bool {
    match mode {
        LCFeatures::Linear => is_random_line(w),
        LCFeatures::Quadratic => is_random_quadratic(w),
    }
}

/// `column` is the feature vector of a point of the sampling square: from
/// -1.0 up to 1.0 on both axes, the upper ends not included.
pub open spec fn is_sample_point(mode: LCFeatures, column: Seq<i32>) -> bool {
    &&& column.len() == mode.dim()
    &&& column[0] == SCALE
    &&& -SCALE <= column[1] < SCALE
    &&& -SCALE <= column[2] < SCALE
    &&& column == mode.expansion(column[1], column[2])
}

/// `sample` holds `n` points of the sampling square, each expanded by `mode`.
pub open spec fn is_random_sample(mode: LCFeatures, n: nat, sample: Seq<Seq<i32>>) -> bool {
    &&& sample.len() == n
    &&& forall|c: int| 0 <= c < n ==> is_sample_point(mode, #[trigger] sample[c])
}

/// `solve` may be asked for the weights of every sample that a driver draws:
/// of `n` points of the sampling square, with `n` above zero, expanded by
/// `mode` and labelled by the boundary `f`.
pub open spec fn solver_accepts<F: Fn(&Matrix, &Vec<Label>, i32) -> Option<Vec<i32>>>(
    solve: &F,
    mode: LCFeatures,
    n: nat,
    f: Seq<i32>,
) -> bool {
    forall|sample: Matrix, labels: Vec<Label>|
        {
            &&& n > 0
            &&& sample.well_formed()
            &&& sample.rows() == mode.dim()
            &&& is_random_sample(mode, n, sample@)
            &&& labels@ == predicted(sample@, f)
        } ==> #[trigger] call_requires(*solve, (&sample, &labels, EPSILON))
}

/// `solve` gave no usable weights for some sample of `n` points of the
/// sampling square, expanded by `mode` and labelled by the boundary `f`: it
/// answered none, or another number of weights than `mode` has features.
pub open spec fn refused_by<F: Fn(&Matrix, &Vec<Label>, i32) -> Option<Vec<i32>>>(
    solve: &F,
    mode: LCFeatures,
    n: nat,
    f: Seq<i32>,
) -> bool {
    exists|sample: Matrix, labels: Vec<Label>, answer: Option<Vec<i32>>|
        {
            &&& #[trigger] call_ensures(*solve, (&sample, &labels, EPSILON), answer)
            &&& sample.well_formed()
            &&& sample.rows() == mode.dim()
            &&& is_random_sample(mode, n, sample@)
            &&& labels@ == predicted(sample@, f)
            &&& (answer matches Some(w) ==> w@.len() != mode.dim())
        }
}

/// `w` is what `solve` answered for some sample of `n` points of the sampling
/// square, expanded by `mode` and labelled by the boundary `f`.
pub open spec fn learned_from<F: Fn(&Matrix, &Vec<Label>, i32) -> Option<Vec<i32>>>(
    solve: &F,
    mode: LCFeatures,
    n: nat,
    f: Seq<i32>,
    w: Seq<i32>,
) -> bool {
    exists|sample: Matrix, labels: Vec<Label>, answer: Vec<i32>|
        {
            &&& #[trigger] call_ensures(*solve, (&sample, &labels, EPSILON), Some(answer))
            &&& sample.well_formed()
            &&& sample.rows() == mode.dim()
            &&& is_random_sample(mode, n, sample@)
            &&& labels@ == predicted(sample@, f)
            &&& answer@ == w
        }
}

/// The weights of a random line: bias, then the coefficients of `x` and `y`,
/// drawn in that order.
pub fn get_random_line(rng: &mut SmallRng) -> (w: Vec<i32>)
    ensures
        is_random_line(w@),
{
    let mut w: Vec<i32> = Vec::new();
    w.push(uniform(rng, -LINE_BIAS_LIMIT, LINE_BIAS_LIMIT));
    w.push(uniform(rng, -SCALE, SCALE));
    w.push(uniform(rng, -SCALE, SCALE));
    w
}

/// The weights of a random quadratic, one per feature of the quadratic
/// mode.
pub fn get_random_quadratic(rng: &mut SmallRng) -> (w: Vec<i32>)
    ensures
        is_random_quadratic(w@),
{
    let mut w: Vec<i32> = Vec::new();
    let mut i: usize = 0;
    while i < 6
        invariant
            i <= 6,
            w@.len() == i,
            forall|k: int| 0 <= k < i ==> -QUADRATIC_LIMIT <= #[trigger] w@[k] < QUADRATIC_LIMIT,
        decreases 6 - i,
    {
        w.push(uniform(rng, -QUADRATIC_LIMIT, QUADRATIC_LIMIT));
        i = i + 1;
    }
    w
}

/// The weights of a random boundary for `mode`.
pub fn get_random_boundary(mode: LCFeatures, rng: &mut SmallRng) -> (w: Vec<i32>)
    ensures
        is_random_boundary(mode, w@),
        w@.len() == mode.dim(),
{
    match mode {
        LCFeatures::Linear => get_random_line(rng),
        LCFeatures::Quadratic => get_random_quadratic(rng),
    }
}

/// `n` coordinates, each drawn from -1.0 up to, not including, 1.0.
fn draw_coordinates(n: usize, rng: &mut SmallRng) -> (v: Vec<i32>)
    ensures
        v@.len() == n,
        forall|k: int| 0 <= k < n ==> -SCALE <= #[trigger] v@[k] < SCALE,
{
    let mut v: Vec<i32> = Vec::new();
    let mut i: usize = 0;
    while i < n
        invariant
            i <= n,
            v@.len() == i,
            forall|k: int| 0 <= k < i ==> -SCALE <= #[trigger] v@[k] < SCALE,
        decreases n - i,
    {
        v.push(uniform(rng, -SCALE, SCALE));
        i = i + 1;
    }
    v
}

/// The feature vector of a point of the sampling square.
fn sample_point(mode: LCFeatures, x: i32, y: i32) -> (column: Vec<i32>)
    requires
        -SCALE <= x < SCALE,
        -SCALE <= y < SCALE,
    ensures
        is_sample_point(mode, column@),
        column@ == mode.expansion(x, y),
{
    proof {
        lemma_expansion_bound(mode, x, y, SCALE as int, SCALE as int);
    }
    mode.expand(x, y).unwrap()
}

/// A random sample of `n` points of the sampling square, expanded by `features`,
/// with the label that the boundary `f` gives each: the sign of the dot
/// product of its feature vector with `f`, zero counting as positive. The
/// abscissas are drawn first, then the ordinates. A boundary with another
/// number of weights than `features` has features is refused.
pub fn get_random_sample(n: usize, f: &Vec<i32>, features: LCFeatures, rng: &mut SmallRng) -> (r:
    Result<(Matrix, Vec<Label>), ClassifierError>)
    ensures
        f@.len() != features.dim() ==> r is Err && r->Err_0 == ClassifierError::DimensionMismatch,
        f@.len() == features.dim() ==> r is Ok,
        r matches Ok((sample, labels)) ==> {
            &&& sample.well_formed()
            &&& sample.rows() == features.dim()
            &&& is_random_sample(features, n as nat, sample@)
            &&& forall|c: int| 0 <= c < n ==> #[trigger] sample.at(0, c) == SCALE
            &&& labels@ == predicted(sample@, f@)
        },
{
    if f.len() != features.dimension() {
        return Err(ClassifierError::DimensionMismatch);
    }
    let xs = draw_coordinates(n, rng);
    let ys = draw_coordinates(n, rng);
    let mut columns: Vec<Vec<i32>> = Vec::new();
    let mut c: usize = 0;
    while c < n
        invariant
            c <= n,
            xs@.len() == n,
            ys@.len() == n,
            forall|k: int| 0 <= k < n ==> -SCALE <= #[trigger] xs@[k] < SCALE,
            forall|k: int| 0 <= k < n ==> -SCALE <= #[trigger] ys@[k] < SCALE,
            columns@.len() == c,
            forall|k: int| 0 <= k < c ==> is_sample_point(features, (#[trigger] columns@[k])@),
        decreases n - c,
    {
        columns.push(sample_point(features, xs[c], ys[c]));
        c = c + 1;
    }
    let sample = Matrix::from_columns(features.dimension(), columns).unwrap();
    match apply_perceptron(&sample, f) {
        Ok(labels) => Ok((sample, labels)),
        Err(e) => Err(e),
    }
}

/// A random sample of `n` points `[1.0, x, y]` of the sampling square. The
/// coordinates are drawn point by point, `x` before `y`.
pub fn random_points(n: usize, rng: &mut SmallRng) -> (points: Matrix)
    ensures
        points.well_formed(),
        points.rows() == 3,
        is_random_sample(LCFeatures::Linear, n as nat, points@),
        forall|c: int| 0 <= c < n ==> #[trigger] points.at(0, c) == SCALE,
{
    let mut columns: Vec<Vec<i32>> = Vec::new();
    let mut c: usize = 0;
    while c < n
        invariant
            c <= n,
            columns@.len() == c,
            forall|k: int|
                0 <= k < c ==> is_sample_point(LCFeatures::Linear, (#[trigger] columns@[k])@),
        decreases n - c,
    {
        let x: i32 = uniform(rng, -SCALE, SCALE);
        let y: i32 = uniform(rng, -SCALE, SCALE);
        columns.push(sample_point(LCFeatures::Linear, x, y));
        c = c + 1;
    }
    Matrix::from_columns(3, columns).unwrap()
}

/// How far the point `(x, y)` lies above the line `y = m * x + b`, in
/// units of `SCALE * SCALE`.
pub open spec fn line_side(m: int, b: int, x: int, y: int) -> int {
    SCALE * y - m * x - SCALE * b
}

/// The labels that the line `y = m * x + b` gives to points `[1.0, x, y]`:
/// positive on the line and above it.
pub open spec fn line_labels(m: int, b: int, points: Seq<Seq<i32>>) -> Seq<Label> {
    Seq::new(
        points.len(),
        |c: int| label_of(line_side(m, b, points[c][1] as int, points[c][2] as int)),
    )
}

/// Labels points `[1.0, x, y]` by their side of the line `y = m * x + b`.
/// Points with another number of features are refused.
pub fn hypothesis(points: &Matrix, m: i32, b: i32) -> (r: Result<Vec<Label>, ClassifierError>)
    ensures
        points.rows() != 3 ==> r == Err::<Vec<Label>, ClassifierError>(
            ClassifierError::DimensionMismatch,
        ),
        points.rows() == 3 ==> r is Ok && r->Ok_0@ == line_labels(m as int, b as int, points@),
{
    if points.nrows() != 3 {
        return Err(ClassifierError::DimensionMismatch);
    }
    let n: usize = points.ncols();
    let mut labels: Vec<Label> = Vec::new();
    let mut c: usize = 0;
    while c < n
        invariant
            c <= n,
            n == points.cols(),
            points.rows() == 3,
            labels@.len() == c,
            forall|k: int|
                0 <= k < c ==> #[trigger] labels@[k] == label_of(
                    line_side(m as int, b as int, points@[k][1] as int, points@[k][2] as int),
                ),
        decreases n - c,
    {
        let column = points.column(c).unwrap();
        let x: i128 = column[1] as i128;
        let y: i128 = column[2] as i128;
        assert(-0x4000_0000_0000_0000 <= (m as int) * (x as int) <= 0x4000_0000_0000_0000)
            by (nonlinear_arith)
            requires
                -0x8000_0000 <= m <= 0x8000_0000,
                -0x8000_0000 <= x <= 0x8000_0000,
        ;
        let side: i128 = (SCALE as i128) * y - (m as i128) * x - (SCALE as i128) * (b as i128);
        labels.push(Label::of(side));
        c = c + 1;
    }
    Ok(labels)
}

/// The line `y = m * x + b` labels a point as the weights
/// `[-b, -m, 1.0]` do by the sign of the dot product.
pub proof fn lemma_line_as_weights(m: i32, b: i32, x: i32, y: i32)
    requires
        m > i32::MIN,
        b > i32::MIN,
    ensures
        line_side(m as int, b as int, x as int, y as int) == dot(
            seq![SCALE, x, y],
            seq![(-b) as i32, (-m) as i32, SCALE],
        ),
{
    let p = seq![SCALE, x, y];
    let w = seq![(-b) as i32, (-m) as i32, SCALE];
    reveal_with_fuel(crate::fixed::dot_prefix, 4);
    assert(p[0] * w[0] == -(SCALE * b)) by (nonlinear_arith)
        requires
            p[0] == SCALE,
            w[0] == -b,
    ;
    assert(p[1] * w[1] == -(m * x)) by (nonlinear_arith)
        requires
            p[1] == x,
            w[1] == -m,
    ;
    assert(p[2] * w[2] == SCALE * y) by (nonlinear_arith)
        requires
            p[2] == y,
            w[2] == SCALE,
    ;
}

} // verus!

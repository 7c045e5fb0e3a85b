use vstd::prelude::*;
use rand::rngs::SmallRng;
use crate::error::ClassifierError;
use crate::fixed::{
    dot, dot_product, fixed_mul, lemma_dot_bound, lemma_product_bound, multiply, within, Label,
    SCALE,
};
use crate::linalg::Matrix;
use crate::linear_classifiers::linear_classifier::LinearClassifier;
use crate::linear_classifiers::utils::{
    get_random_boundary, get_random_sample, is_random_boundary, learned_from, refused_by,
    solver_accepts,
};

verus! {

/// How a point `(x, y)` is expanded into a feature vector.
#[derive(Clone, Copy, Debug, PartialEq, Eq, Structural)]
pub enum LCFeatures {
    /// `[1, x, y]`
    Linear,
    /// `[1, x, y, xy, x^2, y^2]`
    Quadratic,
}

/// The number of grid points along each axis.
pub const GRID_SIDE: usize = 31;

/// The number of grid points.
pub const GRID_POINTS: usize = 961;

/// The lowest grid coordinate, -1.5.
pub const GRID_ORIGIN: i32 = -1_500_000;

/// The distance between neighbouring grid coordinates, 0.1.
pub const GRID_STEP: i32 = 100_000;

/// The `i`-th coordinate of the evaluation grid, from -1.5 to 1.5 in steps
/// of 0.1.
pub open spec fn grid_coordinate(i: int) -> int {
    GRID_ORIGIN + i * GRID_STEP
}

/// `v` is representable as a fixed-point number.
pub open spec fn fits(v: int) -> bool {
    i32::MIN <= v <= i32::MAX
}

impl LCFeatures {
    /// The number of features of a point.
    pub open spec fn dim(self) -> nat {
        match self {
            LCFeatures::Linear => 3,
            LCFeatures::Quadratic => 6,
        }
    }

    /// Whether every feature of `(x, y)` is representable. The products of
    /// the quadratic mode are not, far from the origin.
    pub open spec fn representable(self, x: i32, y: i32) -> bool {
        match self {
            LCFeatures::Linear => true,
            LCFeatures::Quadratic => fits(fixed_mul(x as int, y as int)) && fits(
                fixed_mul(x as int, x as int),
            ) && fits(fixed_mul(y as int, y as int)),
        }
    }

    /// The feature vector of `(x, y)`: the bias 1.0 in front, then the
    /// coordinates and, in the quadratic mode, their products, each rounded
    /// towards negative infinity.
    pub open spec fn expansion(self, x: i32, y: i32) -> Seq<i32> {
        match self {
            LCFeatures::Linear => seq![SCALE, x, y],
            LCFeatures::Quadratic => seq![
                SCALE,
                x,
                y,
                fixed_mul(x as int, y as int) as i32,
                fixed_mul(x as int, x as int) as i32,
                fixed_mul(y as int, y as int) as i32,
            ],
        }
    }

    /// The number of features of a point.
    pub fn dimension(self) -> (d: usize)
        ensures
            d == self.dim(),
    {
        match self {
            LCFeatures::Linear => 3,
            LCFeatures::Quadratic => 6,
        }
    }

    /// The feature vector of `(x, y)`, where every feature is
    /// representable.
    pub fn expand(self, x: i32, y: i32) -> (v: Option<Vec<i32>>)
        ensures
            v is Some <==> self.representable(x, y),
            v matches Some(f) ==> f@ == self.expansion(x, y),
    {
        let mut f: Vec<i32> = Vec::new();
        f.push(SCALE);
        f.push(x);
        f.push(y);
        match self {
            LCFeatures::Linear => {
                Some(f)
            },
            LCFeatures::Quadratic => {
                match (multiply(x, y), multiply(x, x), multiply(y, y)) {
                    (Some(xy), Some(xx), Some(yy)) => {
                        f.push(xy);
                        f.push(xx);
                        f.push(yy);
                        Some(f)
                    },
                    _ => None,
                }
            },
        }
    }
}

/// Where both coordinates lie within `-m ..= m` and `m * m` is at most
/// `b * SCALE`, every feature is representable and lies within `-b ..= b`,
/// provided the bias and `m` itself do.
pub proof fn lemma_expansion_bound(mode: LCFeatures, x: i32, y: i32, m: int, b: int)
    requires
        -m <= x <= m,
        -m <= y <= m,
        m * m <= b * SCALE,
        SCALE <= b <= i32::MAX,
        m <= b,
    ensures
        mode.representable(x, y),
        mode.expansion(x, y).len() == mode.dim(),
        within(mode.expansion(x, y), mode.dim(), b),
{
    lemma_product_bound(x as int, y as int, m, m);
    lemma_product_bound(x as int, x as int, m, m);
    lemma_product_bound(y as int, y as int, m, m);
    // each product lies within -b * SCALE ..= b * SCALE, so its quotient by
    // SCALE lies within -b ..= b
    assert(-b <= fixed_mul(x as int, y as int) <= b);
    assert(-b <= fixed_mul(x as int, x as int) <= b);
    assert(-b <= fixed_mul(y as int, y as int) <= b);
}

/// The values of the function with weights `w` over the evaluation grid, in
/// units of `SCALE * SCALE`: entry `i * 31 + j` belongs to the point with
/// the `i`-th abscissa and the `j`-th ordinate.
pub open spec fn surface(mode: LCFeatures, w: Seq<i32>) -> Seq<int> {
    Seq::new(
        GRID_POINTS as nat,
        |k: int|
            dot(
                mode.expansion(
                    grid_coordinate(k / (GRID_SIDE as int)) as i32,
                    grid_coordinate(k % (GRID_SIDE as int)) as i32,
                ),
                w,
            ),
    )
}

/// A vector of machine integers, as mathematical ones.
pub open spec fn as_ints(v: Seq<i64>) -> Seq<int> {
    Seq::new(v.len(), |k: int| v[k] as int)
}

/// Evaluates the function with weights `weights` at every point of the
/// grid. Weights of another length than the mode has features are refused.
pub fn evaluate_grid(mode: LCFeatures, weights: &Vec<i32>) -> (r: Result<Vec<i64>, ClassifierError>)
    ensures
        weights@.len() != mode.dim() ==> r == Err::<Vec<i64>, ClassifierError>(
            ClassifierError::DimensionMismatch,
        ),
        weights@.len() == mode.dim() ==> r is Ok && as_ints(r->Ok_0@) == surface(mode, weights@),
{
    if weights.len() != mode.dimension() {
        return Err(ClassifierError::DimensionMismatch);
    }
    let mut values: Vec<i64> = Vec::new();
    let mut i: usize = 0;
    while i < GRID_SIDE
        invariant
            i <= GRID_SIDE,
            weights@.len() == mode.dim(),
            values@.len() == i * GRID_SIDE,
            forall|k: int|
                0 <= k < values@.len() ==> (#[trigger] values@[k]) as int == surface(
                    mode,
                    weights@,
                )[k],
        decreases GRID_SIDE - i,
    {
        let mut j: usize = 0;
        while j < GRID_SIDE
            invariant
                i < GRID_SIDE,
                j <= GRID_SIDE,
                weights@.len() == mode.dim(),
                values@.len() == i * GRID_SIDE + j,
                forall|k: int|
                    0 <= k < values@.len() ==> (#[trigger] values@[k]) as int == surface(
                        mode,
                        weights@,
                    )[k],
            decreases GRID_SIDE - j,
        {
            let x: i32 = GRID_ORIGIN + (i as i32) * GRID_STEP;
            let y: i32 = GRID_ORIGIN + (j as i32) * GRID_STEP;
            proof {
                lemma_expansion_bound(mode, x, y, 1_500_000, 2_250_000);
                lemma_dot_bound(
                    mode.expansion(x, y),
                    weights@,
                    mode.dim(),
                    2_250_000,
                    0x8000_0000,
                );
                assert(mode.dim() * (2_250_000 * 0x8000_0000) <= 6 * (2_250_000 * 0x8000_0000))
                    by (nonlinear_arith)
                    requires
                        mode.dim() <= 6,
                ;
                let k: int = i * GRID_SIDE + j;
                assert(k / (GRID_SIDE as int) == i && k % (GRID_SIDE as int) == j);
            }
            let features = mode.expand(x, y).unwrap();
            let value: i128 = dot_product(&features, weights).unwrap();
            values.push(value as i64);
            j = j + 1;
        }
        i = i + 1;
    }
    Ok(values)
}

/// A surface of zeros over the grid.
pub open spec fn flat_surface() -> Seq<i64> {
    Seq::new(GRID_POINTS as nat, |k: int| 0i64)
}

fn zero_surface() -> (v: Vec<i64>)
    ensures
        v@ == flat_surface(),
{
    let mut v: Vec<i64> = Vec::new();
    let mut k: usize = 0;
    while k < GRID_POINTS
        invariant
            k <= GRID_POINTS,
            v@.len() == k,
            forall|i: int| 0 <= i < k ==> #[trigger] v@[i] == 0,
        decreases GRID_POINTS - k,
    {
        v.push(0);
        k = k + 1;
    }
    v
}

/// Compares, over the evaluation grid, a random boundary with the one that
/// the classifier learns from a sample it labelled, in the linear or the
/// quadratic feature mode.
#[derive(Debug)]
pub struct LCNonlinear {
    f: Vec<i64>,
    g: Vec<i64>,
    weights: Vec<i32>,
    features: Option<LCFeatures>,
    lc: LinearClassifier,
}

impl LCNonlinear {
    #[verifier::type_invariant]
    spec fn inv(&self) -> bool {
        self.features matches Some(mode) ==> self.weights@.len() == mode.dim()
    }

    /// The true surface: the random boundary over the grid.
    pub closed spec fn spec_f(&self) -> Seq<i64> {
        self.f@
    }

    /// The learned surface: the last learned weights over the grid.
    pub closed spec fn spec_g(&self) -> Seq<i64> {
        self.g@
    }

    /// The weights of the random boundary.
    pub closed spec fn boundary(&self) -> Seq<i32> {
        self.weights@
    }

    /// The feature mode, once one was chosen.
    pub closed spec fn mode(&self) -> Option<LCFeatures> {
        self.features
    }

    /// The weights learned by the last successful prediction.
    pub closed spec fn learned(&self) -> Option<Seq<i32>> {
        self.lc.weights()
    }

    /// An estimator without a feature mode: both surfaces flat, and a
    /// boundary of one zero weight that fits no mode.
    pub fn new() -> (e: Self)
        ensures
            e.mode() == None::<LCFeatures>,
            e.boundary() == seq![0i32],
            e.spec_f() == flat_surface(),
            e.spec_g() == flat_surface(),
            e.learned() == None::<Seq<i32>>,
    {
        let mut weights: Vec<i32> = Vec::new();
        weights.push(0);
        LCNonlinear {
            f: zero_surface(),
            g: zero_surface(),
            weights,
            features: None,
            lc: LinearClassifier::new(),
        }
    }

    /// Switches to the feature mode `mode`: draws a fresh random boundary
    /// for it and evaluates that over the grid as the true surface.
    pub fn set_features(&mut self, mode: LCFeatures, rng: &mut SmallRng)
        ensures
            final(self).mode() == Some(mode),
            is_random_boundary(mode, final(self).boundary()),
            as_ints(final(self).spec_f()) == surface(mode, final(self).boundary()),
            final(self).spec_g() == old(self).spec_g(),
            final(self).learned() == old(self).learned(),
    {
        let weights = get_random_boundary(mode, rng);
        let f = evaluate_grid(mode, &weights).unwrap();
        self.features = None;
        self.f = f;
        self.weights = weights;
        self.features = Some(mode);
    }

    /// The classifier as the last successful prediction left it.
    pub fn classifier(&self) -> (lc: &LinearClassifier)
        ensures
            lc.weights() == self.learned(),
    {
        &self.lc
    }

    /// Draws a sample of `n` points in the current feature mode, labelled
    /// by the random boundary, trains on it and evaluates the learned
    /// weights over the grid as the learned surface. Refused as a dimension
    /// mismatch while no mode was chosen; otherwise it fails only on an
    /// empty sample or where the solver gave no usable weights for the
    /// sample. On failure the learned surface stays as it was.
    pub fn get_prediction<F: Fn(&Matrix, &Vec<Label>, i32) -> Option<Vec<i32>>>(
        &mut self,
        n: usize,
        rng: &mut SmallRng,
        solve: &F,
    ) -> (r: Result<(), ClassifierError>)
        requires
            old(self).mode() matches Some(mode) ==> solver_accepts(
                solve,
                mode,
                n as nat,
                old(self).boundary(),
            ),
        ensures
            final(self).mode() == old(self).mode(),
            final(self).boundary() == old(self).boundary(),
            final(self).spec_f() == old(self).spec_f(),
            old(self).mode() is None ==> r == Err::<(), ClassifierError>(
                ClassifierError::DimensionMismatch,
            ),
            old(self).mode() is Some && n == 0 ==> r == Err::<(), ClassifierError>(
                ClassifierError::NumericalSolveFailure,
            ),
            old(self).mode() matches Some(mode) ==> (r is Err ==> {
                &&& r == Err::<(), ClassifierError>(ClassifierError::NumericalSolveFailure)
                &&& n == 0 || refused_by(solve, mode, n as nat, old(self).boundary())
            }),
            r is Err ==> final(self).spec_g() == old(self).spec_g() && final(self).learned() == old(
                self,
            ).learned(),
            r is Ok ==> {
                &&& old(self).mode() matches Some(mode)
                &&& final(self).learned() matches Some(w)
                &&& w.len() == mode.dim()
                &&& learned_from(solve, mode, n as nat, old(self).boundary(), w)
                &&& as_ints(final(self).spec_g()) == surface(mode, w)
            },
    {
        proof {
            use_type_invariant(&*self);
        }
        let mode = match self.features {
            Some(mode) => mode,
            None => {
                return Err(ClassifierError::DimensionMismatch);
            },
        };
        let (sample, labels) = get_random_sample(n, &self.weights, mode, rng).unwrap();
        let mut fresh = LinearClassifier::new();
        let weights = match fresh.train(&sample, &labels, solve) {
            Ok(weights) => weights,
            Err(e) => {
                return Err(e);
            },
        };
        self.g = evaluate_grid(mode, &weights).unwrap();
        self.lc = fresh;
        Ok(())
    }

    /// The true surface, one value per grid point in units of
    /// `SCALE * SCALE`.
    pub fn get_f(&self) -> (f: &Vec<i64>)
        ensures
            f@ == self.spec_f(),
    {
        &self.f
    }

    /// The learned surface, one value per grid point in units of
    /// `SCALE * SCALE`.
    pub fn get_g(&self) -> (g: &Vec<i64>)
        ensures
            g@ == self.spec_g(),
    {
        &self.g
    }
}

} // verus!

use vstd::prelude::*;
use rand::rngs::SmallRng;
use crate::error::ClassifierError;
use crate::fixed::{floor_div, floor_divide, lemma_floor_div_magnitude, Label, SCALE};
use crate::linalg::Matrix;
use crate::linear_classifiers::linear_classifier::LinearClassifier;
use crate::linear_classifiers::nonlinear_features::LCFeatures;
use crate::linear_classifiers::utils::{
    get_random_line, get_random_sample, is_random_line, learned_from, refused_by, solver_accepts,
};

verus! {

/// The distance from the origin of the two abscissas at which boundaries
/// are compared, 2.0.
pub const ABSCISSA: i32 = 2_000_000;

/// The ordinate at which the boundary with weights `w` crosses the
/// abscissa `x`: the solution `y` of `w[0] + w[1] * x + w[2] * y = 0`,
/// rounded towards negative infinity. A boundary that is no line in the
/// plane, or a vertical one, has none.
pub open spec fn boundary_value(w: Seq<i32>, x: int) -> Option<int> {
    if w.len() != 3 || w[2] == 0 {
        None
    } else {
        Some(floor_div(-(SCALE * w[0]) - w[1] * x, w[2] as int))
    }
}

/// An ordinate, where there is one, as a mathematical integer.
pub open spec fn ordinate(y: Option<i64>) -> Option<int> {
    match y {
        Some(v) => Some(v as int),
        None => None,
    }
}

/// The ordinate at which the boundary with weights `w` crosses the
/// abscissa `x`.
pub fn boundary_at(w: &Vec<i32>, x: i32) -> (y: Option<i64>)
    ensures
        ordinate(y) == boundary_value(w@, x as int),
{
    if w.len() != 3 || w[2] == 0 {
        return None;
    }
    assert(-0x4000_0000_0000_0000 <= w@[1] * x <= 0x4000_0000_0000_0000) by (nonlinear_arith)
        requires
            -0x8000_0000 <= w@[1] <= 0x8000_0000,
            -0x8000_0000 <= x <= 0x8000_0000,
    ;
    let numerator: i64 = -((SCALE as i64) * (w[0] as i64)) - (w[1] as i64) * (x as i64);
    proof {
        lemma_floor_div_magnitude(numerator as int, w@[2] as int, 0x7fff_ffff_ffff_ffff);
    }
    floor_divide(numerator, w[2] as i64)
}

/// Compares the boundary that the classifier learns with the random line
/// that labelled its sample, at the abscissas -2.0 and 2.0.
#[derive(Debug)]
pub struct LCBiasVariance {
    f_neg: Option<i64>,
    f_pos: Option<i64>,
    g_neg: Option<i64>,
    g_pos: Option<i64>,
    line: Vec<i32>,
    lc: LinearClassifier,
}

impl LCBiasVariance {
    #[verifier::type_invariant]
    spec fn inv(&self) -> bool {
        is_random_line(self.line@)
    }

    pub closed spec fn spec_f_neg(&self) -> Option<i64> {
        self.f_neg
    }

    pub closed spec fn spec_f_pos(&self) -> Option<i64> {
        self.f_pos
    }

    pub closed spec fn spec_g_neg(&self) -> Option<i64> {
        self.g_neg
    }

    pub closed spec fn spec_g_pos(&self) -> Option<i64> {
        self.g_pos
    }

    /// The weights of the line that labels the samples.
    pub closed spec fn spec_line(&self) -> Seq<i32> {
        self.line@
    }

    /// The weights learned in the last successful run.
    pub closed spec fn learned(&self) -> Option<Seq<i32>> {
        self.lc.weights()
    }

    /// An estimator with a fresh random line, whose ordinates at the two
    /// abscissas are noted; those of the learned boundary start at zero.
    pub fn new(rng: &mut SmallRng) -> (b: Self)
        ensures
            is_random_line(b.spec_line()),
            ordinate(b.f_neg()) == boundary_value(b.spec_line(), -ABSCISSA as int),
            ordinate(b.f_pos()) == boundary_value(b.spec_line(), ABSCISSA as int),
            b.g_neg() == Some(0i64),
            b.g_pos() == Some(0i64),
            b.learned() == None::<Seq<i32>>,
    {
        let line = get_random_line(rng);
        LCBiasVariance {
            f_neg: boundary_at(&line, -ABSCISSA),
            f_pos: boundary_at(&line, ABSCISSA),
            g_neg: Some(0),
            g_pos: Some(0),
            line,
            lc: LinearClassifier::new(),
        }
    }

    /// The ordinate of the true line at the abscissa -2.0.
    #[verifier::when_used_as_spec(spec_f_neg)]
    pub fn f_neg(&self) -> (y: Option<i64>)
        ensures
            y == self.f_neg(),
    {
        self.f_neg
    }

    /// The ordinate of the true line at the abscissa 2.0.
    #[verifier::when_used_as_spec(spec_f_pos)]
    pub fn f_pos(&self) -> (y: Option<i64>)
        ensures
            y == self.f_pos(),
    {
        self.f_pos
    }

    /// The ordinate of the learned boundary at the abscissa -2.0.
    #[verifier::when_used_as_spec(spec_g_neg)]
    pub fn g_neg(&self) -> (y: Option<i64>)
        ensures
            y == self.g_neg(),
    {
        self.g_neg
    }

    /// The ordinate of the learned boundary at the abscissa 2.0.
    #[verifier::when_used_as_spec(spec_g_pos)]
    pub fn g_pos(&self) -> (y: Option<i64>)
        ensures
            y == self.g_pos(),
    {
        self.g_pos
    }

    /// The weights of the line that labels the samples.
    pub fn line(&self) -> (w: &Vec<i32>)
        ensures
            w@ == self.spec_line(),
            is_random_line(w@),
    {
        proof {
            use_type_invariant(self);
        }
        &self.line
    }

    /// The classifier as the last successful run left it.
    pub fn classifier(&self) -> (lc: &LinearClassifier)
        ensures
            lc.weights() == self.learned(),
    {
        &self.lc
    }

    /// Draws a sample of `n` points labelled by the line, trains a fresh
    /// classifier on it and notes the ordinates of the learned boundary at
    /// the two abscissas. It fails only on an empty sample or where the
    /// solver gave no usable weights for the sample; everything then stays
    /// as it was.
    pub fn run<F: Fn(&Matrix, &Vec<Label>, i32) -> Option<Vec<i32>>>(
        &mut self,
        n: usize,
        rng: &mut SmallRng,
        solve: &F,
    ) -> (r: Result<(), ClassifierError>)
        requires
            solver_accepts(solve, LCFeatures::Linear, n as nat, old(self).spec_line()),
        ensures
            final(self).spec_line() == old(self).spec_line(),
            final(self).f_neg() == old(self).f_neg(),
            final(self).f_pos() == old(self).f_pos(),
            n == 0 ==> r is Err,
            r is Err ==> {
                &&& r == Err::<(), ClassifierError>(ClassifierError::NumericalSolveFailure)
                &&& n == 0 || refused_by(
                    solve,
                    LCFeatures::Linear,
                    n as nat,
                    old(self).spec_line(),
                )
                &&& final(self).g_neg() == old(self).g_neg()
                &&& final(self).g_pos() == old(self).g_pos()
                &&& final(self).learned() == old(self).learned()
            },
            r is Ok ==> {
                &&& final(self).learned() matches Some(w)
                &&& w.len() == 3
                &&& learned_from(solve, LCFeatures::Linear, n as nat, old(self).spec_line(), w)
                &&& ordinate(final(self).g_neg()) == boundary_value(w, -ABSCISSA as int)
                &&& ordinate(final(self).g_pos()) == boundary_value(w, ABSCISSA as int)
            },
    {
        proof {
            use_type_invariant(&*self);
        }
        let (sample, labels) = get_random_sample(n, &self.line, LCFeatures::Linear, rng).unwrap();
        let mut fresh = LinearClassifier::new();
        match fresh.train(&sample, &labels, solve) {
            Ok(weights) => {
                self.g_neg = boundary_at(&weights, -ABSCISSA);
                self.g_pos = boundary_at(&weights, ABSCISSA);
                self.lc = fresh;
                Ok(())
            },
            Err(e) => Err(e),
        }
    }
}

} // verus!

use vstd::prelude::*;

verus! {

/// Why an operation of the classifier or of a driver was refused.
#[derive(Clone, Copy, Debug, PartialEq, Eq, Structural)]
pub enum ClassifierError {
    /// A prediction or the weights were asked for before any training.
    UntrainedModel,
    /// Sample, labels and weights do not agree in their dimensions.
    DimensionMismatch,
    /// The least-squares solve gave no weight vector, or the sample is empty.
    NumericalSolveFailure,
}

} // verus!

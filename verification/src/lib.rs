//! Least-squares linear classification of labelled points, with the sample
//! generators and experiment drivers that measure it.
//!
//! Every quantity is a fixed-point number: a signed 32-bit count of
//! millionths (see [`fixed`]). The one step that needs real arithmetic, the
//! pseudo-inverse solve of the regression, is handed in by the caller as a
//! function; everything around it is verified.

pub mod error;
pub mod fixed;
pub mod linalg;
pub mod random;
pub mod statistics;
pub mod linear_classifiers;

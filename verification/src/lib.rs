//! Univariate linear regression by batch gradient descent on
//! min-max-normalized data, computed in saturating fixed-point arithmetic.
//!
//! Values are carried as `i64` integers scaled by [`fx::SCALE`]
//! (one millionth of a unit per step, so six decimal digits). Every
//! arithmetic step has an exact mathematical specification in [`fx`],
//! and every public operation's contract pins its result down to those
//! specifications.

pub mod error;
pub mod fx;
pub mod normalizer;
pub mod regressor;
pub mod seqs;

//! Verified univariate linear regression by batch gradient descent.
//!
//! The numeric core works on `Fx`, an exact fixed-point number (an `i64`
//! mantissa denoting `mantissa / 2^32`) with saturating arithmetic, so that
//! every step of the pipeline — scaling statistics, normalization, the
//! gradient-descent loop and polynomial prediction — has a proved, exact
//! functional contract.

pub mod fixed;
pub mod scaler;
pub mod predictor;
pub mod trainer;

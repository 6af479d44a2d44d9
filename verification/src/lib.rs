//! Ordinary least-squares linear regression over exact integer samples.
//!
//! The engine holds two equal-length sample sequences, accumulates the five
//! classic summations, and derives the intercept, the slope, and the Pearson
//! correlation coefficient as exact rational numbers.

pub mod isqrt;
pub mod linear_regression;
pub mod sums;

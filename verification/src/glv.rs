//! Scalar multiplication with the endomorphism of the curves.
use vstd::prelude::*;

pub mod butterfly;
pub mod codelet;
pub mod decompose;
pub mod dft;
pub mod dft16;
pub mod digits;
pub mod fft;
pub mod inversion;
pub mod ladder;
pub mod pairs;
pub mod multiexp;
pub mod params;
pub mod scalar;
pub mod schedule;
pub mod sums;
pub mod table;
pub mod wide;
pub mod widths;

verus! {

} // verus!

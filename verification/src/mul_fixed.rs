//! Fixed-base scalar multiplication in a circuit.
use vstd::prelude::*;

pub mod config;
pub mod expression;
pub mod laws;
pub mod scalar;
pub mod windows;
pub mod witness;

verus! {

} // verus!

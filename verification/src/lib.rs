//! Verified arithmetic for the Pasta curves and the proof systems built on them.
use vstd::prelude::*;

pub mod curve;
pub mod field;
pub mod glv;
pub mod mul_fixed;
pub mod pedersen;
pub mod poly;
pub mod sinsemilla;
pub mod tree;
pub(crate) mod threads;

verus! {

} // verus!

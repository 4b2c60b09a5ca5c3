//! The Pedersen hash over the Jubjub curve.
use vstd::prelude::*;

pub mod chunks;
pub mod complete;
pub mod edwards;
pub mod fused;
pub mod hash;
pub mod identities;
pub mod modulus;
pub mod points;
pub mod windowed;

verus! {

} // verus!

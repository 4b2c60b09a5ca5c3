//! The Sinsemilla hash.
use vstd::prelude::*;

pub mod domain;
pub mod laws;
pub mod weighted;

verus! {

} // verus!

//! Polynomials, the expressions over them and their evaluation.
use vstd::prelude::*;

pub mod accepted;
pub mod assemble;
pub mod ast;
pub mod basis;
pub mod buffers;
pub mod cache;
pub mod caching;
pub mod charges;
pub mod compile;
pub mod compiled;
pub mod cse;
pub mod evaluator;
pub mod families;
pub mod family;
pub mod found;
pub mod horner;
pub mod multiopen;
pub mod openings;
pub mod plan;
pub mod planned;
pub mod pointwise;
pub mod recognize;
pub mod replay;
pub mod rewritten;
pub mod rows;
pub mod run;
pub mod saved;
pub mod scratch;
pub mod shapes;

verus! {

} // verus!

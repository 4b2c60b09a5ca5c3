//! The threads of the machine.
use vstd::prelude::*;

verus! {

/// The number of threads in the current pool, by `maybe_rayon::current_num_threads`; it depends
/// on the machine, so nothing is claimed of it.
#[verifier::external_body]
pub(crate) fn current_num_threads() -> (r: usize) {
    maybe_rayon::current_num_threads()
}

} // verus!

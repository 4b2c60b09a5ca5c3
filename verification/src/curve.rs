//! The Pallas and Vesta curves.
use crate::curve::generators::{lemma_pallas_group, lemma_vesta_group};
use crate::curve::law::is_group;
use crate::field::{Modulus, PallasBase, VestaBase};
use vstd::prelude::*;

pub mod affine;
pub mod batch;
pub mod closure;
pub mod combination;
pub mod cyclic;
pub mod endomorphism;
pub mod generators;
pub mod law;
pub(crate) mod lifted;
pub mod point;
pub mod slopes;

verus! {

/// A curve with the equation `y^2 = x^3 + 5`.
pub trait Curve: Copy {
    /// The field of the coordinates.
    type Base: Modulus;

    /// The field of the scalars, whose modulus is the number of points.
    type Scalar: Modulus;
}

/// A curve whose points have its order, and whose endomorphism multiplies with a cube root of one.
pub trait Group: Curve {
    /// The points form a group of the order of the curve.
    proof fn lemma_group()
        ensures
            is_group::<Self>(),
    ;
}

/// The Pallas curve.
#[derive(Clone, Copy, Debug)]
pub struct Pallas;

/// The Vesta curve.
#[derive(Clone, Copy, Debug)]
pub struct Vesta;

impl Curve for Pallas {
    type Base = PallasBase;

    type Scalar = VestaBase;
}

impl Curve for Vesta {
    type Base = VestaBase;

    type Scalar = PallasBase;
}

impl Group for Pallas {
    proof fn lemma_group() {
        lemma_pallas_group();
    }
}

impl Group for Vesta {
    proof fn lemma_group() {
        lemma_vesta_group();
    }
}

} // verus!

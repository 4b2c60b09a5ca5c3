//! Points in affine coordinates.
use crate::curve::law::{endo, minus, Pt};
use crate::curve::Curve;
use crate::field::{Fe, Modulus};
use vstd::arithmetic::div_mod::{lemma_mod_add_multiples_vanish, lemma_small_mod};
use vstd::prelude::*;

verus! {

/// A point in affine coordinates; the coordinates of the neutral element are zero.
#[derive(Debug)]
pub struct Affine<C: Curve> {
    /// The first coordinate.
    pub x: Fe<C::Base>,
    /// The second coordinate.
    pub y: Fe<C::Base>,
}

impl<C: Curve> Clone for Affine<C> {
    fn clone(&self) -> (r: Self)
        ensures
            r == *self,
    {
        *self
    }
}

impl<C: Curve> Copy for Affine<C> {
}

impl<C: Curve> View for Affine<C> {
    type V = Pt;

    open spec fn view(&self) -> Pt {
        if self.x@ == 0 && self.y@ == 0 {
            Pt::Infinity
        } else {
            Pt::At { x: self.x@, y: self.y@ }
        }
    }
}

impl<C: Curve> Affine<C> {
    /// The neutral element.
    pub fn identity() -> (r: Self)
        ensures
            r@ == Pt::Infinity,
    {
        Affine { x: Fe::zero(), y: Fe::zero() }
    }

    /// The point with the given coordinates.
    pub fn from_xy(x: Fe<C::Base>, y: Fe<C::Base>) -> (r: Self)
        ensures
            r.x == x,
            r.y == y,
    {
        Affine { x, y }
    }

    /// Whether this is the neutral element.
    pub fn is_identity(self) -> (r: bool)
        ensures
            r == (self@ == Pt::Infinity),
    {
        self.x.is_zero() && self.y.is_zero()
    }

    /// The negative.
    pub fn neg(self) -> (r: Self)
        ensures
            r@ == minus::<C>(self@),
            r.x == self.x,
    {
        proof {
            let p = <C::Base as Modulus>::p();
            <C::Base as Modulus>::lemma_modulus();
            self.y.lemma_view();
            lemma_small_mod(0, p as nat);
            if self.y@ != 0 {
                lemma_mod_add_multiples_vanish(-self.y@, p);
                lemma_small_mod((p - self.y@) as nat, p as nat);
            }
        }
        Affine { x: self.x, y: self.y.neg() }
    }

    /// The image under the endomorphism.
    pub fn endo(self) -> (r: Self)
        ensures
            r@ == endo::<C>(self@),
    {
        let zeta = Fe::<C::Base>::zeta();
        proof {
            let p = <C::Base as Modulus>::p();
            <C::Base as Modulus>::lemma_modulus();
            self.x.lemma_view();
            lemma_small_mod(0, p as nat);
            assert(0 * zeta@ == 0);
            if self.x@ != 0 {
                // The cube root of one is not zero.
                if zeta@ == 0 {
                    assert(0 * 0 + 0 + 1 == 1int);
                    lemma_small_mod(1, p as nat);
                }
                lemma_small_mod(self.x@ as nat, p as nat);
                lemma_small_mod(zeta@ as nat, p as nat);
                crate::curve::law::lemma_product::<C::Base>(self.x@, zeta@);
            }
        }
        Affine { x: self.x.mul(zeta), y: self.y }
    }
}

} // verus!

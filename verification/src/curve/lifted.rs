//! Field elements together with integer expressions that they are the residues of.
use crate::field::congruence::{congruent, lemma_congruent_mod, lemma_congruent_ops};
use crate::field::{Fe, Modulus};
use vstd::prelude::*;

verus! {

/// A field element and an integer that it is the residue of.
pub(crate) struct Lifted<M: Modulus> {
    pub(crate) value: Fe<M>,
    pub(crate) lift: Ghost<int>,
}

impl<M: Modulus> Clone for Lifted<M> {
    fn clone(&self) -> (r: Self)
        ensures
            r == *self,
    {
        *self
    }
}

impl<M: Modulus> Copy for Lifted<M> {
}

impl<M: Modulus> Lifted<M> {
    /// The element is the residue of the integer.
    pub(crate) open spec fn ok(self) -> bool {
        congruent(self.value@, self.lift@, M::p())
    }

    pub(crate) fn new(value: Fe<M>, Ghost(lift): Ghost<int>) -> (r: Self)
        requires
            congruent(value@, lift, M::p()),
        ensures
            r.ok(),
            r.value == value,
            r.lift@ == lift,
    {
        Lifted { value, lift: Ghost(lift) }
    }

    pub(crate) fn plus(self, rhs: Self) -> (r: Self)
        requires
            self.ok(),
            rhs.ok(),
        ensures
            r.ok(),
            r.lift@ == self.lift@ + rhs.lift@,
    {
        proof {
            M::lemma_modulus();
            lemma_congruent_ops(self.value@, self.lift@, rhs.value@, rhs.lift@, M::p());
            lemma_congruent_mod(self.value@ + rhs.value@, M::p());
        }
        Lifted { value: self.value.add(rhs.value), lift: Ghost(self.lift@ + rhs.lift@) }
    }

    pub(crate) fn minus(self, rhs: Self) -> (r: Self)
        requires
            self.ok(),
            rhs.ok(),
        ensures
            r.ok(),
            r.lift@ == self.lift@ - rhs.lift@,
    {
        proof {
            M::lemma_modulus();
            lemma_congruent_ops(self.value@, self.lift@, rhs.value@, rhs.lift@, M::p());
            lemma_congruent_mod(self.value@ - rhs.value@, M::p());
        }
        Lifted { value: self.value.sub(rhs.value), lift: Ghost(self.lift@ - rhs.lift@) }
    }

    pub(crate) fn times(self, rhs: Self) -> (r: Self)
        requires
            self.ok(),
            rhs.ok(),
        ensures
            r.ok(),
            r.lift@ == self.lift@ * rhs.lift@,
    {
        proof {
            M::lemma_modulus();
            lemma_congruent_ops(self.value@, self.lift@, rhs.value@, rhs.lift@, M::p());
            lemma_congruent_mod(self.value@ * rhs.value@, M::p());
        }
        Lifted { value: self.value.mul(rhs.value), lift: Ghost(self.lift@ * rhs.lift@) }
    }

    pub(crate) fn square(self) -> (r: Self)
        requires
            self.ok(),
        ensures
            r.ok(),
            r.lift@ == self.lift@ * self.lift@,
    {
        self.times(self)
    }

    pub(crate) fn double(self) -> (r: Self)
        requires
            self.ok(),
        ensures
            r.ok(),
            r.lift@ == 2 * self.lift@,
    {
        let r = self.plus(self);
        r
    }
}

} // verus!

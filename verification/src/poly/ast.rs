//! Expressions over the polynomials of an evaluator.
use crate::field::{Fe, Modulus};
use std::sync::Arc;
use vstd::prelude::*;

verus! {

/// A number of rows to rotate a polynomial by.
#[derive(Clone, Copy, Debug, PartialEq, Eq, Structural)]
pub struct Rotation(pub i32);

impl Rotation {
    /// No rotation.
    pub fn cur() -> (r: Self)
        ensures
            r.0 == 0,
    {
        Rotation(0)
    }

    /// The rotation to the previous row.
    pub fn prev() -> (r: Self)
        ensures
            r.0 == -1,
    {
        Rotation(-1)
    }

    /// The rotation to the next row.
    pub fn next() -> (r: Self)
        ensures
            r.0 == 1,
    {
        Rotation(1)
    }
}

/// A reference to a polynomial registered with an evaluator, at a rotation.
#[derive(Clone, Copy, Debug, PartialEq, Eq, Structural)]
pub struct AstLeaf {
    /// The position of the polynomial in the evaluator.
    pub index: usize,
    /// The rotation of the reference.
    pub rotation: Rotation,
}

impl AstLeaf {
    /// The same polynomial at a new rotation; the rotation of this reference is ignored.
    pub fn with_rotation(&self, rotation: Rotation) -> (r: Self)
        ensures
            r.index == self.index,
            r.rotation == rotation,
    {
        AstLeaf { index: self.index, rotation }
    }
}

/// A polynomial operation backed by an evaluator.
#[derive(Debug)]
pub enum Ast<M: Modulus> {
    /// A registered polynomial.
    Poly(AstLeaf),
    /// A sum.
    Add(Arc<Ast<M>>, Arc<Ast<M>>),
    /// A product of values.
    Mul(Arc<Ast<M>>, Arc<Ast<M>>),
    /// A multiple by a field element.
    Scale(Arc<Ast<M>>, Fe<M>),
    /// A linear combination of nodes with the powers of a field element, from the highest power
    /// to the lowest.
    DistributePowers(Arc<Vec<Ast<M>>>, Fe<M>),
    /// The degree-one term of a polynomial, by its coefficient in the standard basis.
    LinearTerm(Fe<M>),
    /// The degree-zero term of a polynomial.
    ConstantTerm(Fe<M>),
}

/// The value that a shared pointer points to.
pub open spec fn target<T>(node: Arc<T>) -> T {
    *node
}

/// Another pointer to the shared node, by `Arc::clone`: the clone points to the same value.
#[verifier::external_body]
pub(crate) fn share<T>(node: &Arc<T>) -> (r: Arc<T>)
    ensures
        r == *node,
{
    Arc::clone(node)
}

impl<M: Modulus> Clone for Ast<M> {
    fn clone(&self) -> (r: Self)
        ensures
            r == *self,
    {
        match self {
            Ast::Poly(leaf) => Ast::Poly(*leaf),
            Ast::Add(a, b) => Ast::Add(share(a), share(b)),
            Ast::Mul(a, b) => Ast::Mul(share(a), share(b)),
            Ast::Scale(a, scalar) => Ast::Scale(share(a), *scalar),
            Ast::DistributePowers(terms, base) => Ast::DistributePowers(share(terms), *base),
            Ast::LinearTerm(scalar) => Ast::LinearTerm(*scalar),
            Ast::ConstantTerm(scalar) => Ast::ConstantTerm(*scalar),
        }
    }
}

impl<M: Modulus> Ast<M> {
    /// The linear combination of `terms` with the powers of `base`, from the highest power to
    /// the lowest.
    pub fn distribute_powers(terms: Vec<Ast<M>>, base: Fe<M>) -> (r: Self)
        ensures
            r matches Ast::DistributePowers(t, b) && t@ == terms@ && b == base,
    {
        Ast::DistributePowers(Arc::new(terms), base)
    }

    /// The constant one.
    pub fn one() -> (r: Self)
        ensures
            r matches Ast::ConstantTerm(c) && c@ == 1,
    {
        Ast::ConstantTerm(Fe::one())
    }

    /// The negation, as a multiple by minus one.
    pub fn neg(self) -> (r: Self)
        ensures
            r matches Ast::Scale(a, s) && *a == self && s@ == M::p() - 1,
    {
        let minus_one = Fe::<M>::one().neg();
        proof {
            M::lemma_modulus();
            vstd::arithmetic::div_mod::lemma_small_mod((M::p() - 1) as nat, M::p() as nat);
            vstd::arithmetic::div_mod::lemma_mod_add_multiples_vanish(-1, M::p());
        }
        Ast::Scale(Arc::new(self), minus_one)
    }

    /// The sum.
    pub fn add(self, other: Self) -> (r: Self)
        ensures
            r matches Ast::Add(a, b) && *a == self && *b == other,
    {
        Ast::Add(Arc::new(self), Arc::new(other))
    }

    /// The difference, as the sum with a negation.
    pub fn sub(self, other: Self) -> (r: Self)
        ensures
            r matches Ast::Add(a, b) && *a == self && (*b matches Ast::Scale(c, s) && *c == other
                && s@ == M::p() - 1),
    {
        self.add(other.neg())
    }

    /// The product of values.
    pub fn mul(self, other: Self) -> (r: Self)
        ensures
            r matches Ast::Mul(a, b) && *a == self && *b == other,
    {
        Ast::Mul(Arc::new(self), Arc::new(other))
    }

    /// The multiple by a field element.
    pub fn scale(self, scalar: Fe<M>) -> (r: Self)
        ensures
            r matches Ast::Scale(a, s) && *a == self && s == scalar,
    {
        Ast::Scale(Arc::new(self), scalar)
    }
}

impl<M: Modulus> From<AstLeaf> for Ast<M> {
    fn from(leaf: AstLeaf) -> (r: Self) {
        Ast::Poly(leaf)
    }
}

impl<M: Modulus> vstd::std_specs::convert::FromSpecImpl<AstLeaf> for Ast<M> {
    open spec fn obeys_from_spec() -> bool {
        true
    }

    open spec fn from_spec(leaf: AstLeaf) -> Self {
        Ast::Poly(leaf)
    }
}

/// What an expression reads at one row: the values of the registered polynomials and of the
/// degree-one and degree-zero terms.
pub struct Row {
    /// The value of a registered polynomial at a rotation.
    pub leaf: spec_fn(AstLeaf) -> int,
    /// The value of the degree-one term with a given coefficient.
    pub linear: spec_fn(int) -> int,
    /// The value of the degree-zero term with a given coefficient.
    pub constant: spec_fn(int) -> int,
}

impl Row {
    /// The degree-zero term with coefficient zero has the value zero.
    pub open spec fn zero_constant(self) -> bool {
        (self.constant)(0) == 0
    }

    /// Every degree-zero term has its coefficient as its value.
    pub open spec fn pointwise(self) -> bool {
        forall|s: int| #[trigger] (self.constant)(s) == s
    }
}

impl<M: Modulus> Ast<M> {
    /// The value of the expression at a row, as an integer that stands for its residue.
    pub open spec fn value(self, row: Row) -> int
        decreases self,
    {
        match self {
            Ast::Poly(leaf) => (row.leaf)(leaf),
            Ast::Add(a, b) => a.value(row) + b.value(row),
            Ast::Mul(a, b) => a.value(row) * b.value(row),
            Ast::Scale(a, scalar) => a.value(row) * scalar@,
            Ast::DistributePowers(terms, base) => Self::terms_value(terms@, base@, row),
            Ast::LinearTerm(scalar) => (row.linear)(scalar@),
            Ast::ConstantTerm(scalar) => (row.constant)(scalar@),
        }
    }

    /// The value of a linear combination, by Horner's rule over the powers of `base`.
    pub open spec fn terms_value(terms: Seq<Ast<M>>, base: int, row: Row) -> int
        decreases terms,
    {
        if terms.len() == 0 {
            0
        } else {
            Self::terms_value(terms.drop_last(), base, row) * base + terms.last().value(row)
        }
    }

    /// The expression holds no product of values.
    pub open spec fn product_free(self) -> bool
        decreases self,
    {
        match self {
            Ast::Add(a, b) => a.product_free() && b.product_free(),
            Ast::Mul(a, b) => false,
            Ast::Scale(a, scalar) => a.product_free(),
            Ast::DistributePowers(terms, base) => Self::terms_product_free(terms@),
            _ => true,
        }
    }

    /// No term holds a product of values.
    pub open spec fn terms_product_free(terms: Seq<Ast<M>>) -> bool
        decreases terms,
    {
        if terms.len() == 0 {
            true
        } else {
            Self::terms_product_free(terms.drop_last()) && terms.last().product_free()
        }
    }

    /// Every leaf of the expression satisfies a predicate.
    pub open spec fn leaves(self, f: spec_fn(AstLeaf) -> bool) -> bool
        decreases self,
    {
        match self {
            Ast::Poly(leaf) => f(leaf),
            Ast::Add(a, b) => a.leaves(f) && b.leaves(f),
            Ast::Mul(a, b) => a.leaves(f) && b.leaves(f),
            Ast::Scale(a, scalar) => a.leaves(f),
            Ast::DistributePowers(terms, base) => Self::terms_leaves(terms@, f),
            _ => true,
        }
    }

    /// Every leaf of every term satisfies a predicate.
    pub open spec fn terms_leaves(terms: Seq<Ast<M>>, f: spec_fn(AstLeaf) -> bool) -> bool
        decreases terms,
    {
        if terms.len() == 0 {
            true
        } else {
            Self::terms_leaves(terms.drop_last(), f) && terms.last().leaves(f)
        }
    }
}

} // verus!

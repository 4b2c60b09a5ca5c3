//! Scalars in recoded form.
use crate::curve::law::order;
use crate::curve::Group;
use crate::field::congruence::{congruent, lemma_congruent_mod, lemma_congruent_ops};
use crate::field::{Fe, Modulus};
use crate::glv::decompose::{decompose, signed};
use crate::glv::digits::{
    digit_scalar, digit_value, digits_value, is_sparse, joint_digits, MAX_JOINT_DIGITS,
};
use crate::glv::params::GlvParams;
use std::marker::PhantomData;
use vstd::arithmetic::div_mod::lemma_small_mod;
use vstd::prelude::*;

verus! {

/// The value of a digit as a scalar of the curve.
pub open spec fn digit_of<C: Group>(code: int) -> int {
    digit_value(code, <C::Scalar as Modulus>::cube_root())
}

/// The value of the digits from position `i` on as a scalar of the curve.
pub open spec fn suffix_of<C: Group>(digits: Seq<u8>, i: int) -> int {
    digits_value(digits.skip(i), <C::Scalar as Modulus>::cube_root())
}

/// The digits from position `i` on are the digit at `i` and twice the digits after it.
pub proof fn lemma_suffix<C: Group>(digits: Seq<u8>, i: int)
    requires
        0 <= i < digits.len(),
    ensures
        suffix_of::<C>(digits, i) == digit_of::<C>(digits[i] as int) + 2 * suffix_of::<C>(
            digits,
            i + 1,
        ),
{
    assert(digits.skip(i).drop_first() =~= digits.skip(i + 1));
    assert(digits.skip(i)[0] == digits[i]);
}

/// Nothing is left after the last digit.
pub proof fn lemma_suffix_end<C: Group>(digits: Seq<u8>)
    ensures
        suffix_of::<C>(digits, digits.len() as int) == 0,
        suffix_of::<C>(digits, 0) == digits_value(digits, <C::Scalar as Modulus>::cube_root()),
{
    assert(digits.skip(digits.len() as int) =~= Seq::empty());
    assert(digits.skip(0) =~= digits);
}

/// Doubling `s` and adding `d` meets no exceptional case of the affine formulas.
pub open spec fn is_column_safe(s: int, d: int, n: int) -> bool {
    !congruent(d, s, n) && !congruent(d, -s, n) && !congruent(d, -2 * s, n)
}

/// No column of the ladder meets an exceptional case of the affine formulas.
pub open spec fn is_schedule_safe<C: Group>(digits: Seq<u8>) -> bool {
    forall|i: int|
        0 <= i < digits.len() - 1 && #[trigger] digits[i] != 0 ==> is_column_safe(
            suffix_of::<C>(digits, i + 1),
            digit_of::<C>(digits[i] as int),
            order::<C>(),
        )
}

/// Whether no column of the ladder meets an exceptional case of the affine formulas.
pub fn affine_ladder_safe<C: Group>(digits: &Vec<u8>) -> (r: bool)
    requires
        digits@.len() > 0,
        forall|i: int| 0 <= i < digits@.len() ==> #[trigger] digits@[i] <= 48,
        digits@.last() != 0,
    ensures
        r == is_schedule_safe::<C>(digits@),
{
    let ghost n = order::<C>();
    let mut i: usize = digits.len() - 1;
    let mut s: Fe<C::Scalar> = digit_scalar(digits[i]);
    proof {
        <C::Scalar as Modulus>::lemma_modulus();
        lemma_suffix::<C>(digits@, i as int);
        lemma_suffix_end::<C>(digits@);
        lemma_congruent_mod(digit_of::<C>(digits@[i as int] as int), n);
    }
    while i > 0
        invariant
            n == order::<C>(),
            n > 1,
            i < digits@.len(),
            forall|k: int| 0 <= k < digits@.len() ==> #[trigger] digits@[k] <= 48,
            congruent(s@, suffix_of::<C>(digits@, i as int), n),
            forall|k: int|
                i <= k < digits@.len() - 1 && #[trigger] digits@[k] != 0 ==> is_column_safe(
                    suffix_of::<C>(digits@, k + 1),
                    digit_of::<C>(digits@[k] as int),
                    n,
                ),
        decreases i,
    {
        i -= 1;
        let code = digits[i];
        let ghost t = suffix_of::<C>(digits@, i + 1);
        proof {
            <C::Scalar as Modulus>::lemma_modulus();
            lemma_suffix::<C>(digits@, i as int);
            lemma_congruent_mod(2 * s@, n);
            lemma_congruent_ops(s@, t, s@, t, n);
            assert(2 * s@ == s@ + s@ && 2 * t == t + t);
        }
        if code == 0 {
            proof {
                crate::glv::digits::lemma_zero_digit();
                assert(0 * <C::Scalar as Modulus>::cube_root() == 0);
            }
            s = s.double();
        } else {
            let d: Fe<C::Scalar> = digit_scalar(code);
            let s2 = s.double();
            let ghost v = digit_of::<C>(code as int);
            proof {
                lemma_congruent_mod(v, n);
                lemma_congruent_mod(-s@, n);
                lemma_congruent_mod(-s2@, n);
                lemma_congruent_ops(0, 0, s@, t, n);
                lemma_congruent_ops(0, 0, s2@, 2 * t, n);
                d.lemma_view();
                s.lemma_view();
                s2.lemma_view();
                lemma_small_mod(d@ as nat, n as nat);
                lemma_small_mod(s@ as nat, n as nat);
                lemma_small_mod(((-s@) % n) as nat, n as nat);
                lemma_small_mod(((-s2@) % n) as nat, n as nat);
                assert(congruent(-s@, -t, n));
                assert(congruent(-s2@, -2 * t, n));
            }
            if d.same(s) || d.same(s.neg()) || d.same(s2.neg()) {
                proof {
                    assert(!is_column_safe(t, v, n));
                    assert(digits@[i as int] != 0);
                }
                return false;
            }
            proof {
                lemma_congruent_mod(s2@ + d@, n);
                lemma_congruent_ops(s2@, 2 * t, d@, v, n);
            }
            s = s2.add(d);
        }
    }
    true
}

/// A scalar that is split in two halves and jointly recoded.
#[derive(Debug)]
pub struct Decomposed<C: Group> {
    digits: Vec<u8>,
    affine_ladder_safe: bool,
    marker: PhantomData<C>,
}

impl<C: Group> Decomposed<C> {
    #[verifier::type_invariant]
    spec fn recoded(self) -> bool {
        &&& self.digits@.len() <= MAX_JOINT_DIGITS
        &&& forall|i: int| 0 <= i < self.digits@.len() ==> #[trigger] self.digits@[i] <= 48
        &&& self.digits@.len() > 0 ==> self.digits@.last() != 0
        &&& self.affine_ladder_safe == (self.digits@.len() > 0 && is_schedule_safe::<C>(
            self.digits@,
        ))
    }

    /// The digits, lowest position first.
    pub closed spec fn digits(self) -> Seq<u8> {
        self.digits@
    }

    /// Whether batches may take the affine ladder.
    pub closed spec fn is_safe(self) -> bool {
        self.affine_ladder_safe
    }

    /// The scalar, as an integer that stands for its residue.
    pub open spec fn value(self) -> int {
        digits_value(self.digits(), <C::Scalar as Modulus>::cube_root())
    }

    /// The scalar with given digits, lowest position first.
    pub fn from_digits(digits: Vec<u8>) -> (r: Self)
        requires
            digits@.len() <= MAX_JOINT_DIGITS,
            forall|i: int| 0 <= i < digits@.len() ==> #[trigger] digits@[i] <= 48,
            digits@.len() > 0 ==> digits@.last() != 0,
        ensures
            r.digits() == digits@,
            r.is_safe() == (digits@.len() > 0 && is_schedule_safe::<C>(digits@)),
    {
        let affine_ladder_safe = digits.len() > 0 && affine_ladder_safe::<C>(&digits);
        Decomposed { digits, affine_ladder_safe, marker: PhantomData }
    }

    /// The number of digits.
    pub fn len(&self) -> (r: usize)
        ensures
            r == self.digits().len(),
            r <= MAX_JOINT_DIGITS,
            r > 0 ==> self.digits().last() != 0,
            forall|i: int| 0 <= i < r ==> #[trigger] self.digits()[i] <= 48,
    {
        proof {
            use_type_invariant(self);
        }
        self.digits.len()
    }

    /// The digit at a position.
    pub fn digit(&self, i: usize) -> (r: u8)
        requires
            i < self.digits().len(),
        ensures
            r == self.digits()[i as int],
            r <= 48,
    {
        proof {
            use_type_invariant(self);
        }
        self.digits[i]
    }

    /// Whether batches may take the affine ladder.
    pub fn safe(&self) -> (r: bool)
        ensures
            r == self.is_safe(),
            r == (self.digits().len() > 0 && is_schedule_safe::<C>(self.digits())),
    {
        proof {
            use_type_invariant(self);
        }
        self.affine_ladder_safe
    }
}

impl<C: GlvParams> Decomposed<C> {
    /// The recoding of a scalar.
    pub fn new(k: Fe<C::Scalar>) -> (r: Self)
        ensures
            congruent(r.value(), k@, order::<C>()),
            r.digits().len() <= MAX_JOINT_DIGITS,
            is_sparse(r.digits()),
            forall|i: int| 0 <= i < r.digits().len() ==> #[trigger] r.digits()[i] <= 48,
            r.digits().len() > 0 ==> r.digits().last() != 0,
            r.is_safe() == (r.digits().len() > 0 && is_schedule_safe::<C>(r.digits())),
    {
        let ((neg1, a1), (neg2, a2)) = decompose::<C>(k);
        let a: i128 = if neg1 { -(a1 as i128) } else { a1 as i128 };
        let b: i128 = if neg2 { -(a2 as i128) } else { a2 as i128 };
        assert(a == signed((neg1, a1)) && b == signed((neg2, a2)));
        let digits = joint_digits(a, b);
        Decomposed::from_digits(digits)
    }
}

} // verus!

//! What a safe schedule is: no column of the ladder adds a point to itself, to its negative or to
//! the negative of its double.
use crate::curve::law::{
    lemma_smul_add, lemma_smul_congruent, lemma_smul_injective, lemma_smul_neg,
    minus, on_curve, order, plus, smul, Pt,
};
use crate::curve::Group;
use crate::field::Modulus;
use crate::glv::digits::{coeffs, digits_value};
use crate::glv::scalar::{digit_of, is_column_safe, is_schedule_safe, suffix_of};
use vstd::prelude::*;

verus! {

/// Multiples of a point other than the neutral element are safe to double and add exactly if the
/// second is neither the first nor its negative nor the negative of its double.
pub proof fn lemma_safe_columns<C: Group>(s: int, d: int, base: Pt)
    requires
        on_curve::<C>(base),
        base != Pt::Infinity,
    ensures
        is_column_safe(s, d, order::<C>()) <==> {
            let (a, b) = (smul::<C>(s, base), smul::<C>(d, base));
            b != a && b != minus::<C>(a) && b != minus::<C>(plus::<C>(a, a))
        },
{
    let (a, b) = (smul::<C>(s, base), smul::<C>(d, base));
    lemma_smul_neg::<C>(s, base);
    lemma_smul_add::<C>(s, s, base);
    lemma_smul_neg::<C>(s + s, base);
    assert(-(s + s) == -2 * s);
    if b == a {
        lemma_smul_injective::<C>(d, s, base);
    } else if b == minus::<C>(a) {
        lemma_smul_injective::<C>(d, -s, base);
    } else if b == minus::<C>(plus::<C>(a, a)) {
        lemma_smul_injective::<C>(d, -2 * s, base);
    }
    if !is_column_safe(s, d, order::<C>()) {
        if a != b && b != minus::<C>(a) {
            lemma_smul_congruent::<C>(d, -2 * s, base);
        }
    }
}

/// A schedule is safe exactly if for any base the point of each nonzero digit but the last is
/// neither the point of the digits behind it nor its negative nor the negative of its double.
pub proof fn lemma_safe_schedules<C: Group>(digits: Seq<u8>, base: Pt)
    requires
        on_curve::<C>(base),
        base != Pt::Infinity,
    ensures
        is_schedule_safe::<C>(digits) <==> forall|i: int|
            0 <= i < digits.len() - 1 && #[trigger] digits[i] != 0 ==> {
                let z = <C::Scalar as Modulus>::cube_root();
                let (u, v) = coeffs(digits[i] as int);
                let a = smul::<C>(digits_value(digits.skip(i + 1), z), base);
                let b = smul::<C>(u + v * z, base);
                b != a && b != minus::<C>(a) && b != minus::<C>(plus::<C>(a, a))
            },
{
    assert forall|i: int| 0 <= i < digits.len() - 1 && #[trigger] digits[i] != 0 implies (
    is_column_safe(
        suffix_of::<C>(digits, i + 1),
        digit_of::<C>(digits[i] as int),
        order::<C>(),
    ) <==> {
        let z = <C::Scalar as Modulus>::cube_root();
        let (u, v) = coeffs(digits[i] as int);
        let a = smul::<C>(digits_value(digits.skip(i + 1), z), base);
        let b = smul::<C>(u + v * z, base);
        b != a && b != minus::<C>(a) && b != minus::<C>(plus::<C>(a, a))
    }) by {
        lemma_safe_columns::<C>(
            suffix_of::<C>(digits, i + 1),
            digit_of::<C>(digits[i] as int),
            base,
        );
    }
}

} // verus!

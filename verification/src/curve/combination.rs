//! Linear combinations of points.
use crate::curve::law::{
    ec_add, lemma_closed, lemma_exchange, lemma_smul_add, lemma_smul_closed,
    lemma_smul_congruent, lemma_smul_infinity, lemma_smul_mul, lemma_smul_small, lemma_smul_sum,
    on_curve, order, plus, smul, Pt,
};
use crate::curve::Group;
use crate::field::congruence::congruent;
use crate::field::Modulus;
use vstd::prelude::*;

verus! {

/// The sum of the multiples of points.
pub open spec fn combination<C: Group>(coeffs: Seq<int>, points: Seq<Pt>) -> Pt
    decreases coeffs.len(),
{
    if coeffs.len() == 0 {
        Pt::Infinity
    } else {
        plus::<C>(
            combination::<C>(coeffs.drop_last(), points),
            smul::<C>(coeffs.last(), points[coeffs.len() - 1]),
        )
    }
}

/// All points are on the curve.
pub open spec fn all_on_curve<C: Group>(points: Seq<Pt>) -> bool {
    forall|i: int| 0 <= i < points.len() ==> on_curve::<C>(#[trigger] points[i])
}

/// The coefficient-wise sum.
pub open spec fn sum_coeffs(a: Seq<int>, b: Seq<int>) -> Seq<int> {
    Seq::new(a.len(), |i: int| a[i] + b[i])
}

/// The coefficient-wise multiple.
pub open spec fn scale_coeffs(k: int, a: Seq<int>) -> Seq<int> {
    Seq::new(a.len(), |i: int| k * a[i])
}

/// A combination of points on the curve is on the curve.
pub proof fn lemma_combination_closed<C: Group>(a: Seq<int>, points: Seq<Pt>)
    requires
        all_on_curve::<C>(points),
        a.len() <= points.len(),
    ensures
        on_curve::<C>(combination::<C>(a, points)),
    decreases a.len(),
{
    if a.len() > 0 {
        lemma_combination_closed::<C>(a.drop_last(), points);
        lemma_smul_closed::<C>(a.last(), points[a.len() - 1]);
        lemma_closed::<C>(
            combination::<C>(a.drop_last(), points),
            smul::<C>(a.last(), points[a.len() - 1]),
        );
    }
}

/// Combinations add up.
pub proof fn lemma_combination_add<C: Group>(a: Seq<int>, b: Seq<int>, points: Seq<Pt>)
    requires
        all_on_curve::<C>(points),
        a.len() == b.len(),
        a.len() <= points.len(),
    ensures
        plus::<C>(combination::<C>(a, points), combination::<C>(b, points)) == combination::<C>(
            sum_coeffs(a, b),
            points,
        ),
    decreases a.len(),
{
    reveal(ec_add);
    if a.len() > 0 {
        let (x, y) = (a.drop_last(), b.drop_last());
        let p = points[a.len() - 1];
        lemma_combination_add::<C>(x, y, points);
        lemma_combination_closed::<C>(x, points);
        lemma_combination_closed::<C>(y, points);
        lemma_smul_closed::<C>(a.last(), p);
        lemma_smul_closed::<C>(b.last(), p);
        lemma_exchange::<C>(
            combination::<C>(x, points),
            smul::<C>(a.last(), p),
            combination::<C>(y, points),
            smul::<C>(b.last(), p),
        );
        lemma_smul_add::<C>(a.last(), b.last(), p);
        assert(sum_coeffs(a, b).drop_last() =~= sum_coeffs(x, y));
    }
}

/// A multiple of a combination.
pub proof fn lemma_combination_scale<C: Group>(k: int, a: Seq<int>, points: Seq<Pt>)
    requires
        all_on_curve::<C>(points),
        a.len() <= points.len(),
    ensures
        smul::<C>(k, combination::<C>(a, points)) == combination::<C>(scale_coeffs(k, a), points),
    decreases a.len(),
{
    if a.len() == 0 {
        lemma_smul_infinity::<C>(k);
    } else {
        let x = a.drop_last();
        let p = points[a.len() - 1];
        lemma_combination_scale::<C>(k, x, points);
        lemma_combination_closed::<C>(x, points);
        lemma_smul_closed::<C>(a.last(), p);
        lemma_smul_sum::<C>(k, combination::<C>(x, points), smul::<C>(a.last(), p));
        lemma_smul_mul::<C>(k, a.last(), p);
        assert(scale_coeffs(k, a).drop_last() =~= scale_coeffs(k, x));
    }
}

/// Combinations depend on the coefficients only up to congruence.
pub proof fn lemma_combination_congruent<C: Group>(a: Seq<int>, b: Seq<int>, points: Seq<Pt>)
    requires
        a.len() == b.len(),
        forall|i: int| 0 <= i < a.len() ==> congruent(#[trigger] a[i], b[i], order::<C>()),
    ensures
        combination::<C>(a, points) == combination::<C>(b, points),
    decreases a.len(),
{
    if a.len() > 0 {
        assert(congruent(a[a.len() - 1], b[a.len() - 1], order::<C>()));
        assert forall|i: int| 0 <= i < a.drop_last().len() implies congruent(
            #[trigger] a.drop_last()[i],
            b.drop_last()[i],
            order::<C>(),
        ) by {
            assert(congruent(a[i], b[i], order::<C>()));
        }
        lemma_combination_congruent::<C>(a.drop_last(), b.drop_last(), points);
        lemma_smul_congruent::<C>(a.last(), b.last(), points[a.len() - 1]);
    }
}

/// Zero coefficients give the neutral element.
pub proof fn lemma_combination_zero<C: Group>(a: Seq<int>, points: Seq<Pt>)
    requires
        all_on_curve::<C>(points),
        a.len() <= points.len(),
        forall|i: int| 0 <= i < a.len() ==> #[trigger] a[i] == 0,
    ensures
        combination::<C>(a, points) == Pt::Infinity,
    decreases a.len(),
{
    reveal(ec_add);
    if a.len() > 0 {
        lemma_combination_zero::<C>(a.drop_last(), points);
        lemma_smul_small::<C>(points[a.len() - 1]);
        assert(a[a.len() - 1] == 0);
    }
}

} // verus!

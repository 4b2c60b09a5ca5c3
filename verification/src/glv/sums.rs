//! Sums of multiples grow term by term, and butterflies give sums and differences.
use crate::curve::affine::Affine;
use crate::curve::combination::combination;
use crate::curve::law::{
    ec_add, lemma_associative, lemma_commutative, lemma_inverse_point, minus, on_curve, plus, smul,
    Pt,
};
use crate::curve::Group;
use crate::field::Fe;
use crate::glv::butterfly::{all_apart, are_proper, are_sums, is_butterfly, is_regular};
use crate::glv::decompose::signed;
use crate::glv::digits::is_sparse;
use crate::glv::multiexp::{
    affine_values, half_coeffs, half_points, scalar_values, SignedMagnitude,
};
use crate::glv::params::{two127, two128, two384};
use vstd::arithmetic::power2::{lemma_pow2_adds, pow2};
use vstd::prelude::*;

verus! {

/// Points behind the last coefficient do not count.
proof fn lemma_more_points<C: Group>(coeffs: Seq<int>, points: Seq<Pt>, more: Seq<Pt>)
    requires
        coeffs.len() <= points.len(),
    ensures
        combination::<C>(coeffs, points + more) == combination::<C>(coeffs, points),
    decreases coeffs.len(),
{
    if coeffs.len() > 0 {
        lemma_more_points::<C>(coeffs.drop_last(), points, more);
    }
}

/// A sum of no multiples is neutral, and one more scalar and point add the multiple of the point
/// by the scalar.
pub proof fn lemma_one_more_term<C: Group>(
    scalars: Seq<Fe<C::Scalar>>,
    bases: Seq<Affine<C>>,
    scalar: Fe<C::Scalar>,
    base: Affine<C>,
)
    requires
        scalars.len() == bases.len(),
    ensures
        scalars.len() == 0 ==> combination::<C>(scalar_values(scalars), affine_values(bases))
            == Pt::Infinity,
        combination::<C>(scalar_values(scalars.push(scalar)), affine_values(bases.push(base)))
            == plus::<C>(
            combination::<C>(scalar_values(scalars), affine_values(bases)),
            smul::<C>(scalar@, base@),
        ),
{
    let (k, p) = (scalar_values(scalars), affine_values(bases));
    assert(scalar_values(scalars.push(scalar)) =~= k.push(scalar@));
    assert(affine_values(bases.push(base)) =~= p + seq![base@]);
    assert(k.push(scalar@).drop_last() =~= k);
    lemma_more_points::<C>(k, p, seq![base@]);
}

/// One more pair of halves adds the multiple of the point by the first half and the multiple of
/// its image by the second.
pub proof fn lemma_one_more_pair<C: Group>(
    components: Seq<(SignedMagnitude, SignedMagnitude)>,
    bases: Seq<Affine<C>>,
    endo_bases: Seq<Affine<C>>,
    pair: (SignedMagnitude, SignedMagnitude),
    base: Affine<C>,
    endo_base: Affine<C>,
)
    requires
        components.len() == bases.len(),
        components.len() == endo_bases.len(),
    ensures
        components.len() == 0 ==> combination::<C>(
            half_coeffs(components, 0),
            half_points(bases, endo_bases),
        ) == Pt::Infinity,
        combination::<C>(
            half_coeffs(components.push(pair), 0),
            half_points(bases.push(base), endo_bases.push(endo_base)),
        ) == plus::<C>(
            plus::<C>(
                combination::<C>(half_coeffs(components, 0), half_points(bases, endo_bases)),
                smul::<C>(
                    if pair.0.negative {
                        -(pair.0.magnitude as int)
                    } else {
                        pair.0.magnitude as int
                    },
                    base@,
                ),
            ),
            smul::<C>(
                if pair.1.negative {
                    -(pair.1.magnitude as int)
                } else {
                    pair.1.magnitude as int
                },
                endo_base@,
            ),
        ),
{
    let (k, p) = (half_coeffs(components, 0), half_points(bases, endo_bases));
    let (all, points) = (
        half_coeffs(components.push(pair), 0),
        half_points(bases.push(base), endo_bases.push(endo_base)),
    );
    let n = 2 * components.len();
    assert(n as int % 2 == 0 && (n + 1) % 2 == 1 && n as int / 2 == components.len() && (n + 1) / 2
        == components.len());
    assert(all.drop_last().drop_last() =~= k);
    assert(points =~= p + seq![base@, endo_base@]);
    lemma_more_points::<C>(k, p, seq![base@, endo_base@]);
    let first = all.drop_last();
    assert(points[n as int] == base@ && points[n as int + 1] == endo_base@);
    assert(first.last() == pair.0.value() && all.last() == pair.1.value());
    assert(combination::<C>(first, points) == plus::<C>(
        combination::<C>(k, points),
        smul::<C>(pair.0.value(), base@),
    ));
}

/// A butterfly of points of the curve, which are not neutral where that is claimed, gives their
/// sum and their difference: the difference and the right point add up to the left one.
pub proof fn lemma_butterflies<C: Group>(
    left: Pt,
    right: Pt,
    sum: Pt,
    diff: Pt,
    identity_free: bool,
)
    requires
        on_curve::<C>(left),
        on_curve::<C>(right),
        identity_free ==> left != Pt::Infinity && right != Pt::Infinity,
        is_butterfly::<C>(left, right, sum, diff, identity_free),
    ensures
        sum == plus::<C>(left, right),
        plus::<C>(diff, right) == left,
{
    lemma_taken_away::<C>(left, right);
}

proof fn lemma_taken_away<C: Group>(a: Pt, b: Pt)
    requires
        on_curve::<C>(a),
        on_curve::<C>(b),
    ensures
        plus::<C>(plus::<C>(a, minus::<C>(b)), b) == a,
{
    C::lemma_group();
    lemma_inverse_point::<C>(b);
    lemma_associative::<C>(a, minus::<C>(b), b);
    lemma_commutative::<C>(b, minus::<C>(b));
    reveal(ec_add);
}

/// The same of lists of pairs.
pub proof fn lemma_pairs_of_sums<C: Group>(
    left: Seq<Affine<C>>,
    right: Seq<Affine<C>>,
    sums: Seq<Affine<C>>,
    differences: Seq<Affine<C>>,
    identity_free: bool,
    i: int,
)
    requires
        are_sums(left, right, sums, differences, identity_free),
        0 <= i < left.len(),
        on_curve::<C>(left[i]@),
        on_curve::<C>(right[i]@),
        identity_free ==> left[i]@ != Pt::Infinity && right[i]@ != Pt::Infinity,
    ensures
        sums[i]@ == plus::<C>(left[i]@, right[i]@),
        plus::<C>(differences[i]@, right[i]@) == left[i]@,
        sums.len() == differences.len() == left.len(),
        all_apart(left, right) <==> forall|k: int|
            0 <= k < left.len() ==> (#[trigger] left[k]).x@ != right[k].x@,
{
    lemma_taken_away::<C>(left[i]@, right[i]@);
    assert(are_proper::<C>(left[i]@, right[i]@, identity_free));
}

/// A step of a layer is regular exactly where the first coordinates differ and, unless it is claimed
/// that no point is neutral, neither is.
pub proof fn lemma_regular_steps<C: Group>(left: Affine<C>, right: Affine<C>, identity_free: bool)
    ensures
        is_regular(left, right, identity_free) <==> left.x@ != right.x@ && (identity_free || left@
            != Pt::Infinity && right@ != Pt::Infinity),
{
}

/// The halves of a scalar have the sign that they are given with.
pub proof fn lemma_signs(magnitude: u128)
    ensures
        signed((false, magnitude)) == magnitude,
        signed((true, magnitude)) + magnitude == 0,
        two127() == pow2(127),
        two128() == pow2(128),
        two384() == pow2(384),
{
    vstd::arithmetic::power2::lemma2_to64();
    vstd::arithmetic::power2::lemma2_to64_rest();
    lemma_pow2_adds(64, 63);
    lemma_pow2_adds(64, 64);
    lemma_pow2_adds(128, 128);
    lemma_pow2_adds(256, 128);
    assert(0x100000000000000000000000000000000int * 0x100000000000000000000000000000000int == 0x10000000000000000000000000000000000000000000000000000000000000000int) by (nonlinear_arith);
    assert(0x10000000000000000000000000000000000000000000000000000000000000000int * 0x100000000000000000000000000000000int == 0x1000000000000000000000000000000000000000000000000000000000000000000000000000000000000000000000000int) by (nonlinear_arith);
}

/// Digits are sparse exactly if among any three in a row at most one is not zero.
pub proof fn lemma_sparse_digits(digits: Seq<u8>)
    ensures
        is_sparse(digits) <==> forall|i: int|
            0 <= i < digits.len() && #[trigger] digits[i] != 0 ==> (i + 1 < digits.len()
                ==> digits[i + 1] == 0) && (i + 2 < digits.len() ==> digits[i + 2] == 0),
{
    if forall|i: int|
        0 <= i < digits.len() && #[trigger] digits[i] != 0 ==> (i + 1 < digits.len()
            ==> digits[i + 1] == 0) && (i + 2 < digits.len() ==> digits[i + 2] == 0) {
        assert forall|i: int, j: int|
            0 <= i < j < digits.len() && j <= i + 2 && #[trigger] digits[i] != 0 implies
            #[trigger] digits[j] == 0 by {
            assert(j == i + 1 || j == i + 2);
        }
    }
}

} // verus!

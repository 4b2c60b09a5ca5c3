//! The sixteen-point transform with fourteen multiplications.
use crate::curve::combination::{
    all_on_curve, combination, lemma_combination_closed, lemma_combination_congruent,
    lemma_combination_scale, scale_coeffs,
};
use crate::curve::law::{
    ec_add, lemma_associative, lemma_closed, lemma_exchange, lemma_inverse_point,
    lemma_smul_closed, lemma_smul_mul, lemma_smul_neg, lemma_smul_small, lemma_smul_sum, minus,
    on_curve, order, plus, smul, Pt,
};
use crate::curve::Group;
use crate::field::congruence::{congruent, lemma_congruent_ops};
use crate::field::Modulus;
use crate::glv::butterfly::difference;
use crate::glv::dft::{
    dft8, dft_at, dft_coeffs, evens, is_root8, lemma_dft8, lemma_pow_one, lemma_pow_square,
    lemma_regroup, lemma_shared, lemma_split, odds,
};
use vstd::arithmetic::power::{
    lemma_pow0, lemma_pow1, lemma_pow_adds, lemma_pow_multiplies, pow,
};
use vstd::prelude::*;

verus! {

spec fn sum_points<C: Group>(a: Seq<Pt>, b: Seq<Pt>) -> Seq<Pt> {
    Seq::new(a.len(), |i: int| plus::<C>(a[i], b[i]))
}

spec fn neg_points<C: Group>(a: Seq<Pt>) -> Seq<Pt> {
    Seq::new(a.len(), |i: int| minus::<C>(a[i]))
}

/// Combinations with the same coefficients add up.
proof fn lemma_combination_points<C: Group>(c: Seq<int>, a: Seq<Pt>, b: Seq<Pt>)
    requires
        all_on_curve::<C>(a),
        all_on_curve::<C>(b),
        a.len() == b.len(),
        c.len() <= a.len(),
    ensures
        plus::<C>(combination::<C>(c, a), combination::<C>(c, b)) == combination::<C>(
            c,
            sum_points::<C>(a, b),
        ),
    decreases c.len(),
{
    if c.len() == 0 {
        reveal(ec_add);
    } else {
        let k = c.len() - 1;
        lemma_combination_points::<C>(c.drop_last(), a, b);
        lemma_combination_closed::<C>(c.drop_last(), a);
        lemma_combination_closed::<C>(c.drop_last(), b);
        lemma_smul_closed::<C>(c.last(), a[k]);
        lemma_smul_closed::<C>(c.last(), b[k]);
        lemma_exchange::<C>(
            combination::<C>(c.drop_last(), a),
            smul::<C>(c.last(), a[k]),
            combination::<C>(c.drop_last(), b),
            smul::<C>(c.last(), b[k]),
        );
        lemma_smul_sum::<C>(c.last(), a[k], b[k]);
    }
}

/// Negated coefficients and negated points give the same combination.
proof fn lemma_combination_neg<C: Group>(c: Seq<int>, a: Seq<Pt>)
    requires
        all_on_curve::<C>(a),
        c.len() <= a.len(),
    ensures
        combination::<C>(scale_coeffs(-1, c), a) == combination::<C>(c, neg_points::<C>(a)),
    decreases c.len(),
{
    if c.len() > 0 {
        let k = c.len() - 1;
        lemma_combination_neg::<C>(c.drop_last(), a);
        assert(scale_coeffs(-1, c).drop_last() =~= scale_coeffs(-1, c.drop_last()));
        assert(on_curve::<C>(a[k]));
        lemma_smul_small::<C>(a[k]);
        lemma_smul_mul::<C>(c.last(), -1, a[k]);
        assert(c.last() * (-1) == -1 * c.last());
    }
}

/// A combination is the sum of its first and its second half.
proof fn lemma_halves_of<C: Group>(c: Seq<int>, points: Seq<Pt>, h: int)
    requires
        all_on_curve::<C>(points),
        0 <= h <= c.len(),
        c.len() <= points.len(),
    ensures
        combination::<C>(c, points) == plus::<C>(
            combination::<C>(c.take(h), points.take(h)),
            combination::<C>(c.skip(h), points.skip(h)),
        ),
    decreases c.len(),
{
    let (low, high) = (points.take(h), points.skip(h));
    if c.len() == h {
        assert(c.take(h) =~= c);
        assert(c.skip(h) =~= Seq::empty());
        reveal(ec_add);
        lemma_combination_prefix::<C>(c, points, h);
    } else {
        let k = c.len() - 1;
        let d = c.drop_last();
        lemma_halves_of::<C>(d, points, h);
        assert(d.take(h) =~= c.take(h));
        assert(c.skip(h).drop_last() =~= d.skip(h));
        assert(c.skip(h).last() == c.last() && high[k - h] == points[k]);
        assert(all_on_curve::<C>(low)) by {
            assert forall|i: int| 0 <= i < low.len() implies on_curve::<C>(#[trigger] low[i]) by {
                assert(on_curve::<C>(points[i]));
            }
        }
        assert(all_on_curve::<C>(high)) by {
            assert forall|i: int| 0 <= i < high.len() implies on_curve::<C>(#[trigger] high[i]) by {
                assert(on_curve::<C>(points[i + h]));
            }
        }
        lemma_combination_closed::<C>(c.take(h), low);
        lemma_combination_closed::<C>(d.skip(h), high);
        lemma_smul_closed::<C>(c.last(), points[k]);
        lemma_associative::<C>(
            combination::<C>(c.take(h), low),
            combination::<C>(d.skip(h), high),
            smul::<C>(c.last(), points[k]),
        );
    }
}

/// A combination depends only on the points that have coefficients.
proof fn lemma_combination_prefix<C: Group>(c: Seq<int>, points: Seq<Pt>, h: int)
    requires
        c.len() <= h <= points.len(),
    ensures
        combination::<C>(c, points) == combination::<C>(c, points.take(h)),
    decreases c.len(),
{
    if c.len() > 0 {
        lemma_combination_prefix::<C>(c.drop_last(), points, h);
    }
}

/// The sums of the points at distance `h`.
pub open spec fn folded_sums<C: Group>(points: Seq<Pt>, h: int) -> Seq<Pt> {
    Seq::new(h as nat, |j: int| plus::<C>(points[j], points[j + h]))
}

/// The differences of the points at distance `h`.
pub open spec fn folded_differences<C: Group>(points: Seq<Pt>, h: int) -> Seq<Pt> {
    Seq::new(h as nat, |j: int| difference::<C>(points[j], points[j + h]))
}

/// The coefficients of an odd output on the folded differences.
pub open spec fn odd_coeffs(m: nat, r: int, k: int) -> Seq<int> {
    Seq::new(m, |j: int| pow(r, ((2 * k + 1) * j) as nat))
}

/// The even outputs of a transform are the transform of the folded sums.
proof fn lemma_fold_even<C: Group>(points: Seq<Pt>, r: int, k: int, h: nat)
    requires
        all_on_curve::<C>(points),
        points.len() == 2 * h,
        congruent(pow(r, h), -1, order::<C>()),
        0 <= k,
    ensures
        dft_at::<C>(points, r, 2 * k) == dft_at::<C>(folded_sums::<C>(points, h as int), r * r, k),
{
    <C::Scalar as Modulus>::lemma_modulus();
    let n = order::<C>();
    let c = dft_coeffs(2 * h, r, 2 * k);
    let half = dft_coeffs(h, r * r, k);
    let (low, high) = (points.take(h as int), points.skip(h as int));
    lemma_halves_of::<C>(c, points, h as int);
    let x = pow(r, h);
    lemma_congruent_ops(x, -1, x, -1, n);
    assert((-1) * (-1) == 1int);
    lemma_pow_adds(r, h, h);
    lemma_pow_one(x * x, k as nat, n);
    lemma_pow_multiplies(r, h + h, k as nat);
    assert((h + h) * k == 2 * k * h && 2 * k * h >= 0) by (nonlinear_arith)
        requires
            k >= 0,
            h >= 0,
    ;
    assert forall|j: int|
        #![trigger c.take(h as int)[j]]
        #![trigger c.skip(h as int)[j]]
        0 <= j < h implies congruent(c.take(h as int)[j], half[j], n) && congruent(
        c.skip(h as int)[j],
        half[j],
        n,
    ) by {
        assert((2 * k) * j == 2 * (k * j) && k * j >= 0) by (nonlinear_arith)
            requires
                k >= 0,
                j >= 0,
        ;
        lemma_pow_square(r, (k * j) as nat);
        assert((2 * k) * (j + h) == (2 * k) * j + 2 * k * h) by (nonlinear_arith);
        lemma_pow_adds(r, ((2 * k) * j) as nat, (2 * k * h) as nat);
        lemma_congruent_ops(half[j], half[j], pow(r, (2 * k * h) as nat), 1, n);
        assert(half[j] * 1 == half[j]);
    }
    lemma_combination_congruent::<C>(c.take(h as int), half, low);
    lemma_combination_congruent::<C>(c.skip(h as int), half, high);
    lemma_on_curve_parts::<C>(points, h as int);
    lemma_combination_points::<C>(half, low, high);
    assert(sum_points::<C>(low, high) =~= folded_sums::<C>(points, h as int));
}

proof fn lemma_on_curve_parts<C: Group>(points: Seq<Pt>, h: int)
    requires
        all_on_curve::<C>(points),
        0 <= h <= points.len(),
    ensures
        all_on_curve::<C>(points.take(h)),
        all_on_curve::<C>(points.skip(h)),
        all_on_curve::<C>(neg_points::<C>(points.skip(h))),
{
    assert forall|i: int| 0 <= i < h implies on_curve::<C>(#[trigger] points.take(h)[i]) by {
        assert(on_curve::<C>(points[i]));
    }
    let high = points.skip(h);
    assert forall|i: int| 0 <= i < high.len() implies on_curve::<C>(#[trigger] high[i]) by {
        assert(on_curve::<C>(points[i + h]));
    }
    let neg = neg_points::<C>(high);
    assert forall|i: int| 0 <= i < neg.len() implies on_curve::<C>(#[trigger] neg[i]) by {
        assert(on_curve::<C>(high[i]));
        lemma_inverse_point::<C>(high[i]);
    }
}

/// The odd outputs of a transform are combinations of the folded differences.
proof fn lemma_fold_odd<C: Group>(points: Seq<Pt>, r: int, k: int, h: nat)
    requires
        all_on_curve::<C>(points),
        points.len() == 2 * h,
        congruent(pow(r, h), -1, order::<C>()),
        0 <= k,
    ensures
        dft_at::<C>(points, r, 2 * k + 1) == combination::<C>(
            odd_coeffs(h, r, k),
            folded_differences::<C>(points, h as int),
        ),
{
    <C::Scalar as Modulus>::lemma_modulus();
    let n = order::<C>();
    let e = 2 * k + 1;
    let c = dft_coeffs(2 * h, r, e);
    let half = odd_coeffs(h, r, k);
    let (low, high) = (points.take(h as int), points.skip(h as int));
    lemma_halves_of::<C>(c, points, h as int);
    let x = pow(r, h);
    lemma_congruent_ops(x, -1, x, -1, n);
    assert((-1) * (-1) == 1int);
    lemma_pow_adds(r, h, h);
    lemma_pow_one(x * x, k as nat, n);
    lemma_pow_multiplies(r, h + h, k as nat);
    assert((h + h) * k == 2 * k * h && 2 * k * h >= 0 && e * h == 2 * k * h + h)
        by (nonlinear_arith)
        requires
            k >= 0,
            h >= 0,
            e == 2 * k + 1,
    ;
    lemma_pow_adds(r, (2 * k * h) as nat, h);
    lemma_congruent_ops(pow(r, (2 * k * h) as nat), 1, x, -1, n);
    assert(congruent(pow(r, (e * h) as nat), -1, n));
    let neg = scale_coeffs(-1, half);
    assert forall|j: int|
        #![trigger c.take(h as int)[j]]
        #![trigger c.skip(h as int)[j]]
        0 <= j < h implies c.take(h as int)[j] == half[j] && congruent(
        c.skip(h as int)[j],
        neg[j],
        n,
    ) by {
        assert(e * (j + h) == e * j + e * h && e * j >= 0) by (nonlinear_arith)
            requires
                e >= 0,
                j >= 0,
        ;
        lemma_pow_adds(r, (e * j) as nat, (e * h) as nat);
        lemma_congruent_ops(half[j], half[j], pow(r, (e * h) as nat), -1, n);
        assert(half[j] * (-1) == -1 * half[j]);
    }
    assert(c.take(h as int) =~= half);
    lemma_combination_congruent::<C>(c.skip(h as int), neg, high);
    lemma_on_curve_parts::<C>(points, h as int);
    lemma_combination_neg::<C>(half, high);
    lemma_combination_points::<C>(half, low, neg_points::<C>(high));
    assert(sum_points::<C>(low, neg_points::<C>(high)) =~= folded_differences::<C>(
        points,
        h as int,
    ));
}

/// The four odd outputs on four points: `e0 + r^(2k+1) e1 + r^(4k+2) e2 + r^(6k+3) e3`.
pub open spec fn odd4<C: Group>(e: Seq<Pt>, i: int, c: int, d: int) -> Seq<Pt> {
    let y = smul::<C>(i, e[2]);
    let (u, v) = (plus::<C>(e[0], y), difference::<C>(e[0], y));
    let (x, z) = (
        smul::<C>(c, plus::<C>(e[1], e[3])),
        smul::<C>(d, difference::<C>(e[1], e[3])),
    );
    let (f, g) = (plus::<C>(x, z), difference::<C>(x, z));
    seq![
        plus::<C>(u, f),
        plus::<C>(v, g),
        difference::<C>(u, f),
        difference::<C>(v, g),
    ]
}

/// A combination of four points, regrouped.
proof fn lemma_four<C: Group>(c: Seq<int>, e: Seq<Pt>)
    requires
        all_on_curve::<C>(e),
        e.len() == 4,
        c.len() == 4,
    ensures
        combination::<C>(c, e) == plus::<C>(
            plus::<C>(smul::<C>(c[0], e[0]), smul::<C>(c[2], e[2])),
            plus::<C>(smul::<C>(c[1], e[1]), smul::<C>(c[3], e[3])),
        ),
{
    reveal_with_fuel(combination, 5);
    assert(on_curve::<C>(e[0]) && on_curve::<C>(e[1]) && on_curve::<C>(e[2]) && on_curve::<C>(e[3]));
    lemma_smul_closed::<C>(c[0], e[0]);
    lemma_smul_closed::<C>(c[1], e[1]);
    lemma_smul_closed::<C>(c[2], e[2]);
    lemma_smul_closed::<C>(c[3], e[3]);
    let (p, q, r, s) = (
        smul::<C>(c[0], e[0]),
        smul::<C>(c[1], e[1]),
        smul::<C>(c[2], e[2]),
        smul::<C>(c[3], e[3]),
    );
    let c3 = c.drop_last();
    let c2 = c3.drop_last();
    let c1 = c2.drop_last();
    assert(c1.drop_last() =~= Seq::empty());
    assert(combination::<C>(c1, e) == p) by {
        reveal(ec_add);
        assert(combination::<C>(c1.drop_last(), e) == Pt::Infinity);
    }
    assert(combination::<C>(c2, e) == plus::<C>(p, q));
    assert(combination::<C>(c3, e) == plus::<C>(plus::<C>(p, q), r));
    lemma_regroup::<C>(p, q, r, s);
}

/// The powers of an eighth root of one.
proof fn lemma_root_powers(r: int, i: int, n: int)
    requires
        n > 1,
        congruent(i, r * r, n),
        congruent(i * i, -1, n),
    ensures
        pow(r, 0) == 1,
        pow(r, 1) == r,
        congruent(pow(r, 2), i, n),
        congruent(pow(r, 3), i * r, n),
        congruent(pow(r, 5), -r, n),
        congruent(pow(r, 6), -i, n),
        congruent(pow(r, 7), -(i * r), n),
        congruent(pow(r, 8), 1, n),
        congruent(pow(r, 9), r, n),
        congruent(pow(r, 10), i, n),
        congruent(pow(r, 14), -i, n),
        congruent(pow(r, 15), -(i * r), n),
        congruent(pow(r, 21), -r, n),
{
    lemma_pow0(r);
    lemma_pow1(r);
    lemma_pow_adds(r, 1, 1);
    lemma_pow_adds(r, 2, 1);
    lemma_pow_adds(r, 2, 2);
    lemma_pow_adds(r, 4, 1);
    lemma_pow_adds(r, 4, 2);
    lemma_pow_adds(r, 4, 3);
    lemma_pow_adds(r, 4, 4);
    lemma_pow_adds(r, 8, 1);
    lemma_pow_adds(r, 8, 2);
    lemma_pow_adds(r, 8, 6);
    lemma_pow_adds(r, 8, 7);
    lemma_pow_adds(r, 8, 8);
    lemma_pow_adds(r, 16, 5);
    let (r2, r3, r4, r8) = (pow(r, 2), pow(r, 3), pow(r, 4), pow(r, 8));
    lemma_congruent_ops(r2, i, r, r, n);
    lemma_congruent_ops(r2, i, r2, i, n);
    assert(congruent(r4, -1, n));
    lemma_congruent_ops(r4, -1, r, r, n);
    lemma_congruent_ops(r4, -1, r2, i, n);
    lemma_congruent_ops(r4, -1, r3, i * r, n);
    lemma_congruent_ops(r4, -1, r4, -1, n);
    assert((-1) * (-1) == 1int && (-1) * r == -r && (-1) * i == -i && (-1) * (i * r) == -(i * r))
        by (nonlinear_arith);
    lemma_congruent_ops(r8, 1, r, r, n);
    lemma_congruent_ops(r8, 1, r2, i, n);
    lemma_congruent_ops(r8, 1, pow(r, 6), -i, n);
    lemma_congruent_ops(r8, 1, pow(r, 7), -(i * r), n);
    lemma_congruent_ops(r8, 1, r8, 1, n);
    lemma_congruent_ops(pow(r, 16), 1, pow(r, 5), -r, n);
    assert(1 * r == r && 1 * i == i && 1 * (-i) == -i && 1 * (-(i * r)) == -(i * r) && 1 * (-r)
        == -r);
}

/// The negative of a sum.
proof fn lemma_neg_sum<C: Group>(a: Pt, b: Pt)
    requires
        on_curve::<C>(a),
        on_curve::<C>(b),
    ensures
        minus::<C>(plus::<C>(a, b)) == plus::<C>(minus::<C>(a), minus::<C>(b)),
{
    lemma_closed::<C>(a, b);
    lemma_smul_small::<C>(plus::<C>(a, b));
    lemma_smul_small::<C>(a);
    lemma_smul_small::<C>(b);
    lemma_smul_sum::<C>(-1, a, b);
}

/// The four odd outputs are combinations with the powers of the root.
proof fn lemma_odd4<C: Group>(e: Seq<Pt>, r: int, i: int, c: int, d: int)
    requires
        all_on_curve::<C>(e),
        e.len() == 4,
        is_root8(r, i, c, d, order::<C>()),
    ensures
        forall|k: int|
            0 <= k < 4 ==> #[trigger] odd4::<C>(e, i, c, d)[k] == combination::<C>(
                odd_coeffs(4, r, k),
                e,
            ),
{
    <C::Scalar as Modulus>::lemma_modulus();
    let n = order::<C>();
    assert(on_curve::<C>(e[0]) && on_curve::<C>(e[1]) && on_curve::<C>(e[2]) && on_curve::<C>(e[3]));
    lemma_root_powers(r, i, n);
    lemma_shared::<C>(c, d, r, i * r, e[1], e[3]);
    let ir = i * r;
    let (a0, a1, a2, a3) = (
        seq![1int, r, i, ir],
        seq![1int, ir, -i, r],
        seq![1int, -r, i, -ir],
        seq![1int, -ir, -i, -r],
    );
    lemma_same_four::<C>(a0, odd_coeffs(4, r, 0), e);
    lemma_same_four::<C>(a1, odd_coeffs(4, r, 1), e);
    lemma_same_four::<C>(a2, odd_coeffs(4, r, 2), e);
    lemma_same_four::<C>(a3, odd_coeffs(4, r, 3), e);
    lemma_smul_small::<C>(e[0]);
    lemma_smul_neg::<C>(i, e[2]);
    lemma_smul_neg::<C>(r, e[1]);
    lemma_smul_neg::<C>(ir, e[1]);
    lemma_smul_neg::<C>(r, e[3]);
    lemma_smul_neg::<C>(ir, e[3]);
    lemma_smul_closed::<C>(r, e[1]);
    lemma_smul_closed::<C>(ir, e[1]);
    lemma_smul_closed::<C>(r, e[3]);
    lemma_smul_closed::<C>(ir, e[3]);
    lemma_neg_sum::<C>(smul::<C>(r, e[1]), smul::<C>(ir, e[3]));
    lemma_neg_sum::<C>(smul::<C>(ir, e[1]), smul::<C>(r, e[3]));
    let out = odd4::<C>(e, i, c, d);
    assert(out[0] == combination::<C>(odd_coeffs(4, r, 0), e));
    assert(out[1] == combination::<C>(odd_coeffs(4, r, 1), e));
    assert(out[2] == combination::<C>(odd_coeffs(4, r, 2), e));
    assert(out[3] == combination::<C>(odd_coeffs(4, r, 3), e));
}

/// Four coefficients up to congruence, regrouped.
proof fn lemma_same_four<C: Group>(a: Seq<int>, b: Seq<int>, e: Seq<Pt>)
    requires
        all_on_curve::<C>(e),
        e.len() == 4,
        a.len() == 4,
        b.len() == 4,
        congruent(a[0], b[0], order::<C>()),
        congruent(a[1], b[1], order::<C>()),
        congruent(a[2], b[2], order::<C>()),
        congruent(a[3], b[3], order::<C>()),
    ensures
        combination::<C>(b, e) == plus::<C>(
            plus::<C>(smul::<C>(a[0], e[0]), smul::<C>(a[2], e[2])),
            plus::<C>(smul::<C>(a[1], e[1]), smul::<C>(a[3], e[3])),
        ),
{
    lemma_combination_congruent::<C>(a, b, e);
    lemma_four::<C>(a, e);
}

/// The sixteen-point transform; `w` holds the odd powers of the root.
pub open spec fn dft16<C: Group>(q: Seq<Pt>, i: int, c: int, d: int, w: Seq<int>) -> Seq<Pt> {
    let even = dft8::<C>(folded_sums::<C>(q, 8), i, c, d);
    let diffs = folded_differences::<C>(q, 8);
    let a = odd4::<C>(evens(diffs), i, c, d);
    let b = odd4::<C>(odds(diffs), i, c, d);
    Seq::new(
        16,
        |k: int|
            if k % 2 == 0 {
                even[k / 2]
            } else if k < 8 {
                plus::<C>(a[k / 2], smul::<C>(w[k / 2], b[k / 2]))
            } else {
                difference::<C>(a[k / 2 - 4], smul::<C>(w[k / 2 - 4], b[k / 2 - 4]))
            },
    )
}

/// The sixteen-point transform computes the transform.
pub proof fn lemma_dft16<C: Group>(
    q: Seq<Pt>,
    r: int,
    i: int,
    c: int,
    d: int,
    w: Seq<int>,
)
    requires
        all_on_curve::<C>(q),
        q.len() == 16,
        congruent(pow(r, 8), -1, order::<C>()),
        is_root8(r * r, i, c, d, order::<C>()),
        w.len() == 4,
        forall|k: int|
            0 <= k < 4 ==> congruent(
                #[trigger] w[k],
                pow(r, (2 * k + 1) as nat),
                order::<C>(),
            ),
    ensures
        forall|k: int|
            0 <= k < 16 ==> #[trigger] dft16::<C>(q, i, c, d, w)[k] == dft_at::<C>(q, r, k),
{
    <C::Scalar as Modulus>::lemma_modulus();
    let n = order::<C>();
    let (sums, diffs) = (folded_sums::<C>(q, 8), folded_differences::<C>(q, 8));
    assert forall|j: int|
        #![trigger sums[j]]
        #![trigger diffs[j]]
        0 <= j < 8 implies on_curve::<C>(sums[j]) && on_curve::<C>(diffs[j]) by {
        assert(on_curve::<C>(q[j]) && on_curve::<C>(q[j + 8]));
        lemma_closed::<C>(q[j], q[j + 8]);
        lemma_inverse_point::<C>(q[j + 8]);
        lemma_closed::<C>(q[j], minus::<C>(q[j + 8]));
    }
    let (de, d_o) = (evens(diffs), odds(diffs));
    assert forall|j: int|
        #![trigger de[j]]
        #![trigger d_o[j]]
        0 <= j < 4 implies on_curve::<C>(de[j]) && on_curve::<C>(d_o[j]) by {
        assert(on_curve::<C>(diffs[2 * j]) && on_curve::<C>(diffs[2 * j + 1]));
    }
    lemma_dft8::<C>(sums, r * r, i, c, d);
    lemma_odd4::<C>(de, r * r, i, c, d);
    lemma_odd4::<C>(d_o, r * r, i, c, d);
    let out = dft16::<C>(q, i, c, d, w);
    assert forall|k: int| 0 <= k < 16 implies #[trigger] out[k] == dft_at::<C>(q, r, k) by {
        let t = k / 2;
        if k % 2 == 0 {
            lemma_fold_even::<C>(q, r, t, 8);
            assert(dft8::<C>(sums, i, c, d)[t] == dft_at::<C>(sums, r * r, t));
        } else {
            lemma_fold_odd::<C>(q, r, t, 8);
            let s = if t < 4 { t } else { t - 4 };
            lemma_odd_split::<C>(diffs, r, t, s, w[s]);
            assert(odd4::<C>(de, i, c, d)[s] == combination::<C>(odd_coeffs(4, r * r, s), de));
            assert(odd4::<C>(d_o, i, c, d)[s] == combination::<C>(odd_coeffs(4, r * r, s), d_o));
        }
    }
}

/// An odd output is made of the odd outputs of the even and odd positions.
proof fn lemma_odd_split<C: Group>(diffs: Seq<Pt>, r: int, t: int, s: int, w: int)
    requires
        all_on_curve::<C>(diffs),
        diffs.len() == 8,
        congruent(pow(r, 8), -1, order::<C>()),
        0 <= s < 4,
        t == s || t == s + 4,
        congruent(w, pow(r, (2 * s + 1) as nat), order::<C>()),
    ensures
        combination::<C>(odd_coeffs(8, r, t), diffs) == if t == s {
            plus::<C>(
                combination::<C>(odd_coeffs(4, r * r, s), evens(diffs)),
                smul::<C>(w, combination::<C>(odd_coeffs(4, r * r, s), odds(diffs))),
            )
        } else {
            difference::<C>(
                combination::<C>(odd_coeffs(4, r * r, s), evens(diffs)),
                smul::<C>(w, combination::<C>(odd_coeffs(4, r * r, s), odds(diffs))),
            )
        },
{
    <C::Scalar as Modulus>::lemma_modulus();
    let n = order::<C>();
    let (de, d_o) = (evens(diffs), odds(diffs));
    assert forall|j: int|
        #![trigger de[j]]
        #![trigger d_o[j]]
        0 <= j < 4 implies on_curve::<C>(de[j]) && on_curve::<C>(d_o[j]) by {
        assert(on_curve::<C>(diffs[2 * j]) && on_curve::<C>(diffs[2 * j + 1]));
    }
    let full = odd_coeffs(8, r, t);
    let half = odd_coeffs(4, r * r, s);
    lemma_split::<C>(full, diffs);
    let f = if t == s { w } else { -w };
    let (x, e, g) = (pow(r, 8), 2 * s + 1, 2 * t + 1);
    lemma_congruent_ops(x, -1, x, -1, n);
    assert((-1) * (-1) == 1int);
    lemma_pow_adds(r, 8, 8);
    let y = pow(r, 16);
    if t != s {
        lemma_pow_adds(r, e as nat, 8);
        lemma_congruent_ops(pow(r, e as nat), w, x, -1, n);
        assert(w * (-1) == -w);
    }
    assert(congruent(pow(r, g as nat), f, n));
    assert forall|m: int|
        #![trigger evens(full)[m]]
        #![trigger odds(full)[m]]
        0 <= m < 4 implies congruent(evens(full)[m], half[m], n) && congruent(
        odds(full)[m],
        scale_coeffs(f, half)[m],
        n,
    ) by {
        // The exponent of an even position, up to a multiple of sixteen.
        let em = (e * m) as nat;
        assert(e * m >= 0) by (nonlinear_arith)
            requires
                e >= 0,
                m >= 0,
        ;
        lemma_pow_square(r, em);
        if t != s {
            assert(g * (2 * m) == 2 * (e * m) + 16 * m) by (nonlinear_arith)
                requires
                    g == e + 8,
            ;
            lemma_pow_multiplies(r, 16, m as nat);
            lemma_pow_one(y, m as nat, n);
            lemma_pow_adds(r, 2 * em, (16 * m) as nat);
            lemma_congruent_ops(pow(r, 2 * em), pow(r, 2 * em), pow(r, (16 * m) as nat), 1, n);
            assert(pow(r, 2 * em) * 1 == pow(r, 2 * em));
        } else {
            assert(g * (2 * m) == 2 * (e * m)) by (nonlinear_arith)
                requires
                    g == e,
            ;
        }
        assert(evens(full)[m] == pow(r, (g * (2 * m)) as nat));
        assert(g * (2 * m + 1) == g * (2 * m) + g && g * (2 * m) >= 0) by (nonlinear_arith)
            requires
                g >= 0,
                m >= 0,
        ;
        lemma_pow_adds(r, (g * (2 * m)) as nat, g as nat);
        lemma_congruent_ops(pow(r, (g * (2 * m)) as nat), half[m], pow(r, g as nat), f, n);
        assert(half[m] * f == f * half[m]) by (nonlinear_arith);
    }
    lemma_combination_congruent::<C>(evens(full), half, de);
    lemma_combination_congruent::<C>(odds(full), scale_coeffs(f, half), d_o);
    lemma_combination_scale::<C>(f, half, d_o);
    lemma_combination_closed::<C>(half, d_o);
    lemma_smul_neg::<C>(w, combination::<C>(half, d_o));
}

} // verus!

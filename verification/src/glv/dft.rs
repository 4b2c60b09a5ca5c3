//! Discrete Fourier transforms of points, and how they split into smaller ones.
use crate::curve::combination::{
    all_on_curve, combination, lemma_combination_closed, lemma_combination_congruent,
    lemma_combination_scale, scale_coeffs,
};
use crate::curve::law::{
    ec_add, lemma_associative, lemma_closed, lemma_exchange, lemma_inverse_point,
    lemma_smul_add, lemma_smul_closed, lemma_smul_congruent, lemma_smul_mul, lemma_smul_neg,
    lemma_smul_small, lemma_smul_sum, minus, on_curve, order, plus, smul, Pt,
};
use crate::curve::Group;
use crate::field::congruence::{congruent, lemma_congruent_ops};
use crate::field::Modulus;
use crate::glv::butterfly::difference;
use vstd::arithmetic::power::{
    lemma_pow0, lemma_pow1, lemma_pow_adds, lemma_pow_multiplies, pow,
};
use vstd::prelude::*;

verus! {

/// The coefficients of one output of a transform with the root `r`.
pub open spec fn dft_coeffs(m: nat, r: int, i: int) -> Seq<int> {
    Seq::new(m, |j: int| pow(r, (i * j) as nat))
}

/// One output of the transform of points with the root `r`.
pub open spec fn dft_at<C: Group>(points: Seq<Pt>, r: int, i: int) -> Pt {
    combination::<C>(dft_coeffs(points.len(), r, i), points)
}

/// The elements at even positions.
pub open spec fn evens<A>(s: Seq<A>) -> Seq<A> {
    Seq::new(s.len() / 2, |j: int| s[2 * j])
}

/// The elements at odd positions.
pub open spec fn odds<A>(s: Seq<A>) -> Seq<A> {
    Seq::new(s.len() / 2, |j: int| s[2 * j + 1])
}

/// Sums of sums: `(a + b) + c + d == (a + c) + (b + d)`.
pub(crate) proof fn lemma_regroup<C: Group>(a: Pt, b: Pt, c: Pt, d: Pt)
    requires
        on_curve::<C>(a),
        on_curve::<C>(b),
        on_curve::<C>(c),
        on_curve::<C>(d),
    ensures
        plus::<C>(plus::<C>(plus::<C>(a, b), c), d) == plus::<C>(plus::<C>(a, c), plus::<C>(b, d)),
{
    lemma_closed::<C>(a, b);
    lemma_associative::<C>(plus::<C>(a, b), c, d);
    lemma_exchange::<C>(a, b, c, d);
}

/// A combination is the sum of its terms at even and at odd positions.
pub proof fn lemma_split<C: Group>(coeffs: Seq<int>, points: Seq<Pt>)
    requires
        all_on_curve::<C>(points),
        coeffs.len() % 2 == 0,
        points.len() % 2 == 0,
        coeffs.len() <= points.len(),
    ensures
        combination::<C>(coeffs, points) == plus::<C>(
            combination::<C>(evens(coeffs), evens(points)),
            combination::<C>(odds(coeffs), odds(points)),
        ),
    decreases coeffs.len(),
{
    reveal(ec_add);
    let (pe, po) = (evens(points), odds(points));
    assert(all_on_curve::<C>(pe)) by {
        assert forall|i: int| 0 <= i < pe.len() implies on_curve::<C>(#[trigger] pe[i]) by {
            assert(on_curve::<C>(points[2 * i]));
        }
    }
    assert(all_on_curve::<C>(po)) by {
        assert forall|i: int| 0 <= i < po.len() implies on_curve::<C>(#[trigger] po[i]) by {
            assert(on_curve::<C>(points[2 * i + 1]));
        }
    }
    if coeffs.len() > 0 {
        let n = coeffs.len() as int;
        let one = coeffs.drop_last();
        let two = one.drop_last();
        lemma_split::<C>(two, points);
        let (ce, co) = (evens(coeffs), odds(coeffs));
        assert(ce.drop_last() =~= evens(two));
        assert(co.drop_last() =~= odds(two));
        let h = n / 2;
        assert(ce.last() == coeffs[n - 2] && pe[h - 1] == points[n - 2]);
        assert(co.last() == coeffs[n - 1] && po[h - 1] == points[n - 1]);
        let (a, b) = (combination::<C>(evens(two), pe), combination::<C>(odds(two), po));
        lemma_combination_closed::<C>(evens(two), pe);
        lemma_combination_closed::<C>(odds(two), po);
        let (c, d) = (
            smul::<C>(coeffs[n - 2], points[n - 2]),
            smul::<C>(coeffs[n - 1], points[n - 1]),
        );
        lemma_smul_closed::<C>(coeffs[n - 2], points[n - 2]);
        lemma_smul_closed::<C>(coeffs[n - 1], points[n - 1]);
        lemma_regroup::<C>(a, b, c, d);
        assert(combination::<C>(coeffs, points) == plus::<C>(combination::<C>(one, points), d));
        assert(combination::<C>(one, points) == plus::<C>(combination::<C>(two, points), c));
    }
}

/// A power of a number that is congruent to one is congruent to one.
pub(crate) proof fn lemma_pow_one(x: int, k: nat, n: int)
    requires
        n > 1,
        congruent(x, 1, n),
    ensures
        congruent(pow(x, k), 1, n),
    decreases k,
{
    if k == 0 {
        lemma_pow0(x);
    } else {
        lemma_pow_one(x, (k - 1) as nat, n);
        reveal(pow);
        lemma_congruent_ops(x, 1, pow(x, (k - 1) as nat), 1, n);
    }
}

/// Powers of the square.
pub(crate) proof fn lemma_pow_square(r: int, k: nat)
    ensures
        pow(r, 2 * k) == pow(r * r, k),
{
    lemma_pow_multiplies(r, 2, k);
    lemma_pow1(r);
    lemma_pow_adds(r, 1, 1);
}

/// The coefficients of a transform at even and odd positions.
proof fn lemma_coeffs(r: int, i: int, h: nat, n: int, j: int)
    requires
        n > 1,
        0 <= i,
        0 <= j,
    ensures
        pow(r, (i * (2 * j)) as nat) == pow(r * r, (i * j) as nat),
        pow(r, (i * (2 * j + 1)) as nat) == pow(r, i as nat) * pow(r * r, (i * j) as nat),
        congruent(pow(r, h), -1, n) ==> congruent(
            pow(r, ((i + h) * (2 * j)) as nat),
            pow(r * r, (i * j) as nat),
            n,
        ) && congruent(
            pow(r, ((i + h) * (2 * j + 1)) as nat),
            -pow(r, i as nat) * pow(r * r, (i * j) as nat),
            n,
        ),
{
    let k = (i * j) as nat;
    assert(i * j >= 0) by (nonlinear_arith)
        requires
            0 <= i,
            0 <= j,
    ;
    assert(i * (2 * j) == 2 * (i * j)) by (nonlinear_arith);
    assert(i * (2 * j + 1) == 2 * (i * j) + i) by (nonlinear_arith);
    lemma_pow_square(r, k);
    lemma_pow_adds(r, 2 * k, i as nat);
    let (a, b) = (pow(r, i as nat), pow(r * r, k));
    assert(b * a == a * b) by (nonlinear_arith);
    if congruent(pow(r, h), -1, n) {
        let x = pow(r, h);
        let hj = (h * j) as nat;
        assert(h * j >= 0) by (nonlinear_arith)
            requires
                0 <= h,
                0 <= j,
        ;
        lemma_congruent_ops(x, -1, x, -1, n);
        assert((-1) * (-1) == 1int);
        lemma_pow_multiplies(r, h, 2);
        lemma_pow1(x);
        lemma_pow_adds(x, 1, 1);
        let y = pow(r, h * 2);
        lemma_pow_one(y, j as nat, n);
        lemma_pow_multiplies(r, h * 2, j as nat);
        assert((h * 2) * j == 2 * (h * j)) by (nonlinear_arith);
        assert(congruent(pow(r, 2 * hj), 1, n));
        assert((i + h) * (2 * j) == 2 * (i * j) + 2 * (h * j)) by (nonlinear_arith);
        lemma_pow_adds(r, 2 * k, 2 * hj);
        lemma_congruent_ops(b, b, pow(r, 2 * hj), 1, n);
        assert(b * 1 == b);
        let z = pow(r, ((i + h) * (2 * j)) as nat);
        assert((i + h) * (2 * j + 1) == (i + h) * (2 * j) + (i + h)) by (nonlinear_arith);
        lemma_pow_adds(r, i as nat, h);
        assert((i + h) as nat == i as nat + h);
        assert((i + h) * (2 * j) >= 0) by (nonlinear_arith)
            requires
                0 <= i,
                0 <= j,
                0 <= h,
        ;
        lemma_pow_adds(r, ((i + h) * (2 * j)) as nat, (i + h) as nat);
        lemma_congruent_ops(a, a, x, -1, n);
        lemma_congruent_ops(z, b, a * x, a * (-1), n);
        assert(b * (a * (-1)) == -a * b) by (nonlinear_arith);
    }
}

/// A transform is made of the transforms of the points at even and at odd positions.
pub proof fn lemma_merge<C: Group>(points: Seq<Pt>, r: int, i: int, h: nat)
    requires
        all_on_curve::<C>(points),
        points.len() == 2 * h,
        0 <= i,
    ensures
        dft_at::<C>(points, r, i) == plus::<C>(
            dft_at::<C>(evens(points), r * r, i),
            smul::<C>(pow(r, i as nat), dft_at::<C>(odds(points), r * r, i)),
        ),
        congruent(pow(r, h), -1, order::<C>()) ==> dft_at::<C>(points, r, i + h) == difference::<C>(
            dft_at::<C>(evens(points), r * r, i),
            smul::<C>(pow(r, i as nat), dft_at::<C>(odds(points), r * r, i)),
        ),
        on_curve::<C>(dft_at::<C>(evens(points), r * r, i)),
        on_curve::<C>(dft_at::<C>(odds(points), r * r, i)),
{
    <C::Scalar as Modulus>::lemma_modulus();
    let n = order::<C>();
    let (pe, po) = (evens(points), odds(points));
    assert(all_on_curve::<C>(pe)) by {
        assert forall|k: int| 0 <= k < pe.len() implies on_curve::<C>(#[trigger] pe[k]) by {
            assert(on_curve::<C>(points[2 * k]));
        }
    }
    assert(all_on_curve::<C>(po)) by {
        assert forall|k: int| 0 <= k < po.len() implies on_curve::<C>(#[trigger] po[k]) by {
            assert(on_curve::<C>(points[2 * k + 1]));
        }
    }
    let a = pow(r, i as nat);
    let half = dft_coeffs(h, r * r, i);
    lemma_combination_closed::<C>(half, pe);
    lemma_combination_closed::<C>(half, po);
    let c = dft_coeffs(2 * h, r, i);
    lemma_split::<C>(c, points);
    assert forall|j: int| 0 <= j < h implies evens(c)[j] == half[j] && odds(c)[j] == scale_coeffs(
        a,
        half,
    )[j] by {
        lemma_coeffs(r, i, h, n, j);
    }
    assert(evens(c) =~= half);
    assert(odds(c) =~= scale_coeffs(a, half));
    lemma_combination_scale::<C>(a, half, po);
    if congruent(pow(r, h), -1, n) {
        let c = dft_coeffs(2 * h, r, i + h);
        lemma_split::<C>(c, points);
        assert forall|j: int| 0 <= j < h implies congruent(#[trigger] evens(c)[j], half[j], n) by {
            lemma_coeffs(r, i, h, n, j);
        }
        assert forall|j: int| 0 <= j < h implies congruent(
            #[trigger] odds(c)[j],
            scale_coeffs(-a, half)[j],
            n,
        ) by {
            lemma_coeffs(r, i, h, n, j);
        }
        lemma_combination_congruent::<C>(evens(c), half, pe);
        lemma_combination_congruent::<C>(odds(c), scale_coeffs(-a, half), po);
        lemma_combination_scale::<C>(-a, half, po);
        lemma_smul_neg::<C>(a, combination::<C>(half, po));
    }
}

/// The transform of one point is the point.
pub proof fn lemma_dft1<C: Group>(points: Seq<Pt>, r: int, i: int)
    requires
        all_on_curve::<C>(points),
        points.len() == 1,
    ensures
        dft_at::<C>(points, r, i) == points[0],
{
    reveal(ec_add);
    let c = dft_coeffs(1, r, i);
    lemma_pow0(r);
    assert(i * 0 == 0);
    assert(c.drop_last() =~= Seq::empty());
    lemma_smul_small::<C>(points[0]);
    assert(on_curve::<C>(points[0]));
    assert(combination::<C>(c.drop_last(), points) == Pt::Infinity);
}

/// The transform of two points is their sum and their difference.
pub proof fn lemma_dft2<C: Group>(points: Seq<Pt>, r: int)
    requires
        all_on_curve::<C>(points),
        points.len() == 2,
        congruent(r, -1, order::<C>()),
    ensures
        dft_at::<C>(points, r, 0) == plus::<C>(points[0], points[1]),
        dft_at::<C>(points, r, 1) == difference::<C>(points[0], points[1]),
{
    assert(on_curve::<C>(points[0]) && on_curve::<C>(points[1]));
    lemma_pow0(r);
    lemma_pow1(r);
    lemma_merge::<C>(points, r, 0, 1);
    let (e, o) = (evens(points), odds(points));
    assert(all_on_curve::<C>(e) && all_on_curve::<C>(o)) by {
        assert(e =~= seq![points[0]]);
        assert(o =~= seq![points[1]]);
    }
    lemma_dft1::<C>(e, r * r, 0);
    lemma_dft1::<C>(o, r * r, 0);
    lemma_smul_small::<C>(points[1]);
}

/// The transform of four points.
pub proof fn lemma_dft4<C: Group>(q: Seq<Pt>, r: int)
    requires
        all_on_curve::<C>(q),
        q.len() == 4,
        congruent(r * r, -1, order::<C>()),
    ensures
        ({
            let (s, d) = (plus::<C>(q[0], q[2]), difference::<C>(q[0], q[2]));
            let (t, e) = (plus::<C>(q[1], q[3]), difference::<C>(q[1], q[3]));
            let w = smul::<C>(r, e);
            &&& dft_at::<C>(q, r, 0) == plus::<C>(s, t)
            &&& dft_at::<C>(q, r, 1) == plus::<C>(d, w)
            &&& dft_at::<C>(q, r, 2) == difference::<C>(s, t)
            &&& dft_at::<C>(q, r, 3) == difference::<C>(d, w)
            &&& on_curve::<C>(s) && on_curve::<C>(d) && on_curve::<C>(t) && on_curve::<C>(e)
                && on_curve::<C>(w)
        }),
{
    let (a, b) = (evens(q), odds(q));
    assert(on_curve::<C>(q[0]) && on_curve::<C>(q[1]) && on_curve::<C>(q[2]) && on_curve::<C>(q[3]));
    assert(a =~= seq![q[0], q[2]]);
    assert(b =~= seq![q[1], q[3]]);
    lemma_dft2::<C>(a, r * r);
    lemma_dft2::<C>(b, r * r);
    lemma_pow0(r);
    lemma_pow1(r);
    lemma_pow_adds(r, 1, 1);
    lemma_merge::<C>(q, r, 0, 2);
    lemma_merge::<C>(q, r, 1, 2);
    lemma_smul_small::<C>(plus::<C>(q[1], q[3]));
    lemma_smul_closed::<C>(r, difference::<C>(q[1], q[3]));
}

/// Two scalars whose sum is `r` and whose difference is `s` combine the sum and the difference of
/// two points to `r * a + s * b` and `s * a + r * b`.
pub proof fn lemma_shared<C: Group>(c: int, d: int, r: int, s: int, a: Pt, b: Pt)
    requires
        on_curve::<C>(a),
        on_curve::<C>(b),
        congruent(c + d, r, order::<C>()),
        congruent(c - d, s, order::<C>()),
    ensures
        ({
            let (x, y) = (smul::<C>(c, plus::<C>(a, b)), smul::<C>(d, difference::<C>(a, b)));
            &&& plus::<C>(x, y) == plus::<C>(smul::<C>(r, a), smul::<C>(s, b))
            &&& difference::<C>(x, y) == plus::<C>(smul::<C>(s, a), smul::<C>(r, b))
            &&& on_curve::<C>(x)
            &&& on_curve::<C>(y)
        }),
{
    let m = minus::<C>(b);
    lemma_inverse_point::<C>(b);
    lemma_closed::<C>(a, b);
    lemma_closed::<C>(a, m);
    lemma_smul_closed::<C>(c, plus::<C>(a, b));
    lemma_smul_closed::<C>(d, plus::<C>(a, m));
    lemma_smul_sum::<C>(c, a, b);
    lemma_smul_sum::<C>(d, a, m);
    lemma_smul_sum::<C>(-d, a, m);
    lemma_smul_neg::<C>(d, plus::<C>(a, m));
    lemma_smul_small::<C>(b);
    lemma_smul_mul::<C>(d, -1, b);
    lemma_smul_mul::<C>(-d, -1, b);
    assert(d * (-1) == -d && (-d) * (-1) == d) by (nonlinear_arith);
    lemma_smul_closed::<C>(c, a);
    lemma_smul_closed::<C>(c, b);
    lemma_smul_closed::<C>(d, a);
    lemma_smul_closed::<C>(-d, a);
    lemma_smul_closed::<C>(d, b);
    lemma_smul_closed::<C>(-d, b);
    lemma_exchange::<C>(smul::<C>(c, a), smul::<C>(c, b), smul::<C>(d, a), smul::<C>(-d, b));
    lemma_exchange::<C>(smul::<C>(c, a), smul::<C>(c, b), smul::<C>(-d, a), smul::<C>(d, b));
    lemma_smul_add::<C>(c, d, a);
    lemma_smul_add::<C>(c, -d, b);
    lemma_smul_add::<C>(c, -d, a);
    lemma_smul_add::<C>(c, d, b);
    lemma_smul_congruent::<C>(c + d, r, a);
    lemma_smul_congruent::<C>(c - d, s, b);
    lemma_smul_congruent::<C>(c - d, s, a);
    lemma_smul_congruent::<C>(c + d, r, b);
}

/// The constants of the eight-point transform: `r` is a primitive eighth root of one, and `c` and
/// `d` are half of the sum and of the difference of `r` and its cube.
pub open spec fn is_root8(r: int, i: int, c: int, d: int, n: int) -> bool {
    &&& congruent(i, r * r, n)
    &&& congruent(i * i, -1, n)
    &&& congruent(c + d, r, n)
    &&& congruent(c - d, i * r, n)
}

/// The eight-point transform with four multiplications.
pub open spec fn dft8<C: Group>(q: Seq<Pt>, i: int, c: int, d: int) -> Seq<Pt> {
    let (s04, d04) = (plus::<C>(q[0], q[4]), difference::<C>(q[0], q[4]));
    let (s26, d26) = (plus::<C>(q[2], q[6]), difference::<C>(q[2], q[6]));
    let (s15, d15) = (plus::<C>(q[1], q[5]), difference::<C>(q[1], q[5]));
    let (s37, d37) = (plus::<C>(q[3], q[7]), difference::<C>(q[3], q[7]));
    let (e0, e2) = (plus::<C>(s04, s26), difference::<C>(s04, s26));
    let (o0, o2) = (plus::<C>(s15, s37), smul::<C>(i, difference::<C>(s15, s37)));
    let y = smul::<C>(i, d26);
    let (e1, e3) = (plus::<C>(d04, y), difference::<C>(d04, y));
    let (x, z) = (
        smul::<C>(c, plus::<C>(d15, d37)),
        smul::<C>(d, difference::<C>(d15, d37)),
    );
    let (o1, o3) = (plus::<C>(x, z), difference::<C>(x, z));
    seq![
        plus::<C>(e0, o0),
        plus::<C>(e1, o1),
        plus::<C>(e2, o2),
        plus::<C>(e3, o3),
        difference::<C>(e0, o0),
        difference::<C>(e1, o1),
        difference::<C>(e2, o2),
        difference::<C>(e3, o3),
    ]
}

/// The outputs of the transform of the odd positions, multiplied with the powers of the root.
proof fn lemma_odd_outputs<C: Group>(r: int, i: int, c: int, d: int, a: Pt, b: Pt)
    requires
        on_curve::<C>(a),
        on_curve::<C>(b),
        is_root8(r, i, c, d, order::<C>()),
    ensures
        ({
            let (x, z) = (smul::<C>(c, plus::<C>(a, b)), smul::<C>(d, difference::<C>(a, b)));
            let w = smul::<C>(r * r, b);
            &&& plus::<C>(x, z) == smul::<C>(r, plus::<C>(a, w))
            &&& difference::<C>(x, z) == smul::<C>(pow(r, 3), difference::<C>(a, w))
        }),
{
    <C::Scalar as Modulus>::lemma_modulus();
    let n = order::<C>();
    let rr = r * r;
    lemma_pow1(r);
    lemma_pow_adds(r, 1, 1);
    lemma_pow_adds(r, 2, 1);
    let r3 = pow(r, 3);
    lemma_congruent_ops(rr, i, r, r, n);
    assert(congruent(r3, i * r, n));
    lemma_shared::<C>(c, d, r, i * r, a, b);
    let w = smul::<C>(rr, b);
    lemma_smul_closed::<C>(rr, b);
    lemma_inverse_point::<C>(w);
    lemma_smul_sum::<C>(r, a, w);
    lemma_smul_mul::<C>(r, rr, b);
    assert(r * rr == rr * r) by (nonlinear_arith);
    lemma_smul_congruent::<C>(r * rr, i * r, b);
    lemma_smul_sum::<C>(r3, a, minus::<C>(w));
    lemma_smul_congruent::<C>(r3, i * r, a);
    lemma_smul_neg::<C>(rr, b);
    lemma_smul_mul::<C>(r3, -rr, b);
    // r^3 * (-r^2) == r
    lemma_congruent_ops(r3, i * r, rr, i, n);
    assert((i * r) * i == (i * i) * r) by (nonlinear_arith);
    lemma_congruent_ops(i * i, -1, r, r, n);
    lemma_congruent_ops(0, 0, r3 * rr, (-1) * r, n);
    assert(r3 * (-rr) == 0 - r3 * rr && 0 - (-1) * r == r) by (nonlinear_arith);
    lemma_smul_congruent::<C>(r3 * (-rr), r, b);
}

/// The transforms of four points that make up a transform of eight, with an equivalent root.
proof fn lemma_quarter<C: Group>(q: Seq<Pt>, rr: int, i: int)
    requires
        all_on_curve::<C>(q),
        q.len() == 4,
        congruent(i, rr, order::<C>()),
        congruent(i * i, -1, order::<C>()),
    ensures
        ({
            let (s, d) = (plus::<C>(q[0], q[2]), difference::<C>(q[0], q[2]));
            let (t, e) = (plus::<C>(q[1], q[3]), difference::<C>(q[1], q[3]));
            let w = smul::<C>(i, e);
            &&& dft_at::<C>(q, rr, 0) == plus::<C>(s, t)
            &&& dft_at::<C>(q, rr, 1) == plus::<C>(d, w)
            &&& dft_at::<C>(q, rr, 2) == difference::<C>(s, t)
            &&& dft_at::<C>(q, rr, 3) == difference::<C>(d, w)
            &&& w == smul::<C>(rr, e)
            &&& on_curve::<C>(d) && on_curve::<C>(e) && on_curve::<C>(plus::<C>(s, t))
        }),
{
    <C::Scalar as Modulus>::lemma_modulus();
    lemma_congruent_ops(rr, i, rr, i, order::<C>());
    lemma_dft4::<C>(q, rr);
    let e = difference::<C>(q[1], q[3]);
    lemma_smul_congruent::<C>(rr, i, e);
    lemma_closed::<C>(plus::<C>(q[0], q[2]), plus::<C>(q[1], q[3]));
}

/// The eight-point transform computes the transform.
#[verifier::rlimit(40)]
pub proof fn lemma_dft8<C: Group>(q: Seq<Pt>, r: int, i: int, c: int, d: int)
    requires
        all_on_curve::<C>(q),
        q.len() == 8,
        is_root8(r, i, c, d, order::<C>()),
    ensures
        forall|k: int| 0 <= k < 8 ==> #[trigger] dft8::<C>(q, i, c, d)[k] == dft_at::<C>(q, r, k),
{
    <C::Scalar as Modulus>::lemma_modulus();
    let n = order::<C>();
    let (a, b) = (evens(q), odds(q));
    assert(on_curve::<C>(q[0]) && on_curve::<C>(q[1]) && on_curve::<C>(q[2]) && on_curve::<C>(q[3])
        && on_curve::<C>(q[4]) && on_curve::<C>(q[5]) && on_curve::<C>(q[6]) && on_curve::<C>(
        q[7],
    ));
    assert(a =~= seq![q[0], q[2], q[4], q[6]]);
    assert(b =~= seq![q[1], q[3], q[5], q[7]]);
    let rr = r * r;
    lemma_quarter::<C>(a, rr, i);
    lemma_quarter::<C>(b, rr, i);
    lemma_pow0(r);
    lemma_pow1(r);
    lemma_pow_adds(r, 1, 1);
    lemma_pow_adds(r, 2, 2);
    lemma_congruent_ops(rr, i, rr, i, n);
    assert(congruent(pow(r, 4), -1, n));
    lemma_merge::<C>(q, r, 0, 4);
    lemma_merge::<C>(q, r, 1, 4);
    lemma_merge::<C>(q, r, 2, 4);
    lemma_merge::<C>(q, r, 3, 4);
    let (d15, d37) = (difference::<C>(q[1], q[5]), difference::<C>(q[3], q[7]));
    let (s15, s37) = (plus::<C>(q[1], q[5]), plus::<C>(q[3], q[7]));
    lemma_smul_small::<C>(plus::<C>(s15, s37));
    lemma_smul_congruent::<C>(pow(r, 2), i, difference::<C>(s15, s37));
    lemma_odd_outputs::<C>(r, i, c, d, d15, d37);
    let out = dft8::<C>(q, i, c, d);
    assert(out[0] == dft_at::<C>(q, r, 0));
    assert(out[4] == dft_at::<C>(q, r, 4));
    assert(out[1] == dft_at::<C>(q, r, 1));
    assert(out[5] == dft_at::<C>(q, r, 5));
    assert(out[2] == dft_at::<C>(q, r, 2));
    assert(out[6] == dft_at::<C>(q, r, 6));
    assert(out[3] == dft_at::<C>(q, r, 3));
    assert(out[7] == dft_at::<C>(q, r, 7));
}

} // verus!

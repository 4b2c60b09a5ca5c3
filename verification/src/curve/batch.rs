//! Batched inversions, and the affine formulas that use them.
use crate::curve::affine::Affine;
use crate::curve::law::{
    ec_add, chord, inverse, lemma_cancel, lemma_difference, lemma_product, lemma_quotient, on_curve, plus, quotient,
    Pt,
};
use crate::curve::point::Point;
use crate::curve::Curve;
use crate::field::congruence::{
    congruent, lemma_congruent_mod, lemma_congruent_ops, lemma_congruent_small,
};
use crate::field::primes::is_inverse;
use crate::field::{Fe, Modulus};
use vstd::arithmetic::div_mod::lemma_small_mod;
use vstd::prelude::*;

verus! {

/// The product of the values before position `i` whose distance from `i` is even.
spec fn lane(values: Seq<int>, i: int) -> int
    decreases i,
{
    if i < 2 {
        1
    } else {
        lane(values, i - 2) * values[i - 2]
    }
}

spec fn residues<M: Modulus>(values: Seq<Fe<M>>) -> Seq<int> {
    Seq::new(values.len(), |i: int| values[i]@)
}

/// The product of nonzero values is nonzero, and a zero value makes every later product zero.
proof fn lemma_lane<M: Modulus>(values: Seq<Fe<M>>, i: int)
    requires
        0 <= i <= values.len() + 1,
    ensures
        lane(residues(values), i) % M::p() != 0 <==> forall|j: int|
            #![trigger values[j]]
            0 <= j < i && j % 2 == i % 2 && j < values.len() ==> values[j]@ != 0,
    decreases i,
{
    M::lemma_modulus();
    let p = M::p();
    lemma_small_mod(1, p as nat);
    if i >= 2 {
        lemma_lane::<M>(values, i - 2);
        let v = values[i - 2];
        v.lemma_view();
        lemma_small_mod(v@ as nat, p as nat);
        lemma_product::<M>(lane(residues(values), i - 2), v@);
        if lane(residues(values), i) % p != 0 {
            assert forall|j: int|
                #![trigger values[j]]
                0 <= j < i && j % 2 == i % 2 && j < values.len() implies values[j]@ != 0 by {
                if j < i - 2 {
                    assert(values[j]@ != 0);
                }
            }
        }
    }
}

/// Inverts all values with one shared inversion, if none of them is zero.
///
/// The products of the values at even and at odd positions are accumulated in two chains.
pub fn batch_invert_nonzero<M: Modulus>(values: &mut Vec<Fe<M>>, scratch: &mut Vec<Fe<M>>) -> (r:
    bool)
    requires
        old(values)@.len() == old(scratch)@.len(),
    ensures
        final(values)@.len() == old(values)@.len(),
        final(scratch)@.len() == old(scratch)@.len(),
        r <==> forall|i: int| 0 <= i < old(values)@.len() ==> (#[trigger] old(values)@[i])@ != 0,
        !r ==> final(values)@ == old(values)@,
        r ==> forall|i: int|
            0 <= i < old(values)@.len() ==> is_inverse(
                old(values)@[i]@,
                (#[trigger] final(values)@[i])@,
                M::p(),
            ),
{
    let ghost p = M::p();
    let ghost all = values@;
    let ghost vals = residues(values@);
    let n = values.len();
    let mut acc0 = Fe::<M>::one();
    let mut acc1 = Fe::<M>::one();
    let mut i: usize = 0;
    proof {
        M::lemma_modulus();
        lemma_small_mod(1, p as nat);
    }
    while i < n
        invariant
            p == M::p(),
            p > 1,
            i <= n,
            n == values@.len(),
            n == scratch@.len(),
            all == values@,
            vals == residues(all),
            congruent(acc0@, lane(vals, if i % 2 == 0 { i as int } else { i + 1 }), p),
            congruent(acc1@, lane(vals, if i % 2 == 1 { i as int } else { i + 1 }), p),
            forall|j: int| 0 <= j < i ==> congruent((#[trigger] scratch@[j])@, lane(vals, j), p),
        decreases n - i,
    {
        let value = values[i];
        let ghost prev = lane(vals, i as int);
        assert(lane(vals, i + 2) == prev * value@);
        if i % 2 == 0 {
            scratch.set(i, acc0);
            proof {
                lemma_congruent_ops(acc0@, prev, value@, value@, p);
                lemma_congruent_mod(acc0@ * value@, p);
            }
            acc0 = acc0.mul(value);
        } else {
            scratch.set(i, acc1);
            proof {
                lemma_congruent_ops(acc1@, prev, value@, value@, p);
                lemma_congruent_mod(acc1@ * value@, p);
            }
            acc1 = acc1.mul(value);
        }
        i += 1;
    }
    let ghost (e0, e1) = (
        if n % 2 == 0 { n as int } else { n + 1 },
        if n % 2 == 1 { n as int } else { n + 1 },
    );
    let product = acc0.mul(acc1);
    proof {
        product.lemma_view();
        lemma_small_mod(product@ as nat, p as nat);
        lemma_small_mod(0, p as nat);
        lemma_congruent_ops(acc0@, lane(vals, e0), acc1@, lane(vals, e1), p);
        lemma_congruent_mod(acc0@ * acc1@, p);
        lemma_product::<M>(lane(vals, e0), lane(vals, e1));
        lemma_lane::<M>(all, e0);
        lemma_lane::<M>(all, e1);
        if product@ != 0 {
            assert forall|k: int| 0 <= k < all.len() implies (#[trigger] all[k])@ != 0 by {
                assert(k % 2 == e0 % 2 || k % 2 == e1 % 2);
            }
        }
    }
    let inverse = match product.invert() {
        Some(inverse) => inverse,
        None => {
            return false;
        },
    };
    let seed0 = inverse.mul(acc1);
    let seed1 = inverse.mul(acc0);
    proof {
        let (a, b, w) = (acc0@, acc1@, inverse@);
        lemma_congruent_mod(a * b, p);
        lemma_congruent_mod(w * b, p);
        lemma_congruent_mod(w * a, p);
        lemma_congruent_ops(product@, a * b, w, w, p);
        lemma_congruent_ops(seed0@, w * b, lane(vals, e0), a, p);
        lemma_congruent_ops(seed1@, w * a, lane(vals, e1), b, p);
        assert((w * b) * a == (a * b) * w && (w * a) * b == (a * b) * w) by (nonlinear_arith);
    }
    let mut acc0 = seed0;
    let mut acc1 = seed1;
    while i > 0
        invariant
            p == M::p(),
            p > 1,
            i <= n,
            n == values@.len(),
            n == scratch@.len(),
            n == all.len(),
            vals == residues(all),
            congruent(acc0@ * lane(vals, if i % 2 == 0 { i as int } else { i + 1 }), 1, p),
            congruent(acc1@ * lane(vals, if i % 2 == 1 { i as int } else { i + 1 }), 1, p),
            forall|j: int| 0 <= j < n ==> congruent((#[trigger] scratch@[j])@, lane(vals, j), p),
            forall|j: int| 0 <= j < i ==> #[trigger] values@[j] == all[j],
            forall|j: int|
                i <= j < n ==> is_inverse(all[j]@, (#[trigger] values@[j])@, p),
        decreases i,
    {
        i -= 1;
        let value = values[i];
        let slot = scratch[i];
        let ghost prev = lane(vals, i as int);
        let even = i % 2 == 0;
        let acc = if even { acc0 } else { acc1 };
        let inverted = acc.mul(slot);
        let next = acc.mul(value);
        proof {
            let v = value@;
            assert(value == all[i as int]);
            assert(lane(vals, i + 2) == prev * v);
            assert(congruent(acc@ * (prev * v), 1, p));
            lemma_small_mod(1, p as nat);
            lemma_congruent_mod(acc@ * slot@, p);
            lemma_congruent_mod(acc@ * v, p);
            lemma_congruent_ops(acc@, acc@, slot@, prev, p);
            lemma_congruent_ops(v, v, inverted@, acc@ * prev, p);
            let a = acc@;
            assert(v * (a * prev) == a * (prev * v)) by (nonlinear_arith);
            lemma_congruent_ops(next@, a * v, prev, prev, p);
            assert((a * v) * prev == a * (prev * v)) by (nonlinear_arith);
        }
        values.set(i, inverted);
        if even {
            acc0 = next;
        } else {
            acc1 = next;
        }
    }
    true
}

/// The points have different first coordinates.
pub open spec fn are_apart(a: Pt, b: Pt) -> bool {
    match (a, b) {
        (Pt::At { x: x1, .. }, Pt::At { x: x2, .. }) => x1 != x2,
        _ => false,
    }
}

/// The difference of residues is zero only for equal residues.
pub(crate) proof fn lemma_apart_residues<M: Modulus>(u: Fe<M>, x: Fe<M>)
    ensures
        (u@ - x@) % M::p() == 0 <==> u@ == x@,
{
    M::lemma_modulus();
    u.lemma_view();
    x.lemma_view();
    if u@ != x@ {
        lemma_difference::<M>(u@, x@);
    }
    lemma_small_mod(0, M::p() as nat);
}

/// The affine coordinates of a point.
pub open spec fn is_affine_of<C: Curve>(a: Affine<C>, b: Pt) -> bool {
    match b {
        Pt::Infinity => a@ == Pt::Infinity,
        Pt::At { x, y } => a.x@ == x && a.y@ == y,
    }
}

/// The point with coordinates zero is not on the curve, so affine coordinates of points on the
/// curve stand for these points.
pub proof fn lemma_affine_of<C: Curve>(a: Affine<C>, b: Pt)
    requires
        is_affine_of(a, b),
        on_curve::<C>(b),
    ensures
        a@ == b,
{
    <C::Base as Modulus>::lemma_modulus();
    let p = <C::Base as Modulus>::p();
    lemma_small_mod(0, p as nat);
    lemma_small_mod(5, p as nat);
    if let Pt::At { x, y } = b {
        if x == 0 && y == 0 {
            assert(0 * 0 == 0int && 0 * 0 * 0 + 5 == 5int);
        }
    }
}

/// The affine coordinates of all points, with one shared inversion.
pub fn batch_normalize<C: Curve>(points: &Vec<Point<C>>) -> (r: Vec<Affine<C>>)
    ensures
        r@.len() == points@.len(),
        forall|i: int| 0 <= i < points@.len() ==> is_affine_of(#[trigger] r@[i], points@[i]@),
{
    let n = points.len();
    let mut zs: Vec<Fe<C::Base>> = Vec::new();
    let mut scratch: Vec<Fe<C::Base>> = Vec::new();
    let mut i: usize = 0;
    while i < n
        invariant
            i <= n,
            n == points@.len(),
            zs@.len() == i,
            scratch@.len() == i,
            forall|j: int|
                0 <= j < i ==> (#[trigger] zs@[j])@ == if points@[j].z@ == 0 {
                    1
                } else {
                    points@[j].z@
                },
        decreases n - i,
    {
        let z = points[i].z;
        if z.is_zero() {
            zs.push(Fe::one());
        } else {
            zs.push(z);
        }
        scratch.push(Fe::zero());
        i += 1;
    }
    let ghost zs0 = zs@;
    let inverted = batch_invert_nonzero(&mut zs, &mut scratch);
    assert(inverted);
    let mut r: Vec<Affine<C>> = Vec::new();
    let mut i: usize = 0;
    while i < n
        invariant
            i <= n,
            n == points@.len(),
            zs@.len() == n,
            zs0.len() == n,
            forall|j: int|
                0 <= j < n ==> (#[trigger] zs0[j])@ == if points@[j].z@ == 0 {
                    1
                } else {
                    points@[j].z@
                },
            forall|j: int|
                0 <= j < n ==> is_inverse(
                    zs0[j]@,
                    (#[trigger] zs@[j])@,
                    <C::Base as Modulus>::p(),
                ),
            r@.len() == i,
            forall|j: int| 0 <= j < i ==> is_affine_of(#[trigger] r@[j], points@[j]@),
        decreases n - i,
    {
        let point = points[i];
        proof {
            point.lemma_identity();
            assert(zs0[i as int]@ == if point.z@ == 0 {
                1
            } else {
                point.z@
            });
        }
        if point.is_identity() {
            r.push(Affine::identity());
        } else {
            let w = zs[i];
            let ww = w.square();
            let a = Affine { x: point.x.mul(ww), y: point.y.mul(ww.mul(w)) };
            proof {
                point.lemma_normal(w, ww, a.x, a.y);
            }
            r.push(a);
        }
        i += 1;
    }
    r
}

/// A slope computed with an inverse is a quotient.
pub(crate) proof fn lemma_slope<M: Modulus>(m: int, w: int, nr: int, dr: int, num: int, den: int)
    requires
        congruent(nr, num, M::p()),
        congruent(dr, den, M::p()),
        is_inverse(dr, w, M::p()),
        m == (nr * w) % M::p(),
    ensures
        den % M::p() != 0,
        m == quotient(num, den, M::p()),
        congruent(m * den, num, M::p()),
{
    M::lemma_modulus();
    let p = M::p();
    lemma_small_mod(1, p as nat);
    lemma_small_mod(0, p as nat);
    lemma_congruent_ops(dr, den, w, w, p);
    lemma_product::<M>(den, w);
    lemma_quotient::<M>(num, den);
    lemma_congruent_mod(nr * w, p);
    lemma_congruent_ops(m, nr * w, den, den, p);
    lemma_congruent_ops(nr, num, den * w, 1, p);
    assert((nr * w) * den == nr * (den * w)) by (nonlinear_arith);
    let t = quotient(num, den, p);
    assert(congruent(m * den, t * den, p));
    lemma_cancel::<M>(den, m, t);
    lemma_congruent_small(m, t, p);
}

/// The third point of a chord, reflected.
fn third_point<M: Modulus>(m: Fe<M>, x1: Fe<M>, y1: Fe<M>, x2: Fe<M>) -> (r: (Fe<M>, Fe<M>))
    ensures
        (Pt::At { x: r.0@, y: r.1@ }) == chord(m@, x1@, y1@, x2@, M::p()),
{
    let x = m.square().sub(x1).sub(x2);
    let y = m.mul(x1.sub(x)).sub(y1);
    proof {
        M::lemma_modulus();
        let p = M::p();
        lemma_congruent_mod(m@ * m@, p);
        lemma_congruent_ops((m@ * m@) % p, m@ * m@, x1@, x1@, p);
        let d = ((m@ * m@) % p - x1@) % p;
        lemma_congruent_mod((m@ * m@) % p - x1@, p);
        lemma_congruent_ops(d, m@ * m@ - x1@, x2@, x2@, p);
        let e = (x1@ - x@) % p;
        lemma_congruent_mod(x1@ - x@, p);
        lemma_congruent_ops(m@, m@, e, x1@ - x@, p);
        lemma_congruent_mod(m@ * e, p);
        lemma_congruent_ops((m@ * e) % p, m@ * (x1@ - x@), y1@, y1@, p);
    }
    (x, y)
}

/// The sum of two points with different first coordinates, given the inverse of their difference.
pub fn affine_add<C: Curve>(
    x1: Fe<C::Base>,
    y1: Fe<C::Base>,
    x2: Fe<C::Base>,
    y2: Fe<C::Base>,
    w: Fe<C::Base>,
) -> (r: (Fe<C::Base>, Fe<C::Base>))
    requires
        is_inverse((x2@ - x1@) % <C::Base as Modulus>::p(), w@, <C::Base as Modulus>::p()),
    ensures
        (Pt::At { x: r.0@, y: r.1@ }) == plus::<C>(
            Pt::At { x: x1@, y: y1@ },
            Pt::At { x: x2@, y: y2@ },
        ),
{
    proof {
        reveal(ec_add);
    }
    let n = y2.sub(y1);
    let m = n.mul(w);
    proof {
        <C::Base as Modulus>::lemma_modulus();
        let p = <C::Base as Modulus>::p();
        lemma_congruent_mod(y2@ - y1@, p);
        lemma_congruent_mod(x2@ - x1@, p);
        lemma_slope::<C::Base>(m@, w@, n@, (x2@ - x1@) % p, y2@ - y1@, x2@ - x1@);
        lemma_small_mod(0, p as nat);
    }
    third_point(m, x1, y1, x2)
}

/// The double of a point, given the inverse of twice the second coordinate.
pub fn affine_double<C: Curve>(x: Fe<C::Base>, y: Fe<C::Base>, w: Fe<C::Base>) -> (r: (
    Fe<C::Base>,
    Fe<C::Base>,
))
    requires
        is_inverse((2 * y@) % <C::Base as Modulus>::p(), w@, <C::Base as Modulus>::p()),
    ensures
        (Pt::At { x: r.0@, y: r.1@ }) == plus::<C>(
            Pt::At { x: x@, y: y@ },
            Pt::At { x: x@, y: y@ },
        ),
{
    proof {
        reveal(ec_add);
    }
    let xx = x.square();
    let n = xx.double().add(xx);
    let m = n.mul(w);
    proof {
        <C::Base as Modulus>::lemma_modulus();
        let p = <C::Base as Modulus>::p();
        let s = x@ * x@;
        lemma_congruent_mod(s, p);
        lemma_congruent_ops(xx@, s, xx@, s, p);
        lemma_congruent_mod(xx@ + xx@, p);
        lemma_congruent_mod(2 * xx@, p);
        let d = (xx@ + xx@) % p;
        lemma_congruent_ops(d, s + s, xx@, s, p);
        lemma_congruent_mod(d + xx@, p);
        assert(3 * x@ * x@ == s + s + s) by (nonlinear_arith)
            requires
                s == x@ * x@,
        ;
        lemma_congruent_mod(2 * y@, p);
        lemma_slope::<C::Base>(m@, w@, n@, (2 * y@) % p, 3 * x@ * x@, 2 * y@);
        lemma_small_mod(0, p as nat);
    }
    third_point(m, x, y, x)
}

/// The slope of the chord through two points and the first coordinate of their sum, given the
/// inverse of the difference of their first coordinates.
pub(crate) fn affine_chord<C: Curve>(
    x: Fe<C::Base>,
    y: Fe<C::Base>,
    u: Fe<C::Base>,
    v: Fe<C::Base>,
    w: Fe<C::Base>,
) -> (r: (Fe<C::Base>, Fe<C::Base>))
    requires
        is_inverse((u@ - x@) % <C::Base as Modulus>::p(), w@, <C::Base as Modulus>::p()),
    ensures
        u@ != x@,
        r.0@ == quotient(v@ - y@, u@ - x@, <C::Base as Modulus>::p()),
        plus::<C>(Pt::At { x: x@, y: y@ }, Pt::At { x: u@, y: v@ }) matches Pt::At { x: sx, .. }
            && sx == r.1@,
{
    proof {
        reveal(ec_add);
    }
    let n = v.sub(y);
    let m = n.mul(w);
    proof {
        <C::Base as Modulus>::lemma_modulus();
        let p = <C::Base as Modulus>::p();
        lemma_congruent_mod(v@ - y@, p);
        lemma_congruent_mod(u@ - x@, p);
        lemma_slope::<C::Base>(m@, w@, n@, (u@ - x@) % p, v@ - y@, u@ - x@);
        lemma_small_mod(0, p as nat);
        lemma_congruent_mod(m@ * m@, p);
        lemma_congruent_ops((m@ * m@) % p, m@ * m@, x@, x@, p);
        let d = ((m@ * m@) % p - x@) % p;
        lemma_congruent_mod((m@ * m@) % p - x@, p);
        lemma_congruent_ops(d, m@ * m@ - x@, u@, u@, p);
    }
    (m, m.square().sub(x).sub(u))
}

/// The sum of a point and its sum with another, without the second coordinate of the latter: `m`
/// is the slope of their chord, `x1` the first coordinate of their sum and `w` the inverse of
/// its difference from the point's.
pub(crate) fn affine_fused<C: Curve>(
    x: Fe<C::Base>,
    y: Fe<C::Base>,
    m: Fe<C::Base>,
    x1: Fe<C::Base>,
    w: Fe<C::Base>,
    Ghost(other): Ghost<(int, int)>,
) -> (r: (Fe<C::Base>, Fe<C::Base>))
    requires
        other.0 != x@,
        m@ == quotient(other.1 - y@, other.0 - x@, <C::Base as Modulus>::p()),
        plus::<C>(Pt::At { x: x@, y: y@ }, Pt::At { x: other.0, y: other.1 }) matches Pt::At {
            x: sx,
            ..
        } && sx == x1@,
        is_inverse((x1@ - x@) % <C::Base as Modulus>::p(), w@, <C::Base as Modulus>::p()),
    ensures
        (Pt::At { x: r.0@, y: r.1@ }) == plus::<C>(
            Pt::At { x: x@, y: y@ },
            plus::<C>(Pt::At { x: x@, y: y@ }, Pt::At { x: other.0, y: other.1 }),
        ),
{
    proof {
        reveal(ec_add);
    }
    let yy = y.double();
    let q = yy.mul(w);
    let t = m.add(q).neg();
    proof {
        <C::Base as Modulus>::lemma_modulus();
        let p = <C::Base as Modulus>::p();
        let (xv, yv, mv, x1v) = (x@, y@, m@, x1@);
        let sy = (mv * (xv - x1v) - yv) % p;
        let d = x1v - xv;
        lemma_congruent_mod(2 * yv, p);
        lemma_congruent_mod(d, p);
        // The quotient of twice the second coordinate by the difference.
        lemma_slope::<C::Base>(q@, w@, yy@, d % p, 2 * yv, d);
        lemma_small_mod(0, p as nat);
        // The slope of the second chord.
        lemma_congruent_mod(mv * (xv - x1v) - yv, p);
        lemma_congruent_ops(sy, mv * (xv - x1v) - yv, yv, yv, p);
        lemma_congruent_mod(mv + q@, p);
        lemma_congruent_mod(-((mv + q@) % p), p);
        lemma_congruent_ops(0, 0, (mv + q@) % p, mv + q@, p);
        lemma_congruent_ops(t@, 0 - (mv + q@), d, d, p);
        let qv = q@;
        assert((0 - (mv + qv)) * d == 0 - mv * d - qv * d) by (nonlinear_arith);
        assert(mv * (xv - x1v) == 0 - mv * d) by (nonlinear_arith)
            requires
                d == x1v - xv,
        ;
        lemma_congruent_ops(0 - mv * d, 0 - mv * d, qv * d, 2 * yv, p);
        assert(congruent(t@ * d, sy - yv, p));
        lemma_quotient::<C::Base>(sy - yv, d);
        t.lemma_view();
        lemma_cancel::<C::Base>(d, t@, quotient(sy - yv, d, p));
        lemma_congruent_small(t@, quotient(sy - yv, d, p), p);
        assert(plus::<C>(Pt::At { x: xv, y: yv }, Pt::At { x: other.0, y: other.1 }) == (Pt::At {
            x: x1v,
            y: sy,
        }));
    }
    third_point(t, x, y, x1)
}

} // verus!

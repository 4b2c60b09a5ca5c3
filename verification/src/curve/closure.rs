//! Chords and tangents meet the curve in a third point.
use crate::curve::law::{
    chord, ec_add, lemma_cancel, lemma_difference, lemma_product, lemma_quotient, on_curve, plus,
    quotient, Pt,
};
use crate::curve::Curve;
use crate::field::congruence::{
    congruent, lemma_congruent_mod, lemma_congruent_ops, lemma_congruent_small,
};
use crate::field::Modulus;
use vstd::arithmetic::div_mod::lemma_small_mod;
use vstd::prelude::*;

verus! {

/// The coefficients of what is left of the cubic on a line after its three roots.
spec fn linear_rest(m: int, x1: int, x2: int, c: int) -> (int, int) {
    let x3 = m * m - x1 - x2;
    (-(2 * m * c) - (x1 * x2 + x1 * x3 + x2 * x3), 5 - c * c + x1 * x2 * x3)
}

/// On a line the cubic is the product of its roots, up to a linear rest.
proof fn lemma_cubic(m: int, x1: int, x2: int, c: int, t: int)
    ensures
        t * t * t + 5 - (m * t + c) * (m * t + c) == (t - x1) * (t - x2) * (t - (m * m - x1 - x2))
            + linear_rest(m, x1, x2, c).0 * t + linear_rest(m, x1, x2, c).1,
{
    let x3 = m * m - x1 - x2;
    let s = x1 + x2;
    let q = x1 * x2;
    assert((t - x1) * (t - x2) == t * t - s * t + q) by (nonlinear_arith)
        requires
            s == x1 + x2,
            q == x1 * x2,
    ;
    let u = t * t;
    assert((u - s * t + q) * (t - x3) == u * t - (s * t) * t + q * t - u * x3 + (s * t) * x3 - q * x3)
        by (nonlinear_arith);
    assert((s * t) * t == s * u) by (nonlinear_arith)
        requires
            u == t * t,
    ;
    assert((s * t) * x3 == (s * x3) * t) by (nonlinear_arith);
    assert(s * x3 == x1 * x3 + x2 * x3) by (nonlinear_arith)
        requires
            s == x1 + x2,
    ;
    assert((m * t + c) * (m * t + c) == (m * m) * (t * t) + (2 * m * c) * t + c * c)
        by (nonlinear_arith);
    let w = m * m;
    assert(s * u + u * x3 == w * u) by (nonlinear_arith)
        requires
            x3 == w - s,
    ;
    let l = -(2 * m * c) - (q + x1 * x3 + x2 * x3);
    assert(l * t == -((2 * m * c) * t) - q * t - (s * x3) * t) by (nonlinear_arith)
        requires
            l == -(2 * m * c) - (q + s * x3),
    ;
    assert(x1 * x2 * x3 == q * x3);
    assert(u * t == t * t * t);
}

/// Where the linear rest vanishes, the third point on the line is on the curve.
proof fn lemma_third_point<C: Curve>(m: int, x1: int, y1: int, x2: int)
    requires
        congruent(linear_rest(m, x1, x2, y1 - m * x1).0, 0, <C::Base as Modulus>::p()),
        congruent(linear_rest(m, x1, x2, y1 - m * x1).1, 0, <C::Base as Modulus>::p()),
    ensures
        on_curve::<C>(chord(m, x1, y1, x2, <C::Base as Modulus>::p())),
{
    <C::Base as Modulus>::lemma_modulus();
    let p = <C::Base as Modulus>::p();
    let c = y1 - m * x1;
    let big = m * m - x1 - x2;
    let (a, b) = linear_rest(m, x1, x2, c);
    lemma_cubic(m, x1, x2, c, big);
    assert((big - x1) * (big - x2) * (big - big) == 0) by (nonlinear_arith);
    lemma_congruent_ops(a, 0, big, big, p);
    assert(0 * big == 0);
    lemma_congruent_ops(a * big, 0, b, 0, p);
    let cube = big * big * big + 5;
    let line = m * big + c;
    // The cube and the square of the line are congruent.
    lemma_congruent_ops(a * big + b, 0, line * line, line * line, p);
    assert(congruent(cube, line * line, p));
    let x = big % p;
    lemma_congruent_mod(big, p);
    let raw = m * (x1 - x) - y1;
    let y = raw % p;
    lemma_congruent_mod(raw, p);
    lemma_congruent_ops(x1, x1, x, big, p);
    lemma_congruent_ops(m, m, x1 - x, x1 - big, p);
    lemma_congruent_ops(m * (x1 - x), m * (x1 - big), y1, y1, p);
    assert(m * (x1 - big) - y1 == -line) by (nonlinear_arith)
        requires
            line == m * big + c,
            c == y1 - m * x1,
    ;
    assert(congruent(y, -line, p));
    lemma_congruent_ops(y, -line, y, -line, p);
    assert((-line) * (-line) == line * line) by (nonlinear_arith);
    lemma_congruent_ops(x, big, x, big, p);
    lemma_congruent_ops(x * x, big * big, x, big, p);
    lemma_congruent_ops(x * x * x, big * big * big, 5, 5, p);
}

/// The chord of two points of the curve leads to a third.
proof fn lemma_chord_closed<C: Curve>(x1: int, y1: int, x2: int, y2: int)
    requires
        on_curve::<C>(Pt::At { x: x1, y: y1 }),
        on_curve::<C>(Pt::At { x: x2, y: y2 }),
        x1 != x2,
    ensures
        on_curve::<C>(
            chord(
                quotient(y2 - y1, x2 - x1, <C::Base as Modulus>::p()),
                x1,
                y1,
                x2,
                <C::Base as Modulus>::p(),
            ),
        ),
{
    <C::Base as Modulus>::lemma_modulus();
    let p = <C::Base as Modulus>::p();
    let m = quotient(y2 - y1, x2 - x1, p);
    lemma_difference::<C::Base>(x2, x1);
    lemma_quotient::<C::Base>(y2 - y1, x2 - x1);
    let c = y1 - m * x1;
    let (a, b) = linear_rest(m, x1, x2, c);
    let third = m * m - x1 - x2;
    lemma_cubic(m, x1, x2, c, x1);
    assert((x1 - x1) * (x1 - x2) * (x1 - third) == 0) by (nonlinear_arith);
    assert(m * x1 + c == y1);
    let f1 = x1 * x1 * x1 + 5 - y1 * y1;
    lemma_congruent_ops(x1 * x1 * x1 + 5, y1 * y1, y1 * y1, y1 * y1, p);
    assert(congruent(f1, 0, p));
    assert(a * x1 + b == f1);
    lemma_cubic(m, x1, x2, c, x2);
    assert((x2 - x1) * (x2 - x2) * (x2 - third) == 0) by (nonlinear_arith);
    let e = m * x2 + c;
    assert(e == m * (x2 - x1) + y1) by (nonlinear_arith)
        requires
            e == m * x2 + c,
            c == y1 - m * x1,
    ;
    lemma_congruent_ops(m * (x2 - x1), y2 - y1, y1, y1, p);
    assert(congruent(e, y2, p));
    lemma_congruent_ops(e, y2, e, y2, p);
    let f2 = x2 * x2 * x2 + 5 - e * e;
    lemma_congruent_ops(x2 * x2 * x2 + 5, y2 * y2, e * e, y2 * y2, p);
    assert(congruent(f2, 0, p));
    assert(a * x2 + b == f2);
    // The rest vanishes at two places.
    lemma_congruent_ops(f2, 0, f1, 0, p);
    assert(a * (x2 - x1) == f2 - f1) by (nonlinear_arith)
        requires
            a * x1 + b == f1,
            a * x2 + b == f2,
    ;
    assert(0 * (x2 - x1) == 0);
    lemma_cancel::<C::Base>(x2 - x1, a, 0);
    lemma_congruent_ops(a, 0, x1, x1, p);
    assert(0 * x1 == 0);
    lemma_congruent_ops(f1, 0, a * x1, 0, p);
    assert(b == f1 - a * x1);
    lemma_third_point::<C>(m, x1, y1, x2);
}

/// The tangent at a point of the curve leads to another.
proof fn lemma_tangent_closed<C: Curve>(x: int, y: int)
    requires
        on_curve::<C>(Pt::At { x, y }),
        y != 0,
    ensures
        on_curve::<C>(
            chord(
                quotient(3 * x * x, 2 * y, <C::Base as Modulus>::p()),
                x,
                y,
                x,
                <C::Base as Modulus>::p(),
            ),
        ),
{
    <C::Base as Modulus>::lemma_modulus();
    let p = <C::Base as Modulus>::p();
    let m = quotient(3 * x * x, 2 * y, p);
    lemma_small_mod(2, p as nat);
    lemma_small_mod(y as nat, p as nat);
    lemma_product::<C::Base>(2, y);
    lemma_quotient::<C::Base>(3 * x * x, 2 * y);
    let c = y - m * x;
    let (a, b) = linear_rest(m, x, x, c);
    let third = m * m - x - x;
    assert(a == 3 * x * x - m * (2 * y)) by {
        assert(2 * m * c == 2 * m * y - 2 * ((m * m) * x)) by (nonlinear_arith)
            requires
                c == y - m * x,
        ;
        assert(x * third == (m * m) * x - x * x - x * x) by (nonlinear_arith)
            requires
                third == m * m - x - x,
        ;
        assert(m * (2 * y) == 2 * m * y) by (nonlinear_arith);
        assert(3 * x * x == 3 * (x * x)) by (nonlinear_arith);
    }
    lemma_congruent_ops(3 * x * x, 3 * x * x, m * (2 * y), 3 * x * x, p);
    assert(congruent(a, 0, p));
    lemma_cubic(m, x, x, c, x);
    assert((x - x) * (x - x) * (x - third) == 0) by (nonlinear_arith);
    assert(m * x + c == y);
    let f = x * x * x + 5 - y * y;
    lemma_congruent_ops(x * x * x + 5, y * y, y * y, y * y, p);
    assert(congruent(f, 0, p));
    assert(a * x + b == f);
    lemma_congruent_ops(a, 0, x, x, p);
    assert(0 * x == 0);
    lemma_congruent_ops(f, 0, a * x, 0, p);
    lemma_third_point::<C>(m, x, y, x);
}

/// The sum of points of the curve is one.
pub proof fn lemma_sum_closed<C: Curve>(a: Pt, b: Pt)
    requires
        on_curve::<C>(a),
        on_curve::<C>(b),
    ensures
        on_curve::<C>(plus::<C>(a, b)),
{
    reveal(ec_add);
    if let (Pt::At { x: x1, y: y1 }, Pt::At { x: x2, y: y2 }) = (a, b) {
        if x1 != x2 {
            lemma_chord_closed::<C>(x1, y1, x2, y2);
        } else if y1 == y2 && y1 != 0 {
            lemma_tangent_closed::<C>(x1, y1);
        }
    }
}

/// Addition is commutative.
pub proof fn lemma_sum_commutative<C: Curve>(a: Pt, b: Pt)
    requires
        on_curve::<C>(a),
        on_curve::<C>(b),
    ensures
        plus::<C>(a, b) == plus::<C>(b, a),
{
    reveal(ec_add);
    <C::Base as Modulus>::lemma_modulus();
    let p = <C::Base as Modulus>::p();
    if let (Pt::At { x: x1, y: y1 }, Pt::At { x: x2, y: y2 }) = (a, b) {
        if x1 != x2 {
            let m = quotient(y2 - y1, x2 - x1, p);
            let n = quotient(y1 - y2, x1 - x2, p);
            lemma_difference::<C::Base>(x2, x1);
            lemma_difference::<C::Base>(x1, x2);
            lemma_quotient::<C::Base>(y2 - y1, x2 - x1);
            lemma_quotient::<C::Base>(y1 - y2, x1 - x2);
            lemma_congruent_ops(0, 0, n * (x1 - x2), y1 - y2, p);
            assert(n * (x2 - x1) == 0 - n * (x1 - x2)) by (nonlinear_arith);
            lemma_cancel::<C::Base>(x2 - x1, m, n);
            lemma_congruent_small(m, n, p);
            let x = (m * m - x1 - x2) % p;
            assert(m * m - x1 - x2 == m * m - x2 - x1);
            let (v, w) = (m * (x1 - x) - y1, m * (x2 - x) - y2);
            assert(w == v + (m * (x2 - x1) - (y2 - y1))) by (nonlinear_arith)
                requires
                    v == m * (x1 - x) - y1,
                    w == m * (x2 - x) - y2,
            ;
            lemma_congruent_ops(m * (x2 - x1), y2 - y1, y2 - y1, y2 - y1, p);
            lemma_congruent_ops(v, v, m * (x2 - x1) - (y2 - y1), 0, p);
        }
    }
}

} // verus!

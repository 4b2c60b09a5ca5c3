//! Addition of points is associative.
//!
//! A chord or a tangent is known by its slope, for which the same two equations hold in both
//! cases. The slopes of the four lines in the sums of three points determine each other.
use crate::curve::closure::{lemma_sum_closed, lemma_sum_commutative};
use crate::curve::law::{
    chord, ec_add, lemma_cancel, lemma_difference, lemma_inverse_point, lemma_product,
    lemma_quotient, minus, on_curve, plus, quotient, Pt,
};
use crate::curve::Curve;
use crate::field::congruence::{
    congruent, lemma_congruent_mod, lemma_congruent_ops, lemma_congruent_small,
};
use crate::field::Modulus;
use vstd::arithmetic::div_mod::lemma_small_mod;
use vstd::prelude::*;

verus! {

/// `m` is the slope of the line through two points, or of the tangent where they are the same.
pub open spec fn is_slope(m: int, x1: int, y1: int, x2: int, y2: int, p: int) -> bool {
    &&& congruent(y1 - y2, m * (x1 - x2), p)
    &&& congruent(m * (y1 + y2), x1 * x1 + x1 * x2 + x2 * x2, p)
}

/// Points that add up to the neutral element are opposite.
pub proof fn lemma_opposite<C: Curve>(a: Pt, b: Pt)
    requires
        on_curve::<C>(a),
        on_curve::<C>(b),
        plus::<C>(a, b) == Pt::Infinity,
    ensures
        a == minus::<C>(b),
        b == minus::<C>(a),
{
    reveal(ec_add);
    <C::Base as Modulus>::lemma_modulus();
    let p = <C::Base as Modulus>::p();
    lemma_inverse_point::<C>(b);
    if let (Pt::At { x: x1, y: y1 }, Pt::At { x: x2, y: y2 }) = (a, b) {
        assert(x1 == x2);
        lemma_congruent_ops(y1 * y1, x1 * x1 * x1 + 5, y2 * y2, x2 * x2 * x2 + 5, p);
        assert((y1 - y2) * (y1 + y2) == y1 * y1 - y2 * y2) by (nonlinear_arith);
        lemma_small_mod(0, p as nat);
        lemma_product::<C::Base>(y1 - y2, y1 + y2);
        if y1 == y2 {
            assert(y1 == 0);
        } else {
            lemma_difference::<C::Base>(y1, y2);
            lemma_congruent_ops(y1 + y2, 0, y2, y2, p);
        }
        lemma_congruent_mod(-y2, p);
        assert(congruent(y1, -y2, p));
        lemma_congruent_small(y1, (-y2) % p, p);
    }
}

/// A point and its opposite add up to the neutral element, and no others do.
proof fn lemma_opposite_coordinates<C: Curve>(x1: int, y1: int, x2: int, y2: int)
    requires
        on_curve::<C>(Pt::At { x: x1, y: y1 }),
        on_curve::<C>(Pt::At { x: x2, y: y2 }),
        x1 == x2,
        congruent(y1, -y2, <C::Base as Modulus>::p()),
    ensures
        plus::<C>(Pt::At { x: x1, y: y1 }, Pt::At { x: x2, y: y2 }) == Pt::Infinity,
{
    let p = <C::Base as Modulus>::p();
    <C::Base as Modulus>::lemma_modulus();
    let b = Pt::At { x: x2, y: y2 };
    lemma_congruent_mod(-y2, p);
    lemma_congruent_small(y1, (-y2) % p, p);
    lemma_inverse_point::<C>(b);
    lemma_inverse_point::<C>(minus::<C>(b));
}

/// Chords of congruent slopes and points.
pub proof fn lemma_chord_congruent(
    m: int,
    x1: int,
    y1: int,
    x2: int,
    n: int,
    u1: int,
    v1: int,
    u2: int,
    p: int,
)
    requires
        p > 0,
        congruent(m, n, p),
        congruent(x1, u1, p),
        congruent(y1, v1, p),
        congruent(x2, u2, p),
    ensures
        chord(m, x1, y1, x2, p) == chord(n, u1, v1, u2, p),
{
    lemma_congruent_ops(m, n, m, n, p);
    lemma_congruent_ops(m * m, n * n, x1, u1, p);
    lemma_congruent_ops(m * m - x1, n * n - u1, x2, u2, p);
    let x = (m * m - x1 - x2) % p;
    lemma_congruent_ops(x1, u1, x, x, p);
    lemma_congruent_ops(m, n, x1 - x, u1 - x, p);
    lemma_congruent_ops(m * (x1 - x), n * (u1 - x), y1, v1, p);
}

/// The sum of points that are not opposite is given by the slope.
pub proof fn lemma_by_slope<C: Curve>(m: int, x1: int, y1: int, x2: int, y2: int)
    requires
        on_curve::<C>(Pt::At { x: x1, y: y1 }),
        on_curve::<C>(Pt::At { x: x2, y: y2 }),
        plus::<C>(Pt::At { x: x1, y: y1 }, Pt::At { x: x2, y: y2 }) != Pt::Infinity,
        is_slope(m, x1, y1, x2, y2, <C::Base as Modulus>::p()),
    ensures
        plus::<C>(Pt::At { x: x1, y: y1 }, Pt::At { x: x2, y: y2 }) == chord(
            m,
            x1,
            y1,
            x2,
            <C::Base as Modulus>::p(),
        ),
{
    reveal(ec_add);
    <C::Base as Modulus>::lemma_modulus();
    let p = <C::Base as Modulus>::p();
    if x1 != x2 {
        let q = quotient(y2 - y1, x2 - x1, p);
        lemma_difference::<C::Base>(x2, x1);
        lemma_quotient::<C::Base>(y2 - y1, x2 - x1);
        lemma_congruent_ops(0, 0, y1 - y2, m * (x1 - x2), p);
        assert(m * (x2 - x1) == 0 - m * (x1 - x2)) by (nonlinear_arith);
        lemma_cancel::<C::Base>(x2 - x1, m, q);
        lemma_chord_congruent(m, x1, y1, x2, q, x1, y1, x2, p);
    } else {
        assert(y1 == y2 && y1 != 0);
        let q = quotient(3 * x1 * x1, 2 * y1, p);
        lemma_small_mod(2, p as nat);
        lemma_small_mod(y1 as nat, p as nat);
        lemma_product::<C::Base>(2, y1);
        lemma_quotient::<C::Base>(3 * x1 * x1, 2 * y1);
        assert(m * (y1 + y1) == m * (2 * y1)) by (nonlinear_arith);
        assert(3 * x1 * x1 == x1 * x1 + x1 * x1 + x1 * x1) by (nonlinear_arith);
        lemma_cancel::<C::Base>(2 * y1, m, q);
        lemma_chord_congruent(m, x1, y1, x2, q, x1, y1, x1, p);
    }
}

/// Points that are not opposite have a slope.
pub proof fn lemma_slope_exists<C: Curve>(x1: int, y1: int, x2: int, y2: int) -> (m: int)
    requires
        on_curve::<C>(Pt::At { x: x1, y: y1 }),
        on_curve::<C>(Pt::At { x: x2, y: y2 }),
        plus::<C>(Pt::At { x: x1, y: y1 }, Pt::At { x: x2, y: y2 }) != Pt::Infinity,
    ensures
        is_slope(m, x1, y1, x2, y2, <C::Base as Modulus>::p()),
        0 <= m < <C::Base as Modulus>::p(),
{
    reveal(ec_add);
    <C::Base as Modulus>::lemma_modulus();
    let p = <C::Base as Modulus>::p();
    if x1 != x2 {
        let m = quotient(y2 - y1, x2 - x1, p);
        lemma_difference::<C::Base>(x2, x1);
        lemma_quotient::<C::Base>(y2 - y1, x2 - x1);
        lemma_congruent_ops(0, 0, m * (x2 - x1), y2 - y1, p);
        assert(m * (x1 - x2) == 0 - m * (x2 - x1)) by (nonlinear_arith);
        // The second equation times the difference is the difference of the curve equations.
        let (f, g) = (m * (y1 + y2), x1 * x1 + x1 * x2 + x2 * x2);
        let (d, s) = (x2 - x1, y1 + y2);
        lemma_congruent_ops(m * d, y2 - y1, s, s, p);
        assert((m * d) * s == (m * s) * d) by (nonlinear_arith);
        assert((y2 - y1) * s == y2 * y2 - y1 * y1) by (nonlinear_arith)
            requires
                s == y1 + y2,
        ;
        lemma_congruent_ops(y2 * y2, x2 * x2 * x2 + 5, y1 * y1, x1 * x1 * x1 + 5, p);
        assert(g * d == x2 * x2 * x2 - x1 * x1 * x1) by {
            let (a, b, c) = (x1 * x1, x1 * x2, x2 * x2);
            assert((a + b + c) * (x2 - x1) == a * x2 + b * x2 + c * x2 - a * x1 - b * x1 - c * x1)
                by (nonlinear_arith);
            assert((x1 * x1) * x2 == (x1 * x2) * x1 && (x1 * x2) * x2 == (x2 * x2) * x1)
                by (nonlinear_arith);
        }
        lemma_cancel::<C::Base>(d, f, g);
        m
    } else {
        assert(y1 == y2 && y1 != 0);
        let m = quotient(3 * x1 * x1, 2 * y1, p);
        lemma_small_mod(2, p as nat);
        lemma_small_mod(y1 as nat, p as nat);
        lemma_product::<C::Base>(2, y1);
        lemma_quotient::<C::Base>(3 * x1 * x1, 2 * y1);
        assert(m * (y1 + y1) == m * (2 * y1)) by (nonlinear_arith);
        assert(3 * x1 * x1 == x1 * x1 + x1 * x1 + x1 * x1) by (nonlinear_arith);
        assert(m * (x1 - x1) == 0) by (nonlinear_arith);
        m
    }
}

/// The slope of the line through a point and the opposite of a sum.
proof fn lemma_third_slope<C: Curve>(m: int, x1: int, y1: int, x2: int, y2: int, x: int, y: int)
    requires
        is_slope(m, x1, y1, x2, y2, <C::Base as Modulus>::p()),
        congruent(x, m * m - x1 - x2, <C::Base as Modulus>::p()),
        congruent(y, m * (x1 - x) - y1, <C::Base as Modulus>::p()),
    ensures
        is_slope(-m, x1, -y1, x, y, <C::Base as Modulus>::p()),
{
    <C::Base as Modulus>::lemma_modulus();
    let p = <C::Base as Modulus>::p();
    // The first equation.
    let t = m * (x1 - x);
    lemma_congruent_ops(-y1, -y1, y, t - y1, p);
    assert((-m) * (x1 - x) == -t) by (nonlinear_arith)
        requires
            t == m * (x1 - x),
    ;
    // The second equation.
    let z = -y1 + y;
    lemma_congruent_ops(-y1, -y1, y, t - y1, p);
    lemma_congruent_ops(-m, -m, z, t - 2 * y1, p);
    let w = m * m;
    assert((-m) * (t - 2 * y1) == 2 * (m * y1) - w * (x1 - x)) by {
        assert((-m) * (t - 2 * y1) == 2 * (m * y1) - m * t) by (nonlinear_arith);
        assert(m * (m * (x1 - x)) == (m * m) * (x1 - x)) by (nonlinear_arith);
    }
    // Twice the product of the slope and the coordinate.
    let q = x1 * x1 + x1 * x2 + x2 * x2;
    let d = y1 - y2 - m * (x1 - x2);
    lemma_congruent_ops(y1 - y2, m * (x1 - x2), m * (x1 - x2), m * (x1 - x2), p);
    lemma_congruent_ops(m, m, d, 0, p);
    assert(m * 0 == 0);
    assert(2 * (m * y1) == m * (y1 + y2) + m * d + w * (x1 - x2)) by {
        let e = x1 - x2;
        assert(m * (y1 + y2) + m * (y1 - y2 - m * e) == 2 * (m * y1) - m * (m * e))
            by (nonlinear_arith);
        assert(m * (m * e) == (m * m) * e) by (nonlinear_arith);
    }
    lemma_congruent_ops(m * (y1 + y2), q, m * d, 0, p);
    let (f, g) = (w * (x1 - x2), w * (x1 - x));
    lemma_congruent_ops(m * (y1 + y2) + m * d, q, f, f, p);
    lemma_congruent_ops(2 * (m * y1), q + f, g, g, p);
    assert(f - g == w * (x - x2)) by (nonlinear_arith)
        requires
            f == w * (x1 - x2),
            g == w * (x1 - x),
    ;
    let h = x + x1 + x2;
    lemma_congruent_ops(x, w - x1 - x2, x1 + x2, x1 + x2, p);
    lemma_congruent_ops(h, w, x - x2, x - x2, p);
    lemma_congruent_ops(q, q, h * (x - x2), w * (x - x2), p);
    assert(q + h * (x - x2) == x1 * x1 + x1 * x + x * x) by {
        let b = x1 + x2;
        assert((x + b) * (x - x2) == x * x + b * x - x * x2 - b * x2) by (nonlinear_arith);
        assert((x1 + x2) * x == x1 * x + x2 * x) by (nonlinear_arith);
        assert((x1 + x2) * x2 == x1 * x2 + x2 * x2) by (nonlinear_arith);
        assert(x * x2 == x2 * x) by (nonlinear_arith);
    }
}

/// A sum with one of its summands is not the other one.
proof fn lemma_moves<C: Curve>(a: Pt, c: Pt)
    requires
        on_curve::<C>(a),
        on_curve::<C>(c),
        c != Pt::Infinity,
    ensures
        plus::<C>(a, c) != a,
{
    reveal(ec_add);
    <C::Base as Modulus>::lemma_modulus();
    let p = <C::Base as Modulus>::p();
    if plus::<C>(a, c) == a {
        if let (Pt::At { x: x1, y: y1 }, Pt::At { x: x2, y: y2 }) = (a, c) {
            let m = lemma_slope_exists::<C>(x1, y1, x2, y2);
            lemma_by_slope::<C>(m, x1, y1, x2, y2);
            lemma_congruent_mod(m * m - x1 - x2, p);
            lemma_congruent_mod(m * (x1 - x1) - y1, p);
            assert(m * (x1 - x1) == 0) by (nonlinear_arith);
            lemma_third_slope::<C>(m, x1, y1, x2, y2, x1, y1);
            // The point is its own opposite.
            lemma_congruent_ops(y1, -y1, y1, y1, p);
            lemma_small_mod(0, p as nat);
            lemma_small_mod(2, p as nat);
            lemma_small_mod(3, p as nat);
            lemma_small_mod(5, p as nat);
            lemma_product::<C::Base>(2, y1);
            lemma_small_mod(y1 as nat, p as nat);
            assert(y1 == 0);
            assert((-m) * (-y1 + y1) == 0) by (nonlinear_arith);
            assert(x1 * x1 + x1 * x1 + x1 * x1 == 3 * (x1 * x1)) by (nonlinear_arith);
            lemma_product::<C::Base>(3, x1 * x1);
            lemma_product::<C::Base>(x1, x1);
            lemma_small_mod(x1 as nat, p as nat);
            assert(x1 == 0);
            assert(false);
        }
    }
}

/// Adding a point and taking it away again.
pub proof fn lemma_take_away<C: Curve>(a: Pt, c: Pt)
    requires
        on_curve::<C>(a),
        on_curve::<C>(c),
    ensures
        plus::<C>(minus::<C>(a), plus::<C>(a, c)) == c,
{
    <C::Base as Modulus>::lemma_modulus();
    let p = <C::Base as Modulus>::p();
    lemma_inverse_point::<C>(a);
    lemma_sum_closed::<C>(a, c);
    let b = minus::<C>(a);
    lemma_sum_commutative::<C>(a, b);
    if a == Pt::Infinity || c == Pt::Infinity {
        reveal(ec_add);
    } else if plus::<C>(a, c) == Pt::Infinity {
        lemma_opposite::<C>(a, c);
        reveal(ec_add);
    } else if let (Pt::At { x: x1, y: y1 }, Pt::At { x: x2, y: y2 }) = (a, c) {
        let m = lemma_slope_exists::<C>(x1, y1, x2, y2);
        lemma_by_slope::<C>(m, x1, y1, x2, y2);
        let x = (m * m - x1 - x2) % p;
        let y = (m * (x1 - x) - y1) % p;
        let s = Pt::At { x, y };
        assert(plus::<C>(a, c) == s);
        lemma_congruent_mod(m * m - x1 - x2, p);
        lemma_congruent_mod(m * (x1 - x) - y1, p);
        lemma_third_slope::<C>(m, x1, y1, x2, y2, x, y);
        let z = (-y1) % p;
        lemma_congruent_mod(-y1, p);
        lemma_slope_congruent(-m, x1, -y1, x, y, x1, z, x, y, p);
        if plus::<C>(b, s) == Pt::Infinity {
            lemma_opposite::<C>(b, s);
            lemma_moves::<C>(a, c);
        }
        lemma_by_slope::<C>(-m, x1, z, x, y);
        // The chord leads back to the other point.
        assert((-m) * (-m) == m * m) by (nonlinear_arith);
        let u = m * m - x1 - x;
        lemma_congruent_ops(m * m - x1, m * m - x1, x, m * m - x1 - x2, p);
        assert(congruent(u, x2, p));
        lemma_small_mod(x2 as nat, p as nat);
        let v = (-m) * (x1 - x2) - z;
        lemma_congruent_ops(0, 0, y1 - y2, m * (x1 - x2), p);
        assert((-m) * (x1 - x2) == 0 - m * (x1 - x2)) by (nonlinear_arith);
        lemma_congruent_ops((-m) * (x1 - x2), 0 - (y1 - y2), z, -y1, p);
        assert(congruent(v, y2, p));
        lemma_small_mod(y2 as nat, p as nat);
    }
}

/// Slopes of congruent coordinates.
pub proof fn lemma_slope_congruent(
    m: int,
    x1: int,
    y1: int,
    x2: int,
    y2: int,
    u1: int,
    v1: int,
    u2: int,
    v2: int,
    p: int,
)
    requires
        p > 0,
        is_slope(m, x1, y1, x2, y2, p),
        congruent(x1, u1, p),
        congruent(y1, v1, p),
        congruent(x2, u2, p),
        congruent(y2, v2, p),
    ensures
        is_slope(m, u1, v1, u2, v2, p),
{
    lemma_congruent_ops(y1, v1, y2, v2, p);
    lemma_congruent_ops(x1, u1, x2, u2, p);
    lemma_congruent_ops(m, m, x1 - x2, u1 - u2, p);
    lemma_congruent_ops(m, m, y1 + y2, v1 + v2, p);
    lemma_congruent_ops(x1, u1, x1, u1, p);
    lemma_congruent_ops(x2, u2, x2, u2, p);
    lemma_congruent_ops(x1 * x1, u1 * u1, x1 * x2, u1 * u2, p);
    lemma_congruent_ops(x1 * x1 + x1 * x2, u1 * u1 + u1 * u2, x2 * x2, u2 * u2, p);
}

/// The opposite of a sum is the sum of the opposites.
pub proof fn lemma_minus_sum<C: Curve>(a: Pt, b: Pt)
    requires
        on_curve::<C>(a),
        on_curve::<C>(b),
    ensures
        minus::<C>(plus::<C>(a, b)) == plus::<C>(minus::<C>(a), minus::<C>(b)),
{
    <C::Base as Modulus>::lemma_modulus();
    let p = <C::Base as Modulus>::p();
    lemma_inverse_point::<C>(a);
    lemma_inverse_point::<C>(b);
    let (c, d) = (minus::<C>(a), minus::<C>(b));
    if a == Pt::Infinity || b == Pt::Infinity {
        reveal(ec_add);
    } else if plus::<C>(a, b) == Pt::Infinity {
        lemma_opposite::<C>(a, b);
        lemma_sum_commutative::<C>(a, b);
    } else if let (Pt::At { x: x1, y: y1 }, Pt::At { x: x2, y: y2 }) = (a, b) {
        let m = lemma_slope_exists::<C>(x1, y1, x2, y2);
        lemma_by_slope::<C>(m, x1, y1, x2, y2);
        let (v1, v2) = ((-y1) % p, (-y2) % p);
        lemma_congruent_mod(-y1, p);
        lemma_congruent_mod(-y2, p);
        lemma_congruent_ops(0, 0, y1 - y2, m * (x1 - x2), p);
        assert((-m) * (x1 - x2) == 0 - m * (x1 - x2)) by (nonlinear_arith);
        assert((-m) * (-y1 + -y2) == m * (y1 + y2)) by (nonlinear_arith);
        lemma_slope_congruent(-m, x1, -y1, x2, -y2, x1, v1, x2, v2, p);
        if plus::<C>(c, d) == Pt::Infinity {
            lemma_opposite::<C>(c, d);
            lemma_inverse_point::<C>(b);
            lemma_sum_commutative::<C>(a, b);
            assert(false);
        }
        lemma_by_slope::<C>(-m, x1, v1, x2, v2);
        assert((-m) * (-m) == m * m) by (nonlinear_arith);
        let x = (m * m - x1 - x2) % p;
        let t = m * (x1 - x);
        let y = (t - y1) % p;
        lemma_congruent_mod(t - y1, p);
        assert((-m) * (x1 - x) == -t) by (nonlinear_arith)
            requires
                t == m * (x1 - x),
        ;
        lemma_congruent_ops(-t, -t, v1, -y1, p);
        lemma_congruent_ops(0, 0, y, t - y1, p);
        assert(congruent(-y, -t - v1, p));
    }
}

/// The slope of the line through a third point and the sum of two points.
///
/// The middle point is `(x, y)`, the lines from it to the first and to the third point have the
/// slopes `l` and `m`, and the third point is `c` to the right of it.
proof fn lemma_next_slope(l: int, m: int, r: int, c: int, x: int, y: int, d: int, p: int)
    requires
        p > 0,
        d == 2 * c + r * (l - m) + 3 * x - l * l,
        congruent(m * (2 * y + m * c), c * c + 3 * (c * x) + 3 * (x * x), p),
        congruent(2 * y + c * (l + m), r * d, p),
    ensures
        is_slope(r - l, x + c, y + m * c, x + c - d, -(y + l * (c - d)), p),
{
    let (u, v, w, z) = (x + c, y + m * c, x + c - d, -(y + l * (c - d)));
    let s = r - l;
    // The first equation.
    assert(l * (c - d) == l * c - l * d) by (nonlinear_arith);
    assert(c * (l + m) == l * c + m * c) by (nonlinear_arith);
    assert(s * (u - w) == r * d - l * d) by (nonlinear_arith)
        requires
            s == r - l,
            u - w == d,
    ;
    lemma_congruent_ops(2 * y + c * (l + m), r * d, l * d, l * d, p);
    assert(congruent(v - z, s * (u - w), p));
    // The second equation.
    let h = r * (l - m);
    let (cc, xx, cx, ll, dd) = (c * c, x * x, c * x, l * l, d * d);
    let (rd, ld, lc, mc, cd, xd) = (r * d, l * d, l * c, m * c, c * d, x * d);
    assert(v + z == mc - lc + ld);
    let right = u * u + u * w + w * w;
    assert(right == 3 * (u * u) - 3 * (u * d) + dd) by (nonlinear_arith)
        requires
            w == u - d,
            dd == d * d,
            right == u * u + u * w + w * w,
    ;
    assert(u * u == xx + 2 * cx + cc) by (nonlinear_arith)
        requires
            u == x + c,
            xx == x * x,
            cx == c * x,
            cc == c * c,
    ;
    assert(u * d == xd + cd) by (nonlinear_arith)
        requires
            u == x + c,
            xd == x * d,
            cd == c * d,
    ;
    // The left side, multiplied out.
    assert(s * (mc - lc + ld) == r * mc - r * lc + r * ld - l * mc + l * lc - l * ld)
        by (nonlinear_arith)
        requires
            s == r - l,
    ;
    assert(r * (m * c) == (r * m) * c && r * (l * c) == (r * l) * c && l * (l * c) == (l * l) * c)
        by (nonlinear_arith);
    assert(r * (l * d) == (r * l) * d && l * (l * d) == (l * l) * d) by (nonlinear_arith);
    let (rl, rm) = (r * l, r * m);
    assert(h == rl - rm) by (nonlinear_arith)
        requires
            h == r * (l - m),
            rl == r * l,
            rm == r * m,
    ;
    // The known equation with the other one put in.
    let f = 2 * y + c * (l + m);
    let e = 2 * y + m * c;
    assert(e == f - lc);
    lemma_congruent_ops(f, rd, lc, lc, p);
    lemma_congruent_ops(m, m, f - lc, rd - lc, p);
    let t = m * (rd - lc);
    assert(t == m * rd - l * mc) by {
        assert(m * (rd - lc) == m * rd - m * lc) by (nonlinear_arith);
        assert(m * (l * c) == l * (m * c)) by (nonlinear_arith);
    }
    assert(m * (r * d) == (r * m) * d) by (nonlinear_arith);
    // The two sides differ by that equation.
    assert(rl * d - rm * d == h * d) by (nonlinear_arith)
        requires
            h == rl - rm,
    ;
    assert(rl * c - rm * c == h * c) by (nonlinear_arith)
        requires
            h == rl - rm,
    ;
    assert(dd == 2 * cd + h * d + 3 * xd - ll * d) by (nonlinear_arith)
        requires
            d == 2 * c + h + 3 * x - ll,
            dd == d * d,
            cd == c * d,
            xd == x * d,
    ;
    assert(cd == 2 * cc + h * c + 3 * cx - ll * c) by (nonlinear_arith)
        requires
            d == 2 * c + h + 3 * x - ll,
            cd == c * d,
            cc == c * c,
            cx == c * x,
    ;
    let known = cc + 3 * cx + 3 * xx;
    assert(s * (v + z) - right == t - known);
    lemma_congruent_ops(t, known, right - known, right - known, p);
    assert(congruent(s * (v + z), right, p));
}

/// The third point of a chord without reduced coordinates.
pub proof fn lemma_chord_value(m: int, x1: int, y1: int, x2: int, p: int)
    requires
        p > 0,
    ensures
        ({
            let x = m * m - x1 - x2;
            chord(m, x1, y1, x2, p) == (Pt::At { x: x % p, y: (m * (x1 - x) - y1) % p })
        }),
{
    let x = m * m - x1 - x2;
    lemma_congruent_mod(x, p);
    lemma_congruent_ops(x1, x1, x % p, x, p);
    lemma_congruent_ops(m, m, x1 - x % p, x1 - x, p);
    lemma_congruent_ops(m * (x1 - x % p), m * (x1 - x), y1, y1, p);
}

/// The two groupings lead to the same point.
proof fn lemma_same_end(l: int, m: int, r: int, c: int, x: int, y: int, p: int)
    requires
        p > 0,
    ensures
        ({
            let h = r * (l - m);
            let d = 2 * c + h + 3 * x - l * l;
            let e = 2 * c + h + 3 * x - m * m;
            let (u, v) = (x + c, y + m * c);
            let (f, g) = (x + c + h, y + l * (c + h));
            chord(r - l, u, v, u - d, p) == chord(r - m, f, g, f - e, p)
        }),
{
    let h = r * (l - m);
    let (ll, mm, rr, rl, rm) = (l * l, m * m, r * r, r * l, r * m);
    let d = 2 * c + h + 3 * x - ll;
    let e = 2 * c + h + 3 * x - mm;
    let (u, v) = (x + c, y + m * c);
    let (f, g) = (x + c + h, y + l * (c + h));
    let (s, t) = (r - l, r - m);
    lemma_chord_value(s, u, v, u - d, p);
    lemma_chord_value(t, f, g, f - e, p);
    assert(h == rl - rm) by (nonlinear_arith)
        requires
            h == r * (l - m),
            rl == r * l,
            rm == r * m,
    ;
    assert(s * s == rr - 2 * rl + ll) by (nonlinear_arith)
        requires
            s == r - l,
            rr == r * r,
            rl == r * l,
            ll == l * l,
    ;
    assert(t * t == rr - 2 * rm + mm) by (nonlinear_arith)
        requires
            t == r - m,
            rr == r * r,
            rm == r * m,
            mm == m * m,
    ;
    let z = s * s - u - (u - d);
    assert(z == t * t - f - (f - e));
    assert(z == rr - rl - rm + x);
    let k = l - m;
    let q = r - l - m;
    assert(z - x == r * q) by (nonlinear_arith)
        requires
            z == rr - rl - rm + x,
            q == r - l - m,
            rr == r * r,
            rl == r * l,
            rm == r * m,
    ;
    assert(s * (u - z) - v == t * (f - z) - g) by {
        assert(s * (u - z) == t * (u - z) - k * (u - z)) by (nonlinear_arith)
            requires
                s == t - k,
        ;
        assert(t * (f - z) == t * (u - z) + t * h) by (nonlinear_arith)
            requires
                f == u + h,
        ;
        assert(l * (c + h) == l * c + l * h) by (nonlinear_arith);
        assert(k * c == l * c - m * c) by (nonlinear_arith)
            requires
                k == l - m,
        ;
        assert(k * (u - z) == k * c - k * (z - x)) by (nonlinear_arith)
            requires
                u == x + c,
        ;
        assert(k * (r * q) == (r * k) * q) by (nonlinear_arith);
        assert(h * q == t * h - l * h) by (nonlinear_arith)
            requires
                q == t - l,
        ;
    }
}

/// The second equation of a slope in terms of the distance of the points.
proof fn lemma_distance(m: int, a: int, x: int, y: int, u: int, v: int, p: int)
    requires
        p > 0,
        is_slope(m, u, v, x, y, p),
        congruent(u - x, a, p),
    ensures
        congruent(m * (2 * y + m * a), a * a + 3 * (a * x) + 3 * (x * x), p),
        congruent(v, y + m * a, p),
        congruent(u, x + a, p),
{
    lemma_congruent_ops(u - x, a, x, x, p);
    lemma_congruent_ops(m, m, u - x, a, p);
    lemma_congruent_ops(v - y, m * a, y, y, p);
    lemma_congruent_ops(v, y + m * a, y, y, p);
    lemma_congruent_ops(m, m, v + y, y + m * a + y, p);
    let w = x + a;
    lemma_congruent_ops(u, w, u, w, p);
    lemma_congruent_ops(u, w, x, x, p);
    lemma_congruent_ops(u * u, w * w, u * x, w * x, p);
    lemma_congruent_ops(u * u + u * x, w * w + w * x, x * x, x * x, p);
    assert(w * w + w * x + x * x == a * a + 3 * (a * x) + 3 * (x * x)) by {
        assert((x + a) * (x + a) == x * x + 2 * (a * x) + a * a) by (nonlinear_arith);
        assert((x + a) * x == x * x + a * x) by (nonlinear_arith);
    }
}

/// The equation that ties the slopes of the lines from the middle point.
proof fn lemma_tie(l: int, m: int, a: int, c: int, x: int, y: int, p: int)
    requires
        p > 0,
        congruent(l * (2 * y + l * a), a * a + 3 * (a * x) + 3 * (x * x), p),
        congruent(m * (2 * y + m * c), c * c + 3 * (c * x) + 3 * (x * x), p),
    ensures
        congruent(
            (l - m) * (2 * y),
            a * (a + c + 3 * x - l * l) - c * (a + c + 3 * x - m * m),
            p,
        ),
{
    let (ll, mm, aa, cc, ax, cx, xx) = (l * l, m * m, a * a, c * c, a * x, c * x, x * x);
    let (f, g) = (l * (2 * y + l * a), m * (2 * y + m * c));
    let (i, j) = (aa + 3 * ax + 3 * xx, cc + 3 * cx + 3 * xx);
    lemma_congruent_ops(f, i, g, j, p);
    let z = 2 * y;
    assert(f == l * z + ll * a) by {
        assert(l * (z + l * a) == l * z + l * (l * a)) by (nonlinear_arith);
        assert(l * (l * a) == (l * l) * a) by (nonlinear_arith);
    }
    assert(g == m * z + mm * c) by {
        assert(m * (z + m * c) == m * z + m * (m * c)) by (nonlinear_arith);
        assert(m * (m * c) == (m * m) * c) by (nonlinear_arith);
    }
    assert((l - m) * z == l * z - m * z) by (nonlinear_arith);
    let k = ll * a - mm * c;
    lemma_congruent_ops(f - g, i - j, k, k, p);
    assert(a * (a + c + 3 * x - ll) == aa + a * c + 3 * ax - ll * a) by (nonlinear_arith)
        requires
            aa == a * a,
            ax == a * x,
    ;
    assert(c * (a + c + 3 * x - mm) == a * c + cc + 3 * cx - mm * c) by (nonlinear_arith)
        requires
            cc == c * c,
            cx == c * x,
    ;
}

/// Three points of which no two neighbours are opposite, in both groupings.
proof fn lemma_main<C: Curve>(x1: int, y1: int, x2: int, y2: int, x3: int, y3: int)
    requires
        ({
            let (a, b, c) = (
                Pt::At { x: x1, y: y1 },
                Pt::At { x: x2, y: y2 },
                Pt::At { x: x3, y: y3 },
            );
            &&& on_curve::<C>(a)
            &&& on_curve::<C>(b)
            &&& on_curve::<C>(c)
            &&& plus::<C>(a, b) != Pt::Infinity
            &&& plus::<C>(c, b) != Pt::Infinity
            &&& plus::<C>(c, plus::<C>(a, b)) != Pt::Infinity
            &&& plus::<C>(a, plus::<C>(c, b)) != Pt::Infinity
        }),
    ensures
        ({
            let (a, b, c) = (
                Pt::At { x: x1, y: y1 },
                Pt::At { x: x2, y: y2 },
                Pt::At { x: x3, y: y3 },
            );
            plus::<C>(c, plus::<C>(a, b)) == plus::<C>(a, plus::<C>(c, b))
        }),
{
    <C::Base as Modulus>::lemma_modulus();
    let p = <C::Base as Modulus>::p();
    let (pa, pb, pc) = (
        Pt::At { x: x1, y: y1 },
        Pt::At { x: x2, y: y2 },
        Pt::At { x: x3, y: y3 },
    );
    lemma_sum_closed::<C>(pa, pb);
    lemma_sum_closed::<C>(pc, pb);
    let l = lemma_slope_exists::<C>(x1, y1, x2, y2);
    let m = lemma_slope_exists::<C>(x3, y3, x2, y2);
    lemma_by_slope::<C>(l, x1, y1, x2, y2);
    lemma_by_slope::<C>(m, x3, y3, x2, y2);
    let xs = (l * l - x1 - x2) % p;
    let ys = (l * (x1 - xs) - y1) % p;
    let xt = (m * m - x3 - x2) % p;
    let yt = (m * (x3 - xt) - y3) % p;
    assert(plus::<C>(pa, pb) == (Pt::At { x: xs, y: ys }));
    assert(plus::<C>(pc, pb) == (Pt::At { x: xt, y: yt }));
    let c = x3 - x2;
    lemma_distance(m, c, x2, y2, x3, y3, p);
    if l == m {
        let a = x1 - x2;
        lemma_distance(l, a, x2, y2, x1, y1, p);
        lemma_tie(l, m, a, c, x2, y2, p);
        let d = a + c + 3 * x2 - l * l;
        assert((l - m) * (2 * y2) == 0) by (nonlinear_arith)
            requires
                l == m,
        ;
        assert(a * d - c * d == (a - c) * d) by (nonlinear_arith);
        lemma_small_mod(0, p as nat);
        lemma_product::<C::Base>(a - c, d);
        if x1 == x3 {
            lemma_congruent_small(y1, y3, p);
        } else {
            lemma_difference::<C::Base>(x1, x3);
            // The sum of the first two points is opposite to the third.
            lemma_sum_position(l, x1, y1, x2, y2, a, c, xs, ys, p);
            lemma_congruent_ops(x3, x3, d, 0, p);
            lemma_congruent_small(xs, x3, p);
            lemma_congruent_ops(c, c, d, 0, p);
            lemma_congruent_ops(l, l, c - d, c, p);
            lemma_congruent_ops(y2, y2, l * (c - d), l * c, p);
            lemma_congruent_ops(0, 0, y2 + l * (c - d), y2 + l * c, p);
            lemma_congruent_ops(0, 0, y3, y2 + l * c, p);
            assert(congruent(ys, -y3, p));
            lemma_congruent_ops(0, 0, ys, -y3, p);
            lemma_opposite_coordinates::<C>(x3, y3, xs, ys);
            assert(false);
        }
    } else {
        let k = l - m;
        lemma_difference::<C::Base>(l, m);
        let r = quotient(x1 - x3, k, p);
        lemma_quotient::<C::Base>(x1 - x3, k);
        let h = r * k;
        let a = c + h;
        lemma_congruent_ops(h, x1 - x3, c, c, p);
        lemma_distance(l, a, x2, y2, x1, y1, p);
        lemma_tie(l, m, a, c, x2, y2, p);
        let d = 2 * c + h + 3 * x2 - l * l;
        let e = 2 * c + h + 3 * x2 - m * m;
        assert(a * (a + c + 3 * x2 - l * l) == a * d && c * (a + c + 3 * x2 - m * m) == c * e);
        // The common factor is cancelled.
        let (f, g) = (2 * y2 + c * (l + m), r * d);
        let w = c * (l + m);
        assert(a * d - c * e == (g - w) * k) by {
            assert((c + h) * d == c * d + h * d) by (nonlinear_arith);
            assert((r * k) * d == (r * d) * k) by (nonlinear_arith);
            assert(c * d - c * e == c * (d - e)) by (nonlinear_arith);
            assert(d - e == m * m - l * l);
            assert(m * m - l * l == -((l + m) * k)) by (nonlinear_arith)
                requires
                    k == l - m,
            ;
            let q = l + m;
            assert(c * (-(q * k)) == -((c * q) * k)) by (nonlinear_arith);
            assert((g - w) * k == g * k - w * k) by (nonlinear_arith);
        }
        assert(k * (2 * y2) == (2 * y2) * k) by (nonlinear_arith);
        lemma_cancel::<C::Base>(k, 2 * y2, g - w);
        lemma_congruent_ops(2 * y2, g - w, w, w, p);
        assert(congruent(f, g, p));
        // The slopes of the other two lines.
        lemma_next_slope(l, m, r, c, x2, y2, d, p);
        assert(congruent(2 * y2 + a * (m + l), r * e, p)) by {
            let q = l + m;
            assert((c + h) * q == c * q + h * q) by (nonlinear_arith);
            assert((r * k) * q == r * (k * q)) by (nonlinear_arith);
            assert(k * q == l * l - m * m) by (nonlinear_arith)
                requires
                    k == l - m,
                    q == l + m,
            ;
            assert(r * d + r * (e - d) == r * e) by (nonlinear_arith);
            lemma_congruent_ops(f, g, h * q, h * q, p);
        }
        assert(r * (m - l) == -h) by (nonlinear_arith)
            requires
                h == r * k,
                k == l - m,
        ;
        lemma_next_slope(m, l, r, a, x2, y2, e, p);
        // The sums in the middle.
        lemma_sum_position(l, x1, y1, x2, y2, a, c, xs, ys, p);
        lemma_sum_position(m, x3, y3, x2, y2, c, a, xt, yt, p);
        let (u, v) = (x2 + c, y2 + m * c);
        let (i, j) = (x2 + a, y2 + l * a);
        lemma_slope_congruent(r - l, u, v, u - d, -(y2 + l * (c - d)), x3, y3, xs, ys, p);
        lemma_slope_congruent(r - m, i, j, i - e, -(y2 + m * (a - e)), x1, y1, xt, yt, p);
        lemma_by_slope::<C>(r - l, x3, y3, xs, ys);
        lemma_by_slope::<C>(r - m, x1, y1, xt, yt);
        lemma_chord_congruent(r - l, x3, y3, xs, r - l, u, v, u - d, p);
        lemma_chord_congruent(r - m, x1, y1, xt, r - m, i, j, i - e, p);
        lemma_same_end(l, m, r, c, x2, y2, p);
    }
}

/// The coordinates of a sum in terms of the distances from the middle point.
proof fn lemma_sum_position(
    l: int,
    x1: int,
    y1: int,
    x2: int,
    y2: int,
    a: int,
    c: int,
    xs: int,
    ys: int,
    p: int,
)
    requires
        p > 0,
        congruent(x1, x2 + a, p),
        congruent(y1, y2 + l * a, p),
        xs == (l * l - x1 - x2) % p,
        ys == (l * (x1 - xs) - y1) % p,
    ensures
        ({
            let d = a + c + 3 * x2 - l * l;
            &&& congruent(xs, x2 + c - d, p)
            &&& congruent(ys, -(y2 + l * (c - d)), p)
        }),
{
    let d = a + c + 3 * x2 - l * l;
    let z = x2 + c - d;
    lemma_congruent_mod(l * l - x1 - x2, p);
    lemma_congruent_mod(l * (x1 - xs) - y1, p);
    lemma_congruent_ops(l * l - x2, l * l - x2, x1, x2 + a, p);
    lemma_congruent_ops(x1, x2 + a, xs, z, p);
    lemma_congruent_ops(l, l, x1 - xs, x2 + a - z, p);
    lemma_congruent_ops(l * (x1 - xs), l * (x2 + a - z), y1, y2 + l * a, p);
    let b = c - d;
    assert(x2 + a - z == a - b);
    assert(l * (a - b) == l * a - l * b) by (nonlinear_arith);
}

/// Addition is associative.
pub proof fn lemma_sum_associative<C: Curve>(a: Pt, b: Pt, c: Pt)
    requires
        on_curve::<C>(a),
        on_curve::<C>(b),
        on_curve::<C>(c),
    ensures
        plus::<C>(plus::<C>(a, b), c) == plus::<C>(a, plus::<C>(b, c)),
{
    let (s, t) = (plus::<C>(a, b), plus::<C>(b, c));
    lemma_sum_closed::<C>(a, b);
    lemma_sum_closed::<C>(b, c);
    lemma_sum_commutative::<C>(a, b);
    lemma_sum_commutative::<C>(b, c);
    lemma_sum_commutative::<C>(s, c);
    lemma_inverse_point::<C>(a);
    lemma_inverse_point::<C>(b);
    lemma_inverse_point::<C>(c);
    if a == Pt::Infinity || b == Pt::Infinity || c == Pt::Infinity {
        reveal(ec_add);
    } else if s == Pt::Infinity {
        lemma_opposite::<C>(a, b);
        lemma_take_away::<C>(b, c);
        reveal(ec_add);
    } else if t == Pt::Infinity {
        lemma_opposite::<C>(b, c);
        lemma_take_away::<C>(b, a);
        reveal(ec_add);
    } else if plus::<C>(s, c) == Pt::Infinity {
        lemma_opposite::<C>(s, c);
        lemma_minus_sum::<C>(b, a);
        lemma_take_away::<C>(minus::<C>(b), minus::<C>(a));
    } else if plus::<C>(a, t) == Pt::Infinity {
        lemma_opposite::<C>(a, t);
        lemma_minus_sum::<C>(b, c);
        lemma_take_away::<C>(minus::<C>(b), minus::<C>(c));
        lemma_sum_commutative::<C>(c, minus::<C>(c));
    } else if let (Pt::At { x: x1, y: y1 }, Pt::At { x: x2, y: y2 }, Pt::At { x: x3, y: y3 }) = (
        a,
        b,
        c,
    ) {
        lemma_main::<C>(x1, y1, x2, y2, x3, y3);
    }
}

} // verus!

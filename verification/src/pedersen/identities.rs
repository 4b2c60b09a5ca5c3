//! Polynomial identities behind the group law of twisted Edwards curves.
use crate::field::congruence::{congruent, lemma_congruent_difference, lemma_congruent_ops};
use vstd::arithmetic::div_mod::lemma_small_mod;
use vstd::prelude::*;

verus! {

/// How far a point is from the curve `-u^2 + v^2 = 1 + d u^2 v^2`.
pub open spec fn defect(a: (int, int), d: int) -> int {
    a.1 * a.1 - a.0 * a.0 - 1 - d * (a.0 * a.0) * (a.1 * a.1)
}

/// The product that decides on the denominators of a sum.
pub open spec fn cross(a: (int, int), b: (int, int), d: int) -> int {
    d * (a.0 * b.0) * (a.1 * b.1)
}

/// The numerator of the first coordinate of a sum.
pub open spec fn first_sum(a: (int, int), b: (int, int)) -> int {
    a.0 * b.1 + a.1 * b.0
}

/// The numerator of the second coordinate of a sum.
pub open spec fn second_sum(a: (int, int), b: (int, int)) -> int {
    a.1 * b.1 + a.0 * b.0
}

/// The numerator of the first coordinate of a sum of three points.
pub open spec fn first_top(a: (int, int), b: (int, int), c: (int, int), d: int) -> int {
    (1 - cross(a, b, d)) * first_sum(a, b) * c.1 + (1 + cross(a, b, d)) * second_sum(a, b) * c.0
}

/// The denominator of the first coordinate of a sum of three points.
pub open spec fn first_bottom(a: (int, int), b: (int, int), c: (int, int), d: int) -> int {
    (1 - cross(a, b, d) * cross(a, b, d)) + d * (first_sum(a, b) * c.0) * (second_sum(a, b) * c.1)
}

/// The numerator of the second coordinate of a sum of three points.
pub open spec fn second_top(a: (int, int), b: (int, int), c: (int, int), d: int) -> int {
    (1 + cross(a, b, d)) * second_sum(a, b) * c.1 + (1 - cross(a, b, d)) * first_sum(a, b) * c.0
}

/// The denominator of the second coordinate of a sum of three points.
pub open spec fn second_bottom(a: (int, int), b: (int, int), c: (int, int), d: int) -> int {
    (1 - cross(a, b, d) * cross(a, b, d)) - d * (first_sum(a, b) * c.0) * (second_sum(a, b) * c.1)
}

/// The numerators and denominators in terms of the products `m` and the sums of the squares `s` of
/// the coordinates of the points.
proof fn lemma_shape(a: (int, int), b: (int, int), c: (int, int), d: int)
    ensures
        ({
            let (m1, m2, m3) = (a.0 * a.1, b.0 * b.1, c.0 * c.1);
            let (s1, s2) = (a.0 * a.0 + a.1 * a.1, b.0 * b.0 + b.1 * b.1);
            let (x, y, k) = (first_sum(a, b), second_sum(a, b), d * (m1 * m2));
            &&& first_top(a, b, c, d) == (x * c.1 + y * c.0) + k * (y * c.0 - x * c.1)
            &&& second_top(a, b, c, d) == (y * c.1 + x * c.0) + k * (y * c.1 - x * c.0)
            &&& first_bottom(a, b, c, d) == 1 - k * k + d * (m3 * (m1 * s2 + m2 * s1))
            &&& second_bottom(a, b, c, d) == 1 - k * k - d * (m3 * (m1 * s2 + m2 * s1))
        }),
{
    let (m1, m2, m3) = (a.0 * a.1, b.0 * b.1, c.0 * c.1);
    let (s1, s2) = (a.0 * a.0 + a.1 * a.1, b.0 * b.0 + b.1 * b.1);
    let (x, y, k) = (first_sum(a, b), second_sum(a, b), d * (m1 * m2));
    let (u1, v1, u2, v2, u3, v3) = (a.0, a.1, b.0, b.1, c.0, c.1);
    assert(cross(a, b, d) == k) by {
        assert(d * (u1 * u2) * (v1 * v2) == d * ((u1 * v1) * (u2 * v2))) by (nonlinear_arith);
    }
    assert(x * y == m1 * s2 + m2 * s1) by {
        let (f, g, h, i) = (u1 * v2, v1 * u2, v1 * v2, u1 * u2);
        assert((f + g) * (h + i) == f * h + f * i + g * h + g * i) by (nonlinear_arith);
        assert((u1 * v2) * (v1 * v2) == (u1 * v1) * (v2 * v2)) by (nonlinear_arith);
        assert((u1 * v2) * (u1 * u2) == (u2 * v2) * (u1 * u1)) by (nonlinear_arith);
        assert((v1 * u2) * (v1 * v2) == (u2 * v2) * (v1 * v1)) by (nonlinear_arith);
        assert((v1 * u2) * (u1 * u2) == (u1 * v1) * (u2 * u2)) by (nonlinear_arith);
        let (j, l) = (u1 * u1, v1 * v1);
        assert(m2 * (j + l) == m2 * j + m2 * l) by (nonlinear_arith);
        let (j, l) = (u2 * u2, v2 * v2);
        assert(m1 * (j + l) == m1 * j + m1 * l) by (nonlinear_arith);
    }
    lemma_spread(k, x, v3, y, u3);
    lemma_spread(k, x, u3, y, v3);
    assert(d * (x * u3) * (y * v3) == d * ((u3 * v3) * (x * y))) by (nonlinear_arith);
}

proof fn lemma_spread(k: int, x: int, f: int, y: int, g: int)
    ensures
        (1 - k) * x * f + (1 + k) * y * g == (x * f + y * g) + k * (y * g - x * f),
        (1 + k) * y * g + (1 - k) * x * f == (y * g + x * f) + k * (y * g - x * f),
{
    let (h, i) = (x * f, y * g);
    assert((1 - k) * x * f == (1 - k) * (x * f)) by (nonlinear_arith);
    assert((1 + k) * y * g == (1 + k) * (y * g)) by (nonlinear_arith);
    assert((1 - k) * h + (1 + k) * i == (h + i) + k * (i - h)) by (nonlinear_arith);
}

/// The difference of the two groupings without its common factor, as a form that is linear in the
/// triples `t`, `p` and `q`; the sign `o` is one for the first coordinate.
pub open spec fn whole(
    t: (int, int, int),
    p: (int, int, int),
    q: (int, int, int),
    s: (int, int, int),
    w: (int, int, int),
    d: int,
    o: int,
) -> int {
    d * (t.1 * (w.0 - w.2)) + o * (t.0 * s.2 - t.2 * s.0) + p.0 * (1 - d * (d * (w.1 * w.2))) + o
        * (d * (w.0 * (p.1 * s.2 + p.2 * s.1))) - q.2 * (1 - d * (d * (w.0 * w.1))) - o * (d * (w.2
        * (q.0 * s.1 + q.1 * s.0)))
}

/// The difference of the two groupings is a multiple of the form.
proof fn lemma_whole(t: int, p: int, q: int, m: (int, int, int), s: (int, int, int), d: int, o: int)
    requires
        o == 1 || o == -1,
    ensures
        ({
            let (j, k) = (d * (m.0 * m.1), d * (m.1 * m.2));
            let left = 1 - j * j + o * (d * (m.2 * (m.0 * s.1 + m.1 * s.0)));
            let right = 1 - k * k + o * (d * (m.0 * (m.1 * s.2 + m.2 * s.1)));
            (t + j * p) * right - (t + k * q) * left == (d * m.1) * whole(
                (t * m.0, t * m.1, t * m.2),
                (p * m.0, p * m.1, p * m.2),
                (q * m.0, q * m.1, q * m.2),
                s,
                (m.0 * m.0, m.1 * m.1, m.2 * m.2),
                d,
                o,
            )
        }),
{
    let (m1, m2, m3) = m;
    let (s1, s2, s3) = s;
    let (w1, w2, w3) = (m1 * m1, m2 * m2, m3 * m3);
    let (j, k, c) = (d * (m1 * m2), d * (m2 * m3), d * m2);
    let l = m3 * (m1 * s2 + m2 * s1);
    let r = m1 * (m2 * s3 + m3 * s2);
    let left = 1 - j * j + o * (d * l);
    let right = 1 - k * k + o * (d * r);
    assert((t + j * p) * right - (t + k * q) * left == t * (right - left) + (j * p) * right - (k
        * q) * left) by (nonlinear_arith);
    assert(j == c * m1) by (nonlinear_arith)
        requires
            j == d * (m1 * m2),
            c == d * m2,
    ;
    assert(k == c * m3) by (nonlinear_arith)
        requires
            k == d * (m2 * m3),
            c == d * m2,
    ;
    // The part with `t`.
    assert(j * j == (c * c) * w1) by (nonlinear_arith)
        requires
            j == c * m1,
            w1 == m1 * m1,
    ;
    assert(k * k == (c * c) * w3) by (nonlinear_arith)
        requires
            k == c * m3,
            w3 == m3 * m3,
    ;
    let (x1, x3) = (m1 * s3, m3 * s1);
    assert(r - l == m2 * (x1 - x3)) by {
        let (f, g, h, i) = (m2 * s3, m3 * s2, m1 * s2, m2 * s1);
        assert(m1 * (f + g) == m1 * f + m1 * g) by (nonlinear_arith);
        assert(m3 * (h + i) == m3 * h + m3 * i) by (nonlinear_arith);
        assert(m1 * (m2 * s3) == m2 * (m1 * s3)) by (nonlinear_arith);
        assert(m1 * (m3 * s2) == m3 * (m1 * s2)) by (nonlinear_arith);
        assert(m3 * (m2 * s1) == m2 * (m3 * s1)) by (nonlinear_arith);
        assert(m2 * (x1 - x3) == m2 * x1 - m2 * x3) by (nonlinear_arith);
    }
    let e = w1 - w3;
    assert(right - left == (c * c) * e + o * (c * (x1 - x3))) by {
        let z = x1 - x3;
        assert((c * c) * e == (c * c) * w1 - (c * c) * w3) by (nonlinear_arith)
            requires
                e == w1 - w3,
        ;
        assert(o * (d * r) - o * (d * l) == o * (d * (r - l))) by (nonlinear_arith);
        assert(d * (m2 * z) == (d * m2) * z) by (nonlinear_arith);
    }
    let t2 = t * m2;
    assert(t * (right - left) == c * (d * (t2 * e) + o * (t * m1 * s3 - t * m3 * s1))) by {
        let (y, z) = ((c * c) * e, x1 - x3);
        let f = o * (c * z);
        assert(t * (y + f) == t * y + t * f) by (nonlinear_arith);
        assert(t * ((c * c) * e) == c * ((t * c) * e)) by (nonlinear_arith);
        assert(t * (d * m2) == d * (t * m2)) by (nonlinear_arith);
        assert((d * t2) * e == d * (t2 * e)) by (nonlinear_arith);
        assert(t * (o * (c * z)) == c * (o * (t * z))) by (nonlinear_arith);
        assert(t * (x1 - x3) == t * x1 - t * x3) by (nonlinear_arith);
        assert(t * (m1 * s3) == t * m1 * s3) by (nonlinear_arith);
        assert(t * (m3 * s1) == t * m3 * s1) by (nonlinear_arith);
        let (g, h) = (d * (t2 * e), o * (t * z));
        assert(c * (g + h) == c * g + c * h) by (nonlinear_arith);
    }
    // The parts with `p` and `q`.
    lemma_whole_part(p, m1, m2, m3, s2, s3, d, o);
    lemma_whole_part(q, m3, m2, m1, s2, s1, d, o);
    assert(m3 * m2 == m2 * m3 && m2 * m1 == m1 * m2) by (nonlinear_arith);
    assert(m3 * (m2 * s1 + m1 * s2) == l);
    let (f, g, h) = (
        d * (t2 * e) + o * (t * m1 * s3 - t * m3 * s1),
        (p * m1) * (1 - d * (d * (w2 * w3))) + o * (d * (w1 * ((p * m2) * s3 + (p * m3) * s2))),
        (q * m3) * (1 - d * (d * (w2 * w1))) + o * (d * (w3 * ((q * m2) * s1 + (q * m1) * s2))),
    );
    assert(c * f + c * g - c * h == c * (f + g - h)) by (nonlinear_arith);
    assert(w2 * w1 == w1 * w2) by (nonlinear_arith);
}

proof fn lemma_whole_part(
    p: int,
    m1: int,
    m2: int,
    m3: int,
    s2: int,
    s3: int,
    d: int,
    o: int,
)
    ensures
        ({
            let k = d * (m2 * m3);
            (d * (m1 * m2) * p) * (1 - k * k + o * (d * (m1 * (m2 * s3 + m3 * s2)))) == (d * m2) * ((
            p * m1) * (1 - d * (d * ((m2 * m2) * (m3 * m3)))) + o * (d * ((m1 * m1) * ((p * m2) * s3
                + (p * m3) * s2))))
        }),
{
    let (k, c) = (d * (m2 * m3), d * m2);
    let y = m2 * s3 + m3 * s2;
    let g = p * m1;
    assert(d * (m1 * m2) * p == (d * m2) * (p * m1)) by (nonlinear_arith);
    assert(k * k == d * (d * ((m2 * m2) * (m3 * m3)))) by (nonlinear_arith)
        requires
            k == d * (m2 * m3),
    ;
    let z = o * (d * (m1 * y));
    let n = 1 - k * k;
    assert((c * g) * (n + z) == c * (g * n + g * z)) by (nonlinear_arith);
    assert((p * m1) * (o * (d * (m1 * y))) == o * (d * ((m1 * m1) * (p * y)))) by (nonlinear_arith);
    let (a, b) = (m2 * s3, m3 * s2);
    assert(p * (a + b) == p * a + p * b) by (nonlinear_arith);
    assert(p * (m2 * s3) == (p * m2) * s3) by (nonlinear_arith);
    assert(p * (m3 * s2) == (p * m3) * s2) by (nonlinear_arith);
}

proof fn lemma_factor(z: int, f: int, g: int)
    ensures
        z * (f + g) == z * f + z * g,
        z * (f - g) == z * f - z * g,
{
    assert(z * (f + g) == z * f + z * g) by (nonlinear_arith);
    assert(z * (f - g) == z * f - z * g) by (nonlinear_arith);
}

proof fn lemma_swap(o: int, z: int, r: int)
    ensures
        o * (z * r) == z * (o * r),
{
    assert(o * (z * r) == z * (o * r)) by (nonlinear_arith);
}

proof fn lemma_pull(o: int, d: int, w: int, z: int, r: int)
    ensures
        o * (d * (w * (z * r))) == z * (o * (d * (w * r))),
{
    assert(o * (d * (w * (z * r))) == z * (o * (d * (w * r)))) by (nonlinear_arith);
}

proof fn lemma_spread3(o: int, d: int, c: int, f: int, g: int)
    ensures
        o * (d * (c * (f + g))) == o * (d * (c * f)) + o * (d * (c * g)),
{
    lemma_factor(c, f, g);
    lemma_factor(d, c * f, c * g);
    lemma_factor(o, d * (c * f), d * (c * g));
}

proof fn lemma_six(d: int, w: int, a: int, b: int, c: int, e: int, f: int, g: int)
    ensures
        d * (w * (a + b + c - e - f - g)) == d * (w * a) + d * (w * b) + d * (w * c) - d * (w * e) - d
            * (w * f) - d * (w * g),
{
    assert(w * (a + b + c - e - f - g) == w * a + w * b + w * c - w * e - w * f - w * g)
        by (nonlinear_arith);
    let (h, i, j, k, l, m) = (w * a, w * b, w * c, w * e, w * f, w * g);
    assert(d * (h + i + j - k - l - m) == d * h + d * i + d * j - d * k - d * l - d * m)
        by (nonlinear_arith);
}

proof fn lemma_sign(o: int, f: int, g: int, x: int, n: int)
    ensures
        (-(o * f) * (g * x)) * n == -((o * (g * f)) * (x * n)),
{
    assert((-(o * f) * (g * x)) * n == -(((o * f) * (g * x)) * n)) by {
        let (a, b) = (o * f, g * x);
        assert((-a) * b == -(a * b)) by (nonlinear_arith);
        let c = a * b;
        assert((-c) * n == -(c * n)) by (nonlinear_arith);
    }
    assert(((o * f) * (g * x)) * n == (o * (g * f)) * (x * n)) by (nonlinear_arith);
}

proof fn lemma_signs(o: int, f: int, g: int, x: int, s: int)
    ensures
        o * ((-(o * f) * (g * x)) * (f * s)) == -(((o * o) * (f * f)) * (g * (x * s))),
{
    lemma_sign(o, f, g, x, f * s);
    let c = (o * (g * f)) * (x * (f * s));
    assert(o * (-c) == -(o * c)) by (nonlinear_arith);
    let (a, b, e) = (g * f, x * (f * s), g * (x * s));
    assert(o * ((o * a) * b) == (o * o) * (a * b)) by (nonlinear_arith);
    assert((g * f) * (x * (f * s)) == (f * f) * (g * (x * s))) by (nonlinear_arith);
    let (i, j) = (o * o, f * f);
    assert(i * (j * e) == (i * j) * e) by (nonlinear_arith);
}

proof fn lemma_squared(o: int, f: int, g: int, x: int, s: int)
    ensures
        o * (((o * f) * (f * x)) * (g * s)) == ((o * o) * (f * f)) * (g * (x * s)),
{
    assert((o * f) * (f * x) == o * ((f * f) * x)) by (nonlinear_arith);
    let (w, h, e) = ((f * f) * x, g * s, g * (x * s));
    assert(o * ((o * w) * h) == (o * o) * (w * h)) by (nonlinear_arith);
    let b = f * f;
    assert((b * x) * (g * s) == b * (g * (x * s))) by (nonlinear_arith);
    let a = o * o;
    assert(a * (b * e) == (a * b) * e) by (nonlinear_arith);
}

/// A triple times a number.
pub open spec fn times(z: int, x: (int, int, int)) -> (int, int, int) {
    (z * x.0, z * x.1, z * x.2)
}

/// The sum of triples.
pub open spec fn sum3(x: (int, int, int), y: (int, int, int)) -> (int, int, int) {
    (x.0 + y.0, x.1 + y.1, x.2 + y.2)
}

proof fn lemma_whole_scale(
    z: int,
    t: (int, int, int),
    p: (int, int, int),
    q: (int, int, int),
    s: (int, int, int),
    w: (int, int, int),
    d: int,
    o: int,
)
    ensures
        whole(times(z, t), times(z, p), times(z, q), s, w, d, o) == z * whole(t, p, q, s, w, d, o),
{
    let (t1, t2, t3) = t;
    let (p1, p2, p3) = p;
    let (q1, q2, q3) = q;
    let (s1, s2, s3) = s;
    let (w1, w2, w3) = w;
    let (e, n23, n12) = (w1 - w3, 1 - d * (d * (w2 * w3)), 1 - d * (d * (w1 * w2)));
    assert(d * ((z * t2) * e) == z * (d * (t2 * e))) by (nonlinear_arith);
    assert((z * t1) * s3 == z * (t1 * s3)) by (nonlinear_arith);
    assert((z * t3) * s1 == z * (t3 * s1)) by (nonlinear_arith);
    let (f, g) = (t1 * s3, t3 * s1);
    lemma_factor(z, f, g);
    lemma_swap(o, z, f - g);
    assert((z * p1) * n23 == z * (p1 * n23)) by (nonlinear_arith);
    assert((z * q3) * n12 == z * (q3 * n12)) by (nonlinear_arith);
    assert((z * p2) * s3 == z * (p2 * s3)) by (nonlinear_arith);
    assert((z * p3) * s2 == z * (p3 * s2)) by (nonlinear_arith);
    let (h, i) = (p2 * s3, p3 * s2);
    lemma_factor(z, h, i);
    lemma_pull(o, d, w1, z, h + i);
    assert((z * q1) * s2 == z * (q1 * s2)) by (nonlinear_arith);
    assert((z * q2) * s1 == z * (q2 * s1)) by (nonlinear_arith);
    let (k, l) = (q1 * s2, q2 * s1);
    lemma_factor(z, k, l);
    lemma_pull(o, d, w3, z, k + l);
    let (a, b, c, r, v, x) = (
        d * (t2 * e),
        o * (f - g),
        p1 * n23,
        o * (d * (w1 * (h + i))),
        q3 * n12,
        o * (d * (w3 * (k + l))),
    );
    assert(z * (a + b + c + r - v - x) == z * a + z * b + z * c + z * r - z * v - z * x)
        by (nonlinear_arith);
}

proof fn lemma_whole_add(
    t: (int, int, int),
    p: (int, int, int),
    q: (int, int, int),
    t0: (int, int, int),
    p0: (int, int, int),
    q0: (int, int, int),
    s: (int, int, int),
    w: (int, int, int),
    d: int,
    o: int,
)
    ensures
        whole(sum3(t, t0), sum3(p, p0), sum3(q, q0), s, w, d, o) == whole(t, p, q, s, w, d, o)
            + whole(t0, p0, q0, s, w, d, o),
{
    let (e, n23, n12) = (
        w.0 - w.2,
        1 - d * (d * (w.1 * w.2)),
        1 - d * (d * (w.0 * w.1)),
    );
    let (a, b) = (t.1, t0.1);
    lemma_factor(e, a, b);
    lemma_factor(d, e * a, e * b);
    assert((a + b) * e == e * (a + b) && a * e == e * a && b * e == e * b) by (nonlinear_arith);
    lemma_pair(t.0, t0.0, s.2, t.2, t0.2, s.0);
    let (f, g) = (t.0 * s.2 - t.2 * s.0, t0.0 * s.2 - t0.2 * s.0);
    assert(o * (f + g) == o * f + o * g) by (nonlinear_arith);
    let (a, b) = (p.0, p0.0);
    assert((a + b) * n23 == a * n23 + b * n23) by (nonlinear_arith);
    let (a, b) = (q.2, q0.2);
    assert((a + b) * n12 == a * n12 + b * n12) by (nonlinear_arith);
    lemma_pair(p.1, p0.1, s.2, p.2, p0.2, s.1);
    let (f, g, c) = (p.1 * s.2 + p.2 * s.1, p0.1 * s.2 + p0.2 * s.1, w.0);
    lemma_spread3(o, d, c, f, g);
    lemma_pair(q.0, q0.0, s.1, q.1, q0.1, s.0);
    let (f, g, c) = (q.0 * s.1 + q.1 * s.0, q0.0 * s.1 + q0.1 * s.0, w.2);
    lemma_spread3(o, d, c, f, g);
}

proof fn lemma_pair(a: int, b: int, x: int, c: int, e: int, y: int)
    ensures
        (a + b) * x + (c + e) * y == (a * x + c * y) + (b * x + e * y),
        (a + b) * x - (c + e) * y == (a * x - c * y) + (b * x - e * y),
{
    assert((a + b) * x == a * x + b * x) by (nonlinear_arith);
    assert((c + e) * y == c * y + e * y) by (nonlinear_arith);
}

/// The form at a basis vector, up to signs.
pub open spec fn kernel(
    x: (int, int, int),
    s: (int, int, int),
    w: (int, int, int),
    d: int,
) -> int {
    d * (x.1 * (w.0 - w.2)) + (x.0 * s.2 - x.2 * s.0) - x.0 * (1 - d * (d * (w.1 * w.2))) + x.2 * (1
        - d * (d * (w.0 * w.1))) + d * (w.0 * (x.2 * s.1 - x.1 * s.2)) - d * (w.2 * (x.0 * s.1 - x.1
        * s.0))
}

/// The form at a basis vector.
proof fn lemma_whole_basis(
    x: (int, int, int),
    s: (int, int, int),
    w: (int, int, int),
    d: int,
    o: int,
    g1: int,
    g2: int,
    g3: int,
)
    requires
        o == 1 || o == -1,
        g1 == 1 || g1 == -1,
        g3 == 1 || g3 == -1,
        g2 == o * (g1 * g3),
    ensures
        whole(
            (g1 * x.0, g2 * x.1, g3 * x.2),
            (-(o * g3) * (g1 * x.0), -(o * g3) * (g2 * x.1), (o * g3) * (g3 * x.2)),
            ((o * g1) * (g1 * x.0), -(o * g1) * (g2 * x.1), -(o * g1) * (g3 * x.2)),
            (g1 * s.0, g2 * s.1, g3 * s.2),
            w,
            d,
            o,
        ) == g2 * kernel(x, s, w, d),
{
    let (x1, x2, x3) = x;
    let (s1, s2, s3) = s;
    let (w1, w2, w3) = w;
    let (e, n23, n12) = (w1 - w3, 1 - d * (d * (w2 * w3)), 1 - d * (d * (w1 * w2)));
    assert(o * o == 1 && g1 * g1 == 1 && g3 * g3 == 1) by (nonlinear_arith)
        requires
            o == 1 || o == -1,
            g1 == 1 || g1 == -1,
            g3 == 1 || g3 == -1,
    ;
    assert(d * ((g2 * x2) * e) == g2 * (d * (x2 * e))) by (nonlinear_arith);
    let (a, b) = ((g1 * x1) * (g3 * s3), (g3 * x3) * (g1 * s1));
    lemma_factor(o, a, b);
    assert(o * ((g1 * x1) * (g3 * s3)) == (o * (g1 * g3)) * (x1 * s3)) by (nonlinear_arith);
    assert(o * ((g3 * x3) * (g1 * s1)) == (o * (g1 * g3)) * (x3 * s1)) by (nonlinear_arith);
    lemma_sign(o, g3, g1, x1, n23);
    lemma_sign(o, g1, g3, x3, n12);
    assert(g3 * g1 == g1 * g3) by (nonlinear_arith);
    let (c, f) = ((-(o * g3) * (g2 * x2)) * (g3 * s3), ((o * g3) * (g3 * x3)) * (g2 * s2));
    lemma_factor(o, c, f);
    assert(o * (d * (w1 * (c + f))) == d * (w1 * (o * (c + f)))) by {
        let r = c + f;
        assert(o * (d * (w1 * r)) == d * (w1 * (o * r))) by (nonlinear_arith);
    }
    lemma_signs(o, g3, g2, x2, s3);
    lemma_squared(o, g3, g2, x3, s2);
    let (y, z) = (x3 * s2, x2 * s3);
    lemma_factor(g2, y, z);
    lemma_pull(1, d, w1, g2, y - z);
    let (i, j) = (((o * g1) * (g1 * x1)) * (g2 * s2), (-(o * g1) * (g2 * x2)) * (g1 * s1));
    lemma_factor(o, i, j);
    assert(o * (d * (w3 * (i + j))) == d * (w3 * (o * (i + j)))) by {
        let r = i + j;
        assert(o * (d * (w3 * r)) == d * (w3 * (o * r))) by (nonlinear_arith);
    }
    lemma_squared(o, g1, g2, x1, s2);
    lemma_signs(o, g1, g2, x2, s1);
    let (k, l) = (x1 * s2, x2 * s1);
    lemma_factor(g2, k, l);
    lemma_pull(1, d, w3, g2, k - l);
    let (q, r, t, u, v, m) = (
        d * (x2 * e),
        x1 * s3,
        x3 * s1,
        x1 * n23,
        x3 * n12,
        d * (w1 * (y - z)),
    );
    let n = d * (w3 * (k - l));
    assert(g2 * (q + (r - t) - u + v + m - n) == g2 * q + (g2 * r - g2 * t) - g2 * u + g2 * v + g2
        * m - g2 * n) by (nonlinear_arith);
}

/// The form vanishes where the sums of squares are as on the curve, and is a combination of the
/// deviations in general.
proof fn lemma_kernel(
    x: (int, int, int),
    s: (int, int, int),
    w: (int, int, int),
    d: int,
    f: (int, int, int),
)
    requires
        s.0 == 2 * x.0 + 1 + d * w.0 + f.0,
        s.1 == 2 * x.1 + 1 + d * w.1 + f.1,
        s.2 == 2 * x.2 + 1 + d * w.2 + f.2,
    ensures
        kernel(x, s, w, d) == f.0 * (d * (w.2 * x.1) - x.2) + f.1 * (d * (w.0 * x.2) - d * (w.2 * x.0))
            + f.2 * (x.0 - d * (w.0 * x.1)),
{
    let (x1, x2, x3) = x;
    let (s1, s2, s3) = s;
    let (w1, w2, w3) = w;
    let (f1, f2, f3) = f;
    // Products of sums and values.
    lemma_value(x1, x3, d, w3, f3, s3);
    lemma_value(x3, x1, d, w1, f1, s1);
    lemma_value(x3, x2, d, w2, f2, s2);
    lemma_value(x2, x3, d, w3, f3, s3);
    lemma_value(x1, x2, d, w2, f2, s2);
    lemma_value(x2, x1, d, w1, f1, s1);
    assert(x1 * x3 == x3 * x1 && x3 * x2 == x2 * x3 && x1 * x2 == x2 * x1) by (nonlinear_arith);
    let (a, b) = (d * (x3 * w2), d * (x2 * w3));
    let (c, g) = (x3 * f2, x2 * f3);
    let z = x3 + a + c - x2 - b - g;
    assert(x3 * s2 - x2 * s3 == z);
    lemma_six(d, w1, x3, a, c, x2, b, g);
    let (h, i) = (d * (x1 * w2), d * (x2 * w1));
    let (j, k) = (x1 * f2, x2 * f1);
    let y = x1 + h + j - x2 - i - k;
    assert(x1 * s2 - x2 * s1 == y);
    lemma_six(d, w3, x1, h, j, x2, i, k);
    // Both ways of writing each monomial.
    lemma_factor(x2, w1, w3);
    lemma_factor(d, x2 * w1, x2 * w3);
    assert(x2 * w1 == w1 * x2 && x2 * w3 == w3 * x2) by (nonlinear_arith);
    lemma_factor(x1, 1, d * (d * (w2 * w3)));
    lemma_factor(x3, 1, d * (d * (w1 * w2)));
    assert(x1 * (d * (d * (w2 * w3))) == d * (w3 * (d * (x1 * w2)))) by (nonlinear_arith);
    assert(x3 * (d * (d * (w1 * w2))) == d * (w1 * (d * (x3 * w2)))) by (nonlinear_arith);
    assert(d * (w1 * (d * (x2 * w3))) == d * (w3 * (d * (x2 * w1)))) by (nonlinear_arith);
    assert(d * (x1 * w3) == d * (w3 * x1)) by (nonlinear_arith);
    assert(d * (x3 * w1) == d * (w1 * x3)) by (nonlinear_arith);
    lemma_factor(f1, d * (w3 * x2), x3);
    lemma_factor(f2, d * (w1 * x3), d * (w3 * x1));
    lemma_factor(f3, x1, d * (w1 * x2));
    assert(f1 * (d * (w3 * x2)) == d * (w3 * (x2 * f1))) by (nonlinear_arith);
    assert(f2 * (d * (w1 * x3)) == d * (w1 * (x3 * f2))) by (nonlinear_arith);
    assert(f2 * (d * (w3 * x1)) == d * (w3 * (x1 * f2))) by (nonlinear_arith);
    assert(f3 * (d * (w1 * x2)) == d * (w1 * (x2 * f3))) by (nonlinear_arith);
    assert(f1 * x3 == x3 * f1 && f3 * x1 == x1 * f3) by (nonlinear_arith);
}

proof fn lemma_value(x: int, y: int, d: int, w: int, f: int, s: int)
    requires
        s == 2 * y + 1 + d * w + f,
    ensures
        x * s == 2 * (x * y) + x + d * (x * w) + x * f,
{
    let z = d * w;
    assert(x * (2 * y + 1 + z + f) == x * (2 * y) + x * 1 + x * z + x * f) by (nonlinear_arith);
    assert(x * (2 * y) == 2 * (x * y)) by (nonlinear_arith);
    assert(x * (d * w) == d * (x * w)) by (nonlinear_arith);
}

/// Multiples of a number that vanishes vanish.
pub proof fn lemma_multiple(x: int, y: int, n: int)
    requires
        n > 0,
        congruent(x, 0, n),
    ensures
        congruent(x * y, 0, n),
        congruent(y * x, 0, n),
{
    lemma_congruent_ops(x, 0, y, y, n);
    assert(0 * y == 0);
    assert(x * y == y * x) by (nonlinear_arith);
}

/// A scaled basis vector contributes nothing on the curve.
proof fn lemma_piece(
    z: int,
    t: (int, int, int),
    p: (int, int, int),
    q: (int, int, int),
    s: (int, int, int),
    x: (int, int, int),
    y: (int, int, int),
    w: (int, int, int),
    f: (int, int, int),
    d: int,
    o: int,
    g: (int, int, int),
    n: int,
)
    requires
        n > 0,
        o == 1 || o == -1,
        g.0 == 1 || g.0 == -1,
        g.2 == 1 || g.2 == -1,
        g.1 == o * (g.0 * g.2),
        t == (g.0 * x.0, g.1 * x.1, g.2 * x.2),
        p == (-(o * g.2) * t.0, -(o * g.2) * t.1, (o * g.2) * t.2),
        q == ((o * g.0) * t.0, -(o * g.0) * t.1, -(o * g.0) * t.2),
        s == (g.0 * y.0, g.1 * y.1, g.2 * y.2),
        y.0 == 2 * x.0 + 1 + d * w.0 + f.0,
        y.1 == 2 * x.1 + 1 + d * w.1 + f.1,
        y.2 == 2 * x.2 + 1 + d * w.2 + f.2,
        congruent(f.0, 0, n),
        congruent(f.1, 0, n),
        congruent(f.2, 0, n),
    ensures
        congruent(whole(times(z, t), times(z, p), times(z, q), s, w, d, o), 0, n),
{
    lemma_whole_scale(z, t, p, q, s, w, d, o);
    lemma_whole_basis(x, y, w, d, o, g.0, g.1, g.2);
    lemma_kernel(x, y, w, d, f);
    let (a, b, c) = (
        d * (w.2 * x.1) - x.2,
        d * (w.0 * x.2) - d * (w.2 * x.0),
        x.0 - d * (w.0 * x.1),
    );
    lemma_multiple(f.0, a, n);
    lemma_multiple(f.1, b, n);
    lemma_multiple(f.2, c, n);
    lemma_congruent_ops(f.0 * a, 0, f.1 * b, 0, n);
    lemma_congruent_ops(f.0 * a + f.1 * b, 0, f.2 * c, 0, n);
    let k = kernel(x, y, w, d);
    lemma_multiple(k, g.1, n);
    lemma_multiple(g.1 * k, z, n);
}

/// The sums of the squares of the coordinates of a point in terms of the first square, of the
/// second square and of the product.
pub proof fn lemma_squares(a: (int, int), d: int)
    ensures
        ({
            let (u, v, m) = (a.0 * a.0, a.1 * a.1, a.0 * a.1);
            &&& u + v == 2 * u + 1 + d * (m * m) + defect(a, d)
            &&& -(u + v) == 2 * (-v) + 1 + d * (m * m) + defect(a, d)
        }),
{
    let (x, y) = (a.0, a.1);
    assert(d * (x * x) * (y * y) == d * ((x * y) * (x * y))) by (nonlinear_arith);
}

proof fn lemma_four(a: int, b: int, c: int, e: int, m: int)
    ensures
        (a + b + c + e) * m == a * m + b * m + c * m + e * m,
        (a + b - c - e) * m == a * m + b * m - c * m - e * m,
{
    assert((a + b + c + e) * m == a * m + b * m + c * m + e * m) by (nonlinear_arith);
    assert((a + b - c - e) * m == a * m + b * m - c * m - e * m) by (nonlinear_arith);
}

/// The form of a sum of four vectors of which each contributes nothing.
proof fn lemma_whole_four(
    t: Seq<(int, int, int)>,
    p: Seq<(int, int, int)>,
    q: Seq<(int, int, int)>,
    s: (int, int, int),
    w: (int, int, int),
    d: int,
    o: int,
    n: int,
)
    requires
        n > 0,
        t.len() == 4,
        p.len() == 4,
        q.len() == 4,
        forall|i: int| 0 <= i < 4 ==> congruent(#[trigger] whole(t[i], p[i], q[i], s, w, d, o), 0, n),
    ensures
        congruent(
            whole(
                sum3(sum3(t[0], t[1]), sum3(t[2], t[3])),
                sum3(sum3(p[0], p[1]), sum3(p[2], p[3])),
                sum3(sum3(q[0], q[1]), sum3(q[2], q[3])),
                s,
                w,
                d,
                o,
            ),
            0,
            n,
        ),
{
    lemma_whole_add(t[0], p[0], q[0], t[1], p[1], q[1], s, w, d, o);
    lemma_whole_add(t[2], p[2], q[2], t[3], p[3], q[3], s, w, d, o);
    lemma_whole_add(
        sum3(t[0], t[1]),
        sum3(p[0], p[1]),
        sum3(q[0], q[1]),
        sum3(t[2], t[3]),
        sum3(p[2], p[3]),
        sum3(q[2], q[3]),
        s,
        w,
        d,
        o,
    );
    let v = |i: int| whole(t[i], p[i], q[i], s, w, d, o);
    assert(congruent(v(0), 0, n) && congruent(v(1), 0, n) && congruent(v(2), 0, n) && congruent(
        v(3),
        0,
        n,
    ));
    lemma_congruent_ops(v(0), 0, v(1), 0, n);
    lemma_congruent_ops(v(2), 0, v(3), 0, n);
    lemma_congruent_ops(v(0) + v(1), 0, v(2) + v(3), 0, n);
}

/// The products of three coordinates, one of each point, with an odd number of first coordinates.
pub open spec fn odd(a: (int, int), b: (int, int), c: (int, int)) -> (int, int, int, int) {
    (a.0 * b.1 * c.1, a.1 * b.0 * c.1, a.1 * b.1 * c.0, a.0 * b.0 * c.0)
}

/// The products with an even number of first coordinates.
pub open spec fn even(a: (int, int), b: (int, int), c: (int, int)) -> (int, int, int, int) {
    (a.1 * b.0 * c.0, a.0 * b.1 * c.0, a.0 * b.0 * c.1, a.1 * b.1 * c.1)
}

/// The numerators of the sums are sums of products.
proof fn lemma_tops(a: (int, int), b: (int, int), c: (int, int))
    ensures
        ({
            let (qa, qb, qc, qe) = odd(a, b, c);
            let (za, zb, zc, ze) = even(a, b, c);
            let (x, y) = (first_sum(a, b), second_sum(a, b));
            let (f, g) = (first_sum(b, c), second_sum(b, c));
            &&& x * c.1 == qa + qb
            &&& y * c.0 == qc + qe
            &&& f * a.1 == qb + qc
            &&& g * a.0 == qa + qe
            &&& y * c.1 == ze + zc
            &&& x * c.0 == zb + za
            &&& g * a.1 == ze + za
            &&& f * a.0 == zc + zb
        }),
{
    let (u1, v1, u2, v2, u3, v3) = (a.0, a.1, b.0, b.1, c.0, c.1);
    assert((u1 * v2 + v1 * u2) * v3 == u1 * v2 * v3 + v1 * u2 * v3) by (nonlinear_arith);
    assert((v1 * v2 + u1 * u2) * u3 == v1 * v2 * u3 + u1 * u2 * u3) by (nonlinear_arith);
    assert((u2 * v3 + v2 * u3) * v1 == v1 * u2 * v3 + v1 * v2 * u3) by (nonlinear_arith);
    assert((v2 * v3 + u2 * u3) * u1 == u1 * v2 * v3 + u1 * u2 * u3) by (nonlinear_arith);
    assert((v1 * v2 + u1 * u2) * v3 == v1 * v2 * v3 + u1 * u2 * v3) by (nonlinear_arith);
    assert((u1 * v2 + v1 * u2) * u3 == u1 * v2 * u3 + v1 * u2 * u3) by (nonlinear_arith);
    assert((v2 * v3 + u2 * u3) * v1 == v1 * v2 * v3 + v1 * u2 * u3) by (nonlinear_arith);
    assert((u2 * v3 + v2 * u3) * u1 == u1 * u2 * v3 + u1 * v2 * u3) by (nonlinear_arith);
}

/// A product of three coordinates times the product of the coordinates of a point.
proof fn lemma_products(u1: int, v1: int, u2: int, v2: int, u3: int, v3: int)
    ensures
        (u1 * v2 * v3) * (u1 * v1) == (v1 * v2 * v3) * (u1 * u1),
        (u1 * v2 * v3) * (u2 * v2) == (u1 * u2 * v3) * (v2 * v2),
        (u1 * v2 * v3) * (u3 * v3) == (u1 * v2 * u3) * (v3 * v3),
        (v1 * v2 * v3) * (u1 * v1) == (u1 * v2 * v3) * (v1 * v1),
        (v1 * v2 * v3) * (u2 * v2) == (v1 * u2 * v3) * (v2 * v2),
        (v1 * v2 * v3) * (u3 * v3) == (v1 * v2 * u3) * (v3 * v3),
{
    assert((u1 * v2 * v3) * (u1 * v1) == (v1 * v2 * v3) * (u1 * u1)) by (nonlinear_arith);
    assert((u1 * v2 * v3) * (u2 * v2) == (u1 * u2 * v3) * (v2 * v2)) by (nonlinear_arith);
    assert((u1 * v2 * v3) * (u3 * v3) == (u1 * v2 * u3) * (v3 * v3)) by (nonlinear_arith);
    assert((v1 * v2 * v3) * (u1 * v1) == (u1 * v2 * v3) * (v1 * v1)) by (nonlinear_arith);
    assert((v1 * v2 * v3) * (u2 * v2) == (v1 * u2 * v3) * (v2 * v2)) by (nonlinear_arith);
    assert((v1 * v2 * v3) * (u3 * v3) == (v1 * v2 * u3) * (v3 * v3)) by (nonlinear_arith);
}

/// All products of three coordinates times the product of the coordinates of a point.
proof fn lemma_all_products(a: (int, int), b: (int, int), c: (int, int))
    ensures
        ({
            let (qa, qb, qc, qe) = odd(a, b, c);
            let (za, zb, zc, ze) = even(a, b, c);
            let (m1, m2, m3) = (a.0 * a.1, b.0 * b.1, c.0 * c.1);
            let (u1, u2, u3) = (a.0 * a.0, b.0 * b.0, c.0 * c.0);
            let (v1, v2, v3) = (a.1 * a.1, b.1 * b.1, c.1 * c.1);
            &&& qa * m1 == ze * u1 && qa * m2 == zc * v2 && qa * m3 == zb * v3
            &&& qb * m1 == zc * v1 && qb * m2 == ze * u2 && qb * m3 == za * v3
            &&& qc * m1 == zb * v1 && qc * m2 == za * v2 && qc * m3 == ze * u3
            &&& qe * m1 == za * u1 && qe * m2 == zb * u2 && qe * m3 == zc * u3
            &&& ze * m1 == qa * v1 && ze * m2 == qb * v2 && ze * m3 == qc * v3
            &&& zc * m1 == qb * u1 && zc * m2 == qa * u2 && zc * m3 == qe * v3
            &&& zb * m1 == qc * u1 && zb * m2 == qe * v2 && zb * m3 == qa * u3
            &&& za * m1 == qe * v1 && za * m2 == qc * u2 && za * m3 == qb * u3
        }),
{
    let (u1, v1, u2, v2, u3, v3) = (a.0, a.1, b.0, b.1, c.0, c.1);
    assert(v1 * u1 == u1 * v1 && v2 * u2 == u2 * v2 && v3 * u3 == u3 * v3) by (nonlinear_arith);
    lemma_products(u1, v1, u2, v2, u3, v3);
    lemma_products(u1, v1, v2, u2, u3, v3);
    lemma_products(u1, v1, u2, v2, v3, u3);
    lemma_products(u1, v1, v2, u2, v3, u3);
}

/// The first coordinates of the two groupings of three points of the curve agree.
pub proof fn lemma_first_grouping(a: (int, int), b: (int, int), c: (int, int), d: int, n: int)
    requires
        n > 0,
        congruent(defect(a, d), 0, n),
        congruent(defect(b, d), 0, n),
        congruent(defect(c, d), 0, n),
    ensures
        congruent(
            first_top(a, b, c, d) * first_bottom(b, c, a, d),
            first_top(b, c, a, d) * first_bottom(a, b, c, d),
            n,
        ),
{
    let (m1, m2, m3) = (a.0 * a.1, b.0 * b.1, c.0 * c.1);
    let (u1, u2, u3) = (a.0 * a.0, b.0 * b.0, c.0 * c.0);
    let (v1, v2, v3) = (a.1 * a.1, b.1 * b.1, c.1 * c.1);
    let (s1, s2, s3) = (u1 + v1, u2 + v2, u3 + v3);
    let (qa, qb, qc, qe) = odd(a, b, c);
    let (za, zb, zc, ze) = even(a, b, c);
    let s = (s1, s2, s3);
    let w = (m1 * m1, m2 * m2, m3 * m3);
    let f = (defect(a, d), defect(b, d), defect(c, d));
    lemma_squares(a, d);
    lemma_squares(b, d);
    lemma_squares(c, d);
    lemma_shape(a, b, c, d);
    lemma_shape(b, c, a, d);
    lemma_tops(a, b, c);
    lemma_all_products(a, b, c);
    let (t, p, q) = (qa + qb + qc + qe, qc + qe - qa - qb, qa + qe - qb - qc);
    lemma_whole(t, p, q, (m1, m2, m3), s, d, 1);
    lemma_four(qa, qb, qc, qe, m1);
    lemma_four(qa, qb, qc, qe, m2);
    lemma_four(qa, qb, qc, qe, m3);
    lemma_four(qc, qe, qa, qb, m1);
    lemma_four(qc, qe, qa, qb, m2);
    lemma_four(qc, qe, qa, qb, m3);
    lemma_four(qa, qe, qb, qc, m1);
    lemma_four(qa, qe, qb, qc, m2);
    lemma_four(qa, qe, qb, qc, m3);
    lemma_piece(za, (u1, v2, v3), (u1, v2, -v3), (u1, -v2, -v3), s, (u1, -v2, -v3), (s1, -s2, -s3), w, f, d, 1, (1, -1, -1), n);
    lemma_piece(zb, (v1, u2, v3), (v1, u2, -v3), (-v1, u2, v3), s, (-v1, u2, -v3), (-s1, s2, -s3), w, f, d, 1, (-1, 1, -1), n);
    lemma_piece(zc, (v1, v2, u3), (-v1, -v2, u3), (-v1, v2, u3), s, (-v1, -v2, u3), (-s1, -s2, s3), w, f, d, 1, (-1, -1, 1), n);
    lemma_piece(ze, (u1, u2, u3), (-u1, -u2, u3), (u1, -u2, -u3), s, (u1, u2, u3), (s1, s2, s3), w, f, d, 1, (1, 1, 1), n);
    let ts = seq![
        times(za, (u1, v2, v3)),
        times(zb, (v1, u2, v3)),
        times(zc, (v1, v2, u3)),
        times(ze, (u1, u2, u3)),
    ];
    let ps = seq![
        times(za, (u1, v2, -v3)),
        times(zb, (v1, u2, -v3)),
        times(zc, (-v1, -v2, u3)),
        times(ze, (-u1, -u2, u3)),
    ];
    let qs = seq![
        times(za, (u1, -v2, -v3)),
        times(zb, (-v1, u2, v3)),
        times(zc, (-v1, v2, u3)),
        times(ze, (u1, -u2, -u3)),
    ];
    lemma_whole_four(ts, ps, qs, s, w, d, 1, n);
    lemma_negated(za, (u1, v2, v3));
    lemma_negated(zb, (v1, u2, v3));
    lemma_negated(zc, (v1, v2, u3));
    lemma_negated(ze, (u1, u2, u3));
    let form = whole(
        (t * m1, t * m2, t * m3),
        (p * m1, p * m2, p * m3),
        (q * m1, q * m2, q * m3),
        s,
        w,
        d,
        1,
    );
    assert(congruent(form, 0, n));
    lemma_multiple(form, d * m2, n);
    let (x, y) = (
        first_top(a, b, c, d) * first_bottom(b, c, a, d),
        first_top(b, c, a, d) * first_bottom(a, b, c, d),
    );
    assert(x - y == (d * m2) * form);
    lemma_small_mod(0, n as nat);
    lemma_congruent_difference(x, y, n);
}

/// The second coordinates of the two groupings of three points of the curve agree.
pub proof fn lemma_second_grouping(a: (int, int), b: (int, int), c: (int, int), d: int, n: int)
    requires
        n > 0,
        congruent(defect(a, d), 0, n),
        congruent(defect(b, d), 0, n),
        congruent(defect(c, d), 0, n),
    ensures
        congruent(
            second_top(a, b, c, d) * second_bottom(b, c, a, d),
            second_top(b, c, a, d) * second_bottom(a, b, c, d),
            n,
        ),
{
    let (m1, m2, m3) = (a.0 * a.1, b.0 * b.1, c.0 * c.1);
    let (u1, u2, u3) = (a.0 * a.0, b.0 * b.0, c.0 * c.0);
    let (v1, v2, v3) = (a.1 * a.1, b.1 * b.1, c.1 * c.1);
    let (s1, s2, s3) = (u1 + v1, u2 + v2, u3 + v3);
    let (qa, qb, qc, qe) = odd(a, b, c);
    let (za, zb, zc, ze) = even(a, b, c);
    let s = (s1, s2, s3);
    let w = (m1 * m1, m2 * m2, m3 * m3);
    let f = (defect(a, d), defect(b, d), defect(c, d));
    lemma_squares(a, d);
    lemma_squares(b, d);
    lemma_squares(c, d);
    lemma_shape(a, b, c, d);
    lemma_shape(b, c, a, d);
    lemma_tops(a, b, c);
    lemma_all_products(a, b, c);
    let (t, p, q) = (za + zb + zc + ze, ze + zc - zb - za, ze + za - zc - zb);
    lemma_whole(t, p, q, (m1, m2, m3), s, d, -1);
    lemma_four(za, zb, zc, ze, m1);
    lemma_four(za, zb, zc, ze, m2);
    lemma_four(za, zb, zc, ze, m3);
    lemma_four(ze, zc, zb, za, m1);
    lemma_four(ze, zc, zb, za, m2);
    lemma_four(ze, zc, zb, za, m3);
    lemma_four(ze, za, zc, zb, m1);
    lemma_four(ze, za, zc, zb, m2);
    lemma_four(ze, za, zc, zb, m3);
    lemma_piece(qa, (v1, u2, u3), (v1, u2, -u3), (v1, -u2, -u3), s, (-v1, u2, u3), (-s1, s2, s3), w, f, d, -1, (-1, 1, 1), n);
    lemma_piece(qb, (u1, v2, u3), (u1, v2, -u3), (-u1, v2, u3), s, (u1, -v2, u3), (s1, -s2, s3), w, f, d, -1, (1, -1, 1), n);
    lemma_piece(qc, (u1, u2, v3), (-u1, -u2, v3), (-u1, u2, v3), s, (u1, u2, -v3), (s1, s2, -s3), w, f, d, -1, (1, 1, -1), n);
    assert((-1int) * (-1int) == 1);
    lemma_piece(qe, (v1, v2, v3), (-v1, -v2, v3), (v1, -v2, -v3), s, (-v1, -v2, -v3), (-s1, -s2, -s3), w, f, d, -1, (-1, -1, -1), n);
    let ts = seq![
        times(qa, (v1, u2, u3)),
        times(qb, (u1, v2, u3)),
        times(qc, (u1, u2, v3)),
        times(qe, (v1, v2, v3)),
    ];
    let ps = seq![
        times(qa, (v1, u2, -u3)),
        times(qb, (u1, v2, -u3)),
        times(qc, (-u1, -u2, v3)),
        times(qe, (-v1, -v2, v3)),
    ];
    let qs = seq![
        times(qa, (v1, -u2, -u3)),
        times(qb, (-u1, v2, u3)),
        times(qc, (-u1, u2, v3)),
        times(qe, (v1, -v2, -v3)),
    ];
    lemma_whole_four(ts, ps, qs, s, w, d, -1, n);
    lemma_negated(qa, (v1, u2, u3));
    lemma_negated(qb, (u1, v2, u3));
    lemma_negated(qc, (u1, u2, v3));
    lemma_negated(qe, (v1, v2, v3));
    let form = whole(
        (t * m1, t * m2, t * m3),
        (p * m1, p * m2, p * m3),
        (q * m1, q * m2, q * m3),
        s,
        w,
        d,
        -1,
    );
    assert(congruent(form, 0, n));
    lemma_multiple(form, d * m2, n);
    let (x, y) = (
        second_top(a, b, c, d) * second_bottom(b, c, a, d),
        second_top(b, c, a, d) * second_bottom(a, b, c, d),
    );
    assert(x - y == (d * m2) * form);
    lemma_small_mod(0, n as nat);
    lemma_congruent_difference(x, y, n);
}

proof fn lemma_negated(z: int, x: (int, int, int))
    ensures
        z * (-x.0) == -(z * x.0),
        z * (-x.1) == -(z * x.1),
        z * (-x.2) == -(z * x.2),
{
    let (f, g, h) = x;
    assert(z * (-f) == -(z * f)) by (nonlinear_arith);
    assert(z * (-g) == -(z * g)) by (nonlinear_arith);
    assert(z * (-h) == -(z * h)) by (nonlinear_arith);
}

} // verus!

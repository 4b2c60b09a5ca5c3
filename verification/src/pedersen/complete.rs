//! The points of the Jubjub curve form a commutative group.
//!
//! No denominator of a sum vanishes, since the parameter of the curve is no square and minus one
//! is a square.
use crate::curve::law::{inverse, quotient};
use crate::field::congruence::{
    congruent, lemma_congruent_difference, lemma_congruent_mod, lemma_congruent_ops,
    lemma_congruent_small,
};
use crate::field::primes::{is_inverse, lemma_euclid, lemma_prime_unit};
use crate::pedersen::edwards::{
    base_modulus, ed_add, ed_neg, edwards_d, lemma_neutral_on_curve, neutral, on_edwards,
};
use crate::pedersen::identities::{
    cross, defect, first_bottom, first_sum, first_top, lemma_first_grouping, lemma_multiple,
    lemma_second_grouping, lemma_squares, second_bottom, second_sum, second_top,
};
use crate::pedersen::modulus::{
    imaginary, lemma_base_prime, lemma_imaginary, lemma_parameter,
};
use vstd::arithmetic::div_mod::{lemma_mod_bound, lemma_small_mod};
use vstd::prelude::*;

verus! {

/// The sum of congruences.
proof fn lemma_zero_sum(a: int, b: int)
    requires
        congruent(a, 0, base_modulus()),
        congruent(b, 0, base_modulus()),
    ensures
        congruent(a + b, 0, base_modulus()),
        congruent(a - b, 0, base_modulus()),
{
    lemma_congruent_ops(a, 0, b, 0, base_modulus());
}

/// A product vanishes only with a factor.
proof fn lemma_zero_product(a: int, b: int)
    requires
        congruent(a * b, 0, base_modulus()),
        a % base_modulus() != 0,
    ensures
        congruent(b, 0, base_modulus()),
{
    lemma_base_prime();
    lemma_small_mod(0, base_modulus() as nat);
    lemma_euclid(base_modulus(), a, b);
}

/// A nonzero factor can be cancelled.
proof fn lemma_cancel_factor(a: int, b: int, c: int)
    requires
        c % base_modulus() != 0,
        congruent(a * c, b * c, base_modulus()),
    ensures
        congruent(a, b, base_modulus()),
{
    let p = base_modulus();
    lemma_congruent_difference(a * c, b * c, p);
    lemma_small_mod(0, p as nat);
    assert(c * (a - b) == a * c - b * c) by (nonlinear_arith);
    lemma_zero_product(c, a - b);
    lemma_congruent_difference(a, b, p);
}

/// The quotient times the divisor is the dividend.
proof fn lemma_base_quotient(a: int, b: int)
    requires
        b % base_modulus() != 0,
    ensures
        0 <= quotient(a, b, base_modulus()) < base_modulus(),
        congruent(quotient(a, b, base_modulus()) * b, a, base_modulus()),
{
    let p = base_modulus();
    lemma_base_prime();
    lemma_mod_bound(b, p);
    lemma_congruent_mod(b, p);
    let r = b % p;
    lemma_prime_unit(r, p);
    let w = choose|w: int| is_inverse(r, w, p);
    let v = w % p;
    lemma_congruent_mod(w, p);
    lemma_congruent_ops(b, r, v, w, p);
    assert(0 <= v < p && is_inverse(b, v, p));
    let i = inverse(b, p);
    lemma_congruent_mod(a * i, p);
    lemma_congruent_ops((a * i) % p, a * i, b, b, p);
    assert((a * i) * b == a * (b * i)) by (nonlinear_arith);
    lemma_small_mod(1, p as nat);
    lemma_congruent_ops(a, a, b * i, 1, p);
    assert(a * 1 == a);
}

/// The difference of the squares of the coordinates of a point of the curve.
proof fn lemma_on_curve(a: (int, int))
    requires
        on_edwards(a),
    ensures
        0 <= a.0 < base_modulus(),
        0 <= a.1 < base_modulus(),
        congruent(defect(a, edwards_d()), 0, base_modulus()),
        congruent(
            a.1 * a.1 - a.0 * a.0,
            1 + edwards_d() * ((a.0 * a.1) * (a.0 * a.1)),
            base_modulus(),
        ),
{
    reveal(on_edwards);
    let (p, d) = (base_modulus(), edwards_d());
    lemma_small_mod(0, p as nat);
    lemma_squares(a, d);
    let r = 1 + d * ((a.0 * a.1) * (a.0 * a.1));
    lemma_congruent_ops(defect(a, d), 0, r, r, p);
}

/// Where the product is a sign, the parameter times a square is a square.
proof fn lemma_square_of_sign(a: (int, int), b: (int, int), e: int, g: int)
    requires
        on_edwards(a),
        on_edwards(b),
        e == 1 || e == -1,
        g == 1 || g == -1,
        congruent(cross(a, b, edwards_d()), e, base_modulus()),
    ensures
        ({
            let (j, m) = (imaginary(), a.0 * a.1);
            let (z, t) = (j * a.0 + (g * e) * a.1, m * (j * b.0 + g * b.1));
            congruent(edwards_d() * (t * t), z * z, base_modulus())
        }),
{
    let (p, d, j) = (base_modulus(), edwards_d(), imaginary());
    let (u1, v1, u2, v2) = (a.0, a.1, b.0, b.1);
    let (m1, m2) = (u1 * v1, u2 * v2);
    let (w1, w2) = (m1 * m1, m2 * m2);
    let k = d * (m1 * m2);
    let x = (v1 * v1 - u1 * u1) + 2 * (g * e) * (j * m1);
    let y = (v2 * v2 - u2 * u2) + 2 * g * (j * m2);
    lemma_imaginary();
    lemma_on_curve(a);
    lemma_on_curve(b);
    lemma_mixed_square(j, u1, v1, g * e);
    lemma_mixed_square(j, u2, v2, g);
    assert(cross(a, b, d) == k) by {
        assert(d * (u1 * u2) * (v1 * v2) == d * ((u1 * v1) * (u2 * v2))) by (nonlinear_arith);
    }
    // The square on the left is `w1 * y` times the parameter.
    let s = j * u2 + g * v2;
    assert(d * ((m1 * s) * (m1 * s)) == (d * (m1 * m1)) * (s * s)) by (nonlinear_arith);
    lemma_congruent_ops(d * w1, d * w1, s * s, y, p);
    // Both sides in terms of products.
    let (r1, r2) = (v1 * v1 - u1 * u1, v2 * v2 - u2 * u2);
    let q = 2 * g * (j * m2);
    assert((d * w1) * (r2 + q) == (d * w1) * r2 + (d * w1) * q) by (nonlinear_arith);
    lemma_congruent_ops(d * w1, d * w1, r2, 1 + d * w2, p);
    let h = d * w2;
    assert((d * w1) * (1 + h) == d * w1 + (d * w1) * h) by (nonlinear_arith);
    assert((d * (m1 * m1)) * (d * (m2 * m2)) == (d * (m1 * m2)) * (d * (m1 * m2)))
        by (nonlinear_arith);
    lemma_congruent_ops(k, e, k, e, p);
    assert(e * e == 1) by (nonlinear_arith)
        requires
            e == 1 || e == -1,
    ;
    lemma_congruent_ops(d * w1, d * w1, k * k, 1, p);
    assert((d * (m1 * m1)) * (2 * g * (j * m2)) == (2 * g * (j * m1)) * (d * (m1 * m2)))
        by (nonlinear_arith);
    let f = 2 * g * (j * m1);
    lemma_congruent_ops(f, f, k, e, p);
    assert((2 * g * (j * m1)) * e == 2 * (g * e) * (j * m1)) by (nonlinear_arith);
    lemma_congruent_ops((d * w1) * r2, d * w1 + 1, (d * w1) * q, f * e, p);
    let c = f * e;
    lemma_congruent_ops(r1, 1 + d * w1, c, c, p);
}

/// The square of a sum with a root of minus one.
proof fn lemma_mixed_square(j: int, u: int, v: int, g: int)
    requires
        g == 1 || g == -1,
        congruent(j * j, -1, base_modulus()),
    ensures
        congruent(
            (j * u + g * v) * (j * u + g * v),
            (v * v - u * u) + 2 * g * (j * (u * v)),
            base_modulus(),
        ),
{
    let p = base_modulus();
    let (a, b) = (j * u, g * v);
    assert((a + b) * (a + b) == a * a + 2 * (a * b) + b * b) by (nonlinear_arith);
    assert((j * u) * (j * u) == (j * j) * (u * u)) by (nonlinear_arith);
    assert((g * v) * (g * v) == (g * g) * (v * v)) by (nonlinear_arith);
    assert((j * u) * (g * v) == g * (j * (u * v))) by (nonlinear_arith);
    assert(g * g == 1) by (nonlinear_arith)
        requires
            g == 1 || g == -1,
    ;
    let w = u * u;
    lemma_congruent_ops(j * j, -1, w, w, p);
    assert((-1int) * w == -w);
    let z = j * (u * v);
    assert(2 * g * z == 2 * (g * z)) by (nonlinear_arith);
    let r = v * v + 2 * (g * z);
    lemma_congruent_ops((j * j) * w, -w, r, r, p);
}

/// The product that decides on the denominators is no sign.
proof fn lemma_no_sign(a: (int, int), b: (int, int), e: int)
    requires
        on_edwards(a),
        on_edwards(b),
        e == 1 || e == -1,
    ensures
        !congruent(cross(a, b, edwards_d()), e, base_modulus()),
{
    let (p, d, j) = (base_modulus(), edwards_d(), imaginary());
    let k = cross(a, b, d);
    if congruent(k, e, p) {
        let (m1, m2) = (a.0 * a.1, b.0 * b.1);
        let (u1, v1, u2, v2) = (a.0, a.1, b.0, b.1);
        lemma_small_mod(0, p as nat);
        lemma_small_mod(1, p as nat);
        assert((-1int) % p == p - 1);
        assert(k == m1 * (d * m2) && k == m2 * (d * m1)) by {
            assert(d * (u1 * u2) * (v1 * v2) == (u1 * v1) * (d * (u2 * v2))) by (nonlinear_arith);
            assert(d * (u1 * u2) * (v1 * v2) == (u2 * v2) * (d * (u1 * v1))) by (nonlinear_arith);
        }
        if m1 % p == 0 {
            lemma_multiple(m1, d * m2, p);
            assert(false);
        }
        if m2 % p == 0 {
            lemma_multiple(m2, d * m1, p);
            assert(false);
        }
        let (s, r) = (j * u2 + 1 * v2, j * u2 + (-1) * v2);
        lemma_square_of_sign(a, b, e, 1);
        lemma_square_of_sign(a, b, e, -1);
        if (m1 * s) % p != 0 {
            lemma_parameter(m1 * s, j * u1 + (1 * e) * v1);
            assert(false);
        }
        if (m1 * r) % p != 0 {
            lemma_parameter(m1 * r, j * u1 + (-1 * e) * v1);
            assert(false);
        }
        lemma_zero_product(m1, s);
        lemma_zero_product(m1, r);
        lemma_zero_sum(s, r);
        assert(s - r == 2 * v2);
        lemma_small_mod(2, p as nat);
        lemma_zero_product(2, v2);
        lemma_multiple(v2, u2, p);
        assert(false);
    }
}

/// No denominator of a sum of points vanishes.
pub proof fn lemma_complete(a: (int, int), b: (int, int))
    requires
        on_edwards(a),
        on_edwards(b),
    ensures
        (1 + cross(a, b, edwards_d())) % base_modulus() != 0,
        (1 - cross(a, b, edwards_d())) % base_modulus() != 0,
{
    let p = base_modulus();
    let k = cross(a, b, edwards_d());
    lemma_no_sign(a, b, 1);
    lemma_no_sign(a, b, -1);
    lemma_congruent_difference(k, -1, p);
    lemma_congruent_difference(1, k, p);
}

/// The coordinates of a sum.
pub proof fn lemma_sum(a: (int, int), b: (int, int))
    requires
        on_edwards(a),
        on_edwards(b),
    ensures
        ({
            let (s, k) = (ed_add(a, b), cross(a, b, edwards_d()));
            &&& 0 <= s.0 < base_modulus()
            &&& 0 <= s.1 < base_modulus()
            &&& congruent(s.0 * (1 + k), first_sum(a, b), base_modulus())
            &&& congruent(s.1 * (1 - k), second_sum(a, b), base_modulus())
        }),
{
    reveal(ed_add);
    let k = cross(a, b, edwards_d());
    lemma_complete(a, b);
    lemma_base_quotient(first_sum(a, b), 1 + k);
    lemma_base_quotient(second_sum(a, b), 1 - k);
}

/// The equation of the curve for the numerators and denominators of a sum.
proof fn lemma_sum_equation(a: (int, int), b: (int, int))
    requires
        on_edwards(a),
        on_edwards(b),
    ensures
        ({
            let (x, y, k) = (first_sum(a, b), second_sum(a, b), cross(a, b, edwards_d()));
            let (f, g, n) = (y * (1 + k), x * (1 - k), 1 - k * k);
            congruent(f * f - g * g - n * n - edwards_d() * ((x * y) * (x * y)), 0, base_modulus())
        }),
{
    let (p, d) = (base_modulus(), edwards_d());
    let (u1, v1, u2, v2) = (a.0, a.1, b.0, b.1);
    let (x, y, k) = (first_sum(a, b), second_sum(a, b), cross(a, b, d));
    let (m1, m2) = (u1 * v1, u2 * v2);
    let (w1, w2) = (m1 * m1, m2 * m2);
    let (s1, s2) = (u1 * u1 + v1 * v1, u2 * u2 + v2 * v2);
    let (r1, r2) = (v1 * v1 - u1 * u1, v2 * v2 - u2 * u2);
    let (h1, h2) = (d * w1, d * w2);
    lemma_on_curve(a);
    lemma_on_curve(b);
    lemma_square_relation(u1, v1);
    lemma_square_relation(u2, v2);
    assert(k == d * (m1 * m2)) by {
        assert(d * (u1 * u2) * (v1 * v2) == d * ((u1 * v1) * (u2 * v2))) by (nonlinear_arith);
    }
    lemma_sum_squares(u1, v1, u2, v2);
    // The left side in terms of sums and differences of squares.
    let (xx, yy) = (x * x, y * y);
    let (f, g, n) = (y * (1 + k), x * (1 - k), 1 - k * k);
    let c = 1 + k * k;
    assert(f * f == yy * (c + 2 * k)) by {
        assert((y * (1 + k)) * (y * (1 + k)) == (y * y) * ((1 + k) * (1 + k))) by (nonlinear_arith);
        assert((1 + k) * (1 + k) == 1 + 2 * k + k * k) by (nonlinear_arith);
    }
    assert(g * g == xx * (c - 2 * k)) by {
        assert((x * (1 - k)) * (x * (1 - k)) == (x * x) * ((1 - k) * (1 - k))) by (nonlinear_arith);
        assert((1 - k) * (1 - k) == 1 - 2 * k + k * k) by (nonlinear_arith);
    }
    assert(yy * (c + 2 * k) - xx * (c - 2 * k) == (yy - xx) * c + 2 * (k * (xx + yy)))
        by (nonlinear_arith);
    let q = k * k;
    assert(n * n == 1 - 2 * q + q * q) by (nonlinear_arith)
        requires
            n == 1 - q,
    ;
    assert(q == h1 * h2) by {
        assert((d * (m1 * m2)) * (d * (m1 * m2)) == (d * (m1 * m1)) * (d * (m2 * m2)))
            by (nonlinear_arith);
    }
    // The product of the numerators.
    let t = m1 * m2;
    let ss = s1 * s2;
    assert((x * y) * (x * y) == w1 * (s2 * s2) + w2 * (s1 * s1) + 2 * (t * ss)) by {
        let (i, j) = (m1 * s2, m2 * s1);
        assert((i + j) * (i + j) == i * i + j * j + 2 * (i * j)) by (nonlinear_arith);
        assert((m1 * s2) * (m1 * s2) == (m1 * m1) * (s2 * s2)) by (nonlinear_arith);
        assert((m2 * s1) * (m2 * s1) == (m2 * m2) * (s1 * s1)) by (nonlinear_arith);
        assert((m1 * s2) * (m2 * s1) == (m1 * m2) * (s1 * s2)) by (nonlinear_arith);
    }
    let (rr1, rr2) = (r1 * r1, r2 * r2);
    assert(w1 * (rr2 + 4 * w2) == w1 * rr2 + 4 * (w1 * w2)) by (nonlinear_arith);
    assert(w2 * (rr1 + 4 * w1) == w2 * rr1 + 4 * (w1 * w2)) by (nonlinear_arith);
    let (i, j, o, z) = (w1 * rr2, w2 * rr1, w1 * w2, t * ss);
    assert(d * (i + 4 * o + j + 4 * o + 2 * z) == d * i + d * j + 8 * (d * o) + 2 * (d * z))
        by (nonlinear_arith);
    assert(k * (ss + 4 * t) == d * (t * ss) + 4 * (d * (w1 * w2))) by {
        assert(k * (ss + 4 * t) == k * ss + 4 * (k * t)) by (nonlinear_arith);
        assert((d * t) * ss == d * (t * ss)) by (nonlinear_arith);
        assert((d * (m1 * m2)) * (m1 * m2) == d * ((m1 * m1) * (m2 * m2))) by (nonlinear_arith);
    }
    assert(d * (w1 * rr2) == h1 * rr2) by (nonlinear_arith)
        requires
            h1 == d * w1,
    ;
    assert(d * (w2 * rr1) == h2 * rr1) by (nonlinear_arith)
        requires
            h2 == d * w2,
    ;
    let left = (r1 * r2) * c - (1 - 2 * q + q * q) - h1 * rr2 - h2 * rr1;
    assert(f * f - g * g - n * n - d * ((x * y) * (x * y)) == left);
    // On the curve the differences of squares are known.
    let (e1, e2) = (1 + h1, 1 + h2);
    lemma_congruent_ops(r1, e1, r2, e2, p);
    lemma_congruent_ops(r1 * r2, e1 * e2, c, c, p);
    lemma_congruent_ops(r2, e2, r2, e2, p);
    lemma_congruent_ops(r1, e1, r1, e1, p);
    lemma_congruent_ops(h1, h1, rr2, e2 * e2, p);
    lemma_congruent_ops(h2, h2, rr1, e1 * e1, p);
    let v = 1 - 2 * q + q * q;
    lemma_congruent_ops((r1 * r2) * c, (e1 * e2) * c, v, v, p);
    lemma_congruent_ops((r1 * r2) * c - v, (e1 * e2) * c - v, h1 * rr2, h1 * (e2 * e2), p);
    lemma_congruent_ops(
        (r1 * r2) * c - v - h1 * rr2,
        (e1 * e2) * c - v - h1 * (e2 * e2),
        h2 * rr1,
        h2 * (e1 * e1),
        p,
    );
    assert((e1 * e2) * c - v - h1 * (e2 * e2) - h2 * (e1 * e1) == 0) by {
        assert((1 + h1) * (1 + h2) == 1 + h1 + h2 + q) by (nonlinear_arith)
            requires
                q == h1 * h2,
        ;
        assert((1 + h1 + h2 + q) * (1 + q) == 1 + h1 + h2 + q + q + h1 * q + h2 * q + q * q)
            by (nonlinear_arith);
        assert((1 + h2) * (1 + h2) == 1 + 2 * h2 + h2 * h2) by (nonlinear_arith);
        assert((1 + h1) * (1 + h1) == 1 + 2 * h1 + h1 * h1) by (nonlinear_arith);
        let (b1, b2) = (h1 * h1, h2 * h2);
        assert(h1 * (1 + 2 * h2 + b2) == h1 + 2 * (h1 * h2) + h1 * b2) by (nonlinear_arith);
        assert(h2 * (1 + 2 * h1 + b1) == h2 + 2 * (h1 * h2) + h2 * b1) by (nonlinear_arith);
        assert(h1 * (h2 * h2) == h2 * (h1 * h2)) by (nonlinear_arith);
        assert(h2 * (h1 * h1) == h1 * (h1 * h2)) by (nonlinear_arith);
    }
}

proof fn lemma_square_relation(u: int, v: int)
    ensures
        ({
            let (s, r, m) = (u * u + v * v, v * v - u * u, u * v);
            s * s == r * r + 4 * (m * m)
        }),
{
    let (a, b) = (u * u, v * v);
    assert((a + b) * (a + b) == (b - a) * (b - a) + 4 * (a * b)) by (nonlinear_arith);
    assert((u * u) * (v * v) == (u * v) * (u * v)) by (nonlinear_arith);
}

proof fn lemma_sum_squares(u1: int, v1: int, u2: int, v2: int)
    ensures
        ({
            let (x, y) = (u1 * v2 + v1 * u2, v1 * v2 + u1 * u2);
            let (m1, m2) = (u1 * v1, u2 * v2);
            let (s1, s2) = (u1 * u1 + v1 * v1, u2 * u2 + v2 * v2);
            let (r1, r2) = (v1 * v1 - u1 * u1, v2 * v2 - u2 * u2);
            &&& y * y - x * x == r1 * r2
            &&& x * x + y * y == s1 * s2 + 4 * (m1 * m2)
            &&& x * y == m1 * s2 + m2 * s1
        }),
{
    let (f, g, h, i) = (u1 * v2, v1 * u2, v1 * v2, u1 * u2);
    assert((f + g) * (f + g) == f * f + 2 * (f * g) + g * g) by (nonlinear_arith);
    assert((h + i) * (h + i) == h * h + 2 * (h * i) + i * i) by (nonlinear_arith);
    assert((f + g) * (h + i) == f * h + f * i + g * h + g * i) by (nonlinear_arith);
    let (a1, b1, a2, b2) = (u1 * u1, v1 * v1, u2 * u2, v2 * v2);
    assert((u1 * v2) * (u1 * v2) == (u1 * u1) * (v2 * v2)) by (nonlinear_arith);
    assert((v1 * u2) * (v1 * u2) == (v1 * v1) * (u2 * u2)) by (nonlinear_arith);
    assert((v1 * v2) * (v1 * v2) == (v1 * v1) * (v2 * v2)) by (nonlinear_arith);
    assert((u1 * u2) * (u1 * u2) == (u1 * u1) * (u2 * u2)) by (nonlinear_arith);
    assert((u1 * v2) * (v1 * u2) == (u1 * v1) * (u2 * v2)) by (nonlinear_arith);
    assert((v1 * v2) * (u1 * u2) == (u1 * v1) * (u2 * v2)) by (nonlinear_arith);
    assert((b1 - a1) * (b2 - a2) == b1 * b2 - b1 * a2 - a1 * b2 + a1 * a2) by (nonlinear_arith);
    assert((a1 + b1) * (a2 + b2) == a1 * a2 + a1 * b2 + b1 * a2 + b1 * b2) by (nonlinear_arith);
    assert((u1 * v2) * (v1 * v2) == (u1 * v1) * (v2 * v2)) by (nonlinear_arith);
    assert((u1 * v2) * (u1 * u2) == (u2 * v2) * (u1 * u1)) by (nonlinear_arith);
    assert((v1 * u2) * (v1 * v2) == (u2 * v2) * (v1 * v1)) by (nonlinear_arith);
    assert((v1 * u2) * (u1 * u2) == (u1 * v1) * (u2 * u2)) by (nonlinear_arith);
    let (m1, m2) = (u1 * v1, u2 * v2);
    assert(m1 * (a2 + b2) == m1 * a2 + m1 * b2) by (nonlinear_arith);
    assert(m2 * (a1 + b1) == m2 * a1 + m2 * b1) by (nonlinear_arith);
}

/// Sums of points of the curve are on the curve.
pub proof fn lemma_closed_sum(a: (int, int), b: (int, int))
    requires
        on_edwards(a),
        on_edwards(b),
    ensures
        on_edwards(ed_add(a, b)),
{
    let (p, d) = (base_modulus(), edwards_d());
    let (x, y, k) = (first_sum(a, b), second_sum(a, b), cross(a, b, d));
    let (u, v) = ed_add(a, b);
    lemma_sum(a, b);
    lemma_complete(a, b);
    lemma_sum_equation(a, b);
    let (m, n) = (1 + k, 1 - k);
    let (g, f) = (u * m, v * n);
    // The equation times the square of both denominators.
    let c = m * n;
    assert(c == 1 - k * k) by (nonlinear_arith)
        requires
            m == 1 + k,
            n == 1 - k,
            c == m * n,
    ;
    assert((v * v) * (c * c) == (f * m) * (f * m)) by (nonlinear_arith)
        requires
            f == v * n,
            c == m * n,
    ;
    assert((u * u) * (c * c) == (g * n) * (g * n)) by (nonlinear_arith)
        requires
            g == u * m,
            c == m * n,
    ;
    let (uu, vv, cc) = (u * u, v * v, c * c);
    assert((d * uu * vv) * cc == d * ((g * f) * (g * f))) by {
        assert((d * uu * vv) * cc == d * ((uu * vv) * cc)) by (nonlinear_arith);
        assert(((u * u) * (v * v)) * ((m * n) * (m * n)) == ((u * m) * (v * n)) * ((u * m) * (v
            * n))) by (nonlinear_arith);
    }
    let e = defect((u, v), d);
    let z = d * uu * vv;
    assert((vv - uu - 1 - z) * cc == vv * cc - uu * cc - cc - z * cc) by (nonlinear_arith);
    // Numerators in place of products with denominators.
    lemma_congruent_ops(f, y, m, m, p);
    lemma_congruent_ops(f * m, y * m, f * m, y * m, p);
    lemma_congruent_ops(g, x, n, n, p);
    lemma_congruent_ops(g * n, x * n, g * n, x * n, p);
    lemma_congruent_ops((f * m) * (f * m), (y * m) * (y * m), (g * n) * (g * n), (x * n) * (x * n), p);
    let (s, t) = (
        (f * m) * (f * m) - (g * n) * (g * n),
        (y * m) * (y * m) - (x * n) * (x * n),
    );
    lemma_congruent_ops(s, t, cc, cc, p);
    lemma_congruent_ops(g, x, f, y, p);
    lemma_congruent_ops(g * f, x * y, g * f, x * y, p);
    lemma_congruent_ops(d, d, (g * f) * (g * f), (x * y) * (x * y), p);
    lemma_congruent_ops(s - cc, t - cc, d * ((g * f) * (g * f)), d * ((x * y) * (x * y)), p);
    assert(congruent(e * cc, 0, p));
    lemma_nonzero_product(m, n);
    lemma_nonzero_product(c, c);
    assert(e * cc == cc * e) by (nonlinear_arith);
    lemma_zero_product(cc, e);
    lemma_small_mod(0, p as nat);
    reveal(on_edwards);
}

/// A product of numbers that do not vanish does not vanish.
proof fn lemma_nonzero_product(a: int, b: int)
    requires
        a % base_modulus() != 0,
        b % base_modulus() != 0,
    ensures
        (a * b) % base_modulus() != 0,
{
    lemma_small_mod(0, base_modulus() as nat);
    if (a * b) % base_modulus() == 0 {
        lemma_zero_product(a, b);
    }
}

/// Sums do not depend on the order of the summands.
pub proof fn lemma_commuted_sum(a: (int, int), b: (int, int))
    ensures
        ed_add(a, b) == ed_add(b, a),
{
    reveal(ed_add);
    let (u1, v1, u2, v2) = (a.0, a.1, b.0, b.1);
    assert(u1 * u2 == u2 * u1 && v1 * v2 == v2 * v1 && u1 * v2 == v2 * u1 && v1 * u2 == u2 * v1)
        by (nonlinear_arith);
}

/// The neutral element and opposites.
pub proof fn lemma_opposite_sum(a: (int, int))
    requires
        on_edwards(a),
    ensures
        ed_add(a, neutral()) == a,
        on_edwards(ed_neg(a)),
        ed_add(a, ed_neg(a)) == neutral(),
{
    let (p, d) = (base_modulus(), edwards_d());
    let (u, v) = a;
    lemma_on_curve(a);
    lemma_neutral_on_curve();
    lemma_small_mod(0, p as nat);
    lemma_small_mod(1, p as nat);
    // The neutral element.
    let o = neutral();
    let s = ed_add(a, o);
    lemma_sum(a, o);
    assert(cross(a, o, d) == 0) by {
        assert(d * (u * 0) * (v * 1) == 0) by (nonlinear_arith);
    }
    assert(u * 1 + v * 0 == u && v * 1 + u * 0 == v);
    let (f, g) = s;
    assert(f * (1 + 0) == f && g * (1 - 0) == g) by (nonlinear_arith);
    lemma_congruent_small(s.0, u, p);
    lemma_congruent_small(s.1, v, p);
    // The opposite is on the curve.
    let b = ed_neg(a);
    let w = b.0;
    lemma_congruent_mod(0 - u, p);
    lemma_congruent_ops(w, -u, w, -u, p);
    assert((-u) * (-u) == u * u) by (nonlinear_arith);
    lemma_congruent_ops(d, d, w * w, u * u, p);
    lemma_congruent_ops(d * (w * w), d * (u * u), v * v, v * v, p);
    lemma_congruent_ops(v * v, v * v, w * w, u * u, p);
    lemma_congruent_ops(v * v - w * w, v * v - u * u, 1, 1, p);
    lemma_congruent_ops(
        v * v - w * w - 1,
        v * v - u * u - 1,
        d * (w * w) * (v * v),
        d * (u * u) * (v * v),
        p,
    );
    assert(on_edwards(b)) by {
        reveal(on_edwards);
    }
    // The sum with the opposite.
    let t = ed_add(a, b);
    let k = cross(a, b, d);
    lemma_sum(a, b);
    lemma_complete(a, b);
    lemma_congruent_ops(v, v, w, -u, p);
    lemma_congruent_ops(u * v, u * v, v * w, v * (-u), p);
    assert(u * v + v * (-u) == 0) by (nonlinear_arith);
    assert(t.0 * (1 + k) == (1 + k) * t.0) by (nonlinear_arith);
    lemma_zero_product(1 + k, t.0);
    lemma_congruent_small(t.0, 0, p);
    let m = u * v;
    lemma_congruent_ops(u, u, w, -u, p);
    lemma_congruent_ops(v * v, v * v, u * w, u * (-u), p);
    assert(u * (-u) == -(u * u)) by (nonlinear_arith);
    assert(k == (d * (u * (v * v))) * w) by {
        assert(d * (u * w) * (v * v) == (d * (u * (v * v))) * w) by (nonlinear_arith);
    }
    let c = d * (u * (v * v));
    lemma_congruent_ops(c, c, w, -u, p);
    assert((d * (u * (v * v))) * (-u) == -(d * ((u * v) * (u * v)))) by {
        assert((d * (u * (v * v))) * u == d * ((u * v) * (u * v))) by (nonlinear_arith);
        assert(c * (-u) == -(c * u)) by (nonlinear_arith);
    }
    lemma_congruent_ops(1, 1, k, -(d * (m * m)), p);
    assert(congruent(t.1 * (1 - k), 1 - k, p));
    assert(1 * (1 - k) == 1 - k);
    lemma_cancel_factor(t.1, 1, 1 - k);
    lemma_congruent_small(t.1, 1, p);
}

/// The coordinates of a sum of three points.
proof fn lemma_three(a: (int, int), b: (int, int), c: (int, int))
    requires
        on_edwards(a),
        on_edwards(b),
        on_edwards(c),
    ensures
        ({
            let (t, d, p) = (ed_add(ed_add(a, b), c), edwards_d(), base_modulus());
            &&& 0 <= t.0 < p
            &&& 0 <= t.1 < p
            &&& first_bottom(a, b, c, d) % p != 0
            &&& second_bottom(a, b, c, d) % p != 0
            &&& congruent(t.0 * first_bottom(a, b, c, d), first_top(a, b, c, d), p)
            &&& congruent(t.1 * second_bottom(a, b, c, d), second_top(a, b, c, d), p)
        }),
{
    let (p, d) = (base_modulus(), edwards_d());
    let (x, y, k) = (first_sum(a, b), second_sum(a, b), cross(a, b, d));
    let s = ed_add(a, b);
    let t = ed_add(s, c);
    let (u, v) = s;
    let (e, f) = c;
    lemma_sum(a, b);
    lemma_complete(a, b);
    lemma_closed_sum(a, b);
    lemma_sum(s, c);
    lemma_complete(s, c);
    let (m, n) = (1 + k, 1 - k);
    let (g, h) = (u * m, v * n);
    let w = m * n;
    assert(w == 1 - k * k) by (nonlinear_arith)
        requires
            m == 1 + k,
            n == 1 - k,
            w == m * n,
    ;
    lemma_nonzero_product(m, n);
    // The denominators.
    let l = cross(s, c, d);
    assert(l * w == d * (g * e) * (h * f)) by {
        assert((d * (u * e) * (v * f)) * (m * n) == d * ((u * m) * e) * ((v * n) * f))
            by (nonlinear_arith);
    }
    lemma_congruent_ops(g, x, e, e, p);
    lemma_congruent_ops(d, d, g * e, x * e, p);
    lemma_congruent_ops(h, y, f, f, p);
    lemma_congruent_ops(d * (g * e), d * (x * e), h * f, y * f, p);
    lemma_congruent_ops(w, w, l * w, d * (x * e) * (y * f), p);
    assert((1 + l) * w == w + l * w) by (nonlinear_arith);
    assert((1 - l) * w == w - l * w) by (nonlinear_arith);
    let (i, j) = (first_bottom(a, b, c, d), second_bottom(a, b, c, d));
    assert(congruent((1 + l) * w, i, p) && congruent((1 - l) * w, j, p));
    lemma_nonzero_product(1 + l, w);
    lemma_nonzero_product(1 - l, w);
    // The numerators.
    lemma_congruent_ops(n, n, g, x, p);
    lemma_congruent_ops(m, m, h, y, p);
    lemma_congruent_ops(n * g, n * x, f, f, p);
    lemma_congruent_ops(m * h, m * y, e, e, p);
    lemma_congruent_ops(n * g * f, n * x * f, m * h * e, m * y * e, p);
    assert((u * f + v * e) * w == n * g * f + m * h * e) by {
        let (q, r) = (u * f, v * e);
        assert((q + r) * w == q * w + r * w) by (nonlinear_arith);
        assert((u * f) * (m * n) == n * (u * m) * f) by (nonlinear_arith);
        assert((v * e) * (m * n) == m * (v * n) * e) by (nonlinear_arith);
    }
    lemma_congruent_ops(n * g, n * x, e, e, p);
    lemma_congruent_ops(m * h, m * y, f, f, p);
    lemma_congruent_ops(m * h * f, m * y * f, n * g * e, n * x * e, p);
    assert((v * f + u * e) * w == m * h * f + n * g * e) by {
        let (q, r) = (v * f, u * e);
        assert((q + r) * w == q * w + r * w) by (nonlinear_arith);
        assert((v * f) * (m * n) == m * (v * n) * f) by (nonlinear_arith);
        assert((u * e) * (m * n) == n * (u * m) * e) by (nonlinear_arith);
    }
    // The coordinates.
    let (t0, t1) = t;
    lemma_congruent_ops(t0, t0, (1 + l) * w, i, p);
    lemma_congruent_ops(t0 * (1 + l), u * f + v * e, w, w, p);
    assert((t0 * (1 + l)) * w == t0 * ((1 + l) * w)) by (nonlinear_arith);
    lemma_congruent_ops(t1, t1, (1 - l) * w, j, p);
    lemma_congruent_ops(t1 * (1 - l), v * f + u * e, w, w, p);
    assert((t1 * (1 - l)) * w == t1 * ((1 - l) * w)) by (nonlinear_arith);
}

/// Residues with equal fractions are equal.
proof fn lemma_fractions(s: int, t: int, i: int, j: int, x: int, y: int)
    requires
        0 <= s < base_modulus(),
        0 <= t < base_modulus(),
        i % base_modulus() != 0,
        j % base_modulus() != 0,
        congruent(s * i, x, base_modulus()),
        congruent(t * j, y, base_modulus()),
        congruent(x * j, y * i, base_modulus()),
    ensures
        s == t,
{
    let p = base_modulus();
    lemma_congruent_ops(s * i, x, j, j, p);
    lemma_congruent_ops(t * j, y, i, i, p);
    let w = i * j;
    assert((s * i) * j == s * (i * j) && (t * j) * i == t * (i * j)) by (nonlinear_arith);
    lemma_nonzero_product(i, j);
    lemma_cancel_factor(s, t, w);
    lemma_congruent_small(s, t, p);
}

/// Sums do not depend on the grouping.
pub proof fn lemma_grouped_sum(a: (int, int), b: (int, int), c: (int, int))
    requires
        on_edwards(a),
        on_edwards(b),
        on_edwards(c),
    ensures
        ed_add(ed_add(a, b), c) == ed_add(a, ed_add(b, c)),
{
    let (p, d) = (base_modulus(), edwards_d());
    lemma_on_curve(a);
    lemma_on_curve(b);
    lemma_on_curve(c);
    lemma_three(a, b, c);
    lemma_three(b, c, a);
    lemma_commuted_sum(a, ed_add(b, c));
    lemma_first_grouping(a, b, c, d, p);
    lemma_second_grouping(a, b, c, d, p);
    let (s, t) = (ed_add(ed_add(a, b), c), ed_add(ed_add(b, c), a));
    lemma_fractions(
        s.0,
        t.0,
        first_bottom(a, b, c, d),
        first_bottom(b, c, a, d),
        first_top(a, b, c, d),
        first_top(b, c, a, d),
    );
    lemma_fractions(
        s.1,
        t.1,
        second_bottom(a, b, c, d),
        second_bottom(b, c, a, d),
        second_top(a, b, c, d),
        second_top(b, c, a, d),
    );
}

} // verus!

//! Splitting a scalar into two halves.
use crate::field::congruence::{congruent, lemma_congruent_ops};
use crate::field::limbs::{base256, lemma_limbs_value, limbs_value, sub_limbs, Limbs};
use crate::field::{Fe, Modulus};
use crate::glv::params::{nearest, short, two127, two128, two384, GlvParams};
use crate::glv::wide::{lemma_powers, schoolbook_mul, wide_value};
use vstd::arithmetic::div_mod::{
    lemma_fundamental_div_mod, lemma_fundamental_div_mod_converse, lemma_mod_bound, lemma_small_mod,
};
use vstd::prelude::*;

verus! {

/// `g * k` over two to the 384, rounded to the nearest integer, modulo two to the 128.
pub fn round_mul_shift(g: &[u64; 5], k: &Limbs) -> (r: u128)
    ensures
        r == ((wide_value(g@) * limbs_value(*k) + two384() / 2) / two384()) % two128(),
{
    let prod = schoolbook_mul(g.as_slice(), k.as_slice());
    let round: u128 = if prod[5] >= 0x8000_0000_0000_0000 { 1 } else { 0 };
    let high: u128 = (prod[6] as u128) + (prod[7] as u128) * 0x1_0000_0000_0000_0000;
    let r = high.wrapping_add(round);
    proof {
        lemma_powers();
        reveal_with_fuel(wide_value, 10);
        assert(wide_value(k@) == limbs_value(*k));
        let p = prod@;
        let (p5, p8) = (p[5] as int, p[8] as int);
        let low = p[0] + p[1] * 0x1_0000_0000_0000_0000 + p[2] * two128() + p[3]
            * 0x1_0000_0000_0000_0000_0000_0000_0000_0000_0000_0000_0000_0000int + p[4]
            * base256() + p5
            * 0x1_0000_0000_0000_0000_0000_0000_0000_0000_0000_0000_0000_0000_0000_0000_0000_0000_0000_0000_0000_0000int;
        let top = high + p8 * two128();
        assert(wide_value(p) == low + top * two384());
        assert(0 <= low < two384());
        let q = top + round;
        let s = low + two384() / 2 - round * two384();
        assert(0 <= s < two384());
        let v = wide_value(p) + two384() / 2;
        assert(v == q * two384() + s);
        lemma_fundamental_div_mod_converse(v, two384(), q, s);
        let t = high + round;
        assert(q == p8 * two128() + t);
        let (c, u) = if t >= two128() { (p8 + 1, t - two128()) } else { (p8, t) };
        assert(q == c * two128() + u);
        lemma_fundamental_div_mod_converse(q, two128(), c, u);
    }
    r
}

/// The product of two integers as limbs.
pub fn mul_u128(a: u128, b: u128) -> (r: Limbs)
    ensures
        limbs_value(r) == a * b,
{
    let (a0, a1) = halves(a);
    let (b0, b1) = halves(b);
    let (x, y): ([u64; 2], [u64; 2]) = ([a0, a1], [b0, b1]);
    let prod = schoolbook_mul(x.as_slice(), y.as_slice());
    let r: Limbs = [prod[0], prod[1], prod[2], prod[3]];
    proof {
        lemma_powers();
        reveal_with_fuel(wide_value, 5);
        assert(wide_value(x@) == a && wide_value(y@) == b);
        assert(wide_value(prod@) == limbs_value(r));
    }
    r
}

/// The low and the high half.
fn halves(a: u128) -> (r: (u64, u64))
    ensures
        a == r.0 + r.1 * 0x1_0000_0000_0000_0000,
{
    let base: u128 = 0x1_0000_0000_0000_0000;
    ((a % base) as u64, (a / base) as u64)
}

/// The difference modulo two to the 256.
pub fn sub256(a: Limbs, b: Limbs) -> (r: Limbs)
    ensures
        limbs_value(r) == (limbs_value(a) - limbs_value(b)) % base256(),
{
    let (r, below) = sub_limbs(&a, &b);
    proof {
        lemma_limbs_value(r, r);
        let d = limbs_value(a) - limbs_value(b);
        let c = if below { -1int } else { 0 };
        lemma_fundamental_div_mod_converse(d, base256(), c, limbs_value(r));
    }
    r
}

/// The integer with the given sign and magnitude.
pub open spec fn signed(half: (bool, u128)) -> int {
    if half.0 {
        -(half.1 as int)
    } else {
        half.1 as int
    }
}

/// The sign and the magnitude of a two's-complement integer, where the magnitude is taken modulo
/// two to the 128.
pub fn signed_halves(x: Limbs) -> (r: (bool, u128))
    ensures
        forall|v: int|
            -two128() < v < two128() && limbs_value(x) == #[trigger] (v % base256()) ==> signed(r)
                == v,
        r.0 == (x[3] >= 0x8000_0000_0000_0000),
        !r.0 ==> r.1 == x[0] + x[1] * 0x1_0000_0000_0000_0000,
        r.0 ==> r.1 == (two128() - (x[0] + x[1] * 0x1_0000_0000_0000_0000)) % two128(),
{
    let low: u128 = (x[0] as u128) + (x[1] as u128) * 0x1_0000_0000_0000_0000;
    let negative = x[3] >= 0x8000_0000_0000_0000;
    proof {
        lemma_small_mod(0, two128() as nat);
        lemma_fundamental_div_mod_converse(two128(), two128(), 1, 0);
        if low != 0 {
            lemma_small_mod((two128() - low) as nat, two128() as nat);
        }
        assert forall|v: int|
            -two128() < v < two128() && limbs_value(x) == #[trigger] (v % base256()) implies (
        negative <==> v < 0) && (!negative ==> low == v) && (negative ==> low != 0 && two128()
            - low == -v) by {
            if v >= 0 {
                lemma_small_mod(v as nat, base256() as nat);
            } else {
                lemma_fundamental_div_mod_converse(v, base256(), -1, v + base256());
            }
        }
    }
    if !negative {
        (false, low)
    } else if low == 0 {
        (true, 0)
    } else {
        (true, u128::MAX - low + 1)
    }
}

/// The four limbs of a scalar.
pub fn scalar_limbs<M: Modulus>(k: Fe<M>) -> (r: Limbs)
    ensures
        limbs_value(r) == k@,
{
    k.to_limbs()
}

/// Rounding `g * k` instead of `v * k / n` changes the result by little more than one half.
proof fn lemma_round_error(g: int, k: int, v: int, n: int, c: int)
    requires
        0 <= k < n,
        0x4000000000000000000000000000000000000000000000000000000000000000int < n
            < 0x4000000000000000000000000000000100000000000000000000000000000000int,
        0 < v < two128(),
        nearest(g, v, n),
        c == (g * k + two384() / 2) / two384(),
    ensures
        -(n + 0x4000_0000_0000_0000_0000_0000_0000_0000int) <= 2 * (c * n - v * k) <= n
            + 0x4000_0000_0000_0000_0000_0000_0000_0000int,
        0 <= c < two128(),
{
    let t = two384();
    let r = (g * k + t / 2) % t;
    lemma_fundamental_div_mod(g * k + t / 2, t);
    lemma_mod_bound(g * k + t / 2, t);
    // c * t is g * k up to t / 2.
    let f = 2 * (c * t - g * k);
    assert(-t <= f <= t);
    // g * n is t * v up to n / 2.
    let h = 2 * (g * n - t * v);
    let e = 2 * (c * n - v * k);
    assert(e * t == f * n + h * k) by (nonlinear_arith)
        requires
            e == 2 * (c * n - v * k),
            f == 2 * (c * t - g * k),
            h == 2 * (g * n - t * v),
    ;
    assert(-(t * n) <= f * n <= t * n) by (nonlinear_arith)
        requires
            -t <= f <= t,
            n > 0,
    ;
    assert(-(n * n) <= h * k <= n * n) by (nonlinear_arith)
        requires
            -n <= h <= n,
            0 <= k < n,
    ;
    let s = 0x4000_0000_0000_0000_0000_0000_0000_0000int;
    assert(n * n <= s * t) by (nonlinear_arith)
        requires
            0 < n < 0x4000000000000000000000000000000100000000000000000000000000000000int,
            s == 0x4000_0000_0000_0000_0000_0000_0000_0000int,
            t
                == 0x1_0000_0000_0000_0000_0000_0000_0000_0000_0000_0000_0000_0000_0000_0000_0000_0000_0000_0000_0000_0000_0000_0000_0000_0000int,
    ;
    assert(t * n + s * t == (n + s) * t) by (nonlinear_arith);
    assert(-((n + s) * t) <= e * t <= (n + s) * t);
    assert(-(n + s) <= e <= n + s) by (nonlinear_arith)
        requires
            -((n + s) * t) <= e * t <= (n + s) * t,
            t > 0,
    ;
    assert(v * k <= v * (n - 1)) by (nonlinear_arith)
        requires
            0 <= k <= n - 1,
            v > 0,
    ;
    assert(v * k >= 0) by (nonlinear_arith)
        requires
            0 <= k,
            v > 0,
    ;
    assert(v * (n - 1) == v * n - v) by (nonlinear_arith);
    assert(c < two128()) by (nonlinear_arith)
        requires
            c * n < v * n + n,
            v < two128(),
            n > 0,
    ;
    assert(c >= 0) by (nonlinear_arith)
        requires
            c * n > -n,
            n > 0,
    ;
}

/// A combination of rounding errors is short.
proof fn lemma_short(a: int, b: int, e1: int, e2: int, k: int, n: int)
    requires
        n > 0,
        0 < a,
        0 < b,
        short(a + b, n),
        -(n + 0x4000_0000_0000_0000_0000_0000_0000_0000int) <= 2 * e1 <= n
            + 0x4000_0000_0000_0000_0000_0000_0000_0000int,
        -(n + 0x4000_0000_0000_0000_0000_0000_0000_0000int) <= 2 * e2 <= n
            + 0x4000_0000_0000_0000_0000_0000_0000_0000int,
        n * k == a * e1 + b * e2,
    ensures
        -two127() < k < two127(),
{
    let s = n + 0x4000_0000_0000_0000_0000_0000_0000_0000int;
    assert(-(a * s) <= a * (2 * e1) <= a * s) by (nonlinear_arith)
        requires
            -s <= 2 * e1 <= s,
            a > 0,
    ;
    assert(-(b * s) <= b * (2 * e2) <= b * s) by (nonlinear_arith)
        requires
            -s <= 2 * e2 <= s,
            b > 0,
    ;
    assert((a + b) * s == a * s + b * s) by (nonlinear_arith);
    assert(a * (2 * e1) == 2 * (a * e1) && b * (2 * e2) == 2 * (b * e2)) by (nonlinear_arith);
    assert(-(n * two128()) < 2 * (n * k) < n * two128());
    assert(-two127() < k < two127()) by (nonlinear_arith)
        requires
            -(n * two128()) < 2 * (n * k) < n * two128(),
            two128() == 2 * two127(),
            n > 0,
    ;
}

/// The split recombines to the scalar.
proof fn lemma_recombines<C: GlvParams>(k: int, c1: int, c2: int)
    ensures
        congruent(
            (k - c1 * C::v1a() - c2 * C::v2a()) + (c1 * C::v1b_neg() - c2 * C::v2b())
                * <C::Scalar as Modulus>::cube_root(),
            k,
            <C::Scalar as Modulus>::p(),
        ),
{
    C::lemma_lattice();
    <C::Scalar as Modulus>::lemma_modulus();
    let (n, z) = (<C::Scalar as Modulus>::p(), <C::Scalar as Modulus>::cube_root());
    let (a1, b1, a2, b2) = (C::v1a(), C::v1b_neg(), C::v2a(), C::v2b());
    let (u, v) = (a1 - b1 * z, a2 + b2 * z);
    assert((k - c1 * a1 - c2 * a2) + (c1 * b1 - c2 * b2) * z == k - c1 * u - c2 * v)
        by (nonlinear_arith)
        requires
            u == a1 - b1 * z,
            v == a2 + b2 * z,
    ;
    lemma_congruent_ops(c1, c1, u, 0, n);
    lemma_congruent_ops(c2, c2, v, 0, n);
    assert(c1 * 0 == 0 && c2 * 0 == 0);
    lemma_congruent_ops(k, k, c1 * u, 0, n);
    lemma_congruent_ops(k - c1 * u, k, c2 * v, 0, n);
}

/// Splits a scalar `k` into halves with `k = k1 + k2 * lambda` whose magnitudes are below two to
/// the 127.
pub fn decompose<C: GlvParams>(k: Fe<C::Scalar>) -> (r: ((bool, u128), (bool, u128)))
    ensures
        congruent(
            signed(r.0) + signed(r.1) * <C::Scalar as Modulus>::cube_root(),
            k@,
            <C::Scalar as Modulus>::p(),
        ),
        r.0.1 < two127(),
        r.1.1 < two127(),
{
    let kl = scalar_limbs(k);
    let (v1a, v1b_neg) = C::v1();
    let (v2a, v2b) = C::v2();
    let c1 = round_mul_shift(&C::g1_limbs(), &kl);
    let c2 = round_mul_shift(&C::g2_limbs(), &kl);
    let (m1, m2) = (mul_u128(c1, v1a), mul_u128(c2, v2a));
    let d = sub256(kl, m1);
    let k1 = sub256(d, m2);
    let (m3, m4) = (mul_u128(c1, v1b_neg), mul_u128(c2, v2b));
    let k2 = sub256(m3, m4);
    let r = (signed_halves(k1), signed_halves(k2));
    proof {
        let n = <C::Scalar as Modulus>::p();
        C::lemma_lattice();
        <C::Scalar as Modulus>::lemma_modulus();
        k.lemma_view();
        let x = k@;
        let (a1, b1, a2, b2) = (C::v1a(), C::v1b_neg(), C::v2a(), C::v2b());
        let (f1, f2) = (
            (C::g1() * x + two384() / 2) / two384(),
            (C::g2() * x + two384() / 2) / two384(),
        );
        lemma_round_error(C::g1(), x, b2, n, f1);
        lemma_round_error(C::g2(), x, b1, n, f2);
        lemma_small_mod(f1 as nat, two128() as nat);
        lemma_small_mod(f2 as nat, two128() as nat);
        let (e1, e2) = (c1 * n - b2 * x, c2 * n - b1 * x);
        let (w1, w2) = (x - c1 * a1 - c2 * a2, c1 * b1 - c2 * b2);
        // The halves times the order are combinations of the rounding errors.
        assert(a1 * e1 == n * (c1 * a1) - (a1 * b2) * x) by (nonlinear_arith)
            requires
                e1 == c1 * n - b2 * x,
        ;
        assert(a2 * e2 == n * (c2 * a2) - (a2 * b1) * x) by (nonlinear_arith)
            requires
                e2 == c2 * n - b1 * x,
        ;
        assert((a1 * b2) * x + (a2 * b1) * x == n * x) by (nonlinear_arith)
            requires
                a1 * b2 + a2 * b1 == n,
        ;
        assert(n * (-w1) == n * (c1 * a1) + n * (c2 * a2) - n * x) by (nonlinear_arith)
            requires
                w1 == x - c1 * a1 - c2 * a2,
        ;
        let g2 = -e2;
        assert(n * w2 == b1 * e1 + b2 * g2) by (nonlinear_arith)
            requires
                e1 == c1 * n - b2 * x,
                g2 == b1 * x - c2 * n,
                w2 == c1 * b1 - c2 * b2,
        ;
        lemma_short(a1, a2, e1, e2, -w1, n);
        lemma_short(b1, b2, e1, g2, w2, n);
        let b = base256();
        vstd::arithmetic::div_mod::lemma_sub_mod_noop(x - c1 * a1, c2 * a2, b);
        vstd::arithmetic::div_mod::lemma_sub_mod_noop((x - c1 * a1) % b, c2 * a2, b);
        vstd::arithmetic::div_mod::lemma_mod_twice(x - c1 * a1, b);
        assert(limbs_value(k1) == w1 % b);
        assert(limbs_value(k2) == w2 % b);
        lemma_recombines::<C>(x, c1 as int, c2 as int);
    }
    r
}

} // verus!

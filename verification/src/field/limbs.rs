//! Integers of four 64-bit limbs, little end first.
use vstd::arithmetic::div_mod::{lemma_mod_multiples_vanish, lemma_mul_mod_noop_general};
use vstd::prelude::*;

verus! {

/// Four little-endian 64-bit limbs.
pub type Limbs = [u64; 4];

/// The base of the limbs, two to the 64.
pub open spec fn base64() -> int {
    0x1_0000_0000_0000_0000
}

/// Two to the 128.
pub open spec fn base128() -> int {
    0x1_0000_0000_0000_0000_0000_0000_0000_0000int
}

/// Two to the 192.
pub open spec fn base192() -> int {
    0x1_0000_0000_0000_0000_0000_0000_0000_0000_0000_0000_0000_0000int
}

/// Two to the 256, the radix of the Montgomery form.
pub open spec fn base256() -> int {
    0x1_0000_0000_0000_0000_0000_0000_0000_0000_0000_0000_0000_0000_0000_0000_0000_0000int
}

/// The integer held by four limbs.
pub open spec fn limbs_value(a: Limbs) -> int {
    a[0] + a[1] * 0x1_0000_0000_0000_0000 + a[2] * 0x1_0000_0000_0000_0000_0000_0000_0000_0000int
        + a[3] * 0x1_0000_0000_0000_0000_0000_0000_0000_0000_0000_0000_0000_0000int
}

/// Four limbs hold less than two to the 256, and each value once.
pub proof fn lemma_limbs_value(a: Limbs, b: Limbs)
    ensures
        0 <= limbs_value(a) < base256(),
        limbs_value(a) == limbs_value(b) <==> a@ == b@,
{
    if limbs_value(a) == limbs_value(b) {
        assert(a[0] == b[0] && a[1] == b[1] && a[2] == b[2] && a[3] == b[3]);
        assert(a@ =~= b@);
    }
}

/// Splits a double-width integer into its low and high limb.
fn split(x: u128) -> (r: (u64, u64))
    ensures
        r.0 + r.1 * 0x1_0000_0000_0000_0000 == x,
{
    let lo: u64 = x as u64;
    let hi: u64 = (x >> 64) as u64;
    assert(x == (x as u64) as u128 + ((x >> 64) as u64) as u128 * 0x1_0000_0000_0000_0000)
        by (bit_vector);
    (lo, hi)
}

/// `a + b * c + carry` as a low limb and a new carry.
pub fn mac(a: u64, b: u64, c: u64, carry: u64) -> (r: (u64, u64))
    ensures
        r.0 + r.1 * 0x1_0000_0000_0000_0000 == a + b * c + carry,
{
    proof {
        assert(0 <= b * c <= 0xffff_ffff_ffff_ffff * 0xffff_ffff_ffff_ffff) by (nonlinear_arith)
            requires
                0 <= b <= 0xffff_ffff_ffff_ffff,
                0 <= c <= 0xffff_ffff_ffff_ffff,
        ;
    }
    split((a as u128) + (b as u128) * (c as u128) + (carry as u128))
}

/// `a + b + carry` as a low limb and a new carry.
pub fn adc(a: u64, b: u64, carry: u64) -> (r: (u64, u64))
    ensures
        r.0 + r.1 * 0x1_0000_0000_0000_0000 == a + b + carry,
{
    split((a as u128) + (b as u128) + (carry as u128))
}

/// `a - (b + borrow)`, where a set borrow is the all-ones limb; the new borrow has the same form.
pub fn sbb(a: u64, b: u64, borrow: u64) -> (r: (u64, u64))
    requires
        borrow == 0 || borrow == u64::MAX,
    ensures
        r.1 == 0 || r.1 == u64::MAX,
        r.0 - (if r.1 == 0 { 0int } else { 0x1_0000_0000_0000_0000 }) == a - b - (if borrow == 0 {
            0int
        } else {
            1
        }),
{
    let take: u128 = if borrow == 0 { 0 } else { 1 };
    let need: u128 = (b as u128) + take;
    if (a as u128) >= need {
        (((a as u128) - need) as u64, 0)
    } else {
        ((0x1_0000_0000_0000_0000 + (a as u128) - need) as u64, u64::MAX)
    }
}

/// `a - b` modulo two to the 256, and whether `a < b`.
pub fn sub_limbs(a: &Limbs, b: &Limbs) -> (r: (Limbs, bool))
    ensures
        r.1 == (limbs_value(*a) < limbs_value(*b)),
        limbs_value(r.0) == limbs_value(*a) - limbs_value(*b) + (if r.1 { base256() } else { 0 }),
{
    let (d0, borrow) = sbb(a[0], b[0], 0);
    let (d1, borrow) = sbb(a[1], b[1], borrow);
    let (d2, borrow) = sbb(a[2], b[2], borrow);
    let (d3, borrow) = sbb(a[3], b[3], borrow);
    let r: Limbs = [d0, d1, d2, d3];
    proof {
        lemma_limbs_value(r, *a);
        lemma_limbs_value(*a, *b);
        lemma_limbs_value(*b, *a);
    }
    (r, borrow != 0)
}

/// `a + b` modulo two to the 256, and whether it wrapped.
pub fn add_limbs(a: &Limbs, b: &Limbs) -> (r: (Limbs, bool))
    ensures
        r.1 == (limbs_value(*a) + limbs_value(*b) >= base256()),
        limbs_value(r.0) == limbs_value(*a) + limbs_value(*b) - (if r.1 { base256() } else { 0 }),
{
    let (d0, carry) = adc(a[0], b[0], 0);
    let (d1, carry) = adc(a[1], b[1], carry);
    let (d2, carry) = adc(a[2], b[2], carry);
    let (d3, carry) = adc(a[3], b[3], carry);
    let r: Limbs = [d0, d1, d2, d3];
    proof {
        lemma_limbs_value(r, *a);
        lemma_limbs_value(*a, *b);
        lemma_limbs_value(*b, *a);
    }
    (r, carry != 0)
}

/// Whether the limbs are all zero.
pub fn is_zero_limbs(a: &Limbs) -> (r: bool)
    ensures
        r == (limbs_value(*a) == 0),
{
    a[0] == 0 && a[1] == 0 && a[2] == 0 && a[3] == 0
}

/// Whether two limb vectors are equal.
pub fn eq_limbs(a: &Limbs, b: &Limbs) -> (r: bool)
    ensures
        r == (limbs_value(*a) == limbs_value(*b)),
        r == (a@ == b@),
{
    proof {
        lemma_limbs_value(*a, *b);
    }
    let r = a[0] == b[0] && a[1] == b[1] && a[2] == b[2] && a[3] == b[3];
    proof {
        if r {
            assert(a@ =~= b@);
        }
    }
    r
}

/// Half of `a`, and whether `a` was odd.
pub fn halve_limbs(a: &Limbs) -> (r: (Limbs, bool))
    ensures
        limbs_value(*a) == 2 * limbs_value(r.0) + (if r.1 { 1int } else { 0 }),
        r.1 == (limbs_value(*a) % 2 == 1),
{
    let (h0, l0) = halve(a[0]);
    let (h1, l1) = halve(a[1]);
    let (h2, l2) = halve(a[2]);
    let (h3, l3) = halve(a[3]);
    let top: u64 = 0x8000_0000_0000_0000;
    let r: Limbs = [
        if l1 { h0 + top } else { h0 },
        if l2 { h1 + top } else { h1 },
        if l3 { h2 + top } else { h2 },
        h3,
    ];
    (r, l0)
}

fn halve(a: u64) -> (r: (u64, bool))
    ensures
        a == 2 * r.0 + (if r.1 { 1int } else { 0 }),
{
    (a / 2, a % 2 == 1)
}

/// `t + a * b` as a low limb and four high limbs.
pub fn mul_row(t: &Limbs, a: u64, b: &Limbs) -> (r: (u64, Limbs))
    ensures
        r.0 + limbs_value(r.1) * 0x1_0000_0000_0000_0000 == limbs_value(*t) + a * limbs_value(*b),
{
    let (r0, carry) = mac(t[0], a, b[0], 0);
    let (r1, carry) = mac(t[1], a, b[1], carry);
    let (r2, carry) = mac(t[2], a, b[2], carry);
    let (r3, r4) = mac(t[3], a, b[3], carry);
    proof {
        let (b0, b1, b2, b3) = (b[0] as int, b[1] as int, b[2] as int, b[3] as int);
        assert(a * limbs_value(*b) == a * b0 + (a * b1) * 0x1_0000_0000_0000_0000 + (a * b2)
            * 0x1_0000_0000_0000_0000_0000_0000_0000_0000int + (a * b3)
            * 0x1_0000_0000_0000_0000_0000_0000_0000_0000_0000_0000_0000_0000int)
            by (nonlinear_arith)
            requires
                limbs_value(*b) == b0 + b1 * 0x1_0000_0000_0000_0000 + b2
                    * 0x1_0000_0000_0000_0000_0000_0000_0000_0000int + b3
                    * 0x1_0000_0000_0000_0000_0000_0000_0000_0000_0000_0000_0000_0000int,
        ;
    }
    (r0, [r1, r2, r3, r4])
}

/// The 512-bit product of two limb vectors, as its low and high half.
pub fn wide_mul(a: &Limbs, b: &Limbs) -> (r: (Limbs, Limbs))
    ensures
        limbs_value(r.0) + limbs_value(r.1) * base256() == limbs_value(*a) * limbs_value(*b),
{
    let (p0, t0) = mul_row(&[0, 0, 0, 0], a[0], b);
    let (p1, t1) = mul_row(&t0, a[1], b);
    let (p2, t2) = mul_row(&t1, a[2], b);
    let (p3, t3) = mul_row(&t2, a[3], b);
    let lo: Limbs = [p0, p1, p2, p3];
    proof {
        lemma_combine_rows(
            *a,
            limbs_value(*b),
            a[0] as int * limbs_value(*b),
            a[1] as int * limbs_value(*b),
            a[2] as int * limbs_value(*b),
            a[3] as int * limbs_value(*b),
        );
    }
    (lo, t3)
}

proof fn lemma_combine_rows(a: Limbs, b: int, q0: int, q1: int, q2: int, q3: int)
    requires
        q0 == a[0] * b,
        q1 == a[1] * b,
        q2 == a[2] * b,
        q3 == a[3] * b,
    ensures
        limbs_value(a) * b == q0 + q1 * 0x1_0000_0000_0000_0000 + q2
            * 0x1_0000_0000_0000_0000_0000_0000_0000_0000int + q3
            * 0x1_0000_0000_0000_0000_0000_0000_0000_0000_0000_0000_0000_0000int,
{
    let (a0, a1, a2, a3) = (a[0] as int, a[1] as int, a[2] as int, a[3] as int);
    assert((a0 + a1 * 0x1_0000_0000_0000_0000 + a2
        * 0x1_0000_0000_0000_0000_0000_0000_0000_0000int + a3
        * 0x1_0000_0000_0000_0000_0000_0000_0000_0000_0000_0000_0000_0000int) * b == a0 * b + (a1
        * b) * 0x1_0000_0000_0000_0000 + (a2 * b)
        * 0x1_0000_0000_0000_0000_0000_0000_0000_0000int + (a3 * b)
        * 0x1_0000_0000_0000_0000_0000_0000_0000_0000_0000_0000_0000_0000int)
        by (nonlinear_arith);
}

/// `inv` is the negated inverse of the modulus' low limb, modulo the limb base.
pub open spec fn is_montgomery_inverse(modulus: Limbs, inv: u64) -> bool {
    (inv * modulus[0] + 1) % 0x1_0000_0000_0000_0000 == 0
}

/// One reduction step: `(t + k * modulus) / 2^64` for the `k` that makes the division exact.
fn reduce_row(t: &Limbs, modulus: &Limbs, inv: u64) -> (r: (Limbs, Ghost<int>))
    requires
        is_montgomery_inverse(*modulus, inv),
    ensures
        limbs_value(r.0) * 0x1_0000_0000_0000_0000 == limbs_value(*t) + r.1@ * limbs_value(*modulus),
        0 <= r.1@ < base64(),
{
    let k: u64 = t[0].wrapping_mul(inv);
    let (d, out) = mul_row(t, k, modulus);
    proof {
        let b = base64();
        let (t0, m0) = (t[0] as int, modulus[0] as int);
        // k * m0 == t0 * inv * m0 == -t0 (mod b), so the low limb vanishes.
        let x = t0 * inv;
        assert(k as int == x % b);
        lemma_mul_mod_noop_general(x, m0, b);
        assert(((x % b) * m0) % b == (x * m0) % b);
        assert(x * m0 + t0 == t0 * (inv * m0 + 1)) by (nonlinear_arith)
            requires
                x == t0 * inv,
        ;
        lemma_mul_mod_noop_general(t0, inv * m0 + 1, b);
        assert(t0 * 0 == 0);
        assert((x * m0 + t0) % b == 0);
        vstd::arithmetic::div_mod::lemma_add_mod_noop(x * m0, t0, b);
        vstd::arithmetic::div_mod::lemma_add_mod_noop(k * m0, t0, b);
        assert((k * m0 + t0) % b == 0);
        // d is congruent to t0 + k * m0
        let (m1, m2, m3) = (modulus[1] as int, modulus[2] as int, modulus[3] as int);
        let rest = t[1] as int + t[2] * b + t[3] * base128() + k * (m1 + m2 * b + m3 * base128());
        assert(d == k * m0 + t0 + b * (rest - limbs_value(out))) by {
            assert(k * limbs_value(*modulus) == k * m0 + b * (k * (m1 + m2 * b + m3 * base128())))
                by (nonlinear_arith)
                requires
                    limbs_value(*modulus) == m0 + b * (m1 + m2 * b + m3 * base128()),
            ;
        }
        lemma_mod_multiples_vanish(rest - limbs_value(out), k * m0 + t0, b);
        assert(d as int % b == 0);
        assert(d == 0);
    }
    (out, Ghost(k as int))
}

/// Montgomery reduction: the residue `r` below the modulus with
/// `r * 2^256 == lo + 2^256 * hi` modulo it.
pub fn montgomery_reduce(lo: &Limbs, hi: &Limbs, modulus: &Limbs, inv: u64) -> (r: Limbs)
    requires
        is_montgomery_inverse(*modulus, inv),
        limbs_value(*hi) < limbs_value(*modulus),
        2 * limbs_value(*modulus) < base256(),
    ensures
        limbs_value(r) < limbs_value(*modulus),
        (limbs_value(r) * base256()) % limbs_value(*modulus) == (limbs_value(*lo) + limbs_value(*hi)
            * base256()) % limbs_value(*modulus),
{
    let (t1, Ghost(k0)) = reduce_row(lo, modulus, inv);
    let (t2, Ghost(k1)) = reduce_row(&t1, modulus, inv);
    let (t3, Ghost(k2)) = reduce_row(&t2, modulus, inv);
    let (t4, Ghost(k3)) = reduce_row(&t3, modulus, inv);
    let ghost m = limbs_value(*modulus);
    let ghost k = k0 + k1 * base64() + k2 * base128() + k3 * base192();
    proof {
        assert(k * m == k0 * m + (k1 * m) * base64() + (k2 * m) * base128() + (k3 * m) * base192())
            by (nonlinear_arith)
            requires
                k == k0 + k1 * base64() + k2 * base128() + k3 * base192(),
        ;
        assert(limbs_value(t4) * base256() == limbs_value(*lo) + k * m);
        lemma_limbs_value(*lo, t4);
        lemma_limbs_value(t4, *lo);
        assert(k * m <= (base256() - 1) * m) by (nonlinear_arith)
            requires
                k <= base256() - 1,
                0 <= m,
        ;
        assert(limbs_value(t4) <= m);
    }
    let (s, _) = add_limbs(&t4, hi);
    let (d, below) = sub_limbs(&s, modulus);
    let r = if below { s } else { d };
    proof {
        let x = limbs_value(*lo) + limbs_value(*hi) * base256();
        let c = if below { k } else { k - base256() };
        assert(limbs_value(r) * base256() == m * c + x) by (nonlinear_arith)
            requires
                limbs_value(t4) * base256() == limbs_value(*lo) + k * m,
                x == limbs_value(*lo) + limbs_value(*hi) * base256(),
                limbs_value(r) == limbs_value(t4) + limbs_value(*hi) - (if below { 0 } else { m }),
                c == (if below { k } else { k - base256() }),
        ;
        lemma_mod_multiples_vanish(c, x, m);
    }
    r
}

/// Montgomery multiplication of two residues below the modulus.
pub fn montgomery_mul(lhs: &Limbs, rhs: &Limbs, modulus: &Limbs, inv: u64) -> (r: Limbs)
    requires
        is_montgomery_inverse(*modulus, inv),
        limbs_value(*lhs) < limbs_value(*modulus),
        limbs_value(*rhs) < limbs_value(*modulus),
        2 * limbs_value(*modulus) < base256(),
    ensures
        limbs_value(r) < limbs_value(*modulus),
        (limbs_value(r) * base256()) % limbs_value(*modulus) == (limbs_value(*lhs) * limbs_value(
            *rhs,
        )) % limbs_value(*modulus),
{
    let (lo, hi) = wide_mul(lhs, rhs);
    proof {
        let m = limbs_value(*modulus);
        lemma_limbs_value(*lhs, *rhs);
        lemma_limbs_value(*rhs, *lhs);
        lemma_limbs_value(lo, hi);
        assert(limbs_value(*lhs) * limbs_value(*rhs) < m * base256()) by (nonlinear_arith)
            requires
                0 <= limbs_value(*lhs) < m,
                0 <= limbs_value(*rhs) < m,
                2 * m < base256(),
        ;
        assert(limbs_value(hi) < m) by (nonlinear_arith)
            requires
                limbs_value(lo) + limbs_value(hi) * base256() < m * base256(),
                limbs_value(lo) >= 0,
        ;
    }
    montgomery_reduce(&lo, &hi, modulus, inv)
}

} // verus!

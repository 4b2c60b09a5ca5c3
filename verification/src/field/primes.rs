//! Divisibility, units modulo an integer and a primality criterion.
use vstd::arithmetic::div_mod::{
    lemma_fundamental_div_mod, lemma_mod_bound, lemma_mod_mod, lemma_mod_multiples_basic,
    lemma_mod_multiples_vanish, lemma_mod_pos_bound, lemma_mul_mod_noop_general,
    lemma_small_mod, lemma_sub_mod_noop,
};
use vstd::arithmetic::power::{
    lemma1_pow, lemma_pow0, lemma_pow_adds, lemma_pow_mod_noop, lemma_pow_multiplies,
    lemma_pow_positive, pow,
};
use vstd::prelude::*;
use vstd::set_lib::{lemma_int_range, lemma_len_subset, lemma_map_size, set_int_range};

verus! {

/// `w` is a multiplicative inverse of `x` modulo `n`.
pub open spec fn is_inverse(x: int, w: int, n: int) -> bool {
    (x * w) % n == 1
}

/// `x` has a multiplicative inverse modulo `n`.
pub open spec fn is_unit(x: int, n: int) -> bool {
    exists|w: int| is_inverse(x, w, n)
}

/// `n` is a prime number.
pub open spec fn is_prime(n: int) -> bool {
    n > 1 && forall|d: int| 1 < d < n ==> #[trigger] (n % d) != 0
}

/// Modulo a prime, every nonzero residue is a unit.
pub proof fn lemma_prime_unit(x: int, n: int)
    requires
        is_prime(n),
        0 < x < n,
    ensures
        is_unit(x, n),
    decreases x,
{
    if x == 1 {
        lemma_small_mod(1, n as nat);
        assert(is_inverse(1, 1, n));
    } else {
        let t = n / x;
        let s = n % x;
        lemma_fundamental_div_mod(n, x);
        lemma_mod_pos_bound(n, x);
        assert(n % x != 0);
        lemma_prime_unit(s, n);
        let w = choose|w: int| is_inverse(s, w, n);
        // s = n - x * t, so x * (-t * w) = s * w - n * w.
        assert(x * (-t * w) == n * (-w) + s * w) by (nonlinear_arith)
            requires
                n == x * t + s,
        ;
        lemma_mod_multiples_vanish(-w, s * w, n);
        assert(is_inverse(x, -t * w, n));
    }
}

/// A prime dividing a product but not its first factor divides the second.
pub proof fn lemma_euclid(q: int, x: int, y: int)
    requires
        is_prime(q),
        (x * y) % q == 0,
        x % q != 0,
    ensures
        y % q == 0,
{
    lemma_mod_bound(x, q);
    let x0 = x % q;
    lemma_prime_unit(x0, q);
    let w = choose|w: int| is_inverse(x0, w, q);
    lemma_mul_mod_noop_general(x, w, q);
    assert((x * w) % q == 1);
    // y == (x * w) * y == (x * y) * w (mod q)
    lemma_mul_mod_noop_general(x * w, y, q);
    lemma_mul_mod_noop_general(x * y, w, q);
    assert((x * w) * y == (x * y) * w) by (nonlinear_arith);
    assert(((x * w) % q) * y == y);
    assert(((x * y) % q) * w == 0);
    lemma_small_mod(0, q as nat);
}

/// A prime power dividing `t * k`, where the prime does not divide `t`, divides `k`.
pub proof fn lemma_prime_power_divides(q: int, e: nat, t: int, k: int)
    requires
        is_prime(q),
        t % q != 0,
        (t * k) % pow(q, e) == 0,
    ensures
        k % pow(q, e) == 0,
    decreases e,
{
    reveal(pow);
    if e == 0 {
        assert(pow(q, 0) == 1);
    } else {
        let s = pow(q, (e - 1) as nat);
        lemma_pow_positive(q, (e - 1) as nat);
        assert(pow(q, e) == q * s);
        assert(q * s > 0) by (nonlinear_arith)
            requires
                q > 0,
                s > 0,
        ;
        lemma_fundamental_div_mod(t * k, q * s);
        let c = (t * k) / (q * s);
        assert(t * k == q * (s * c)) by (nonlinear_arith)
            requires
                t * k == (q * s) * c,
        ;
        lemma_mod_multiples_basic(s * c, q);
        assert((s * c) * q == t * k) by (nonlinear_arith)
            requires
                t * k == q * (s * c),
        ;
        lemma_euclid(q, t, k);
        lemma_fundamental_div_mod(k, q);
        let k1 = k / q;
        assert(t * k1 == s * c) by (nonlinear_arith)
            requires
                t * k == q * (s * c),
                k == q * k1,
                q > 0,
        ;
        lemma_mod_multiples_basic(c, s);
        assert(c * s == t * k1) by (nonlinear_arith)
            requires
                t * k1 == s * c,
        ;
        lemma_prime_power_divides(q, (e - 1) as nat, t, k1);
        lemma_fundamental_div_mod(k1, s);
        let k2 = k1 / s;
        assert(k == k2 * (q * s)) by (nonlinear_arith)
            requires
                k == q * k1,
                k1 == s * k2,
        ;
        lemma_mod_multiples_basic(k2, q * s);
    }
}

/// `k` is the multiplicative order of `a` modulo `r`.
pub open spec fn is_order(a: int, r: int, k: nat) -> bool {
    &&& k > 0
    &&& pow(a, k) % r == 1
    &&& forall|j: nat| 0 < j < k ==> #[trigger] pow(a, j) % r != 1
}

proof fn lemma_order_exists(a: int, r: int, m: nat) -> (k: nat)
    requires
        m > 0,
        pow(a, m) % r == 1,
    ensures
        is_order(a, r, k),
    decreases m,
{
    if exists|j: nat| 0 < j < m && #[trigger] pow(a, j) % r == 1 {
        let j = choose|j: nat| 0 < j < m && #[trigger] pow(a, j) % r == 1;
        lemma_order_exists(a, r, j)
    } else {
        m
    }
}

/// The powers below the order are distinct nonzero residues, so the order is below `r`.
proof fn lemma_order_bound(a: int, r: int, k: nat)
    requires
        r > 1,
        is_order(a, r, k),
    ensures
        k < r,
{
    let f = |i: int| pow(a, i as nat) % r;
    let dom = set_int_range(0, k as int);
    let img = dom.map(f);
    lemma_int_range(0, k as int);
    lemma_int_range(1, r);
    assert forall|i: int, j: int| 0 <= i < j < k implies #[trigger] f(i) != #[trigger] f(j) by {
        if f(i) == f(j) {
            let c = pow(a, (k - i) as nat);
            let d = pow(a, (j - i) as nat);
            lemma_pow_adds(a, i as nat, (k - i) as nat);
            lemma_pow_adds(a, j as nat, (k - i) as nat);
            lemma_pow_adds(a, k, (j - i) as nat);
            assert(k + (j - i) as nat == j as nat + (k - i) as nat);
            lemma_mul_mod_noop_general(pow(a, i as nat), c, r);
            lemma_mul_mod_noop_general(pow(a, j as nat), c, r);
            lemma_mul_mod_noop_general(pow(a, k), d, r);
            assert(1 * d == d);
            assert(pow(a, (j - i) as nat) % r == 1);
        }
    }
    assert(vstd::relations::injective_on(f, dom)) by {
        assert forall|i: int, j: int|
            dom.contains(i) && dom.contains(j) && #[trigger] f(i) == #[trigger] f(j) implies i
            == j by {
            if i < j {
                assert(f(i) != f(j));
            } else if j < i {
                assert(f(j) != f(i));
            }
        }
    }
    lemma_map_size(dom, img, f);
    assert forall|v: int| img.contains(v) implies set_int_range(1, r).contains(v) by {
        let i = choose|i: int| dom.contains(i) && f(i) == v;
        lemma_mod_bound(pow(a, i as nat), r);
        if v == 0 {
            let c = pow(a, (k - i) as nat);
            lemma_pow_adds(a, i as nat, (k - i) as nat);
            lemma_mul_mod_noop_general(pow(a, i as nat), c, r);
            assert(0 * c == 0);
            lemma_small_mod(0, r as nat);
        }
    }
    lemma_len_subset(img, set_int_range(1, r));
}

/// The order divides every exponent that gives one.
proof fn lemma_order_divides(a: int, r: int, k: nat, m: nat)
    requires
        r > 1,
        is_order(a, r, k),
        pow(a, m) % r == 1,
    ensures
        m as int % k as int == 0,
{
    let t = (m as int / k as int) as nat;
    let s = (m as int % k as int) as nat;
    lemma_fundamental_div_mod(m as int, k as int);
    lemma_mod_pos_bound(m as int, k as int);
    assert(m as int / k as int >= 0) by (nonlinear_arith)
        requires
            m >= 0,
            k > 0,
    ;
    assert(k * t >= 0);
    lemma_pow_multiplies(a, k, t);
    lemma_pow_mod_noop(pow(a, k), t, r);
    lemma1_pow(t);
    lemma_small_mod(1, r as nat);
    assert(pow(a, k * t) % r == 1);
    lemma_pow_adds(a, k * t, s);
    lemma_mul_mod_noop_general(pow(a, k * t), pow(a, s), r);
    assert(1 * pow(a, s) == pow(a, s));
    assert(pow(a, s) % r == 1);
}

/// `a` certifies the prime power `pow(q, e)` of the exponent `m`: the `m`-th power of `a` is one
/// and the `m / q`-th power minus one is a unit.
pub open spec fn certifies(n: int, a: int, m: nat, q: int, e: nat) -> bool {
    &&& is_prime(q)
    &&& e > 0
    &&& m as int % pow(q, e) == 0
    &&& pow(a, m) % n == 1
    &&& is_unit(pow(a, (m as int / q) as nat) - 1, n)
}

/// A certified prime power divides the order of `a` modulo any divisor of `n`.
proof fn lemma_certified_divides_order(n: int, a: int, m: nat, q: int, e: nat, r: int, k: nat)
    requires
        n > 1,
        r > 1,
        n % r == 0,
        certifies(n, a, m, q, e),
        is_order(a, r, k),
    ensures
        k as int % pow(q, e) == 0,
{
    let u = (m as int / q) as nat;
    lemma_pow_positive(q, e);
    lemma_fundamental_div_mod(n, r);
    let c = n / r;
    assert(n == r * c);
    assert(c > 0) by (nonlinear_arith)
        requires
            n == r * c,
            n > 1,
            r > 1,
    ;
    lemma_mod_mod(pow(a, m), r, c);
    lemma_small_mod(1, r as nat);
    assert(pow(a, m) % r == 1);
    lemma_order_divides(a, r, k, m);
    lemma_fundamental_div_mod(m as int, k as int);
    let t = m as int / k as int;
    let s = pow(q, (e - 1) as nat);
    reveal(pow);
    assert(pow(q, e) == q * s);
    lemma_fundamental_div_mod(m as int, pow(q, e));
    let v = m as int / pow(q, e);
    assert(m == (s * v) * q) by (nonlinear_arith)
        requires
            m == (q * s) * v,
    ;
    lemma_mod_multiples_basic(s * v, q);
    lemma_fundamental_div_mod(m as int, q);
    assert(m == q * u) by {
        assert(m as int / q >= 0) by (nonlinear_arith)
            requires
                m >= 0,
                q > 0,
        ;
    }
    if t % q == 0 {
        lemma_fundamental_div_mod(t, q);
        let t1 = t / q;
        assert(u == k * t1) by (nonlinear_arith)
            requires
                m == k * t,
                t == q * t1,
                m == q * u,
                q > 0,
        ;
        assert(t1 >= 0) by (nonlinear_arith)
            requires
                u == k * t1,
                u >= 0,
                k > 0,
        ;
        lemma_pow_multiplies(a, k, t1 as nat);
        lemma_pow_mod_noop(pow(a, k), t1 as nat, r);
        lemma1_pow(t1 as nat);
        assert(pow(a, u) % r == 1);
        let x = pow(a, u) - 1;
        lemma_sub_mod_noop(pow(a, u), 1, r);
        lemma_small_mod(0, r as nat);
        assert(x % r == 0);
        let w = choose|w: int| is_inverse(x, w, n);
        lemma_mod_mod(x * w, r, c);
        lemma_mul_mod_noop_general(x, w, r);
        assert(0 * w == 0);
        assert(false);
    }
    assert(t * k == m) by (nonlinear_arith)
        requires
            m == k * t,
    ;
    lemma_prime_power_divides(q, e, t, k as int);
}

/// Primality from a base of large order: every divisor of `n` exceeds the certified part of the
/// order, and that part is at least the square root of `n`.
///
/// The part is the product of the prime powers `pow(q1, e1)` and `pow(q2, e2)`; with
/// `e2 == 0` the second is absent.
pub proof fn lemma_certified_prime(
    n: int,
    a: int,
    m: nat,
    q1: int,
    e1: nat,
    q2: int,
    e2: nat,
    f1: int,
    f2: int,
    g: int,
)
    requires
        f1 == pow(q1, e1),
        f2 == pow(q2, e2),
        g == f1 * f2 + 1,
        n > 1,
        m > 0,
        certifies(n, a, m, q1, e1),
        e2 > 0 ==> certifies(n, a, m, q2, e2) && pow(q1, e1) % q2 != 0,
        g * g > n,
    ensures
        is_prime(n),
{
    assert forall|d: int| 1 < d < n implies #[trigger] (n % d) != 0 by {
        if n % d == 0 {
            lemma_fundamental_div_mod(n, d);
            let d2 = n / d;
            assert(1 < d2 && n == d2 * d) by (nonlinear_arith)
                requires
                    n == d * d2,
                    1 < d < n,
            ;
            lemma_mod_multiples_basic(d, d2);
            assert(d * d2 == n);
            let r = if d <= d2 {
                d
            } else {
                d2
            };
            assert(r * r <= n) by (nonlinear_arith)
                requires
                    n == d * d2,
                    r <= d,
                    r <= d2,
                    r > 1,
            ;
            lemma_certified_bound(n, a, m, q1, e1, q2, e2, r);
            assert(r * r >= g * g) by (nonlinear_arith)
                requires
                    r >= g,
                    g >= 1,
            ;
        }
    }
}

proof fn lemma_certified_bound(
    n: int,
    a: int,
    m: nat,
    q1: int,
    e1: nat,
    q2: int,
    e2: nat,
    r: int,
)
    requires
        n > 1,
        m > 0,
        r > 1,
        n % r == 0,
        certifies(n, a, m, q1, e1),
        e2 > 0 ==> certifies(n, a, m, q2, e2) && pow(q1, e1) % q2 != 0,
    ensures
        0 <= pow(q1, e1) * pow(q2, e2) < r,
{
    let f1 = pow(q1, e1);
    let f2 = pow(q2, e2);
    lemma_pow_positive(q1, e1);
    lemma_fundamental_div_mod(n, r);
    let c = n / r;
    assert(c > 0) by (nonlinear_arith)
        requires
            n == r * c,
            n > 1,
            r > 1,
    ;
    lemma_mod_mod(pow(a, m), r, c);
    lemma_small_mod(1, r as nat);
    let k = lemma_order_exists(a, r, m);
    lemma_order_bound(a, r, k);
    lemma_certified_divides_order(n, a, m, q1, e1, r, k);
    lemma_fundamental_div_mod(k as int, f1);
    let k1 = k as int / f1;
    assert(k1 > 0) by (nonlinear_arith)
        requires
            k == f1 * k1,
            k > 0,
            f1 > 0,
    ;
    if e2 > 0 {
        lemma_certified_divides_order(n, a, m, q2, e2, r, k);
        lemma_pow_positive(q2, e2);
        lemma_prime_power_divides(q2, e2, f1, k1);
        lemma_fundamental_div_mod(k1, f2);
        let k2 = k1 / f2;
        assert(k >= f1 * f2 && f1 * f2 >= 0) by (nonlinear_arith)
            requires
                k == f1 * k1,
                k1 == f2 * k2,
                k1 > 0,
                f1 > 0,
                f2 > 0,
        ;
    } else {
        lemma_pow0(q2);
        assert(k >= f1) by (nonlinear_arith)
            requires
                k == f1 * k1,
                k1 > 0,
                f1 > 0,
        ;
        assert(f1 * 1 == f1);
    }
}

/// `f` divides the order of `a` modulo every divisor of `n`.
pub open spec fn divides_orders(n: int, a: int, f: int) -> bool {
    &&& f > 0
    &&& forall|r: int, k: nat|
        r > 1 && n % r == 0 && #[trigger] is_order(a, r, k) ==> k as int % f == 0
}

/// A certified prime power divides all orders.
pub proof fn lemma_divides_orders(n: int, a: int, m: nat, q: int, e: nat)
    requires
        n > 1,
        certifies(n, a, m, q, e),
    ensures
        divides_orders(n, a, pow(q, e)),
{
    lemma_pow_positive(q, e);
    assert forall|r: int, k: nat| r > 1 && n % r == 0 && #[trigger] is_order(a, r, k) implies k as int
        % pow(q, e) == 0 by {
        lemma_certified_divides_order(n, a, m, q, e, r, k);
    }
}

/// The product with a certified power of another prime divides all orders.
pub proof fn lemma_divides_orders_next(n: int, a: int, m: nat, f: int, q: int, e: nat)
    requires
        n > 1,
        divides_orders(n, a, f),
        certifies(n, a, m, q, e),
        f % q != 0,
    ensures
        divides_orders(n, a, f * pow(q, e)),
{
    lemma_pow_positive(q, e);
    let g = pow(q, e);
    assert(f * g > 0) by (nonlinear_arith)
        requires
            f > 0,
            g > 0,
    ;
    assert forall|r: int, k: nat| r > 1 && n % r == 0 && #[trigger] is_order(a, r, k) implies k as int
        % (f * g) == 0 by {
        lemma_certified_divides_order(n, a, m, q, e, r, k);
        lemma_fundamental_div_mod(k as int, f);
        let t = k as int / f;
        lemma_prime_power_divides(q, e, f, t);
        lemma_fundamental_div_mod(t, g);
        let c = t / g;
        assert(k == c * (f * g)) by (nonlinear_arith)
            requires
                k == f * t,
                t == g * c,
        ;
        lemma_mod_multiples_basic(c, f * g);
    }
}

/// Primality from a base of large order.
pub proof fn lemma_order_prime(n: int, a: int, m: nat, f: int)
    requires
        n > 1,
        m > 0,
        pow(a, m) % n == 1,
        divides_orders(n, a, f),
        (f + 1) * (f + 1) > n,
    ensures
        is_prime(n),
{
    assert forall|d: int| 1 < d < n implies #[trigger] (n % d) != 0 by {
        if n % d == 0 {
            lemma_fundamental_div_mod(n, d);
            let d2 = n / d;
            assert(1 < d2 && n == d2 * d) by (nonlinear_arith)
                requires
                    n == d * d2,
                    1 < d < n,
            ;
            lemma_mod_multiples_basic(d, d2);
            assert(d * d2 == n);
            let r = if d <= d2 {
                d
            } else {
                d2
            };
            let c = n / r;
            lemma_fundamental_div_mod(n, r);
            assert(c > 0) by (nonlinear_arith)
                requires
                    n == r * c,
                    n > 1,
                    r > 1,
            ;
            lemma_mod_mod(pow(a, m), r, c);
            lemma_small_mod(1, r as nat);
            let k = lemma_order_exists(a, r, m);
            lemma_order_bound(a, r, k);
            assert(k as int % f == 0);
            lemma_fundamental_div_mod(k as int, f);
            let t = k as int / f;
            assert(f <= k) by (nonlinear_arith)
                requires
                    k == f * t,
                    k > 0,
                    f > 0,
            ;
            assert(r * r <= n && (f + 1) * (f + 1) <= r * r) by (nonlinear_arith)
                requires
                    n == d * d2,
                    r <= d,
                    r <= d2,
                    r > f,
                    f > 0,
            ;
        }
    }
}

} // verus!

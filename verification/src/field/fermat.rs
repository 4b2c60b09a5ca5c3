//! The theorems of Fermat and Euler on powers modulo a prime.
use crate::field::congruence::{
    congruent, lemma_congruent_cancel, lemma_congruent_mod, lemma_congruent_ops,
    lemma_congruent_small,
};
use crate::field::primes::{is_inverse, is_prime, lemma_euclid, lemma_prime_unit};
use vstd::arithmetic::div_mod::{lemma_mod_bound, lemma_small_mod};
use vstd::arithmetic::power::{
    lemma_pow0, lemma_pow1, lemma_pow_adds, lemma_pow_distributes, lemma_pow_mod_noop,
    lemma_pow_multiplies, pow,
};
use vstd::prelude::*;
use vstd::seq_lib::{group_to_multiset_ensures, lemma_fold_right_permutation};

verus! {

spec fn factor() -> spec_fn(int, int) -> int {
    |x: int, v: int| x * v
}

/// The product of numbers.
spec fn product(s: Seq<int>) -> int {
    s.fold_right(factor(), 1)
}

/// The numbers from one to `k`.
spec fn numbers(k: nat) -> Seq<int> {
    Seq::new(k, |i: int| i + 1)
}

/// The multiples of `x` by the numbers from one to `k`, reduced modulo `n`.
spec fn multiples(x: int, k: nat, n: int) -> Seq<int> {
    Seq::new(k, |i: int| (x * (i + 1)) % n)
}

proof fn lemma_fold_value(s: Seq<int>, v: int)
    ensures
        s.fold_right(factor(), v) == product(s) * v,
    decreases s.len(),
{
    let f = factor();
    if s.len() == 0 {
        assert(1 * v == v);
    } else {
        let (init, x) = (s.drop_last(), s.last());
        lemma_fold_value(init, x * v);
        lemma_fold_value(init, x * 1);
        let a = product(init);
        assert(a * (x * v) == (a * (x * 1)) * v) by (nonlinear_arith);
        assert(s.fold_right(f, v) == init.fold_right(f, f(x, v)));
        assert(s.fold_right(f, 1) == init.fold_right(f, f(x, 1)));
    }
}

proof fn lemma_product_step(s: Seq<int>)
    requires
        s.len() > 0,
    ensures
        product(s) == product(s.drop_last()) * s.last(),
{
    let f = factor();
    assert(s.fold_right(f, 1) == s.drop_last().fold_right(f, f(s.last(), 1)));
    lemma_fold_value(s.drop_last(), s.last());
}

/// The product of the multiples is the product of the numbers times a power.
proof fn lemma_product_multiples(x: int, k: nat, n: int)
    requires
        n > 1,
    ensures
        congruent(product(multiples(x, k, n)), pow(x, k) * product(numbers(k)), n),
    decreases k,
{
    if k == 0 {
        lemma_pow0(x);
    } else {
        let i = (k - 1) as nat;
        let (a, b) = (multiples(x, k, n), numbers(k));
        lemma_product_multiples(x, i, n);
        assert(a.drop_last() =~= multiples(x, i, n));
        assert(b.drop_last() =~= numbers(i));
        lemma_product_step(a);
        lemma_product_step(b);
        lemma_congruent_mod(x * k, n);
        let (c, d, e) = (product(numbers(i)), pow(x, i), k as int);
        lemma_congruent_ops(product(multiples(x, i, n)), d * c, a.last(), x * k, n);
        lemma_pow1(x);
        lemma_pow_adds(x, i, 1);
        assert((d * c) * (x * e) == (d * x) * (c * e)) by (nonlinear_arith);
    }
}

/// A prime does not divide a product of smaller numbers.
proof fn lemma_product_nonzero(k: nat, n: int)
    requires
        is_prime(n),
        k < n,
    ensures
        product(numbers(k)) % n != 0,
    decreases k,
{
    let s = numbers(k);
    if k == 0 {
        lemma_small_mod(1, n as nat);
    } else {
        let i = (k - 1) as nat;
        lemma_product_nonzero(i, n);
        assert(s.drop_last() =~= numbers(i));
        lemma_product_step(s);
        lemma_small_mod(k, n as nat);
        if product(s) % n == 0 {
            lemma_euclid(n, product(numbers(i)), k as int);
        }
    }
}

/// Multiplication with a nonzero residue permutes the nonzero residues.
proof fn lemma_permuted(x: int, n: int)
    requires
        is_prime(n),
        x % n != 0,
    ensures
        multiples(x, (n - 1) as nat, n).to_multiset() == numbers((n - 1) as nat).to_multiset(),
{
    broadcast use group_to_multiset_ensures;

    let k = (n - 1) as nat;
    let (a, b) = (multiples(x, k, n), numbers(k));
    lemma_mod_bound(x, n);
    let r = x % n;
    lemma_prime_unit(r, n);
    let w = choose|w: int| is_inverse(r, w, n);
    lemma_congruent_mod(x, n);
    lemma_congruent_ops(r, x, w, w, n);
    assert((x * w) % n == 1);
    assert forall|i: int, j: int| 0 <= i < j < k implies a[i] != a[j] by {
        if a[i] == a[j] {
            assert(x * (i + 1) == (i + 1) * x && x * (j + 1) == (j + 1) * x) by (nonlinear_arith);
            lemma_congruent_cancel(x, w, i + 1, j + 1, n);
            lemma_congruent_small(i + 1, j + 1, n);
        }
    }
    assert(a.no_duplicates());
    assert(b.no_duplicates());
    assert forall|v: int| a.contains(v) implies b.contains(v) by {
        let i = choose|i: int| 0 <= i < k && a[i] == v;
        lemma_mod_bound(x * (i + 1), n);
        if v == 0 {
            lemma_euclid(n, x, i + 1);
            lemma_small_mod((i + 1) as nat, n as nat);
        }
        assert(b[v - 1] == v);
    }
    assert forall|v: int| b.contains(v) implies a.contains(v) by {
        let j = choose|j: int| 0 <= j < k && b[j] == v;
        let i = (w * v) % n;
        lemma_congruent_mod(w * v, n);
        lemma_congruent_ops(x, x, i, w * v, n);
        assert(x * (w * v) == (x * w) * v) by (nonlinear_arith);
        lemma_small_mod(1, n as nat);
        lemma_congruent_ops(x * w, 1, v, v, n);
        lemma_small_mod(v as nat, n as nat);
        assert((x * i) % n == v);
        if i == 0 {
            assert(x * 0 == 0);
            lemma_small_mod(0, n as nat);
        }
        assert(a[i - 1] == v);
    }
    a.lemma_multiset_has_no_duplicates();
    b.lemma_multiset_has_no_duplicates();
    assert(a.to_multiset() =~= b.to_multiset()) by {
        assert forall|v: int| a.to_multiset().count(v) == b.to_multiset().count(v) by {
            assert(a.contains(v) <==> b.contains(v));
            assert(a.contains(v) <==> a.to_multiset().count(v) > 0);
            assert(b.contains(v) <==> b.to_multiset().count(v) > 0);
            if a.contains(v) {
                assert(a.to_multiset().contains(v));
                assert(b.to_multiset().contains(v));
            }
        }
    }
}

/// The power of a nonzero residue by the prime minus one is one.
pub proof fn lemma_fermat(x: int, n: int)
    requires
        is_prime(n),
        x % n != 0,
    ensures
        pow(x, (n - 1) as nat) % n == 1,
{
    let k = (n - 1) as nat;
    let (a, b) = (multiples(x, k, n), numbers(k));
    lemma_permuted(x, n);
    let f = factor();
    assert(vstd::seq_lib::commutative_foldr(f)) by {
        assert forall|u: int, w: int, v: int| #[trigger] f(u, f(w, v)) == f(w, f(u, v)) by {
            assert(u * (w * v) == w * (u * v)) by (nonlinear_arith);
        }
    }
    lemma_fold_right_permutation(a, b, f, 1);
    lemma_product_multiples(x, k, n);
    lemma_product_nonzero(k, n);
    let c = product(b);
    lemma_mod_bound(c, n);
    let r = c % n;
    lemma_prime_unit(r, n);
    let w = choose|w: int| is_inverse(r, w, n);
    lemma_congruent_mod(c, n);
    lemma_congruent_ops(r, c, w, w, n);
    assert(1 * c == c);
    lemma_congruent_cancel(c, w, pow(x, k), 1, n);
    lemma_small_mod(1, n as nat);
}

/// A number with a power of minus one by half of the prime minus one is no square, not even times
/// a square.
pub proof fn lemma_nonsquare(d: int, t: int, z: int, n: int)
    requires
        is_prime(n),
        n % 2 == 1,
        pow(d, ((n - 1) / 2) as nat) % n == n - 1,
        t % n != 0,
    ensures
        !congruent(d * (t * t), z * z, n),
{
    let h = ((n - 1) / 2) as nat;
    if congruent(d * (t * t), z * z, n) {
        lemma_pow_mod_noop(d * (t * t), h, n);
        lemma_pow_mod_noop(z * z, h, n);
        lemma_square_power(t, h);
        lemma_square_power(z, h);
        assert(2 * h == (n - 1) as nat);
        lemma_pow_distributes(d, t * t, h);
        lemma_fermat(t, n);
        lemma_small_mod(1, n as nat);
        let e = pow(d, h);
        lemma_congruent_ops(e, e, pow(t * t, h), 1, n);
        assert(e * 1 == e);
        assert(pow(z * z, h) % n == n - 1);
        if z % n == 0 {
            lemma_small_mod(0, n as nat);
            lemma_pow_mod_noop(z, 2 * h, n);
            vstd::arithmetic::power::lemma0_pow(2 * h);
        } else {
            lemma_fermat(z, n);
        }
    }
}

proof fn lemma_square_power(t: int, h: nat)
    ensures
        pow(t * t, h) == pow(t, 2 * h),
{
    lemma_pow1(t);
    lemma_pow_adds(t, 1, 1);
    lemma_pow_multiplies(t, 2, h);
}

} // verus!

//! Congruence of integers modulo `m`.
use vstd::arithmetic::div_mod::{
    lemma_add_mod_noop, lemma_mod_bound, lemma_mod_equivalence, lemma_mod_multiples_vanish,
    lemma_mod_twice, lemma_mul_mod_noop_general, lemma_small_mod, lemma_sub_mod_noop,
};
use vstd::prelude::*;

verus! {

/// `a` and `b` leave the same remainder modulo `m`.
pub open spec fn congruent(a: int, b: int, m: int) -> bool {
    a % m == b % m
}

/// Congruence is preserved by addition, subtraction and multiplication.
pub proof fn lemma_congruent_ops(a: int, b: int, c: int, d: int, m: int)
    requires
        m > 0,
        congruent(a, b, m),
        congruent(c, d, m),
    ensures
        congruent(a + c, b + d, m),
        congruent(a - c, b - d, m),
        congruent(a * c, b * d, m),
{
    lemma_add_mod_noop(a, c, m);
    lemma_add_mod_noop(b, d, m);
    lemma_sub_mod_noop(a, c, m);
    lemma_sub_mod_noop(b, d, m);
    lemma_mul_mod_noop_general(a, c, m);
    lemma_mul_mod_noop_general(b, d, m);
}

/// A remainder is congruent to the number it is the remainder of.
pub proof fn lemma_congruent_mod(a: int, m: int)
    requires
        m > 0,
    ensures
        congruent(a % m, a, m),
        0 <= a % m < m,
{
    lemma_mod_twice(a, m);
    lemma_mod_bound(a, m);
}

/// Numbers whose difference is a multiple of `m` are congruent.
pub proof fn lemma_congruent_multiple(a: int, b: int, k: int, m: int)
    requires
        m > 0,
        a == b + k * m,
    ensures
        congruent(a, b, m),
{
    assert(k * m == m * k) by (nonlinear_arith);
    lemma_mod_multiples_vanish(k, b, m);
}

/// Congruent numbers between zero and `m` are equal.
pub proof fn lemma_congruent_small(a: int, b: int, m: int)
    requires
        0 <= a < m,
        0 <= b < m,
        congruent(a, b, m),
    ensures
        a == b,
{
    lemma_small_mod(a as nat, m as nat);
    lemma_small_mod(b as nat, m as nat);
}

/// A unit factor can be cancelled.
pub proof fn lemma_congruent_cancel(u: int, w: int, a: int, b: int, m: int)
    requires
        m > 1,
        (u * w) % m == 1,
        congruent(a * u, b * u, m),
    ensures
        congruent(a, b, m),
{
    lemma_congruent_ops(a * u, b * u, w, w, m);
    lemma_small_mod(1, m as nat);
    lemma_congruent_ops(a, a, u * w, 1, m);
    lemma_congruent_ops(b, b, u * w, 1, m);
    assert((a * u) * w == a * (u * w)) by (nonlinear_arith);
    assert((b * u) * w == b * (u * w)) by (nonlinear_arith);
}

/// The difference of numbers is a multiple of `m` exactly if they are congruent.
pub proof fn lemma_congruent_difference(a: int, b: int, m: int)
    requires
        m > 0,
    ensures
        congruent(a, b, m) <==> (a - b) % m == 0,
{
    lemma_mod_equivalence(a, b, m);
}

} // verus!

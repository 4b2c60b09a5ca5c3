//! The moduli of the Pallas and Vesta base fields are prime.
//!
//! Each prime is certified by a base of large order: every divisor of the prime exceeds that
//! order, and the order exceeds the square root of the prime.
use crate::field::primes::{certifies, is_inverse, is_prime, lemma_certified_prime};
use vstd::arithmetic::div_mod::{lemma_mod_twice, lemma_mul_mod_noop_general, lemma_sub_mod_noop};
use vstd::arithmetic::power::{
    lemma_pow0, lemma_pow1, lemma_pow_adds, lemma_pow_mod_noop, lemma_pow_multiplies, pow,
};
use vstd::prelude::*;

verus! {

/// The modulus of the Pallas base field, which is the order of the Vesta group.
pub open spec fn pallas_modulus() -> int {
    0x40000000000000000000000000000000224698fc094cf91b992d30ed00000001int
}

/// The modulus of the Vesta base field, which is the order of the Pallas group.
pub open spec fn vesta_modulus() -> int {
    0x40000000000000000000000000000000224698fc0994a8dd8c46eb2100000001int
}

/// `pow(h, 4) * pow(a, c)` modulo `n`, for a two-bit digit `c`.
pub open spec fn quad(h: int, a: int, c: nat, n: int) -> int {
    let s = (h * h) % n;
    let t = (s * s) % n;
    if c == 0 {
        t
    } else if c == 1 {
        (t * a) % n
    } else if c == 2 {
        (t * ((a * a) % n)) % n
    } else {
        (t * ((a * ((a * a) % n)) % n)) % n
    }
}

pub proof fn lemma_quad(a: int, e: nat, h: int, c: nat, n: int)
    requires
        n > 1,
        c < 4,
        pow(a, e) % n == h,
    ensures
        pow(a, 4 * e + c) % n == quad(h, a, c, n),
{
    let s = (h * h) % n;
    let t = (s * s) % n;
    lemma_pow_adds(a, e, e);
    lemma_mul_mod_noop_general(pow(a, e), pow(a, e), n);
    lemma_pow_adds(a, 2 * e, 2 * e);
    lemma_mul_mod_noop_general(pow(a, 2 * e), pow(a, 2 * e), n);
    assert(pow(a, 4 * e) % n == t);
    lemma_pow1(a);
    lemma_pow_adds(a, 1, 1);
    lemma_pow_adds(a, 1, 2);
    let d = pow(a, c);
    lemma_pow0(a);
    lemma_pow_adds(a, 4 * e, c);
    lemma_mul_mod_noop_general(pow(a, 4 * e), d, n);
    lemma_mul_mod_noop_general(a, a * a, n);
    lemma_mul_mod_noop_general(t, d, n);
    if c == 0 {
        assert(t * 1 == t);
        lemma_mod_twice(s * s, n);
    }
}

pub proof fn lemma_power_of_power(a: int, u: nat, v: int, q: nat, n: int)
    requires
        n > 1,
        pow(a, u) % n == v,
    ensures
        pow(a, u * q) % n == pow(v, q) % n,
{
    lemma_pow_multiplies(a, u, q);
    lemma_pow_mod_noop(pow(a, u), q, n);
}

pub proof fn lemma_certify(n: int, a: int, m: nat, q: int, e: nat, v: int, w: int)
    requires
        n > 1,
        is_prime(q),
        e > 0,
        m as int % pow(q, e) == 0,
        pow(a, m) % n == 1,
        pow(a, (m as int / q) as nat) % n == v,
        ((v - 1) * w) % n == 1,
    ensures
        certifies(n, a, m, q, e),
{
    let x = pow(a, (m as int / q) as nat);
    lemma_sub_mod_noop(x, 1, n);
    lemma_sub_mod_noop(v, 1, n);
    lemma_mod_twice(x, n);
    lemma_mul_mod_noop_general(x - 1, w, n);
    lemma_mul_mod_noop_general(v - 1, w, n);
    assert(is_inverse(x - 1, w, n));
}

pub proof fn lemma_prime_2()
    ensures
        is_prime(2),
{
}

proof fn lemma_prime_3()
    ensures
        is_prime(3),
{
    assert forall|d: int| 1 < d < 3 implies #[trigger] (3int % d) != 0 by {
        assert(d == 2);
    }
}

proof fn lemma_prime_5()
    ensures
        is_prime(5),
{
    assert forall|d: int| 1 < d < 5 implies #[trigger] (5int % d) != 0 by {
        assert(d == 2 || d == 3 || d == 4);
    }
}

proof fn lemma_power_11_c()
    ensures
        pow(4int, 5nat) % 11int == 1int,
{
    lemma_pow0(4int);
    let e: nat = 0;
    assert(quad(1int, 4int, 1, 11int) == 4int) by (nonlinear_arith);
    lemma_quad(4int, e, 1int, 1, 11int);
    let e: nat = 4 * e + 1;
    assert(quad(4int, 4int, 1, 11int) == 1int) by (nonlinear_arith);
    lemma_quad(4int, e, 4int, 1, 11int);
    let e: nat = 4 * e + 1;
    assert(e == 5int);
}

pub proof fn lemma_prime_11()
    ensures
        is_prime(11int),
{
    lemma_prime_5();
    lemma_pow1(5int);
    lemma_pow0(2);
    lemma_pow1(4int);
    lemma_power_11_c();
    lemma_certify(11int, 4int, 5nat, 5int, 1, 4int, 4int);
    lemma_certified_prime(11int, 4int, 5nat, 5int, 1, 2, 0, 5int, 1, 6int);
}

proof fn lemma_power_23_c()
    ensures
        pow(4int, 11nat) % 23int == 1int,
{
    lemma_pow0(4int);
    let e: nat = 0;
    assert(quad(1int, 4int, 2, 23int) == 16int) by (nonlinear_arith);
    lemma_quad(4int, e, 1int, 2, 23int);
    let e: nat = 4 * e + 2;
    assert(quad(16int, 4int, 3, 23int) == 1int) by (nonlinear_arith);
    lemma_quad(4int, e, 16int, 3, 23int);
    let e: nat = 4 * e + 3;
    assert(e == 11int);
}

proof fn lemma_prime_23()
    ensures
        is_prime(23int),
{
    lemma_prime_11();
    lemma_pow1(11int);
    lemma_pow0(2);
    lemma_pow1(4int);
    lemma_power_23_c();
    lemma_certify(23int, 4int, 11nat, 11int, 1, 4int, 8int);
    lemma_certified_prime(23int, 4int, 11nat, 11int, 1, 2, 0, 11int, 1, 12int);
}

proof fn lemma_power_41_a()
    ensures
        pow(38int, 4nat) % 41int == 40int,
{
    lemma_pow0(38int);
    let e: nat = 0;
    assert(quad(1int, 38int, 1, 41int) == 38int) by (nonlinear_arith);
    lemma_quad(38int, e, 1int, 1, 41int);
    let e: nat = 4 * e + 1;
    assert(quad(38int, 38int, 0, 41int) == 40int) by (nonlinear_arith);
    lemma_quad(38int, e, 38int, 0, 41int);
    let e: nat = 4 * e + 0;
    assert(e == 4int);
}

proof fn lemma_power_41_c()
    ensures
        pow(40int, 2nat) % 41int == 1int,
{
    lemma_pow0(40int);
    let e: nat = 0;
    assert(quad(1int, 40int, 2, 41int) == 1int) by (nonlinear_arith);
    lemma_quad(40int, e, 1int, 2, 41int);
    let e: nat = 4 * e + 2;
    assert(e == 2int);
}

proof fn lemma_prime_41()
    ensures
        is_prime(41int),
{
    lemma_prime_2();
    assert(pow(2int, 3) == 8int) by {
        reveal_with_fuel(pow, 4);
    }
    lemma_pow0(2);
    lemma_power_41_a();
    lemma_power_41_c();
    lemma_power_of_power(38int, 4nat, 40int, 2nat, 41int);
    lemma_certify(41int, 38int, 8nat, 2int, 3, 40int, 20int);
    lemma_certified_prime(41int, 38int, 8nat, 2int, 3, 2, 0, 8int, 1, 9int);
}

proof fn lemma_power_61_a()
    ensures
        pow(32int, 6nat) % 61int == 60int,
{
    lemma_pow0(32int);
    let e: nat = 0;
    assert(quad(1int, 32int, 1, 61int) == 32int) by (nonlinear_arith);
    lemma_quad(32int, e, 1int, 1, 61int);
    let e: nat = 4 * e + 1;
    assert(quad(32int, 32int, 2, 61int) == 60int) by (nonlinear_arith);
    lemma_quad(32int, e, 32int, 2, 61int);
    let e: nat = 4 * e + 2;
    assert(e == 6int);
}

proof fn lemma_power_61_b()
    ensures
        pow(32int, 4nat) % 61int == 47int,
{
    lemma_pow0(32int);
    let e: nat = 0;
    assert(quad(1int, 32int, 1, 61int) == 32int) by (nonlinear_arith);
    lemma_quad(32int, e, 1int, 1, 61int);
    let e: nat = 4 * e + 1;
    assert(quad(32int, 32int, 0, 61int) == 47int) by (nonlinear_arith);
    lemma_quad(32int, e, 32int, 0, 61int);
    let e: nat = 4 * e + 0;
    assert(e == 4int);
}

proof fn lemma_power_61_c()
    ensures
        pow(60int, 2nat) % 61int == 1int,
{
    lemma_pow0(60int);
    let e: nat = 0;
    assert(quad(1int, 60int, 2, 61int) == 1int) by (nonlinear_arith);
    lemma_quad(60int, e, 1int, 2, 61int);
    let e: nat = 4 * e + 2;
    assert(e == 2int);
}

proof fn lemma_prime_61()
    ensures
        is_prime(61int),
{
    lemma_prime_2();
    assert(pow(2int, 2) == 4int) by {
        reveal_with_fuel(pow, 3);
    }
    lemma_prime_3();
    lemma_pow1(3int);
    lemma_power_61_a();
    lemma_power_61_b();
    lemma_power_61_c();
    lemma_power_of_power(32int, 6nat, 60int, 2nat, 61int);
    lemma_certify(61int, 32int, 12nat, 2int, 2, 60int, 30int);
    lemma_certify(61int, 32int, 12nat, 3int, 1, 47int, 4int);
    lemma_certified_prime(61int, 32int, 12nat, 2int, 2, 3int, 1, 4int, 3int, 13int);
}

proof fn lemma_power_71_a()
    ensures
        pow(14int, 5nat) % 71int == 70int,
{
    lemma_pow0(14int);
    let e: nat = 0;
    assert(quad(1int, 14int, 1, 71int) == 14int) by (nonlinear_arith);
    lemma_quad(14int, e, 1int, 1, 71int);
    let e: nat = 4 * e + 1;
    assert(quad(14int, 14int, 1, 71int) == 70int) by (nonlinear_arith);
    lemma_quad(14int, e, 14int, 1, 71int);
    let e: nat = 4 * e + 1;
    assert(e == 5int);
}

proof fn lemma_power_71_b()
    ensures
        pow(14int, 2nat) % 71int == 54int,
{
    lemma_pow0(14int);
    let e: nat = 0;
    assert(quad(1int, 14int, 2, 71int) == 54int) by (nonlinear_arith);
    lemma_quad(14int, e, 1int, 2, 71int);
    let e: nat = 4 * e + 2;
    assert(e == 2int);
}

proof fn lemma_power_71_c()
    ensures
        pow(70int, 2nat) % 71int == 1int,
{
    lemma_pow0(70int);
    let e: nat = 0;
    assert(quad(1int, 70int, 2, 71int) == 1int) by (nonlinear_arith);
    lemma_quad(70int, e, 1int, 2, 71int);
    let e: nat = 4 * e + 2;
    assert(e == 2int);
}

proof fn lemma_prime_71()
    ensures
        is_prime(71int),
{
    lemma_prime_2();
    lemma_pow1(2int);
    lemma_prime_5();
    lemma_pow1(5int);
    lemma_power_71_a();
    lemma_power_71_b();
    lemma_power_71_c();
    lemma_power_of_power(14int, 5nat, 70int, 2nat, 71int);
    lemma_certify(71int, 14int, 10nat, 2int, 1, 70int, 35int);
    lemma_certify(71int, 14int, 10nat, 5int, 1, 54int, 67int);
    lemma_certified_prime(71int, 14int, 10nat, 2int, 1, 5int, 1, 2int, 5int, 11int);
}

proof fn lemma_power_127_a()
    ensures
        pow(28int, 9nat) % 127int == 126int,
{
    lemma_pow0(28int);
    let e: nat = 0;
    assert(quad(1int, 28int, 2, 127int) == 22int) by (nonlinear_arith);
    lemma_quad(28int, e, 1int, 2, 127int);
    let e: nat = 4 * e + 2;
    assert(quad(22int, 28int, 1, 127int) == 126int) by (nonlinear_arith);
    lemma_quad(28int, e, 22int, 1, 127int);
    let e: nat = 4 * e + 1;
    assert(e == 9int);
}

proof fn lemma_power_127_b()
    ensures
        pow(28int, 6nat) % 127int == 107int,
{
    lemma_pow0(28int);
    let e: nat = 0;
    assert(quad(1int, 28int, 1, 127int) == 28int) by (nonlinear_arith);
    lemma_quad(28int, e, 1int, 1, 127int);
    let e: nat = 4 * e + 1;
    assert(quad(28int, 28int, 2, 127int) == 107int) by (nonlinear_arith);
    lemma_quad(28int, e, 28int, 2, 127int);
    let e: nat = 4 * e + 2;
    assert(e == 6int);
}

proof fn lemma_power_127_c()
    ensures
        pow(126int, 2nat) % 127int == 1int,
{
    lemma_pow0(126int);
    let e: nat = 0;
    assert(quad(1int, 126int, 2, 127int) == 1int) by (nonlinear_arith);
    lemma_quad(126int, e, 1int, 2, 127int);
    let e: nat = 4 * e + 2;
    assert(e == 2int);
}

proof fn lemma_prime_127()
    ensures
        is_prime(127int),
{
    lemma_prime_2();
    lemma_pow1(2int);
    lemma_prime_3();
    assert(pow(3int, 2) == 9int) by {
        reveal_with_fuel(pow, 3);
    }
    lemma_power_127_a();
    lemma_power_127_b();
    lemma_power_127_c();
    lemma_power_of_power(28int, 9nat, 126int, 2nat, 127int);
    lemma_certify(127int, 28int, 18nat, 2int, 1, 126int, 63int);
    lemma_certify(127int, 28int, 18nat, 3int, 2, 107int, 6int);
    lemma_certified_prime(127int, 28int, 18nat, 2int, 1, 3int, 2, 2int, 9int, 19int);
}

proof fn lemma_power_509_c()
    ensures
        pow(16int, 127nat) % 509int == 1int,
{
    lemma_pow0(16int);
    let e: nat = 0;
    assert(quad(1int, 16int, 1, 509int) == 16int) by (nonlinear_arith);
    lemma_quad(16int, e, 1int, 1, 509int);
    let e: nat = 4 * e + 1;
    assert(quad(16int, 16int, 3, 509int) == 54int) by (nonlinear_arith);
    lemma_quad(16int, e, 16int, 3, 509int);
    let e: nat = 4 * e + 3;
    assert(quad(54int, 16int, 3, 509int) == 483int) by (nonlinear_arith);
    lemma_quad(16int, e, 54int, 3, 509int);
    let e: nat = 4 * e + 3;
    assert(quad(483int, 16int, 3, 509int) == 1int) by (nonlinear_arith);
    lemma_quad(16int, e, 483int, 3, 509int);
    let e: nat = 4 * e + 3;
    assert(e == 127int);
}

proof fn lemma_prime_509()
    ensures
        is_prime(509int),
{
    lemma_prime_127();
    lemma_pow1(127int);
    lemma_pow0(2);
    lemma_pow1(16int);
    lemma_power_509_c();
    lemma_certify(509int, 16int, 127nat, 127int, 1, 16int, 34int);
    lemma_certified_prime(509int, 16int, 127nat, 127int, 1, 2, 0, 127int, 1, 128int);
}

proof fn lemma_power_757_a()
    ensures
        pow(228int, 9nat) % 757int == 27int,
{
    lemma_pow0(228int);
    let e: nat = 0;
    assert(quad(1int, 228int, 2, 757int) == 508int) by (nonlinear_arith);
    lemma_quad(228int, e, 1int, 2, 757int);
    let e: nat = 4 * e + 2;
    assert(quad(508int, 228int, 1, 757int) == 27int) by (nonlinear_arith);
    lemma_quad(228int, e, 508int, 1, 757int);
    let e: nat = 4 * e + 1;
    assert(e == 9int);
}

proof fn lemma_power_757_c()
    ensures
        pow(27int, 3nat) % 757int == 1int,
{
    lemma_pow0(27int);
    let e: nat = 0;
    assert(quad(1int, 27int, 3, 757int) == 1int) by (nonlinear_arith);
    lemma_quad(27int, e, 1int, 3, 757int);
    let e: nat = 4 * e + 3;
    assert(e == 3int);
}

proof fn lemma_prime_757()
    ensures
        is_prime(757int),
{
    lemma_prime_3();
    assert(pow(3int, 3) == 27int) by {
        reveal_with_fuel(pow, 4);
    }
    lemma_pow0(2);
    lemma_power_757_a();
    lemma_power_757_c();
    lemma_power_of_power(228int, 9nat, 27int, 3nat, 757int);
    lemma_certify(757int, 228int, 27nat, 3int, 3, 27int, 495int);
    lemma_certified_prime(757int, 228int, 27nat, 3int, 3, 2, 0, 27int, 1, 28int);
}

proof fn lemma_power_977_c()
    ensures
        pow(77int, 61nat) % 977int == 1int,
{
    lemma_pow0(77int);
    let e: nat = 0;
    assert(quad(1int, 77int, 3, 977int) == 274int) by (nonlinear_arith);
    lemma_quad(77int, e, 1int, 3, 977int);
    let e: nat = 4 * e + 3;
    assert(quad(274int, 77int, 3, 977int) == 61int) by (nonlinear_arith);
    lemma_quad(77int, e, 274int, 3, 977int);
    let e: nat = 4 * e + 3;
    assert(quad(61int, 77int, 1, 977int) == 1int) by (nonlinear_arith);
    lemma_quad(77int, e, 61int, 1, 977int);
    let e: nat = 4 * e + 1;
    assert(e == 61int);
}

proof fn lemma_prime_977()
    ensures
        is_prime(977int),
{
    lemma_prime_61();
    lemma_pow1(61int);
    lemma_pow0(2);
    lemma_pow1(77int);
    lemma_power_977_c();
    lemma_certify(977int, 77int, 61nat, 61int, 1, 77int, 90int);
    lemma_certified_prime(977int, 77int, 61nat, 61int, 1, 2, 0, 61int, 1, 62int);
}

proof fn lemma_power_3037_a()
    ensures
        pow(1793int, 46nat) % 3037int == 3036int,
{
    lemma_pow0(1793int);
    let e: nat = 0;
    assert(quad(1int, 1793int, 2, 3037int) == 1703int) by (nonlinear_arith);
    lemma_quad(1793int, e, 1int, 2, 3037int);
    let e: nat = 4 * e + 2;
    assert(quad(1703int, 1793int, 3, 3037int) == 1276int) by (nonlinear_arith);
    lemma_quad(1793int, e, 1703int, 3, 3037int);
    let e: nat = 4 * e + 3;
    assert(quad(1276int, 1793int, 2, 3037int) == 3036int) by (nonlinear_arith);
    lemma_quad(1793int, e, 1276int, 2, 3037int);
    let e: nat = 4 * e + 2;
    assert(e == 46int);
}

proof fn lemma_power_3037_b()
    ensures
        pow(1793int, 4nat) % 3037int == 2911int,
{
    lemma_pow0(1793int);
    let e: nat = 0;
    assert(quad(1int, 1793int, 1, 3037int) == 1793int) by (nonlinear_arith);
    lemma_quad(1793int, e, 1int, 1, 3037int);
    let e: nat = 4 * e + 1;
    assert(quad(1793int, 1793int, 0, 3037int) == 2911int) by (nonlinear_arith);
    lemma_quad(1793int, e, 1793int, 0, 3037int);
    let e: nat = 4 * e + 0;
    assert(e == 4int);
}

proof fn lemma_power_3037_c()
    ensures
        pow(3036int, 2nat) % 3037int == 1int,
{
    lemma_pow0(3036int);
    let e: nat = 0;
    assert(quad(1int, 3036int, 2, 3037int) == 1int) by (nonlinear_arith);
    lemma_quad(3036int, e, 1int, 2, 3037int);
    let e: nat = 4 * e + 2;
    assert(e == 2int);
}

proof fn lemma_prime_3037()
    ensures
        is_prime(3037int),
{
    lemma_prime_2();
    assert(pow(2int, 2) == 4int) by {
        reveal_with_fuel(pow, 3);
    }
    lemma_prime_23();
    lemma_pow1(23int);
    lemma_power_3037_a();
    lemma_power_3037_b();
    lemma_power_3037_c();
    lemma_power_of_power(1793int, 46nat, 3036int, 2nat, 3037int);
    lemma_certify(3037int, 1793int, 92nat, 2int, 2, 3036int, 1518int);
    lemma_certify(3037int, 1793int, 92nat, 23int, 1, 2911int, 550int);
    lemma_certified_prime(3037int, 1793int, 92nat, 2int, 2, 23int, 1, 4int, 23int, 93int);
}

proof fn lemma_power_12149_c()
    ensures
        pow(16int, 3037nat) % 12149int == 1int,
{
    lemma_pow0(16int);
    let e: nat = 0;
    assert(quad(1int, 16int, 2, 12149int) == 256int) by (nonlinear_arith);
    lemma_quad(16int, e, 1int, 2, 12149int);
    let e: nat = 4 * e + 2;
    assert(quad(256int, 16int, 3, 12149int) == 9242int) by (nonlinear_arith);
    lemma_quad(16int, e, 256int, 3, 12149int);
    let e: nat = 4 * e + 3;
    assert(quad(9242int, 16int, 3, 12149int) == 328int) by (nonlinear_arith);
    lemma_quad(16int, e, 9242int, 3, 12149int);
    let e: nat = 4 * e + 3;
    assert(quad(328int, 16int, 1, 12149int) == 7099int) by (nonlinear_arith);
    lemma_quad(16int, e, 328int, 1, 12149int);
    let e: nat = 4 * e + 1;
    assert(quad(7099int, 16int, 3, 12149int) == 3479int) by (nonlinear_arith);
    lemma_quad(16int, e, 7099int, 3, 12149int);
    let e: nat = 4 * e + 3;
    assert(quad(3479int, 16int, 1, 12149int) == 1int) by (nonlinear_arith);
    lemma_quad(16int, e, 3479int, 1, 12149int);
    let e: nat = 4 * e + 1;
    assert(e == 3037int);
}

proof fn lemma_prime_12149()
    ensures
        is_prime(12149int),
{
    lemma_prime_3037();
    lemma_pow1(3037int);
    lemma_pow0(2);
    lemma_pow1(16int);
    lemma_power_12149_c();
    lemma_certify(12149int, 16int, 3037nat, 3037int, 1, 16int, 810int);
    lemma_certified_prime(12149int, 16int, 3037nat, 3037int, 1, 2, 0, 3037int, 1, 3038int);
}

proof fn lemma_power_294793_a()
    ensures
        pow(42863int, 284nat) % 294793int == 294792int,
{
    lemma_pow0(42863int);
    let e: nat = 0;
    assert(quad(1int, 42863int, 1, 294793int) == 42863int) by (nonlinear_arith);
    lemma_quad(42863int, e, 1int, 1, 294793int);
    let e: nat = 4 * e + 1;
    assert(quad(42863int, 42863int, 0, 294793int) == 179320int) by (nonlinear_arith);
    lemma_quad(42863int, e, 42863int, 0, 294793int);
    let e: nat = 4 * e + 0;
    assert(quad(179320int, 42863int, 1, 294793int) == 177519int) by (nonlinear_arith);
    lemma_quad(42863int, e, 179320int, 1, 294793int);
    let e: nat = 4 * e + 1;
    assert(quad(177519int, 42863int, 3, 294793int) == 226662int) by (nonlinear_arith);
    lemma_quad(42863int, e, 177519int, 3, 294793int);
    let e: nat = 4 * e + 3;
    assert(quad(226662int, 42863int, 0, 294793int) == 294792int) by (nonlinear_arith);
    lemma_quad(42863int, e, 226662int, 0, 294793int);
    let e: nat = 4 * e + 0;
    assert(e == 284int);
}

proof fn lemma_power_294793_b()
    ensures
        pow(42863int, 8nat) % 294793int == 231546int,
{
    lemma_pow0(42863int);
    let e: nat = 0;
    assert(quad(1int, 42863int, 2, 294793int) == 86793int) by (nonlinear_arith);
    lemma_quad(42863int, e, 1int, 2, 294793int);
    let e: nat = 4 * e + 2;
    assert(quad(86793int, 42863int, 0, 294793int) == 231546int) by (nonlinear_arith);
    lemma_quad(42863int, e, 86793int, 0, 294793int);
    let e: nat = 4 * e + 0;
    assert(e == 8int);
}

proof fn lemma_power_294793_c()
    ensures
        pow(294792int, 2nat) % 294793int == 1int,
{
    lemma_pow0(294792int);
    let e: nat = 0;
    assert(quad(1int, 294792int, 2, 294793int) == 1int) by (nonlinear_arith);
    lemma_quad(294792int, e, 1int, 2, 294793int);
    let e: nat = 4 * e + 2;
    assert(e == 2int);
}

proof fn lemma_prime_294793()
    ensures
        is_prime(294793int),
{
    lemma_prime_2();
    assert(pow(2int, 3) == 8int) by {
        reveal_with_fuel(pow, 4);
    }
    lemma_prime_71();
    lemma_pow1(71int);
    lemma_power_294793_a();
    lemma_power_294793_b();
    lemma_power_294793_c();
    lemma_power_of_power(42863int, 284nat, 294792int, 2nat, 294793int);
    lemma_certify(294793int, 42863int, 568nat, 2int, 3, 294792int, 147396int);
    lemma_certify(294793int, 42863int, 568nat, 71int, 1, 231546int, 70664int);
    lemma_certified_prime(294793int, 42863int, 568nat, 2int, 3, 71int, 1, 8int, 71int, 569int);
}

proof fn lemma_power_413527_a()
    ensures
        pow(64int, 1681nat) % 413527int == 295368int,
{
    lemma_pow0(64int);
    let e: nat = 0;
    assert(quad(1int, 64int, 1, 413527int) == 64int) by (nonlinear_arith);
    lemma_quad(64int, e, 1int, 1, 413527int);
    let e: nat = 4 * e + 1;
    assert(quad(64int, 64int, 2, 413527int) == 386930int) by (nonlinear_arith);
    lemma_quad(64int, e, 64int, 2, 413527int);
    let e: nat = 4 * e + 2;
    assert(quad(386930int, 64int, 2, 413527int) == 135684int) by (nonlinear_arith);
    lemma_quad(64int, e, 386930int, 2, 413527int);
    let e: nat = 4 * e + 2;
    assert(quad(135684int, 64int, 1, 413527int) == 211871int) by (nonlinear_arith);
    lemma_quad(64int, e, 135684int, 1, 413527int);
    let e: nat = 4 * e + 1;
    assert(quad(211871int, 64int, 0, 413527int) == 102990int) by (nonlinear_arith);
    lemma_quad(64int, e, 211871int, 0, 413527int);
    let e: nat = 4 * e + 0;
    assert(quad(102990int, 64int, 1, 413527int) == 295368int) by (nonlinear_arith);
    lemma_quad(64int, e, 102990int, 1, 413527int);
    let e: nat = 4 * e + 1;
    assert(e == 1681int);
}

proof fn lemma_power_413527_c()
    ensures
        pow(295368int, 41nat) % 413527int == 1int,
{
    lemma_pow0(295368int);
    let e: nat = 0;
    assert(quad(1int, 295368int, 2, 413527int) == 50707int) by (nonlinear_arith);
    lemma_quad(295368int, e, 1int, 2, 413527int);
    let e: nat = 4 * e + 2;
    assert(quad(50707int, 295368int, 2, 413527int) == 87894int) by (nonlinear_arith);
    lemma_quad(295368int, e, 50707int, 2, 413527int);
    let e: nat = 4 * e + 2;
    assert(quad(87894int, 295368int, 1, 413527int) == 1int) by (nonlinear_arith);
    lemma_quad(295368int, e, 87894int, 1, 413527int);
    let e: nat = 4 * e + 1;
    assert(e == 41int);
}

proof fn lemma_prime_413527()
    ensures
        is_prime(413527int),
{
    lemma_prime_41();
    assert(pow(41int, 3) == 68921int) by {
        reveal_with_fuel(pow, 4);
    }
    lemma_pow0(2);
    lemma_power_413527_a();
    lemma_power_413527_c();
    lemma_power_of_power(64int, 1681nat, 295368int, 41nat, 413527int);
    lemma_certify(413527int, 64int, 68921nat, 41int, 3, 295368int, 269419int);
    lemma_certified_prime(413527int, 64int, 68921nat, 41int, 3, 2, 0, 68921int, 1, 68922int);
}

proof fn lemma_power_6942563_a()
    ensures
        pow(1510002int, 977nat) % 6942563int == 1142703int,
{
    lemma_pow0(1510002int);
    let e: nat = 0;
    assert(quad(1int, 1510002int, 3, 6942563int) == 4525587int) by (nonlinear_arith);
    lemma_quad(1510002int, e, 1int, 3, 6942563int);
    let e: nat = 4 * e + 3;
    assert(quad(4525587int, 1510002int, 3, 6942563int) == 5794717int) by (nonlinear_arith);
    lemma_quad(1510002int, e, 4525587int, 3, 6942563int);
    let e: nat = 4 * e + 3;
    assert(quad(5794717int, 1510002int, 1, 6942563int) == 6133237int) by (nonlinear_arith);
    lemma_quad(1510002int, e, 5794717int, 1, 6942563int);
    let e: nat = 4 * e + 1;
    assert(quad(6133237int, 1510002int, 0, 6942563int) == 492038int) by (nonlinear_arith);
    lemma_quad(1510002int, e, 6133237int, 0, 6942563int);
    let e: nat = 4 * e + 0;
    assert(quad(492038int, 1510002int, 1, 6942563int) == 1142703int) by (nonlinear_arith);
    lemma_quad(1510002int, e, 492038int, 1, 6942563int);
    let e: nat = 4 * e + 1;
    assert(e == 977int);
}

proof fn lemma_power_6942563_b()
    ensures
        pow(1510002int, 11nat) % 6942563int == 5061822int,
{
    lemma_pow0(1510002int);
    let e: nat = 0;
    assert(quad(1int, 1510002int, 2, 6942563int) == 1729292int) by (nonlinear_arith);
    lemma_quad(1510002int, e, 1int, 2, 6942563int);
    let e: nat = 4 * e + 2;
    assert(quad(1729292int, 1510002int, 3, 6942563int) == 5061822int) by (nonlinear_arith);
    lemma_quad(1510002int, e, 1729292int, 3, 6942563int);
    let e: nat = 4 * e + 3;
    assert(e == 11int);
}

proof fn lemma_power_6942563_c()
    ensures
        pow(1142703int, 11nat) % 6942563int == 1int,
{
    lemma_pow0(1142703int);
    let e: nat = 0;
    assert(quad(1int, 1142703int, 2, 6942563int) == 5954606int) by (nonlinear_arith);
    lemma_quad(1142703int, e, 1int, 2, 6942563int);
    let e: nat = 4 * e + 2;
    assert(quad(5954606int, 1142703int, 3, 6942563int) == 1int) by (nonlinear_arith);
    lemma_quad(1142703int, e, 5954606int, 3, 6942563int);
    let e: nat = 4 * e + 3;
    assert(e == 11int);
}

proof fn lemma_prime_6942563()
    ensures
        is_prime(6942563int),
{
    lemma_prime_11();
    lemma_pow1(11int);
    lemma_prime_977();
    lemma_pow1(977int);
    lemma_power_6942563_a();
    lemma_power_6942563_b();
    lemma_power_6942563_c();
    lemma_power_of_power(1510002int, 977nat, 1142703int, 11nat, 6942563int);
    lemma_certify(6942563int, 1510002int, 10747nat, 11int, 1, 1142703int, 1136927int);
    lemma_certify(6942563int, 1510002int, 10747nat, 977int, 1, 5061822int, 1778843int);
    lemma_certified_prime(6942563int, 1510002int, 10747nat, 11int, 1, 977int, 1, 11int, 977int, 10748int);
}

proof fn lemma_power_41655379_c()
    ensures
        pow(64int, 6942563nat) % 41655379int == 1int,
{
    lemma_pow0(64int);
    let e: nat = 0;
    assert(quad(1int, 64int, 1, 41655379int) == 64int) by (nonlinear_arith);
    lemma_quad(64int, e, 1int, 1, 41655379int);
    let e: nat = 4 * e + 1;
    assert(quad(64int, 64int, 2, 41655379int) == 29756765int) by (nonlinear_arith);
    lemma_quad(64int, e, 64int, 2, 41655379int);
    let e: nat = 4 * e + 2;
    assert(quad(29756765int, 64int, 2, 41655379int) == 14886132int) by (nonlinear_arith);
    lemma_quad(64int, e, 29756765int, 2, 41655379int);
    let e: nat = 4 * e + 2;
    assert(quad(14886132int, 64int, 1, 41655379int) == 28398749int) by (nonlinear_arith);
    lemma_quad(64int, e, 14886132int, 1, 41655379int);
    let e: nat = 4 * e + 1;
    assert(quad(28398749int, 64int, 3, 41655379int) == 35759984int) by (nonlinear_arith);
    lemma_quad(64int, e, 28398749int, 3, 41655379int);
    let e: nat = 4 * e + 3;
    assert(quad(35759984int, 64int, 2, 41655379int) == 17223455int) by (nonlinear_arith);
    lemma_quad(64int, e, 35759984int, 2, 41655379int);
    let e: nat = 4 * e + 2;
    assert(quad(17223455int, 64int, 3, 41655379int) == 13989901int) by (nonlinear_arith);
    lemma_quad(64int, e, 17223455int, 3, 41655379int);
    let e: nat = 4 * e + 3;
    assert(quad(13989901int, 64int, 3, 41655379int) == 2004257int) by (nonlinear_arith);
    lemma_quad(64int, e, 13989901int, 3, 41655379int);
    let e: nat = 4 * e + 3;
    assert(quad(2004257int, 64int, 1, 41655379int) == 3750359int) by (nonlinear_arith);
    lemma_quad(64int, e, 2004257int, 1, 41655379int);
    let e: nat = 4 * e + 1;
    assert(quad(3750359int, 64int, 2, 41655379int) == 38267725int) by (nonlinear_arith);
    lemma_quad(64int, e, 3750359int, 2, 41655379int);
    let e: nat = 4 * e + 2;
    assert(quad(38267725int, 64int, 0, 41655379int) == 35645512int) by (nonlinear_arith);
    lemma_quad(64int, e, 38267725int, 0, 41655379int);
    let e: nat = 4 * e + 0;
    assert(quad(35645512int, 64int, 3, 41655379int) == 1int) by (nonlinear_arith);
    lemma_quad(64int, e, 35645512int, 3, 41655379int);
    let e: nat = 4 * e + 3;
    assert(e == 6942563int);
}

proof fn lemma_prime_41655379()
    ensures
        is_prime(41655379int),
{
    lemma_prime_6942563();
    lemma_pow1(6942563int);
    lemma_pow0(2);
    lemma_pow1(64int);
    lemma_power_41655379_c();
    lemma_certify(41655379int, 64int, 6942563nat, 6942563int, 1, 64int, 1322393int);
    lemma_certified_prime(41655379int, 64int, 6942563nat, 6942563int, 1, 2, 0, 6942563int, 1, 6942564int);
}

spec fn prime_22160661629() -> int {
    0x528e0dc7dint
}

spec fn base_22160661629() -> int {
    0x402309d30int
}

proof fn lemma_power_22160661629_c()
    ensures
        pow(base_22160661629(), 41655379nat) % prime_22160661629() == 1int,
{
    lemma_pow0(base_22160661629());
    let e: nat = 0;
    assert(quad(1int, base_22160661629(), 2, prime_22160661629()) == 0x1207af508int) by (nonlinear_arith);
    lemma_quad(base_22160661629(), e, 1int, 2, prime_22160661629());
    let e: nat = 4 * e + 2;
    assert(quad(0x1207af508int, base_22160661629(), 1, prime_22160661629()) == 0x14299a7a5int) by (nonlinear_arith);
    lemma_quad(base_22160661629(), e, 0x1207af508int, 1, prime_22160661629());
    let e: nat = 4 * e + 1;
    assert(quad(0x14299a7a5int, base_22160661629(), 3, prime_22160661629()) == 3574453318int) by (nonlinear_arith);
    lemma_quad(base_22160661629(), e, 0x14299a7a5int, 3, prime_22160661629());
    let e: nat = 4 * e + 3;
    assert(quad(3574453318int, base_22160661629(), 2, prime_22160661629()) == 0x16e5e7652int) by (nonlinear_arith);
    lemma_quad(base_22160661629(), e, 3574453318int, 2, prime_22160661629());
    let e: nat = 4 * e + 2;
    assert(quad(0x16e5e7652int, base_22160661629(), 3, prime_22160661629()) == 0x1e4d0fde9int) by (nonlinear_arith);
    lemma_quad(base_22160661629(), e, 0x16e5e7652int, 3, prime_22160661629());
    let e: nat = 4 * e + 3;
    assert(quad(0x1e4d0fde9int, base_22160661629(), 2, prime_22160661629()) == 0x2b52e3793int) by (nonlinear_arith);
    lemma_quad(base_22160661629(), e, 0x1e4d0fde9int, 2, prime_22160661629());
    let e: nat = 4 * e + 2;
    assert(quad(0x2b52e3793int, base_22160661629(), 1, prime_22160661629()) == 0x3913278f4int) by (nonlinear_arith);
    lemma_quad(base_22160661629(), e, 0x2b52e3793int, 1, prime_22160661629());
    let e: nat = 4 * e + 1;
    assert(quad(0x3913278f4int, base_22160661629(), 3, prime_22160661629()) == 0x1dd9e2141int) by (nonlinear_arith);
    lemma_quad(base_22160661629(), e, 0x3913278f4int, 3, prime_22160661629());
    let e: nat = 4 * e + 3;
    assert(quad(0x1dd9e2141int, base_22160661629(), 0, prime_22160661629()) == 0x4de34a0b3int) by (nonlinear_arith);
    lemma_quad(base_22160661629(), e, 0x1dd9e2141int, 0, prime_22160661629());
    let e: nat = 4 * e + 0;
    assert(quad(0x4de34a0b3int, base_22160661629(), 1, prime_22160661629()) == 0x1301ea00aint) by (nonlinear_arith);
    lemma_quad(base_22160661629(), e, 0x4de34a0b3int, 1, prime_22160661629());
    let e: nat = 4 * e + 1;
    assert(quad(0x1301ea00aint, base_22160661629(), 1, prime_22160661629()) == 0x4d547e338int) by (nonlinear_arith);
    lemma_quad(base_22160661629(), e, 0x1301ea00aint, 1, prime_22160661629());
    let e: nat = 4 * e + 1;
    assert(quad(0x4d547e338int, base_22160661629(), 0, prime_22160661629()) == 0x5083ae44cint) by (nonlinear_arith);
    lemma_quad(base_22160661629(), e, 0x4d547e338int, 0, prime_22160661629());
    let e: nat = 4 * e + 0;
    assert(quad(0x5083ae44cint, base_22160661629(), 3, prime_22160661629()) == 1int) by (nonlinear_arith);
    lemma_quad(base_22160661629(), e, 0x5083ae44cint, 3, prime_22160661629());
    let e: nat = 4 * e + 3;
    assert(e == 41655379int);
}

proof fn lemma_prime_22160661629()
    ensures
        is_prime(prime_22160661629()),
{
    lemma_prime_41655379();
    lemma_pow1(41655379int);
    lemma_pow0(2);
    lemma_pow1(base_22160661629());
    assert(pow(base_22160661629(), 1) % prime_22160661629() == 0x402309d30int);
    lemma_power_22160661629_c();
    lemma_certify(prime_22160661629(), base_22160661629(), 41655379nat, 41655379int, 1, 0x402309d30int, 0x3e52cd804int);
    lemma_certified_prime(prime_22160661629(), base_22160661629(), 41655379nat, 41655379int, 1, 2, 0, 41655379int, 1, 41655380int);
}

spec fn prime_49_bits() -> int {
    0x127aa16eeaabbint
}

spec fn base_49_bits() -> int {
    0xcc1591f398d7int
}

proof fn lemma_power_49_bits_a()
    ensures
        pow(base_49_bits(), 413527nat) % prime_49_bits() == 0x75c1192b07c9int,
{
    lemma_pow0(base_49_bits());
    let e: nat = 0;
    assert(quad(1int, base_49_bits(), 1, prime_49_bits()) == 0xcc1591f398d7int) by (nonlinear_arith);
    lemma_quad(base_49_bits(), e, 1int, 1, prime_49_bits());
    let e: nat = 4 * e + 1;
    assert(quad(0xcc1591f398d7int, base_49_bits(), 2, prime_49_bits()) == 0x118971e63e866int) by (nonlinear_arith);
    lemma_quad(base_49_bits(), e, 0xcc1591f398d7int, 2, prime_49_bits());
    let e: nat = 4 * e + 2;
    assert(quad(0x118971e63e866int, base_49_bits(), 1, prime_49_bits()) == 0xb4ef4834a89bint) by (nonlinear_arith);
    lemma_quad(base_49_bits(), e, 0x118971e63e866int, 1, prime_49_bits());
    let e: nat = 4 * e + 1;
    assert(quad(0xb4ef4834a89bint, base_49_bits(), 0, prime_49_bits()) == 0xc4e52e692dadint) by (nonlinear_arith);
    lemma_quad(base_49_bits(), e, 0xb4ef4834a89bint, 0, prime_49_bits());
    let e: nat = 4 * e + 0;
    assert(quad(0xc4e52e692dadint, base_49_bits(), 3, prime_49_bits()) == 0x4d95930ee93int) by (nonlinear_arith);
    lemma_quad(base_49_bits(), e, 0xc4e52e692dadint, 3, prime_49_bits());
    let e: nat = 4 * e + 3;
    assert(quad(0x4d95930ee93int, base_49_bits(), 3, prime_49_bits()) == 0x2960351961f0int) by (nonlinear_arith);
    lemma_quad(base_49_bits(), e, 0x4d95930ee93int, 3, prime_49_bits());
    let e: nat = 4 * e + 3;
    assert(quad(0x2960351961f0int, base_49_bits(), 1, prime_49_bits()) == 0x1176ac5be9c09int) by (nonlinear_arith);
    lemma_quad(base_49_bits(), e, 0x2960351961f0int, 1, prime_49_bits());
    let e: nat = 4 * e + 1;
    assert(quad(0x1176ac5be9c09int, base_49_bits(), 1, prime_49_bits()) == 0x421624254715int) by (nonlinear_arith);
    lemma_quad(base_49_bits(), e, 0x1176ac5be9c09int, 1, prime_49_bits());
    let e: nat = 4 * e + 1;
    assert(quad(0x421624254715int, base_49_bits(), 1, prime_49_bits()) == 0x4a71ec6d108int) by (nonlinear_arith);
    lemma_quad(base_49_bits(), e, 0x421624254715int, 1, prime_49_bits());
    let e: nat = 4 * e + 1;
    assert(quad(0x4a71ec6d108int, base_49_bits(), 3, prime_49_bits()) == 0x75c1192b07c9int) by (nonlinear_arith);
    lemma_quad(base_49_bits(), e, 0x4a71ec6d108int, 3, prime_49_bits());
    let e: nat = 4 * e + 3;
    assert(e == 413527int);
}

proof fn lemma_power_49_bits_b()
    ensures
        pow(base_49_bits(), 509nat) % prime_49_bits() == 0x5cc69cb9deb8int,
{
    lemma_pow0(base_49_bits());
    let e: nat = 0;
    assert(quad(1int, base_49_bits(), 1, prime_49_bits()) == 0xcc1591f398d7int) by (nonlinear_arith);
    lemma_quad(base_49_bits(), e, 1int, 1, prime_49_bits());
    let e: nat = 4 * e + 1;
    assert(quad(0xcc1591f398d7int, base_49_bits(), 3, prime_49_bits()) == 0x7c8725557f91int) by (nonlinear_arith);
    lemma_quad(base_49_bits(), e, 0xcc1591f398d7int, 3, prime_49_bits());
    let e: nat = 4 * e + 3;
    assert(quad(0x7c8725557f91int, base_49_bits(), 3, prime_49_bits()) == 0x994c880e6237int) by (nonlinear_arith);
    lemma_quad(base_49_bits(), e, 0x7c8725557f91int, 3, prime_49_bits());
    let e: nat = 4 * e + 3;
    assert(quad(0x994c880e6237int, base_49_bits(), 3, prime_49_bits()) == 0xf064d9c54e88int) by (nonlinear_arith);
    lemma_quad(base_49_bits(), e, 0x994c880e6237int, 3, prime_49_bits());
    let e: nat = 4 * e + 3;
    assert(quad(0xf064d9c54e88int, base_49_bits(), 1, prime_49_bits()) == 0x5cc69cb9deb8int) by (nonlinear_arith);
    lemma_quad(base_49_bits(), e, 0xf064d9c54e88int, 1, prime_49_bits());
    let e: nat = 4 * e + 1;
    assert(e == 509int);
}

spec fn root_49_bits() -> int {
    0x75c1192b07c9int
}

proof fn lemma_power_49_bits_c()
    ensures
        pow(root_49_bits(), 509nat) % prime_49_bits() == 1int,
{
    lemma_pow0(root_49_bits());
    let e: nat = 0;
    assert(quad(1int, root_49_bits(), 1, prime_49_bits()) == 0x75c1192b07c9int) by (nonlinear_arith);
    lemma_quad(root_49_bits(), e, 1int, 1, prime_49_bits());
    let e: nat = 4 * e + 1;
    assert(quad(0x75c1192b07c9int, root_49_bits(), 3, prime_49_bits()) == 0x5701958fb1edint) by (nonlinear_arith);
    lemma_quad(root_49_bits(), e, 0x75c1192b07c9int, 3, prime_49_bits());
    let e: nat = 4 * e + 3;
    assert(quad(0x5701958fb1edint, root_49_bits(), 3, prime_49_bits()) == 0xb068779caa8fint) by (nonlinear_arith);
    lemma_quad(root_49_bits(), e, 0x5701958fb1edint, 3, prime_49_bits());
    let e: nat = 4 * e + 3;
    assert(quad(0xb068779caa8fint, root_49_bits(), 3, prime_49_bits()) == 0x2647471d4b79int) by (nonlinear_arith);
    lemma_quad(root_49_bits(), e, 0xb068779caa8fint, 3, prime_49_bits());
    let e: nat = 4 * e + 3;
    assert(quad(0x2647471d4b79int, root_49_bits(), 1, prime_49_bits()) == 1int) by (nonlinear_arith);
    lemma_quad(root_49_bits(), e, 0x2647471d4b79int, 1, prime_49_bits());
    let e: nat = 4 * e + 1;
    assert(e == 509int);
}

proof fn lemma_prime_49_bits()
    ensures
        is_prime(prime_49_bits()),
{
    lemma_prime_509();
    lemma_pow1(509int);
    lemma_prime_413527();
    lemma_pow1(413527int);
    lemma_power_49_bits_a();
    lemma_power_49_bits_b();
    lemma_power_49_bits_c();
    lemma_power_of_power(base_49_bits(), 413527nat, root_49_bits(), 509nat, prime_49_bits());
    lemma_certify(prime_49_bits(), base_49_bits(), 210485243nat, 509int, 1, 0x75c1192b07c9int, 0x690cc1734b03int);
    lemma_certify(prime_49_bits(), base_49_bits(), 210485243nat, 413527int, 1, 0x5cc69cb9deb8int, 0x11ff0daf0dceeint);
    lemma_certified_prime(prime_49_bits(), base_49_bits(), 210485243nat, 509int, 1, 413527int, 1, 509int, 413527int, 210485244int);
}

spec fn prime_43_bits() -> int {
    0x4c3db7b60c3int
}

spec fn base_43_bits() -> int {
    0xf3c6baa72aint
}

proof fn lemma_power_43_bits_a()
    ensures
        pow(base_43_bits(), 12149nat) % prime_43_bits() == 0x2640855b824int,
{
    lemma_pow0(base_43_bits());
    let e: nat = 0;
    assert(quad(1int, base_43_bits(), 2, prime_43_bits()) == 0x1b18a3d86bcint) by (nonlinear_arith);
    lemma_quad(base_43_bits(), e, 1int, 2, prime_43_bits());
    let e: nat = 4 * e + 2;
    assert(quad(0x1b18a3d86bcint, base_43_bits(), 3, prime_43_bits()) == 0x2007475652aint) by (nonlinear_arith);
    lemma_quad(base_43_bits(), e, 0x1b18a3d86bcint, 3, prime_43_bits());
    let e: nat = 4 * e + 3;
    assert(quad(0x2007475652aint, base_43_bits(), 3, prime_43_bits()) == 0x1a941239a24int) by (nonlinear_arith);
    lemma_quad(base_43_bits(), e, 0x2007475652aint, 3, prime_43_bits());
    let e: nat = 4 * e + 3;
    assert(quad(0x1a941239a24int, base_43_bits(), 1, prime_43_bits()) == 0x1da1ec5d49bint) by (nonlinear_arith);
    lemma_quad(base_43_bits(), e, 0x1a941239a24int, 1, prime_43_bits());
    let e: nat = 4 * e + 1;
    assert(quad(0x1da1ec5d49bint, base_43_bits(), 3, prime_43_bits()) == 0x26c685f2edbint) by (nonlinear_arith);
    lemma_quad(base_43_bits(), e, 0x1da1ec5d49bint, 3, prime_43_bits());
    let e: nat = 4 * e + 3;
    assert(quad(0x26c685f2edbint, base_43_bits(), 1, prime_43_bits()) == 0x12b0bdd24f7int) by (nonlinear_arith);
    lemma_quad(base_43_bits(), e, 0x26c685f2edbint, 1, prime_43_bits());
    let e: nat = 4 * e + 1;
    assert(quad(0x12b0bdd24f7int, base_43_bits(), 1, prime_43_bits()) == 0x2640855b824int) by (nonlinear_arith);
    lemma_quad(base_43_bits(), e, 0x12b0bdd24f7int, 1, prime_43_bits());
    let e: nat = 4 * e + 1;
    assert(e == 12149int);
}

proof fn lemma_power_43_bits_b()
    ensures
        pow(base_43_bits(), 757nat) % prime_43_bits() == 0x113fdc045dfint,
{
    lemma_pow0(base_43_bits());
    let e: nat = 0;
    assert(quad(1int, base_43_bits(), 2, prime_43_bits()) == 0x1b18a3d86bcint) by (nonlinear_arith);
    lemma_quad(base_43_bits(), e, 1int, 2, prime_43_bits());
    let e: nat = 4 * e + 2;
    assert(quad(0x1b18a3d86bcint, base_43_bits(), 3, prime_43_bits()) == 0x2007475652aint) by (nonlinear_arith);
    lemma_quad(base_43_bits(), e, 0x1b18a3d86bcint, 3, prime_43_bits());
    let e: nat = 4 * e + 3;
    assert(quad(0x2007475652aint, base_43_bits(), 3, prime_43_bits()) == 0x1a941239a24int) by (nonlinear_arith);
    lemma_quad(base_43_bits(), e, 0x2007475652aint, 3, prime_43_bits());
    let e: nat = 4 * e + 3;
    assert(quad(0x1a941239a24int, base_43_bits(), 1, prime_43_bits()) == 0x1da1ec5d49bint) by (nonlinear_arith);
    lemma_quad(base_43_bits(), e, 0x1a941239a24int, 1, prime_43_bits());
    let e: nat = 4 * e + 1;
    assert(quad(0x1da1ec5d49bint, base_43_bits(), 1, prime_43_bits()) == 0x113fdc045dfint) by (nonlinear_arith);
    lemma_quad(base_43_bits(), e, 0x1da1ec5d49bint, 1, prime_43_bits());
    let e: nat = 4 * e + 1;
    assert(e == 757int);
}

spec fn root_43_bits() -> int {
    0x2640855b824int
}

proof fn lemma_power_43_bits_c()
    ensures
        pow(root_43_bits(), 757nat) % prime_43_bits() == 1int,
{
    lemma_pow0(root_43_bits());
    let e: nat = 0;
    assert(quad(1int, root_43_bits(), 2, prime_43_bits()) == 0x31bbbde7b04int) by (nonlinear_arith);
    lemma_quad(root_43_bits(), e, 1int, 2, prime_43_bits());
    let e: nat = 4 * e + 2;
    assert(quad(0x31bbbde7b04int, root_43_bits(), 3, prime_43_bits()) == 0x35e113d98a0int) by (nonlinear_arith);
    lemma_quad(root_43_bits(), e, 0x31bbbde7b04int, 3, prime_43_bits());
    let e: nat = 4 * e + 3;
    assert(quad(0x35e113d98a0int, root_43_bits(), 3, prime_43_bits()) == 0x103a54d8253int) by (nonlinear_arith);
    lemma_quad(root_43_bits(), e, 0x35e113d98a0int, 3, prime_43_bits());
    let e: nat = 4 * e + 3;
    assert(quad(0x103a54d8253int, root_43_bits(), 1, prime_43_bits()) == 0x3f1fa974383int) by (nonlinear_arith);
    lemma_quad(root_43_bits(), e, 0x103a54d8253int, 1, prime_43_bits());
    let e: nat = 4 * e + 1;
    assert(quad(0x3f1fa974383int, root_43_bits(), 1, prime_43_bits()) == 1int) by (nonlinear_arith);
    lemma_quad(root_43_bits(), e, 0x3f1fa974383int, 1, prime_43_bits());
    let e: nat = 4 * e + 1;
    assert(e == 757int);
}

proof fn lemma_prime_43_bits()
    ensures
        is_prime(prime_43_bits()),
{
    lemma_prime_757();
    lemma_pow1(757int);
    lemma_prime_12149();
    lemma_pow1(12149int);
    lemma_power_43_bits_a();
    lemma_power_43_bits_b();
    lemma_power_43_bits_c();
    lemma_power_of_power(base_43_bits(), 12149nat, root_43_bits(), 757nat, prime_43_bits());
    lemma_certify(prime_43_bits(), base_43_bits(), 9196793nat, 757int, 1, 0x2640855b824int, 0x24bd957d126int);
    lemma_certify(prime_43_bits(), base_43_bits(), 9196793nat, 12149int, 1, 0x113fdc045dfint, 0x1ad694ada9dint);
    lemma_certified_prime(prime_43_bits(), base_43_bits(), 9196793nat, 757int, 1, 12149int, 1, 757int, 12149int, 9196794int);
}

spec fn prime_114_bits() -> int {
    0x2021bf7ef46927e5bb403d54ee9cdint
}

spec fn base_114_bits() -> int {
    0xc46793e2ff1592039afcd7c436int
}

proof fn lemma_power_114_bits_a()
    ensures
        pow(base_114_bits(), 294793nat) % prime_114_bits() == 0xc1a78ee99a869bef810fec33de5aint,
{
    lemma_pow0(base_114_bits());
    let e: nat = 0;
    assert(quad(1int, base_114_bits(), 1, prime_114_bits()) == 0xc46793e2ff1592039afcd7c436int) by (nonlinear_arith);
    lemma_quad(base_114_bits(), e, 1int, 1, prime_114_bits());
    let e: nat = 4 * e + 1;
    assert(quad(0xc46793e2ff1592039afcd7c436int, base_114_bits(), 0, prime_114_bits()) == 0xcd9a1a94f9ea2946527cfa6360abint) by (nonlinear_arith);
    lemma_quad(base_114_bits(), e, 0xc46793e2ff1592039afcd7c436int, 0, prime_114_bits());
    let e: nat = 4 * e + 0;
    assert(quad(0xcd9a1a94f9ea2946527cfa6360abint, base_114_bits(), 1, prime_114_bits()) == 0x200b03747f34a577e2a379acdd6b4int) by (nonlinear_arith);
    lemma_quad(base_114_bits(), e, 0xcd9a1a94f9ea2946527cfa6360abint, 1, prime_114_bits());
    let e: nat = 4 * e + 1;
    assert(quad(0x200b03747f34a577e2a379acdd6b4int, base_114_bits(), 3, prime_114_bits()) == 0x1f90197d4b12933552842dc9fc7d4int) by (nonlinear_arith);
    lemma_quad(base_114_bits(), e, 0x200b03747f34a577e2a379acdd6b4int, 3, prime_114_bits());
    let e: nat = 4 * e + 3;
    assert(quad(0x1f90197d4b12933552842dc9fc7d4int, base_114_bits(), 3, prime_114_bits()) == 0xc9a1e7d1b595195b483b1e3ba9e7int) by (nonlinear_arith);
    lemma_quad(base_114_bits(), e, 0x1f90197d4b12933552842dc9fc7d4int, 3, prime_114_bits());
    let e: nat = 4 * e + 3;
    assert(quad(0xc9a1e7d1b595195b483b1e3ba9e7int, base_114_bits(), 3, prime_114_bits()) == 0x199054c2690ce6935759706ed962dint) by (nonlinear_arith);
    lemma_quad(base_114_bits(), e, 0xc9a1e7d1b595195b483b1e3ba9e7int, 3, prime_114_bits());
    let e: nat = 4 * e + 3;
    assert(quad(0x199054c2690ce6935759706ed962dint, base_114_bits(), 2, prime_114_bits()) == 0xbce00ddc2a008d27afa6141fdea3int) by (nonlinear_arith);
    lemma_quad(base_114_bits(), e, 0x199054c2690ce6935759706ed962dint, 2, prime_114_bits());
    let e: nat = 4 * e + 2;
    assert(quad(0xbce00ddc2a008d27afa6141fdea3int, base_114_bits(), 0, prime_114_bits()) == 0xc28e8372500684a9dc3d2c51b2e6int) by (nonlinear_arith);
    lemma_quad(base_114_bits(), e, 0xbce00ddc2a008d27afa6141fdea3int, 0, prime_114_bits());
    let e: nat = 4 * e + 0;
    assert(quad(0xc28e8372500684a9dc3d2c51b2e6int, base_114_bits(), 2, prime_114_bits()) == 0x16143f89e8fced176a1634f3cf3d2int) by (nonlinear_arith);
    lemma_quad(base_114_bits(), e, 0xc28e8372500684a9dc3d2c51b2e6int, 2, prime_114_bits());
    let e: nat = 4 * e + 2;
    assert(quad(0x16143f89e8fced176a1634f3cf3d2int, base_114_bits(), 1, prime_114_bits()) == 0xc1a78ee99a869bef810fec33de5aint) by (nonlinear_arith);
    lemma_quad(base_114_bits(), e, 0x16143f89e8fced176a1634f3cf3d2int, 1, prime_114_bits());
    let e: nat = 4 * e + 1;
    assert(e == 294793int);
}

proof fn lemma_power_114_bits_b()
    ensures
        pow(base_114_bits(), 0x4c3db7b60c3nat) % prime_114_bits() == 0x6f40cf7d4a55b055f6e74e941fbint,
{
    lemma_pow0(base_114_bits());
    let e: nat = 0;
    assert(quad(1int, base_114_bits(), 1, prime_114_bits()) == 0xc46793e2ff1592039afcd7c436int) by (nonlinear_arith);
    lemma_quad(base_114_bits(), e, 1int, 1, prime_114_bits());
    let e: nat = 4 * e + 1;
    assert(quad(0xc46793e2ff1592039afcd7c436int, base_114_bits(), 0, prime_114_bits()) == 0xcd9a1a94f9ea2946527cfa6360abint) by (nonlinear_arith);
    lemma_quad(base_114_bits(), e, 0xc46793e2ff1592039afcd7c436int, 0, prime_114_bits());
    let e: nat = 4 * e + 0;
    assert(quad(0xcd9a1a94f9ea2946527cfa6360abint, base_114_bits(), 3, prime_114_bits()) == 0x18c990d92c631e25c2ecf98f52035int) by (nonlinear_arith);
    lemma_quad(base_114_bits(), e, 0xcd9a1a94f9ea2946527cfa6360abint, 3, prime_114_bits());
    let e: nat = 4 * e + 3;
    assert(quad(0x18c990d92c631e25c2ecf98f52035int, base_114_bits(), 0, prime_114_bits()) == 0x3673ef2062692e3d705eac0f850bint) by (nonlinear_arith);
    lemma_quad(base_114_bits(), e, 0x18c990d92c631e25c2ecf98f52035int, 0, prime_114_bits());
    let e: nat = 4 * e + 0;
    assert(quad(0x3673ef2062692e3d705eac0f850bint, base_114_bits(), 0, prime_114_bits()) == 0x1634de6d5e51af5a75c6097714074int) by (nonlinear_arith);
    lemma_quad(base_114_bits(), e, 0x3673ef2062692e3d705eac0f850bint, 0, prime_114_bits());
    let e: nat = 4 * e + 0;
    assert(quad(0x1634de6d5e51af5a75c6097714074int, base_114_bits(), 3, prime_114_bits()) == 0xb40337e75331381214bf57d8be15int) by (nonlinear_arith);
    lemma_quad(base_114_bits(), e, 0x1634de6d5e51af5a75c6097714074int, 3, prime_114_bits());
    let e: nat = 4 * e + 3;
    assert(quad(0xb40337e75331381214bf57d8be15int, base_114_bits(), 3, prime_114_bits()) == 0xf8d824efe1494edeb73dad46296int) by (nonlinear_arith);
    lemma_quad(base_114_bits(), e, 0xb40337e75331381214bf57d8be15int, 3, prime_114_bits());
    let e: nat = 4 * e + 3;
    assert(quad(0xf8d824efe1494edeb73dad46296int, base_114_bits(), 1, prime_114_bits()) == 0x1252ee85c6992164343ab99cecf2bint) by (nonlinear_arith);
    lemma_quad(base_114_bits(), e, 0xf8d824efe1494edeb73dad46296int, 1, prime_114_bits());
    let e: nat = 4 * e + 1;
    assert(quad(0x1252ee85c6992164343ab99cecf2bint, base_114_bits(), 2, prime_114_bits()) == 0x32e392dd053535246651a32f1025int) by (nonlinear_arith);
    lemma_quad(base_114_bits(), e, 0x1252ee85c6992164343ab99cecf2bint, 2, prime_114_bits());
    let e: nat = 4 * e + 2;
    assert(quad(0x32e392dd053535246651a32f1025int, base_114_bits(), 3, prime_114_bits()) == 0xc258b2d262beeeeb64de592b1383int) by (nonlinear_arith);
    lemma_quad(base_114_bits(), e, 0x32e392dd053535246651a32f1025int, 3, prime_114_bits());
    let e: nat = 4 * e + 3;
    assert(quad(0xc258b2d262beeeeb64de592b1383int, base_114_bits(), 1, prime_114_bits()) == 0x1d6a4e291864d4e5e56e6c7e7e8a0int) by (nonlinear_arith);
    lemma_quad(base_114_bits(), e, 0xc258b2d262beeeeb64de592b1383int, 1, prime_114_bits());
    let e: nat = 4 * e + 1;
    assert(quad(0x1d6a4e291864d4e5e56e6c7e7e8a0int, base_114_bits(), 3, prime_114_bits()) == 0xfcf259c0b9fc2a67535efb610adcint) by (nonlinear_arith);
    lemma_quad(base_114_bits(), e, 0x1d6a4e291864d4e5e56e6c7e7e8a0int, 3, prime_114_bits());
    let e: nat = 4 * e + 3;
    assert(quad(0xfcf259c0b9fc2a67535efb610adcint, base_114_bits(), 2, prime_114_bits()) == 0x168cb03d2c7bc709a48027615c908int) by (nonlinear_arith);
    lemma_quad(base_114_bits(), e, 0xfcf259c0b9fc2a67535efb610adcint, 2, prime_114_bits());
    let e: nat = 4 * e + 2;
    assert(quad(0x168cb03d2c7bc709a48027615c908int, base_114_bits(), 3, prime_114_bits()) == 0x11cfc4653d0cbaaf834648026627cint) by (nonlinear_arith);
    lemma_quad(base_114_bits(), e, 0x168cb03d2c7bc709a48027615c908int, 3, prime_114_bits());
    let e: nat = 4 * e + 3;
    assert(quad(0x11cfc4653d0cbaaf834648026627cint, base_114_bits(), 1, prime_114_bits()) == 0x15b4dbbc33dbf8c92a429817cf2cfint) by (nonlinear_arith);
    lemma_quad(base_114_bits(), e, 0x11cfc4653d0cbaaf834648026627cint, 1, prime_114_bits());
    let e: nat = 4 * e + 1;
    assert(quad(0x15b4dbbc33dbf8c92a429817cf2cfint, base_114_bits(), 2, prime_114_bits()) == 0x200a09719bdcc9aa1bed84b7dc732int) by (nonlinear_arith);
    lemma_quad(base_114_bits(), e, 0x15b4dbbc33dbf8c92a429817cf2cfint, 2, prime_114_bits());
    let e: nat = 4 * e + 2;
    assert(quad(0x200a09719bdcc9aa1bed84b7dc732int, base_114_bits(), 0, prime_114_bits()) == 0xc622222f5fa04f105e71b01e90a2int) by (nonlinear_arith);
    lemma_quad(base_114_bits(), e, 0x200a09719bdcc9aa1bed84b7dc732int, 0, prime_114_bits());
    let e: nat = 4 * e + 0;
    assert(quad(0xc622222f5fa04f105e71b01e90a2int, base_114_bits(), 0, prime_114_bits()) == 0xccb2f79ece523458a39e09d3d7a2int) by (nonlinear_arith);
    lemma_quad(base_114_bits(), e, 0xc622222f5fa04f105e71b01e90a2int, 0, prime_114_bits());
    let e: nat = 4 * e + 0;
    assert(quad(0xccb2f79ece523458a39e09d3d7a2int, base_114_bits(), 3, prime_114_bits()) == 0x100e38575f8248b9f3776f893d57aint) by (nonlinear_arith);
    lemma_quad(base_114_bits(), e, 0xccb2f79ece523458a39e09d3d7a2int, 3, prime_114_bits());
    let e: nat = 4 * e + 3;
    assert(quad(0x100e38575f8248b9f3776f893d57aint, base_114_bits(), 0, prime_114_bits()) == 0x1c3f30400948d44607d66f9681b30int) by (nonlinear_arith);
    lemma_quad(base_114_bits(), e, 0x100e38575f8248b9f3776f893d57aint, 0, prime_114_bits());
    let e: nat = 4 * e + 0;
    assert(quad(0x1c3f30400948d44607d66f9681b30int, base_114_bits(), 0, prime_114_bits()) == 0x1ea2c038f140e0c535d29efb5d159int) by (nonlinear_arith);
    lemma_quad(base_114_bits(), e, 0x1c3f30400948d44607d66f9681b30int, 0, prime_114_bits());
    let e: nat = 4 * e + 0;
    assert(quad(0x1ea2c038f140e0c535d29efb5d159int, base_114_bits(), 3, prime_114_bits()) == 0x6f40cf7d4a55b055f6e74e941fbint) by (nonlinear_arith);
    lemma_quad(base_114_bits(), e, 0x1ea2c038f140e0c535d29efb5d159int, 3, prime_114_bits());
    let e: nat = 4 * e + 3;
    assert(e == 0x4c3db7b60c3int);
}

spec fn root_114_bits() -> int {
    0xc1a78ee99a869bef810fec33de5aint
}

proof fn lemma_power_114_bits_c()
    ensures
        pow(root_114_bits(), 0x4c3db7b60c3nat) % prime_114_bits() == 1int,
{
    lemma_pow0(root_114_bits());
    let e: nat = 0;
    assert(quad(1int, root_114_bits(), 1, prime_114_bits()) == 0xc1a78ee99a869bef810fec33de5aint) by (nonlinear_arith);
    lemma_quad(root_114_bits(), e, 1int, 1, prime_114_bits());
    let e: nat = 4 * e + 1;
    assert(quad(0xc1a78ee99a869bef810fec33de5aint, root_114_bits(), 0, prime_114_bits()) == 0xa0abaa69923ec5a5bf539b17fadcint) by (nonlinear_arith);
    lemma_quad(root_114_bits(), e, 0xc1a78ee99a869bef810fec33de5aint, 0, prime_114_bits());
    let e: nat = 4 * e + 0;
    assert(quad(0xa0abaa69923ec5a5bf539b17fadcint, root_114_bits(), 3, prime_114_bits()) == 0x1d019e71baa48527caf3c58fb12aeint) by (nonlinear_arith);
    lemma_quad(root_114_bits(), e, 0xa0abaa69923ec5a5bf539b17fadcint, 3, prime_114_bits());
    let e: nat = 4 * e + 3;
    assert(quad(0x1d019e71baa48527caf3c58fb12aeint, root_114_bits(), 0, prime_114_bits()) == 0xa568d91432d0546765123a8bd1f5int) by (nonlinear_arith);
    lemma_quad(root_114_bits(), e, 0x1d019e71baa48527caf3c58fb12aeint, 0, prime_114_bits());
    let e: nat = 4 * e + 0;
    assert(quad(0xa568d91432d0546765123a8bd1f5int, root_114_bits(), 0, prime_114_bits()) == 0x172a9fb8c6c0871fef917b9357b6cint) by (nonlinear_arith);
    lemma_quad(root_114_bits(), e, 0xa568d91432d0546765123a8bd1f5int, 0, prime_114_bits());
    let e: nat = 4 * e + 0;
    assert(quad(0x172a9fb8c6c0871fef917b9357b6cint, root_114_bits(), 3, prime_114_bits()) == 0x1df1b35d7006b5525fd342e33df78int) by (nonlinear_arith);
    lemma_quad(root_114_bits(), e, 0x172a9fb8c6c0871fef917b9357b6cint, 3, prime_114_bits());
    let e: nat = 4 * e + 3;
    assert(quad(0x1df1b35d7006b5525fd342e33df78int, root_114_bits(), 3, prime_114_bits()) == 0x284d38d0f900304d904ad464575int) by (nonlinear_arith);
    lemma_quad(root_114_bits(), e, 0x1df1b35d7006b5525fd342e33df78int, 3, prime_114_bits());
    let e: nat = 4 * e + 3;
    assert(quad(0x284d38d0f900304d904ad464575int, root_114_bits(), 1, prime_114_bits()) == 0x1537032d22ba3600eb5c7ec1e7db0int) by (nonlinear_arith);
    lemma_quad(root_114_bits(), e, 0x284d38d0f900304d904ad464575int, 1, prime_114_bits());
    let e: nat = 4 * e + 1;
    assert(quad(0x1537032d22ba3600eb5c7ec1e7db0int, root_114_bits(), 2, prime_114_bits()) == 0x11f9ece140375c8956f4f00625c1int) by (nonlinear_arith);
    lemma_quad(root_114_bits(), e, 0x1537032d22ba3600eb5c7ec1e7db0int, 2, prime_114_bits());
    let e: nat = 4 * e + 2;
    assert(quad(0x11f9ece140375c8956f4f00625c1int, root_114_bits(), 3, prime_114_bits()) == 0x1661a267a5df7f89b59c72b3dc03aint) by (nonlinear_arith);
    lemma_quad(root_114_bits(), e, 0x11f9ece140375c8956f4f00625c1int, 3, prime_114_bits());
    let e: nat = 4 * e + 3;
    assert(quad(0x1661a267a5df7f89b59c72b3dc03aint, root_114_bits(), 1, prime_114_bits()) == 0x49efc5f9534709f5523b1dde1fccint) by (nonlinear_arith);
    lemma_quad(root_114_bits(), e, 0x1661a267a5df7f89b59c72b3dc03aint, 1, prime_114_bits());
    let e: nat = 4 * e + 1;
    assert(quad(0x49efc5f9534709f5523b1dde1fccint, root_114_bits(), 3, prime_114_bits()) == 0x3316189e3ee7caa5274738236baeint) by (nonlinear_arith);
    lemma_quad(root_114_bits(), e, 0x49efc5f9534709f5523b1dde1fccint, 3, prime_114_bits());
    let e: nat = 4 * e + 3;
    assert(quad(0x3316189e3ee7caa5274738236baeint, root_114_bits(), 2, prime_114_bits()) == 0x1c5b4ffbf651334fe948ac4444cddint) by (nonlinear_arith);
    lemma_quad(root_114_bits(), e, 0x3316189e3ee7caa5274738236baeint, 2, prime_114_bits());
    let e: nat = 4 * e + 2;
    assert(quad(0x1c5b4ffbf651334fe948ac4444cddint, root_114_bits(), 3, prime_114_bits()) == 0x1074b27723a2535e06b483153f109int) by (nonlinear_arith);
    lemma_quad(root_114_bits(), e, 0x1c5b4ffbf651334fe948ac4444cddint, 3, prime_114_bits());
    let e: nat = 4 * e + 3;
    assert(quad(0x1074b27723a2535e06b483153f109int, root_114_bits(), 1, prime_114_bits()) == 0x10ec3bc2462366546fa46a8a1d942int) by (nonlinear_arith);
    lemma_quad(root_114_bits(), e, 0x1074b27723a2535e06b483153f109int, 1, prime_114_bits());
    let e: nat = 4 * e + 1;
    assert(quad(0x10ec3bc2462366546fa46a8a1d942int, root_114_bits(), 2, prime_114_bits()) == 0x11b33fba83ca532f910f1feda6a03int) by (nonlinear_arith);
    lemma_quad(root_114_bits(), e, 0x10ec3bc2462366546fa46a8a1d942int, 2, prime_114_bits());
    let e: nat = 4 * e + 2;
    assert(quad(0x11b33fba83ca532f910f1feda6a03int, root_114_bits(), 0, prime_114_bits()) == 0x1c9feefc1cb9a3aa97bc223eca181int) by (nonlinear_arith);
    lemma_quad(root_114_bits(), e, 0x11b33fba83ca532f910f1feda6a03int, 0, prime_114_bits());
    let e: nat = 4 * e + 0;
    assert(quad(0x1c9feefc1cb9a3aa97bc223eca181int, root_114_bits(), 0, prime_114_bits()) == 0x837b4cc35558b7eb8550aaaa99eeint) by (nonlinear_arith);
    lemma_quad(root_114_bits(), e, 0x1c9feefc1cb9a3aa97bc223eca181int, 0, prime_114_bits());
    let e: nat = 4 * e + 0;
    assert(quad(0x837b4cc35558b7eb8550aaaa99eeint, root_114_bits(), 3, prime_114_bits()) == 0x1acacfcbc2b74555ad2a8aed0c74bint) by (nonlinear_arith);
    lemma_quad(root_114_bits(), e, 0x837b4cc35558b7eb8550aaaa99eeint, 3, prime_114_bits());
    let e: nat = 4 * e + 3;
    assert(quad(0x1acacfcbc2b74555ad2a8aed0c74bint, root_114_bits(), 0, prime_114_bits()) == 0x182b845c515f8def25949d4d6e899int) by (nonlinear_arith);
    lemma_quad(root_114_bits(), e, 0x1acacfcbc2b74555ad2a8aed0c74bint, 0, prime_114_bits());
    let e: nat = 4 * e + 0;
    assert(quad(0x182b845c515f8def25949d4d6e899int, root_114_bits(), 0, prime_114_bits()) == 0x139087adca44ff6b99e530af68ad2int) by (nonlinear_arith);
    lemma_quad(root_114_bits(), e, 0x182b845c515f8def25949d4d6e899int, 0, prime_114_bits());
    let e: nat = 4 * e + 0;
    assert(quad(0x139087adca44ff6b99e530af68ad2int, root_114_bits(), 3, prime_114_bits()) == 1int) by (nonlinear_arith);
    lemma_quad(root_114_bits(), e, 0x139087adca44ff6b99e530af68ad2int, 3, prime_114_bits());
    let e: nat = 4 * e + 3;
    assert(e == 0x4c3db7b60c3int);
}

proof fn lemma_prime_114_bits()
    ensures
        is_prime(prime_114_bits()),
{
    lemma_prime_43_bits();
    lemma_pow1(prime_43_bits());
    lemma_prime_294793();
    lemma_pow1(294793int);
    lemma_power_114_bits_a();
    lemma_power_114_bits_b();
    lemma_power_114_bits_c();
    lemma_power_of_power(base_114_bits(), 294793nat, root_114_bits(), 0x4c3db7b60c3nat, prime_114_bits());
    lemma_certify(prime_114_bits(), base_114_bits(), 0x156f24a02d13855bnat, prime_43_bits(), 1, 0xc1a78ee99a869bef810fec33de5aint, 0xe2db56fca1e3ddc14e86794b5c6fint);
    lemma_certify(prime_114_bits(), base_114_bits(), 0x156f24a02d13855bnat, 294793int, 1, 0x6f40cf7d4a55b055f6e74e941fbint, 0xbd54f2c6bff92e138d43d80b2213int);
    lemma_certified_prime(prime_114_bits(), base_114_bits(), 0x156f24a02d13855bnat, prime_43_bits(), 1, 294793int, 1, 0x4c3db7b60c3int, 294793int, 0x156f24a02d13855cint);
}

spec fn prime_143_bits() -> int {
    0x674e41aa25559f3f6806ca7324f298d5465dint
}

spec fn base_143_bits() -> int {
    0x3306493093511ba521b11cb7c5bbbc000e7bint
}

proof fn lemma_power_143_bits_a()
    ensures
        pow(base_143_bits(), 0x528e0dc7dnat) % prime_143_bits() == 0x1615a4fc9dd1d5260b3068d98852c86a2c65int,
{
    lemma_pow0(base_143_bits());
    let e: nat = 0;
    assert(quad(1int, base_143_bits(), 1, prime_143_bits()) == 0x3306493093511ba521b11cb7c5bbbc000e7bint) by (nonlinear_arith);
    lemma_quad(base_143_bits(), e, 1int, 1, prime_143_bits());
    let e: nat = 4 * e + 1;
    assert(quad(0x3306493093511ba521b11cb7c5bbbc000e7bint, base_143_bits(), 1, prime_143_bits()) == 0x5648e486e671647f90245932df0bfa07c002int) by (nonlinear_arith);
    lemma_quad(base_143_bits(), e, 0x3306493093511ba521b11cb7c5bbbc000e7bint, 1, prime_143_bits());
    let e: nat = 4 * e + 1;
    assert(quad(0x5648e486e671647f90245932df0bfa07c002int, base_143_bits(), 0, prime_143_bits()) == 0x2f3ba39db81b9d0cfbe8d3c6c14890ba9301int) by (nonlinear_arith);
    lemma_quad(base_143_bits(), e, 0x5648e486e671647f90245932df0bfa07c002int, 0, prime_143_bits());
    let e: nat = 4 * e + 0;
    assert(quad(0x2f3ba39db81b9d0cfbe8d3c6c14890ba9301int, base_143_bits(), 2, prime_143_bits()) == 0x54cb309f8770151a429be245710dfbc69b04int) by (nonlinear_arith);
    lemma_quad(base_143_bits(), e, 0x2f3ba39db81b9d0cfbe8d3c6c14890ba9301int, 2, prime_143_bits());
    let e: nat = 4 * e + 2;
    assert(quad(0x54cb309f8770151a429be245710dfbc69b04int, base_143_bits(), 2, prime_143_bits()) == 0x4144a2c7fd1f27982d8ce527b693b90be363int) by (nonlinear_arith);
    lemma_quad(base_143_bits(), e, 0x54cb309f8770151a429be245710dfbc69b04int, 2, prime_143_bits());
    let e: nat = 4 * e + 2;
    assert(quad(0x4144a2c7fd1f27982d8ce527b693b90be363int, base_143_bits(), 0, prime_143_bits()) == 0xb030cd2766dd89bc6d5bbbcdb28713e507dint) by (nonlinear_arith);
    lemma_quad(base_143_bits(), e, 0x4144a2c7fd1f27982d8ce527b693b90be363int, 0, prime_143_bits());
    let e: nat = 4 * e + 0;
    assert(quad(0xb030cd2766dd89bc6d5bbbcdb28713e507dint, base_143_bits(), 3, prime_143_bits()) == 0x33770b5913a32d4ef64f1649a5325574d3fcint) by (nonlinear_arith);
    lemma_quad(base_143_bits(), e, 0xb030cd2766dd89bc6d5bbbcdb28713e507dint, 3, prime_143_bits());
    let e: nat = 4 * e + 3;
    assert(quad(0x33770b5913a32d4ef64f1649a5325574d3fcint, base_143_bits(), 2, prime_143_bits()) == 0xc3096f43de0a4d5095ec5fd3e864f4fe789int) by (nonlinear_arith);
    lemma_quad(base_143_bits(), e, 0x33770b5913a32d4ef64f1649a5325574d3fcint, 2, prime_143_bits());
    let e: nat = 4 * e + 2;
    assert(quad(0xc3096f43de0a4d5095ec5fd3e864f4fe789int, base_143_bits(), 0, prime_143_bits()) == 0x2141d2f1b3bf1655fcd5a19b5f854c25bff2int) by (nonlinear_arith);
    lemma_quad(base_143_bits(), e, 0xc3096f43de0a4d5095ec5fd3e864f4fe789int, 0, prime_143_bits());
    let e: nat = 4 * e + 0;
    assert(quad(0x2141d2f1b3bf1655fcd5a19b5f854c25bff2int, base_143_bits(), 0, prime_143_bits()) == 0x3c191d6de2fe2b3114ecdc8855fb9f67704dint) by (nonlinear_arith);
    lemma_quad(base_143_bits(), e, 0x2141d2f1b3bf1655fcd5a19b5f854c25bff2int, 0, prime_143_bits());
    let e: nat = 4 * e + 0;
    assert(quad(0x3c191d6de2fe2b3114ecdc8855fb9f67704dint, base_143_bits(), 3, prime_143_bits()) == 0x5236313a68c88d9c567e21fbfc6592e3f0acint) by (nonlinear_arith);
    lemma_quad(base_143_bits(), e, 0x3c191d6de2fe2b3114ecdc8855fb9f67704dint, 3, prime_143_bits());
    let e: nat = 4 * e + 3;
    assert(quad(0x5236313a68c88d9c567e21fbfc6592e3f0acint, base_143_bits(), 1, prime_143_bits()) == 0x2c162e0351630d05ac95c250d781a831a862int) by (nonlinear_arith);
    lemma_quad(base_143_bits(), e, 0x5236313a68c88d9c567e21fbfc6592e3f0acint, 1, prime_143_bits());
    let e: nat = 4 * e + 1;
    assert(quad(0x2c162e0351630d05ac95c250d781a831a862int, base_143_bits(), 3, prime_143_bits()) == 0x1624d33e10e8b108964c6d42bf42c683b543int) by (nonlinear_arith);
    lemma_quad(base_143_bits(), e, 0x2c162e0351630d05ac95c250d781a831a862int, 3, prime_143_bits());
    let e: nat = 4 * e + 3;
    assert(quad(0x1624d33e10e8b108964c6d42bf42c683b543int, base_143_bits(), 0, prime_143_bits()) == 0x8776d6739f00365a95f8f04afac73c62c63int) by (nonlinear_arith);
    lemma_quad(base_143_bits(), e, 0x1624d33e10e8b108964c6d42bf42c683b543int, 0, prime_143_bits());
    let e: nat = 4 * e + 0;
    assert(quad(0x8776d6739f00365a95f8f04afac73c62c63int, base_143_bits(), 1, prime_143_bits()) == 0x17b4680065f6c4a93309703b90b9d5cb60ffint) by (nonlinear_arith);
    lemma_quad(base_143_bits(), e, 0x8776d6739f00365a95f8f04afac73c62c63int, 1, prime_143_bits());
    let e: nat = 4 * e + 1;
    assert(quad(0x17b4680065f6c4a93309703b90b9d5cb60ffint, base_143_bits(), 3, prime_143_bits()) == 0x4322f0492e96ddfce65ff603ccb0a663c89dint) by (nonlinear_arith);
    lemma_quad(base_143_bits(), e, 0x17b4680065f6c4a93309703b90b9d5cb60ffint, 3, prime_143_bits());
    let e: nat = 4 * e + 3;
    assert(quad(0x4322f0492e96ddfce65ff603ccb0a663c89dint, base_143_bits(), 3, prime_143_bits()) == 0x4452324ae78be2fad82bebc5f42665f05a09int) by (nonlinear_arith);
    lemma_quad(base_143_bits(), e, 0x4322f0492e96ddfce65ff603ccb0a663c89dint, 3, prime_143_bits());
    let e: nat = 4 * e + 3;
    assert(quad(0x4452324ae78be2fad82bebc5f42665f05a09int, base_143_bits(), 1, prime_143_bits()) == 0x1615a4fc9dd1d5260b3068d98852c86a2c65int) by (nonlinear_arith);
    lemma_quad(base_143_bits(), e, 0x4452324ae78be2fad82bebc5f42665f05a09int, 1, prime_143_bits());
    let e: nat = 4 * e + 1;
    assert(e == 0x528e0dc7dint);
}

proof fn lemma_power_143_bits_b()
    ensures
        pow(base_143_bits(), 0x127aa16eeaabbnat) % prime_143_bits() == 0x55bb924d6d8f9f031b347bf64472e58fbe3eint,
{
    lemma_pow0(base_143_bits());
    let e: nat = 0;
    assert(quad(1int, base_143_bits(), 1, prime_143_bits()) == 0x3306493093511ba521b11cb7c5bbbc000e7bint) by (nonlinear_arith);
    lemma_quad(base_143_bits(), e, 1int, 1, prime_143_bits());
    let e: nat = 4 * e + 1;
    assert(quad(0x3306493093511ba521b11cb7c5bbbc000e7bint, base_143_bits(), 0, prime_143_bits()) == 0x37ffee3605a62221b5569f472a45a2e8012fint) by (nonlinear_arith);
    lemma_quad(base_143_bits(), e, 0x3306493093511ba521b11cb7c5bbbc000e7bint, 0, prime_143_bits());
    let e: nat = 4 * e + 0;
    assert(quad(0x37ffee3605a62221b5569f472a45a2e8012fint, base_143_bits(), 2, prime_143_bits()) == 0xc1ae6532396c61a0b05a8f911dd0ba80f3int) by (nonlinear_arith);
    lemma_quad(base_143_bits(), e, 0x37ffee3605a62221b5569f472a45a2e8012fint, 2, prime_143_bits());
    let e: nat = 4 * e + 2;
    assert(quad(0xc1ae6532396c61a0b05a8f911dd0ba80f3int, base_143_bits(), 1, prime_143_bits()) == 0x2fa8440f359a5de6d1b0de8b63cb2bb67964int) by (nonlinear_arith);
    lemma_quad(base_143_bits(), e, 0xc1ae6532396c61a0b05a8f911dd0ba80f3int, 1, prime_143_bits());
    let e: nat = 4 * e + 1;
    assert(quad(0x2fa8440f359a5de6d1b0de8b63cb2bb67964int, base_143_bits(), 3, prime_143_bits()) == 0x19304cedd09838906baadb6dfae39db756b0int) by (nonlinear_arith);
    lemma_quad(base_143_bits(), e, 0x2fa8440f359a5de6d1b0de8b63cb2bb67964int, 3, prime_143_bits());
    let e: nat = 4 * e + 3;
    assert(quad(0x19304cedd09838906baadb6dfae39db756b0int, base_143_bits(), 2, prime_143_bits()) == 0x29b9793a98c57d0ee7c14f23a7585dca36e3int) by (nonlinear_arith);
    lemma_quad(base_143_bits(), e, 0x19304cedd09838906baadb6dfae39db756b0int, 2, prime_143_bits());
    let e: nat = 4 * e + 2;
    assert(quad(0x29b9793a98c57d0ee7c14f23a7585dca36e3int, base_143_bits(), 2, prime_143_bits()) == 0xaef88f686bb283ef06542c3fda10bd2a36aint) by (nonlinear_arith);
    lemma_quad(base_143_bits(), e, 0x29b9793a98c57d0ee7c14f23a7585dca36e3int, 2, prime_143_bits());
    let e: nat = 4 * e + 2;
    assert(quad(0xaef88f686bb283ef06542c3fda10bd2a36aint, base_143_bits(), 2, prime_143_bits()) == 0x1288828fc6f845d31bee575b4e729e8155e6int) by (nonlinear_arith);
    lemma_quad(base_143_bits(), e, 0xaef88f686bb283ef06542c3fda10bd2a36aint, 2, prime_143_bits());
    let e: nat = 4 * e + 2;
    assert(quad(0x1288828fc6f845d31bee575b4e729e8155e6int, base_143_bits(), 2, prime_143_bits()) == 0x2621e52b84f7d3d473ba9897213f8682eb90int) by (nonlinear_arith);
    lemma_quad(base_143_bits(), e, 0x1288828fc6f845d31bee575b4e729e8155e6int, 2, prime_143_bits());
    let e: nat = 4 * e + 2;
    assert(quad(0x2621e52b84f7d3d473ba9897213f8682eb90int, base_143_bits(), 0, prime_143_bits()) == 0x2cd93284699855ca6f74b06a499231d11071int) by (nonlinear_arith);
    lemma_quad(base_143_bits(), e, 0x2621e52b84f7d3d473ba9897213f8682eb90int, 0, prime_143_bits());
    let e: nat = 4 * e + 0;
    assert(quad(0x2cd93284699855ca6f74b06a499231d11071int, base_143_bits(), 1, prime_143_bits()) == 0x23991f50f8734a4656f0165f8570bc674d86int) by (nonlinear_arith);
    lemma_quad(base_143_bits(), e, 0x2cd93284699855ca6f74b06a499231d11071int, 1, prime_143_bits());
    let e: nat = 4 * e + 1;
    assert(quad(0x23991f50f8734a4656f0165f8570bc674d86int, base_143_bits(), 1, prime_143_bits()) == 0x287defe1251008f4826ab6e5f2b9163dfecdint) by (nonlinear_arith);
    lemma_quad(base_143_bits(), e, 0x23991f50f8734a4656f0165f8570bc674d86int, 1, prime_143_bits());
    let e: nat = 4 * e + 1;
    assert(quad(0x287defe1251008f4826ab6e5f2b9163dfecdint, base_143_bits(), 2, prime_143_bits()) == 0x5fce372e77272288bddabf37745491ec9392int) by (nonlinear_arith);
    lemma_quad(base_143_bits(), e, 0x287defe1251008f4826ab6e5f2b9163dfecdint, 2, prime_143_bits());
    let e: nat = 4 * e + 2;
    assert(quad(0x5fce372e77272288bddabf37745491ec9392int, base_143_bits(), 3, prime_143_bits()) == 0xad7c6b96fa4223da34e4dd9de91710234b3int) by (nonlinear_arith);
    lemma_quad(base_143_bits(), e, 0x5fce372e77272288bddabf37745491ec9392int, 3, prime_143_bits());
    let e: nat = 4 * e + 3;
    assert(quad(0xad7c6b96fa4223da34e4dd9de91710234b3int, base_143_bits(), 2, prime_143_bits()) == 0x62bd39f369d9a9a3cab45f3ff9a4fc78407int) by (nonlinear_arith);
    lemma_quad(base_143_bits(), e, 0xad7c6b96fa4223da34e4dd9de91710234b3int, 2, prime_143_bits());
    let e: nat = 4 * e + 2;
    assert(quad(0x62bd39f369d9a9a3cab45f3ff9a4fc78407int, base_143_bits(), 3, prime_143_bits()) == 0x37e07117f9f25fe98b3362128135c73da50dint) by (nonlinear_arith);
    lemma_quad(base_143_bits(), e, 0x62bd39f369d9a9a3cab45f3ff9a4fc78407int, 3, prime_143_bits());
    let e: nat = 4 * e + 3;
    assert(quad(0x37e07117f9f25fe98b3362128135c73da50dint, base_143_bits(), 2, prime_143_bits()) == 0x5adcdc7f9c68358bf8290a2e3f63d2773f18int) by (nonlinear_arith);
    lemma_quad(base_143_bits(), e, 0x37e07117f9f25fe98b3362128135c73da50dint, 2, prime_143_bits());
    let e: nat = 4 * e + 2;
    assert(quad(0x5adcdc7f9c68358bf8290a2e3f63d2773f18int, base_143_bits(), 2, prime_143_bits()) == 0xa1a38427dc38ff6beaed47c9173799fde9fint) by (nonlinear_arith);
    lemma_quad(base_143_bits(), e, 0x5adcdc7f9c68358bf8290a2e3f63d2773f18int, 2, prime_143_bits());
    let e: nat = 4 * e + 2;
    assert(quad(0xa1a38427dc38ff6beaed47c9173799fde9fint, base_143_bits(), 2, prime_143_bits()) == 0x272495cd77a8398c337777d48fc0b7bbd0d2int) by (nonlinear_arith);
    lemma_quad(base_143_bits(), e, 0xa1a38427dc38ff6beaed47c9173799fde9fint, 2, prime_143_bits());
    let e: nat = 4 * e + 2;
    assert(quad(0x272495cd77a8398c337777d48fc0b7bbd0d2int, base_143_bits(), 2, prime_143_bits()) == 0x1397258b8ac3d56a6d0c997236841609b1d9int) by (nonlinear_arith);
    lemma_quad(base_143_bits(), e, 0x272495cd77a8398c337777d48fc0b7bbd0d2int, 2, prime_143_bits());
    let e: nat = 4 * e + 2;
    assert(quad(0x1397258b8ac3d56a6d0c997236841609b1d9int, base_143_bits(), 2, prime_143_bits()) == 0x4d97acded4b9ffa18650dfdffea2c0cbcc2cint) by (nonlinear_arith);
    lemma_quad(base_143_bits(), e, 0x1397258b8ac3d56a6d0c997236841609b1d9int, 2, prime_143_bits());
    let e: nat = 4 * e + 2;
    assert(quad(0x4d97acded4b9ffa18650dfdffea2c0cbcc2cint, base_143_bits(), 2, prime_143_bits()) == 0x24f71ba6ac85fce295e2126ff9d1840b04beint) by (nonlinear_arith);
    lemma_quad(base_143_bits(), e, 0x4d97acded4b9ffa18650dfdffea2c0cbcc2cint, 2, prime_143_bits());
    let e: nat = 4 * e + 2;
    assert(quad(0x24f71ba6ac85fce295e2126ff9d1840b04beint, base_143_bits(), 3, prime_143_bits()) == 0x126fce2cf993f7ba9a52f724667288ca0e1dint) by (nonlinear_arith);
    lemma_quad(base_143_bits(), e, 0x24f71ba6ac85fce295e2126ff9d1840b04beint, 3, prime_143_bits());
    let e: nat = 4 * e + 3;
    assert(quad(0x126fce2cf993f7ba9a52f724667288ca0e1dint, base_143_bits(), 2, prime_143_bits()) == 0x268d4a1c5601586b2d14a18ebb7ae81fca67int) by (nonlinear_arith);
    lemma_quad(base_143_bits(), e, 0x126fce2cf993f7ba9a52f724667288ca0e1dint, 2, prime_143_bits());
    let e: nat = 4 * e + 2;
    assert(quad(0x268d4a1c5601586b2d14a18ebb7ae81fca67int, base_143_bits(), 3, prime_143_bits()) == 0x55bb924d6d8f9f031b347bf64472e58fbe3eint) by (nonlinear_arith);
    lemma_quad(base_143_bits(), e, 0x268d4a1c5601586b2d14a18ebb7ae81fca67int, 3, prime_143_bits());
    let e: nat = 4 * e + 3;
    assert(e == 0x127aa16eeaabbint);
}

spec fn root_143_bits() -> int {
    0x1615a4fc9dd1d5260b3068d98852c86a2c65int
}

proof fn lemma_power_143_bits_c()
    ensures
        pow(root_143_bits(), 0x127aa16eeaabbnat) % prime_143_bits() == 1int,
{
    lemma_pow0(root_143_bits());
    let e: nat = 0;
    assert(quad(1int, root_143_bits(), 1, prime_143_bits()) == 0x1615a4fc9dd1d5260b3068d98852c86a2c65int) by (nonlinear_arith);
    lemma_quad(root_143_bits(), e, 1int, 1, prime_143_bits());
    let e: nat = 4 * e + 1;
    assert(quad(0x1615a4fc9dd1d5260b3068d98852c86a2c65int, root_143_bits(), 0, prime_143_bits()) == 0x374ca435a473dda0b604907445db06151f5dint) by (nonlinear_arith);
    lemma_quad(root_143_bits(), e, 0x1615a4fc9dd1d5260b3068d98852c86a2c65int, 0, prime_143_bits());
    let e: nat = 4 * e + 0;
    assert(quad(0x374ca435a473dda0b604907445db06151f5dint, root_143_bits(), 2, prime_143_bits()) == 0x44df7a5b4552425a9e403e75fac4f4cc748cint) by (nonlinear_arith);
    lemma_quad(root_143_bits(), e, 0x374ca435a473dda0b604907445db06151f5dint, 2, prime_143_bits());
    let e: nat = 4 * e + 2;
    assert(quad(0x44df7a5b4552425a9e403e75fac4f4cc748cint, root_143_bits(), 1, prime_143_bits()) == 0x4d3d65702c23eb218976a30a680b26c83209int) by (nonlinear_arith);
    lemma_quad(root_143_bits(), e, 0x44df7a5b4552425a9e403e75fac4f4cc748cint, 1, prime_143_bits());
    let e: nat = 4 * e + 1;
    assert(quad(0x4d3d65702c23eb218976a30a680b26c83209int, root_143_bits(), 3, prime_143_bits()) == 0xf83aa992d4049a2831552330d673288901aint) by (nonlinear_arith);
    lemma_quad(root_143_bits(), e, 0x4d3d65702c23eb218976a30a680b26c83209int, 3, prime_143_bits());
    let e: nat = 4 * e + 3;
    assert(quad(0xf83aa992d4049a2831552330d673288901aint, root_143_bits(), 2, prime_143_bits()) == 0x59b0a1232d2f0f19f46486e85c2a9fb33590int) by (nonlinear_arith);
    lemma_quad(root_143_bits(), e, 0xf83aa992d4049a2831552330d673288901aint, 2, prime_143_bits());
    let e: nat = 4 * e + 2;
    assert(quad(0x59b0a1232d2f0f19f46486e85c2a9fb33590int, root_143_bits(), 2, prime_143_bits()) == 0x4556c86ff521672e6592848d8b0dabfad067int) by (nonlinear_arith);
    lemma_quad(root_143_bits(), e, 0x59b0a1232d2f0f19f46486e85c2a9fb33590int, 2, prime_143_bits());
    let e: nat = 4 * e + 2;
    assert(quad(0x4556c86ff521672e6592848d8b0dabfad067int, root_143_bits(), 2, prime_143_bits()) == 0x30da315eb71b92bef135b3e0341656250e28int) by (nonlinear_arith);
    lemma_quad(root_143_bits(), e, 0x4556c86ff521672e6592848d8b0dabfad067int, 2, prime_143_bits());
    let e: nat = 4 * e + 2;
    assert(quad(0x30da315eb71b92bef135b3e0341656250e28int, root_143_bits(), 2, prime_143_bits()) == 0x2f427eed82f37453b3d1dd7248112f103391int) by (nonlinear_arith);
    lemma_quad(root_143_bits(), e, 0x30da315eb71b92bef135b3e0341656250e28int, 2, prime_143_bits());
    let e: nat = 4 * e + 2;
    assert(quad(0x2f427eed82f37453b3d1dd7248112f103391int, root_143_bits(), 0, prime_143_bits()) == 0x3516646b905de1fbc53335b3c861b78423deint) by (nonlinear_arith);
    lemma_quad(root_143_bits(), e, 0x2f427eed82f37453b3d1dd7248112f103391int, 0, prime_143_bits());
    let e: nat = 4 * e + 0;
    assert(quad(0x3516646b905de1fbc53335b3c861b78423deint, root_143_bits(), 1, prime_143_bits()) == 0x9b07bfd2510a84bce9318c799ae5efc8a91int) by (nonlinear_arith);
    lemma_quad(root_143_bits(), e, 0x3516646b905de1fbc53335b3c861b78423deint, 1, prime_143_bits());
    let e: nat = 4 * e + 1;
    assert(quad(0x9b07bfd2510a84bce9318c799ae5efc8a91int, root_143_bits(), 1, prime_143_bits()) == 0x546c97b4c78c5cbcc0834dc8e4295c3c02c6int) by (nonlinear_arith);
    lemma_quad(root_143_bits(), e, 0x9b07bfd2510a84bce9318c799ae5efc8a91int, 1, prime_143_bits());
    let e: nat = 4 * e + 1;
    assert(quad(0x546c97b4c78c5cbcc0834dc8e4295c3c02c6int, root_143_bits(), 2, prime_143_bits()) == 0x2d5ec87b0791e1f0af6670da5c69ed43caafint) by (nonlinear_arith);
    lemma_quad(root_143_bits(), e, 0x546c97b4c78c5cbcc0834dc8e4295c3c02c6int, 2, prime_143_bits());
    let e: nat = 4 * e + 2;
    assert(quad(0x2d5ec87b0791e1f0af6670da5c69ed43caafint, root_143_bits(), 3, prime_143_bits()) == 0x61aa8a6f12d66144c32c928b6c737c04aa01int) by (nonlinear_arith);
    lemma_quad(root_143_bits(), e, 0x2d5ec87b0791e1f0af6670da5c69ed43caafint, 3, prime_143_bits());
    let e: nat = 4 * e + 3;
    assert(quad(0x61aa8a6f12d66144c32c928b6c737c04aa01int, root_143_bits(), 2, prime_143_bits()) == 0x219b6b0184ae8e51021fd3c1dec849fb46dint) by (nonlinear_arith);
    lemma_quad(root_143_bits(), e, 0x61aa8a6f12d66144c32c928b6c737c04aa01int, 2, prime_143_bits());
    let e: nat = 4 * e + 2;
    assert(quad(0x219b6b0184ae8e51021fd3c1dec849fb46dint, root_143_bits(), 3, prime_143_bits()) == 0xb8a371ec50b14f703c478f39db396f84a0cint) by (nonlinear_arith);
    lemma_quad(root_143_bits(), e, 0x219b6b0184ae8e51021fd3c1dec849fb46dint, 3, prime_143_bits());
    let e: nat = 4 * e + 3;
    assert(quad(0xb8a371ec50b14f703c478f39db396f84a0cint, root_143_bits(), 2, prime_143_bits()) == 0x52eda4217c4891812ac3f66ed856ad54c4feint) by (nonlinear_arith);
    lemma_quad(root_143_bits(), e, 0xb8a371ec50b14f703c478f39db396f84a0cint, 2, prime_143_bits());
    let e: nat = 4 * e + 2;
    assert(quad(0x52eda4217c4891812ac3f66ed856ad54c4feint, root_143_bits(), 2, prime_143_bits()) == 0x18861c4cd293127e7ee52564f8ee4bcf183eint) by (nonlinear_arith);
    lemma_quad(root_143_bits(), e, 0x52eda4217c4891812ac3f66ed856ad54c4feint, 2, prime_143_bits());
    let e: nat = 4 * e + 2;
    assert(quad(0x18861c4cd293127e7ee52564f8ee4bcf183eint, root_143_bits(), 2, prime_143_bits()) == 0x596474dcf3744a34ba2f6a0662652ba5f741int) by (nonlinear_arith);
    lemma_quad(root_143_bits(), e, 0x18861c4cd293127e7ee52564f8ee4bcf183eint, 2, prime_143_bits());
    let e: nat = 4 * e + 2;
    assert(quad(0x596474dcf3744a34ba2f6a0662652ba5f741int, root_143_bits(), 2, prime_143_bits()) == 0x35bb0e32a82b7eb045e3c14c75940ae6c510int) by (nonlinear_arith);
    lemma_quad(root_143_bits(), e, 0x596474dcf3744a34ba2f6a0662652ba5f741int, 2, prime_143_bits());
    let e: nat = 4 * e + 2;
    assert(quad(0x35bb0e32a82b7eb045e3c14c75940ae6c510int, root_143_bits(), 2, prime_143_bits()) == 0x52da6d89932b096147e2dd2f707ac68547ccint) by (nonlinear_arith);
    lemma_quad(root_143_bits(), e, 0x35bb0e32a82b7eb045e3c14c75940ae6c510int, 2, prime_143_bits());
    let e: nat = 4 * e + 2;
    assert(quad(0x52da6d89932b096147e2dd2f707ac68547ccint, root_143_bits(), 2, prime_143_bits()) == 0x19719a41b3f96a1903b72f7087913fbaf0a5int) by (nonlinear_arith);
    lemma_quad(root_143_bits(), e, 0x52da6d89932b096147e2dd2f707ac68547ccint, 2, prime_143_bits());
    let e: nat = 4 * e + 2;
    assert(quad(0x19719a41b3f96a1903b72f7087913fbaf0a5int, root_143_bits(), 3, prime_143_bits()) == 0x2dbe87299a068bca528d106470eafa74eb3dint) by (nonlinear_arith);
    lemma_quad(root_143_bits(), e, 0x19719a41b3f96a1903b72f7087913fbaf0a5int, 3, prime_143_bits());
    let e: nat = 4 * e + 3;
    assert(quad(0x2dbe87299a068bca528d106470eafa74eb3dint, root_143_bits(), 2, prime_143_bits()) == 0x2e1a7d4f1243fcd6f2e2500d060bef6b5f24int) by (nonlinear_arith);
    lemma_quad(root_143_bits(), e, 0x2dbe87299a068bca528d106470eafa74eb3dint, 2, prime_143_bits());
    let e: nat = 4 * e + 2;
    assert(quad(0x2e1a7d4f1243fcd6f2e2500d060bef6b5f24int, root_143_bits(), 3, prime_143_bits()) == 1int) by (nonlinear_arith);
    lemma_quad(root_143_bits(), e, 0x2e1a7d4f1243fcd6f2e2500d060bef6b5f24int, 3, prime_143_bits());
    let e: nat = 4 * e + 3;
    assert(e == 0x127aa16eeaabbint);
}

proof fn lemma_prime_143_bits()
    ensures
        is_prime(prime_143_bits()),
{
    lemma_prime_49_bits();
    lemma_pow1(prime_49_bits());
    lemma_prime_22160661629();
    lemma_pow1(prime_22160661629());
    lemma_power_143_bits_a();
    lemma_power_143_bits_b();
    lemma_power_143_bits_c();
    lemma_power_of_power(base_143_bits(), 0x528e0dc7dnat, root_143_bits(), 0x127aa16eeaabbnat, prime_143_bits());
    lemma_certify(prime_143_bits(), base_143_bits(), 0x5f588b9b93aebe8e2114fnat, prime_49_bits(), 1, 0x1615a4fc9dd1d5260b3068d98852c86a2c65int, 0x356b71f8635bd248c70d2e065392ab87c1fcint);
    lemma_certify(prime_143_bits(), base_143_bits(), 0x5f588b9b93aebe8e2114fnat, prime_22160661629(), 1, 0x55bb924d6d8f9f031b347bf64472e58fbe3eint, 0x4f3b026dd0bce12fbee81d1727fe3a8bc799int);
    lemma_certified_prime(prime_143_bits(), base_143_bits(), 0x5f588b9b93aebe8e2114fnat, prime_49_bits(), 1, prime_22160661629(), 1, 0x127aa16eeaabbint, 0x528e0dc7dint, 0x5f588b9b93aebe8e21150int);
}

spec fn base_pallas_modulus() -> int {
    0x348cdb83aa5c808a180e82875bf3b391ef293ff1cd5f81d0c402c0be7bf67293int
}

proof fn lemma_power_pallas_modulus_c()
    ensures
        pow(base_pallas_modulus(), 0x674e41aa25559f3f6806ca7324f298d5465dnat) % pallas_modulus() == 1int,
{
    lemma_pow0(base_pallas_modulus());
    let e: nat = 0;
    assert(quad(1int, base_pallas_modulus(), 1, pallas_modulus()) == 0x348cdb83aa5c808a180e82875bf3b391ef293ff1cd5f81d0c402c0be7bf67293int) by (nonlinear_arith);
    lemma_quad(base_pallas_modulus(), e, 1int, 1, pallas_modulus());
    let e: nat = 4 * e + 1;
    assert(quad(0x348cdb83aa5c808a180e82875bf3b391ef293ff1cd5f81d0c402c0be7bf67293int, base_pallas_modulus(), 2, pallas_modulus()) == 0x14c2b70c08b4ada28d5d0525a1a80ac1457dcf9542801c6a1f8985444cfcb5deint) by (nonlinear_arith);
    lemma_quad(base_pallas_modulus(), e, 0x348cdb83aa5c808a180e82875bf3b391ef293ff1cd5f81d0c402c0be7bf67293int, 2, pallas_modulus());
    let e: nat = 4 * e + 2;
    assert(quad(0x14c2b70c08b4ada28d5d0525a1a80ac1457dcf9542801c6a1f8985444cfcb5deint, base_pallas_modulus(), 1, pallas_modulus()) == 0x33fbc6531005eb999e087cb9d91e2ad381e3388f11839e9ec0c22c7b6ff63779int) by (nonlinear_arith);
    lemma_quad(base_pallas_modulus(), e, 0x14c2b70c08b4ada28d5d0525a1a80ac1457dcf9542801c6a1f8985444cfcb5deint, 1, pallas_modulus());
    let e: nat = 4 * e + 1;
    assert(quad(0x33fbc6531005eb999e087cb9d91e2ad381e3388f11839e9ec0c22c7b6ff63779int, base_pallas_modulus(), 3, pallas_modulus()) == 0x2b59b2be1223b40da6e7df8cc148e9fe5bfda3d6246be629bded55a5c325478aint) by (nonlinear_arith);
    lemma_quad(base_pallas_modulus(), e, 0x33fbc6531005eb999e087cb9d91e2ad381e3388f11839e9ec0c22c7b6ff63779int, 3, pallas_modulus());
    let e: nat = 4 * e + 3;
    assert(quad(0x2b59b2be1223b40da6e7df8cc148e9fe5bfda3d6246be629bded55a5c325478aint, base_pallas_modulus(), 1, pallas_modulus()) == 0x1b2f025dee0ec32c97a6322575cd912b23255d98ce70ec2cee49aad7d0497fffint) by (nonlinear_arith);
    lemma_quad(base_pallas_modulus(), e, 0x2b59b2be1223b40da6e7df8cc148e9fe5bfda3d6246be629bded55a5c325478aint, 1, pallas_modulus());
    let e: nat = 4 * e + 1;
    assert(quad(0x1b2f025dee0ec32c97a6322575cd912b23255d98ce70ec2cee49aad7d0497fffint, base_pallas_modulus(), 0, pallas_modulus()) == 0x12e748518fffad6d9e868c40a41753625346b33e9ae0d0bafe7478a9d3ba8272int) by (nonlinear_arith);
    lemma_quad(base_pallas_modulus(), e, 0x1b2f025dee0ec32c97a6322575cd912b23255d98ce70ec2cee49aad7d0497fffint, 0, pallas_modulus());
    let e: nat = 4 * e + 0;
    assert(quad(0x12e748518fffad6d9e868c40a41753625346b33e9ae0d0bafe7478a9d3ba8272int, base_pallas_modulus(), 3, pallas_modulus()) == 0x2d453589b111569f90c6c7c53fb7a0dbaa5003f7848b96a9cd16bab3b287cbe9int) by (nonlinear_arith);
    lemma_quad(base_pallas_modulus(), e, 0x12e748518fffad6d9e868c40a41753625346b33e9ae0d0bafe7478a9d3ba8272int, 3, pallas_modulus());
    let e: nat = 4 * e + 3;
    assert(quad(0x2d453589b111569f90c6c7c53fb7a0dbaa5003f7848b96a9cd16bab3b287cbe9int, base_pallas_modulus(), 2, pallas_modulus()) == 0x379468ca6bb77c41155cf375f7e4e1fbc1179081840c043e10c469af29549464int) by (nonlinear_arith);
    lemma_quad(base_pallas_modulus(), e, 0x2d453589b111569f90c6c7c53fb7a0dbaa5003f7848b96a9cd16bab3b287cbe9int, 2, pallas_modulus());
    let e: nat = 4 * e + 2;
    assert(quad(0x379468ca6bb77c41155cf375f7e4e1fbc1179081840c043e10c469af29549464int, base_pallas_modulus(), 1, pallas_modulus()) == 0x162263ea8710f679f4208c450e5195dcb06894ccd0a35bfdc49e5adf16d26fd9int) by (nonlinear_arith);
    lemma_quad(base_pallas_modulus(), e, 0x379468ca6bb77c41155cf375f7e4e1fbc1179081840c043e10c469af29549464int, 1, pallas_modulus());
    let e: nat = 4 * e + 1;
    assert(quad(0x162263ea8710f679f4208c450e5195dcb06894ccd0a35bfdc49e5adf16d26fd9int, base_pallas_modulus(), 0, pallas_modulus()) == 0x382d90cb6377d6f2d00ee7fc798a71dced4f99f29207018a74fbe968b26f8bdeint) by (nonlinear_arith);
    lemma_quad(base_pallas_modulus(), e, 0x162263ea8710f679f4208c450e5195dcb06894ccd0a35bfdc49e5adf16d26fd9int, 0, pallas_modulus());
    let e: nat = 4 * e + 0;
    assert(quad(0x382d90cb6377d6f2d00ee7fc798a71dced4f99f29207018a74fbe968b26f8bdeint, base_pallas_modulus(), 0, pallas_modulus()) == 0x3222c4376857c80fad4bee2f5a4aa54864eba9aa62e4fbe1031490e33c3b03d7int) by (nonlinear_arith);
    lemma_quad(base_pallas_modulus(), e, 0x382d90cb6377d6f2d00ee7fc798a71dced4f99f29207018a74fbe968b26f8bdeint, 0, pallas_modulus());
    let e: nat = 4 * e + 0;
    assert(quad(0x3222c4376857c80fad4bee2f5a4aa54864eba9aa62e4fbe1031490e33c3b03d7int, base_pallas_modulus(), 1, pallas_modulus()) == 0x374a8434b15c8c8cd4979526b20941972a118374d9d0a55bf3c679b995607726int) by (nonlinear_arith);
    lemma_quad(base_pallas_modulus(), e, 0x3222c4376857c80fad4bee2f5a4aa54864eba9aa62e4fbe1031490e33c3b03d7int, 1, pallas_modulus());
    let e: nat = 4 * e + 1;
    assert(quad(0x374a8434b15c8c8cd4979526b20941972a118374d9d0a55bf3c679b995607726int, base_pallas_modulus(), 2, pallas_modulus()) == 0x38a2b7afb4fda6c5a69e8f8d6a19856e7106c42f5c30d1491330a731608c2cbaint) by (nonlinear_arith);
    lemma_quad(base_pallas_modulus(), e, 0x374a8434b15c8c8cd4979526b20941972a118374d9d0a55bf3c679b995607726int, 2, pallas_modulus());
    let e: nat = 4 * e + 2;
    assert(quad(0x38a2b7afb4fda6c5a69e8f8d6a19856e7106c42f5c30d1491330a731608c2cbaint, base_pallas_modulus(), 2, pallas_modulus()) == 0x2319093e4ece846cde37d0ea4fee6393b303b00dbda1289450daba0f5a3a80f7int) by (nonlinear_arith);
    lemma_quad(base_pallas_modulus(), e, 0x38a2b7afb4fda6c5a69e8f8d6a19856e7106c42f5c30d1491330a731608c2cbaint, 2, pallas_modulus());
    let e: nat = 4 * e + 2;
    assert(quad(0x2319093e4ece846cde37d0ea4fee6393b303b00dbda1289450daba0f5a3a80f7int, base_pallas_modulus(), 2, pallas_modulus()) == 0x18a8e2fc2ab823f4a17576d91d10a8ef1e0c1611b5049c709f31ceb1bbdf334eint) by (nonlinear_arith);
    lemma_quad(base_pallas_modulus(), e, 0x2319093e4ece846cde37d0ea4fee6393b303b00dbda1289450daba0f5a3a80f7int, 2, pallas_modulus());
    let e: nat = 4 * e + 2;
    assert(quad(0x18a8e2fc2ab823f4a17576d91d10a8ef1e0c1611b5049c709f31ceb1bbdf334eint, base_pallas_modulus(), 2, pallas_modulus()) == 0x45a47b775b7f5454d18f3fec8aa4ed2901daf423cc7d5d8f2861b5233fa41b6int) by (nonlinear_arith);
    lemma_quad(base_pallas_modulus(), e, 0x18a8e2fc2ab823f4a17576d91d10a8ef1e0c1611b5049c709f31ceb1bbdf334eint, 2, pallas_modulus());
    let e: nat = 4 * e + 2;
    assert(quad(0x45a47b775b7f5454d18f3fec8aa4ed2901daf423cc7d5d8f2861b5233fa41b6int, base_pallas_modulus(), 0, pallas_modulus()) == 0x655204b1ac4988034e26ac23568f9e00b7d539ff3deda156bf38d63c226ed74int) by (nonlinear_arith);
    lemma_quad(base_pallas_modulus(), e, 0x45a47b775b7f5454d18f3fec8aa4ed2901daf423cc7d5d8f2861b5233fa41b6int, 0, pallas_modulus());
    let e: nat = 4 * e + 0;
    assert(quad(0x655204b1ac4988034e26ac23568f9e00b7d539ff3deda156bf38d63c226ed74int, base_pallas_modulus(), 2, pallas_modulus()) == 0x600b224473fac2fe6237e518e932e6b54d0c186410124771cab00965af9538aint) by (nonlinear_arith);
    lemma_quad(base_pallas_modulus(), e, 0x655204b1ac4988034e26ac23568f9e00b7d539ff3deda156bf38d63c226ed74int, 2, pallas_modulus());
    let e: nat = 4 * e + 2;
    assert(quad(0x600b224473fac2fe6237e518e932e6b54d0c186410124771cab00965af9538aint, base_pallas_modulus(), 1, pallas_modulus()) == 0x23e618756c98d31a109719ff8eddfdfc5e4d5dff557aa384861247fc1294f52aint) by (nonlinear_arith);
    lemma_quad(base_pallas_modulus(), e, 0x600b224473fac2fe6237e518e932e6b54d0c186410124771cab00965af9538aint, 1, pallas_modulus());
    let e: nat = 4 * e + 1;
    assert(quad(0x23e618756c98d31a109719ff8eddfdfc5e4d5dff557aa384861247fc1294f52aint, base_pallas_modulus(), 1, pallas_modulus()) == 0x795bb24a687da38dc689f45ab48bb39774952c505dd59b8d9e58cf392a12aeaint) by (nonlinear_arith);
    lemma_quad(base_pallas_modulus(), e, 0x23e618756c98d31a109719ff8eddfdfc5e4d5dff557aa384861247fc1294f52aint, 1, pallas_modulus());
    let e: nat = 4 * e + 1;
    assert(quad(0x795bb24a687da38dc689f45ab48bb39774952c505dd59b8d9e58cf392a12aeaint, base_pallas_modulus(), 1, pallas_modulus()) == 0x21522fd02051b26a57e79eec8178439ec43c4a7d051db76087ae7d6c51b3d3ceint) by (nonlinear_arith);
    lemma_quad(base_pallas_modulus(), e, 0x795bb24a687da38dc689f45ab48bb39774952c505dd59b8d9e58cf392a12aeaint, 1, pallas_modulus());
    let e: nat = 4 * e + 1;
    assert(quad(0x21522fd02051b26a57e79eec8178439ec43c4a7d051db76087ae7d6c51b3d3ceint, base_pallas_modulus(), 1, pallas_modulus()) == 0x2fa4a8a9eadbf767ef2d0f2cb67338e431b79903caeb6e39a67c2ce829f0b787int) by (nonlinear_arith);
    lemma_quad(base_pallas_modulus(), e, 0x21522fd02051b26a57e79eec8178439ec43c4a7d051db76087ae7d6c51b3d3ceint, 1, pallas_modulus());
    let e: nat = 4 * e + 1;
    assert(quad(0x2fa4a8a9eadbf767ef2d0f2cb67338e431b79903caeb6e39a67c2ce829f0b787int, base_pallas_modulus(), 1, pallas_modulus()) == 0x2d7748d0c05c59504c24159960430a4b559afa79a8b439c05288f41105b44ce4int) by (nonlinear_arith);
    lemma_quad(base_pallas_modulus(), e, 0x2fa4a8a9eadbf767ef2d0f2cb67338e431b79903caeb6e39a67c2ce829f0b787int, 1, pallas_modulus());
    let e: nat = 4 * e + 1;
    assert(quad(0x2d7748d0c05c59504c24159960430a4b559afa79a8b439c05288f41105b44ce4int, base_pallas_modulus(), 1, pallas_modulus()) == 0xfe64ad765e4d2d9e4333909397a5cbe2f4292e117d008cf879a861afc5104abint) by (nonlinear_arith);
    lemma_quad(base_pallas_modulus(), e, 0x2d7748d0c05c59504c24159960430a4b559afa79a8b439c05288f41105b44ce4int, 1, pallas_modulus());
    let e: nat = 4 * e + 1;
    assert(quad(0xfe64ad765e4d2d9e4333909397a5cbe2f4292e117d008cf879a861afc5104abint, base_pallas_modulus(), 2, pallas_modulus()) == 0xc760a015fe08c6da0c73bb9e676b1a79f6e2c3169744b3f800541e6e466d83eint) by (nonlinear_arith);
    lemma_quad(base_pallas_modulus(), e, 0xfe64ad765e4d2d9e4333909397a5cbe2f4292e117d008cf879a861afc5104abint, 2, pallas_modulus());
    let e: nat = 4 * e + 2;
    assert(quad(0xc760a015fe08c6da0c73bb9e676b1a79f6e2c3169744b3f800541e6e466d83eint, base_pallas_modulus(), 1, pallas_modulus()) == 0x3b3904008ec6f268360c1284bcbf0c0d7605f1441e54f9e4b5c05b99963340c4int) by (nonlinear_arith);
    lemma_quad(base_pallas_modulus(), e, 0xc760a015fe08c6da0c73bb9e676b1a79f6e2c3169744b3f800541e6e466d83eint, 1, pallas_modulus());
    let e: nat = 4 * e + 1;
    assert(quad(0x3b3904008ec6f268360c1284bcbf0c0d7605f1441e54f9e4b5c05b99963340c4int, base_pallas_modulus(), 3, pallas_modulus()) == 0x17ce6f78a7893b436a7077425cfbf0fa4e1b88708f82d799ed611f77e17c095fint) by (nonlinear_arith);
    lemma_quad(base_pallas_modulus(), e, 0x3b3904008ec6f268360c1284bcbf0c0d7605f1441e54f9e4b5c05b99963340c4int, 3, pallas_modulus());
    let e: nat = 4 * e + 3;
    assert(quad(0x17ce6f78a7893b436a7077425cfbf0fa4e1b88708f82d799ed611f77e17c095fint, base_pallas_modulus(), 3, pallas_modulus()) == 0xbc10cb6b60a804b436f026a540cd7a5a9d5155a358ca6a8f67d68694d75d8d8int) by (nonlinear_arith);
    lemma_quad(base_pallas_modulus(), e, 0x17ce6f78a7893b436a7077425cfbf0fa4e1b88708f82d799ed611f77e17c095fint, 3, pallas_modulus());
    let e: nat = 4 * e + 3;
    assert(quad(0xbc10cb6b60a804b436f026a540cd7a5a9d5155a358ca6a8f67d68694d75d8d8int, base_pallas_modulus(), 0, pallas_modulus()) == 0x200769fb000eb5918056e7cc6b18860ac7af3af98907269ee31ffb31634ba9e2int) by (nonlinear_arith);
    lemma_quad(base_pallas_modulus(), e, 0xbc10cb6b60a804b436f026a540cd7a5a9d5155a358ca6a8f67d68694d75d8d8int, 0, pallas_modulus());
    let e: nat = 4 * e + 0;
    assert(quad(0x200769fb000eb5918056e7cc6b18860ac7af3af98907269ee31ffb31634ba9e2int, base_pallas_modulus(), 3, pallas_modulus()) == 0x5a6a31ab7c652d16a0a624c38319f09e5ada872ebb349c448158605155b5860int) by (nonlinear_arith);
    lemma_quad(base_pallas_modulus(), e, 0x200769fb000eb5918056e7cc6b18860ac7af3af98907269ee31ffb31634ba9e2int, 3, pallas_modulus());
    let e: nat = 4 * e + 3;
    assert(quad(0x5a6a31ab7c652d16a0a624c38319f09e5ada872ebb349c448158605155b5860int, base_pallas_modulus(), 3, pallas_modulus()) == 0x867d7c185560bdbfe8cea7bc7b8225b84a0bd23a04e8b2805929e0b7d33fd4int) by (nonlinear_arith);
    lemma_quad(base_pallas_modulus(), e, 0x5a6a31ab7c652d16a0a624c38319f09e5ada872ebb349c448158605155b5860int, 3, pallas_modulus());
    let e: nat = 4 * e + 3;
    assert(quad(0x867d7c185560bdbfe8cea7bc7b8225b84a0bd23a04e8b2805929e0b7d33fd4int, base_pallas_modulus(), 3, pallas_modulus()) == 0x5f43423a09e530eb24da200beaed574566154563054dbed68f9b809223ab91eint) by (nonlinear_arith);
    lemma_quad(base_pallas_modulus(), e, 0x867d7c185560bdbfe8cea7bc7b8225b84a0bd23a04e8b2805929e0b7d33fd4int, 3, pallas_modulus());
    let e: nat = 4 * e + 3;
    assert(quad(0x5f43423a09e530eb24da200beaed574566154563054dbed68f9b809223ab91eint, base_pallas_modulus(), 1, pallas_modulus()) == 0x3a55e702209d11fc17211b0fbeffa6e93227f19070dd9a2c015eb90c4b78174fint) by (nonlinear_arith);
    lemma_quad(base_pallas_modulus(), e, 0x5f43423a09e530eb24da200beaed574566154563054dbed68f9b809223ab91eint, 1, pallas_modulus());
    let e: nat = 4 * e + 1;
    assert(quad(0x3a55e702209d11fc17211b0fbeffa6e93227f19070dd9a2c015eb90c4b78174fint, base_pallas_modulus(), 2, pallas_modulus()) == 0xc1c904c80e01f06afccaed98be20cb1b44a03943f890a75ae5ccdd91563f307int) by (nonlinear_arith);
    lemma_quad(base_pallas_modulus(), e, 0x3a55e702209d11fc17211b0fbeffa6e93227f19070dd9a2c015eb90c4b78174fint, 2, pallas_modulus());
    let e: nat = 4 * e + 2;
    assert(quad(0xc1c904c80e01f06afccaed98be20cb1b44a03943f890a75ae5ccdd91563f307int, base_pallas_modulus(), 2, pallas_modulus()) == 0x302566873158424a0946bc917ad43f8cf38b9dba9c864c9639d069e978c4d5bbint) by (nonlinear_arith);
    lemma_quad(base_pallas_modulus(), e, 0xc1c904c80e01f06afccaed98be20cb1b44a03943f890a75ae5ccdd91563f307int, 2, pallas_modulus());
    let e: nat = 4 * e + 2;
    assert(quad(0x302566873158424a0946bc917ad43f8cf38b9dba9c864c9639d069e978c4d5bbint, base_pallas_modulus(), 0, pallas_modulus()) == 0x2ce8b04d5a852f901a55bebd1758c26dacd03f87d5d36471d5d8fd94e8c1fb25int) by (nonlinear_arith);
    lemma_quad(base_pallas_modulus(), e, 0x302566873158424a0946bc917ad43f8cf38b9dba9c864c9639d069e978c4d5bbint, 0, pallas_modulus());
    let e: nat = 4 * e + 0;
    assert(quad(0x2ce8b04d5a852f901a55bebd1758c26dacd03f87d5d36471d5d8fd94e8c1fb25int, base_pallas_modulus(), 0, pallas_modulus()) == 0x1301f2f372038de2e396b9c200cb73a328a78510cf50ba30aec702660834d5eint) by (nonlinear_arith);
    lemma_quad(base_pallas_modulus(), e, 0x2ce8b04d5a852f901a55bebd1758c26dacd03f87d5d36471d5d8fd94e8c1fb25int, 0, pallas_modulus());
    let e: nat = 4 * e + 0;
    assert(quad(0x1301f2f372038de2e396b9c200cb73a328a78510cf50ba30aec702660834d5eint, base_pallas_modulus(), 0, pallas_modulus()) == 0x347c7c9d90ad532375757aed4e6f288552cd4842441ca06f3a9af0d720400c32int) by (nonlinear_arith);
    lemma_quad(base_pallas_modulus(), e, 0x1301f2f372038de2e396b9c200cb73a328a78510cf50ba30aec702660834d5eint, 0, pallas_modulus());
    let e: nat = 4 * e + 0;
    assert(quad(0x347c7c9d90ad532375757aed4e6f288552cd4842441ca06f3a9af0d720400c32int, base_pallas_modulus(), 1, pallas_modulus()) == 0x30c75029d8e9d984d9576da4fff6954f73901b09bf271e42138477e39b40ba9cint) by (nonlinear_arith);
    lemma_quad(base_pallas_modulus(), e, 0x347c7c9d90ad532375757aed4e6f288552cd4842441ca06f3a9af0d720400c32int, 1, pallas_modulus());
    let e: nat = 4 * e + 1;
    assert(quad(0x30c75029d8e9d984d9576da4fff6954f73901b09bf271e42138477e39b40ba9cint, base_pallas_modulus(), 2, pallas_modulus()) == 0x571a73a262d310593acdfe8eb9d0a7e062a8fdc65717b94a9f9a0d208dc9a7cint) by (nonlinear_arith);
    lemma_quad(base_pallas_modulus(), e, 0x30c75029d8e9d984d9576da4fff6954f73901b09bf271e42138477e39b40ba9cint, 2, pallas_modulus());
    let e: nat = 4 * e + 2;
    assert(quad(0x571a73a262d310593acdfe8eb9d0a7e062a8fdc65717b94a9f9a0d208dc9a7cint, base_pallas_modulus(), 3, pallas_modulus()) == 0x157c96eb5f9709ca2230fb381b34b1e68ae977e88e53507ef54168ae7343715dint) by (nonlinear_arith);
    lemma_quad(base_pallas_modulus(), e, 0x571a73a262d310593acdfe8eb9d0a7e062a8fdc65717b94a9f9a0d208dc9a7cint, 3, pallas_modulus());
    let e: nat = 4 * e + 3;
    assert(quad(0x157c96eb5f9709ca2230fb381b34b1e68ae977e88e53507ef54168ae7343715dint, base_pallas_modulus(), 0, pallas_modulus()) == 0x1121714c90b92742235ef1f8d6addfb331c5bf113097aba7c67c69d086b19a3bint) by (nonlinear_arith);
    lemma_quad(base_pallas_modulus(), e, 0x157c96eb5f9709ca2230fb381b34b1e68ae977e88e53507ef54168ae7343715dint, 0, pallas_modulus());
    let e: nat = 4 * e + 0;
    assert(quad(0x1121714c90b92742235ef1f8d6addfb331c5bf113097aba7c67c69d086b19a3bint, base_pallas_modulus(), 2, pallas_modulus()) == 0x13fb560775c0a045e39dc568246caa430417a7d14d7a7a791b46a1bcd52986a7int) by (nonlinear_arith);
    lemma_quad(base_pallas_modulus(), e, 0x1121714c90b92742235ef1f8d6addfb331c5bf113097aba7c67c69d086b19a3bint, 2, pallas_modulus());
    let e: nat = 4 * e + 2;
    assert(quad(0x13fb560775c0a045e39dc568246caa430417a7d14d7a7a791b46a1bcd52986a7int, base_pallas_modulus(), 2, pallas_modulus()) == 0xbd3c2e364487d848af454f34a12f41da331e029c202cd1c41b8b01dd6314980int) by (nonlinear_arith);
    lemma_quad(base_pallas_modulus(), e, 0x13fb560775c0a045e39dc568246caa430417a7d14d7a7a791b46a1bcd52986a7int, 2, pallas_modulus());
    let e: nat = 4 * e + 2;
    assert(quad(0xbd3c2e364487d848af454f34a12f41da331e029c202cd1c41b8b01dd6314980int, base_pallas_modulus(), 1, pallas_modulus()) == 0x25d9df2f063fdfad84421afa586870596f9f46ff3fe0cb8522976f6c4837c4daint) by (nonlinear_arith);
    lemma_quad(base_pallas_modulus(), e, 0xbd3c2e364487d848af454f34a12f41da331e029c202cd1c41b8b01dd6314980int, 1, pallas_modulus());
    let e: nat = 4 * e + 1;
    assert(quad(0x25d9df2f063fdfad84421afa586870596f9f46ff3fe0cb8522976f6c4837c4daint, base_pallas_modulus(), 3, pallas_modulus()) == 0x63e9fae4d93e8b90b804d4b37150bc072c9c0f20a2463c451a9a1b6067d786int) by (nonlinear_arith);
    lemma_quad(base_pallas_modulus(), e, 0x25d9df2f063fdfad84421afa586870596f9f46ff3fe0cb8522976f6c4837c4daint, 3, pallas_modulus());
    let e: nat = 4 * e + 3;
    assert(quad(0x63e9fae4d93e8b90b804d4b37150bc072c9c0f20a2463c451a9a1b6067d786int, base_pallas_modulus(), 0, pallas_modulus()) == 0x14d328f0bb413c281495cf06a1e9cd8519078306e60415f6097472ea1821dffint) by (nonlinear_arith);
    lemma_quad(base_pallas_modulus(), e, 0x63e9fae4d93e8b90b804d4b37150bc072c9c0f20a2463c451a9a1b6067d786int, 0, pallas_modulus());
    let e: nat = 4 * e + 0;
    assert(quad(0x14d328f0bb413c281495cf06a1e9cd8519078306e60415f6097472ea1821dffint, base_pallas_modulus(), 3, pallas_modulus()) == 0x3d02fa90669de6f26fa28a2b9f43fccf9c2e4dab68ec6685e910985d3f3b6af0int) by (nonlinear_arith);
    lemma_quad(base_pallas_modulus(), e, 0x14d328f0bb413c281495cf06a1e9cd8519078306e60415f6097472ea1821dffint, 3, pallas_modulus());
    let e: nat = 4 * e + 3;
    assert(quad(0x3d02fa90669de6f26fa28a2b9f43fccf9c2e4dab68ec6685e910985d3f3b6af0int, base_pallas_modulus(), 0, pallas_modulus()) == 0x1d9c0e6c990bec0699b16c7c5ac5fc5eaf5c58cbcdfe8ee18412952fd6ff025int) by (nonlinear_arith);
    lemma_quad(base_pallas_modulus(), e, 0x3d02fa90669de6f26fa28a2b9f43fccf9c2e4dab68ec6685e910985d3f3b6af0int, 0, pallas_modulus());
    let e: nat = 4 * e + 0;
    assert(quad(0x1d9c0e6c990bec0699b16c7c5ac5fc5eaf5c58cbcdfe8ee18412952fd6ff025int, base_pallas_modulus(), 2, pallas_modulus()) == 0x210ec4c63bf9868bc44c745bfc9ef0cec512d4ba3c42268f1d23185bac5d124int) by (nonlinear_arith);
    lemma_quad(base_pallas_modulus(), e, 0x1d9c0e6c990bec0699b16c7c5ac5fc5eaf5c58cbcdfe8ee18412952fd6ff025int, 2, pallas_modulus());
    let e: nat = 4 * e + 2;
    assert(quad(0x210ec4c63bf9868bc44c745bfc9ef0cec512d4ba3c42268f1d23185bac5d124int, base_pallas_modulus(), 1, pallas_modulus()) == 0x2206768dc4e6226dc95027d4d4345436888830a809d692e2a492b5063fe9d093int) by (nonlinear_arith);
    lemma_quad(base_pallas_modulus(), e, 0x210ec4c63bf9868bc44c745bfc9ef0cec512d4ba3c42268f1d23185bac5d124int, 1, pallas_modulus());
    let e: nat = 4 * e + 1;
    assert(quad(0x2206768dc4e6226dc95027d4d4345436888830a809d692e2a492b5063fe9d093int, base_pallas_modulus(), 0, pallas_modulus()) == 0xfff5f0c7c9848aad9e0b036a9e352245f9de361237b420874b951c4877a96ebint) by (nonlinear_arith);
    lemma_quad(base_pallas_modulus(), e, 0x2206768dc4e6226dc95027d4d4345436888830a809d692e2a492b5063fe9d093int, 0, pallas_modulus());
    let e: nat = 4 * e + 0;
    assert(quad(0xfff5f0c7c9848aad9e0b036a9e352245f9de361237b420874b951c4877a96ebint, base_pallas_modulus(), 3, pallas_modulus()) == 0x1a7932fecc518de9f31b1a60ab58063b68e464afc603121d35d48c215a4da983int) by (nonlinear_arith);
    lemma_quad(base_pallas_modulus(), e, 0xfff5f0c7c9848aad9e0b036a9e352245f9de361237b420874b951c4877a96ebint, 3, pallas_modulus());
    let e: nat = 4 * e + 3;
    assert(quad(0x1a7932fecc518de9f31b1a60ab58063b68e464afc603121d35d48c215a4da983int, base_pallas_modulus(), 3, pallas_modulus()) == 0xc4de67ab299785f070280267161967745811d3660a8f01b50c344be63f71b3fint) by (nonlinear_arith);
    lemma_quad(base_pallas_modulus(), e, 0x1a7932fecc518de9f31b1a60ab58063b68e464afc603121d35d48c215a4da983int, 3, pallas_modulus());
    let e: nat = 4 * e + 3;
    assert(quad(0xc4de67ab299785f070280267161967745811d3660a8f01b50c344be63f71b3fint, base_pallas_modulus(), 0, pallas_modulus()) == 0x13520f1d6e26e0e86f9d013dc7661791f26bcbb29600e2395422bc9e6d7466f2int) by (nonlinear_arith);
    lemma_quad(base_pallas_modulus(), e, 0xc4de67ab299785f070280267161967745811d3660a8f01b50c344be63f71b3fint, 0, pallas_modulus());
    let e: nat = 4 * e + 0;
    assert(quad(0x13520f1d6e26e0e86f9d013dc7661791f26bcbb29600e2395422bc9e6d7466f2int, base_pallas_modulus(), 2, pallas_modulus()) == 0x28906637471e92f4cb6bc58e17fa4e94fb9fa249d27c97e43b15eb183fdf0f5aint) by (nonlinear_arith);
    lemma_quad(base_pallas_modulus(), e, 0x13520f1d6e26e0e86f9d013dc7661791f26bcbb29600e2395422bc9e6d7466f2int, 2, pallas_modulus());
    let e: nat = 4 * e + 2;
    assert(quad(0x28906637471e92f4cb6bc58e17fa4e94fb9fa249d27c97e43b15eb183fdf0f5aint, base_pallas_modulus(), 2, pallas_modulus()) == 0x1aa9e8a8ebc49a2e34000b9d221deccd9fdc092c47ad954184bee8d43e400463int) by (nonlinear_arith);
    lemma_quad(base_pallas_modulus(), e, 0x28906637471e92f4cb6bc58e17fa4e94fb9fa249d27c97e43b15eb183fdf0f5aint, 2, pallas_modulus());
    let e: nat = 4 * e + 2;
    assert(quad(0x1aa9e8a8ebc49a2e34000b9d221deccd9fdc092c47ad954184bee8d43e400463int, base_pallas_modulus(), 1, pallas_modulus()) == 0x137ffeb7b73abe70ceefabddb6e00b416e2d5aae7f3d9c6c1c7d4e36e657edc2int) by (nonlinear_arith);
    lemma_quad(base_pallas_modulus(), e, 0x1aa9e8a8ebc49a2e34000b9d221deccd9fdc092c47ad954184bee8d43e400463int, 1, pallas_modulus());
    let e: nat = 4 * e + 1;
    assert(quad(0x137ffeb7b73abe70ceefabddb6e00b416e2d5aae7f3d9c6c1c7d4e36e657edc2int, base_pallas_modulus(), 2, pallas_modulus()) == 0x398ba34392d49c9723e07c2bc238094041fe25d997bf829401b20db6f5ac46b7int) by (nonlinear_arith);
    lemma_quad(base_pallas_modulus(), e, 0x137ffeb7b73abe70ceefabddb6e00b416e2d5aae7f3d9c6c1c7d4e36e657edc2int, 2, pallas_modulus());
    let e: nat = 4 * e + 2;
    assert(quad(0x398ba34392d49c9723e07c2bc238094041fe25d997bf829401b20db6f5ac46b7int, base_pallas_modulus(), 0, pallas_modulus()) == 0x177022eaf54c8ac8f7f399c321ec4ca1834918c07313251cdfd75742612584f4int) by (nonlinear_arith);
    lemma_quad(base_pallas_modulus(), e, 0x398ba34392d49c9723e07c2bc238094041fe25d997bf829401b20db6f5ac46b7int, 0, pallas_modulus());
    let e: nat = 4 * e + 0;
    assert(quad(0x177022eaf54c8ac8f7f399c321ec4ca1834918c07313251cdfd75742612584f4int, base_pallas_modulus(), 3, pallas_modulus()) == 0x31c4837fc850751db95e3c76f3873acb7a95a12b3714005a1e1d2c7864db5cf5int) by (nonlinear_arith);
    lemma_quad(base_pallas_modulus(), e, 0x177022eaf54c8ac8f7f399c321ec4ca1834918c07313251cdfd75742612584f4int, 3, pallas_modulus());
    let e: nat = 4 * e + 3;
    assert(quad(0x31c4837fc850751db95e3c76f3873acb7a95a12b3714005a1e1d2c7864db5cf5int, base_pallas_modulus(), 1, pallas_modulus()) == 0xc6c44090344560255d6814401a61b385d5c29757e2483e3deb41799c225f5f8int) by (nonlinear_arith);
    lemma_quad(base_pallas_modulus(), e, 0x31c4837fc850751db95e3c76f3873acb7a95a12b3714005a1e1d2c7864db5cf5int, 1, pallas_modulus());
    let e: nat = 4 * e + 1;
    assert(quad(0xc6c44090344560255d6814401a61b385d5c29757e2483e3deb41799c225f5f8int, base_pallas_modulus(), 1, pallas_modulus()) == 0x2f78368c21025dd352e708e0f8418b7d59ae49ba016af8f462aa80f2b11841f0int) by (nonlinear_arith);
    lemma_quad(base_pallas_modulus(), e, 0xc6c44090344560255d6814401a61b385d5c29757e2483e3deb41799c225f5f8int, 1, pallas_modulus());
    let e: nat = 4 * e + 1;
    assert(quad(0x2f78368c21025dd352e708e0f8418b7d59ae49ba016af8f462aa80f2b11841f0int, base_pallas_modulus(), 1, pallas_modulus()) == 0x302940859da1aece2ddf6c89e7af3d23a9d245c59c4d6e4da81bf9e08def9717int) by (nonlinear_arith);
    lemma_quad(base_pallas_modulus(), e, 0x2f78368c21025dd352e708e0f8418b7d59ae49ba016af8f462aa80f2b11841f0int, 1, pallas_modulus());
    let e: nat = 4 * e + 1;
    assert(quad(0x302940859da1aece2ddf6c89e7af3d23a9d245c59c4d6e4da81bf9e08def9717int, base_pallas_modulus(), 1, pallas_modulus()) == 0xe37a7de3a89f6d016a7ae20e72aeee34956e62b192881916bfbc19593a21a2dint) by (nonlinear_arith);
    lemma_quad(base_pallas_modulus(), e, 0x302940859da1aece2ddf6c89e7af3d23a9d245c59c4d6e4da81bf9e08def9717int, 1, pallas_modulus());
    let e: nat = 4 * e + 1;
    assert(quad(0xe37a7de3a89f6d016a7ae20e72aeee34956e62b192881916bfbc19593a21a2dint, base_pallas_modulus(), 0, pallas_modulus()) == 0x351380188dec6560606d555195669aa0496c0cd11b4be235b249828d264397ecint) by (nonlinear_arith);
    lemma_quad(base_pallas_modulus(), e, 0xe37a7de3a89f6d016a7ae20e72aeee34956e62b192881916bfbc19593a21a2dint, 0, pallas_modulus());
    let e: nat = 4 * e + 0;
    assert(quad(0x351380188dec6560606d555195669aa0496c0cd11b4be235b249828d264397ecint, base_pallas_modulus(), 1, pallas_modulus()) == 0x36337ea6063010350da77bfb0ec86d3324a3224bae9a7e633b05db115f01bb1dint) by (nonlinear_arith);
    lemma_quad(base_pallas_modulus(), e, 0x351380188dec6560606d555195669aa0496c0cd11b4be235b249828d264397ecint, 1, pallas_modulus());
    let e: nat = 4 * e + 1;
    assert(quad(0x36337ea6063010350da77bfb0ec86d3324a3224bae9a7e633b05db115f01bb1dint, base_pallas_modulus(), 2, pallas_modulus()) == 0x3bee96f6cef3f893786916ce8e49a276a467e03412068e5755d7d1f1745eb35bint) by (nonlinear_arith);
    lemma_quad(base_pallas_modulus(), e, 0x36337ea6063010350da77bfb0ec86d3324a3224bae9a7e633b05db115f01bb1dint, 2, pallas_modulus());
    let e: nat = 4 * e + 2;
    assert(quad(0x3bee96f6cef3f893786916ce8e49a276a467e03412068e5755d7d1f1745eb35bint, base_pallas_modulus(), 1, pallas_modulus()) == 0x39e315e9e208e1a1ea2b9b59dc736805ea420bf79074b2ffea7ca0e233f3f2d7int) by (nonlinear_arith);
    lemma_quad(base_pallas_modulus(), e, 0x3bee96f6cef3f893786916ce8e49a276a467e03412068e5755d7d1f1745eb35bint, 1, pallas_modulus());
    let e: nat = 4 * e + 1;
    assert(quad(0x39e315e9e208e1a1ea2b9b59dc736805ea420bf79074b2ffea7ca0e233f3f2d7int, base_pallas_modulus(), 1, pallas_modulus()) == 0xf416815724e7449fda9a1fce4529af89c393989da8e04557a79968c5b9dade5int) by (nonlinear_arith);
    lemma_quad(base_pallas_modulus(), e, 0x39e315e9e208e1a1ea2b9b59dc736805ea420bf79074b2ffea7ca0e233f3f2d7int, 1, pallas_modulus());
    let e: nat = 4 * e + 1;
    assert(quad(0xf416815724e7449fda9a1fce4529af89c393989da8e04557a79968c5b9dade5int, base_pallas_modulus(), 3, pallas_modulus()) == 0xbdd2536e5fda77435734ac4157c1eec6938ae5c679ec6e1a21b225a96bb79d2int) by (nonlinear_arith);
    lemma_quad(base_pallas_modulus(), e, 0xf416815724e7449fda9a1fce4529af89c393989da8e04557a79968c5b9dade5int, 3, pallas_modulus());
    let e: nat = 4 * e + 3;
    assert(quad(0xbdd2536e5fda77435734ac4157c1eec6938ae5c679ec6e1a21b225a96bb79d2int, base_pallas_modulus(), 1, pallas_modulus()) == 1int) by (nonlinear_arith);
    lemma_quad(base_pallas_modulus(), e, 0xbdd2536e5fda77435734ac4157c1eec6938ae5c679ec6e1a21b225a96bb79d2int, 1, pallas_modulus());
    let e: nat = 4 * e + 1;
    assert(e == 0x674e41aa25559f3f6806ca7324f298d5465dint);
}

/// The modulus of the Pallas base field is prime.
pub proof fn lemma_prime_pallas_modulus()
    ensures
        is_prime(pallas_modulus()),
{
    lemma_prime_143_bits();
    lemma_pow1(prime_143_bits());
    lemma_pow0(2);
    lemma_pow1(base_pallas_modulus());
    assert(pow(base_pallas_modulus(), 1) % pallas_modulus() == 0x348cdb83aa5c808a180e82875bf3b391ef293ff1cd5f81d0c402c0be7bf67293int);
    lemma_power_pallas_modulus_c();
    lemma_certify(pallas_modulus(), base_pallas_modulus(), 0x674e41aa25559f3f6806ca7324f298d5465dnat, prime_143_bits(), 1, 0x348cdb83aa5c808a180e82875bf3b391ef293ff1cd5f81d0c402c0be7bf67293int, 0x1ddc3393b0469879b74d767baeb87ef9010fca1c6e3f21fa32a6f9c9a3d2827aint);
    lemma_certified_prime(pallas_modulus(), base_pallas_modulus(), 0x674e41aa25559f3f6806ca7324f298d5465dnat, prime_143_bits(), 1, 2, 0, 0x674e41aa25559f3f6806ca7324f298d5465dint, 1, 0x674e41aa25559f3f6806ca7324f298d5465eint);
}

spec fn base_vesta_modulus() -> int {
    0x2754c501cfd7953493e76c9e99338b0bc27e1e7bdc8882117923db7cb9085c21int
}

proof fn lemma_power_vesta_modulus_a()
    ensures
        pow(base_vesta_modulus(), 0x1010dfbf7a3493f2dda01eaa774e680000000nat) % vesta_modulus() == 0x40000000000000000000000000000000224698fc0994a8dd8c46eb2100000000int,
{
    lemma_pow0(base_vesta_modulus());
    let e: nat = 0;
    assert(quad(1int, base_vesta_modulus(), 1, vesta_modulus()) == 0x2754c501cfd7953493e76c9e99338b0bc27e1e7bdc8882117923db7cb9085c21int) by (nonlinear_arith);
    lemma_quad(base_vesta_modulus(), e, 1int, 1, vesta_modulus());
    let e: nat = 4 * e + 1;
    assert(quad(0x2754c501cfd7953493e76c9e99338b0bc27e1e7bdc8882117923db7cb9085c21int, base_vesta_modulus(), 0, vesta_modulus()) == 0x20a86d3daa3ff2e3de3651345bf90e501da54247da31b398a9bbb383fabfd585int) by (nonlinear_arith);
    lemma_quad(base_vesta_modulus(), e, 0x2754c501cfd7953493e76c9e99338b0bc27e1e7bdc8882117923db7cb9085c21int, 0, vesta_modulus());
    let e: nat = 4 * e + 0;
    assert(quad(0x20a86d3daa3ff2e3de3651345bf90e501da54247da31b398a9bbb383fabfd585int, base_vesta_modulus(), 0, vesta_modulus()) == 0x3b88f91642f9ae62cadd528ee294ff6316457d7cd0a735c27c8f6f088240bfecint) by (nonlinear_arith);
    lemma_quad(base_vesta_modulus(), e, 0x20a86d3daa3ff2e3de3651345bf90e501da54247da31b398a9bbb383fabfd585int, 0, vesta_modulus());
    let e: nat = 4 * e + 0;
    assert(quad(0x3b88f91642f9ae62cadd528ee294ff6316457d7cd0a735c27c8f6f088240bfecint, base_vesta_modulus(), 0, vesta_modulus()) == 0x353acc47879709cfc6efa9f178fff0fefba81fd3519a4c1d8047cc2ab6fb3f81int) by (nonlinear_arith);
    lemma_quad(base_vesta_modulus(), e, 0x3b88f91642f9ae62cadd528ee294ff6316457d7cd0a735c27c8f6f088240bfecint, 0, vesta_modulus());
    let e: nat = 4 * e + 0;
    assert(quad(0x353acc47879709cfc6efa9f178fff0fefba81fd3519a4c1d8047cc2ab6fb3f81int, base_vesta_modulus(), 1, vesta_modulus()) == 0x363d73c5f03ce990947e9e00a00029d8ddf56e5b560296055d4ff1e9ba74e407int) by (nonlinear_arith);
    lemma_quad(base_vesta_modulus(), e, 0x353acc47879709cfc6efa9f178fff0fefba81fd3519a4c1d8047cc2ab6fb3f81int, 1, vesta_modulus());
    let e: nat = 4 * e + 1;
    assert(quad(0x363d73c5f03ce990947e9e00a00029d8ddf56e5b560296055d4ff1e9ba74e407int, base_vesta_modulus(), 0, vesta_modulus()) == 0xa725737706eb63ef69be2de3f8a71256e2069d3861f7401b41d3213beb67f55int) by (nonlinear_arith);
    lemma_quad(base_vesta_modulus(), e, 0x363d73c5f03ce990947e9e00a00029d8ddf56e5b560296055d4ff1e9ba74e407int, 0, vesta_modulus());
    let e: nat = 4 * e + 0;
    assert(quad(0xa725737706eb63ef69be2de3f8a71256e2069d3861f7401b41d3213beb67f55int, base_vesta_modulus(), 0, vesta_modulus()) == 0x372f044f4bdf50ed5740fb74e029bc7ae1c0c37798588e540d0d26dc01e5cfcdint) by (nonlinear_arith);
    lemma_quad(base_vesta_modulus(), e, 0xa725737706eb63ef69be2de3f8a71256e2069d3861f7401b41d3213beb67f55int, 0, vesta_modulus());
    let e: nat = 4 * e + 0;
    assert(quad(0x372f044f4bdf50ed5740fb74e029bc7ae1c0c37798588e540d0d26dc01e5cfcdint, base_vesta_modulus(), 3, vesta_modulus()) == 0x176c92a686ded8bcc1702e9a793cbd84a5444b620fc73d9634068c91cc75f874int) by (nonlinear_arith);
    lemma_quad(base_vesta_modulus(), e, 0x372f044f4bdf50ed5740fb74e029bc7ae1c0c37798588e540d0d26dc01e5cfcdint, 3, vesta_modulus());
    let e: nat = 4 * e + 3;
    assert(quad(0x176c92a686ded8bcc1702e9a793cbd84a5444b620fc73d9634068c91cc75f874int, base_vesta_modulus(), 1, vesta_modulus()) == 0x106fae1ba9f7bc635e2713bced072ecb2420e033c44d39c7a6abf8e61e7492e8int) by (nonlinear_arith);
    lemma_quad(base_vesta_modulus(), e, 0x176c92a686ded8bcc1702e9a793cbd84a5444b620fc73d9634068c91cc75f874int, 1, vesta_modulus());
    let e: nat = 4 * e + 1;
    assert(quad(0x106fae1ba9f7bc635e2713bced072ecb2420e033c44d39c7a6abf8e61e7492e8int, base_vesta_modulus(), 3, vesta_modulus()) == 0x2071d9445292cc13417e6118e0c3b01f49a7b2cf7c5b9be3e162ec1672086053int) by (nonlinear_arith);
    lemma_quad(base_vesta_modulus(), e, 0x106fae1ba9f7bc635e2713bced072ecb2420e033c44d39c7a6abf8e61e7492e8int, 3, vesta_modulus());
    let e: nat = 4 * e + 3;
    assert(quad(0x2071d9445292cc13417e6118e0c3b01f49a7b2cf7c5b9be3e162ec1672086053int, base_vesta_modulus(), 3, vesta_modulus()) == 0x15f339ab77fbd29a6db05f589db23e8926a1c812a39d906f25e89c83a78dfcc7int) by (nonlinear_arith);
    lemma_quad(base_vesta_modulus(), e, 0x2071d9445292cc13417e6118e0c3b01f49a7b2cf7c5b9be3e162ec1672086053int, 3, vesta_modulus());
    let e: nat = 4 * e + 3;
    assert(quad(0x15f339ab77fbd29a6db05f589db23e8926a1c812a39d906f25e89c83a78dfcc7int, base_vesta_modulus(), 2, vesta_modulus()) == 0x19583fc340e3869eaacb2b77573429d3a7732d1ec4c8f5280c2e764e6115bdd7int) by (nonlinear_arith);
    lemma_quad(base_vesta_modulus(), e, 0x15f339ab77fbd29a6db05f589db23e8926a1c812a39d906f25e89c83a78dfcc7int, 2, vesta_modulus());
    let e: nat = 4 * e + 2;
    assert(quad(0x19583fc340e3869eaacb2b77573429d3a7732d1ec4c8f5280c2e764e6115bdd7int, base_vesta_modulus(), 3, vesta_modulus()) == 0x395a1aaa32ca8edbb55209668e58d0287d8d25f2daa6b5f120dad2fccc1a629eint) by (nonlinear_arith);
    lemma_quad(base_vesta_modulus(), e, 0x19583fc340e3869eaacb2b77573429d3a7732d1ec4c8f5280c2e764e6115bdd7int, 3, vesta_modulus());
    let e: nat = 4 * e + 3;
    assert(quad(0x395a1aaa32ca8edbb55209668e58d0287d8d25f2daa6b5f120dad2fccc1a629eint, base_vesta_modulus(), 3, vesta_modulus()) == 0xd97254c7d00d027bee864a3f39bccf08c7ac096895f33cbf9cc110c65fe985bint) by (nonlinear_arith);
    lemma_quad(base_vesta_modulus(), e, 0x395a1aaa32ca8edbb55209668e58d0287d8d25f2daa6b5f120dad2fccc1a629eint, 3, vesta_modulus());
    let e: nat = 4 * e + 3;
    assert(quad(0xd97254c7d00d027bee864a3f39bccf08c7ac096895f33cbf9cc110c65fe985bint, base_vesta_modulus(), 3, vesta_modulus()) == 0x9828d06f04b45336c23b189ca0a2a09e69f3fe1dfe89dca3be2f93733921fb4int) by (nonlinear_arith);
    lemma_quad(base_vesta_modulus(), e, 0xd97254c7d00d027bee864a3f39bccf08c7ac096895f33cbf9cc110c65fe985bint, 3, vesta_modulus());
    let e: nat = 4 * e + 3;
    assert(quad(0x9828d06f04b45336c23b189ca0a2a09e69f3fe1dfe89dca3be2f93733921fb4int, base_vesta_modulus(), 1, vesta_modulus()) == 0x298dd3ac13027386da0770e3f94618be6a6a5745bc1393d320eb1614507c2b5cint) by (nonlinear_arith);
    lemma_quad(base_vesta_modulus(), e, 0x9828d06f04b45336c23b189ca0a2a09e69f3fe1dfe89dca3be2f93733921fb4int, 1, vesta_modulus());
    let e: nat = 4 * e + 1;
    assert(quad(0x298dd3ac13027386da0770e3f94618be6a6a5745bc1393d320eb1614507c2b5cint, base_vesta_modulus(), 3, vesta_modulus()) == 0xe84b5628cc55caac4f0dd1015193d692bba52bff160ba76381267b82f9ffc70int) by (nonlinear_arith);
    lemma_quad(base_vesta_modulus(), e, 0x298dd3ac13027386da0770e3f94618be6a6a5745bc1393d320eb1614507c2b5cint, 3, vesta_modulus());
    let e: nat = 4 * e + 3;
    assert(quad(0xe84b5628cc55caac4f0dd1015193d692bba52bff160ba76381267b82f9ffc70int, base_vesta_modulus(), 2, vesta_modulus()) == 0x154e56eb85c3cf7e9bdc9f9cdd0cf313164cf3e5f1f01062f877f971ba3c3451int) by (nonlinear_arith);
    lemma_quad(base_vesta_modulus(), e, 0xe84b5628cc55caac4f0dd1015193d692bba52bff160ba76381267b82f9ffc70int, 2, vesta_modulus());
    let e: nat = 4 * e + 2;
    assert(quad(0x154e56eb85c3cf7e9bdc9f9cdd0cf313164cf3e5f1f01062f877f971ba3c3451int, base_vesta_modulus(), 2, vesta_modulus()) == 0x27225271cfe22a6592b142a53806f80036dbb26c6484fafdc01280b99594caf9int) by (nonlinear_arith);
    lemma_quad(base_vesta_modulus(), e, 0x154e56eb85c3cf7e9bdc9f9cdd0cf313164cf3e5f1f01062f877f971ba3c3451int, 2, vesta_modulus());
    let e: nat = 4 * e + 2;
    assert(quad(0x27225271cfe22a6592b142a53806f80036dbb26c6484fafdc01280b99594caf9int, base_vesta_modulus(), 0, vesta_modulus()) == 0xfc2535a28e262130f93bdb8783abdbc598eeae505bc104600b0753927a4bee3int) by (nonlinear_arith);
    lemma_quad(base_vesta_modulus(), e, 0x27225271cfe22a6592b142a53806f80036dbb26c6484fafdc01280b99594caf9int, 0, vesta_modulus());
    let e: nat = 4 * e + 0;
    assert(quad(0xfc2535a28e262130f93bdb8783abdbc598eeae505bc104600b0753927a4bee3int, base_vesta_modulus(), 3, vesta_modulus()) == 0x13cdb944c1150af4e0782b1bd670481859c5fd2660c6879993ecc6cd995d1c30int) by (nonlinear_arith);
    lemma_quad(base_vesta_modulus(), e, 0xfc2535a28e262130f93bdb8783abdbc598eeae505bc104600b0753927a4bee3int, 3, vesta_modulus());
    let e: nat = 4 * e + 3;
    assert(quad(0x13cdb944c1150af4e0782b1bd670481859c5fd2660c6879993ecc6cd995d1c30int, base_vesta_modulus(), 1, vesta_modulus()) == 0x338f9ef4d7a9111a8e12b8c0996772c05dfc8488b5f803e4e3fafc0cc3093f72int) by (nonlinear_arith);
    lemma_quad(base_vesta_modulus(), e, 0x13cdb944c1150af4e0782b1bd670481859c5fd2660c6879993ecc6cd995d1c30int, 1, vesta_modulus());
    let e: nat = 4 * e + 1;
    assert(quad(0x338f9ef4d7a9111a8e12b8c0996772c05dfc8488b5f803e4e3fafc0cc3093f72int, base_vesta_modulus(), 0, vesta_modulus()) == 0x2a29c2e290dcd95bb2335e3dea3b8094b00979c1b4de042fcc730e14295e4a2fint) by (nonlinear_arith);
    lemma_quad(base_vesta_modulus(), e, 0x338f9ef4d7a9111a8e12b8c0996772c05dfc8488b5f803e4e3fafc0cc3093f72int, 0, vesta_modulus());
    let e: nat = 4 * e + 0;
    assert(quad(0x2a29c2e290dcd95bb2335e3dea3b8094b00979c1b4de042fcc730e14295e4a2fint, base_vesta_modulus(), 2, vesta_modulus()) == 0x2f71775698c47f703935d86390bbf59501312b543ef787857de534814af624f2int) by (nonlinear_arith);
    lemma_quad(base_vesta_modulus(), e, 0x2a29c2e290dcd95bb2335e3dea3b8094b00979c1b4de042fcc730e14295e4a2fint, 2, vesta_modulus());
    let e: nat = 4 * e + 2;
    assert(quad(0x2f71775698c47f703935d86390bbf59501312b543ef787857de534814af624f2int, base_vesta_modulus(), 1, vesta_modulus()) == 0x307bc1e928baf0d85e02fd5a9dd13f39f5fc458a14032fbb03bfb45c74900587int) by (nonlinear_arith);
    lemma_quad(base_vesta_modulus(), e, 0x2f71775698c47f703935d86390bbf59501312b543ef787857de534814af624f2int, 1, vesta_modulus());
    let e: nat = 4 * e + 1;
    assert(quad(0x307bc1e928baf0d85e02fd5a9dd13f39f5fc458a14032fbb03bfb45c74900587int, base_vesta_modulus(), 0, vesta_modulus()) == 0x2a6fdaed106a3f7089192cb209d4a60c0a766a3162ef7864b4ce8a13591217a8int) by (nonlinear_arith);
    lemma_quad(base_vesta_modulus(), e, 0x307bc1e928baf0d85e02fd5a9dd13f39f5fc458a14032fbb03bfb45c74900587int, 0, vesta_modulus());
    let e: nat = 4 * e + 0;
    assert(quad(0x2a6fdaed106a3f7089192cb209d4a60c0a766a3162ef7864b4ce8a13591217a8int, base_vesta_modulus(), 3, vesta_modulus()) == 0x1d1830b9d4ccd6c8134cd3431785b3bc27d60a2b002c2a2fd6a43b9ee031d024int) by (nonlinear_arith);
    lemma_quad(base_vesta_modulus(), e, 0x2a6fdaed106a3f7089192cb209d4a60c0a766a3162ef7864b4ce8a13591217a8int, 3, vesta_modulus());
    let e: nat = 4 * e + 3;
    assert(quad(0x1d1830b9d4ccd6c8134cd3431785b3bc27d60a2b002c2a2fd6a43b9ee031d024int, base_vesta_modulus(), 3, vesta_modulus()) == 0x309d0a9d9bbcc14696d74240958a27df86cd69af1c7582012880f2cc01cb6628int) by (nonlinear_arith);
    lemma_quad(base_vesta_modulus(), e, 0x1d1830b9d4ccd6c8134cd3431785b3bc27d60a2b002c2a2fd6a43b9ee031d024int, 3, vesta_modulus());
    let e: nat = 4 * e + 3;
    assert(quad(0x309d0a9d9bbcc14696d74240958a27df86cd69af1c7582012880f2cc01cb6628int, base_vesta_modulus(), 3, vesta_modulus()) == 0x11483930a78f82e10b3189e23e56e742e17deca393bfed6e144344b692b69bb2int) by (nonlinear_arith);
    lemma_quad(base_vesta_modulus(), e, 0x309d0a9d9bbcc14696d74240958a27df86cd69af1c7582012880f2cc01cb6628int, 3, vesta_modulus());
    let e: nat = 4 * e + 3;
    assert(quad(0x11483930a78f82e10b3189e23e56e742e17deca393bfed6e144344b692b69bb2int, base_vesta_modulus(), 0, vesta_modulus()) == 0x36fe6e573e1f0af507190873e84164a92f10915c3405ae67a1d5033db5dbb3b8int) by (nonlinear_arith);
    lemma_quad(base_vesta_modulus(), e, 0x11483930a78f82e10b3189e23e56e742e17deca393bfed6e144344b692b69bb2int, 0, vesta_modulus());
    let e: nat = 4 * e + 0;
    assert(quad(0x36fe6e573e1f0af507190873e84164a92f10915c3405ae67a1d5033db5dbb3b8int, base_vesta_modulus(), 2, vesta_modulus()) == 0x2357a882ae088d4cdaa414e325a95482511cf6605c4ca0f05b09cb6711f69accint) by (nonlinear_arith);
    lemma_quad(base_vesta_modulus(), e, 0x36fe6e573e1f0af507190873e84164a92f10915c3405ae67a1d5033db5dbb3b8int, 2, vesta_modulus());
    let e: nat = 4 * e + 2;
    assert(quad(0x2357a882ae088d4cdaa414e325a95482511cf6605c4ca0f05b09cb6711f69accint, base_vesta_modulus(), 3, vesta_modulus()) == 0x170243cba45bed3b4b2678ef80080883e054e30428fb536b6fe6516f21eb0e06int) by (nonlinear_arith);
    lemma_quad(base_vesta_modulus(), e, 0x2357a882ae088d4cdaa414e325a95482511cf6605c4ca0f05b09cb6711f69accint, 3, vesta_modulus());
    let e: nat = 4 * e + 3;
    assert(quad(0x170243cba45bed3b4b2678ef80080883e054e30428fb536b6fe6516f21eb0e06int, base_vesta_modulus(), 1, vesta_modulus()) == 0x25df1ac1b4dbc8ab76088d3ac5fb920b7cef8b2013ee391ffb7f663bb1025e13int) by (nonlinear_arith);
    lemma_quad(base_vesta_modulus(), e, 0x170243cba45bed3b4b2678ef80080883e054e30428fb536b6fe6516f21eb0e06int, 1, vesta_modulus());
    let e: nat = 4 * e + 1;
    assert(quad(0x25df1ac1b4dbc8ab76088d3ac5fb920b7cef8b2013ee391ffb7f663bb1025e13int, base_vesta_modulus(), 3, vesta_modulus()) == 0x39305429e9b361a7542082d2370f2af3c077798261a3b2e07cd432d559f97da9int) by (nonlinear_arith);
    lemma_quad(base_vesta_modulus(), e, 0x25df1ac1b4dbc8ab76088d3ac5fb920b7cef8b2013ee391ffb7f663bb1025e13int, 3, vesta_modulus());
    let e: nat = 4 * e + 3;
    assert(quad(0x39305429e9b361a7542082d2370f2af3c077798261a3b2e07cd432d559f97da9int, base_vesta_modulus(), 1, vesta_modulus()) == 0x3cb170555f44d2652152cf43d0803a60f4335bbd2e184524584f06c05b71d1b3int) by (nonlinear_arith);
    lemma_quad(base_vesta_modulus(), e, 0x39305429e9b361a7542082d2370f2af3c077798261a3b2e07cd432d559f97da9int, 1, vesta_modulus());
    let e: nat = 4 * e + 1;
    assert(quad(0x3cb170555f44d2652152cf43d0803a60f4335bbd2e184524584f06c05b71d1b3int, base_vesta_modulus(), 2, vesta_modulus()) == 0x33b91f04f50e5cd1049a19f78220bd6dfb8626537392d8f4081ce5af248a1dcint) by (nonlinear_arith);
    lemma_quad(base_vesta_modulus(), e, 0x3cb170555f44d2652152cf43d0803a60f4335bbd2e184524584f06c05b71d1b3int, 2, vesta_modulus());
    let e: nat = 4 * e + 2;
    assert(quad(0x33b91f04f50e5cd1049a19f78220bd6dfb8626537392d8f4081ce5af248a1dcint, base_vesta_modulus(), 2, vesta_modulus()) == 0x278abd71fed3295cb94aceda055f43fbbc30237a87202ac4497e1af00fa23b9int) by (nonlinear_arith);
    lemma_quad(base_vesta_modulus(), e, 0x33b91f04f50e5cd1049a19f78220bd6dfb8626537392d8f4081ce5af248a1dcint, 2, vesta_modulus());
    let e: nat = 4 * e + 2;
    assert(quad(0x278abd71fed3295cb94aceda055f43fbbc30237a87202ac4497e1af00fa23b9int, base_vesta_modulus(), 0, vesta_modulus()) == 0x101371cabeab5ffbc2c5136913bc14572b03d7a1981d9e0d3a98b2d51dc9ca02int) by (nonlinear_arith);
    lemma_quad(base_vesta_modulus(), e, 0x278abd71fed3295cb94aceda055f43fbbc30237a87202ac4497e1af00fa23b9int, 0, vesta_modulus());
    let e: nat = 4 * e + 0;
    assert(quad(0x101371cabeab5ffbc2c5136913bc14572b03d7a1981d9e0d3a98b2d51dc9ca02int, base_vesta_modulus(), 0, vesta_modulus()) == 0x231d8d0949c79038b14ee128be3fb6862e4c71ebde6fb1c0842645ad26589e98int) by (nonlinear_arith);
    lemma_quad(base_vesta_modulus(), e, 0x101371cabeab5ffbc2c5136913bc14572b03d7a1981d9e0d3a98b2d51dc9ca02int, 0, vesta_modulus());
    let e: nat = 4 * e + 0;
    assert(quad(0x231d8d0949c79038b14ee128be3fb6862e4c71ebde6fb1c0842645ad26589e98int, base_vesta_modulus(), 0, vesta_modulus()) == 0x950ec0b225b7d998471d0f7929d49cc7eacd5b2fd644badddb457a3cc9af36int) by (nonlinear_arith);
    lemma_quad(base_vesta_modulus(), e, 0x231d8d0949c79038b14ee128be3fb6862e4c71ebde6fb1c0842645ad26589e98int, 0, vesta_modulus());
    let e: nat = 4 * e + 0;
    assert(quad(0x950ec0b225b7d998471d0f7929d49cc7eacd5b2fd644badddb457a3cc9af36int, base_vesta_modulus(), 1, vesta_modulus()) == 0x2af6700eb69a0c7d5b53b8d95347ee2b3793041ead2d77469629b3a18f0c148fint) by (nonlinear_arith);
    lemma_quad(base_vesta_modulus(), e, 0x950ec0b225b7d998471d0f7929d49cc7eacd5b2fd644badddb457a3cc9af36int, 1, vesta_modulus());
    let e: nat = 4 * e + 1;
    assert(quad(0x2af6700eb69a0c7d5b53b8d95347ee2b3793041ead2d77469629b3a18f0c148fint, base_vesta_modulus(), 3, vesta_modulus()) == 0x286c71e3f00af20f61a63d44ad434b0cef7eedc4b494b89bb538d16f6fc2a7e5int) by (nonlinear_arith);
    lemma_quad(base_vesta_modulus(), e, 0x2af6700eb69a0c7d5b53b8d95347ee2b3793041ead2d77469629b3a18f0c148fint, 3, vesta_modulus());
    let e: nat = 4 * e + 3;
    assert(quad(0x286c71e3f00af20f61a63d44ad434b0cef7eedc4b494b89bb538d16f6fc2a7e5int, base_vesta_modulus(), 2, vesta_modulus()) == 0x12a51fef8b949368d5c096500a98cc31640e1af0ff167bca70e85c9fd9f726fbint) by (nonlinear_arith);
    lemma_quad(base_vesta_modulus(), e, 0x286c71e3f00af20f61a63d44ad434b0cef7eedc4b494b89bb538d16f6fc2a7e5int, 2, vesta_modulus());
    let e: nat = 4 * e + 2;
    assert(quad(0x12a51fef8b949368d5c096500a98cc31640e1af0ff167bca70e85c9fd9f726fbint, base_vesta_modulus(), 2, vesta_modulus()) == 0x18e14c0e12058ebae0a1b355802a16472e8ac6b78d95883dcefbc1ea349d730eint) by (nonlinear_arith);
    lemma_quad(base_vesta_modulus(), e, 0x12a51fef8b949368d5c096500a98cc31640e1af0ff167bca70e85c9fd9f726fbint, 2, vesta_modulus());
    let e: nat = 4 * e + 2;
    assert(quad(0x18e14c0e12058ebae0a1b355802a16472e8ac6b78d95883dcefbc1ea349d730eint, base_vesta_modulus(), 2, vesta_modulus()) == 0x22b821e8845269558d6c516430451c4d717c1fe29678f31c8ebce2d23d6fb94fint) by (nonlinear_arith);
    lemma_quad(base_vesta_modulus(), e, 0x18e14c0e12058ebae0a1b355802a16472e8ac6b78d95883dcefbc1ea349d730eint, 2, vesta_modulus());
    let e: nat = 4 * e + 2;
    assert(quad(0x22b821e8845269558d6c516430451c4d717c1fe29678f31c8ebce2d23d6fb94fint, base_vesta_modulus(), 2, vesta_modulus()) == 0x3a2a899eb5f5631a67d3aa39fbf5c876f308e1f5a26b47f1589801c5032b53deint) by (nonlinear_arith);
    lemma_quad(base_vesta_modulus(), e, 0x22b821e8845269558d6c516430451c4d717c1fe29678f31c8ebce2d23d6fb94fint, 2, vesta_modulus());
    let e: nat = 4 * e + 2;
    assert(quad(0x3a2a899eb5f5631a67d3aa39fbf5c876f308e1f5a26b47f1589801c5032b53deint, base_vesta_modulus(), 2, vesta_modulus()) == 0x3645ab6c4007d162aa91f59e54869386227875d7c3bdcb5f6e9501ce91578292int) by (nonlinear_arith);
    lemma_quad(base_vesta_modulus(), e, 0x3a2a899eb5f5631a67d3aa39fbf5c876f308e1f5a26b47f1589801c5032b53deint, 2, vesta_modulus());
    let e: nat = 4 * e + 2;
    assert(quad(0x3645ab6c4007d162aa91f59e54869386227875d7c3bdcb5f6e9501ce91578292int, base_vesta_modulus(), 1, vesta_modulus()) == 0x3ac2cc37d2167ab2e0964738b86142f7de8c24348ca0aee08744a39375bb26b4int) by (nonlinear_arith);
    lemma_quad(base_vesta_modulus(), e, 0x3645ab6c4007d162aa91f59e54869386227875d7c3bdcb5f6e9501ce91578292int, 1, vesta_modulus());
    let e: nat = 4 * e + 1;
    assert(quad(0x3ac2cc37d2167ab2e0964738b86142f7de8c24348ca0aee08744a39375bb26b4int, base_vesta_modulus(), 3, vesta_modulus()) == 0x3ea940c89f7ac14b4f5c3c08fa9b9d9107966b3c8ffeed21a6bdfb5deea52c87int) by (nonlinear_arith);
    lemma_quad(base_vesta_modulus(), e, 0x3ac2cc37d2167ab2e0964738b86142f7de8c24348ca0aee08744a39375bb26b4int, 3, vesta_modulus());
    let e: nat = 4 * e + 3;
    assert(quad(0x3ea940c89f7ac14b4f5c3c08fa9b9d9107966b3c8ffeed21a6bdfb5deea52c87int, base_vesta_modulus(), 1, vesta_modulus()) == 0x82aab84122b8a4a8557877b6953e7228d8f30981fa52c2d8ebe38fba86e1b44int) by (nonlinear_arith);
    lemma_quad(base_vesta_modulus(), e, 0x3ea940c89f7ac14b4f5c3c08fa9b9d9107966b3c8ffeed21a6bdfb5deea52c87int, 1, vesta_modulus());
    let e: nat = 4 * e + 1;
    assert(quad(0x82aab84122b8a4a8557877b6953e7228d8f30981fa52c2d8ebe38fba86e1b44int, base_vesta_modulus(), 3, vesta_modulus()) == 0x2ad22e7a311917003e25d7564a1d4985a079e40e00b6a29ad99f08f749c1c7f7int) by (nonlinear_arith);
    lemma_quad(base_vesta_modulus(), e, 0x82aab84122b8a4a8557877b6953e7228d8f30981fa52c2d8ebe38fba86e1b44int, 3, vesta_modulus());
    let e: nat = 4 * e + 3;
    assert(quad(0x2ad22e7a311917003e25d7564a1d4985a079e40e00b6a29ad99f08f749c1c7f7int, base_vesta_modulus(), 1, vesta_modulus()) == 0xa7456ca1ec76dcad54ae04c548d71022489cbb10ad8b53c4228f7b5c9e6ab1cint) by (nonlinear_arith);
    lemma_quad(base_vesta_modulus(), e, 0x2ad22e7a311917003e25d7564a1d4985a079e40e00b6a29ad99f08f749c1c7f7int, 1, vesta_modulus());
    let e: nat = 4 * e + 1;
    assert(quad(0xa7456ca1ec76dcad54ae04c548d71022489cbb10ad8b53c4228f7b5c9e6ab1cint, base_vesta_modulus(), 0, vesta_modulus()) == 0x3f082e146d776b88b44a7009dfc4339284b9a3d61230dea21bb27bc8615ad4efint) by (nonlinear_arith);
    lemma_quad(base_vesta_modulus(), e, 0xa7456ca1ec76dcad54ae04c548d71022489cbb10ad8b53c4228f7b5c9e6ab1cint, 0, vesta_modulus());
    let e: nat = 4 * e + 0;
    assert(quad(0x3f082e146d776b88b44a7009dfc4339284b9a3d61230dea21bb27bc8615ad4efint, base_vesta_modulus(), 3, vesta_modulus()) == 0xda8e545f10e2f0a2dd14f713e553807c9c9097a722c251cc538c4d099848fa9int) by (nonlinear_arith);
    lemma_quad(base_vesta_modulus(), e, 0x3f082e146d776b88b44a7009dfc4339284b9a3d61230dea21bb27bc8615ad4efint, 3, vesta_modulus());
    let e: nat = 4 * e + 3;
    assert(quad(0xda8e545f10e2f0a2dd14f713e553807c9c9097a722c251cc538c4d099848fa9int, base_vesta_modulus(), 2, vesta_modulus()) == 0x1f9d8c7f1412a1a2931ad10a6287bd1ca84dba3ecbfb56e9b1d8ff790a4a752aint) by (nonlinear_arith);
    lemma_quad(base_vesta_modulus(), e, 0xda8e545f10e2f0a2dd14f713e553807c9c9097a722c251cc538c4d099848fa9int, 2, vesta_modulus());
    let e: nat = 4 * e + 2;
    assert(quad(0x1f9d8c7f1412a1a2931ad10a6287bd1ca84dba3ecbfb56e9b1d8ff790a4a752aint, base_vesta_modulus(), 1, vesta_modulus()) == 0x23cfc602d609d85bdd1c65ae9d25216a2d37e3920f504fb5686cc7af41a2d50dint) by (nonlinear_arith);
    lemma_quad(base_vesta_modulus(), e, 0x1f9d8c7f1412a1a2931ad10a6287bd1ca84dba3ecbfb56e9b1d8ff790a4a752aint, 1, vesta_modulus());
    let e: nat = 4 * e + 1;
    assert(quad(0x23cfc602d609d85bdd1c65ae9d25216a2d37e3920f504fb5686cc7af41a2d50dint, base_vesta_modulus(), 2, vesta_modulus()) == 0x29f01631b977e7aad8bfe030154c412284f8f8cc9ba9f1e0c10c248e5c18d1c8int) by (nonlinear_arith);
    lemma_quad(base_vesta_modulus(), e, 0x23cfc602d609d85bdd1c65ae9d25216a2d37e3920f504fb5686cc7af41a2d50dint, 2, vesta_modulus());
    let e: nat = 4 * e + 2;
    assert(quad(0x29f01631b977e7aad8bfe030154c412284f8f8cc9ba9f1e0c10c248e5c18d1c8int, base_vesta_modulus(), 2, vesta_modulus()) == 0x2454cd742eed7ef67537dcfa8861545dad889b9cbf75b98fa2e3cb0189b96940int) by (nonlinear_arith);
    lemma_quad(base_vesta_modulus(), e, 0x29f01631b977e7aad8bfe030154c412284f8f8cc9ba9f1e0c10c248e5c18d1c8int, 2, vesta_modulus());
    let e: nat = 4 * e + 2;
    assert(quad(0x2454cd742eed7ef67537dcfa8861545dad889b9cbf75b98fa2e3cb0189b96940int, base_vesta_modulus(), 0, vesta_modulus()) == 0x391c568ae730f9186fab3b892a14f4c2c54fa59855d303e08f56c7e2f7baea1fint) by (nonlinear_arith);
    lemma_quad(base_vesta_modulus(), e, 0x2454cd742eed7ef67537dcfa8861545dad889b9cbf75b98fa2e3cb0189b96940int, 0, vesta_modulus());
    let e: nat = 4 * e + 0;
    assert(quad(0x391c568ae730f9186fab3b892a14f4c2c54fa59855d303e08f56c7e2f7baea1fint, base_vesta_modulus(), 0, vesta_modulus()) == 0x243373110039bf0838d3712a5c7d21d6ae7fcf04a0373d1b8232185f185ecc4eint) by (nonlinear_arith);
    lemma_quad(base_vesta_modulus(), e, 0x391c568ae730f9186fab3b892a14f4c2c54fa59855d303e08f56c7e2f7baea1fint, 0, vesta_modulus());
    let e: nat = 4 * e + 0;
    assert(quad(0x243373110039bf0838d3712a5c7d21d6ae7fcf04a0373d1b8232185f185ecc4eint, base_vesta_modulus(), 0, vesta_modulus()) == 0x2d68745baaeb95e8f869d3029268c3aed8040159ef7b5d4413d61370c2c53be5int) by (nonlinear_arith);
    lemma_quad(base_vesta_modulus(), e, 0x243373110039bf0838d3712a5c7d21d6ae7fcf04a0373d1b8232185f185ecc4eint, 0, vesta_modulus());
    let e: nat = 4 * e + 0;
    assert(quad(0x2d68745baaeb95e8f869d3029268c3aed8040159ef7b5d4413d61370c2c53be5int, base_vesta_modulus(), 0, vesta_modulus()) == 0x3d98188dbd8b6cf4a8efd19190dd6201e860361e5f94fcfd89d1db8020a4e9dint) by (nonlinear_arith);
    lemma_quad(base_vesta_modulus(), e, 0x2d68745baaeb95e8f869d3029268c3aed8040159ef7b5d4413d61370c2c53be5int, 0, vesta_modulus());
    let e: nat = 4 * e + 0;
    assert(quad(0x3d98188dbd8b6cf4a8efd19190dd6201e860361e5f94fcfd89d1db8020a4e9dint, base_vesta_modulus(), 0, vesta_modulus()) == 0x4a1bc274fdb738d084628c5e2a550aeb86bd32a2a7411da94e2302d3ecb4413int) by (nonlinear_arith);
    lemma_quad(base_vesta_modulus(), e, 0x3d98188dbd8b6cf4a8efd19190dd6201e860361e5f94fcfd89d1db8020a4e9dint, 0, vesta_modulus());
    let e: nat = 4 * e + 0;
    assert(quad(0x4a1bc274fdb738d084628c5e2a550aeb86bd32a2a7411da94e2302d3ecb4413int, base_vesta_modulus(), 0, vesta_modulus()) == 0x36c0b9b7293f1cd86391fec69fb965c54c0c9a15318bbb448c3a502501c9889cint) by (nonlinear_arith);
    lemma_quad(base_vesta_modulus(), e, 0x4a1bc274fdb738d084628c5e2a550aeb86bd32a2a7411da94e2302d3ecb4413int, 0, vesta_modulus());
    let e: nat = 4 * e + 0;
    assert(quad(0x36c0b9b7293f1cd86391fec69fb965c54c0c9a15318bbb448c3a502501c9889cint, base_vesta_modulus(), 0, vesta_modulus()) == 0xfd6d647f549f3c7a5ddc35793aaf9765a029f199cb10369f40dccdb3a487e07int) by (nonlinear_arith);
    lemma_quad(base_vesta_modulus(), e, 0x36c0b9b7293f1cd86391fec69fb965c54c0c9a15318bbb448c3a502501c9889cint, 0, vesta_modulus());
    let e: nat = 4 * e + 0;
    assert(quad(0xfd6d647f549f3c7a5ddc35793aaf9765a029f199cb10369f40dccdb3a487e07int, base_vesta_modulus(), 0, vesta_modulus()) == 0x130d1d6482b9c33536e280ae674431f85f4a103ef6af12c7ac4cdf0ad3edb265int) by (nonlinear_arith);
    lemma_quad(base_vesta_modulus(), e, 0xfd6d647f549f3c7a5ddc35793aaf9765a029f199cb10369f40dccdb3a487e07int, 0, vesta_modulus());
    let e: nat = 4 * e + 0;
    assert(quad(0x130d1d6482b9c33536e280ae674431f85f4a103ef6af12c7ac4cdf0ad3edb265int, base_vesta_modulus(), 0, vesta_modulus()) == 0xc4f5749d933a822edb1d70943daf2379fa2a51688418060e615350f17ecbd27int) by (nonlinear_arith);
    lemma_quad(base_vesta_modulus(), e, 0x130d1d6482b9c33536e280ae674431f85f4a103ef6af12c7ac4cdf0ad3edb265int, 0, vesta_modulus());
    let e: nat = 4 * e + 0;
    assert(quad(0xc4f5749d933a822edb1d70943daf2379fa2a51688418060e615350f17ecbd27int, base_vesta_modulus(), 0, vesta_modulus()) == 0x3a3b5103f6d0105d125b967f811966337bc1e694ef9d23f5fab7afba742345b6int) by (nonlinear_arith);
    lemma_quad(base_vesta_modulus(), e, 0xc4f5749d933a822edb1d70943daf2379fa2a51688418060e615350f17ecbd27int, 0, vesta_modulus());
    let e: nat = 4 * e + 0;
    assert(quad(0x3a3b5103f6d0105d125b967f811966337bc1e694ef9d23f5fab7afba742345b6int, base_vesta_modulus(), 0, vesta_modulus()) == 0xa76b3aee2746ca7248fbe7424b30fd0e56f60e1b61014b337c6cd0392662205int) by (nonlinear_arith);
    lemma_quad(base_vesta_modulus(), e, 0x3a3b5103f6d0105d125b967f811966337bc1e694ef9d23f5fab7afba742345b6int, 0, vesta_modulus());
    let e: nat = 4 * e + 0;
    assert(quad(0xa76b3aee2746ca7248fbe7424b30fd0e56f60e1b61014b337c6cd0392662205int, base_vesta_modulus(), 0, vesta_modulus()) == 0xac2b27df9801aeeb00395097a12eba4f672421e7eec3017abae64af09e771c0int) by (nonlinear_arith);
    lemma_quad(base_vesta_modulus(), e, 0xa76b3aee2746ca7248fbe7424b30fd0e56f60e1b61014b337c6cd0392662205int, 0, vesta_modulus());
    let e: nat = 4 * e + 0;
    assert(quad(0xac2b27df9801aeeb00395097a12eba4f672421e7eec3017abae64af09e771c0int, base_vesta_modulus(), 0, vesta_modulus()) == 0x3ccd3ef9d021fce51160f869c45a2797f50c987af189da55a42622b9918303ecint) by (nonlinear_arith);
    lemma_quad(base_vesta_modulus(), e, 0xac2b27df9801aeeb00395097a12eba4f672421e7eec3017abae64af09e771c0int, 0, vesta_modulus());
    let e: nat = 4 * e + 0;
    assert(quad(0x3ccd3ef9d021fce51160f869c45a2797f50c987af189da55a42622b9918303ecint, base_vesta_modulus(), 0, vesta_modulus()) == 0x3a57bee9fb370430aa5f610ed09c17fe7e538bca7c94ad2b1ba3a33bc04980a4int) by (nonlinear_arith);
    lemma_quad(base_vesta_modulus(), e, 0x3ccd3ef9d021fce51160f869c45a2797f50c987af189da55a42622b9918303ecint, 0, vesta_modulus());
    let e: nat = 4 * e + 0;
    assert(quad(0x3a57bee9fb370430aa5f610ed09c17fe7e538bca7c94ad2b1ba3a33bc04980a4int, base_vesta_modulus(), 0, vesta_modulus()) == 0x40000000000000000000000000000000224698fc0994a8dd8c46eb2100000000int) by (nonlinear_arith);
    lemma_quad(base_vesta_modulus(), e, 0x3a57bee9fb370430aa5f610ed09c17fe7e538bca7c94ad2b1ba3a33bc04980a4int, 0, vesta_modulus());
    let e: nat = 4 * e + 0;
    assert(e == 0x1010dfbf7a3493f2dda01eaa774e680000000int);
}

proof fn lemma_power_vesta_modulus_b()
    ensures
        pow(base_vesta_modulus(), 0x100000000nat) % vesta_modulus() == 0x3f42d224c151dcaa1671888a347b783e85b4744fbb845e4356ab1cfa2ceadaeint,
{
    lemma_pow0(base_vesta_modulus());
    let e: nat = 0;
    assert(quad(1int, base_vesta_modulus(), 1, vesta_modulus()) == 0x2754c501cfd7953493e76c9e99338b0bc27e1e7bdc8882117923db7cb9085c21int) by (nonlinear_arith);
    lemma_quad(base_vesta_modulus(), e, 1int, 1, vesta_modulus());
    let e: nat = 4 * e + 1;
    assert(quad(0x2754c501cfd7953493e76c9e99338b0bc27e1e7bdc8882117923db7cb9085c21int, base_vesta_modulus(), 0, vesta_modulus()) == 0x20a86d3daa3ff2e3de3651345bf90e501da54247da31b398a9bbb383fabfd585int) by (nonlinear_arith);
    lemma_quad(base_vesta_modulus(), e, 0x2754c501cfd7953493e76c9e99338b0bc27e1e7bdc8882117923db7cb9085c21int, 0, vesta_modulus());
    let e: nat = 4 * e + 0;
    assert(quad(0x20a86d3daa3ff2e3de3651345bf90e501da54247da31b398a9bbb383fabfd585int, base_vesta_modulus(), 0, vesta_modulus()) == 0x3b88f91642f9ae62cadd528ee294ff6316457d7cd0a735c27c8f6f088240bfecint) by (nonlinear_arith);
    lemma_quad(base_vesta_modulus(), e, 0x20a86d3daa3ff2e3de3651345bf90e501da54247da31b398a9bbb383fabfd585int, 0, vesta_modulus());
    let e: nat = 4 * e + 0;
    assert(quad(0x3b88f91642f9ae62cadd528ee294ff6316457d7cd0a735c27c8f6f088240bfecint, base_vesta_modulus(), 0, vesta_modulus()) == 0x353acc47879709cfc6efa9f178fff0fefba81fd3519a4c1d8047cc2ab6fb3f81int) by (nonlinear_arith);
    lemma_quad(base_vesta_modulus(), e, 0x3b88f91642f9ae62cadd528ee294ff6316457d7cd0a735c27c8f6f088240bfecint, 0, vesta_modulus());
    let e: nat = 4 * e + 0;
    assert(quad(0x353acc47879709cfc6efa9f178fff0fefba81fd3519a4c1d8047cc2ab6fb3f81int, base_vesta_modulus(), 0, vesta_modulus()) == 0x1ed93a0b1a40973e7b5f3caebba8dea870d44d4cd4a1571e092d787d8e5b857dint) by (nonlinear_arith);
    lemma_quad(base_vesta_modulus(), e, 0x353acc47879709cfc6efa9f178fff0fefba81fd3519a4c1d8047cc2ab6fb3f81int, 0, vesta_modulus());
    let e: nat = 4 * e + 0;
    assert(quad(0x1ed93a0b1a40973e7b5f3caebba8dea870d44d4cd4a1571e092d787d8e5b857dint, base_vesta_modulus(), 0, vesta_modulus()) == 0x28c923e61623e19181fee1d94b9ddba22ff8b4eee80366d74f74408106c6beaint) by (nonlinear_arith);
    lemma_quad(base_vesta_modulus(), e, 0x1ed93a0b1a40973e7b5f3caebba8dea870d44d4cd4a1571e092d787d8e5b857dint, 0, vesta_modulus());
    let e: nat = 4 * e + 0;
    assert(quad(0x28c923e61623e19181fee1d94b9ddba22ff8b4eee80366d74f74408106c6beaint, base_vesta_modulus(), 0, vesta_modulus()) == 0x309d0dd87e074b03aa4e266716ac7c96c3346fb30be9a87b8c6949b2a46ea0a5int) by (nonlinear_arith);
    lemma_quad(base_vesta_modulus(), e, 0x28c923e61623e19181fee1d94b9ddba22ff8b4eee80366d74f74408106c6beaint, 0, vesta_modulus());
    let e: nat = 4 * e + 0;
    assert(quad(0x309d0dd87e074b03aa4e266716ac7c96c3346fb30be9a87b8c6949b2a46ea0a5int, base_vesta_modulus(), 0, vesta_modulus()) == 0xcbb2ac72c4cb8b764c8f2123517a9e2d373cc391f2197cfac7c6633ce70c44aint) by (nonlinear_arith);
    lemma_quad(base_vesta_modulus(), e, 0x309d0dd87e074b03aa4e266716ac7c96c3346fb30be9a87b8c6949b2a46ea0a5int, 0, vesta_modulus());
    let e: nat = 4 * e + 0;
    assert(quad(0xcbb2ac72c4cb8b764c8f2123517a9e2d373cc391f2197cfac7c6633ce70c44aint, base_vesta_modulus(), 0, vesta_modulus()) == 0x2152b69a1fca3d734a8ed11f24fe8df7b98189e67487eeafba0bc18e4098118aint) by (nonlinear_arith);
    lemma_quad(base_vesta_modulus(), e, 0xcbb2ac72c4cb8b764c8f2123517a9e2d373cc391f2197cfac7c6633ce70c44aint, 0, vesta_modulus());
    let e: nat = 4 * e + 0;
    assert(quad(0x2152b69a1fca3d734a8ed11f24fe8df7b98189e67487eeafba0bc18e4098118aint, base_vesta_modulus(), 0, vesta_modulus()) == 0x6c8250302901bfeca6078d289048072f041278802bcea277537325ca6d97f74int) by (nonlinear_arith);
    lemma_quad(base_vesta_modulus(), e, 0x2152b69a1fca3d734a8ed11f24fe8df7b98189e67487eeafba0bc18e4098118aint, 0, vesta_modulus());
    let e: nat = 4 * e + 0;
    assert(quad(0x6c8250302901bfeca6078d289048072f041278802bcea277537325ca6d97f74int, base_vesta_modulus(), 0, vesta_modulus()) == 0x3dbff5b22bdfc7e9ea88fd6db16a6b54dbec9c045b8c9c269485c34f77054a27int) by (nonlinear_arith);
    lemma_quad(base_vesta_modulus(), e, 0x6c8250302901bfeca6078d289048072f041278802bcea277537325ca6d97f74int, 0, vesta_modulus());
    let e: nat = 4 * e + 0;
    assert(quad(0x3dbff5b22bdfc7e9ea88fd6db16a6b54dbec9c045b8c9c269485c34f77054a27int, base_vesta_modulus(), 0, vesta_modulus()) == 0x3a7572699f2f7ffff8a9599217095e974d857c4a0f76a2747d238565ed2530bdint) by (nonlinear_arith);
    lemma_quad(base_vesta_modulus(), e, 0x3dbff5b22bdfc7e9ea88fd6db16a6b54dbec9c045b8c9c269485c34f77054a27int, 0, vesta_modulus());
    let e: nat = 4 * e + 0;
    assert(quad(0x3a7572699f2f7ffff8a9599217095e974d857c4a0f76a2747d238565ed2530bdint, base_vesta_modulus(), 0, vesta_modulus()) == 0x1aeaa5200adb8f6447bf872b374103b127b9f4d51ed57d6366682e11a899c991int) by (nonlinear_arith);
    lemma_quad(base_vesta_modulus(), e, 0x3a7572699f2f7ffff8a9599217095e974d857c4a0f76a2747d238565ed2530bdint, 0, vesta_modulus());
    let e: nat = 4 * e + 0;
    assert(quad(0x1aeaa5200adb8f6447bf872b374103b127b9f4d51ed57d6366682e11a899c991int, base_vesta_modulus(), 0, vesta_modulus()) == 0x13739cd46e7258dd05e01e26579c6ddf6f3214b0c21ab04940047d57dea86e3bint) by (nonlinear_arith);
    lemma_quad(base_vesta_modulus(), e, 0x1aeaa5200adb8f6447bf872b374103b127b9f4d51ed57d6366682e11a899c991int, 0, vesta_modulus());
    let e: nat = 4 * e + 0;
    assert(quad(0x13739cd46e7258dd05e01e26579c6ddf6f3214b0c21ab04940047d57dea86e3bint, base_vesta_modulus(), 0, vesta_modulus()) == 0x3dac991d9e04f0de61483c33730d12a69d029e8ec85a68a7ba0361a23ed9df47int) by (nonlinear_arith);
    lemma_quad(base_vesta_modulus(), e, 0x13739cd46e7258dd05e01e26579c6ddf6f3214b0c21ab04940047d57dea86e3bint, 0, vesta_modulus());
    let e: nat = 4 * e + 0;
    assert(quad(0x3dac991d9e04f0de61483c33730d12a69d029e8ec85a68a7ba0361a23ed9df47int, base_vesta_modulus(), 0, vesta_modulus()) == 0x2edc62fa8b0756eb5239bfa911ccb3b3eee3ce087d4c9e0bd510d32c89b6114dint) by (nonlinear_arith);
    lemma_quad(base_vesta_modulus(), e, 0x3dac991d9e04f0de61483c33730d12a69d029e8ec85a68a7ba0361a23ed9df47int, 0, vesta_modulus());
    let e: nat = 4 * e + 0;
    assert(quad(0x2edc62fa8b0756eb5239bfa911ccb3b3eee3ce087d4c9e0bd510d32c89b6114dint, base_vesta_modulus(), 0, vesta_modulus()) == 0x3f42d224c151dcaa1671888a347b783e85b4744fbb845e4356ab1cfa2ceadaeint) by (nonlinear_arith);
    lemma_quad(base_vesta_modulus(), e, 0x2edc62fa8b0756eb5239bfa911ccb3b3eee3ce087d4c9e0bd510d32c89b6114dint, 0, vesta_modulus());
    let e: nat = 4 * e + 0;
    assert(e == 0x100000000int);
}

spec fn root_vesta_modulus() -> int {
    0x40000000000000000000000000000000224698fc0994a8dd8c46eb2100000000int
}

proof fn lemma_power_vesta_modulus_c()
    ensures
        pow(root_vesta_modulus(), 2nat) % vesta_modulus() == 1int,
{
    lemma_pow0(root_vesta_modulus());
    let e: nat = 0;
    assert(quad(1int, root_vesta_modulus(), 2, vesta_modulus()) == 1int) by (nonlinear_arith);
    lemma_quad(root_vesta_modulus(), e, 1int, 2, vesta_modulus());
    let e: nat = 4 * e + 2;
    assert(e == 2int);
}

/// The modulus of the Vesta base field is prime.
pub proof fn lemma_prime_vesta_modulus()
    ensures
        is_prime(vesta_modulus()),
{
    lemma_prime_2();
    assert(pow(2int, 32) == 0x100000000int) by {
        reveal_with_fuel(pow, 33);
    }
    lemma_prime_114_bits();
    lemma_pow1(prime_114_bits());
    lemma_power_vesta_modulus_a();
    lemma_power_vesta_modulus_b();
    lemma_power_vesta_modulus_c();
    lemma_power_of_power(base_vesta_modulus(), 0x1010dfbf7a3493f2dda01eaa774e680000000nat, root_vesta_modulus(), 2nat, vesta_modulus());
    lemma_certify(vesta_modulus(), base_vesta_modulus(), 0x2021bf7ef46927e5bb403d54ee9cd00000000nat, 2int, 32, 0x40000000000000000000000000000000224698fc0994a8dd8c46eb2100000000int, 0x2000000000000000000000000000000011234c7e04ca546ec623759080000000int);
    lemma_certify(vesta_modulus(), base_vesta_modulus(), 0x2021bf7ef46927e5bb403d54ee9cd00000000nat, prime_114_bits(), 1, 0x3f42d224c151dcaa1671888a347b783e85b4744fbb845e4356ab1cfa2ceadaeint, 0x2665431971e8ff538bcdf34f631774e3927bbbaa4e73871661d05ab40c94bb5aint);
    lemma_certified_prime(vesta_modulus(), base_vesta_modulus(), 0x2021bf7ef46927e5bb403d54ee9cd00000000nat, 2int, 32, prime_114_bits(), 1, 0x100000000int, 0x2021bf7ef46927e5bb403d54ee9cdint, 0x2021bf7ef46927e5bb403d54ee9cd00000001int);
}

} // verus!

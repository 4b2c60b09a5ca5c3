//! Field elements in Montgomery form.
use crate::field::congruence::{
    congruent, lemma_congruent_cancel, lemma_congruent_mod, lemma_congruent_multiple,
    lemma_congruent_ops, lemma_congruent_small,
};
use crate::field::limbs::{
    add_limbs, base256, eq_limbs, halve_limbs, is_zero_limbs, lemma_limbs_value, limbs_value,
    montgomery_mul, montgomery_reduce, sub_limbs, wide_mul, Limbs,
};
use crate::field::primes::{is_inverse, is_prime};
use crate::field::{Modulus, PallasBase, VestaBase};
use std::marker::PhantomData;
use vstd::arithmetic::div_mod::{lemma_mod_multiples_basic, lemma_small_mod};
use vstd::arithmetic::power::{lemma_pow0, lemma_pow1, lemma_pow_adds, pow};
use vstd::prelude::*;

verus! {

/// An element of the prime field with modulus `M`; its view is the residue it stands for.
#[derive(Debug)]
pub struct Fe<M: Modulus> {
    limbs: Limbs,
    marker: PhantomData<M>,
}

impl<M: Modulus> Clone for Fe<M> {
    fn clone(&self) -> (r: Self)
        ensures
            r == *self,
    {
        *self
    }
}

impl<M: Modulus> Copy for Fe<M> {
}

/// An element of the Pallas base field.
pub type Fp = Fe<PallasBase>;

/// An element of the Vesta base field.
pub type Fq = Fe<VestaBase>;

impl<M: Modulus> View for Fe<M> {
    type V = int;

    closed spec fn view(&self) -> int {
        (limbs_value(self.limbs) * M::radix_inverse()) % M::p()
    }
}

impl<M: Modulus> Fe<M> {
    #[verifier::type_invariant]
    spec fn canonical(self) -> bool {
        limbs_value(self.limbs) < M::p()
    }

    /// The view of an element is a residue.
    pub proof fn lemma_view(self)
        ensures
            0 <= self@ < M::p(),
    {
        M::lemma_modulus();
        lemma_congruent_mod(limbs_value(self.limbs) * M::radix_inverse(), M::p());
    }

    /// Canonical elements with the same view hold the same limbs.
    proof fn lemma_injective(a: Self, b: Self)
        requires
            a.canonical(),
            b.canonical(),
            a@ == b@,
        ensures
            limbs_value(a.limbs) == limbs_value(b.limbs),
    {
        M::lemma_modulus();
        let (x, y) = (limbs_value(a.limbs), limbs_value(b.limbs));
        let (r, w) = (base256(), M::radix_inverse());
        assert(w * r == r * w) by (nonlinear_arith);
        lemma_congruent_cancel(w, r, x, y, M::p());
        lemma_limbs_value(a.limbs, b.limbs);
        lemma_limbs_value(b.limbs, a.limbs);
        lemma_congruent_small(x, y, M::p());
    }

    /// The limbs of an element are its view times the radix.
    proof fn lemma_limbs_of_view(a: Self)
        ensures
            congruent(limbs_value(a.limbs), a@ * base256(), M::p()),
    {
        M::lemma_modulus();
        let x = limbs_value(a.limbs);
        let (r, w) = (base256(), M::radix_inverse());
        lemma_congruent_mod(x * w, M::p());
        lemma_congruent_ops(a@, x * w, r, r, M::p());
        assert((x * w) * r == x * (r * w)) by (nonlinear_arith);
        lemma_small_mod(1, M::p() as nat);
        lemma_congruent_ops(x, x, r * w, 1, M::p());
    }

    /// Limbs congruent to `v` times the radix stand for `v`.
    proof fn lemma_view_of_limbs(a: Self, v: int)
        requires
            congruent(limbs_value(a.limbs), v * base256(), M::p()),
        ensures
            a@ == v % M::p(),
    {
        M::lemma_modulus();
        let x = limbs_value(a.limbs);
        let (r, w) = (base256(), M::radix_inverse());
        lemma_congruent_ops(x, v * r, w, w, M::p());
        assert((v * r) * w == v * (r * w)) by (nonlinear_arith);
        lemma_small_mod(1, M::p() as nat);
        lemma_congruent_ops(v, v, r * w, 1, M::p());
    }

    /// Zero.
    pub fn zero() -> (r: Self)
        ensures
            r@ == 0,
    {
        proof {
            M::lemma_modulus();
        }
        let r = Fe { limbs: [0, 0, 0, 0], marker: PhantomData };
        proof {
            Self::lemma_view_of_limbs(r, 0);
            lemma_small_mod(0, M::p() as nat);
        }
        r
    }

    /// One.
    pub fn one() -> (r: Self)
        ensures
            r@ == 1,
    {
        proof {
            M::lemma_modulus();
            lemma_congruent_mod(base256(), M::p());
        }
        let r = Fe { limbs: M::radix(), marker: PhantomData };
        proof {
            Self::lemma_view_of_limbs(r, 1);
            lemma_small_mod(1, M::p() as nat);
        }
        r
    }

    /// The residue of a 256-bit integer given as limbs below the modulus.
    fn from_reduced(limbs: Limbs) -> (r: Self)
        requires
            limbs_value(limbs) < M::p(),
        ensures
            r@ == limbs_value(limbs),
    {
        proof {
            M::lemma_modulus();
            lemma_congruent_mod(base256() * base256(), M::p());
            lemma_limbs_value(limbs, limbs);
        }
        let out = montgomery_mul(&limbs, &M::radix_squared(), &M::limbs(), M::inv());
        let r = Fe { limbs: out, marker: PhantomData };
        proof {
            let p = M::p();
            let (x, o, b) = (limbs_value(limbs), limbs_value(out), base256());
            lemma_congruent_ops(x, x, (b * b) % p, b * b, p);
            assert(congruent(o * b, (x * b) * b, p)) by {
                assert(x * (b * b) == (x * b) * b) by (nonlinear_arith);
            }
            lemma_congruent_cancel(b, M::radix_inverse(), o, x * b, p);
            Self::lemma_view_of_limbs(r, x);
            lemma_small_mod(x as nat, p as nat);
        }
        r
    }

    /// The residue of a 256-bit integer given by its little-endian limbs.
    pub fn from_raw(limbs: Limbs) -> (r: Self)
        ensures
            r@ == limbs_value(limbs) % M::p(),
    {
        proof {
            M::lemma_modulus();
            lemma_limbs_value(limbs, limbs);
        }
        // Four subtractions suffice, as the modulus exceeds a quarter of the radix.
        let m = M::limbs();
        let (d1, below1) = sub_limbs(&limbs, &m);
        let x1 = if below1 { limbs } else { d1 };
        let (d2, below2) = sub_limbs(&x1, &m);
        let x2 = if below2 { x1 } else { d2 };
        let (d3, below3) = sub_limbs(&x2, &m);
        let x3 = if below3 { x2 } else { d3 };
        proof {
            let p = M::p();
            let x = limbs_value(limbs);
            lemma_limbs_value(x3, x3);
            let k = (if below1 { 0int } else { 1 }) + (if below2 { 0int } else { 1 }) + (if below3 {
                0int
            } else {
                1
            });
            assert(limbs_value(x3) < p);
            assert(x == limbs_value(x3) + k * p) by {
                assert(k * p == (if below1 { 0 } else { p }) + (if below2 { 0 } else { p }) + (
                if below3 { 0 } else { p })) by (nonlinear_arith)
                    requires
                        k == (if below1 { 0int } else { 1 }) + (if below2 { 0int } else { 1 }) + (
                        if below3 { 0int } else { 1 }),
                ;
            }
            lemma_congruent_multiple(x, limbs_value(x3), k, p);
            lemma_small_mod(limbs_value(x3) as nat, p as nat);
        }
        Self::from_reduced(x3)
    }

    /// The residue of a 64-bit integer.
    pub fn from_u64(value: u64) -> (r: Self)
        ensures
            r@ == value,
    {
        proof {
            M::lemma_modulus();
        }
        Self::from_reduced([value, 0, 0, 0])
    }

    /// The residue of a 128-bit integer.
    pub fn from_u128(value: u128) -> (r: Self)
        ensures
            r@ == value,
    {
        proof {
            M::lemma_modulus();
            assert(value == (value as u64) as u128 + ((value >> 64) as u64) as u128
                * 0x1_0000_0000_0000_0000) by (bit_vector);
        }
        Self::from_reduced([value as u64, (value >> 64) as u64, 0, 0])
    }

    /// The limbs of the canonical residue.
    pub fn to_limbs(self) -> (r: Limbs)
        ensures
            limbs_value(r) == self@,
    {
        proof {
            use_type_invariant(&self);
            M::lemma_modulus();
        }
        let r = montgomery_reduce(&self.limbs, &[0, 0, 0, 0], &M::limbs(), M::inv());
        proof {
            Self::lemma_limbs_of_view(self);
            lemma_limbs_value(r, r);
            lemma_congruent_cancel(
                base256(),
                M::radix_inverse(),
                limbs_value(r),
                self@,
                M::p(),
            );
            self.lemma_view();
            lemma_congruent_small(limbs_value(r), self@, M::p());
        }
        r
    }

    /// The sum.
    pub fn add(self, rhs: Self) -> (r: Self)
        ensures
            r@ == (self@ + rhs@) % M::p(),
    {
        proof {
            use_type_invariant(&self);
            use_type_invariant(&rhs);
            M::lemma_modulus();
            lemma_limbs_value(self.limbs, rhs.limbs);
            lemma_limbs_value(rhs.limbs, rhs.limbs);
        }
        let (s, _) = add_limbs(&self.limbs, &rhs.limbs);
        let (d, below) = sub_limbs(&s, &M::limbs());
        let limbs = if below { s } else { d };
        let r = Fe { limbs, marker: PhantomData };
        proof {
            let (x, y) = (limbs_value(self.limbs), limbs_value(rhs.limbs));
            lemma_congruent_multiple(
                x + y,
                limbs_value(limbs),
                if below { 0 } else { 1 },
                M::p(),
            );
            Self::lemma_limbs_of_view(self);
            Self::lemma_limbs_of_view(rhs);
            lemma_congruent_ops(x, self@ * base256(), y, rhs@ * base256(), M::p());
            assert(self@ * base256() + rhs@ * base256() == (self@ + rhs@) * base256())
                by (nonlinear_arith);
            Self::lemma_view_of_limbs(r, self@ + rhs@);
        }
        r
    }

    /// The difference.
    pub fn sub(self, rhs: Self) -> (r: Self)
        ensures
            r@ == (self@ - rhs@) % M::p(),
    {
        proof {
            use_type_invariant(&self);
            use_type_invariant(&rhs);
            M::lemma_modulus();
            lemma_limbs_value(self.limbs, rhs.limbs);
            lemma_limbs_value(rhs.limbs, rhs.limbs);
        }
        let (d, below) = sub_limbs(&self.limbs, &rhs.limbs);
        let (s, _) = add_limbs(&d, &M::limbs());
        let limbs = if below { s } else { d };
        proof {
            lemma_limbs_value(d, s);
            lemma_limbs_value(s, s);
        }
        let r = Fe { limbs, marker: PhantomData };
        proof {
            let (x, y) = (limbs_value(self.limbs), limbs_value(rhs.limbs));
            lemma_congruent_multiple(
                x - y,
                limbs_value(limbs),
                if below { -1 } else { 0 },
                M::p(),
            );
            Self::lemma_limbs_of_view(self);
            Self::lemma_limbs_of_view(rhs);
            lemma_congruent_ops(x, self@ * base256(), y, rhs@ * base256(), M::p());
            assert(self@ * base256() - rhs@ * base256() == (self@ - rhs@) * base256())
                by (nonlinear_arith);
            Self::lemma_view_of_limbs(r, self@ - rhs@);
        }
        r
    }

    /// The negation.
    pub fn neg(self) -> (r: Self)
        ensures
            r@ == (-self@) % M::p(),
    {
        let r = Self::zero().sub(self);
        assert(0 - self@ == -self@);
        r
    }

    /// The double.
    pub fn double(self) -> (r: Self)
        ensures
            r@ == (2 * self@) % M::p(),
    {
        self.add(self)
    }

    /// The product.
    pub fn mul(self, rhs: Self) -> (r: Self)
        ensures
            r@ == (self@ * rhs@) % M::p(),
    {
        proof {
            use_type_invariant(&self);
            use_type_invariant(&rhs);
            M::lemma_modulus();
        }
        let limbs = montgomery_mul(&self.limbs, &rhs.limbs, &M::limbs(), M::inv());
        let r = Fe { limbs, marker: PhantomData };
        proof {
            let (x, y, o, b) = (
                limbs_value(self.limbs),
                limbs_value(rhs.limbs),
                limbs_value(limbs),
                base256(),
            );
            let v = self@ * rhs@;
            Self::lemma_limbs_of_view(self);
            Self::lemma_limbs_of_view(rhs);
            lemma_congruent_ops(x, self@ * b, y, rhs@ * b, M::p());
            assert((self@ * b) * (rhs@ * b) == (v * b) * b) by (nonlinear_arith)
                requires
                    v == self@ * rhs@,
            ;
            lemma_congruent_cancel(b, M::radix_inverse(), o, v * b, M::p());
            Self::lemma_view_of_limbs(r, v);
        }
        r
    }

    /// The square.
    pub fn square(self) -> (r: Self)
        ensures
            r@ == (self@ * self@) % M::p(),
    {
        self.mul(self)
    }

    /// Whether the element is zero.
    pub fn is_zero(self) -> (r: bool)
        ensures
            r == (self@ == 0),
    {
        self.same(Self::zero())
    }

    /// Whether two elements are equal.
    pub fn same(self, rhs: Self) -> (r: bool)
        ensures
            r == (self@ == rhs@),
    {
        proof {
            use_type_invariant(&self);
            use_type_invariant(&rhs);
            if self@ == rhs@ {
                Self::lemma_injective(self, rhs);
            }
        }
        let r = eq_limbs(&self.limbs, &rhs.limbs);
        r
    }

    /// The nontrivial cube root of one that the curve endomorphism uses.
    pub fn zeta() -> (r: Self)
        ensures
            r@ == M::cube_root(),
    {
        proof {
            M::lemma_modulus();
        }
        Self::from_reduced(M::cube_root_limbs())
    }

    /// A primitive root of one of order two to the 32.
    pub fn root_of_unity() -> (r: Self)
        ensures
            r@ == M::two_adic_root(),
    {
        proof {
            M::lemma_modulus();
        }
        Self::from_reduced(M::two_adic_root_limbs())
    }

    /// The inverse of two.
    pub fn two_inv() -> (r: Self)
        ensures
            r@ == (M::p() + 1) / 2,
            (2 * r@) % M::p() == 1,
    {
        proof {
            M::lemma_modulus();
        }
        let (h, _) = halve_limbs(&M::limbs());
        let (s, _) = add_limbs(&h, &[1, 0, 0, 0]);
        let r = Self::from_reduced(s);
        proof {
            lemma_congruent_multiple(2 * r@, 1, 1, M::p());
            lemma_small_mod(1, M::p() as nat);
        }
        r
    }

    /// The `exponent`-th power.
    pub fn pow_vartime(self, exponent: u64) -> (r: Self)
        ensures
            r@ == pow(self@, exponent as nat) % M::p(),
    {
        proof {
            M::lemma_modulus();
            lemma_pow0(self@);
            lemma_pow1(self@);
            self.lemma_view();
            lemma_small_mod(self@ as nat, M::p() as nat);
            lemma_small_mod(1, M::p() as nat);
        }
        let mut acc = Self::one();
        let mut base = self;
        let mut e: u64 = exponent;
        let ghost mut step: nat = 1;
        let ghost mut done: nat = 0;
        assert(step * (e as nat) == exponent as nat) by (nonlinear_arith)
            requires
                step == 1,
                e == exponent,
        ;
        while e > 0
            invariant
                M::p() > 1,
                acc@ == pow(self@, done) % M::p(),
                base@ == pow(self@, step) % M::p(),
                done + step * (e as nat) == exponent as nat,
            decreases e,
        {
            let ghost (acc0, base0, e0, step0, done0) = (acc, base, e, step, done);
            if e % 2 == 1 {
                acc = acc.mul(base);
                proof {
                    done = done + step;
                    lemma_pow_adds(self@, done0, step);
                    lemma_congruent_mod(pow(self@, done0), M::p());
                    lemma_congruent_mod(pow(self@, step), M::p());
                    lemma_congruent_ops(
                        acc0@,
                        pow(self@, done0),
                        base@,
                        pow(self@, step),
                        M::p(),
                    );
                }
            }
            base = base.square();
            e = e / 2;
            proof {
                step = step + step;
                lemma_pow_adds(self@, step0, step0);
                lemma_congruent_mod(pow(self@, step0), M::p());
                lemma_congruent_ops(
                    base0@,
                    pow(self@, step0),
                    base0@,
                    pow(self@, step0),
                    M::p(),
                );
                let h = (e0 / 2) as nat;
                if e0 % 2 == 1 {
                    assert(done0 + step0 * (e0 as nat) == done0 + step0 + (step0 + step0) * h)
                        by (nonlinear_arith)
                        requires
                            e0 == 2 * h + 1,
                    ;
                } else {
                    assert(done0 + step0 * (e0 as nat) == done0 + (step0 + step0) * h)
                        by (nonlinear_arith)
                        requires
                            e0 == 2 * h,
                    ;
                }
            }
        }
        assert(step * 0 == 0);
        acc
    }

    /// The multiplicative inverse, which every element but zero has.
    pub fn invert(self) -> (r: Option<Self>)
        ensures
            r is Some <==> self@ != 0,
            r matches Some(w) ==> is_inverse(self@, w@, M::p()),
    {
        if self.is_zero() {
            return None;
        }
        Some(self.invert_nonzero())
    }

    /// The multiplicative inverse of a nonzero element, by the binary Euclidean algorithm.
    pub fn invert_nonzero(self) -> (r: Self)
        requires
            self@ != 0,
        ensures
            is_inverse(self@, r@, M::p()),
    {
        let ghost p = M::p();
        let ghost x = self@;
        let half = Self::two_inv();
        let mut u = self.to_limbs();
        let mut v = M::limbs();
        let mut a = Self::one();
        let mut c = Self::zero();
        proof {
            M::lemma_modulus();
            self.lemma_view();
            assert(a@ * x == x);
            assert(c@ * x == 0);
            lemma_congruent_multiple(p, 0, 1, p);
        }
        while !is_zero_limbs(&u)
            invariant
                p == M::p(),
                is_prime(p),
                p % 2 == 1,
                x == self@,
                0 < x < p,
                (2 * half@) % p == 1,
                congruent(a@ * x, limbs_value(u), p),
                congruent(c@ * x, limbs_value(v), p),
                0 < limbs_value(v) <= p,
                forall|d: int|
                    #![trigger limbs_value(u) % d]
                    d > 0 && limbs_value(u) % d == 0 && limbs_value(v) % d == 0 ==> x % d == 0 && p
                        % d == 0,
            decreases limbs_value(u) + limbs_value(v),
        {
            let ghost (u0, v0, a0, c0) = (limbs_value(u), limbs_value(v), a@, c@);
            proof {
                lemma_limbs_value(u, v);
                lemma_limbs_value(v, u);
            }
            let (h, odd) = halve_limbs(&u);
            if !odd {
                u = h;
                a = a.mul(half);
                proof {
                    lemma_limbs_value(h, h);
                    let h0 = limbs_value(h);
                    // a * half * x * 2 == a * x == u == h * 2
                    lemma_congruent_mod(a0 * half@, p);
                    lemma_congruent_ops(a@, a0 * half@, x, x, p);
                    lemma_congruent_ops(a@ * x, (a0 * half@) * x, 2, 2, p);
                    assert(((a0 * half@) * x) * 2 == (a0 * x) * (2 * half@)) by (nonlinear_arith);
                    lemma_small_mod(1, p as nat);
                    lemma_congruent_ops(a0 * x, u0, 2 * half@, 1, p);
                    lemma_congruent_cancel(2, half@, a@ * x, h0, p);
                    assert forall|d: int|
                        #![trigger limbs_value(u) % d]
                        d > 0 && limbs_value(u) % d == 0 && limbs_value(v) % d == 0 implies x % d
                        == 0 && p % d == 0 by {
                        lemma_divides_sum(d, h0, h0);
                        assert(u0 % d == 0);
                    }
                }
            } else {
                let (diff, below) = sub_limbs(&u, &v);
                if !below {
                    u = diff;
                    a = a.sub(c);
                    proof {
                        lemma_limbs_value(diff, diff);
                        lemma_inverse_step(a0, c0, a@, x, u0, v0, p);
                        assert forall|d: int|
                            #![trigger limbs_value(u) % d]
                            d > 0 && limbs_value(u) % d == 0 && limbs_value(v) % d == 0 implies x
                            % d == 0 && p % d == 0 by {
                            lemma_divides_sum(d, u0 - v0, v0);
                            assert(u0 % d == 0);
                        }
                    }
                } else {
                    let (diff, _) = sub_limbs(&v, &u);
                    let a1 = c.sub(a);
                    c = a;
                    a = a1;
                    v = u;
                    u = diff;
                    proof {
                        lemma_limbs_value(diff, diff);
                        lemma_inverse_step(c0, a0, a@, x, v0, u0, p);
                        assert forall|d: int|
                            #![trigger limbs_value(u) % d]
                            d > 0 && limbs_value(u) % d == 0 && limbs_value(v) % d == 0 implies x
                            % d == 0 && p % d == 0 by {
                            lemma_divides_sum(d, v0 - u0, u0);
                            assert(u0 % d == 0 && v0 % d == 0);
                        }
                    }
                }
            }
        }
        proof {
            let g = limbs_value(v);
            lemma_small_mod(0, g as nat);
            lemma_mod_multiples_basic(1, g);
            assert(limbs_value(u) % g == 0 && g % g == 0);
            assert(x % g == 0 && p % g == 0);
            if g == p {
                lemma_small_mod(x as nat, p as nat);
                assert(false);
            }
            assert(g == 1);
            lemma_small_mod(1, p as nat);
            assert(c@ * x == x * c@) by (nonlinear_arith);
        }
        c
    }
}

proof fn lemma_divides_sum(d: int, a: int, b: int)
    requires
        d > 0,
        a % d == 0,
        b % d == 0,
    ensures
        (a + b) % d == 0,
{
    vstd::arithmetic::div_mod::lemma_add_mod_noop(a, b, d);
    lemma_small_mod(0, d as nat);
}

proof fn lemma_inverse_step(a: int, c: int, r: int, x: int, u: int, v: int, p: int)
    requires
        p > 0,
        r == (a - c) % p,
        congruent(a * x, u, p),
        congruent(c * x, v, p),
    ensures
        congruent(r * x, u - v, p),
{
    lemma_congruent_mod(a - c, p);
    lemma_congruent_ops(r, a - c, x, x, p);
    lemma_congruent_ops(a * x, u, c * x, v, p);
    assert((a - c) * x == a * x - c * x) by (nonlinear_arith);
}

impl<M: Modulus> PartialEq for Fe<M> {
    fn eq(&self, other: &Self) -> (r: bool) {
        self.same(*other)
    }
}

impl<M: Modulus> vstd::std_specs::cmp::PartialEqSpecImpl for Fe<M> {
    open spec fn obeys_eq_spec() -> bool {
        true
    }

    open spec fn eq_spec(&self, other: &Self) -> bool {
        self@ == other@
    }
}

impl<M: Modulus> Eq for Fe<M> {
}

/// Adding a carry to each part of a wide sum.
proof fn lemma_wide_sum(h: int, t: int, ph: int, c0: int, c1: int, c2: int, r: int)
    ensures
        (h + ph - c1 * r + c0 - c2 * r) * r + (t + c1 + c2) * (r * r) == h * r + ph * r + c0 * r + t
            * (r * r),
{
    assert((h + ph - c1 * r + c0 - c2 * r) * r + (t + c1 + c2) * (r * r) == h * r + ph * r + c0 * r
        + t * (r * r)) by (nonlinear_arith);
}

/// The sum of at most two to the 64 products fits into nine limbs.
proof fn lemma_wide_bound(k: int, p: int, before: int, x: int, y: int)
    requires
        0 <= k < 0x1_0000_0000_0000_0000,
        0 < p < 0x4000000000000000000000000000000100000000000000000000000000000000int,
        before <= k * (p * p),
        0 <= x < p,
        0 <= y < p,
    ensures
        before + x * y <= (k + 1) * (p * p),
        before + x * y < 0x1_0000_0000_0000_0000 * (base256() * base256()),
{
    assert(x * y <= p * p) by (nonlinear_arith)
        requires
            0 <= x < p,
            0 <= y < p,
    ;
    assert((k + 1) * (p * p) == k * (p * p) + p * p) by (nonlinear_arith);
    let q = p * p;
    let r = base256() * base256();
    assert(0 < q < r) by (nonlinear_arith)
        requires
            0 < p < base256(),
            q == p * p,
            r == base256() * base256(),
    ;
    assert((k + 1) * q < 0x1_0000_0000_0000_0000 * r) by (nonlinear_arith)
        requires
            0 < q < r,
            0 <= k < 0x1_0000_0000_0000_0000,
    ;
}

proof fn lemma_wide_top(lo: int, hi: int, top: int, total: int, r: int)
    requires
        lo >= 0,
        hi >= 0,
        r > 0,
        total == lo + hi * r + top * (r * r),
        total < 0x1_0000_0000_0000_0000 * (r * r),
    ensures
        top < 0x1_0000_0000_0000_0000,
{
    let q = r * r;
    assert(q > 0) by (nonlinear_arith)
        requires
            r > 0,
            q == r * r,
    ;
    assert(hi * r >= 0) by (nonlinear_arith)
        requires
            hi >= 0,
            r > 0,
    ;
    assert(top < 0x1_0000_0000_0000_0000) by (nonlinear_arith)
        requires
            top * q < 0x1_0000_0000_0000_0000 * q,
            q > 0,
    ;
}

/// A sum of unreduced products, reduced once at the end.
#[derive(Debug)]
pub struct Accumulator<M: Modulus> {
    lo: Limbs,
    hi: Limbs,
    top: u64,
    marker: PhantomData<M>,
}

impl<M: Modulus> Accumulator<M> {
    spec fn value(self) -> int {
        limbs_value(self.lo) + limbs_value(self.hi) * base256() + self.top * (base256()
            * base256())
    }

    /// The residue that the sum stands for.
    pub closed spec fn residue(self) -> int {
        (self.value() * (M::radix_inverse() * M::radix_inverse())) % M::p()
    }

    /// The sum is that of at most `k` products.
    pub closed spec fn holds(self, k: int) -> bool {
        self.value() <= k * (M::p() * M::p())
    }

    /// The empty sum.
    pub fn new() -> (r: Self)
        ensures
            r.residue() == 0,
            r.holds(0),
    {
        proof {
            M::lemma_modulus();
            let w = M::radix_inverse() * M::radix_inverse();
            assert(0 * w == 0);
            lemma_small_mod(0, M::p() as nat);
            assert(0 * (M::p() * M::p()) == 0);
            assert(0 * (base256() * base256()) == 0);
        }
        let r = Accumulator { lo: [0, 0, 0, 0], hi: [0, 0, 0, 0], top: 0, marker: PhantomData };
        assert(r.value() == 0);
        r
    }

    /// Adds a product to the sum.
    pub fn mul_accumulate(&mut self, a: Fe<M>, b: Fe<M>, Ghost(k): Ghost<int>)
        requires
            old(self).holds(k),
            0 <= k <= u64::MAX,
        ensures
            final(self).holds(k + 1),
            final(self).residue() == (old(self).residue() + a@ * b@) % M::p(),
    {
        proof {
            use_type_invariant(&a);
            use_type_invariant(&b);
            M::lemma_modulus();
        }
        let ghost before = self.value();
        let (plo, phi) = wide_mul(&a.limbs, &b.limbs);
        let (lo, carry_lo) = add_limbs(&self.lo, &plo);
        let (mid, carry_mid) = add_limbs(&self.hi, &phi);
        let (hi, carry_hi) = add_limbs(
            &mid,
            &[if carry_lo { 1 } else { 0 }, 0, 0, 0],
        );
        let ghost (c0, c1, c2) = (
            if carry_lo { 1int } else { 0 },
            if carry_mid { 1int } else { 0 },
            if carry_hi { 1int } else { 0 },
        );
        let ghost top = self.top + c1 + c2;
        proof {
            let (x, y) = (limbs_value(a.limbs), limbs_value(b.limbs));
            lemma_limbs_value(a.limbs, b.limbs);
            lemma_limbs_value(b.limbs, a.limbs);
            lemma_limbs_value(lo, hi);
            lemma_limbs_value(hi, lo);
            lemma_wide_sum(
                limbs_value(self.hi),
                self.top as int,
                limbs_value(phi),
                c0,
                c1,
                c2,
                base256(),
            );
            lemma_wide_bound(k, M::p(), before, x, y);
            lemma_wide_top(
                limbs_value(lo),
                limbs_value(hi),
                top,
                before + x * y,
                base256(),
            );
        }
        let mut next: u64 = self.top;
        if carry_mid {
            next = next + 1;
        }
        if carry_hi {
            next = next + 1;
        }
        self.lo = lo;
        self.hi = hi;
        self.top = next;
        proof {
            let p = M::p();
            let (x, y) = (limbs_value(a.limbs), limbs_value(b.limbs));
            let w = M::radix_inverse();
            assert(self.value() == before + x * y);
            lemma_congruent_mod(x * w, p);
            lemma_congruent_mod(y * w, p);
            lemma_congruent_ops(x * w, a@, y * w, b@, p);
            assert((before + x * y) * (w * w) == before * (w * w) + (x * w) * (y * w))
                by (nonlinear_arith);
            lemma_congruent_mod(before * (w * w), p);
            lemma_congruent_ops(
                before * (w * w),
                old(self).residue(),
                (x * w) * (y * w),
                a@ * b@,
                p,
            );
        }
    }

    /// A sum of at most `k` products is one of at most `k + 1`.
    pub proof fn lemma_holds(self, k: int)
        requires
            self.holds(k),
        ensures
            self.holds(k + 1),
    {
        M::lemma_modulus();
        let p = M::p();
        assert(k * (p * p) <= (k + 1) * (p * p)) by (nonlinear_arith)
            requires
                p > 0,
        ;
    }

    /// The sum as a field element.
    pub fn reduce(&self) -> (r: Fe<M>)
        ensures
            r@ == self.residue(),
    {
        proof {
            M::lemma_modulus();
        }
        let radix_inverse = Fe::<M> { limbs: [1, 0, 0, 0], marker: PhantomData };
        let (lo, hi) = (Fe::<M>::from_raw(self.lo), Fe::<M>::from_raw(self.hi));
        let r = lo.mul(radix_inverse).add(hi).mul(radix_inverse).add(Fe::from_u64(self.top));
        proof {
            let (p, w, b) = (M::p(), M::radix_inverse(), base256());
            let (x, y, t) = (limbs_value(self.lo), limbs_value(self.hi), self.top as int);
            assert(1 * w == w);
            let i = radix_inverse@;
            lemma_congruent_mod(w, p);
            lemma_congruent_mod(x, p);
            lemma_congruent_mod(y, p);
            // lo * w
            let s1 = lo@ * i;
            lemma_congruent_ops(lo@, x, i, w, p);
            lemma_congruent_mod(s1, p);
            // lo * w + hi
            lemma_congruent_ops(s1 % p, x * w, hi@, y, p);
            let s2 = s1 % p + hi@;
            lemma_congruent_mod(s2, p);
            // (lo * w + hi) * w
            lemma_congruent_ops(s2 % p, x * w + y, i, w, p);
            let s3 = (s2 % p) * i;
            lemma_congruent_mod(s3, p);
            lemma_congruent_ops(s3 % p, (x * w + y) * w, t, t, p);
            // The radix cancels.
            lemma_small_mod(1, p as nat);
            lemma_congruent_ops(b * w, 1, y * w, y * w, p);
            lemma_congruent_ops(b * w, 1, b * w, 1, p);
            lemma_congruent_ops((b * w) * (b * w), 1, t, t, p);
            assert((x + y * b + t * (b * b)) * (w * w) == x * w * w + (b * w) * (y * w) + ((b * w)
                * (b * w)) * t) by (nonlinear_arith);
            assert((x * w + y) * w + t == x * w * w + 1 * (y * w) + 1 * t) by (nonlinear_arith);
            lemma_congruent_ops(
                x * w * w,
                x * w * w,
                (b * w) * (y * w),
                1 * (y * w),
                p,
            );
            lemma_congruent_ops(
                x * w * w + (b * w) * (y * w),
                x * w * w + 1 * (y * w),
                ((b * w) * (b * w)) * t,
                1 * t,
                p,
            );
        }
        r
    }
}

} // verus!

//! Points of a curve, their addition by chords and tangents, and multiples of points.
//!
//! Addition is associative and commutative. What else is needed of a curve is gathered in
//! [`is_group`]: that all points have the order of the curve, and that the endomorphism multiplies
//! with a cube root of one.
use crate::curve::closure::{lemma_sum_closed, lemma_sum_commutative};
use crate::curve::slopes::lemma_sum_associative;
use crate::curve::{Curve, Group};
use crate::field::congruence::{
    congruent, lemma_congruent_cancel, lemma_congruent_mod, lemma_congruent_ops,
    lemma_congruent_small,
};
use crate::field::primes::{is_inverse, lemma_prime_unit};
use crate::field::Modulus;
use vstd::arithmetic::div_mod::{lemma_fundamental_div_mod, lemma_mod_bound, lemma_small_mod};
use vstd::prelude::*;

verus! {

/// A point of a curve.
pub enum Pt {
    /// The point at infinity, the neutral element.
    Infinity,
    /// The point with the given coordinates.
    At { x: int, y: int },
}

/// The number of points of the curve.
pub open spec fn order<C: Curve>() -> int {
    <C::Scalar as Modulus>::p()
}

/// The multiplicative inverse of a nonzero residue.
pub open spec fn inverse(a: int, p: int) -> int {
    choose|w: int| 0 <= w < p && is_inverse(a, w, p)
}

/// The quotient of residues.
pub open spec fn quotient(a: int, b: int, p: int) -> int {
    (a * inverse(b, p)) % p
}

/// The coordinates are residues that satisfy the equation of the curve.
pub open spec fn on_curve<C: Curve>(a: Pt) -> bool {
    let p = <C::Base as Modulus>::p();
    match a {
        Pt::Infinity => true,
        Pt::At { x, y } => 0 <= x < p && 0 <= y < p && congruent(y * y, x * x * x + 5, p),
    }
}

/// The third point on the line with slope `m` through `(x1, y1)` and a point at `x2`, reflected.
pub open spec fn chord(m: int, x1: int, y1: int, x2: int, p: int) -> Pt {
    let x = (m * m - x1 - x2) % p;
    Pt::At { x, y: (m * (x1 - x) - y1) % p }
}

/// The sum of two points.
#[verifier::opaque]
pub open spec fn ec_add(a: Pt, b: Pt, p: int) -> Pt {
    match (a, b) {
        (Pt::Infinity, _) => b,
        (_, Pt::Infinity) => a,
        (Pt::At { x: x1, y: y1 }, Pt::At { x: x2, y: y2 }) => if x1 != x2 {
            chord(quotient(y2 - y1, x2 - x1, p), x1, y1, x2, p)
        } else if y1 == y2 && y1 != 0 {
            chord(quotient(3 * x1 * x1, 2 * y1, p), x1, y1, x1, p)
        } else {
            Pt::Infinity
        },
    }
}

/// The negative of a point.
pub open spec fn ec_neg(a: Pt, p: int) -> Pt {
    match a {
        Pt::Infinity => Pt::Infinity,
        Pt::At { x, y } => Pt::At { x, y: (-y) % p },
    }
}

/// The sum of points of a curve.
pub open spec fn plus<C: Curve>(a: Pt, b: Pt) -> Pt {
    ec_add(a, b, <C::Base as Modulus>::p())
}

/// The negative of a point of a curve.
pub open spec fn minus<C: Curve>(a: Pt) -> Pt {
    ec_neg(a, <C::Base as Modulus>::p())
}

/// The endomorphism that multiplies the first coordinate with a cube root of one.
pub open spec fn endo<C: Curve>(a: Pt) -> Pt {
    match a {
        Pt::Infinity => Pt::Infinity,
        Pt::At { x, y } => Pt::At {
            x: (x * <C::Base as Modulus>::cube_root()) % <C::Base as Modulus>::p(),
            y,
        },
    }
}

/// The `k`-fold sum of a point.
pub open spec fn nmul<C: Curve>(k: nat, a: Pt) -> Pt
    decreases k,
{
    if k == 0 {
        Pt::Infinity
    } else {
        plus::<C>(nmul::<C>((k - 1) as nat, a), a)
    }
}

/// The multiple of a point by a scalar.
pub open spec fn smul<C: Curve>(k: int, a: Pt) -> Pt {
    nmul::<C>((k % order::<C>()) as nat, a)
}

/// Every point has the order of the curve, and the endomorphism is the multiplication with a cube
/// root of one.
#[verifier::opaque]
pub open spec fn is_group<C: Curve>() -> bool {
    forall|a: Pt|
        on_curve::<C>(a) ==> #[trigger] nmul::<C>(order::<C>() as nat, a) == Pt::Infinity
            && endo::<C>(a) == smul::<C>(<C::Scalar as Modulus>::cube_root(), a)
}

/// A nonzero residue modulo a prime has an inverse.
pub proof fn lemma_inverse<M: Modulus>(a: int)
    requires
        a % M::p() != 0,
    ensures
        0 <= inverse(a, M::p()) < M::p(),
        is_inverse(a, inverse(a, M::p()), M::p()),
{
    M::lemma_modulus();
    let p = M::p();
    lemma_mod_bound(a, p);
    lemma_congruent_mod(a, p);
    let r = a % p;
    lemma_prime_unit(r, p);
    let w = choose|w: int| is_inverse(r, w, p);
    let v = w % p;
    lemma_congruent_mod(w, p);
    lemma_congruent_ops(a, r, v, w, p);
    assert(0 <= v < p && is_inverse(a, v, p));
}

/// The quotient times the divisor is the dividend.
pub proof fn lemma_quotient<M: Modulus>(a: int, b: int)
    requires
        b % M::p() != 0,
    ensures
        0 <= quotient(a, b, M::p()) < M::p(),
        congruent(quotient(a, b, M::p()) * b, a, M::p()),
{
    M::lemma_modulus();
    let p = M::p();
    lemma_inverse::<M>(b);
    let w = inverse(b, p);
    lemma_congruent_mod(a * w, p);
    lemma_congruent_ops((a * w) % p, a * w, b, b, p);
    assert((a * w) * b == a * (b * w)) by (nonlinear_arith);
    lemma_small_mod(1, p as nat);
    lemma_congruent_ops(a, a, b * w, 1, p);
}

/// A nonzero factor can be cancelled.
pub proof fn lemma_cancel<M: Modulus>(u: int, a: int, b: int)
    requires
        u % M::p() != 0,
        congruent(a * u, b * u, M::p()),
    ensures
        congruent(a, b, M::p()),
{
    M::lemma_modulus();
    lemma_inverse::<M>(u);
    lemma_congruent_cancel(u, inverse(u, M::p()), a, b, M::p());
}

/// Distinct residues have a nonzero difference.
pub proof fn lemma_difference<M: Modulus>(a: int, b: int)
    requires
        0 <= a < M::p(),
        0 <= b < M::p(),
        a != b,
    ensures
        (a - b) % M::p() != 0,
{
    M::lemma_modulus();
    if (a - b) % M::p() == 0 {
        crate::field::congruence::lemma_congruent_difference(a, b, M::p());
        lemma_congruent_small(a, b, M::p());
    }
}

/// A product of nonzero residues is nonzero.
pub proof fn lemma_product<M: Modulus>(a: int, b: int)
    ensures
        (a * b) % M::p() != 0 <==> a % M::p() != 0 && b % M::p() != 0,
{
    M::lemma_modulus();
    let p = M::p();
    if a % p != 0 && (a * b) % p == 0 {
        crate::field::primes::lemma_euclid(p, a, b);
    }
    lemma_small_mod(0, p as nat);
    if a % p == 0 {
        lemma_congruent_ops(a, 0, b, b, p);
        assert(0 * b == 0);
    }
    if b % p == 0 {
        lemma_congruent_ops(a, a, b, 0, p);
        assert(a * 0 == 0);
    }
}

/// The sum with a negative is the neutral element.
pub proof fn lemma_inverse_point<C: Curve>(a: Pt)
    requires
        on_curve::<C>(a),
    ensures
        on_curve::<C>(minus::<C>(a)),
        plus::<C>(a, minus::<C>(a)) == Pt::Infinity,
        minus::<C>(minus::<C>(a)) == a,
{
    reveal(ec_add);
    let p = <C::Base as Modulus>::p();
    <C::Base as Modulus>::lemma_modulus();
    if let Pt::At { x, y } = a {
        let z = (-y) % p;
        lemma_congruent_mod(-y, p);
        lemma_congruent_ops(z, -y, z, -y, p);
        assert((-y) * (-y) == y * y) by (nonlinear_arith);
        lemma_congruent_ops(0, 0, z, -y, p);
        lemma_small_mod(y as nat, p as nat);
        if y == 0 {
            lemma_small_mod(0, p as nat);
        } else {
            vstd::arithmetic::div_mod::lemma_mod_add_multiples_vanish(-y, p);
            lemma_small_mod((p - y) as nat, p as nat);
            assert(z == p - y);
            assert(z != y) by {
                if z == y {
                    assert(p == 2 * y);
                }
            }
            vstd::arithmetic::div_mod::lemma_mod_add_multiples_vanish(-z, p);
            lemma_small_mod((p - z) as nat, p as nat);
        }
    }
}

/// The sum of points of the curve is one.
pub proof fn lemma_closed<C: Curve>(a: Pt, b: Pt)
    requires
        on_curve::<C>(a),
        on_curve::<C>(b),
    ensures
        on_curve::<C>(plus::<C>(a, b)),
{
    lemma_sum_closed::<C>(a, b);
}

/// Addition is commutative.
pub proof fn lemma_commutative<C: Curve>(a: Pt, b: Pt)
    requires
        on_curve::<C>(a),
        on_curve::<C>(b),
    ensures
        plus::<C>(a, b) == plus::<C>(b, a),
{
    lemma_sum_commutative::<C>(a, b);
}

/// Addition is associative.
pub proof fn lemma_associative<C: Curve>(a: Pt, b: Pt, c: Pt)
    requires
        on_curve::<C>(a),
        on_curve::<C>(b),
        on_curve::<C>(c),
    ensures
        plus::<C>(plus::<C>(a, b), c) == plus::<C>(a, plus::<C>(b, c)),
        on_curve::<C>(plus::<C>(a, b)),
        on_curve::<C>(plus::<C>(b, c)),
{
    lemma_sum_associative::<C>(a, b, c);
    lemma_sum_closed::<C>(a, b);
    lemma_sum_closed::<C>(b, c);
}

/// The four terms of a sum of sums can be exchanged.
pub proof fn lemma_exchange<C: Curve>(a: Pt, b: Pt, c: Pt, d: Pt)
    requires
        on_curve::<C>(a),
        on_curve::<C>(b),
        on_curve::<C>(c),
        on_curve::<C>(d),
    ensures
        plus::<C>(plus::<C>(a, b), plus::<C>(c, d)) == plus::<C>(
            plus::<C>(a, c),
            plus::<C>(b, d),
        ),
{
    lemma_closed::<C>(c, d);
    lemma_associative::<C>(a, b, plus::<C>(c, d));
    lemma_closed::<C>(b, d);
    lemma_associative::<C>(b, c, d);
    lemma_commutative::<C>(b, c);
    lemma_associative::<C>(c, b, d);
    lemma_associative::<C>(a, c, plus::<C>(b, d));
}

/// A multiple of a point of the curve is one.
pub proof fn lemma_nmul_closed<C: Curve>(k: nat, a: Pt)
    requires
        on_curve::<C>(a),
    ensures
        on_curve::<C>(nmul::<C>(k, a)),
    decreases k,
{
    if k > 0 {
        lemma_nmul_closed::<C>((k - 1) as nat, a);
        lemma_closed::<C>(nmul::<C>((k - 1) as nat, a), a);
    }
}

/// Multiples add up.
pub proof fn lemma_nmul_add<C: Curve>(j: nat, k: nat, a: Pt)
    requires
        on_curve::<C>(a),
    ensures
        plus::<C>(nmul::<C>(j, a), nmul::<C>(k, a)) == nmul::<C>(j + k, a),
    decreases k,
{
    reveal(ec_add);
    lemma_nmul_closed::<C>(j, a);
    if k > 0 {
        let i = (k - 1) as nat;
        lemma_nmul_add::<C>(j, i, a);
        lemma_nmul_closed::<C>(i, a);
        lemma_associative::<C>(nmul::<C>(j, a), nmul::<C>(i, a), a);
        assert((j + k - 1) as nat == j + i);
    }
}

/// A multiple of a multiple is the multiple by the product.
pub proof fn lemma_nmul_mul<C: Curve>(j: nat, k: nat, a: Pt)
    requires
        on_curve::<C>(a),
    ensures
        nmul::<C>(j, nmul::<C>(k, a)) == nmul::<C>(j * k, a),
    decreases j,
{
    if j > 0 {
        let i = (j - 1) as nat;
        lemma_nmul_mul::<C>(i, k, a);
        lemma_nmul_add::<C>(i * k, k, a);
        assert(i * k + k == j * k) by (nonlinear_arith)
            requires
                i == j - 1,
        ;
    } else {
        assert(0 * k == 0);
    }
}

/// A multiple of a sum is the sum of the multiples.
pub proof fn lemma_nmul_sum<C: Curve>(k: nat, a: Pt, b: Pt)
    requires
        on_curve::<C>(a),
        on_curve::<C>(b),
    ensures
        nmul::<C>(k, plus::<C>(a, b)) == plus::<C>(nmul::<C>(k, a), nmul::<C>(k, b)),
    decreases k,
{
    reveal(ec_add);
    if k > 0 {
        let i = (k - 1) as nat;
        lemma_nmul_sum::<C>(i, a, b);
        lemma_nmul_closed::<C>(i, a);
        lemma_nmul_closed::<C>(i, b);
        lemma_exchange::<C>(nmul::<C>(i, a), nmul::<C>(i, b), a, b);
    }
}

/// Every multiple of the neutral element is neutral.
pub proof fn lemma_nmul_infinity<C: Curve>(k: nat)
    ensures
        nmul::<C>(k, Pt::Infinity) == Pt::Infinity,
    decreases k,
{
    reveal(ec_add);
    if k > 0 {
        lemma_nmul_infinity::<C>((k - 1) as nat);
    }
}

proof fn lemma_nmul_reduce<C: Group>(k: nat, a: Pt)
    requires
        on_curve::<C>(a),
    ensures
        nmul::<C>(k, a) == smul::<C>(k as int, a),
{
    C::lemma_group();
    reveal(ec_add);
    <C::Scalar as Modulus>::lemma_modulus();
    let n = order::<C>();
    let (c, r) = (k as int / n, k as int % n);
    lemma_fundamental_div_mod(k as int, n);
    lemma_mod_bound(k as int, n);
    assert(c >= 0) by (nonlinear_arith)
        requires
            k == n * c + r,
            0 <= r < n,
            k >= 0,
    ;
    assert(n * c == c * n && n * c >= 0) by (nonlinear_arith)
        requires
            n > 0,
            c >= 0,
    ;
    reveal(is_group);
    assert(nmul::<C>(n as nat, a) == Pt::Infinity);
    lemma_nmul_mul::<C>(c as nat, n as nat, a);
    assert((c as nat) * (n as nat) == (c * n) as nat);
    lemma_nmul_infinity::<C>(c as nat);
    lemma_nmul_add::<C>((c * n) as nat, r as nat, a);
    assert((c * n) as nat + r as nat == k);
}

/// A multiple of a point of the curve is one.
pub proof fn lemma_smul_closed<C: Curve>(k: int, a: Pt)
    requires
        on_curve::<C>(a),
    ensures
        on_curve::<C>(smul::<C>(k, a)),
{
    lemma_nmul_closed::<C>((k % order::<C>()) as nat, a);
}

/// Multiples add up.
pub proof fn lemma_smul_add<C: Group>(j: int, k: int, a: Pt)
    requires
        on_curve::<C>(a),
    ensures
        plus::<C>(smul::<C>(j, a), smul::<C>(k, a)) == smul::<C>(j + k, a),
{
    C::lemma_group();
    <C::Scalar as Modulus>::lemma_modulus();
    let n = order::<C>();
    let (x, y) = (j % n, k % n);
    lemma_congruent_mod(j, n);
    lemma_congruent_mod(k, n);
    lemma_nmul_add::<C>(x as nat, y as nat, a);
    lemma_nmul_reduce::<C>(x as nat + y as nat, a);
    lemma_congruent_ops(x, j, y, k, n);
}

/// A multiple of a multiple is the multiple by the product.
pub proof fn lemma_smul_mul<C: Group>(j: int, k: int, a: Pt)
    requires
        on_curve::<C>(a),
    ensures
        smul::<C>(j, smul::<C>(k, a)) == smul::<C>(j * k, a),
{
    C::lemma_group();
    <C::Scalar as Modulus>::lemma_modulus();
    let n = order::<C>();
    let (x, y) = (j % n, k % n);
    lemma_congruent_mod(j, n);
    lemma_congruent_mod(k, n);
    lemma_nmul_mul::<C>(x as nat, y as nat, a);
    lemma_nmul_reduce::<C>((x as nat) * (y as nat), a);
    lemma_congruent_ops(x, j, y, k, n);
}

/// A multiple of a sum is the sum of the multiples.
pub proof fn lemma_smul_sum<C: Group>(k: int, a: Pt, b: Pt)
    requires
        on_curve::<C>(a),
        on_curve::<C>(b),
    ensures
        smul::<C>(k, plus::<C>(a, b)) == plus::<C>(smul::<C>(k, a), smul::<C>(k, b)),
{
    C::lemma_group();
    lemma_nmul_sum::<C>((k % order::<C>()) as nat, a, b);
}

/// Congruent scalars give the same multiple.
pub proof fn lemma_smul_congruent<C: Curve>(j: int, k: int, a: Pt)
    requires
        congruent(j, k, order::<C>()),
    ensures
        smul::<C>(j, a) == smul::<C>(k, a),
{
}

/// The multiples by zero, one and minus one.
pub proof fn lemma_smul_small<C: Group>(a: Pt)
    requires
        on_curve::<C>(a),
    ensures
        smul::<C>(0, a) == Pt::Infinity,
        smul::<C>(1, a) == a,
        smul::<C>(-1, a) == minus::<C>(a),
{
    C::lemma_group();
    reveal(ec_add);
    <C::Scalar as Modulus>::lemma_modulus();
    let n = order::<C>();
    lemma_small_mod(0, n as nat);
    lemma_small_mod(1, n as nat);
    assert(nmul::<C>(0, a) == Pt::Infinity);
    assert(nmul::<C>(1, a) == a) by {
        assert(nmul::<C>(0, a) == Pt::Infinity);
    }
    lemma_smul_add::<C>(-1, 1, a);
    lemma_smul_closed::<C>(-1, a);
    lemma_inverse_point::<C>(a);
    let b = smul::<C>(-1, a);
    lemma_associative::<C>(b, a, minus::<C>(a));
}

/// Every multiple of the neutral element is neutral.
pub proof fn lemma_smul_infinity<C: Curve>(k: int)
    ensures
        smul::<C>(k, Pt::Infinity) == Pt::Infinity,
{
    lemma_nmul_infinity::<C>((k % order::<C>()) as nat);
}

/// A negative is the multiple by the negated scalar.
pub proof fn lemma_smul_neg<C: Group>(k: int, a: Pt)
    requires
        on_curve::<C>(a),
    ensures
        minus::<C>(smul::<C>(k, a)) == smul::<C>(-k, a),
{
    C::lemma_group();
    lemma_smul_closed::<C>(k, a);
    lemma_smul_small::<C>(smul::<C>(k, a));
    lemma_smul_mul::<C>(-1, k, a);
    assert(-1 * k == -k);
}

/// The endomorphism multiplies with a cube root of one.
pub proof fn lemma_endo<C: Group>(k: int, a: Pt)
    requires
        on_curve::<C>(a),
    ensures
        endo::<C>(smul::<C>(k, a)) == smul::<C>(k * <C::Scalar as Modulus>::cube_root(), a),
{
    C::lemma_group();
    let z = <C::Scalar as Modulus>::cube_root();
    lemma_smul_closed::<C>(k, a);
    let b = smul::<C>(k, a);
    reveal(is_group);
    assert(nmul::<C>(order::<C>() as nat, b) == Pt::Infinity);
    assert(endo::<C>(b) == smul::<C>(z, b));
    lemma_smul_mul::<C>(z, k, a);
    assert(z * k == k * z) by (nonlinear_arith);
}

/// Different scalars give different multiples of a point other than the neutral element.
pub proof fn lemma_smul_injective<C: Group>(j: int, k: int, a: Pt)
    requires
        on_curve::<C>(a),
        a != Pt::Infinity,
        smul::<C>(j, a) == smul::<C>(k, a),
    ensures
        congruent(j, k, order::<C>()),
{
    C::lemma_group();
    <C::Scalar as Modulus>::lemma_modulus();
    let n = order::<C>();
    let d = j - k;
    lemma_smul_neg::<C>(k, a);
    lemma_smul_add::<C>(j, -k, a);
    lemma_smul_closed::<C>(k, a);
    lemma_inverse_point::<C>(smul::<C>(k, a));
    assert(smul::<C>(d, a) == Pt::Infinity);
    crate::field::congruence::lemma_congruent_difference(j, k, n);
    if d % n != 0 {
        lemma_inverse::<C::Scalar>(d);
        let w = inverse(d, n);
        lemma_smul_mul::<C>(w, d, a);
        lemma_smul_infinity::<C>(w);
        assert(w * d == d * w) by (nonlinear_arith);
        lemma_small_mod(1, n as nat);
        lemma_smul_congruent::<C>(w * d, 1, a);
        lemma_smul_small::<C>(a);
    }
}

} // verus!

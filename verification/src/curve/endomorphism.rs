//! The endomorphism of the curve, and the order of a point from a short relation with its image.
use crate::curve::cyclic::{is_generator, lemma_generated, misses_axis};
use crate::curve::law::{
    chord, ec_add, endo, inverse, is_group, lemma_cancel, lemma_commutative, lemma_inverse,
    lemma_inverse_point, lemma_nmul_add, lemma_nmul_closed, lemma_nmul_infinity, lemma_nmul_mul,
    lemma_nmul_sum, lemma_product, minus, nmul, on_curve, order, plus, smul, Pt,
};
use crate::curve::slopes::{
    is_slope, lemma_by_slope, lemma_chord_congruent, lemma_chord_value, lemma_minus_sum,
    lemma_opposite, lemma_slope_congruent, lemma_slope_exists,
};
use crate::curve::Curve;
use crate::field::congruence::{
    congruent, lemma_congruent_difference, lemma_congruent_mod, lemma_congruent_ops,
    lemma_congruent_small,
};
use crate::field::Modulus;
use vstd::arithmetic::div_mod::{lemma_fundamental_div_mod, lemma_mod_bound, lemma_small_mod};
use vstd::prelude::*;

verus! {

/// The powers of the cube root of one.
proof fn lemma_root<M: Modulus>()
    ensures
        ({
            let (z, p) = (M::cube_root(), M::p());
            &&& congruent(1 + z + z * z, 0, p)
            &&& congruent(z * z * z, 1, p)
            &&& z % p != 0
            &&& (z - 1) % p != 0
        }),
{
    M::lemma_modulus();
    let (z, p) = (M::cube_root(), M::p());
    lemma_small_mod(0, p as nat);
    lemma_small_mod(1, p as nat);
    lemma_small_mod(3, p as nat);
    let s = z * z + z + 1;
    assert(1 + z + z * z == s);
    lemma_congruent_ops(s, 0, z - 1, z - 1, p);
    assert(0 * (z - 1) == 0);
    assert((z * z + z + 1) * (z - 1) == z * z * z - 1) by {
        let w = z * z;
        assert((w + z + 1) * (z - 1) == w * z + z * z + z - w - z - 1) by (nonlinear_arith);
    }
    lemma_congruent_ops(z * z * z - 1, 0, 1, 1, p);
    if z % p == 0 {
        lemma_congruent_ops(z, 0, z * z + 1, z * z + 1, p);
        lemma_congruent_ops(z, 0, z, 0, p);
        lemma_congruent_ops(z * z, 0, 1, 1, p);
        lemma_congruent_ops(z * z + 1, 1, z, 0, p);
        assert(false);
    }
    if (z - 1) % p == 0 {
        lemma_congruent_ops(z - 1, 0, 1, 1, p);
        lemma_congruent_ops(z, 1, z, 1, p);
        lemma_congruent_ops(z * z, 1, z, 1, p);
        lemma_congruent_ops(z * z + z, 2, 1, 1, p);
        assert(false);
    }
}

/// Images of points of the curve are on the curve.
pub proof fn lemma_endo_closed<C: Curve>(a: Pt)
    requires
        on_curve::<C>(a),
    ensures
        on_curve::<C>(endo::<C>(a)),
{
    <C::Base as Modulus>::lemma_modulus();
    let (z, p) = (<C::Base as Modulus>::cube_root(), <C::Base as Modulus>::p());
    lemma_root::<C::Base>();
    if let Pt::At { x, y } = a {
        let u = (x * z) % p;
        lemma_congruent_mod(x * z, p);
        lemma_congruent_ops(u, x * z, u, x * z, p);
        lemma_congruent_ops(u * u, (x * z) * (x * z), u, x * z, p);
        assert((x * z) * (x * z) * (x * z) == (x * x * x) * (z * z * z)) by (nonlinear_arith);
        let c = x * x * x;
        lemma_congruent_ops(c, c, z * z * z, 1, p);
        assert(c * 1 == c);
        lemma_congruent_ops(u * u * u, c, 5, 5, p);
    }
}

/// The image of an opposite.
proof fn lemma_endo_minus<C: Curve>(a: Pt)
    ensures
        endo::<C>(minus::<C>(a)) == minus::<C>(endo::<C>(a)),
{
}

/// Points with the same image are the same.
proof fn lemma_endo_injective<C: Curve>(a: Pt, b: Pt)
    requires
        on_curve::<C>(a),
        on_curve::<C>(b),
        endo::<C>(a) == endo::<C>(b),
    ensures
        a == b,
{
    let (z, p) = (<C::Base as Modulus>::cube_root(), <C::Base as Modulus>::p());
    lemma_root::<C::Base>();
    if let (Pt::At { x: x1, y: y1 }, Pt::At { x: x2, y: y2 }) = (a, b) {
        lemma_cancel::<C::Base>(z, x1, x2);
        lemma_congruent_small(x1, x2, p);
    }
}

/// The image of a sum is the sum of the images.
pub proof fn lemma_endo_sum<C: Curve>(a: Pt, b: Pt)
    requires
        on_curve::<C>(a),
        on_curve::<C>(b),
    ensures
        endo::<C>(plus::<C>(a, b)) == plus::<C>(endo::<C>(a), endo::<C>(b)),
{
    <C::Base as Modulus>::lemma_modulus();
    let (z, p) = (<C::Base as Modulus>::cube_root(), <C::Base as Modulus>::p());
    let (c, d) = (endo::<C>(a), endo::<C>(b));
    lemma_endo_closed::<C>(a);
    lemma_endo_closed::<C>(b);
    if a == Pt::Infinity || b == Pt::Infinity {
        reveal(ec_add);
    } else if plus::<C>(a, b) == Pt::Infinity {
        lemma_opposite::<C>(a, b);
        lemma_endo_minus::<C>(a);
        lemma_inverse_point::<C>(c);
    } else if let (Pt::At { x: x1, y: y1 }, Pt::At { x: x2, y: y2 }) = (a, b) {
        let m = lemma_slope_exists::<C>(x1, y1, x2, y2);
        lemma_by_slope::<C>(m, x1, y1, x2, y2);
        if plus::<C>(c, d) == Pt::Infinity {
            lemma_opposite::<C>(c, d);
            lemma_inverse_point::<C>(b);
            lemma_endo_minus::<C>(b);
            lemma_endo_injective::<C>(a, minus::<C>(b));
            lemma_commutative::<C>(b, minus::<C>(b));
            assert(false);
        }
        lemma_root::<C::Base>();
        let (u1, u2) = ((x1 * z) % p, (x2 * z) % p);
        let n = m * (z * z);
        lemma_congruent_mod(x1 * z, p);
        lemma_congruent_mod(x2 * z, p);
        lemma_scaled_slope(m, x1, y1, x2, y2, z, p);
        lemma_slope_congruent(n, x1 * z, y1, x2 * z, y2, u1, y1, u2, y2, p);
        lemma_by_slope::<C>(n, u1, y1, u2, y2);
        lemma_chord_congruent(n, u1, y1, u2, n, x1 * z, y1, x2 * z, p);
        lemma_scaled_chord(m, x1, y1, x2, z, p);
    }
}

/// The slope of a scaled line.
proof fn lemma_scaled_slope(m: int, x1: int, y1: int, x2: int, y2: int, z: int, p: int)
    requires
        p > 0,
        congruent(z * z * z, 1, p),
        is_slope(m, x1, y1, x2, y2, p),
    ensures
        is_slope(m * (z * z), x1 * z, y1, x2 * z, y2, p),
{
    let n = m * (z * z);
    let t = z * z * z;
    let d = m * (x1 - x2);
    assert(n * (x1 * z - x2 * z) == d * t) by {
        assert(x1 * z - x2 * z == (x1 - x2) * z) by (nonlinear_arith);
        let e = x1 - x2;
        assert((m * (z * z)) * (e * z) == (m * e) * (z * z * z)) by (nonlinear_arith);
    }
    lemma_congruent_ops(d, d, t, 1, p);
    assert(d * 1 == d);
    let (w, s) = (z * z, y1 + y2);
    let q = x1 * x1 + x1 * x2 + x2 * x2;
    lemma_congruent_ops(m * s, q, w, w, p);
    assert((m * (z * z)) * s == (m * s) * (z * z)) by (nonlinear_arith);
    assert(q * w == (x1 * z) * (x1 * z) + (x1 * z) * (x2 * z) + (x2 * z) * (x2 * z)) by {
        let (a, b, c) = (x1 * x1, x1 * x2, x2 * x2);
        assert((a + b + c) * w == a * w + b * w + c * w) by (nonlinear_arith);
        assert((x1 * x1) * (z * z) == (x1 * z) * (x1 * z)) by (nonlinear_arith);
        assert((x1 * x2) * (z * z) == (x1 * z) * (x2 * z)) by (nonlinear_arith);
        assert((x2 * x2) * (z * z) == (x2 * z) * (x2 * z)) by (nonlinear_arith);
    }
}

/// The third point of a scaled line.
proof fn lemma_scaled_chord(m: int, x1: int, y1: int, x2: int, z: int, p: int)
    requires
        p > 0,
        congruent(z * z * z, 1, p),
    ensures
        ({
            let n = m * (z * z);
            chord(m, x1, y1, x2, p) matches Pt::At { x, y } && chord(n, x1 * z, y1, x2 * z, p) == (
            Pt::At { x: (x * z) % p, y })
        }),
{
    let n = m * (z * z);
    let t = z * z * z;
    let x = m * m - x1 - x2;
    let u = n * n - x1 * z - x2 * z;
    lemma_chord_value(m, x1, y1, x2, p);
    lemma_chord_value(n, x1 * z, y1, x2 * z, p);
    // The first coordinate.
    let k = (m * m) * z;
    assert(n * n == k * t) by {
        assert((m * (z * z)) * (m * (z * z)) == ((m * m) * z) * (z * z * z)) by (nonlinear_arith);
    }
    lemma_congruent_ops(k, k, t, 1, p);
    assert(k * 1 == k);
    let r = x1 * z + x2 * z;
    lemma_congruent_ops(n * n, k, r, r, p);
    assert(x * z == k - r) by {
        let w = m * m;
        assert((w - x1 - x2) * z == w * z - x1 * z - x2 * z) by (nonlinear_arith);
    }
    assert(congruent(u, x * z, p));
    lemma_congruent_mod(x, p);
    lemma_congruent_ops(x % p, x, z, z, p);
    // The second coordinate.
    let e = m * (x1 - x);
    lemma_congruent_ops(x1 * z, x1 * z, u, x * z, p);
    lemma_congruent_ops(n, n, x1 * z - u, x1 * z - x * z, p);
    assert(n * (x1 * z - x * z) == e * t) by {
        assert(x1 * z - x * z == (x1 - x) * z) by (nonlinear_arith);
        let f = x1 - x;
        assert((m * (z * z)) * (f * z) == (m * f) * (z * z * z)) by (nonlinear_arith);
    }
    lemma_congruent_ops(e, e, t, 1, p);
    assert(e * 1 == e);
    lemma_congruent_ops(n * (x1 * z - u), e, y1, y1, p);
}

/// The image of a multiple is the multiple of the image.
pub proof fn lemma_endo_nmul<C: Curve>(k: nat, a: Pt)
    requires
        on_curve::<C>(a),
    ensures
        endo::<C>(nmul::<C>(k, a)) == nmul::<C>(k, endo::<C>(a)),
    decreases k,
{
    if k > 0 {
        let i = (k - 1) as nat;
        lemma_endo_nmul::<C>(i, a);
        lemma_nmul_closed::<C>(i, a);
        lemma_endo_sum::<C>(nmul::<C>(i, a), a);
    }
}

/// A point and its image add up to the opposite of the second image.
proof fn lemma_endo_three<C: Curve>(x: int, y: int)
    requires
        on_curve::<C>(Pt::At { x, y }),
        x != 0,
    ensures
        ({
            let a = Pt::At { x, y };
            let (b, c) = (endo::<C>(a), endo::<C>(endo::<C>(a)));
            &&& plus::<C>(a, b) == minus::<C>(c)
            &&& endo::<C>(c) == a
        }),
{
    <C::Base as Modulus>::lemma_modulus();
    let (z, p) = (<C::Base as Modulus>::cube_root(), <C::Base as Modulus>::p());
    lemma_root::<C::Base>();
    let a = Pt::At { x, y };
    lemma_endo_closed::<C>(a);
    let u = (x * z) % p;
    let v = (u * z) % p;
    lemma_congruent_mod(x * z, p);
    lemma_congruent_mod(u * z, p);
    lemma_congruent_ops(u, x * z, z, z, p);
    lemma_small_mod(x as nat, p as nat);
    // The images are different.
    if u == x {
        lemma_congruent_difference(x * z, x, p);
        assert(x * z - x == x * (z - 1)) by (nonlinear_arith);
        lemma_product::<C::Base>(x, z - 1);
        assert(false);
    }
    assert(plus::<C>(a, Pt::At { x: u, y }) != Pt::Infinity) by {
        reveal(ec_add);
    }
    // The line through them is horizontal.
    let s = 1 + z + z * z;
    lemma_congruent_ops(x, x, u, x * z, p);
    lemma_congruent_ops(u, x * z, u, x * z, p);
    lemma_congruent_ops(x * x, x * x, x * u, x * (x * z), p);
    lemma_congruent_ops(x * x + x * u, x * x + x * (x * z), u * u, (x * z) * (x * z), p);
    assert(x * x + x * (x * z) + (x * z) * (x * z) == (x * x) * s) by {
        let w = x * x;
        assert(x * (x * z) == (x * x) * z) by (nonlinear_arith);
        assert((x * z) * (x * z) == (x * x) * (z * z)) by (nonlinear_arith);
        let t = z * z;
        assert(w * (1 + z + t) == w + w * z + w * t) by (nonlinear_arith);
    }
    lemma_congruent_ops(x * x, x * x, s, 0, p);
    assert((x * x) * 0 == 0);
    assert(0 * (x - u) == 0 && 0 * (y + y) == 0);
    lemma_by_slope::<C>(0, x, y, u, y);
    lemma_chord_value(0, x, y, u, p);
    assert(0int * 0int == 0);
    assert(0 * (x - (0 - x - u)) == 0);
    // The third point.
    lemma_congruent_ops(x, x, s, 0, p);
    assert(x * 0 == 0);
    assert(x * s == x + x * z + (x * z) * z) by {
        let t = z * z;
        assert(x * (1 + z + t) == x + x * z + x * t) by (nonlinear_arith);
        assert(x * (z * z) == (x * z) * z) by (nonlinear_arith);
    }
    lemma_congruent_ops(x, x, u, x * z, p);
    lemma_congruent_ops(x + u, x + x * z, v, (x * z) * z, p);
    lemma_congruent_ops(0, 0, x + u + v, 0, p);
    lemma_congruent_ops(v, v, x + u + v, 0, p);
    assert(congruent(0 - x - u, v, p));
    lemma_small_mod(v as nat, p as nat);
    // The third image is the point itself.
    lemma_congruent_ops(v, (x * z) * z, z, z, p);
    assert((x * z) * z * z == x * (z * z * z)) by (nonlinear_arith);
    lemma_congruent_ops(x, x, z * z * z, 1, p);
    assert(x * 1 == x);
}

/// The opposite of a multiple is the multiple of the opposite.
pub proof fn lemma_nmul_minus<C: Curve>(k: nat, a: Pt)
    requires
        on_curve::<C>(a),
    ensures
        nmul::<C>(k, minus::<C>(a)) == minus::<C>(nmul::<C>(k, a)),
    decreases k,
{
    if k > 0 {
        let i = (k - 1) as nat;
        lemma_nmul_minus::<C>(i, a);
        lemma_nmul_closed::<C>(i, a);
        lemma_minus_sum::<C>(nmul::<C>(i, a), a);
    }
}

/// A short relation between a point and its image gives the order of the point.
pub proof fn lemma_norm<C: Curve>(x: int, y: int, a: nat, c: nat)
    requires
        on_curve::<C>(Pt::At { x, y }),
        x != 0,
        nmul::<C>(a, Pt::At { x, y }) == nmul::<C>(c, endo::<C>(Pt::At { x, y })),
        order::<C>() == a * a + a * c + c * c,
    ensures
        is_generator::<C>(Pt::At { x, y }),
{
    let g = Pt::At { x, y };
    let f = endo::<C>(g);
    let h = endo::<C>(f);
    lemma_endo_three::<C>(x, y);
    lemma_endo_closed::<C>(g);
    lemma_endo_closed::<C>(f);
    // Multiples by the square of the first number.
    lemma_nmul_mul::<C>(a, a, g);
    lemma_nmul_mul::<C>(a, c, f);
    assert(nmul::<C>(a * a, g) == nmul::<C>(a * c, f));
    // Multiples of the second image.
    lemma_endo_nmul::<C>(a, g);
    lemma_endo_nmul::<C>(c, f);
    lemma_endo_nmul::<C>(a, f);
    lemma_endo_nmul::<C>(c, h);
    assert(nmul::<C>(a, f) == nmul::<C>(c, h));
    assert(nmul::<C>(a, h) == nmul::<C>(c, g));
    lemma_nmul_mul::<C>(c, a, h);
    lemma_nmul_mul::<C>(c, c, g);
    assert(c * a == a * c) by (nonlinear_arith);
    assert(nmul::<C>(a * c, h) == nmul::<C>(c * c, g));
    // The sum.
    lemma_nmul_sum::<C>(a * c, f, g);
    lemma_commutative::<C>(f, g);
    lemma_nmul_minus::<C>(a * c, h);
    let (u, v, w) = (nmul::<C>(a * a, g), nmul::<C>(a * c, g), nmul::<C>(c * c, g));
    lemma_nmul_closed::<C>(a * a, g);
    lemma_nmul_closed::<C>(a * c, g);
    lemma_nmul_closed::<C>(c * c, g);
    assert(plus::<C>(u, v) == minus::<C>(w));
    lemma_nmul_add::<C>(a * a, a * c, g);
    lemma_nmul_add::<C>(a * a + a * c, c * c, g);
    lemma_inverse_point::<C>(w);
    lemma_commutative::<C>(w, minus::<C>(w));
}

/// Multiples of a point whose order divides that of the curve depend on the residue.
proof fn lemma_residue<C: Curve>(k: nat, a: Pt)
    requires
        on_curve::<C>(a),
        nmul::<C>(order::<C>() as nat, a) == Pt::Infinity,
    ensures
        nmul::<C>(k, a) == nmul::<C>((k as int % order::<C>()) as nat, a),
{
    <C::Scalar as Modulus>::lemma_modulus();
    let n = order::<C>();
    let (c, r) = (k as int / n, k as int % n);
    lemma_fundamental_div_mod(k as int, n);
    lemma_mod_bound(k as int, n);
    assert(c >= 0) by (nonlinear_arith)
        requires
            k == n * c + r,
            0 <= r < n,
            k >= 0,
    ;
    assert(n * c == c * n) by (nonlinear_arith);
    lemma_nmul_mul::<C>(c as nat, n as nat, a);
    assert((c as nat) * (n as nat) == (c * n) as nat);
    lemma_nmul_infinity::<C>(c as nat);
    lemma_nmul_add::<C>((c * n) as nat, r as nat, a);
    assert((c * n) as nat + r as nat == k);
    reveal(ec_add);
}

/// Points with the same multiple by a unit are the same.
proof fn lemma_unit_multiple<C: Curve>(c: nat, a: Pt, b: Pt)
    requires
        on_curve::<C>(a),
        on_curve::<C>(b),
        nmul::<C>(order::<C>() as nat, a) == Pt::Infinity,
        nmul::<C>(order::<C>() as nat, b) == Pt::Infinity,
        0 < c < order::<C>(),
        nmul::<C>(c, a) == nmul::<C>(c, b),
    ensures
        a == b,
{
    <C::Scalar as Modulus>::lemma_modulus();
    let n = order::<C>();
    lemma_small_mod(c, n as nat);
    lemma_inverse::<C::Scalar>(c as int);
    let w = inverse(c as int, n) as nat;
    lemma_nmul_mul::<C>(w, c, a);
    lemma_nmul_mul::<C>(w, c, b);
    lemma_residue::<C>(w * c, a);
    lemma_residue::<C>(w * c, b);
    assert(w * c == c * w) by (nonlinear_arith);
    assert(nmul::<C>(1, a) == plus::<C>(nmul::<C>(0, a), a));
    assert(nmul::<C>(1, b) == plus::<C>(nmul::<C>(0, b), b));
    reveal(ec_add);
}

/// The image of the generator is its multiple by the cube root of one.
proof fn lemma_eigenvalue<C: Curve>(g: Pt, a: nat, c: nat)
    requires
        is_generator::<C>(g),
        0 < c < order::<C>(),
        nmul::<C>(a, g) == nmul::<C>(c, endo::<C>(g)),
        congruent(a as int, c * <C::Scalar as Modulus>::cube_root(), order::<C>()),
    ensures
        endo::<C>(g) == nmul::<C>(<C::Scalar as Modulus>::cube_root() as nat, g),
{
    <C::Scalar as Modulus>::lemma_modulus();
    let n = order::<C>();
    let z = <C::Scalar as Modulus>::cube_root() as nat;
    let (e, f) = (nmul::<C>(z, g), endo::<C>(g));
    lemma_endo_closed::<C>(g);
    lemma_nmul_closed::<C>(z, g);
    lemma_nmul_mul::<C>(c, z, g);
    lemma_residue::<C>(c * z, g);
    lemma_residue::<C>(a, g);
    assert(nmul::<C>(c, e) == nmul::<C>(c, f));
    // The order divides that of the curve for both points.
    lemma_nmul_mul::<C>(n as nat, z, g);
    lemma_nmul_mul::<C>(z, n as nat, g);
    lemma_nmul_infinity::<C>(z);
    assert((n as nat) * z == z * (n as nat)) by (nonlinear_arith);
    lemma_endo_nmul::<C>(n as nat, g);
    lemma_unit_multiple::<C>(c, e, f);
}

/// A curve that misses the first axis and has a point with a short relation to its image is a
/// group of prime order on which the endomorphism multiplies with a cube root of one.
pub proof fn lemma_group_from_relation<C: Curve>(x: int, y: int, a: nat, c: nat)
    requires
        on_curve::<C>(Pt::At { x, y }),
        x != 0,
        nmul::<C>(a, Pt::At { x, y }) == nmul::<C>(c, endo::<C>(Pt::At { x, y })),
        order::<C>() == a * a + a * c + c * c,
        0 < c < order::<C>(),
        congruent(a as int, c * <C::Scalar as Modulus>::cube_root(), order::<C>()),
        misses_axis::<C>(),
    ensures
        is_group::<C>(),
{
    <C::Scalar as Modulus>::lemma_modulus();
    let n = order::<C>();
    let z = <C::Scalar as Modulus>::cube_root();
    let g = Pt::At { x, y };
    lemma_norm::<C>(x, y, a, c);
    lemma_eigenvalue::<C>(g, a, c);
    assert forall|b: Pt| on_curve::<C>(b) implies #[trigger] nmul::<C>(n as nat, b) == Pt::Infinity
        && endo::<C>(b) == smul::<C>(z, b) by {
        lemma_generated::<C>(g, b);
        let k = choose|k: nat| k < n && b == #[trigger] nmul::<C>(k, g);
        lemma_nmul_mul::<C>(n as nat, k, g);
        lemma_nmul_mul::<C>(k, n as nat, g);
        lemma_nmul_infinity::<C>(k);
        assert((n as nat) * k == k * (n as nat)) by (nonlinear_arith);
        lemma_endo_nmul::<C>(k, g);
        lemma_nmul_mul::<C>(k, z as nat, g);
        lemma_nmul_mul::<C>(z as nat, k, g);
        assert((z as nat) * k == k * (z as nat)) by (nonlinear_arith);
        lemma_small_mod(z as nat, n as nat);
    }
    reveal(is_group);
}

} // verus!

//! A curve without points of order two is generated by a point whose order is a large prime.
use crate::curve::law::{
    ec_add, lemma_associative, lemma_closed, lemma_commutative, lemma_inverse, lemma_inverse_point,
    lemma_nmul_add, lemma_nmul_closed, lemma_nmul_infinity, lemma_nmul_mul, lemma_product, inverse,
    minus, nmul, on_curve, order, plus, Pt,
};
use crate::curve::slopes::{lemma_opposite, lemma_take_away};
use crate::curve::Curve;
use crate::field::congruence::{
    lemma_congruent_difference, lemma_congruent_ops, lemma_congruent_small,
};
use crate::field::Modulus;
use vstd::arithmetic::div_mod::{lemma_fundamental_div_mod, lemma_small_mod};
use vstd::prelude::*;
use vstd::set_lib::{lemma_int_range, lemma_len_subset, lemma_map_size, set_int_range};

verus! {

/// The point is a multiple of another one.
pub open spec fn is_multiple<C: Curve>(g: Pt, a: Pt) -> bool {
    exists|k: nat| k < order::<C>() && a == #[trigger] nmul::<C>(k, g)
}

/// The point is on the curve and other than the neutral element, and its order divides that of the
/// curve.
pub open spec fn is_generator<C: Curve>(g: Pt) -> bool {
    on_curve::<C>(g) && g != Pt::Infinity && nmul::<C>(order::<C>() as nat, g) == Pt::Infinity
}

/// The curve does not meet the first axis.
pub open spec fn misses_axis<C: Curve>() -> bool {
    forall|x: int| !#[trigger] on_curve::<C>(Pt::At { x, y: 0 })
}

/// A number for each point of the curve.
pub open spec fn code(a: Pt) -> int {
    match a {
        Pt::Infinity => 0,
        Pt::At { x, y } => 1 + 2 * x + y % 2,
    }
}

/// Points with the same number are the same.
proof fn lemma_code<C: Curve>(a: Pt, b: Pt)
    requires
        on_curve::<C>(a),
        on_curve::<C>(b),
    ensures
        0 <= code(a) <= 2 * <C::Base as Modulus>::p(),
        code(a) == code(b) ==> a == b,
{
    let p = <C::Base as Modulus>::p();
    <C::Base as Modulus>::lemma_modulus();
    if let (Pt::At { x: x1, y: y1 }, Pt::At { x: x2, y: y2 }) = (a, b) {
        if code(a) == code(b) {
            assert(x1 == x2 && y1 % 2 == y2 % 2);
            lemma_congruent_ops(y1 * y1, x1 * x1 * x1 + 5, y2 * y2, x1 * x1 * x1 + 5, p);
            assert((y1 - y2) * (y1 + y2) == y1 * y1 - y2 * y2) by (nonlinear_arith);
            lemma_small_mod(0, p as nat);
            lemma_product::<C::Base>(y1 - y2, y1 + y2);
            if (y1 - y2) % p == 0 {
                lemma_congruent_difference(y1, y2, p);
                lemma_congruent_small(y1, y2, p);
            } else {
                // The sum is zero or the modulus, which is odd.
                if y1 + y2 < p {
                    lemma_small_mod((y1 + y2) as nat, p as nat);
                } else {
                    vstd::arithmetic::div_mod::lemma_mod_sub_multiples_vanish(y1 + y2, p);
                    lemma_small_mod((y1 + y2 - p) as nat, p as nat);
                    assert(y1 + y2 == p);
                }
            }
        }
    }
}

/// A multiple of the generator by a number below the order is not neutral.
proof fn lemma_not_neutral<C: Curve>(g: Pt, j: nat)
    requires
        is_generator::<C>(g),
        0 < j < order::<C>(),
    ensures
        nmul::<C>(j, g) != Pt::Infinity,
{
    let n = order::<C>();
    <C::Scalar as Modulus>::lemma_modulus();
    if nmul::<C>(j, g) == Pt::Infinity {
        lemma_small_mod(j, n as nat);
        lemma_inverse::<C::Scalar>(j as int);
        let w = inverse(j as int, n);
        lemma_fundamental_div_mod(j * w, n);
        let t = (j * w) / n;
        assert(j * w >= 0) by (nonlinear_arith)
            requires
                j >= 0,
                w >= 0,
        ;
        assert(t >= 0) by (nonlinear_arith)
            requires
                n * t >= -1,
                n > 1,
        ;
        lemma_nmul_mul::<C>(w as nat, j, g);
        lemma_nmul_infinity::<C>(w as nat);
        lemma_nmul_mul::<C>(t as nat, n as nat, g);
        lemma_nmul_infinity::<C>(t as nat);
        lemma_nmul_add::<C>((t * n) as nat, 1, g);
        assert(w * j == j * w && t * n == n * t) by (nonlinear_arith);
        assert((w as nat) * j == (t as nat) * (n as nat) + 1);
        assert((t as nat) * (n as nat) == (t * n) as nat);
        assert(nmul::<C>(1, g) == plus::<C>(nmul::<C>(0, g), g));
        reveal(ec_add);
        assert(false);
    }
}

/// What has to be added to a multiple of the generator to get another one is a multiple.
proof fn lemma_gap<C: Curve>(g: Pt, a: Pt, j: nat, k: nat)
    requires
        is_generator::<C>(g),
        on_curve::<C>(a),
        j < order::<C>(),
        k < order::<C>(),
        plus::<C>(a, nmul::<C>(j, g)) == nmul::<C>(k, g),
    ensures
        is_multiple::<C>(g, a),
{
    let n = order::<C>() as nat;
    let m = if k >= j {
        (k - j) as nat
    } else {
        (k + n - j) as nat
    };
    let (x, y, z) = (nmul::<C>(j, g), nmul::<C>(k, g), nmul::<C>(m, g));
    lemma_nmul_closed::<C>(j, g);
    lemma_nmul_closed::<C>(k, g);
    lemma_nmul_closed::<C>(m, g);
    lemma_nmul_add::<C>(j, m, g);
    if k < j {
        lemma_nmul_add::<C>(k, n, g);
        reveal(ec_add);
    }
    assert(plus::<C>(x, z) == y);
    lemma_commutative::<C>(a, x);
    lemma_take_away::<C>(x, a);
    lemma_take_away::<C>(x, z);
    assert(a == z);
}

/// The elements of three cosets in a row.
spec fn member<C: Curve>(g: Pt, a: Pt, i: int) -> Pt {
    let n = order::<C>();
    if i < n {
        nmul::<C>(i as nat, g)
    } else if i < 2 * n {
        plus::<C>(a, nmul::<C>((i - n) as nat, g))
    } else {
        plus::<C>(plus::<C>(a, a), nmul::<C>((i - 2 * n) as nat, g))
    }
}

/// Different elements of one coset.
proof fn lemma_same_coset<C: Curve>(g: Pt, a: Pt, j: nat, k: nat)
    requires
        is_generator::<C>(g),
        on_curve::<C>(a),
        j < k < order::<C>(),
    ensures
        plus::<C>(a, nmul::<C>(j, g)) != plus::<C>(a, nmul::<C>(k, g)),
        nmul::<C>(j, g) != nmul::<C>(k, g),
{
    let (x, y) = (nmul::<C>(j, g), nmul::<C>(k, g));
    let m = (k - j) as nat;
    lemma_nmul_closed::<C>(j, g);
    lemma_nmul_closed::<C>(k, g);
    lemma_nmul_closed::<C>(m, g);
    lemma_nmul_add::<C>(j, m, g);
    lemma_not_neutral::<C>(g, m);
    lemma_take_away::<C>(x, nmul::<C>(m, g));
    if x == y {
        lemma_inverse_point::<C>(x);
        lemma_commutative::<C>(x, minus::<C>(x));
        assert(false);
    }
    lemma_take_away::<C>(a, x);
    lemma_take_away::<C>(a, y);
}

/// Elements of cosets in a row.
proof fn lemma_next_coset<C: Curve>(g: Pt, a: Pt, j: nat, k: nat)
    requires
        is_generator::<C>(g),
        on_curve::<C>(a),
        j < order::<C>(),
        k < order::<C>(),
        !is_multiple::<C>(g, a),
        !is_multiple::<C>(g, plus::<C>(a, a)),
    ensures
        plus::<C>(a, nmul::<C>(j, g)) != nmul::<C>(k, g),
        plus::<C>(plus::<C>(a, a), nmul::<C>(j, g)) != nmul::<C>(k, g),
        plus::<C>(plus::<C>(a, a), nmul::<C>(j, g)) != plus::<C>(a, nmul::<C>(k, g)),
{
    let (x, y, b) = (nmul::<C>(j, g), nmul::<C>(k, g), plus::<C>(a, a));
    lemma_nmul_closed::<C>(j, g);
    lemma_nmul_closed::<C>(k, g);
    lemma_closed::<C>(a, a);
    if plus::<C>(a, x) == y {
        lemma_gap::<C>(g, a, j, k);
    }
    if plus::<C>(b, x) == y {
        lemma_gap::<C>(g, b, j, k);
    }
    if plus::<C>(b, x) == plus::<C>(a, y) {
        lemma_associative::<C>(a, a, x);
        lemma_take_away::<C>(a, plus::<C>(a, x));
        lemma_take_away::<C>(a, y);
        lemma_gap::<C>(g, a, j, k);
    }
}

/// There is no room for three cosets.
proof fn lemma_two_cosets<C: Curve>(g: Pt, a: Pt)
    requires
        is_generator::<C>(g),
        on_curve::<C>(a),
    ensures
        is_multiple::<C>(g, a) || is_multiple::<C>(g, plus::<C>(a, a)),
{
    let n = order::<C>();
    let p = <C::Base as Modulus>::p();
    <C::Base as Modulus>::lemma_modulus();
    <C::Scalar as Modulus>::lemma_modulus();
    if !is_multiple::<C>(g, a) && !is_multiple::<C>(g, plus::<C>(a, a)) {
        let f = |i: int| code(member::<C>(g, a, i));
        let dom = set_int_range(0, 3 * n);
        let img = dom.map(f);
        lemma_int_range(0, 3 * n);
        lemma_int_range(0, 2 * p + 1);
        lemma_closed::<C>(a, a);
        assert forall|i: int| 0 <= i < 3 * n implies on_curve::<C>(#[trigger] member::<C>(g, a, i)) by {
            let k = if i < n {
                i as nat
            } else if i < 2 * n {
                (i - n) as nat
            } else {
                (i - 2 * n) as nat
            };
            lemma_nmul_closed::<C>(k, g);
            lemma_closed::<C>(a, nmul::<C>(k, g));
            lemma_closed::<C>(plus::<C>(a, a), nmul::<C>(k, g));
        }
        assert forall|i: int, j: int| 0 <= i < j < 3 * n implies #[trigger] f(i) != #[trigger] f(j) by {
            lemma_code::<C>(member::<C>(g, a, i), member::<C>(g, a, j));
            lemma_distinct::<C>(g, a, i, j);
        }
        assert(vstd::relations::injective_on(f, dom)) by {
            assert forall|i: int, j: int|
                dom.contains(i) && dom.contains(j) && #[trigger] f(i) == #[trigger] f(j) implies i
                == j by {
                if i < j {
                    assert(f(i) != f(j));
                } else if j < i {
                    assert(f(j) != f(i));
                }
            }
        }
        lemma_map_size(dom, img, f);
        assert forall|v: int| img.contains(v) implies set_int_range(0, 2 * p + 1).contains(v) by {
            let i = choose|i: int| dom.contains(i) && f(i) == v;
            lemma_code::<C>(member::<C>(g, a, i), member::<C>(g, a, i));
        }
        lemma_len_subset(img, set_int_range(0, 2 * p + 1));
        assert(false);
    }
}

/// The elements of the three cosets are distinct.
proof fn lemma_distinct<C: Curve>(g: Pt, a: Pt, i: int, j: int)
    requires
        is_generator::<C>(g),
        on_curve::<C>(a),
        0 <= i < j < 3 * order::<C>(),
        !is_multiple::<C>(g, a),
        !is_multiple::<C>(g, plus::<C>(a, a)),
    ensures
        member::<C>(g, a, i) != member::<C>(g, a, j),
{
    let n = order::<C>();
    let b = plus::<C>(a, a);
    lemma_closed::<C>(a, a);
    if j < n {
        lemma_same_coset::<C>(g, a, i as nat, j as nat);
    } else if j < 2 * n {
        let k = (j - n) as nat;
        if i < n {
            lemma_next_coset::<C>(g, a, k, i as nat);
        } else {
            lemma_same_coset::<C>(g, a, (i - n) as nat, k);
        }
    } else {
        let k = (j - 2 * n) as nat;
        if i < n {
            lemma_next_coset::<C>(g, a, k, i as nat);
        } else if i < 2 * n {
            lemma_next_coset::<C>(g, a, k, (i - n) as nat);
        } else {
            lemma_same_coset::<C>(g, b, (i - 2 * n) as nat, k);
        }
    }
}

/// Every point of the curve is a multiple of the generator.
pub proof fn lemma_generated<C: Curve>(g: Pt, a: Pt)
    requires
        is_generator::<C>(g),
        misses_axis::<C>(),
        on_curve::<C>(a),
    ensures
        is_multiple::<C>(g, a),
{
    let n = order::<C>();
    <C::Scalar as Modulus>::lemma_modulus();
    lemma_two_cosets::<C>(g, a);
    if !is_multiple::<C>(g, a) {
        let b = plus::<C>(a, a);
        let k = choose|k: nat| k < n && b == #[trigger] nmul::<C>(k, g);
        let j = if k % 2 == 0 {
            (k as int / 2) as nat
        } else {
            ((k + n) / 2) as nat
        };
        let x = nmul::<C>(j, g);
        lemma_nmul_closed::<C>(j, g);
        lemma_nmul_add::<C>(j, j, g);
        if k % 2 != 0 {
            lemma_nmul_add::<C>(k, n as nat, g);
            lemma_nmul_closed::<C>(k, g);
            reveal(ec_add);
        }
        assert(plus::<C>(x, x) == b);
        // The difference is its own opposite.
        let y = minus::<C>(x);
        let d = plus::<C>(a, y);
        lemma_inverse_point::<C>(x);
        lemma_closed::<C>(a, y);
        lemma_closed::<C>(a, a);
        crate::curve::law::lemma_exchange::<C>(a, y, a, y);
        crate::curve::slopes::lemma_minus_sum::<C>(x, x);
        lemma_inverse_point::<C>(b);
        assert(plus::<C>(d, d) == Pt::Infinity);
        lemma_opposite::<C>(d, d);
        if let Pt::At { x: u, y: v } = d {
            let p = <C::Base as Modulus>::p();
            <C::Base as Modulus>::lemma_modulus();
            crate::field::congruence::lemma_congruent_mod(-v, p);
            lemma_congruent_ops(v, -v, v, v, p);
            lemma_small_mod(0, p as nat);
            lemma_small_mod(2, p as nat);
            lemma_product::<C::Base>(2, v);
            lemma_small_mod(v as nat, p as nat);
            assert(v == 0);
            assert(false);
        } else {
            // The point is the multiple.
            lemma_opposite::<C>(a, y);
            assert(a == x);
            assert(is_multiple::<C>(g, a)) by {
                assert(j < n);
            }
        }
    }
}

} // verus!

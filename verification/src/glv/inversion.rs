//! The transform can be undone: the transform with the inverse root gives back the inputs, each
//! multiplied with their number.
use crate::curve::combination::{
    all_on_curve, combination, lemma_combination_add, lemma_combination_congruent,
    lemma_combination_scale, lemma_combination_zero, scale_coeffs, sum_coeffs,
};
use crate::curve::law::{
    ec_add, lemma_smul_closed, lemma_smul_small, on_curve, order, smul, Pt,
};
use crate::curve::Group;
use crate::field::congruence::{congruent, lemma_congruent_difference, lemma_congruent_ops};
use crate::field::primes::{is_prime, lemma_euclid};
use crate::field::Modulus;
use crate::glv::dft::{dft_at, dft_coeffs};
use vstd::arithmetic::div_mod::lemma_small_mod;
use vstd::arithmetic::power::{
    lemma1_pow, lemma_pow0, lemma_pow1, lemma_pow_adds, lemma_pow_distributes, lemma_pow_mod_noop,
    lemma_pow_multiplies, pow,
};
use vstd::arithmetic::power2::{lemma2_to64, lemma_pow2_unfold, pow2};
use vstd::prelude::*;

verus! {

/// Powers of congruent numbers are congruent.
proof fn lemma_powers_congruent(a: int, b: int, e: nat, p: int)
    requires
        p > 0,
        congruent(a, b, p),
    ensures
        congruent(pow(a, e), pow(b, e), p),
{
    lemma_pow_mod_noop(a, e, p);
    lemma_pow_mod_noop(b, e, p);
}

/// Odd powers of minus one are minus one.
proof fn lemma_odd_power(e: nat)
    ensures
        pow(-1, 2 * e + 1) == -1,
        pow(-1, 2 * e) == 1,
    decreases e,
{
    lemma_pow1(-1);
    lemma_pow_adds(-1, 2 * e, 1);
    if e == 0 {
        lemma_pow0(-1);
    } else {
        let f = (e - 1) as nat;
        lemma_odd_power(f);
        lemma_pow_adds(-1, 2 * f + 1, 1);
        assert(2 * f + 1 + 1 == 2 * e);
    }
}

/// A number whose power to two to the `k - 1` is minus one has no smaller power than two to the
/// `k` that is one.
proof fn lemma_no_small_power(x: int, k: nat, d: nat, p: int)
    requires
        p > 2,
        k > 0,
        congruent(pow(x, pow2((k - 1) as nat)), -1, p),
        0 < d < pow2(k),
    ensures
        !congruent(pow(x, d), 1, p),
    decreases k,
{
    lemma2_to64();
    let h = pow2((k - 1) as nat);
    lemma_pow2_unfold(k);
    if congruent(pow(x, d), 1, p) {
        if d as int % 2 == 1 {
            let e = (d as int / 2) as nat;
            lemma_pow_multiplies(x, d, h);
            lemma_powers_congruent(pow(x, d), 1, h, p);
            lemma1_pow(h);
            lemma_pow_multiplies(x, h, d);
            lemma_powers_congruent(pow(x, h), -1, d, p);
            lemma_odd_power(e);
            assert(2 * e + 1 == d);
            assert(d * h == h * d) by (nonlinear_arith);
            assert(congruent(1, -1, p));
            lemma_congruent_difference(1, -1, p);
            lemma_small_mod(2, p as nat);
        } else {
            let e = (d as int / 2) as nat;
            assert(k >= 2);
            lemma_pow2_unfold((k - 1) as nat);
            let y = pow(x, 2);
            lemma_pow_multiplies(x, 2, pow2((k - 2) as nat));
            lemma_pow_multiplies(x, 2, e);
            assert(2 * e == d);
            lemma_no_small_power(y, (k - 1) as nat, e, p);
        }
    }
}

/// The sum of the first powers of a number.
spec fn geometric(r: int, m: nat) -> int
    decreases m,
{
    if m == 0 {
        0
    } else {
        geometric(r, (m - 1) as nat) + pow(r, (m - 1) as nat)
    }
}

proof fn lemma_geometric(r: int, m: nat)
    ensures
        (r - 1) * geometric(r, m) == pow(r, m) - 1,
    decreases m,
{
    if m == 0 {
        lemma_pow0(r);
        assert((r - 1) * 0 == 0);
    } else {
        let n = (m - 1) as nat;
        lemma_geometric(r, n);
        lemma_pow_adds(r, n, 1);
        lemma_pow1(r);
        let (g, q) = (geometric(r, n), pow(r, n));
        assert((r - 1) * (g + q) == (r - 1) * g + (q * r - q)) by (nonlinear_arith);
    }
}

proof fn lemma_geometric_one(r: int, m: nat, p: int)
    requires
        p > 0,
        congruent(r, 1, p),
    ensures
        congruent(geometric(r, m), m as int, p),
    decreases m,
{
    if m > 0 {
        let n = (m - 1) as nat;
        lemma_geometric_one(r, n, p);
        lemma_powers_congruent(r, 1, n, p);
        lemma1_pow(n);
        lemma_congruent_ops(geometric(r, n), n as int, pow(r, n), 1, p);
    }
}

/// The coefficient of input `l` in output `i` of both transforms, from the first `m` outputs of
/// the first.
spec fn both(v: int, w: int, i: int, l: int, m: nat) -> int
    decreases m,
{
    if m == 0 {
        0
    } else {
        let j = (m - 1) as nat;
        both(v, w, i, l, j) + pow(v, (i * j) as nat) * pow(w, (j * l) as nat)
    }
}

proof fn lemma_both_geometric(v: int, w: int, i: nat, l: nat, m: nat)
    ensures
        both(v, w, i as int, l as int, m) == geometric(pow(v, i) * pow(w, l), m),
    decreases m,
{
    if m > 0 {
        let j = (m - 1) as nat;
        lemma_both_geometric(v, w, i, l, j);
        lemma_pow_multiplies(v, i, j);
        lemma_pow_multiplies(w, l, j);
        lemma_pow_distributes(pow(v, i), pow(w, l), j);
        assert(j * l == l * j) by (nonlinear_arith);
    }
}

spec fn both_coeffs(n: nat, v: int, w: int, i: int, m: nat) -> Seq<int> {
    Seq::new(n, |l: int| both(v, w, i, l, m))
}

/// The first outputs of the first transform in the second are a combination of the inputs.
proof fn lemma_both<C: Group>(
    input: Seq<Pt>,
    outputs: Seq<Pt>,
    v: int,
    w: int,
    i: int,
    m: nat,
)
    requires
        all_on_curve::<C>(input),
        outputs.len() == input.len(),
        forall|j: int| 0 <= j < outputs.len() ==> #[trigger] outputs[j] == dft_at::<C>(input, w, j),
        m <= input.len(),
    ensures
        combination::<C>(dft_coeffs(input.len(), v, i).take(m as int), outputs) == combination::<C>(
            both_coeffs(input.len(), v, w, i, m),
            input,
        ),
    decreases m,
{
    let n = input.len();
    let coeffs = dft_coeffs(n, v, i);
    let now = both_coeffs(n, v, w, i, m);
    if m == 0 {
        assert(coeffs.take(0) =~= Seq::empty());
        lemma_combination_zero::<C>(now, input);
    } else {
        let j = (m - 1) as nat;
        let before = both_coeffs(n, v, w, i, j);
        lemma_both::<C>(input, outputs, v, w, i, j);
        assert(coeffs.take(m as int).drop_last() =~= coeffs.take(j as int));
        let k = pow(v, (i * j) as nat);
        let a = dft_coeffs(n, w, j as int);
        assert(outputs[j as int] == combination::<C>(a, input));
        lemma_combination_scale::<C>(k, a, input);
        lemma_combination_add::<C>(before, scale_coeffs(k, a), input);
        assert(sum_coeffs(before, scale_coeffs(k, a)) =~= now);
    }
}

/// A combination with a single coefficient that is not zero.
proof fn lemma_single<C: Group>(coeffs: Seq<int>, points: Seq<Pt>, i: int, c: int)
    requires
        all_on_curve::<C>(points),
        coeffs.len() <= points.len(),
        0 <= i < coeffs.len(),
        forall|l: int| 0 <= l < coeffs.len() ==> #[trigger] coeffs[l] == if l == i {
            c
        } else {
            0
        },
    ensures
        combination::<C>(coeffs, points) == smul::<C>(c, points[i]),
    decreases coeffs.len(),
{
    reveal(ec_add);
    let front = coeffs.drop_last();
    let last = coeffs.len() - 1;
    assert(coeffs[last] == coeffs.last());
    assert forall|l: int| 0 <= l < front.len() implies #[trigger] front[l] == if l == i {
        c
    } else {
        0
    } by {
        assert(front[l] == coeffs[l]);
    }
    assert(on_curve::<C>(points[i]) && on_curve::<C>(points[last]));
    lemma_smul_small::<C>(points[last]);
    lemma_smul_closed::<C>(c, points[i]);
    if i == last {
        lemma_combination_zero::<C>(front, points);
    } else {
        lemma_single::<C>(front, points, i, c);
    }
}

/// The coefficients of both transforms together: the number of inputs for the input itself, and
/// zero for every other.
proof fn lemma_both_vanish(v: int, w: int, k: nat, i: nat, l: nat, p: int)
    requires
        is_prime(p),
        p > 2,
        congruent(v * w, 1, p),
        k > 0 ==> congruent(pow(w, pow2((k - 1) as nat)), -1, p),
        i < pow2(k),
        l < pow2(k),
    ensures
        congruent(
            both(v, w, i as int, l as int, pow2(k)),
            if l == i {
                pow2(k) as int
            } else {
                0
            },
            p,
        ),
{
    lemma2_to64();
    let n = pow2(k);
    let r = pow(v, i) * pow(w, l);
    lemma_both_geometric(v, w, i, l, n);
    if l == i {
        lemma_pow_distributes(v, w, i);
        lemma_powers_congruent(v * w, 1, i, p);
        lemma1_pow(i);
        lemma_geometric_one(r, n, p);
    } else {
        assert(k > 0);
        let h = pow2((k - 1) as nat);
        lemma_pow2_unfold(k);
        // The inverse root is of the same order.
        lemma_pow_distributes(v, w, h);
        lemma_powers_congruent(v * w, 1, h, p);
        lemma1_pow(h);
        let (a, b) = (pow(v, h), pow(w, h));
        lemma_congruent_ops(a, a, b, -1, p);
        lemma_congruent_ops(0, 0, a * b, a * -1, p);
        assert(0 - a * -1 == a) by (nonlinear_arith);
        lemma_congruent_ops(0, 0, a * b, 1, p);
        assert(congruent(a, -1, p));
        // One of the roots to the distance is left.
        let d = if l > i {
            (l - i) as nat
        } else {
            (i - l) as nat
        };
        let c = if l > i {
            i
        } else {
            l
        };
        let x = if l > i {
            w
        } else {
            v
        };
        lemma_pow_distributes(v, w, c);
        lemma_powers_congruent(v * w, 1, c, p);
        lemma1_pow(c);
        lemma_pow_adds(x, c, d);
        let (s, t, u) = (pow(v, c), pow(w, c), pow(x, d));
        lemma_congruent_ops(s * t, 1, u, u, p);
        assert(r == (s * t) * u) by {
            if l > i {
                assert(pow(w, l) == t * u);
                assert(s * (t * u) == (s * t) * u) by (nonlinear_arith);
            } else {
                assert(pow(v, i) == s * u);
                assert((s * u) * t == (s * t) * u) by (nonlinear_arith);
            }
        }
        assert(1 * u == u);
        assert(congruent(r, u, p));
        lemma_no_small_power(x, k, d, p);
        // The sum of its powers vanishes.
        lemma_powers_congruent(r, u, n, p);
        lemma_pow_multiplies(x, d, n);
        lemma_pow_multiplies(x, h, 2 * d);
        lemma_powers_congruent(pow(x, h), -1, 2 * d, p);
        lemma_odd_power(d);
        assert(h * (2 * d) == d * n) by (nonlinear_arith)
            requires
                n == 2 * h,
        ;
        lemma_geometric(r, n);
        lemma_congruent_difference(pow(r, n), 1, p);
        lemma_congruent_difference(r, 1, p);
        assert(!congruent(r, 1, p));
        lemma_euclid(p, r - 1, geometric(r, n));
        lemma_small_mod(0, p as nat);
    }
}

/// The transform with the inverse root undoes the transform: its outputs are the inputs, each
/// multiplied with the number of inputs.
pub proof fn lemma_transform_inverts<C: Group>(
    input: Seq<Pt>,
    outputs: Seq<Pt>,
    w: int,
    v: int,
    k: nat,
    i: int,
)
    requires
        input.len() == pow2(k),
        forall|j: int| 0 <= j < input.len() ==> on_curve::<C>(#[trigger] input[j]),
        k > 0 ==> congruent(pow(w, pow2((k - 1) as nat)), -1, order::<C>()),
        congruent(v * w, 1, order::<C>()),
        outputs.len() == input.len(),
        forall|j: int| 0 <= j < outputs.len() ==> #[trigger] outputs[j] == dft_at::<C>(input, w, j),
        0 <= i < input.len(),
    ensures
        dft_at::<C>(outputs, v, i) == smul::<C>(pow2(k) as int, input[i]),
{
    let p = order::<C>();
    let n = input.len();
    <C::Scalar as Modulus>::lemma_modulus();
    let coeffs = dft_coeffs(n, v, i);
    assert(coeffs.take(n as int) =~= coeffs);
    lemma_both::<C>(input, outputs, v, w, i, n);
    let all = both_coeffs(n, v, w, i, n);
    let single = Seq::new(
        n,
        |l: int|
            if l == i {
                n as int
            } else {
                0
            },
    );
    assert forall|l: int| 0 <= l < all.len() implies congruent(#[trigger] all[l], single[l], p) by {
        lemma_both_vanish(v, w, k, i as nat, l as nat, p);
    }
    lemma_combination_congruent::<C>(all, single, input);
    lemma_single::<C>(single, input, i, n as int);
}

} // verus!

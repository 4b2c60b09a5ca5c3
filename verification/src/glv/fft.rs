//! Discrete Fourier transforms of points.
use crate::curve::affine::Affine;
use crate::curve::batch::{batch_normalize, is_affine_of, lemma_affine_of};
use crate::curve::combination::{all_on_curve, lemma_combination_congruent};
use crate::curve::law::{
    lemma_product, lemma_smul_closed, lemma_smul_congruent, lemma_smul_injective, lemma_smul_small,
    on_curve, order, smul, Pt,
};
use crate::curve::point::Point;
use crate::curve::Group;
use crate::field::congruence::{
    congruent, lemma_congruent_difference, lemma_congruent_mod, lemma_congruent_ops,
};
use crate::field::{Fe, Modulus};
use crate::glv::butterfly::{
    affine_twiddle_add_sub_layer, are_proper, is_butterfly, lemma_block_order,
    AffineTwiddleScratch,
};
use crate::glv::codelet::{
    block_points, fft16_low_multiplication_layer, fft8_multiplication_minimal_layer, is_clean,
    natural16, natural8,
};
use crate::glv::dft::{dft_at, dft_coeffs, evens, lemma_dft1, lemma_merge, odds};
use crate::glv::pairs::are_paired;
use crate::glv::params::GlvParams;
use crate::glv::scalar::Decomposed;
use crate::glv::table::Table;
use crate::threads::current_num_threads;
use vstd::arithmetic::power::{
    lemma_pow0, lemma_pow1, lemma_pow_adds, lemma_pow_mod_noop, lemma_pow_multiplies, pow,
};
use vstd::arithmetic::power2::{
    lemma2_to64, lemma_pow2_adds, lemma_pow2_pos, lemma_pow2_strictly_increases, pow2,
};
use vstd::prelude::*;

verus! {

/// Layers of at least this many points per block may be scaled twiddle by twiddle.
pub const TWIDDLE_MAJOR_MIN_CHUNK: usize = 16;

/// Layers of at most this many points per block may be scaled twiddle by twiddle.
pub const TWIDDLE_MAJOR_MAX_CHUNK: usize = 2048;

/// The number with the lowest `bits` bits in reversed order.
pub open spec fn reversed(value: int, bits: nat) -> int
    decreases bits,
{
    if bits == 0 {
        0
    } else {
        reversed(value / 2, (bits - 1) as nat) + (value % 2) * pow2((bits - 1) as nat)
    }
}

/// A reversed number is below the power of two.
proof fn lemma_reversed_bound(value: int, bits: nat)
    ensures
        0 <= reversed(value, bits) < pow2(bits),
    decreases bits,
{
    lemma2_to64();
    if bits > 0 {
        lemma_reversed_bound(value / 2, (bits - 1) as nat);
        lemma_pow2_adds(1, (bits - 1) as nat);
        let p = pow2((bits - 1) as nat) as int;
        let v = value % 2;
        assert(v * p == if v == 0 {
            0
        } else {
            p
        });
    }
}

/// The number with the lowest `bits` bits in reversed order.
fn bitreverse(value: usize, bits: usize) -> (r: usize)
    requires
        pow2(bits as nat) <= usize::MAX,
    ensures
        r == reversed(value as int, bits as nat),
        r < pow2(bits as nat),
{
    let mut value = value;
    let mut r: usize = 0;
    let mut i: usize = 0;
    let ghost v0 = value as int;
    proof {
        lemma2_to64();
        lemma_reversed_bound(v0, bits as nat);
        assert(0 * pow2(bits as nat) == 0);
    }
    while i < bits
        invariant
            i <= bits,
            pow2(bits as nat) <= usize::MAX,
            reversed(v0, bits as nat) == r * pow2((bits - i) as nat) + reversed(
                value as int,
                (bits - i) as nat,
            ),
            0 <= reversed(v0, bits as nat) < pow2(bits as nat),
            r < pow2(i as nat),
        decreases bits - i,
    {
        proof {
            let (m, p) = ((bits - i - 1) as nat, pow2((bits - i - 1) as nat) as int);
            lemma2_to64();
            lemma_pow2_adds(1, m);
            lemma_pow2_adds(1, i as nat);
            assert(pow2((bits - i) as nat) == 2 * p);
            let v = value as int % 2;
            assert(r * (2 * p) + v * p == (2 * r + v) * p) by (nonlinear_arith);
            if i + 1 < bits {
                lemma_pow2_strictly_increases((i + 1) as nat, bits as nat);
            }
        }
        r = 2 * r + value % 2;
        value = value / 2;
        i += 1;
    }
    proof {
        lemma2_to64();
        assert(r * 1 == r);
    }
    r
}

/// The inputs that end up in block `b` when blocks have `2^l` points.
pub open spec fn block_inputs(input: Seq<Pt>, k: nat, l: nat, b: int) -> Seq<Pt> {
    Seq::new(
        pow2(l),
        |j: int| input[j * pow2((k - l) as nat) + reversed(b, (k - l) as nat)],
    )
}

/// The root of the transforms of blocks with `2^l` points.
pub open spec fn block_root(w: int, k: nat, l: nat) -> int {
    pow(w, pow2((k - l) as nat))
}

/// The root of the transform is primitive: the powers repeat with the opposite sign after half of
/// the points.
pub open spec fn is_primitive<C: Group>(w: int, k: nat) -> bool {
    k > 0 ==> congruent(pow(w, pow2((k - 1) as nat)), -1, order::<C>())
}

/// What the transform is about: the curve is a group, the inputs are on it and the root is
/// primitive.
pub open spec fn is_proper<C: Group>(input: Seq<Pt>, w: int, k: nat) -> bool {
    all_on_curve::<C>(input) && input.len() == pow2(k) && is_primitive::<C>(w, k)
}

/// What transforms are promised for: as many inputs on the curve as the power of two says, and a
/// root whose power to half of their number is minus one, as it is for every root of that order.
pub proof fn lemma_proper_transforms<C: Group>(input: Seq<Pt>, w: int, k: nat)
    ensures
        is_proper::<C>(input, w, k) <==> input.len() == pow2(k) && (forall|i: int|
            0 <= i < input.len() ==> on_curve::<C>(#[trigger] input[i])) && (k == 0 || (pow(
            w,
            pow2((k - 1) as nat),
        ) + 1) % order::<C>() == 0),
{
    <C::Scalar as Modulus>::lemma_modulus();
    if k > 0 {
        let v = pow(w, pow2((k - 1) as nat));
        crate::field::congruence::lemma_congruent_difference(v, -1, order::<C>());
        assert(v - (-1) == v + 1);
    }
}

/// Every block of `2^l` points holds the transform of its inputs.
spec fn is_layer<C: Group>(points: Seq<Affine<C>>, input: Seq<Pt>, w: int, k: nat, l: nat) -> bool {
    &&& points.len() == pow2(k)
    &&& is_proper::<C>(input, w, k) ==> forall|b: int, i: int|
        0 <= b < pow2((k - l) as nat) && 0 <= i < pow2(l) ==> (#[trigger] points[b * pow2(l)
            + i])@ == block_output::<C>(input, w, k, l, b, i)
}

spec fn block_output<C: Group>(input: Seq<Pt>, w: int, k: nat, l: nat, b: int, i: int) -> Pt {
    dft_at::<C>(block_inputs(input, k, l, b), block_root(w, k, l), i)
}

/// The inputs of a block are on the curve.
proof fn lemma_block_inputs<C: Group>(input: Seq<Pt>, k: nat, l: nat, b: int)
    requires
        all_on_curve::<C>(input),
        input.len() == pow2(k),
        l <= k,
    ensures
        all_on_curve::<C>(block_inputs(input, k, l, b)),
        block_inputs(input, k, l, b).len() == pow2(l),
{
    let s = block_inputs(input, k, l, b);
    let m = (k - l) as nat;
    lemma_reversed_bound(b, m);
    lemma_pow2_adds(l, m);
    let (x, y, t) = (pow2(l) as int, pow2(m) as int, reversed(b, m));
    assert forall|j: int| 0 <= j < s.len() implies on_curve::<C>(#[trigger] s[j]) by {
        assert(0 <= j * y + t < x * y) by (nonlinear_arith)
            requires
                0 <= j < x,
                0 <= t < y,
        ;
        assert(on_curve::<C>(input[j * y + t]));
    }
}

/// The inputs of a block at even and odd positions are the inputs of the two blocks it is made
/// of.
proof fn lemma_block_halves(input: Seq<Pt>, k: nat, l: nat, b: int)
    requires
        l < k,
        b >= 0,
    ensures
        evens(block_inputs(input, k, l + 1, b)) == block_inputs(input, k, l, 2 * b),
        odds(block_inputs(input, k, l + 1, b)) == block_inputs(input, k, l, 2 * b + 1),
{
    let m = (k - l - 1) as nat;
    lemma_pow2_adds(1, m);
    lemma_pow2_adds(1, l);
    lemma2_to64();
    let p = pow2(m) as int;
    let s = block_inputs(input, k, l + 1, b);
    assert((k - (l + 1)) as nat == m && (k - l) as nat == m + 1);
    assert(pow2(m + 1) == 2 * p && pow2(l + 1) == 2 * pow2(l));
    assert((2 * b) / 2 == b && (2 * b) % 2 == 0 && (2 * b + 1) / 2 == b && (2 * b + 1) % 2 == 1);
    assert(reversed(2 * b, m + 1) == reversed(b, m) + 0 * p);
    assert(reversed(2 * b + 1, m + 1) == reversed(b, m) + 1 * p);
    let (x, y) = (block_inputs(input, k, l, 2 * b), block_inputs(input, k, l, 2 * b + 1));
    assert forall|j: int| 0 <= j < pow2(l) implies evens(s)[j] == x[j] && odds(s)[j] == y[j] by {
        assert((2 * j) * p == j * (2 * p)) by (nonlinear_arith);
        assert((2 * j + 1) * p == j * (2 * p) + p) by (nonlinear_arith);
    }
    assert(evens(s) =~= x);
    assert(odds(s) =~= y);
}

/// The roots of consecutive layers.
proof fn lemma_block_root<C: Group>(w: int, k: nat, l: nat)
    requires
        l < k,
    ensures
        block_root(w, k, l) == block_root(w, k, l + 1) * block_root(w, k, l + 1),
        is_primitive::<C>(w, k) ==> congruent(
            pow(block_root(w, k, l + 1), pow2(l)),
            -1,
            order::<C>(),
        ),
{
    let m = (k - l - 1) as nat;
    lemma2_to64();
    lemma_pow2_adds(1, m);
    assert((k - (l + 1)) as nat == m && (k - l) as nat == m + 1);
    let p = pow2(m);
    assert(pow2(m + 1) == p + p);
    lemma_pow_adds(w, p, p);
    lemma_pow_multiplies(w, p, pow2(l));
    lemma_pow2_adds(m, l);
    assert(m + l == (k - 1) as nat);
}

/// Congruent roots give the same transform.
proof fn lemma_dft_root<C: Group>(points: Seq<Pt>, r: int, s: int, i: int)
    requires
        congruent(r, s, order::<C>()),
    ensures
        dft_at::<C>(points, r, i) == dft_at::<C>(points, s, i),
{
    <C::Scalar as Modulus>::lemma_modulus();
    let n = order::<C>();
    let (a, b) = (dft_coeffs(points.len(), r, i), dft_coeffs(points.len(), s, i));
    assert forall|j: int| 0 <= j < a.len() implies congruent(#[trigger] a[j], b[j], n) by {
        lemma_pow_mod_noop(r, (i * j) as nat, n);
        lemma_pow_mod_noop(s, (i * j) as nat, n);
    }
    lemma_combination_congruent::<C>(a, b, points);
}

/// The twiddle factors: the recoded powers of the root.
spec fn are_twiddles<C: Group>(twiddles: Seq<Decomposed<C>>, w: int) -> bool {
    forall|j: int|
        0 <= j < twiddles.len() ==> congruent(
            (#[trigger] twiddles[j]).value(),
            pow(w, j as nat),
            order::<C>(),
        )
}

/// The second halves of the blocks, multiplied with the twiddle factors.
spec fn is_scaled<C: Group>(
    points: Seq<Affine<C>>,
    right: Seq<Affine<C>>,
    w: int,
    half: int,
    stride: int,
) -> bool {
    &&& 2 * right.len() == points.len()
    &&& forall|b: int, j: int|
        0 <= b && 0 <= j < half && b * half + j < right.len() && on_curve::<C>(
            points[2 * (b * half) + half + j]@,
        ) ==> (#[trigger] right[b * half + j])@ == smul::<C>(
            pow(w, (j * stride) as nat),
            points[2 * (b * half) + half + j]@,
        )
}

fn make_twiddles<C: GlvParams>(omega: Fe<C::Scalar>, count: usize) -> (r: Vec<Decomposed<C>>)
    ensures
        r@.len() == count,
        are_twiddles(r@, omega@),
{
    let ghost n = order::<C>();
    let mut r: Vec<Decomposed<C>> = Vec::new();
    let mut twiddle = Fe::<C::Scalar>::one();
    let mut i: usize = 0;
    proof {
        <C::Scalar as Modulus>::lemma_modulus();
        lemma_pow0(omega@);
    }
    while i < count
        invariant
            i <= count,
            n == order::<C>(),
            n > 1,
            r@.len() == i,
            are_twiddles(r@, omega@),
            congruent(twiddle@, pow(omega@, i as nat), n),
        decreases count - i,
    {
        r.push(Decomposed::new(twiddle));
        proof {
            lemma_pow1(omega@);
            lemma_pow_adds(omega@, i as nat, 1);
            lemma_congruent_mod(twiddle@ * omega@, n);
            lemma_congruent_ops(twiddle@, pow(omega@, i as nat), omega@, omega@, n);
        }
        twiddle = twiddle.mul(omega);
        i += 1;
    }
    r
}

/// No point is neutral.
spec fn are_finite<C: Group>(points: Seq<Affine<C>>) -> bool {
    forall|i: int| 0 <= i < points.len() ==> (#[trigger] points[i])@ != Pt::Infinity
}

/// A layer is made of the butterflies of the one below it.
proof fn lemma_next_layer<C: Group>(
    points: Seq<Affine<C>>,
    right: Seq<Affine<C>>,
    out: Seq<Affine<C>>,
    input: Seq<Pt>,
    w: int,
    k: nat,
    l: nat,
    free: bool,
    kept: bool,
)
    requires
        l < k,
        is_layer(points, input, w, k, l),
        free && is_proper::<C>(input, w, k) ==> are_finite(points),
        is_scaled(points, right, w, pow2(l) as int, pow2((k - l - 1) as nat) as int),
        out.len() == points.len(),
        forall|b: int, j: int|
            0 <= b && 0 <= j < pow2(l) && b * pow2(l) + j < right.len() ==> is_butterfly::<C>(
                points[2 * (b * pow2(l)) + j]@,
                (#[trigger] right[b * pow2(l) + j])@,
                out[2 * (b * pow2(l)) + j]@,
                out[2 * (b * pow2(l)) + pow2(l) + j]@,
                free,
            ),
        kept ==> forall|b: int, j: int|
            0 <= b && 0 <= j < pow2(l) && b * pow2(l) + j < right.len() && are_proper::<C>(
                points[2 * (b * pow2(l)) + j]@,
                (#[trigger] right[b * pow2(l) + j])@,
                free,
            ) ==> out[2 * (b * pow2(l)) + j]@ != Pt::Infinity && out[2 * (b * pow2(l)) + pow2(l)
                + j]@ != Pt::Infinity,
    ensures
        is_layer(out, input, w, k, l + 1),
        kept && is_proper::<C>(input, w, k) ==> are_finite(out),
{
    if is_proper::<C>(input, w, k) {
        let (h, m) = (pow2(l) as int, (k - l - 1) as nat);
        let p = pow2(m) as int;
        lemma2_to64();
        lemma_pow2_adds(1, l);
        lemma_pow2_adds(1, m);
        lemma_pow2_adds(l + 1, m);
        lemma_pow2_pos(l);
        assert(l + 1 + m == k);
        assert(pow2(l + 1) == 2 * h && pow2((k - l) as nat) == 2 * p && pow2(k) == 2 * h * p);
        assert((k - (l + 1)) as nat == m);
        assert forall|b: int, i: int| 0 <= b < p && 0 <= i < 2 * h implies (#[trigger] out[b * pow2(
            l + 1,
        ) + i])@ == block_output::<C>(input, w, k, l + 1, b, i) && (kept ==> out[b * pow2(l + 1)
            + i]@ != Pt::Infinity) by {
            let j = if i < h { i } else { i - h };
            let r = block_root(w, k, l + 1);
            let s = block_inputs(input, k, l + 1, b);
            lemma_block_inputs::<C>(input, k, l + 1, b);
            lemma_block_halves(input, k, l, b);
            lemma_block_root::<C>(w, k, l);
            lemma_merge::<C>(s, r, j, h as nat);
            assert(b * (2 * h) == 2 * (b * h) && (2 * b) * h == 2 * (b * h) && (2 * b + 1) * h == 2
                * (b * h) + h && b * h + h <= p * h && 0 <= b * h) by (nonlinear_arith)
                requires
                    0 <= b < p,
                    h > 0,
            ;
            assert(2 * h * p == 2 * (p * h)) by (nonlinear_arith);
            // The two halves of the block.
            assert(points[(2 * b) * pow2(l) + j]@ == block_output::<C>(input, w, k, l, 2 * b, j));
            assert(points[(2 * b + 1) * pow2(l) + j]@ == block_output::<C>(
                input,
                w,
                k,
                l,
                2 * b + 1,
                j,
            ));
            let (x, y) = (points[2 * (b * h) + j]@, points[2 * (b * h) + h + j]@);
            assert(x == dft_at::<C>(evens(s), r * r, j));
            assert(y == dft_at::<C>(odds(s), r * r, j));
            let z = right[b * h + j]@;
            assert(z == smul::<C>(pow(w, (j * p) as nat), y));
            lemma_pow_multiplies(w, pow2(m), j as nat);
            assert(pow2(m) * (j as nat) == (j * p) as nat) by (nonlinear_arith)
                requires
                    p == pow2(m),
                    j >= 0,
            ;
            assert(pow(r, j as nat) == pow(w, (j * p) as nat));
            lemma_smul_closed::<C>(pow(w, (j * p) as nat), y);
            if free {
                assert(x != Pt::Infinity && y != Pt::Infinity);
                lemma_power_unit::<C>(w, k, (j * p) as nat);
                if z == Pt::Infinity {
                    lemma_smul_small::<C>(y);
                    lemma_smul_injective::<C>(pow(w, (j * p) as nat), 0, y);
                }
            }
            assert(are_proper::<C>(x, z, free));
            assert(is_butterfly::<C>(
                x,
                z,
                out[2 * (b * pow2(l)) + j]@,
                out[2 * (b * pow2(l)) + pow2(l) + j]@,
                free,
            ));
        }
        if kept {
            assert forall|t: int| 0 <= t < out.len() implies (#[trigger] out[t])@ != Pt::Infinity by {
                let (b, i) = (t / (2 * h), t % (2 * h));
                vstd::arithmetic::div_mod::lemma_fundamental_div_mod(t, 2 * h);
                vstd::arithmetic::div_mod::lemma_mod_bound(t, 2 * h);
                assert(0 <= b < p && b * (2 * h) + i == t) by (nonlinear_arith)
                    requires
                        t == (2 * h) * b + i,
                        0 <= i < 2 * h,
                        0 <= t < 2 * h * p,
                ;
                assert(out[b * pow2(l + 1) + i]@ == block_output::<C>(input, w, k, l + 1, b, i));
            }
        }
    }
}

/// The powers of a primitive root are not zero.
proof fn lemma_power_unit<C: Group>(w: int, k: nat, e: nat)
    requires
        k > 0,
        is_primitive::<C>(w, k),
    ensures
        !congruent(pow(w, e), 0, order::<C>()),
    decreases e,
{
    <C::Scalar as Modulus>::lemma_modulus();
    let n = order::<C>();
    vstd::arithmetic::div_mod::lemma_small_mod(0, n as nat);
    vstd::arithmetic::div_mod::lemma_small_mod(1, n as nat);
    lemma_pow1(w);
    if e == 0 {
        lemma_pow0(w);
    } else {
        lemma_power_unit::<C>(w, k, (e - 1) as nat);
        lemma_pow_adds(w, 1, (e - 1) as nat);
        lemma_congruent_difference(0, -1, n);
        if w % n == 0 {
            lemma_pow2_pos((k - 1) as nat);
            let m = (pow2((k - 1) as nat) - 1) as nat;
            lemma_pow_adds(w, 1, m);
            lemma_congruent_ops(w, 0, pow(w, m), pow(w, m), n);
            assert(0 * pow(w, m) == 0);
        }
        lemma_product::<C::Scalar>(w, pow(w, (e - 1) as nat));
    }
}

/// The second halves of the blocks multiplied with the twiddle factors, in one batch of pairs.
fn scale_pairs<C: Group>(
    points: &Vec<Affine<C>>,
    twiddles: &Vec<Decomposed<C>>,
    half: usize,
    stride: usize,
    Ghost(w): Ghost<int>,
) -> (right: Vec<Affine<C>>)
    requires
        half > 0,
        stride > 0,
        points@.len() == 2 * (half * stride),
        twiddles@.len() == half * stride,
        points@.len() * 8 <= usize::MAX,
        are_twiddles(twiddles@, w),
    ensures
        is_scaled(points@, right@, w, half as int, stride as int),
{
    let total = points.len();
    let packed = half - 1;
    let mut list: Vec<Point<C>> = Vec::new();
    let mut which: Vec<usize> = Vec::new();
    let mut b: usize = 0;
    assert(0 * packed == 0);
    while b < stride
        invariant
            b <= stride,
            half > 0,
            packed == half - 1,
            total == points@.len(),
            total == 2 * (half * stride),
            twiddles@.len() == half * stride,
            list@.len() == b * packed,
            which@.len() == b * packed,
            forall|t: int| 0 <= t < which@.len() ==> #[trigger] which@[t] < twiddles@.len(),
            forall|c: int, j: int|
                0 <= c < b && 0 <= j < packed ==> (#[trigger] list@[c * packed + j])@ == points@[2
                    * (c * half) + half + j + 1]@ && which@[c * packed + j] == (j + 1) * stride,
        decreases stride - b,
    {
        let ghost (l0, w0) = (list@, which@);
        let mut j: usize = 0;
        proof {
            assert(b * half + half <= half * stride && 0 <= b * half) by (nonlinear_arith)
                requires
                    0 <= b < stride,
                    half > 0,
            ;
        }
        let base = 2 * (b * half) + half + 1;
        while j < packed
            invariant
                j <= packed,
                packed == half - 1,
                b < stride,
                total == points@.len(),
                total == 2 * (half * stride),
                twiddles@.len() == half * stride,
                b * half + half <= half * stride,
                base == 2 * (b * half) + half + 1,
                list@.len() == b * packed + j,
                which@.len() == b * packed + j,
                l0.len() == b * packed,
                w0.len() == b * packed,
                forall|t: int| 0 <= t < which@.len() ==> #[trigger] which@[t] < twiddles@.len(),
                forall|t: int| 0 <= t < l0.len() ==> #[trigger] list@[t] == l0[t],
                forall|t: int| 0 <= t < l0.len() ==> #[trigger] which@[t] == w0[t],
                forall|i: int|
                    0 <= i < j ==> (#[trigger] list@[b * packed + i])@ == points@[base + i]@
                        && which@[b * packed + i] == (i + 1) * stride,
            decreases packed - j,
        {
            proof {
                assert(0 <= (j + 1) * stride < half * stride) by (nonlinear_arith)
                    requires
                        0 <= j + 1 < half,
                        stride > b,
                        b >= 0,
                ;
            }
            list.push(Point::from_affine(points[base + j]));
            which.push((j + 1) * stride);
            j += 1;
        }
        proof {
            assert forall|c: int, i: int| 0 <= c < b + 1 && 0 <= i < packed implies (
            #[trigger] list@[c * packed + i])@ == points@[2 * (c * half) + half + i + 1]@
                && which@[c * packed + i] == (i + 1) * stride by {
                if c < b {
                    lemma_block_order(c, b as int, i, packed as int);
                    assert(l0[c * packed + i]@ == points@[2 * (c * half) + half + i + 1]@);
                    assert(list@[c * packed + i] == l0[c * packed + i]);
                    assert(which@[c * packed + i] == w0[c * packed + i]);
                } else {
                    assert(list@[b * packed + i]@ == points@[base + i]@);
                }
            }
            assert((b + 1) * packed == b * packed + packed) by (nonlinear_arith);
        }
        b += 1;
    }
    proof {
        assert(stride * packed <= half * stride) by (nonlinear_arith)
            requires
                packed == half - 1,
                stride > 0,
        ;
    }
    let products = Table::mul_decomposed_pairs_affine(&list, twiddles, &which);
    let mut right: Vec<Affine<C>> = Vec::new();
    let mut b: usize = 0;
    assert(0 * half == 0);
    while b < stride
        invariant
            b <= stride,
            half > 0,
            packed == half - 1,
            total == points@.len(),
            total == 2 * (half * stride),
            products@.len() == stride * packed,
            list@.len() == stride * packed,
            which@.len() == stride * packed,
            are_paired(list@.len(), twiddles@, which@),
            are_twiddles(twiddles@, w),
            forall|c: int, j: int|
                0 <= c < stride && 0 <= j < packed ==> (#[trigger] list@[c * packed + j])@
                    == points@[2 * (c * half) + half + j + 1]@ && which@[c * packed + j] == (j + 1)
                    * stride,
            forall|t: int|
                0 <= t < list@.len() && on_curve::<C>((#[trigger] list@[t])@)
                    ==> products@[t]@ == smul::<C>(twiddles@[which@[t] as int].value(), list@[t]@),
            right@.len() == b * half,
            forall|c: int, j: int|
                0 <= c < b && 0 <= j < half && on_curve::<C>(
                    points@[2 * (c * half) + half + j]@,
                ) ==> (#[trigger] right@[c * half + j])@ == smul::<C>(
                    pow(w, (j * stride) as nat),
                    points@[2 * (c * half) + half + j]@,
                ),
        decreases stride - b,
    {
        proof {
            assert(b * half + half <= half * stride && 0 <= b * half && b * packed + packed <= stride
                * packed && 0 <= b * packed) by (nonlinear_arith)
                requires
                    0 <= b < stride,
                    half > 0,
                    packed >= 0,
            ;
        }
        let ghost r0 = right@;
        let size = products.len();
        let start = 2 * (b * half) + half;
        let from = b * packed;
        right.push(points[start]);
        proof {
            if on_curve::<C>(points@[start as int]@) {
                lemma_smul_small::<C>(points@[start as int]@);
                lemma_pow0(w);
                assert(0 * stride == 0);
            }
        }
        let mut j: usize = 1;
        while j < half
            invariant
                1 <= j <= half,
                b < stride,
                packed == half - 1,
                from == b * packed,
                from + packed <= products@.len(),
                start == 2 * (b * half) + half,
                list@.len() == products@.len(),
                products@.len() == stride * packed,
                are_paired(list@.len(), twiddles@, which@),
                are_twiddles(twiddles@, w),
                forall|c: int, i: int|
                    0 <= c < stride && 0 <= i < packed ==> (#[trigger] list@[c * packed + i])@
                        == points@[2 * (c * half) + half + i + 1]@ && which@[c * packed + i] == (i
                        + 1) * stride,
                forall|t: int|
                    0 <= t < list@.len() && on_curve::<C>((#[trigger] list@[t])@)
                        ==> products@[t]@ == smul::<C>(
                        twiddles@[which@[t] as int].value(),
                        list@[t]@,
                    ),
                right@.len() == b * half + j,
                r0.len() == b * half,
                forall|t: int| 0 <= t < r0.len() ==> #[trigger] right@[t] == r0[t],
                forall|i: int|
                    0 <= i < j && on_curve::<C>(points@[start + i]@) ==> (
                    #[trigger] right@[b * half + i])@ == smul::<C>(
                        pow(w, (i * stride) as nat),
                        points@[start + i]@,
                    ),
            decreases half - j,
        {
            let size = products.len();
            right.push(products[from + (j - 1)]);
            proof {
                let i = j - 1;
                let t = b * packed + i;
                assert(list@[t]@ == points@[2 * (b * half) + half + i + 1]@);
                assert(which@[t] < twiddles@.len());
                let k = which@[t] as int;
                assert(congruent(twiddles@[k].value(), pow(w, k as nat), order::<C>()));
                lemma_smul_congruent::<C>(twiddles@[k].value(), pow(w, k as nat), list@[t]@);
            }
            j += 1;
        }
        proof {
            assert forall|c: int, i: int|
                0 <= c < b + 1 && 0 <= i < half && on_curve::<C>(
                    points@[2 * (c * half) + half + i]@,
                ) implies (#[trigger] right@[c * half + i])@ == smul::<C>(
                pow(w, (i * stride) as nat),
                points@[2 * (c * half) + half + i]@,
            ) by {
                if c < b {
                    lemma_block_order(c, b as int, i, half as int);
                    assert(right@[c * half + i] == r0[c * half + i]);
                } else {
                    assert(start + i == 2 * (c * half) + half + i);
                }
            }
            assert((b + 1) * half == b * half + half) by (nonlinear_arith);
        }
        b += 1;
    }
    proof {
        assert(stride * half == half * stride) by (nonlinear_arith);
        assert forall|c: int, j: int|
            0 <= c && 0 <= j < half && c * half + j < right@.len()
                && on_curve::<C>(points@[2 * (c * half) + half + j]@) implies (#[trigger] right@[c
            * half + j])@ == smul::<C>(
            pow(w, (j * stride) as nat),
            points@[2 * (c * half) + half + j]@,
        ) by {
            assert(c < stride) by (nonlinear_arith)
                requires
                    c * half + j < stride * half,
                    0 <= j,
                    half > 0,
            ;
        }
    }
    right
}

/// The second halves of the blocks multiplied with the twiddle factors, in one batch per twiddle
/// factor.
fn scale_columns<C: Group>(
    points: &Vec<Affine<C>>,
    twiddles: &Vec<Decomposed<C>>,
    half: usize,
    stride: usize,
    Ghost(w): Ghost<int>,
) -> (right: Vec<Affine<C>>)
    requires
        half > 0,
        stride > 0,
        points@.len() == 2 * (half * stride),
        twiddles@.len() == half * stride,
        points@.len() * 8 <= usize::MAX,
        are_twiddles(twiddles@, w),
    ensures
        is_scaled(points@, right@, w, half as int, stride as int),
{
    let total = points.len();
    let mut products: Vec<Vec<Affine<C>>> = Vec::new();
    let mut j: usize = 0;
    while j < half
        invariant
            j <= half,
            half > 0,
            stride > 0,
            total == points@.len(),
            total == 2 * (half * stride),
            total * 8 <= usize::MAX,
            twiddles@.len() == half * stride,
            are_twiddles(twiddles@, w),
            products@.len() == j,
            forall|i: int|
                0 <= i < j ==> is_column(
                    points@,
                    w,
                    half as int,
                    stride as int,
                    i,
                    (#[trigger] products@[i])@,
                ),
        decreases half - j,
    {
        let mut column: Vec<Point<C>> = Vec::new();
        let mut affine: Vec<Affine<C>> = Vec::new();
        let mut b: usize = 0;
        while b < stride
            invariant
                b <= stride,
                j < half,
                total == points@.len(),
                total == 2 * (half * stride),
                column@.len() == b,
                affine@.len() == b,
                forall|c: int|
                    0 <= c < b ==> (#[trigger] column@[c])@ == points@[2 * (c * half) + half + j]@,
                forall|c: int|
                    0 <= c < b ==> (#[trigger] affine@[c]) == points@[2 * (c * half) + half + j],
            decreases stride - b,
        {
            proof {
                assert(b * half + half <= half * stride && 0 <= b * half) by (nonlinear_arith)
                    requires
                        0 <= b < stride,
                        half > 0,
                ;
            }
            let point = points[2 * (b * half) + half + j];
            column.push(Point::from_affine(point));
            affine.push(point);
            b += 1;
        }
        proof {
            assert(stride <= half * stride && 0 <= j * stride < half * stride) by (nonlinear_arith)
                requires
                    0 <= j < half,
                    stride > 0,
            ;
        }
        let product = if j == 0 {
            affine
        } else {
            Table::mul_decomposed_same_scalar_affine(&column, &twiddles[j * stride])
        };
        proof {
            assert forall|c: int| 0 <= c < stride implies is_column_entry(
                points@,
                w,
                half as int,
                stride as int,
                j as int,
                c,
                #[trigger] product@[c],
            ) by {
                let y = points@[2 * (c * half) + half + j]@;
                if on_curve::<C>(y) {
                    assert(column@[c]@ == y);
                    let t = j * stride;
                    assert(congruent(twiddles@[t].value(), pow(w, t as nat), order::<C>()));
                    lemma_smul_congruent::<C>(twiddles@[t].value(), pow(w, t as nat), y);
                    if j == 0 {
                        assert(0 * stride == 0);
                        lemma_pow0(w);
                        lemma_smul_small::<C>(y);
                    }
                }
            }
        }
        products.push(product);
        j += 1;
    }
    let mut right: Vec<Affine<C>> = Vec::new();
    let mut b: usize = 0;
    assert(0 * half == 0);
    while b < stride
        invariant
            b <= stride,
            half > 0,
            products@.len() == half,
            forall|i: int|
                0 <= i < half ==> is_column(
                    points@,
                    w,
                    half as int,
                    stride as int,
                    i,
                    (#[trigger] products@[i])@,
                ),
            right@.len() == b * half,
            forall|c: int, i: int|
                0 <= c < b && 0 <= i < half ==> is_column_entry(
                    points@,
                    w,
                    half as int,
                    stride as int,
                    i,
                    c,
                    #[trigger] right@[c * half + i],
                ),
        decreases stride - b,
    {
        let ghost r0 = right@;
        let mut j: usize = 0;
        while j < half
            invariant
                j <= half,
                b < stride,
                products@.len() == half,
                forall|i: int|
                    0 <= i < half ==> is_column(
                        points@,
                        w,
                        half as int,
                        stride as int,
                        i,
                        (#[trigger] products@[i])@,
                    ),
                right@.len() == b * half + j,
                r0.len() == b * half,
                forall|t: int| 0 <= t < r0.len() ==> #[trigger] right@[t] == r0[t],
                forall|i: int|
                    0 <= i < j ==> is_column_entry(
                        points@,
                        w,
                        half as int,
                        stride as int,
                        i,
                        b as int,
                        #[trigger] right@[b * half + i],
                    ),
            decreases half - j,
        {
            let column = &products[j];
            assert(is_column(points@, w, half as int, stride as int, j as int, column@));
            assert(is_column_entry(
                points@,
                w,
                half as int,
                stride as int,
                j as int,
                b as int,
                column@[b as int],
            ));
            right.push(column[b]);
            j += 1;
        }
        proof {
            assert forall|c: int, i: int| 0 <= c < b + 1 && 0 <= i < half implies is_column_entry(
                points@,
                w,
                half as int,
                stride as int,
                i,
                c,
                #[trigger] right@[c * half + i],
            ) by {
                if c < b {
                    lemma_block_order(c, b as int, i, half as int);
                    assert(right@[c * half + i] == r0[c * half + i]);
                }
            }
            assert((b + 1) * half == b * half + half) by (nonlinear_arith);
        }
        b += 1;
    }
    proof {
        assert(stride * half == half * stride) by (nonlinear_arith);
        assert forall|c: int, j: int|
            0 <= c && 0 <= j < half && c * half + j < right@.len()
                && on_curve::<C>(points@[2 * (c * half) + half + j]@) implies (#[trigger] right@[c
            * half + j])@ == smul::<C>(
            pow(w, (j * stride) as nat),
            points@[2 * (c * half) + half + j]@,
        ) by {
            assert(c < stride) by (nonlinear_arith)
                requires
                    c * half + j < stride * half,
                    0 <= j,
                    half > 0,
            ;
            assert(is_column_entry(
                points@,
                w,
                half as int,
                stride as int,
                j,
                c,
                right@[c * half + j],
            ));
        }
    }
    right
}

/// The entries of all blocks at one position of the second half, multiplied with the twiddle
/// factor.
spec fn is_column<C: Group>(
    points: Seq<Affine<C>>,
    w: int,
    half: int,
    stride: int,
    j: int,
    column: Seq<Affine<C>>,
) -> bool {
    &&& column.len() == stride
    &&& forall|b: int|
        0 <= b < stride ==> is_column_entry(points, w, half, stride, j, b, #[trigger] column[b])
}

/// An entry of the second half of block `b`, multiplied with its twiddle factor.
spec fn is_column_entry<C: Group>(
    points: Seq<Affine<C>>,
    w: int,
    half: int,
    stride: int,
    j: int,
    b: int,
    entry: Affine<C>,
) -> bool {
    on_curve::<C>(points[2 * (b * half) + half + j]@) ==> entry@ == smul::<C>(
        pow(w, (j * stride) as nat),
        points[2 * (b * half) + half + j]@,
    )
}

/// The blocks of one point hold the inputs in bit-reversed order.
fn load_reversed<C: Group>(input: &Vec<Point<C>>, log_n: usize) -> (r: Vec<Affine<C>>)
    requires
        input@.len() == pow2(log_n as nat),
    ensures
        r@.len() == input@.len(),
        forall|i: int|
            0 <= i < r@.len() ==> is_affine_of(
                #[trigger] r@[i],
                input@[reversed(i, log_n as nat)]@,
            ),
{
    let n = input.len();
    let normal = batch_normalize(input);
    let mut r: Vec<Affine<C>> = Vec::new();
    let mut i: usize = 0;
    while i < n
        invariant
            i <= n,
            n == input@.len(),
            n == pow2(log_n as nat),
            normal@.len() == n,
            forall|k: int| 0 <= k < n ==> is_affine_of(#[trigger] normal@[k], input@[k]@),
            r@.len() == i,
            forall|k: int|
                0 <= k < i ==> is_affine_of(
                    #[trigger] r@[k],
                    input@[reversed(k, log_n as nat)]@,
                ),
        decreases n - i,
    {
        let from = bitreverse(i, log_n);
        assert(is_affine_of(normal@[from as int], input@[from as int]@));
        r.push(normal[from]);
        i += 1;
    }
    r
}

/// The points of a list.
pub open spec fn point_values<C: Group>(points: Seq<Point<C>>) -> Seq<Pt> {
    Seq::new(points.len(), |i: int| points[i]@)
}

/// The points in bit-reversed order are the layer of blocks of one point.
proof fn lemma_first_layer<C: Group>(points: Seq<Affine<C>>, input: Seq<Pt>, w: int, k: nat)
    requires
        points.len() == pow2(k),
        input.len() == pow2(k),
        forall|i: int|
            0 <= i < points.len() ==> is_affine_of(#[trigger] points[i], input[reversed(i, k)]),
    ensures
        is_layer(points, input, w, k, 0),
        is_proper::<C>(input, w, k) ==> forall|i: int|
            0 <= i < points.len() ==> (#[trigger] points[i])@ == input[reversed(i, k)] && on_curve::<
                C,
            >(points[i]@),
{
    lemma2_to64();
    if is_proper::<C>(input, w, k) {
        assert forall|i: int| 0 <= i < points.len() implies (#[trigger] points[i])@
            == input[reversed(i, k)] && on_curve::<C>(points[i]@) by {
            lemma_reversed_bound(i, k);
            assert(on_curve::<C>(input[reversed(i, k)]));
            assert(is_affine_of(points[i], input[reversed(i, k)]));
            lemma_affine_of::<C>(points[i], input[reversed(i, k)]);
        }
        assert forall|b: int, i: int| 0 <= b < pow2((k - 0) as nat) && 0 <= i < pow2(0) implies (
        #[trigger] points[b * pow2(0) + i])@ == block_output::<C>(input, w, k, 0, b, i) by {
            assert(i == 0 && b * 1 + 0 == b);
            let s = block_inputs(input, k, 0, b);
            lemma_block_inputs::<C>(input, k, 0, b);
            lemma_dft1::<C>(s, block_root(w, k, 0), 0);
            assert(0 * pow2(k) == 0);
            assert(s[0] == input[reversed(b, k)]);
            assert(points[b]@ == input[reversed(b, k)]);
        }
    }
}

/// The positions within a block in bit-reversed order.
proof fn lemma_reversed_block(b: int, j: int, k: nat, l: nat)
    requires
        l <= k,
        0 <= j < pow2(l),
        b >= 0,
    ensures
        reversed(b * pow2(l) + j, k) == reversed(b, (k - l) as nat) + reversed(j, l) * pow2(
            (k - l) as nat,
        ),
    decreases l,
{
    lemma2_to64();
    let m = (k - l) as nat;
    if l == 0 {
        assert(b * 1 + 0 == b);
        assert(0 * pow2(m) == 0);
    } else {
        let h = pow2((l - 1) as nat) as int;
        lemma_pow2_adds(1, (l - 1) as nat);
        let v = b * pow2(l) + j;
        assert(b * (2 * h) == 2 * (b * h)) by (nonlinear_arith);
        assert(v / 2 == b * h + j / 2 && v % 2 == j % 2);
        lemma_reversed_block(b, j / 2, (k - 1) as nat, (l - 1) as nat);
        assert(((k - 1) as nat - (l - 1) as nat) as nat == m);
        lemma_pow2_adds((l - 1) as nat, m);
        assert((l - 1) as nat + m == (k - 1) as nat);
        let (r, p, c) = (reversed(j / 2, (l - 1) as nat), pow2(m) as int, j % 2);
        assert(r * p + c * (h * p) == (r + c * h) * p) by (nonlinear_arith);
    }
}

/// The numbers of three bits in reversed order.
proof fn lemma_reversed8()
    ensures
        reversed(0, 3) == 0 && reversed(1, 3) == 4 && reversed(2, 3) == 2 && reversed(3, 3) == 6,
        reversed(4, 3) == 1 && reversed(5, 3) == 5 && reversed(6, 3) == 3 && reversed(7, 3) == 7,
{
    lemma2_to64();
    assert forall|v: int| #[trigger] reversed(v, 1) == v % 2 by {
        assert(reversed(v / 2, 0) == 0 && pow2(0) == 1);
        assert((v % 2) * 1 == v % 2);
    }
    assert forall|v: int| #[trigger] reversed(v, 2) == (v / 2) % 2 + (v % 2) * 2 by {
        assert(reversed(v / 2, 1) == (v / 2) % 2);
    }
    assert forall|v: int| #[trigger] reversed(v, 3) == (v / 4) % 2 + ((v / 2) % 2) * 2 + (v % 2)
        * 4 by {
        assert(reversed(v / 2, 2) == (v / 2 / 2) % 2 + ((v / 2) % 2) * 2);
    }
}

/// The numbers of four bits in reversed order.
proof fn lemma_reversed16()
    ensures
        reversed(0, 4) == 0 && reversed(1, 4) == 8 && reversed(2, 4) == 4 && reversed(3, 4) == 12,
        reversed(4, 4) == 2 && reversed(5, 4) == 10 && reversed(6, 4) == 6 && reversed(7, 4) == 14,
        reversed(8, 4) == 1 && reversed(9, 4) == 9 && reversed(10, 4) == 5 && reversed(11, 4) == 13,
        reversed(12, 4) == 3 && reversed(13, 4) == 11 && reversed(14, 4) == 7 && reversed(15, 4)
            == 15,
{
    lemma2_to64();
    lemma_reversed8();
    assert forall|v: int| #[trigger] reversed(v, 4) == reversed(v / 2, 3) + (v % 2) * 8 by {
        assert(pow2(3) == 8);
    }
}

/// The natural order of a block of eight points in bit-reversed order.
proof fn lemma_natural8<C: Group>(points: Seq<Affine<C>>, input: Seq<Pt>, k: nat, b: int)
    requires
        k >= 3,
        points.len() == pow2(k),
        0 <= b < pow2((k - 3) as nat),
        forall|i: int|
            0 <= i < points.len() ==> (#[trigger] points[i])@ == input[reversed(i, k)],
    ensures
        natural8(block_points(points, 8, b)) == block_inputs(input, k, 3, b),
{
    lemma2_to64();
    lemma_pow2_adds(3, (k - 3) as nat);
    let v = block_points(points, 8, b);
    let q = natural8(v);
    let s = block_inputs(input, k, 3, b);
    lemma_reversed8();
    assert forall|j: int| 0 <= j < 8 implies #[trigger] v[j] == s[reversed(j, 3)] && 0 <= reversed(
        j,
        3,
    ) < 8 by {
        lemma_reversed_bound(j, 3);
        lemma_reversed_block(b, j, k, 3);
        assert(b * 8 + j == 8 * b + j);
        assert(points[8 * b + j]@ == input[reversed(8 * b + j, k)]);
    }
    assert(v[0] == s[0] && v[1] == s[4] && v[2] == s[2] && v[3] == s[6] && v[4] == s[1] && v[5]
        == s[5] && v[6] == s[3] && v[7] == s[7]);
    assert(q =~= s);
}

/// The natural order of a block of sixteen points in bit-reversed order.
proof fn lemma_natural16<C: Group>(points: Seq<Affine<C>>, input: Seq<Pt>, k: nat, b: int)
    requires
        k >= 4,
        points.len() == pow2(k),
        0 <= b < pow2((k - 4) as nat),
        forall|i: int|
            0 <= i < points.len() ==> (#[trigger] points[i])@ == input[reversed(i, k)],
    ensures
        natural16(block_points(points, 16, b)) == block_inputs(input, k, 4, b),
{
    lemma2_to64();
    lemma_pow2_adds(4, (k - 4) as nat);
    let v = block_points(points, 16, b);
    let q = natural16(v);
    let s = block_inputs(input, k, 4, b);
    lemma_reversed16();
    assert forall|j: int| 0 <= j < 16 implies #[trigger] v[j] == s[reversed(j, 4)] && 0
        <= reversed(j, 4) < 16 by {
        lemma_reversed_bound(j, 4);
        lemma_reversed_block(b, j, k, 4);
        assert(b * 16 + j == 16 * b + j);
        assert(points[16 * b + j]@ == input[reversed(16 * b + j, k)]);
    }
    assert(v[0] == s[0] && v[1] == s[8] && v[2] == s[4] && v[3] == s[12] && v[4] == s[2] && v[5]
        == s[10] && v[6] == s[6] && v[7] == s[14]);
    assert(v[8] == s[1] && v[9] == s[9] && v[10] == s[5] && v[11] == s[13] && v[12] == s[3]
        && v[13] == s[11] && v[14] == s[7] && v[15] == s[15]);
    assert(q =~= s);
}

/// The root of a layer from its power.
proof fn lemma_codelet_root<C: Group>(w: int, k: nat, l: nat, r: int)
    requires
        0 < l <= k,
        r == block_root(w, k, l) % order::<C>(),
    ensures
        congruent(r, block_root(w, k, l), order::<C>()),
        is_primitive::<C>(w, k) ==> congruent(pow(r, pow2((l - 1) as nat)), -1, order::<C>()),
{
    <C::Scalar as Modulus>::lemma_modulus();
    let n = order::<C>();
    lemma_congruent_mod(block_root(w, k, l), n);
    lemma_block_root::<C>(w, k, (l - 1) as nat);
    lemma_pow_mod_noop(block_root(w, k, l), pow2((l - 1) as nat), n);
}

/// The blocks of `2^l` points after the transforms of the blocks.
proof fn lemma_codelet_layer<C: Group>(
    out: Seq<Affine<C>>,
    input: Seq<Pt>,
    w: int,
    k: nat,
    l: nat,
    r: int,
)
    requires
        l <= k,
        out.len() == pow2(k),
        congruent(r, block_root(w, k, l), order::<C>()),
        is_proper::<C>(input, w, k) ==> forall|b: int, i: int|
            0 <= b < pow2((k - l) as nat) && 0 <= i < pow2(l) ==> (#[trigger] out[pow2(l) * b
                + i])@ == dft_at::<C>(block_inputs(input, k, l, b), r, i),
    ensures
        is_layer(out, input, w, k, l),
{
    if is_proper::<C>(input, w, k) {
        assert forall|b: int, i: int| 0 <= b < pow2((k - l) as nat) && 0 <= i < pow2(l) implies (
        #[trigger] out[b * pow2(l) + i])@ == block_output::<C>(input, w, k, l, b, i) by {
            assert(b * pow2(l) == pow2(l) * b) by (nonlinear_arith);
            lemma_dft_root::<C>(block_inputs(input, k, l, b), r, block_root(w, k, l), i);
            assert(out[pow2(l) * b + i]@ == dft_at::<C>(block_inputs(input, k, l, b), r, i));
        }
    }
}

/// The first layers of the transform, with the transforms of sixteen or of eight points where
/// there are as many; the number of the layer that is reached, and whether no point of it is
/// claimed to be neutral.
fn first_layers<C: GlvParams>(
    points: &mut Vec<Affine<C>>,
    omega: Fe<C::Scalar>,
    log_n: usize,
    identity_free: bool,
    Ghost(input): Ghost<Seq<Pt>>,
) -> (r: (usize, bool))
    requires
        old(points)@.len() == pow2(log_n as nat),
        input.len() == pow2(log_n as nat),
        pow2(log_n as nat) * 8 <= usize::MAX,
        forall|i: int|
            0 <= i < old(points)@.len() ==> is_affine_of(
                #[trigger] old(points)@[i],
                input[reversed(i, log_n as nat)],
            ),
        identity_free ==> are_finite(old(points)@),
    ensures
        r.0 <= log_n,
        is_layer(final(points)@, input, omega@, log_n as nat, r.0 as nat),
        r.1 && is_proper::<C>(input, omega@, log_n as nat) ==> are_finite(final(points)@),
{
    let ghost (k, w, pts) = (log_n as nat, omega@, points@);
    let total = points.len();
    proof {
        lemma2_to64();
        lemma_first_layer::<C>(pts, input, w, k);
    }
    if log_n >= 4 {
        proof {
            lemma_pow2_adds(4, (k - 4) as nat);
        }
        let exponent = (total / 16) as u64;
        let root16 = omega.pow_vartime(exponent);
        let kept = fft16_low_multiplication_layer(points, root16, identity_free);
        proof {
            lemma_codelet_root::<C>(w, k, 4, root16@);
            if is_proper::<C>(input, w, k) {
                assert forall|b: int, i: int|
                    0 <= b < pow2((k - 4) as nat) && 0 <= i < pow2(4) implies (#[trigger] points@[pow2(
                    4,
                ) * b + i])@ == dft_at::<C>(block_inputs(input, k, 4, b), root16@, i) && (kept
                    ==> points@[pow2(4) * b + i]@ != Pt::Infinity) by {
                    lemma_natural16::<C>(pts, input, k, b);
                    let v = block_points(pts, 16, b);
                    assert forall|j: int| 0 <= j < v.len() implies on_curve::<C>(#[trigger] v[j])
                        && (identity_free ==> v[j] != Pt::Infinity) by {
                        assert(on_curve::<C>(pts[16 * b + j]@));
                    }
                    assert(is_clean::<C>(v, identity_free));
                    assert(points@[16 * b + i]@ == dft_at::<C>(natural16(v), root16@, i));
                }
                if kept {
                    assert forall|t: int| 0 <= t < points@.len() implies (#[trigger] points@[t])@
                        != Pt::Infinity by {
                        let (b, i) = (t / 16, t % 16);
                        assert(0 <= b < pow2((k - 4) as nat) && 0 <= i < pow2(4) && t == 16 * b + i);
                        assert(points@[pow2(4) * b + i]@ == dft_at::<C>(
                            block_inputs(input, k, 4, b),
                            root16@,
                            i,
                        ));
                    }
                }
            }
            lemma_codelet_layer::<C>(points@, input, w, k, 4, root16@);
        }
        (4, kept)
    } else if log_n == 3 {
        let root8 = omega.pow_vartime((total / 8) as u64);
        let kept = fft8_multiplication_minimal_layer(points, root8, identity_free);
        proof {
            lemma_codelet_root::<C>(w, k, 3, root8@);
            if is_proper::<C>(input, w, k) {
                assert forall|b: int, i: int|
                    0 <= b < pow2((k - 3) as nat) && 0 <= i < pow2(3) implies (#[trigger] points@[pow2(
                    3,
                ) * b + i])@ == dft_at::<C>(block_inputs(input, k, 3, b), root8@, i) && (kept
                    ==> points@[pow2(3) * b + i]@ != Pt::Infinity) by {
                    lemma_natural8::<C>(pts, input, k, b);
                    let v = block_points(pts, 8, b);
                    assert forall|j: int| 0 <= j < v.len() implies on_curve::<C>(#[trigger] v[j])
                        && (identity_free ==> v[j] != Pt::Infinity) by {
                        assert(on_curve::<C>(pts[8 * b + j]@));
                    }
                    assert(is_clean::<C>(v, identity_free));
                    assert(points@[8 * b + i]@ == dft_at::<C>(natural8(v), root8@, i));
                }
                if kept {
                    assert forall|t: int| 0 <= t < points@.len() implies (#[trigger] points@[t])@
                        != Pt::Infinity by {
                        let (b, i) = (t / 8, t % 8);
                        assert(0 <= b < pow2((k - 3) as nat) && 0 <= i < pow2(3) && t == 8 * b + i);
                        assert(points@[pow2(3) * b + i]@ == dft_at::<C>(
                            block_inputs(input, k, 3, b),
                            root8@,
                            i,
                        ));
                    }
                }
            }
            lemma_codelet_layer::<C>(points@, input, w, k, 3, root8@);
        }
        (3, kept)
    } else {
        (0, identity_free)
    }
}

/// Whether no point is neutral.
fn is_identity_free<C: Group>(points: &Vec<Affine<C>>) -> (r: bool)
    ensures
        r == are_finite(points@),
{
    let mut i: usize = 0;
    while i < points.len()
        invariant
            i <= points@.len(),
            forall|k: int| 0 <= k < i ==> (#[trigger] points@[k])@ != Pt::Infinity,
        decreases points@.len() - i,
    {
        if points[i].is_identity() {
            assert(points@[i as int]@ == Pt::Infinity);
            return false;
        }
        i += 1;
    }
    true
}

/// The transform of points with the root `omega`, on the given number of threads.
pub fn fft_with_threads<C: GlvParams>(
    input: &Vec<Point<C>>,
    omega: Fe<C::Scalar>,
    log_n: usize,
    num_threads: usize,
) -> (r: Vec<Affine<C>>)
    requires
        input@.len() == pow2(log_n as nat),
        input@.len() * 8 <= usize::MAX,
    ensures
        r@.len() == input@.len(),
        is_proper::<C>(point_values(input@), omega@, log_n as nat) ==> forall|i: int|
            0 <= i < r@.len() ==> (#[trigger] r@[i])@ == dft_at::<C>(
                point_values(input@),
                omega@,
                i,
            ),
{
    let ghost (k, w, values) = (log_n as nat, omega@, point_values(input@));
    let n = input.len();
    let mut points = load_reversed(input, log_n);
    let twiddles = make_twiddles::<C>(omega, n / 2);
    let mut scratch = AffineTwiddleScratch::<C>::new();
    proof {
        assert forall|i: int| 0 <= i < points@.len() implies is_affine_of(
            #[trigger] points@[i],
            values[reversed(i, k)],
        ) by {
            lemma_reversed_bound(i, k);
        }
    }
    let identity_free = is_identity_free(&points);
    let (first, mut free) = first_layers(&mut points, omega, log_n, identity_free, Ghost(values));
    let mut l: usize = first;
    let mut half: usize = 1;
    let mut stride: usize = n / 2;
    let mut i: usize = 0;
    proof {
        lemma2_to64();
        lemma_pow2_pos(k);
        if k > 0 {
            lemma_pow2_adds(1, (k - 1) as nat);
        }
    }
    while i < l
        invariant
            i <= l <= log_n,
            k == log_n,
            n == pow2(k),
            half == pow2(i as nat),
            i < k ==> stride == pow2((k - i - 1) as nat),
            i == k ==> stride == 0,
        decreases l - i,
    {
        proof {
            lemma2_to64();
            lemma_pow2_adds(1, i as nat);
            lemma_pow2_adds((i + 1) as nat, (k - i - 1) as nat);
            lemma_pow2_pos((k - i - 1) as nat);
            let (x, y) = (pow2((i + 1) as nat) as int, pow2((k - i - 1) as nat) as int);
            assert(x <= x * y) by (nonlinear_arith)
                requires
                    x >= 0,
                    y >= 1,
            ;
            if i + 1 < k {
                lemma_pow2_adds(1, (k - i - 2) as nat);
            }
        }
        half = half * 2;
        stride = stride / 2;
        i += 1;
    }
    while l < log_n
        invariant
            l <= log_n,
            k == log_n,
            w == omega@,
            n == pow2(k),
            n * 8 <= usize::MAX,
            half == pow2(l as nat),
            l < k ==> stride == pow2((k - l - 1) as nat),
            twiddles@.len() == n / 2,
            are_twiddles(twiddles@, w),
            is_layer(points@, values, w, k, l as nat),
            free && is_proper::<C>(values, w, k) ==> are_finite(points@),
        decreases log_n - l,
    {
        proof {
            lemma2_to64();
            lemma_pow2_adds(1, l as nat);
            lemma_pow2_adds((l + 1) as nat, (k - l - 1) as nat);
            lemma_pow2_adds(l as nat, (k - l - 1) as nat);
            lemma_pow2_adds(1, (k - 1) as nat);
            lemma_pow2_pos((k - l - 1) as nat);
            lemma_pow2_pos(l as nat);
            assert(half * stride == pow2((k - 1) as nat));
            assert(n == 2 * (half * stride));
            vstd::arithmetic::div_mod::lemma_mod_multiples_basic(stride as int, half as int);
            assert(stride * half == half * stride) by (nonlinear_arith);
            let (x, y) = (pow2((l + 1) as nat) as int, pow2((k - l - 1) as nat) as int);
            assert(x <= x * y) by (nonlinear_arith)
                requires
                    x >= 0,
                    y >= 1,
            ;
            if l + 1 < k {
                lemma_pow2_adds(1, (k - l - 2) as nat);
            }
        }
        let ghost before = points@;
        let chunk = 2 * half;
        let right = if num_threads > 1 && chunk >= TWIDDLE_MAJOR_MIN_CHUNK && chunk
            <= TWIDDLE_MAJOR_MAX_CHUNK {
            scale_columns(&points, &twiddles, half, stride, Ghost(w))
        } else {
            scale_pairs(&points, &twiddles, half, stride, Ghost(w))
        };
        let kept = affine_twiddle_add_sub_layer(&mut points, &right, half, &mut scratch, free);
        proof {
            lemma_next_layer::<C>(before, right@, points@, values, w, k, l as nat, free, kept);
        }
        free = kept;
        half = chunk;
        stride = stride / 2;
        l += 1;
    }
    proof {
        lemma2_to64();
        if is_proper::<C>(values, w, k) {
            assert forall|i: int| 0 <= i < points@.len() implies (#[trigger] points@[i])@
                == dft_at::<C>(values, w, i) by {
                assert(0 * pow2(k) + i == i);
                assert(points@[0 * pow2(k) + i]@ == block_output::<C>(values, w, k, k, 0, i));
                lemma_pow1(w);
                let s = block_inputs(values, k, k, 0);
                assert forall|j: int| 0 <= j < s.len() implies s[j] == values[j] by {
                    assert(j * 1 + 0 == j);
                }
                assert(s =~= values);
            }
        }
    }
    points
}

/// The transform of points with the root `omega`.
pub fn fft_vartime<C: GlvParams>(input: &Vec<Point<C>>, omega: Fe<C::Scalar>, log_n: usize) -> (r:
    Vec<Affine<C>>)
    requires
        input@.len() == pow2(log_n as nat),
        input@.len() * 8 <= usize::MAX,
    ensures
        r@.len() == input@.len(),
        is_proper::<C>(point_values(input@), omega@, log_n as nat) ==> forall|i: int|
            0 <= i < r@.len() ==> (#[trigger] r@[i])@ == dft_at::<C>(
                point_values(input@),
                omega@,
                i,
            ),
{
    fft_with_threads(input, omega, log_n, current_num_threads())
}

} // verus!

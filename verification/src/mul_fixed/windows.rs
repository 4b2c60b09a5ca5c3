//! The points that the windows of a scalar select.
use crate::curve::affine::Affine;
use crate::curve::batch::{batch_normalize, is_affine_of, lemma_affine_of};
use crate::curve::law::{
    lemma_smul_add, lemma_smul_closed, lemma_smul_neg, lemma_smul_small, on_curve, plus,
    smul, Pt,
};
use crate::curve::point::Point;
use crate::curve::Pallas;
use vstd::arithmetic::power2::{lemma2_to64, lemma_pow2_adds, pow2};
use vstd::prelude::*;

verus! {

/// The number of bits of a window.
pub const FIXED_BASE_WINDOW_SIZE: usize = 3;

/// The number of values of a window.
pub const H: usize = 8;

/// The sum of the offsets of the first windows.
pub open spec fn offset_sum(count: nat) -> int
    decreases count,
{
    if count == 0 {
        0
    } else {
        offset_sum((count - 1) as nat) + 2 * pow2(3 * (count - 1) as nat)
    }
}

/// The factor of the base in the point of a window: every window but the last is shifted by two,
/// and the last takes the shifts back.
pub open spec fn window_factor(windows: Seq<usize>, w: int) -> int {
    if w == windows.len() - 1 {
        windows[w] * pow2(3 * w as nat) - offset_sum(w as nat)
    } else {
        (windows[w] + 2) * pow2(3 * w as nat)
    }
}

/// The value of the first windows of a scalar.
pub open spec fn windows_value(windows: Seq<usize>, count: nat) -> int
    decreases count,
{
    if count == 0 {
        0
    } else {
        let w = (count - 1) as nat;
        windows_value(windows, w) + windows[w as int] * pow2(3 * w)
    }
}

/// The sum of the factors of the first windows.
pub open spec fn factor_sum(windows: Seq<usize>, count: nat) -> int
    decreases count,
{
    if count == 0 {
        0
    } else {
        let w = (count - 1) as nat;
        factor_sum(windows, w) + window_factor(windows, w as int)
    }
}

/// The factors of all windows add up to the scalar: the points of all windows add up to the
/// multiple of the base.
pub proof fn lemma_factors_add_up(windows: Seq<usize>)
    requires
        windows.len() > 0,
    ensures
        factor_sum(windows, windows.len()) == windows_value(windows, windows.len()),
{
    lemma_shifted_factors(windows, (windows.len() - 1) as nat);
}

/// The factors of the windows before the last.
proof fn lemma_shifted_factors(windows: Seq<usize>, count: nat)
    requires
        count < windows.len(),
    ensures
        factor_sum(windows, count) == windows_value(windows, count) + offset_sum(count),
    decreases count,
{
    if count > 0 {
        let w = (count - 1) as nat;
        lemma_shifted_factors(windows, w);
        let (k, p) = (windows[w as int] as int, pow2(3 * w) as int);
        assert((k + 2) * p == k * p + 2 * p) by (nonlinear_arith);
    }
}

/// A point with another point added a number of times.
pub open spec fn advanced(start: Pt, step: Pt, count: nat) -> Pt
    decreases count,
{
    if count == 0 {
        start
    } else {
        plus::<Pallas>(advanced(start, step, (count - 1) as nat), step)
    }
}

/// The point of a window: all candidates are visited, and the one of the window is kept.
pub fn select_window_point(start: Point<Pallas>, step: Point<Pallas>, window: usize) -> (r: Point<
    Pallas,
>)
    requires
        window < H,
    ensures
        r@ == advanced(start@, step@, window as nat),
{
    let mut candidate = start;
    let mut selected = start;
    let mut digit: usize = 1;
    while digit < H
        invariant
            1 <= digit <= H,
            window < H,
            candidate@ == advanced(start@, step@, (digit - 1) as nat),
            selected@ == advanced(
                start@,
                step@,
                if window < digit {
                    window as nat
                } else {
                    0
                },
            ),
        decreases H - digit,
    {
        candidate = candidate.add(step);
        if window == digit {
            selected = candidate;
        }
        digit += 1;
    }
    selected
}

/// Advancing among multiples of a base.
proof fn lemma_advanced(base: Pt, a: int, b: int, count: nat)
    requires
        on_curve::<Pallas>(base),
    ensures
        advanced(smul::<Pallas>(a, base), smul::<Pallas>(b, base), count) == smul::<Pallas>(
            a + count * b,
            base,
        ),
    decreases count,
{
    if count == 0 {
        assert(0 * b == 0);
    } else {
        let i = (count - 1) as nat;
        lemma_advanced(base, a, b, i);
        lemma_smul_add::<Pallas>(a + i * b, b, base);
        assert(count * b == i * b + b) by (nonlinear_arith)
            requires
                count == i + 1,
        ;
    }
}

/// The points that the windows of a scalar select.
pub fn compute_window_points(base: Affine<Pallas>, windows: &Vec<usize>) -> (r: Vec<Affine<Pallas>>)
    requires
        windows@.len() > 0,
        forall|w: int| 0 <= w < windows@.len() ==> #[trigger] windows@[w] < H,
    ensures
        r@.len() == windows@.len(),
        on_curve::<Pallas>(base@) ==> forall|w: int|
            0 <= w < windows@.len() ==> (#[trigger] r@[w])@ == smul::<Pallas>(
                window_factor(windows@, w),
                base@,
            ),
{
    let ghost b = base@;
    let ghost lawful = on_curve::<Pallas>(b);
    let last = windows.len() - 1;
    let mut window_base = Point::from_affine(base);
    let mut offset_acc = Point::<Pallas>::identity();
    let mut points: Vec<Point<Pallas>> = Vec::new();
    let mut w: usize = 0;
    proof {
        lemma2_to64();
        if lawful {
            lemma_smul_small::<Pallas>(b);
        }
    }
    while w < last
        invariant
            w <= last,
            last == windows@.len() - 1,
            lawful == on_curve::<Pallas>(b),
            forall|k: int| 0 <= k < windows@.len() ==> #[trigger] windows@[k] < H,
            lawful ==> window_base@ == smul::<Pallas>(pow2(3 * w as nat) as int, b),
            lawful ==> offset_acc@ == smul::<Pallas>(offset_sum(w as nat), b),
            points@.len() == w,
            lawful ==> forall|k: int|
                0 <= k < w ==> (#[trigger] points@[k])@ == smul::<Pallas>(
                    window_factor(windows@, k),
                    b,
                ),
        decreases last - w,
    {
        let ghost x = pow2(3 * w as nat) as int;
        assert(windows@[w as int] < H);
        let offset = window_base.double();
        proof {
            if lawful {
                lemma_smul_add::<Pallas>(x, x, b);
                lemma_advanced(b, 2 * x, x, windows@[w as int] as nat);
                let k = windows@[w as int] as int;
                assert(2 * x + k * x == (k + 2) * x) by (nonlinear_arith);
                lemma_smul_add::<Pallas>(offset_sum(w as nat), 2 * x, b);
            }
        }
        points.push(select_window_point(offset, window_base, windows[w]));
        offset_acc = offset_acc.add(offset);
        window_base = window_base.double();
        window_base = window_base.double();
        window_base = window_base.double();
        proof {
            if lawful {
                lemma_smul_add::<Pallas>(2 * x, 2 * x, b);
                lemma_smul_add::<Pallas>(4 * x, 4 * x, b);
            }
            lemma2_to64();
            lemma_pow2_adds(3 * w as nat, 3);
            assert(3 * w as nat + 3 == 3 * (w + 1) as nat);
        }
        w += 1;
    }
    assert(windows@[last as int] < H);
    proof {
        if lawful {
            let x = pow2(3 * last as nat) as int;
            let k = windows@[last as int] as int;
            lemma_smul_neg::<Pallas>(offset_sum(last as nat), b);
            lemma_advanced(b, -offset_sum(last as nat), x, k as nat);
            assert(k * x - offset_sum(last as nat) == -offset_sum(last as nat) + k * x);
        }
    }
    points.push(select_window_point(offset_acc.neg(), window_base, windows[last]));
    let r = batch_normalize(&points);
    proof {
        if lawful {
            assert forall|k: int| 0 <= k < windows@.len() implies (#[trigger] r@[k])@ == smul::<
                Pallas,
            >(window_factor(windows@, k), b) by {
                assert(points@[k]@ == smul::<Pallas>(window_factor(windows@, k), b));
                lemma_smul_closed::<Pallas>(window_factor(windows@, k), b);
                assert(is_affine_of(r@[k], points@[k]@));
                lemma_affine_of::<Pallas>(r@[k], points@[k]@);
            }
        }
    }
    r
}

} // verus!

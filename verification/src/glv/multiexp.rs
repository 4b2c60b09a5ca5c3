//! Sums of many multiples, with signed windows and buckets.
use crate::curve::affine::Affine;
use crate::curve::combination::{
    all_on_curve, combination, lemma_combination_add, lemma_combination_closed,
    lemma_combination_scale, lemma_combination_zero, scale_coeffs, sum_coeffs,
};
use crate::curve::law::{
    ec_add, endo, lemma_associative, lemma_closed, lemma_commutative, lemma_endo,
    lemma_exchange, lemma_inverse_point, lemma_smul_add, lemma_smul_closed, lemma_smul_congruent,
    lemma_smul_infinity, lemma_smul_mul, lemma_smul_small, on_curve, order, plus, smul, Pt,
};
use crate::curve::point::Point;
use crate::curve::Group;
use crate::field::congruence::congruent;
use crate::field::{Fe, Modulus};
use crate::glv::decompose::{decompose, signed};
use crate::glv::params::{two127, GlvParams};
use vstd::arithmetic::div_mod::{lemma_div_denominator, lemma_fundamental_div_mod, lemma_mod_bound};
use vstd::arithmetic::power2::{
    lemma2_to64, lemma_pow2_adds, lemma_pow2_pos, lemma_pow2_strictly_increases, pow2,
};
use vstd::prelude::*;

verus! {

/// Sums with fewer terms do not use the endomorphism.
pub const MIN_GLV_MULTIEXP_TERMS: usize = 256;

/// The number of bits of a half of a scalar.
pub const GLV_COMPONENT_BITS: usize = 127;

/// The number of bits of the representation of a scalar.
pub const SCALAR_REPR_BITS: usize = 256;

/// The number of windows.
pub open spec fn window_count(bits: int, window_bits: int) -> int {
    bits / window_bits + 1
}

/// The estimated work: one unit per term and window, two per bucket and window, and one per
/// doubling.
pub open spec fn booth_work(terms: int, bits: int, window_bits: int) -> int {
    let windows = window_count(bits, window_bits);
    terms * windows + 2 * (pow2((window_bits - 1) as nat) * windows) + window_bits * (windows - 1)
}

/// Two to the power of `shift`, if it is at most the largest integer.
fn power_of_two(shift: usize) -> (r: Option<usize>)
    ensures
        r is None <==> pow2(shift as nat) > usize::MAX,
        r matches Some(v) ==> v == pow2(shift as nat),
{
    let mut r: usize = 1;
    let mut i: usize = 0;
    proof {
        lemma2_to64();
    }
    while i < shift
        invariant
            i <= shift,
            r == pow2(i as nat),
        decreases shift - i,
    {
        proof {
            lemma_pow2_adds(1, i as nat);
            lemma2_to64();
            if i + 1 < shift {
                lemma_pow2_strictly_increases((i + 1) as nat, shift as nat);
            }
        }
        if r > usize::MAX / 2 {
            return None;
        }
        r = r * 2;
        i += 1;
    }
    Some(r)
}

/// The estimated work of a sum, if it is at most the largest integer.
pub fn estimated_signed_booth_work(terms: usize, scalar_bits: usize, window_bits: usize) -> (r:
    Option<usize>)
    ensures
        r is None <==> window_bits == 0 || booth_work(
            terms as int,
            scalar_bits as int,
            window_bits as int,
        ) > usize::MAX,
        r matches Some(v) ==> v == booth_work(
            terms as int,
            scalar_bits as int,
            window_bits as int,
        ),
{
    if window_bits == 0 {
        return None;
    }
    let quotient = scalar_bits / window_bits;
    let ghost windows = quotient + 1;
    let ghost (b, t, w) = (pow2((window_bits - 1) as nat) as int, terms as int, window_bits as int);
    proof {
        lemma_pow2_pos((window_bits - 1) as nat);
        assert(t * windows >= 0 && b * windows >= windows && b * windows >= b && w * (windows - 1)
            >= 0) by (nonlinear_arith)
            requires
                t >= 0,
                windows >= 1,
                b >= 1,
                w >= 1,
        ;
    }
    let buckets = match power_of_two(window_bits - 1) {
        Some(buckets) => buckets,
        None => {
            return None;
        },
    };
    if quotient == usize::MAX {
        return None;
    }
    let windows = quotient + 1;
    let point_visits = match terms.checked_mul(windows) {
        Some(v) => v,
        None => {
            return None;
        },
    };
    let half_additions = match buckets.checked_mul(windows) {
        Some(v) => v,
        None => {
            return None;
        },
    };
    let bucket_additions = match half_additions.checked_mul(2) {
        Some(v) => v,
        None => {
            return None;
        },
    };
    let doublings = match window_bits.checked_mul(windows - 1) {
        Some(v) => v,
        None => {
            return None;
        },
    };
    match point_visits.checked_add(bucket_additions) {
        Some(v) => v.checked_add(doublings),
        None => None,
    }
}

/// The largest numbers of terms for windows of 4 bits and more: the integer parts of the powers
/// of the base of the natural logarithm.
pub open spec fn thresholds() -> Seq<int> {
    seq![
        54,
        148,
        403,
        1_096,
        2_980,
        8_103,
        22_026,
        59_874,
        162_754,
        442_413,
        1_202_604,
        3_269_017,
        8_886_110,
        24_154_952,
        65_659_969,
        178_482_300,
        485_165_195,
        1_318_815_734,
        3_584_912_846,
    ]
}

/// The number of thresholds that are exceeded.
pub open spec fn exceeded(terms: int, count: int) -> int
    decreases count,
{
    if count <= 0 {
        0
    } else {
        exceeded(terms, count - 1) + if terms > thresholds()[count - 1] {
            1int
        } else {
            0
        }
    }
}

/// The width of the windows for a number of terms.
pub open spec fn default_window(terms: int) -> Option<int> {
    if terms < 4 {
        Some(1)
    } else if terms < 32 {
        Some(3)
    } else if terms > u32::MAX {
        None
    } else {
        Some(4 + exceeded(terms, 19))
    }
}

/// The width of the windows for a number of terms, without an estimate of the work.
pub fn default_multiexp_window_bits(terms: usize) -> (r: Option<usize>)
    ensures
        r is None <==> default_window(terms as int) is None,
        r matches Some(v) ==> default_window(terms as int) == Some(v as int) && 1 <= v <= 23,
{
    if terms < 4 {
        return Some(1);
    }
    if terms < 32 {
        return Some(3);
    }
    if terms as u64 > 0xffff_ffff {
        return None;
    }
    let table: [u64; 19] = [
        54,
        148,
        403,
        1_096,
        2_980,
        8_103,
        22_026,
        59_874,
        162_754,
        442_413,
        1_202_604,
        3_269_017,
        8_886_110,
        24_154_952,
        65_659_969,
        178_482_300,
        485_165_195,
        1_318_815_734,
        3_584_912_846,
    ];
    let mut count: usize = 0;
    let mut i: usize = 0;
    while i < 19
        invariant
            i <= 19,
            count <= i,
            count == exceeded(terms as int, i as int),
            forall|k: int| 0 <= k < 19 ==> #[trigger] table@[k] as int == thresholds()[k],
        decreases 19 - i,
    {
        assert(table@[i as int] as int == thresholds()[i as int]);
        if terms as u64 > table[i] {
            count += 1;
        }
        i += 1;
    }
    Some(4 + count)
}

/// The width of the windows: nine bits are widened to ten where that is estimated to be less
/// work on a single thread.
pub open spec fn chosen_window(terms: int, num_threads: int) -> Option<int> {
    match default_window(terms) {
        None => None,
        Some(w) => if num_threads != 1 || w != 9 {
            Some(w)
        } else if booth_work(terms, SCALAR_REPR_BITS as int, 9) <= usize::MAX && booth_work(
            terms,
            SCALAR_REPR_BITS as int,
            10,
        ) < booth_work(terms, SCALAR_REPR_BITS as int, 9) {
            Some(10)
        } else {
            Some(9)
        },
    }
}

/// The width of the windows.
pub fn multiexp_window_bits(terms: usize, num_threads: usize) -> (r: Option<usize>)
    ensures
        r is None <==> chosen_window(terms as int, num_threads as int) is None,
        r matches Some(v) ==> chosen_window(terms as int, num_threads as int) == Some(v as int) && 1
            <= v <= 23,
{
    let window_bits = match default_multiexp_window_bits(terms) {
        Some(window_bits) => window_bits,
        None => {
            return None;
        },
    };
    if num_threads != 1 || window_bits != 9 {
        return Some(window_bits);
    }
    let current = estimated_signed_booth_work(terms, SCALAR_REPR_BITS, 9);
    let next = estimated_signed_booth_work(terms, SCALAR_REPR_BITS, 10);
    match (current, next) {
        (Some(current), Some(next)) => if next < current {
            Some(10)
        } else {
            Some(9)
        },
        _ => Some(9),
    }
}

/// The endomorphism is used for large sums where it is estimated to be less work.
pub open spec fn is_glv_better(terms: int, window_bits: int) -> bool {
    &&& terms >= MIN_GLV_MULTIEXP_TERMS
    &&& 2 * terms <= usize::MAX
    &&& window_bits > 0
    &&& booth_work(terms, SCALAR_REPR_BITS as int, window_bits) <= usize::MAX
    &&& booth_work(2 * terms, GLV_COMPONENT_BITS as int, window_bits) < booth_work(
        terms,
        SCALAR_REPR_BITS as int,
        window_bits,
    )
}

/// Whether the endomorphism is used.
pub fn should_use_glv_multiexp(terms: usize, window_bits: usize) -> (r: bool)
    ensures
        r == is_glv_better(terms as int, window_bits as int),
{
    if terms < MIN_GLV_MULTIEXP_TERMS || terms > usize::MAX / 2 {
        return false;
    }
    match (
        estimated_signed_booth_work(terms, SCALAR_REPR_BITS, window_bits),
        estimated_signed_booth_work(2 * terms, GLV_COMPONENT_BITS, window_bits),
    ) {
        (Some(generic), Some(glv)) => glv < generic,
        _ => false,
    }
}

/// A sign and a magnitude.
#[derive(Clone, Copy, Debug, PartialEq, Eq, Structural)]
pub struct SignedMagnitude {
    /// Whether the number is negative.
    pub negative: bool,
    /// The magnitude.
    pub magnitude: u128,
}

impl SignedMagnitude {
    /// The number.
    pub open spec fn value(self) -> int {
        signed((self.negative, self.magnitude))
    }
}

impl From<(bool, u128)> for SignedMagnitude {
    fn from(half: (bool, u128)) -> (r: Self) {
        SignedMagnitude { negative: half.0, magnitude: half.1 }
    }
}

impl vstd::std_specs::convert::FromSpecImpl<(bool, u128)> for SignedMagnitude {
    open spec fn obeys_from_spec() -> bool {
        true
    }

    open spec fn from_spec(half: (bool, u128)) -> Self {
        SignedMagnitude { negative: half.0, magnitude: half.1 }
    }
}

/// The halves of a scalar, if their magnitudes are below two to the 127.
pub fn checked_signed_magnitudes(halves: ((bool, u128), (bool, u128))) -> (r: Option<
    (SignedMagnitude, SignedMagnitude),
>)
    ensures
        r is Some <==> halves.0.1 < two127() && halves.1.1 < two127(),
        r matches Some(v) ==> v.0.value() == signed(halves.0) && v.1.value() == signed(halves.1)
            && v.0.magnitude == halves.0.1 && v.1.magnitude == halves.1.1,
{
    let bound: u128 = 0x8000_0000_0000_0000_0000_0000_0000_0000;
    if halves.0.1 < bound && halves.1.1 < bound {
        Some((SignedMagnitude::from(halves.0), SignedMagnitude::from(halves.1)))
    } else {
        None
    }
}

/// A signed digit.
#[derive(Clone, Copy, Debug, PartialEq, Eq, Structural)]
pub struct BoothDigit {
    /// The magnitude.
    pub magnitude: usize,
    /// Whether the digit is negative.
    pub negative: bool,
}

impl BoothDigit {
    /// The digit as an integer.
    pub open spec fn value(self) -> int {
        if self.negative {
            -(self.magnitude as int)
        } else {
            self.magnitude as int
        }
    }
}

/// The magnitude over two to the power of `shift`, rounded to the nearest integer.
pub open spec fn rounded(magnitude: int, shift: int) -> int {
    if shift == 0 {
        magnitude
    } else {
        (magnitude / pow2((shift - 1) as nat) as int + 1) / 2
    }
}

/// Rounding is to the nearest integer, and halves are rounded up.
pub proof fn lemma_rounded(magnitude: int, shift: int)
    requires
        0 <= magnitude,
        0 <= shift,
    ensures
        -pow2(shift as nat) < 2 * (rounded(magnitude, shift) * pow2(shift as nat) - magnitude)
            <= pow2(shift as nat),
{
    lemma2_to64();
    if shift == 0 {
        assert(magnitude * 1 == magnitude);
    } else {
        let h = pow2((shift - 1) as nat) as int;
        lemma_pow2_pos((shift - 1) as nat);
        lemma_pow2_adds((shift - 1) as nat, 1);
        let (q, r) = (magnitude / h, magnitude % h);
        lemma_fundamental_div_mod(magnitude, h);
        lemma_mod_bound(magnitude, h);
        let (a, b) = ((q + 1) / 2, (q + 1) % 2);
        assert(a * (2 * h) - magnitude == h - b * h - r) by (nonlinear_arith)
            requires
                magnitude == h * q + r,
                q + 1 == 2 * a + b,
        ;
        assert(b * h == if b == 0 {
            0
        } else {
            h
        }) by (nonlinear_arith)
            requires
                b == 0 || b == 1,
        ;
    }
}

/// The number over two to the power of `shift`, with the magnitude rounded.
pub open spec fn rounded_value(c: SignedMagnitude, shift: int) -> int {
    if c.negative {
        -rounded(c.magnitude as int, shift)
    } else {
        rounded(c.magnitude as int, shift)
    }
}

/// A window and the bit below it are the difference of two rounded quotients.
proof fn lemma_booth(m: int, shift: int, window_bits: int, v: int, overlap: int, top: int)
    requires
        m >= 0,
        shift >= 0,
        window_bits >= 1,
        v == (m / pow2(shift as nat) as int) % pow2(window_bits as nat) as int,
        overlap == if shift == 0 {
            0
        } else {
            (m / pow2((shift - 1) as nat) as int) % 2
        },
        top == if v < pow2((window_bits - 1) as nat) {
            0int
        } else {
            1
        },
    ensures
        v + overlap - top * pow2(window_bits as nat) == rounded(m, shift) - pow2(
            window_bits as nat,
        ) * rounded(m, shift + window_bits),
        0 <= v < pow2(window_bits as nat),
        pow2(window_bits as nat) == 2 * pow2((window_bits - 1) as nat),
{
    lemma2_to64();
    let (a, r, h) = (
        pow2(shift as nat) as int,
        pow2(window_bits as nat) as int,
        pow2((window_bits - 1) as nat) as int,
    );
    lemma_pow2_pos(shift as nat);
    lemma_pow2_pos((window_bits - 1) as nat);
    lemma_pow2_adds(1, (window_bits - 1) as nat);
    lemma_pow2_adds(shift as nat, (window_bits - 1) as nat);
    assert((shift + window_bits - 1) as nat == shift as nat + (window_bits - 1) as nat);
    let q = m / a;
    let c = q / r;
    lemma_fundamental_div_mod(q, r);
    lemma_mod_bound(q, r);
    // The bit below the next window is the highest of this one.
    lemma_div_denominator(m, a, h);
    let n = q / h;
    assert(q == h * (2 * c) + v) by (nonlinear_arith)
        requires
            q == r * c + v,
            r == 2 * h,
    ;
    let (n0, s) = (2 * c + top, v - top * h);
    assert(q == n0 * h + s) by (nonlinear_arith)
        requires
            q == h * (2 * c) + v,
            n0 == 2 * c + top,
            s == v - top * h,
    ;
    vstd::arithmetic::div_mod::lemma_fundamental_div_mod_converse(q, h, n0, s);
    assert((n0 + 1) / 2 == c + top);
    assert(rounded(m, shift + window_bits) == c + top);
    assert(rounded(m, shift) == q + overlap) by {
        if shift > 0 {
            let b = pow2((shift - 1) as nat) as int;
            lemma_pow2_pos((shift - 1) as nat);
            lemma_pow2_adds(1, (shift - 1) as nat);
            lemma_div_denominator(m, b, 2);
            assert(b * 2 == a);
            let d = m / b;
            assert((d + 1) / 2 == d / 2 + d % 2);
        } else {
            assert(a == 1);
            assert(m / 1 == m);
        }
    }
    assert(r * (c + top) == r * c + top * r) by (nonlinear_arith);
}

/// One signed digit of a number.
pub fn booth_digit(component: SignedMagnitude, window_bits: usize, window: usize) -> (r: BoothDigit)
    requires
        1 <= window_bits < usize::BITS,
        window * window_bits <= 128,
    ensures
        r.value() == rounded_value(component, window * window_bits) - pow2(window_bits as nat)
            * rounded_value(component, (window + 1) * window_bits),
        r.magnitude <= pow2((window_bits - 1) as nat),
        r.magnitude == 0 ==> !r.negative,
{
    let window_start = window * window_bits;
    let ghost (m, s, b) = (component.magnitude as int, window_start as int, window_bits as int);
    let radix = match power_of_two(window_bits) {
        Some(radix) => radix,
        None => {
            proof {
                lemma_usize_pow2(window_bits as nat);
            }
            return BoothDigit { magnitude: 0, negative: false };
        },
    };
    let shifted: u128 = if window_start < 128 {
        component.magnitude >> (window_start as u128)
    } else {
        0
    };
    let below: u128 = if window_start == 0 {
        0
    } else {
        (component.magnitude >> ((window_start - 1) as u128)) % 2
    };
    proof {
        lemma_pow2_pos(window_bits as nat);
        if window_start < 128 {
            vstd::bits::lemma_u128_shr_is_div(component.magnitude, window_start as u128);
        } else {
            lemma2_to64();
            lemma_pow2_adds(64, 64);
            assert(pow2(128) == 0x1_0000_0000_0000_0000_0000_0000_0000_0000int);
            vstd::arithmetic::div_mod::lemma_basic_div(m, pow2(128) as int);
        }
        if window_start > 0 {
            vstd::bits::lemma_u128_shr_is_div(component.magnitude, (window_start - 1) as u128);
        }
        assert(shifted == m / pow2(s as nat) as int);
    }
    let value = (shifted % (radix as u128)) as usize;
    let overlap = below as usize;
    let ghost top = if value < pow2((window_bits - 1) as nat) {
        0int
    } else {
        1
    };
    proof {
        lemma_booth(m, s, b, value as int, overlap as int, top);
        assert((window + 1) * window_bits == s + b) by (nonlinear_arith)
            requires
                s == window * window_bits,
                b == window_bits,
        ;
        let (x, y) = (rounded(m, s), rounded(m, s + b));
        let r = pow2(window_bits as nat) as int;
        assert(r * (-y) == -(r * y)) by (nonlinear_arith);
        assert(top * r == if top == 0 {
            0
        } else {
            r
        });
    }
    if value < radix / 2 {
        let magnitude = value + overlap;
        BoothDigit { magnitude, negative: magnitude != 0 && component.negative }
    } else {
        let magnitude = radix - value - overlap;
        BoothDigit { magnitude, negative: magnitude != 0 && !component.negative }
    }
}

/// Powers of two below the width of an integer are integers.
proof fn lemma_usize_pow2(k: nat)
    requires
        k < usize::BITS,
    ensures
        pow2(k) <= usize::MAX,
{
    vstd::bits::lemma_usize_pow2_no_overflow(k);
}

/// The sum of some points, kept affine while it is a single point.
pub enum MultiexpBucket<C: Group> {
    /// No point.
    Empty,
    /// One point.
    Affine(Affine<C>),
    /// A sum of points.
    Projective(Point<C>),
}

impl<C: Group> MultiexpBucket<C> {
    /// The sum.
    pub open spec fn sum(self) -> Pt {
        match self {
            MultiexpBucket::Empty => Pt::Infinity,
            MultiexpBucket::Affine(a) => a@,
            MultiexpBucket::Projective(p) => p@,
        }
    }

    /// Adds a point.
    pub fn add_assign(&mut self, point: Affine<C>)
        ensures
            final(self).sum() == plus::<C>(old(self).sum(), point@),
    {
        proof {
            reveal(ec_add);
        }
        let next = match self {
            MultiexpBucket::Empty => MultiexpBucket::Affine(point),
            MultiexpBucket::Affine(current) => MultiexpBucket::Projective(
                Point::from_affine(*current).add_affine(point),
            ),
            MultiexpBucket::Projective(current) => MultiexpBucket::Projective(
                current.add_affine(point),
            ),
        };
        *self = next;
    }

    /// The sum of another point and this sum.
    pub fn add(&self, other: Point<C>) -> (r: Point<C>)
        ensures
            self.sum() == Pt::Infinity || r@ == plus::<C>(other@, self.sum()),
            self.sum() == Pt::Infinity ==> r@ == other@,
    {
        proof {
            reveal(ec_add);
        }
        match self {
            MultiexpBucket::Empty => other,
            MultiexpBucket::Affine(point) => other.add_affine(*point),
            MultiexpBucket::Projective(point) => other.add(*point),
        }
    }
}

/// The sums of the buckets.
pub open spec fn bucket_sums<C: Group>(buckets: Seq<MultiexpBucket<C>>) -> Seq<Pt> {
    Seq::new(buckets.len(), |i: int| buckets[i].sum())
}

/// The sum of the points from position `i` on.
spec fn running<C: Group>(points: Seq<Pt>, i: int) -> Pt
    decreases points.len() - i,
{
    if i >= points.len() {
        Pt::Infinity
    } else {
        plus::<C>(running::<C>(points, i + 1), points[i])
    }
}

/// The sum of the points from position `i` on, each multiplied with its distance from `i - 1`.
spec fn weighted<C: Group>(points: Seq<Pt>, i: int) -> Pt
    decreases points.len() - i,
{
    if i >= points.len() {
        Pt::Infinity
    } else {
        plus::<C>(weighted::<C>(points, i + 1), running::<C>(points, i))
    }
}

proof fn lemma_running_closed<C: Group>(points: Seq<Pt>, i: int)
    requires
        all_on_curve::<C>(points),
        0 <= i,
    ensures
        on_curve::<C>(running::<C>(points, i)),
        on_curve::<C>(weighted::<C>(points, i)),
    decreases points.len() - i,
{
    if i < points.len() {
        lemma_running_closed::<C>(points, i + 1);
        lemma_closed::<C>(running::<C>(points, i + 1), points[i]);
        lemma_closed::<C>(weighted::<C>(points, i + 1), running::<C>(points, i));
    }
}

/// Adding to one bucket adds a multiple to the weighted sum.
proof fn lemma_weighted_update<C: Group>(points: Seq<Pt>, j: int, q: Pt, i: int)
    requires
        all_on_curve::<C>(points),
        on_curve::<C>(q),
        0 <= j < points.len(),
        0 <= i,
    ensures
        all_on_curve::<C>(points.update(j, plus::<C>(points[j], q))),
        running::<C>(points.update(j, plus::<C>(points[j], q)), i) == if i <= j {
            plus::<C>(running::<C>(points, i), q)
        } else {
            running::<C>(points, i)
        },
        weighted::<C>(points.update(j, plus::<C>(points[j], q)), i) == if i <= j {
            plus::<C>(weighted::<C>(points, i), smul::<C>(j - i + 1, q))
        } else {
            weighted::<C>(points, i)
        },
    decreases points.len() - i,
{
    let new = points.update(j, plus::<C>(points[j], q));
    lemma_closed::<C>(points[j], q);
    assert(all_on_curve::<C>(new)) by {
        assert forall|k: int| 0 <= k < new.len() implies on_curve::<C>(#[trigger] new[k]) by {
            if k != j {
                assert(on_curve::<C>(points[k]));
            }
        }
    }
    if i < points.len() {
        lemma_weighted_update::<C>(points, j, q, i + 1);
        lemma_running_closed::<C>(points, i + 1);
        lemma_running_closed::<C>(points, i);
        let (r, w) = (running::<C>(points, i + 1), weighted::<C>(points, i + 1));
        if i < j {
            // (r + q) + b == (r + b) + q
            lemma_associative::<C>(r, q, points[i]);
            lemma_commutative::<C>(q, points[i]);
            lemma_associative::<C>(r, points[i], q);
            let s = smul::<C>(j - i, q);
            lemma_smul_closed::<C>(j - i, q);
            lemma_exchange::<C>(w, s, running::<C>(points, i), q);
            lemma_smul_small::<C>(q);
            lemma_smul_add::<C>(j - i, 1, q);
        } else if i == j {
            lemma_associative::<C>(r, points[i], q);
            lemma_associative::<C>(w, running::<C>(points, i), q);
            lemma_smul_small::<C>(q);
        }
    }
}

/// Empty buckets have the sum zero.
proof fn lemma_weighted_empty<C: Group>(points: Seq<Pt>, i: int)
    requires
        forall|k: int| 0 <= k < points.len() ==> #[trigger] points[k] == Pt::Infinity,
        0 <= i,
    ensures
        running::<C>(points, i) == Pt::Infinity,
        weighted::<C>(points, i) == Pt::Infinity,
    decreases points.len() - i,
{
    reveal(ec_add);
    if i < points.len() {
        lemma_weighted_empty::<C>(points, i + 1);
    }
}

/// Adds a digit's multiple of a point to the buckets.
fn add_digit<C: Group>(buckets: &mut Vec<MultiexpBucket<C>>, digit: BoothDigit, base: Affine<C>)
    requires
        digit.magnitude <= old(buckets)@.len(),
    ensures
        final(buckets)@.len() == old(buckets)@.len(),
        on_curve::<C>(base@) && all_on_curve::<C>(bucket_sums(old(buckets)@))
            ==> all_on_curve::<C>(bucket_sums(final(buckets)@)) && weighted::<C>(
            bucket_sums(final(buckets)@),
            0,
        ) == plus::<C>(
            weighted::<C>(bucket_sums(old(buckets)@), 0),
            smul::<C>(digit.value(), base@),
        ),
{
    proof {
        reveal(ec_add);
    }
    let ghost before = bucket_sums(buckets@);
    if digit.magnitude != 0 {
        let signed_base = if digit.negative { base.neg() } else { base };
        let j = digit.magnitude - 1;
        buckets[j].add_assign(signed_base);
        proof {
            let q = signed_base@;
            if on_curve::<C>(base@) && all_on_curve::<C>(before) {
                lemma_inverse_point::<C>(base@);
                lemma_weighted_update::<C>(before, j as int, q, 0);
                assert(bucket_sums(buckets@) =~= before.update(j as int, plus::<C>(
                    before[j as int],
                    q,
                )));
                if digit.negative {
                    lemma_smul_small::<C>(base@);
                    lemma_smul_mul::<C>(digit.magnitude as int, -1, base@);
                    assert(digit.magnitude * (-1) == digit.value());
                }
            }
        }
    } else {
        proof {
            if on_curve::<C>(base@) && all_on_curve::<C>(before) {
                lemma_smul_small::<C>(base@);
                lemma_running_closed::<C>(before, 0);
                let w = weighted::<C>(before, 0);
                assert(plus::<C>(w, Pt::Infinity) == w);
            }
        }
    }
}

/// The weighted sum of the buckets, by parts.
fn sum_buckets<C: Group>(buckets: &Vec<MultiexpBucket<C>>) -> (r: Point<C>)
    ensures
        r@ == weighted::<C>(bucket_sums(buckets@), 0),
{
    let ghost sums = bucket_sums(buckets@);
    let mut run = Point::<C>::identity();
    let mut sum = Point::<C>::identity();
    let mut i: usize = buckets.len();
    while i > 0
        invariant
            i <= buckets@.len(),
            sums == bucket_sums(buckets@),
            run@ == running::<C>(sums, i as int),
            sum@ == weighted::<C>(sums, i as int),
        decreases i,
    {
        i -= 1;
        run = buckets[i].add(run);
        proof {
            reveal(ec_add);
            let a = running::<C>(sums, i + 1);
            assert(plus::<C>(a, Pt::Infinity) == a);
        }
        sum = sum.add(run);
    }
    sum
}

/// The halves in the order of the points.
pub open spec fn half_coeffs(
    components: Seq<(SignedMagnitude, SignedMagnitude)>,
    shift: int,
) -> Seq<int> {
    Seq::new(
        2 * components.len(),
        |i: int|
            if i % 2 == 0 {
                rounded_value(components[i / 2].0, shift)
            } else {
                rounded_value(components[i / 2].1, shift)
            },
    )
}

/// The points and their images, alternately.
pub open spec fn half_points<C: Group>(bases: Seq<Affine<C>>, endo_bases: Seq<Affine<C>>) -> Seq<
    Pt,
> {
    Seq::new(
        2 * bases.len(),
        |i: int|
            if i % 2 == 0 {
                bases[i / 2]@
            } else {
                endo_bases[i / 2]@
            },
    )
}

/// The signed digits of one window.
spec fn window_coeffs(
    components: Seq<(SignedMagnitude, SignedMagnitude)>,
    window: int,
    window_bits: int,
) -> Seq<int> {
    sum_coeffs(
        half_coeffs(components, window * window_bits),
        scale_coeffs(
            -(pow2(window_bits as nat) as int),
            half_coeffs(components, (window + 1) * window_bits),
        ),
    )
}

/// A window's digits and the higher windows, shifted, make up the number from this window on.
proof fn lemma_window_coeffs(
    components: Seq<(SignedMagnitude, SignedMagnitude)>,
    window: int,
    window_bits: int,
)
    ensures
        sum_coeffs(
            scale_coeffs(
                pow2(window_bits as nat) as int,
                half_coeffs(components, (window + 1) * window_bits),
            ),
            window_coeffs(components, window, window_bits),
        ) == half_coeffs(components, window * window_bits),
{
    let r = pow2(window_bits as nat) as int;
    let (a, b) = (
        half_coeffs(components, window * window_bits),
        half_coeffs(components, (window + 1) * window_bits),
    );
    let c = sum_coeffs(scale_coeffs(r, b), window_coeffs(components, window, window_bits));
    assert forall|i: int| 0 <= i < c.len() implies c[i] == a[i] by {
        let x = b[i];
        assert((-r) * x == -(r * x)) by (nonlinear_arith);
    }
    assert(c =~= a);
}

/// One more term of a combination.
proof fn lemma_combination_take<C: Group>(coeffs: Seq<int>, points: Seq<Pt>, i: int)
    requires
        0 <= i < coeffs.len(),
    ensures
        combination::<C>(coeffs.take(i + 1), points) == plus::<C>(
            combination::<C>(coeffs.take(i), points),
            smul::<C>(coeffs[i], points[i]),
        ),
{
    assert(coeffs.take(i + 1).drop_last() =~= coeffs.take(i));
}

/// Collects the digits of one window of all numbers, and sums them up.
fn window_sum<C: Group>(
    components: &Vec<(SignedMagnitude, SignedMagnitude)>,
    bases: &Vec<Affine<C>>,
    endo_bases: &Vec<Affine<C>>,
    window_bits: usize,
    window: usize,
    bucket_count: usize,
) -> (r: Point<C>)
    requires
        components@.len() == bases@.len(),
        components@.len() == endo_bases@.len(),
        1 <= window_bits < usize::BITS,
        window * window_bits <= 128,
        bucket_count == pow2((window_bits - 1) as nat),
    ensures
        all_on_curve::<C>(half_points(bases@, endo_bases@)) ==> r@
            == combination::<C>(
            window_coeffs(components@, window as int, window_bits as int),
            half_points(bases@, endo_bases@),
        ),
{
    let ghost points = half_points(bases@, endo_bases@);
    let ghost coeffs = window_coeffs(components@, window as int, window_bits as int);
    let ghost lawful = all_on_curve::<C>(points);
    let n = components.len();
    let mut buckets: Vec<MultiexpBucket<C>> = Vec::new();
    let mut i: usize = 0;
    while i < bucket_count
        invariant
            i <= bucket_count,
            buckets@.len() == i,
            forall|k: int| 0 <= k < i ==> (#[trigger] buckets@[k]).sum() == Pt::Infinity,
        decreases bucket_count - i,
    {
        buckets.push(MultiexpBucket::Empty);
        i += 1;
    }
    proof {
        lemma_weighted_empty::<C>(bucket_sums(buckets@), 0);
        assert(coeffs.take(0) =~= Seq::empty());
    }
    let mut t: usize = 0;
    while t < n
        invariant
            t <= n,
            n == components@.len(),
            n == bases@.len(),
            n == endo_bases@.len(),
            1 <= window_bits < usize::BITS,
            window * window_bits <= 128,
            buckets@.len() == pow2((window_bits - 1) as nat),
            points == half_points(bases@, endo_bases@),
            coeffs == window_coeffs(components@, window as int, window_bits as int),
            lawful == (all_on_curve::<C>(points)),
            lawful ==> all_on_curve::<C>(bucket_sums(buckets@)) && weighted::<C>(
                bucket_sums(buckets@),
                0,
            ) == combination::<C>(coeffs.take(2 * t), points),
        decreases n - t,
    {
        let (first, second) = components[t];
        let d1 = booth_digit(first, window_bits, window);
        let d2 = booth_digit(second, window_bits, window);
        proof {
            let r = pow2(window_bits as nat) as int;
            let (x, y) = (
                rounded_value(first, (window + 1) * window_bits),
                rounded_value(second, (window + 1) * window_bits),
            );
            assert((-r) * x == -(r * x) && (-r) * y == -(r * y)) by (nonlinear_arith);
            assert((2 * t) / 2 == t && (2 * t) % 2 == 0 && (2 * t + 1) / 2 == t && (2 * t + 1) % 2
                == 1);
            assert(coeffs[2 * t] == d1.value());
            assert(coeffs[2 * t + 1] == d2.value());
            assert(points[2 * t] == bases@[t as int]@);
            assert(points[2 * t + 1] == endo_bases@[t as int]@);
            lemma_combination_take::<C>(coeffs, points, 2 * t);
            lemma_combination_take::<C>(coeffs, points, 2 * t + 1);
            assert(2 * (t + 1) == 2 * t + 1 + 1);
            if lawful {
                assert(on_curve::<C>(points[2 * t]) && on_curve::<C>(points[2 * t + 1]));
            }
        }
        add_digit(&mut buckets, d1, bases[t]);
        add_digit(&mut buckets, d2, endo_bases[t]);
        t += 1;
    }
    assert(coeffs.take(2 * t) =~= coeffs);
    sum_buckets(&buckets)
}

/// The sum of the multiples of points and of their images by halves of scalars.
pub fn multiexp<C: Group>(
    components: &Vec<(SignedMagnitude, SignedMagnitude)>,
    bases: &Vec<Affine<C>>,
    endo_bases: &Vec<Affine<C>>,
    window_bits: usize,
) -> (r: Point<C>)
    requires
        components@.len() == bases@.len(),
        components@.len() == endo_bases@.len(),
        1 <= window_bits < usize::BITS,
        forall|t: int|
            0 <= t < components@.len() ==> (#[trigger] components@[t]).0.magnitude < two127()
                && components@[t].1.magnitude < two127(),
    ensures
        all_on_curve::<C>(half_points(bases@, endo_bases@)) ==> r@
            == combination::<C>(half_coeffs(components@, 0), half_points(bases@, endo_bases@)),
{
    let ghost points = half_points(bases@, endo_bases@);
    let ghost lawful = all_on_curve::<C>(points);
    let ghost w = window_bits as int;
    let window_count = GLV_COMPONENT_BITS / window_bits + 1;
    proof {
        lemma_usize_pow2((window_bits - 1) as nat);
        lemma_fundamental_div_mod(127, w);
        lemma_mod_bound(127, w);
        assert((window_count - 1) * w <= 127 && window_count * w > 127) by (nonlinear_arith)
            requires
                window_count == 127int / w + 1,
                127 == w * (127int / w) + 127int % w,
                0 <= 127int % w < w,
        ;
    }
    let bucket_count = match power_of_two(window_bits - 1) {
        Some(count) => count,
        None => 0,
    };
    let mut acc = Point::<C>::identity();
    let mut window: usize = window_count;
    proof {
        let top = half_coeffs(components@, window_count * w);
        assert forall|i: int| 0 <= i < top.len() implies #[trigger] top[i] == 0 by {
            let t = i / 2;
            assert(components@[t].0.magnitude < two127());
            lemma_rounded_zero(components@[t].0.magnitude as int, window_count * w);
            lemma_rounded_zero(components@[t].1.magnitude as int, window_count * w);
        }
        if lawful {
            lemma_combination_zero::<C>(top, points);
        }
    }
    while window > 0
        invariant
            window <= window_count,
            components@.len() == bases@.len(),
            components@.len() == endo_bases@.len(),
            1 <= window_bits < usize::BITS,
            w == window_bits,
            (window_count - 1) * w <= 127,
            bucket_count == pow2((window_bits - 1) as nat),
            points == half_points(bases@, endo_bases@),
            lawful == (all_on_curve::<C>(points)),
            window == window_count ==> acc@ == Pt::Infinity,
            lawful ==> acc@ == combination::<C>(half_coeffs(components@, window * w), points),
        decreases window,
    {
        let ghost high = half_coeffs(components@, window * w);
        let ghost before = acc@;
        if window < window_count {
            let mut i: usize = 0;
            proof {
                lemma2_to64();
                if lawful {
                    lemma_combination_closed::<C>(high, points);
                    lemma_smul_small::<C>(before);
                }
            }
            while i < window_bits
                invariant
                    i <= window_bits,
                    lawful ==> on_curve::<C>(before) && acc@ == smul::<C>(
                        pow2(i as nat) as int,
                        before,
                    ),
                decreases window_bits - i,
            {
                let ghost p = pow2(i as nat) as int;
                acc = acc.double();
                proof {
                    lemma_pow2_adds(1, i as nat);
                    lemma2_to64();
                    if lawful {
                        lemma_smul_add::<C>(p, p, before);
                    }
                }
                i += 1;
            }
        } else {
            proof {
                lemma_smul_infinity::<C>(pow2(window_bits as nat) as int);
            }
        }
        window -= 1;
        assert(window * w <= (window_count - 1) * w) by (nonlinear_arith)
            requires
                window <= window_count - 1,
                w >= 1,
        ;
        let sum = window_sum(components, bases, endo_bases, window_bits, window, bucket_count);
        proof {
            if lawful {
                let r = pow2(window_bits as nat) as int;
                lemma_combination_scale::<C>(r, high, points);
                lemma_combination_add::<C>(
                    scale_coeffs(r, high),
                    window_coeffs(components@, window as int, w),
                    points,
                );
                lemma_window_coeffs(components@, window as int, w);
            }
        }
        acc = acc.add(sum);
    }
    assert(0 * w == 0);
    acc
}

/// A number below two to the 127 has no part from a higher position on.
proof fn lemma_rounded_zero(m: int, shift: int)
    requires
        0 <= m < two127(),
        shift >= 128,
    ensures
        rounded(m, shift) == 0,
{
    lemma2_to64();
    vstd::arithmetic::power2::lemma2_to64_rest();
    lemma_pow2_adds(64, 63);
    if shift > 128 {
        lemma_pow2_strictly_increases(127, (shift - 1) as nat);
    }
    vstd::arithmetic::div_mod::lemma_basic_div(m, pow2((shift - 1) as nat) as int);
}

/// The residues of scalars.
pub open spec fn scalar_values<M: Modulus>(scalars: Seq<Fe<M>>) -> Seq<int> {
    Seq::new(scalars.len(), |i: int| scalars[i]@)
}

/// The points of a list.
pub open spec fn affine_values<C: Group>(points: Seq<Affine<C>>) -> Seq<Pt> {
    Seq::new(points.len(), |i: int| points[i]@)
}

/// The halves' combination of the points and their images is the scalars' combination of the
/// points.
proof fn lemma_halves<C: Group>(
    scalars: Seq<int>,
    halves: Seq<int>,
    bases: Seq<Pt>,
    points: Seq<Pt>,
    t: int,
)
    requires
        all_on_curve::<C>(bases),
        0 <= t <= scalars.len(),
        scalars.len() == bases.len(),
        halves.len() == 2 * scalars.len(),
        points.len() == halves.len(),
        forall|i: int|
            0 <= i < scalars.len() ==> (#[trigger] bases[i]) == points[2 * i] && endo::<C>(bases[i])
                == points[2 * i + 1] && congruent(
                halves[2 * i] + halves[2 * i + 1] * <C::Scalar as Modulus>::cube_root(),
                scalars[i],
                order::<C>(),
            ),
    ensures
        combination::<C>(halves.take(2 * t), points) == combination::<C>(scalars.take(t), bases),
        on_curve::<C>(combination::<C>(scalars.take(t), bases)),
    decreases t,
{
    lemma_combination_closed::<C>(scalars.take(t), bases);
    if t == 0 {
        assert(halves.take(0) =~= Seq::empty());
        assert(scalars.take(0) =~= Seq::empty());
    } else {
        let i = t - 1;
        lemma_halves::<C>(scalars, halves, bases, points, i);
        lemma_combination_take::<C>(halves, points, 2 * i);
        lemma_combination_take::<C>(halves, points, 2 * i + 1);
        assert(2 * t == 2 * i + 1 + 1);
        lemma_combination_take::<C>(scalars, bases, i);
        let b = bases[i];
        let z = <C::Scalar as Modulus>::cube_root();
        let (k1, k2) = (halves[2 * i], halves[2 * i + 1]);
        let a = combination::<C>(scalars.take(i), bases);
        lemma_smul_small::<C>(b);
        lemma_endo::<C>(1, b);
        assert(1 * z == z);
        assert(endo::<C>(b) == smul::<C>(z, b));
        lemma_smul_mul::<C>(k2, z, b);
        lemma_smul_closed::<C>(k1, b);
        lemma_smul_closed::<C>(k2 * z, b);
        lemma_associative::<C>(a, smul::<C>(k1, b), smul::<C>(k2 * z, b));
        lemma_smul_add::<C>(k1, k2 * z, b);
        lemma_smul_congruent::<C>(k1 + k2 * z, scalars[i], b);
    }
}

/// The sum of the multiples of points by scalars, where the endomorphism makes it less work;
/// `None` elsewhere.
pub fn try_multiexp<C: GlvParams>(scalars: &Vec<Fe<C::Scalar>>, bases: &Vec<Affine<C>>) -> (r:
    Option<Point<C>>)
    requires
        scalars@.len() == bases@.len(),
    ensures
        r is Some <==> (chosen_window(scalars@.len() as int, 1) matches Some(w) && is_glv_better(
            scalars@.len() as int,
            w,
        )),
        r matches Some(sum) ==> (all_on_curve::<C>(affine_values(bases@))
            ==> sum@ == combination::<C>(scalar_values(scalars@), affine_values(bases@))),
{
    let n = scalars.len();
    let window_bits = match multiexp_window_bits(n, 1) {
        Some(window_bits) => window_bits,
        None => {
            return None;
        },
    };
    if !should_use_glv_multiexp(n, window_bits) {
        return None;
    }
    let mut components: Vec<(SignedMagnitude, SignedMagnitude)> = Vec::new();
    let mut endo_bases: Vec<Affine<C>> = Vec::new();
    let ghost z = <C::Scalar as Modulus>::cube_root();
    let mut t: usize = 0;
    while t < n
        invariant
            t <= n,
            n == scalars@.len(),
            n == bases@.len(),
            z == <C::Scalar as Modulus>::cube_root(),
            components@.len() == t,
            endo_bases@.len() == t,
            forall|i: int|
                0 <= i < t ==> (#[trigger] components@[i]).0.magnitude < two127()
                    && components@[i].1.magnitude < two127() && congruent(
                    components@[i].0.value() + components@[i].1.value() * z,
                    scalars@[i]@,
                    order::<C>(),
                ),
            forall|i: int| 0 <= i < t ==> (#[trigger] endo_bases@[i])@ == endo::<C>(bases@[i]@),
        decreases n - t,
    {
        match checked_signed_magnitudes(decompose::<C>(scalars[t])) {
            Some(pair) => {
                components.push(pair);
            },
            None => {
                return None;
            },
        }
        endo_bases.push(bases[t].endo());
        t += 1;
    }
    let r = multiexp(&components, bases, &endo_bases, window_bits);
    proof {
        let (b, k) = (affine_values(bases@), scalar_values(scalars@));
        if all_on_curve::<C>(b) {
            let (h, p) = (half_coeffs(components@, 0), half_points(bases@, endo_bases@));
            assert forall|i: int| 0 <= i < p.len() implies on_curve::<C>(#[trigger] p[i]) by {
                let a = b[i / 2];
                assert(on_curve::<C>(a));
                if i % 2 == 1 {
                    lemma_smul_small::<C>(a);
                    lemma_endo::<C>(1, a);
                    lemma_smul_closed::<C>(1 * z, a);
                    assert(endo_bases@[i / 2]@ == endo::<C>(bases@[i / 2]@));
                }
            }
            assert forall|i: int| 0 <= i < k.len() implies (#[trigger] b[i]) == p[2 * i] && endo::<C>(
                b[i],
            ) == p[2 * i + 1] && congruent(
                h[2 * i] + h[2 * i + 1] * z,
                k[i],
                order::<C>(),
            ) by {
                assert((2 * i) / 2 == i && (2 * i) % 2 == 0 && (2 * i + 1) / 2 == i && (2 * i + 1) % 2
                    == 1);
                assert(endo_bases@[i]@ == endo::<C>(bases@[i]@));
                let c = components@[i];
                assert(h[2 * i] == c.0.value() && h[2 * i + 1] == c.1.value());
            }
            lemma_halves::<C>(k, h, b, p, n as int);
            assert(h.take(2 * n) =~= h);
            assert(k.take(n as int) =~= k);
        }
    }
    Some(r)
}

} // verus!

//! Sums and differences of many pairs of points with one shared inversion.
use crate::curve::affine::Affine;
use crate::curve::batch::{
    affine_add, batch_invert_nonzero, batch_normalize, is_affine_of, lemma_affine_of,
    lemma_apart_residues,
};
use crate::curve::law::{ec_add, lemma_closed, lemma_inverse_point, minus, on_curve, plus, Pt};
use crate::curve::point::Point;
use crate::curve::Group;
use crate::field::primes::is_inverse;
use crate::field::{Fe, Modulus};
use vstd::prelude::*;

verus! {

/// The denominators of a batch and the space for their inversion.
pub struct AffineTwiddleScratch<C: Group> {
    denominators: Vec<Fe<C::Base>>,
    prefixes: Vec<Fe<C::Base>>,
}

impl<C: Group> AffineTwiddleScratch<C> {
    /// Nothing is kept in the space.
    pub closed spec fn is_empty(self) -> bool {
        self.denominators@.len() == 0 && self.prefixes@.len() == 0
    }

    /// Empty space.
    pub fn new() -> (r: Self)
        ensures
            r.is_empty(),
    {
        AffineTwiddleScratch { denominators: Vec::new(), prefixes: Vec::new() }
    }
}

/// The difference of points.
pub open spec fn difference<C: Group>(a: Pt, b: Pt) -> Pt {
    plus::<C>(a, minus::<C>(b))
}

/// The points are on the curve, and not neutral where that is claimed.
pub open spec fn are_proper<C: Group>(left: Pt, right: Pt, identity_free: bool) -> bool {
    &&& on_curve::<C>(left)
    &&& on_curve::<C>(right)
    &&& identity_free ==> left != Pt::Infinity && right != Pt::Infinity
}

/// The sums and differences of the pairs whose points are on the curve, and not neutral where that
/// is claimed.
pub open spec fn are_sums<C: Group>(
    left: Seq<Affine<C>>,
    right: Seq<Affine<C>>,
    sums: Seq<Affine<C>>,
    differences: Seq<Affine<C>>,
    identity_free: bool,
) -> bool {
    &&& sums.len() == left.len()
    &&& differences.len() == left.len()
    &&& forall|i: int|
        0 <= i < left.len() && are_proper::<C>(
            (#[trigger] left[i])@,
            right[i]@,
            identity_free,
        ) ==> sums[i]@ == plus::<C>(left[i]@, right[i]@) && differences[i]@ == difference::<C>(
            left[i]@,
            right[i]@,
        )
}

/// The points of every pair have different first coordinates.
pub open spec fn all_apart<C: Group>(left: Seq<Affine<C>>, right: Seq<Affine<C>>) -> bool {
    forall|i: int| 0 <= i < left.len() ==> (#[trigger] left[i]).x@ != right[i].x@
}

/// The sum and the difference of points of the curve that are not neutral and have different first
/// coordinates are not neutral.
pub proof fn lemma_apart_sums<C: Group>(left: Affine<C>, right: Affine<C>)
    requires
        on_curve::<C>(left@),
        on_curve::<C>(right@),
        left@ != Pt::Infinity,
        right@ != Pt::Infinity,
        left.x@ != right.x@,
    ensures
        plus::<C>(left@, right@) != Pt::Infinity,
        difference::<C>(left@, right@) != Pt::Infinity,
{
    reveal(ec_add);
}

/// Whether a point of a pair is the neutral element.
fn any_identity<C: Group>(left: &Vec<Affine<C>>, right: &Vec<Affine<C>>) -> (r: bool)
    requires
        left@.len() == right@.len(),
    ensures
        r <==> exists|i: int|
            0 <= i < left@.len() && ((#[trigger] left@[i])@ == Pt::Infinity || right@[i]@
                == Pt::Infinity),
{
    let mut i: usize = 0;
    while i < left.len()
        invariant
            i <= left@.len(),
            left@.len() == right@.len(),
            forall|k: int|
                0 <= k < i ==> (#[trigger] left@[k])@ != Pt::Infinity && right@[k]@ != Pt::Infinity,
        decreases left@.len() - i,
    {
        if left[i].is_identity() || right[i].is_identity() {
            assert(left@[i as int]@ == Pt::Infinity || right@[i as int]@ == Pt::Infinity);
            return true;
        }
        i += 1;
    }
    false
}

/// The sums and differences of pairs, with chords that share the inverse of one denominator per
/// pair; in exceptional cases in Jacobian coordinates.
///
/// `identity_free` claims that no point is neutral, and the result says whether that can still be
/// claimed of all points, those of other pairs included: an exceptional case ends the claim,
/// and no later success brings it back.
pub fn affine_add_sub_pairs<C: Group>(
    left: &Vec<Affine<C>>,
    right: &Vec<Affine<C>>,
    scratch: &mut AffineTwiddleScratch<C>,
    identity_free: bool,
) -> (r: (Vec<Affine<C>>, Vec<Affine<C>>, bool))
    requires
        left@.len() == right@.len(),
    ensures
        are_sums(left@, right@, r.0@, r.1@, identity_free),
        r.2 == (identity_free && all_apart(left@, right@)),
        r.2 ==> forall|i: int|
            0 <= i < left@.len() && are_proper::<C>(
                (#[trigger] left@[i])@,
                right@[i]@,
                identity_free,
            ) ==> r.0@[i]@ != Pt::Infinity && r.1@[i]@ != Pt::Infinity,
{
    if !identity_free && any_identity(left, right) {
        let (sums, differences) = projective_add_sub_pairs(left, right);
        return (sums, differences, false);
    }
    let n = left.len();
    let ghost p = <C::Base as Modulus>::p();
    let mut denominators: Vec<Fe<C::Base>> = Vec::new();
    let mut prefixes: Vec<Fe<C::Base>> = Vec::new();
    std::mem::swap(&mut denominators, &mut scratch.denominators);
    std::mem::swap(&mut prefixes, &mut scratch.prefixes);
    denominators.resize(n, Fe::zero());
    prefixes.resize(n, Fe::zero());
    let mut i: usize = 0;
    while i < n
        invariant
            i <= n,
            n == left@.len(),
            n == right@.len(),
            n == denominators@.len(),
            p == <C::Base as Modulus>::p(),
            forall|k: int|
                0 <= k < i ==> (#[trigger] denominators@[k])@ == (right@[k].x@ - left@[k].x@) % p,
        decreases n - i,
    {
        denominators.set(i, right[i].x.sub(left[i].x));
        i += 1;
    }
    let ghost den = denominators@;
    proof {
        assert forall|k: int| 0 <= k < n implies ((#[trigger] den[k])@ == 0 <==> left@[k].x@
            == right@[k].x@) by {
            lemma_apart_residues(right@[k].x, left@[k].x);
        }
    }
    if !batch_invert_nonzero(&mut denominators, &mut prefixes) {
        proof {
            let k = choose|k: int| 0 <= k < n && (#[trigger] den[k])@ == 0;
            assert(left@[k].x@ == right@[k].x@);
        }
        let (sums, differences) = projective_add_sub_pairs(left, right);
        return (sums, differences, false);
    }
    proof {
        assert forall|k: int| 0 <= k < n implies (#[trigger] left@[k]).x@ != right@[k].x@ by {
            assert(den[k]@ != 0);
        }
    }
    let mut sums: Vec<Affine<C>> = Vec::new();
    let mut differences: Vec<Affine<C>> = Vec::new();
    let mut i: usize = 0;
    while i < n
        invariant
            i <= n,
            n == left@.len(),
            n == right@.len(),
            n == denominators@.len(),
            n == den.len(),
            p == <C::Base as Modulus>::p(),
            !identity_free ==> forall|k: int|
                0 <= k < n ==> (#[trigger] left@[k])@ != Pt::Infinity && right@[k]@ != Pt::Infinity,
            all_apart(left@, right@),
            forall|k: int|
                0 <= k < n ==> (#[trigger] den[k])@ == (right@[k].x@ - left@[k].x@) % p,
            forall|k: int| 0 <= k < n ==> is_inverse(den[k]@, (#[trigger] denominators@[k])@, p),
            sums@.len() == i,
            differences@.len() == i,
            forall|k: int|
                0 <= k < i && are_proper::<C>(
                    (#[trigger] left@[k])@,
                    right@[k]@,
                    identity_free,
                ) ==> sums@[k]@ == plus::<C>(left@[k]@, right@[k]@) && differences@[k]@
                    == difference::<C>(left@[k]@, right@[k]@) && sums@[k]@ != Pt::Infinity
                    && differences@[k]@ != Pt::Infinity,
        decreases n - i,
    {
        let (l, r) = (left[i], right[i]);
        assert(den[i as int]@ == (r.x@ - l.x@) % p);
        assert(left@[i as int] == l);
        let (sum, diff) = apply_affine_twiddle(l, r, denominators[i]);
        proof {
            if are_proper::<C>(l@, r@, identity_free) {
                lemma_apart_sums::<C>(l, r);
            }
        }
        sums.push(sum);
        differences.push(diff);
        i += 1;
    }
    scratch.denominators = denominators;
    scratch.prefixes = prefixes;
    (sums, differences, identity_free)
}

/// The sum and the difference of two points with different first coordinates, given the inverse
/// of their difference.
fn apply_affine_twiddle<C: Group>(left: Affine<C>, right: Affine<C>, inverse: Fe<C::Base>) -> (r: (
    Affine<C>,
    Affine<C>,
))
    requires
        is_inverse(
            (right.x@ - left.x@) % <C::Base as Modulus>::p(),
            inverse@,
            <C::Base as Modulus>::p(),
        ),
    ensures
        are_proper::<C>(left@, right@, true) ==> r.0@ == plus::<C>(left@, right@) && r.1@
            == difference::<C>(left@, right@),
{
    let negated = right.neg();
    let (px, py) = affine_add::<C>(left.x, left.y, right.x, right.y, inverse);
    let (mx, my) = affine_add::<C>(left.x, left.y, negated.x, negated.y, inverse);
    let (sum, diff) = (Affine { x: px, y: py }, Affine { x: mx, y: my });
    proof {
        if are_proper::<C>(left@, right@, true) {
            lemma_inverse_point::<C>(right@);
            lemma_closed::<C>(left@, right@);
            lemma_closed::<C>(left@, negated@);
            assert(negated@ == (Pt::At { x: negated.x@, y: negated.y@ }));
            lemma_affine_of::<C>(sum, plus::<C>(left@, right@));
            lemma_affine_of::<C>(diff, plus::<C>(left@, negated@));
        }
    }
    (sum, diff)
}

/// The sums and differences of pairs, in Jacobian coordinates.
fn projective_add_sub_pairs<C: Group>(left: &Vec<Affine<C>>, right: &Vec<Affine<C>>) -> (r: (
    Vec<Affine<C>>,
    Vec<Affine<C>>,
))
    requires
        left@.len() == right@.len(),
    ensures
        are_sums(left@, right@, r.0@, r.1@, false),
{
    let n = left.len();
    let mut sums: Vec<Point<C>> = Vec::new();
    let mut differences: Vec<Point<C>> = Vec::new();
    let mut i: usize = 0;
    while i < n
        invariant
            i <= n,
            n == left@.len(),
            n == right@.len(),
            sums@.len() == i,
            differences@.len() == i,
            forall|k: int|
                0 <= k < i ==> (#[trigger] sums@[k])@ == plus::<C>(left@[k]@, right@[k]@),
            forall|k: int|
                0 <= k < i ==> (#[trigger] differences@[k])@ == difference::<C>(
                    left@[k]@,
                    right@[k]@,
                ),
        decreases n - i,
    {
        let l = Point::from_affine(left[i]);
        let r = Point::from_affine(right[i]);
        sums.push(l.add(r));
        differences.push(l.sub(r));
        i += 1;
    }
    let split = sums.len();
    let ghost (s, d) = (sums@, differences@);
    let mut all = sums;
    all.append(&mut differences);
    let mut low = batch_normalize(&all);
    let ghost whole = low@;
    let high = low.split_off(split);
    proof {
        assert forall|k: int|
            0 <= k < left@.len() && on_curve::<C>((#[trigger] left@[k])@)
                && on_curve::<C>(right@[k]@) implies low@[k]@ == plus::<C>(left@[k]@, right@[k]@)
            && high@[k]@ == difference::<C>(left@[k]@, right@[k]@) by {
            lemma_inverse_point::<C>(right@[k]@);
            lemma_closed::<C>(left@[k]@, right@[k]@);
            lemma_closed::<C>(left@[k]@, minus::<C>(right@[k]@));
            assert(all@[k] == s[k] && all@[split + k] == d[k]);
            assert(is_affine_of(whole[k], all@[k]@));
            assert(is_affine_of(whole[split + k], all@[split + k]@));
            assert(low@[k] == whole[k] && high@[k] == whole[split + k]);
            lemma_affine_of::<C>(low@[k], plus::<C>(left@[k]@, right@[k]@));
            lemma_affine_of::<C>(high@[k], difference::<C>(left@[k]@, right@[k]@));
        }
    }
    (low, high)
}

/// The butterflies of one layer: in each block of `chunk` points, the sums of the first half and
/// the scaled second half go to the first half, and the differences to the second half.
///
/// `identity_free` claims that no point is neutral, and the result says whether that is so of the
/// points of the next layer because no case was exceptional.
pub fn affine_twiddle_add_sub_layer<C: Group>(
    points: &mut Vec<Affine<C>>,
    right_scaled: &Vec<Affine<C>>,
    half: usize,
    scratch: &mut AffineTwiddleScratch<C>,
    identity_free: bool,
) -> (r: bool)
    requires
        half > 0,
        2 * right_scaled@.len() == old(points)@.len(),
        right_scaled@.len() % half as nat == 0,
    ensures
        final(points)@.len() == old(points)@.len(),
        forall|b: int, j: int|
            0 <= b && 0 <= j < half && b * half + j < right_scaled@.len() ==> is_butterfly::<C>(
                old(points)@[2 * (b * half) + j]@,
                (#[trigger] right_scaled@[b * half + j])@,
                final(points)@[2 * (b * half) + j]@,
                final(points)@[2 * (b * half) + half + j]@,
                identity_free,
            ),
        r <==> forall|b: int, j: int|
            0 <= b && 0 <= j < half && b * half + j < right_scaled@.len() ==> is_regular(
                old(points)@[2 * (b * half) + j],
                #[trigger] right_scaled@[b * half + j],
                identity_free,
            ),
        r ==> forall|b: int, j: int|
            0 <= b && 0 <= j < half && b * half + j < right_scaled@.len() && are_proper::<C>(
                old(points)@[2 * (b * half) + j]@,
                (#[trigger] right_scaled@[b * half + j])@,
                identity_free,
            ) ==> final(points)@[2 * (b * half) + j]@ != Pt::Infinity && final(points)@[2 * (b
                * half) + half + j]@ != Pt::Infinity,
{
    let n = right_scaled.len();
    let ghost before = points@;
    let mut left: Vec<Affine<C>> = Vec::new();
    let mut start: usize = 0;
    let ghost mut blocks: int = 0;
    while start < n
        invariant
            half > 0,
            n == right_scaled@.len(),
            2 * n == points@.len(),
            points@ == before,
            start == blocks * half,
            blocks >= 0,
            start <= n,
            n as int % half as int == 0,
            left@.len() == start,
            forall|b: int, j: int|
                0 <= b < blocks && 0 <= j < half ==> #[trigger] left@[b * half + j] == before[2 * (b
                    * half) + j],
        decreases n - start,
    {
        proof {
            lemma_block_fits(n as int, half as int, blocks);
        }
        let mut j: usize = 0;
        while j < half
            invariant
                j <= half,
                2 * n == points@.len(),
                points@ == before,
                start == blocks * half,
                blocks >= 0,
                start + half <= n,
                left@.len() == start + j,
                forall|b: int, i: int|
                    0 <= b < blocks && 0 <= i < half ==> #[trigger] left@[b * half + i]
                        == before[2 * (b * half) + i],
                forall|i: int| 0 <= i < j ==> left@[start + i] == #[trigger] before[2 * start + i],
            decreases half - j,
        {
            let ghost l0 = left@;
            let size = points.len();
            left.push(points[2 * start + j]);
            proof {
                assert forall|b: int, i: int| 0 <= b < blocks && 0 <= i < half implies #[trigger] left@[b
                    * half + i] == before[2 * (b * half) + i] by {
                    lemma_block_order(b, blocks, i, half as int);
                    assert(l0[b * half + i] == before[2 * (b * half) + i]);
                }
                assert forall|i: int| 0 <= i < j + 1 implies left@[start + i] == #[trigger] before[2
                    * start + i] by {
                    if i < j {
                        assert(l0[start + i] == before[2 * start + i]);
                    }
                }
            }
            j += 1;
        }
        proof {
            assert forall|b: int, i: int| 0 <= b < blocks + 1 && 0 <= i < half implies #[trigger] left@[b
                * half + i] == before[2 * (b * half) + i] by {
                if b == blocks {
                    assert(before[2 * start + i] == left@[start + i]);
                }
            }
            blocks = blocks + 1;
            assert(start + half == blocks * half) by (nonlinear_arith)
                requires
                    start == (blocks - 1) * half,
            ;
        }
        start += half;
    }
    let exceptional = !identity_free && any_identity(&left, right_scaled);
    let (sums, differences, regular) = if exceptional {
        let (sums, differences) = projective_add_sub_pairs(&left, right_scaled);
        (sums, differences, false)
    } else {
        affine_add_sub_pairs(&left, right_scaled, scratch, true)
    };
    let ghost count = blocks;
    let mut start: usize = 0;
    let ghost mut blocks: int = 0;
    while start < n
        invariant
            half > 0,
            n == right_scaled@.len(),
            n == sums@.len(),
            n == differences@.len(),
            2 * n == points@.len(),
            start == blocks * half,
            blocks >= 0,
            start <= n,
            n as int % half as int == 0,
            forall|b: int, j: int|
                0 <= b < blocks && 0 <= j < half ==> points@[2 * (b * half) + j] == #[trigger] sums@[b
                    * half + j] && points@[2 * (b * half) + half + j] == differences@[b * half + j],
        decreases n - start,
    {
        proof {
            lemma_block_fits(n as int, half as int, blocks);
        }
        let mut j: usize = 0;
        while j < half
            invariant
                j <= half,
                n == sums@.len(),
                n == differences@.len(),
                2 * n == points@.len(),
                start == blocks * half,
                blocks >= 0,
                start + half <= n,
                forall|b: int, i: int|
                    0 <= b < blocks && 0 <= i < half ==> points@[2 * (b * half) + i]
                        == #[trigger] sums@[b * half + i] && points@[2 * (b * half) + half + i]
                        == differences@[b * half + i],
                forall|i: int|
                    0 <= i < j ==> points@[2 * start + i] == #[trigger] sums@[start + i] && points@[2
                        * start + half + i] == differences@[start + i],
            decreases half - j,
        {
            let ghost p0 = points@;
            let size = points.len();
            points.set(2 * start + j, sums[start + j]);
            points.set(2 * start + half + j, differences[start + j]);
            proof {
                assert forall|b: int, i: int| 0 <= b < blocks && 0 <= i < half implies points@[2 * (b
                    * half) + i] == #[trigger] sums@[b * half + i] && points@[2 * (b * half) + half
                    + i] == differences@[b * half + i] by {
                    lemma_block_order(b, blocks, i, half as int);
                    assert(p0[2 * (b * half) + i] == sums@[b * half + i]);
                }
                assert forall|i: int| 0 <= i < j + 1 implies points@[2 * start + i]
                    == #[trigger] sums@[start + i] && points@[2 * start + half + i]
                    == differences@[start + i] by {
                    if i < j {
                        assert(p0[2 * start + i] == sums@[start + i]);
                    }
                }
            }
            j += 1;
        }
        proof {
            assert forall|b: int, i: int| 0 <= b < blocks + 1 && 0 <= i < half implies points@[2 * (b
                * half) + i] == #[trigger] sums@[b * half + i] && points@[2 * (b * half) + half + i]
                == differences@[b * half + i] by {
                if b == blocks {
                    assert(points@[2 * start + i] == sums@[start + i]);
                }
            }
            blocks = blocks + 1;
            assert(start + half == blocks * half) by (nonlinear_arith)
                requires
                    start == (blocks - 1) * half,
            ;
        }
        start += half;
    }
    proof {
        assert forall|b: int, j: int|
            0 <= b && 0 <= j < half && b * half + j < right_scaled@.len() implies is_butterfly::<C>(
            before[2 * (b * half) + j]@,
            (#[trigger] right_scaled@[b * half + j])@,
            points@[2 * (b * half) + j]@,
            points@[2 * (b * half) + half + j]@,
            identity_free,
        ) && (regular ==> is_regular(
            before[2 * (b * half) + j],
            right_scaled@[b * half + j],
            identity_free,
        )) && (regular && are_proper::<C>(
            before[2 * (b * half) + j]@,
            right_scaled@[b * half + j]@,
            identity_free,
        ) ==> points@[2 * (b * half) + j]@ != Pt::Infinity && points@[2 * (b * half) + half + j]@
            != Pt::Infinity) by {
            assert(b < blocks && b < count) by (nonlinear_arith)
                requires
                    b * half + j < n,
                    n == blocks * half,
                    n == count * half,
                    0 <= j,
                    half > 0,
            ;
            assert(left@[b * half + j] == before[2 * (b * half) + j]);
            assert(points@[2 * (b * half) + j] == sums@[b * half + j]);
        }
        if !regular {
            let i = if exceptional {
                choose|i: int|
                    0 <= i < n && ((#[trigger] left@[i])@ == Pt::Infinity || right_scaled@[i]@
                        == Pt::Infinity)
            } else {
                choose|i: int| 0 <= i < n && (#[trigger] left@[i]).x@ == right_scaled@[i].x@
            };
            let (b, j) = (i / half as int, i % half as int);
            vstd::arithmetic::div_mod::lemma_fundamental_div_mod(i, half as int);
            vstd::arithmetic::div_mod::lemma_mod_bound(i, half as int);
            vstd::arithmetic::div_mod::lemma_div_pos_is_pos(i, half as int);
            assert(b * half + j == i) by (nonlinear_arith)
                requires
                    i == half * b + j,
            ;
            assert(b < count) by (nonlinear_arith)
                requires
                    b * half + j < n,
                    n == count * half,
                    0 <= j,
                    half > 0,
            ;
            assert(left@[b * half + j] == before[2 * (b * half) + j]);
            assert(!is_regular(
                before[2 * (b * half) + j],
                right_scaled@[b * half + j],
                identity_free,
            ));
        }
    }
    regular
}

/// The chord through two points is defined: their first coordinates differ, and neither is
/// neutral, which is checked unless it is claimed.
pub open spec fn is_regular<C: Group>(
    left: Affine<C>,
    right: Affine<C>,
    identity_free: bool,
) -> bool {
    &&& left.x@ != right.x@
    &&& identity_free || (left@ != Pt::Infinity && right@ != Pt::Infinity)
}

/// The sum and the difference of two points, where they are on the curve and not neutral if that is
/// claimed.
pub open spec fn is_butterfly<C: Group>(
    left: Pt,
    right: Pt,
    sum: Pt,
    diff: Pt,
    identity_free: bool,
) -> bool {
    are_proper::<C>(left, right, identity_free) ==> sum == plus::<C>(left, right) && diff
        == difference::<C>(left, right)
}

/// A block that starts before the end of a multiple of its size ends there at the latest.
proof fn lemma_block_fits(n: int, half: int, b: int)
    requires
        half > 0,
        n % half == 0,
        b * half < n,
    ensures
        b * half + half <= n,
{
    vstd::arithmetic::div_mod::lemma_fundamental_div_mod(n, half);
    let q = n / half;
    assert(b * half + half <= n) by (nonlinear_arith)
        requires
            n == half * q,
            b * half < n,
            half > 0,
    ;
}

/// Blocks before another end before it.
pub(crate) proof fn lemma_block_order(b: int, c: int, i: int, half: int)
    requires
        0 <= b < c,
        0 <= i < half,
    ensures
        0 <= b * half + i < c * half,
        b * half + half <= c * half,
        0 <= b * half,
{
    assert(0 <= b * half && b * half + half <= c * half) by (nonlinear_arith)
        requires
            0 <= b < c,
            half > 0,
    ;
}

} // verus!

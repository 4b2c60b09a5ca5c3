//! Ladders on affine accumulators that share their inversions.
use crate::curve::affine::Affine;
use crate::curve::batch::{
    affine_chord, affine_double, affine_fused, are_apart, batch_invert_nonzero, batch_normalize,
    is_affine_of, lemma_affine_of, lemma_apart_residues,
};
use crate::curve::law::{
    ec_add, lemma_product, lemma_smul_add, lemma_smul_closed,
    lemma_smul_congruent, lemma_smul_infinity, lemma_smul_injective, lemma_smul_neg,
    lemma_smul_small, minus, on_curve, order, plus, quotient, smul, Pt,
};
use crate::curve::point::Point;
use crate::curve::slopes::lemma_opposite;
use crate::curve::Group;
use crate::field::congruence::{congruent, lemma_congruent_difference};
use crate::field::primes::is_inverse;
use crate::field::{Fe, Modulus};
use crate::glv::digits::lemma_zero_digit;
use crate::glv::scalar::{
    digit_of, is_column_safe, is_schedule_safe, lemma_suffix, lemma_suffix_end, suffix_of,
    Decomposed,
};
use crate::glv::table::{affine_point, lemma_digit_nonzero, Table};
use vstd::arithmetic::div_mod::lemma_small_mod;
use vstd::prelude::*;

verus! {

/// Batches with at least this many points other than the neutral element use affine
/// accumulators.
pub const BATCH_AFFINE_MIN_POINTS: usize = 32;

/// The curve is a group and the table belongs to one of its points other than the neutral one.
pub open spec fn is_live<C: Group>(table: Table<C>) -> bool {
    on_curve::<C>(table.base()) && table.base() != Pt::Infinity
}

/// A multiple by a nonzero scalar is not the neutral element.
proof fn lemma_digit_finite<C: Group>(table: Table<C>, code: int)
    requires
        is_live(table),
        1 <= code <= 48,
    ensures
        smul::<C>(digit_of::<C>(code), table.base()) != Pt::Infinity,
{
    <C::Scalar as Modulus>::lemma_modulus();
    lemma_digit_nonzero::<C>(code);
    lemma_smul_small::<C>(table.base());
    lemma_small_mod(0, order::<C>() as nat);
    if smul::<C>(digit_of::<C>(code), table.base()) == Pt::Infinity {
        lemma_smul_injective::<C>(digit_of::<C>(code), 0, table.base());
    }
}

/// One step of the ladder: twice the multiple and the digit's multiple.
proof fn lemma_fused<C: Group>(s: int, d: int, b: Pt)
    requires
        on_curve::<C>(b),
    ensures
        plus::<C>(smul::<C>(s, b), plus::<C>(smul::<C>(s, b), smul::<C>(d, b))) == smul::<C>(
            d + 2 * s,
            b,
        ),
{
    lemma_smul_add::<C>(s, d, b);
    lemma_smul_add::<C>(s, s + d, b);
    assert(s + (s + d) == d + 2 * s);
}

/// The coordinates that stand for a point: zeros for the neutral element.
pub(crate) open spec fn as_coordinates(a: Pt) -> Pt {
    match a {
        Pt::Infinity => Pt::At { x: 0, y: 0 },
        Pt::At { .. } => a,
    }
}

/// One step of the ladder by the affine formulas, which doubles an accumulator and adds the
/// multiple of a nonzero digit; `None` if a denominator is zero.
pub(crate) open spec fn ladder_step<C: Group>(table: Table<C>, code: int, a: Pt) -> Option<Pt> {
    if code == 0 {
        if a matches Pt::At { y, .. } && y != 0 {
            Some(plus::<C>(a, a))
        } else {
            None
        }
    } else {
        let d = as_coordinates(table.entry(code));
        let sum = plus::<C>(a, d);
        if are_apart(a, d) && are_apart(a, sum) {
            Some(plus::<C>(a, sum))
        } else {
            None
        }
    }
}

/// The accumulator of the ladder after the digits from `i` on; `None` if a denominator was zero.
pub(crate) open spec fn accumulator<C: Group>(
    table: Table<C>,
    digits: Seq<u8>,
    i: int,
) -> Option<Pt>
    decreases digits.len() - i,
{
    if i >= digits.len() - 1 {
        Some(as_coordinates(table.entry(digits.last() as int)))
    } else {
        match accumulator(table, digits, i + 1) {
            Some(a) => ladder_step(table, digits[i] as int, a),
            None => None,
        }
    }
}

/// The digits of a nonzero scalar.
pub(crate) open spec fn is_recoded(digits: Seq<u8>) -> bool {
    &&& digits.len() > 0
    &&& digits.last() != 0
    &&& forall|i: int| 0 <= i < digits.len() ==> #[trigger] digits[i] <= 48
}

/// Points of the curve with the same first coordinate are equal or opposite.
proof fn lemma_same_first<C: Group>(a: Pt, b: Pt)
    requires
        on_curve::<C>(a),
        on_curve::<C>(b),
        a != Pt::Infinity,
        b != Pt::Infinity,
        !are_apart(a, b),
    ensures
        b == a || b == minus::<C>(a),
{
    reveal(ec_add);
    if b != a {
        if plus::<C>(a, b) == Pt::Infinity {
            lemma_opposite::<C>(a, b);
        }
    }
}

/// Multiples of a point other than the neutral one have the same first coordinate exactly if
/// the scalars are equal or opposite.
proof fn lemma_apart<C: Group>(j: int, k: int, b: Pt)
    requires
        on_curve::<C>(b),
        b != Pt::Infinity,
        smul::<C>(j, b) != Pt::Infinity,
        smul::<C>(k, b) != Pt::Infinity,
    ensures
        are_apart(smul::<C>(j, b), smul::<C>(k, b)) <==> !congruent(k, j, order::<C>())
            && !congruent(k, -j, order::<C>()),
{
    lemma_smul_closed::<C>(j, b);
    lemma_smul_closed::<C>(k, b);
    lemma_smul_neg::<C>(j, b);
    if !are_apart(smul::<C>(j, b), smul::<C>(k, b)) {
        lemma_same_first::<C>(smul::<C>(j, b), smul::<C>(k, b));
        if smul::<C>(k, b) == smul::<C>(j, b) {
            lemma_smul_injective::<C>(k, j, b);
        } else {
            lemma_smul_injective::<C>(k, -j, b);
        }
    }
    if congruent(k, j, order::<C>()) {
        lemma_smul_congruent::<C>(k, j, b);
    }
    if congruent(k, -j, order::<C>()) {
        lemma_smul_congruent::<C>(k, -j, b);
    }
}

/// A step of the ladder on a multiple of the table's point: it always doubles, and adds the
/// multiple of a nonzero digit exactly if the schedule is safe there.
proof fn lemma_ladder_step<C: Group>(table: Table<C>, code: int, s: int)
    requires
        table.holds(),
        is_live(table),
        0 <= code <= 48,
        smul::<C>(s, table.base()) != Pt::Infinity,
    ensures
        ladder_step(table, code, smul::<C>(s, table.base())) is Some <==> code != 0
            ==> is_column_safe(s, digit_of::<C>(code), order::<C>()),
        ladder_step(table, code, smul::<C>(s, table.base())) matches Some(c) ==> c != Pt::Infinity
            && c == smul::<C>(digit_of::<C>(code) + 2 * s, table.base()),
{
    <C::Scalar as Modulus>::lemma_modulus();
    <C::Base as Modulus>::lemma_modulus();
    let (b, n, d) = (table.base(), order::<C>(), digit_of::<C>(code));
    let a = smul::<C>(s, b);
    lemma_smul_closed::<C>(s, b);
    lemma_smul_small::<C>(b);
    lemma_small_mod(0, n as nat);
    lemma_small_mod(2, n as nat);
    if congruent(s, 0, n) {
        lemma_smul_congruent::<C>(s, 0, b);
    }
    if code == 0 {
        lemma_zero_digit();
        assert(0 * <C::Scalar as Modulus>::cube_root() == 0);
        lemma_smul_add::<C>(s, s, b);
        assert(plus::<C>(a, a) == smul::<C>(2 * s, b));
        reveal(ec_add);
        if plus::<C>(a, a) == Pt::Infinity {
            lemma_smul_injective::<C>(2 * s, 0, b);
            lemma_product::<C::Scalar>(2, s);
        }
    } else {
        table.lemma_entries(code);
        lemma_digit_finite(table, code);
        let e = smul::<C>(d, b);
        lemma_apart::<C>(s, d, b);
        lemma_smul_add::<C>(s, d, b);
        lemma_fused::<C>(s, d, b);
        reveal(ec_add);
        if are_apart(a, e) {
            let sum = plus::<C>(a, e);
            lemma_apart::<C>(s, s + d, b);
            lemma_digit_nonzero::<C>(code);
            lemma_congruent_difference(s + d, s, n);
            lemma_congruent_difference(s + d, -s, n);
            lemma_congruent_difference(d, -2 * s, n);
            assert(s + d - (-s) == d - (-2 * s));
        }
    }
}

/// The ladder on the table of a point other than the neutral one gives multiples of the point,
/// and runs through exactly if the schedule is safe.
pub(crate) proof fn lemma_ladder<C: Group>(table: Table<C>, digits: Seq<u8>, i: int)
    requires
        table.holds(),
        is_live(table),
        is_recoded(digits),
        0 <= i < digits.len(),
    ensures
        accumulator(table, digits, i) matches Some(a) ==> a != Pt::Infinity && a == smul::<C>(
            suffix_of::<C>(digits, i),
            table.base(),
        ),
        accumulator(table, digits, i) is Some <==> forall|k: int|
            i <= k < digits.len() - 1 && #[trigger] digits[k] != 0 ==> is_column_safe(
                suffix_of::<C>(digits, k + 1),
                digit_of::<C>(digits[k] as int),
                order::<C>(),
            ),
    decreases digits.len() - i,
{
    lemma_suffix::<C>(digits, i);
    if i == digits.len() - 1 {
        lemma_suffix_end::<C>(digits);
        table.lemma_entries(digits[i] as int);
        lemma_digit_finite(table, digits[i] as int);
    } else {
        lemma_ladder(table, digits, i + 1);
        if accumulator(table, digits, i + 1) is Some {
            lemma_ladder_step(table, digits[i] as int, suffix_of::<C>(digits, i + 1));
        }
    }
}

/// A ladder that has stopped does not go on.
pub(crate) proof fn lemma_stopped<C: Group>(table: Table<C>, digits: Seq<u8>, i: int)
    requires
        0 <= i < digits.len(),
        accumulator(table, digits, i) is None,
    ensures
        accumulator(table, digits, 0) is None,
    decreases i,
{
    if i > 0 {
        lemma_stopped(table, digits, i - 1);
    }
}

/// Twice a residue is zero only for zero.
pub(crate) proof fn lemma_twice<M: Modulus>(y: Fe<M>)
    ensures
        (2 * y@) % M::p() == 0 <==> y@ == 0,
{
    M::lemma_modulus();
    y.lemma_view();
    lemma_product::<M>(2, y@);
    lemma_small_mod(2, M::p() as nat);
    lemma_small_mod(y@ as nat, M::p() as nat);
}

/// A residue with an inverse is not zero.
pub(crate) proof fn lemma_inverse_nonzero<M: Modulus>(a: int, w: int)
    requires
        is_inverse(a, w, M::p()),
    ensures
        a % M::p() != 0,
{
    M::lemma_modulus();
    lemma_product::<M>(a, w);
}

/// The point of a lane.
pub(crate) open spec fn lane_of<M: Modulus>(xs: Seq<Fe<M>>, ys: Seq<Fe<M>>, t: int) -> Pt {
    Pt::At { x: xs[t]@, y: ys[t]@ }
}

/// Doubles every accumulator; `false` if some second coordinate is zero.
fn double_column<C: Group>(
    tables: &Vec<&Table<C>>,
    scalar: &Decomposed<C>,
    i: usize,
    xs: &mut Vec<Fe<C::Base>>,
    ys: &mut Vec<Fe<C::Base>>,
    den: &mut Vec<Fe<C::Base>>,
    scratch: &mut Vec<Fe<C::Base>>,
) -> (r: bool)
    requires
        i < scalar.digits().len(),
        scalar.digits()[i as int] == 0,
        old(xs)@.len() == tables@.len(),
        old(ys)@.len() == tables@.len(),
        old(den)@.len() == tables@.len(),
        old(scratch)@.len() == tables@.len(),
    ensures
        final(xs)@.len() == tables@.len(),
        final(ys)@.len() == tables@.len(),
        final(den)@.len() == tables@.len(),
        final(scratch)@.len() == tables@.len(),
        r <==> forall|t: int| 0 <= t < tables@.len() ==> (#[trigger] old(ys)@[t])@ != 0,
        r ==> forall|t: int|
            #![trigger tables@[t]]
            0 <= t < tables@.len() ==> ladder_step(*tables@[t], 0, lane_of(old(xs)@, old(ys)@, t))
                == Some(lane_of(final(xs)@, final(ys)@, t)),
        !r ==> final(xs)@ == old(xs)@ && final(ys)@ == old(ys)@,
{
    let n = tables.len();
    let ghost p = <C::Base as Modulus>::p();
    let ghost (xs0, ys0) = (xs@, ys@);
    let mut t: usize = 0;
    while t < n
        invariant
            t <= n,
            n == ys@.len(),
            n == den@.len(),
            p == <C::Base as Modulus>::p(),
            forall|j: int| 0 <= j < t ==> (#[trigger] den@[j])@ == (2 * ys@[j]@) % p,
        decreases n - t,
    {
        den.set(t, ys[t].double());
        t += 1;
    }
    let ghost den0 = den@;
    proof {
        assert forall|j: int| 0 <= j < n implies ((#[trigger] den0[j])@ == 0 <==> ys0[j]@ == 0) by {
            lemma_twice(ys0[j]);
        }
    }
    if !batch_invert_nonzero(den, scratch) {
        return false;
    }
    let mut t: usize = 0;
    while t < n
        invariant
            t <= n,
            n == xs@.len(),
            n == ys@.len(),
            n == den@.len(),
            n == xs0.len(),
            n == ys0.len(),
            n == den0.len(),
            p == <C::Base as Modulus>::p(),
            forall|j: int| 0 <= j < n ==> (#[trigger] den0[j])@ == (2 * ys0[j]@) % p,
            forall|j: int| 0 <= j < n ==> is_inverse(den0[j]@, (#[trigger] den@[j])@, p),
            forall|j: int| t <= j < n ==> #[trigger] xs@[j] == xs0[j],
            forall|j: int| t <= j < n ==> #[trigger] ys@[j] == ys0[j],
            forall|j: int|
                0 <= j < t ==> lane_of(xs@, ys@, j) == plus::<C>(
                    #[trigger] lane_of(xs0, ys0, j),
                    lane_of(xs0, ys0, j),
                ),
        decreases n - t,
    {
        assert(den0[t as int]@ == (2 * ys0[t as int]@) % p);
        assert(xs@[t as int] == xs0[t as int] && ys@[t as int] == ys0[t as int]);
        let (x, y) = affine_double::<C>(xs[t], ys[t], den[t]);
        xs.set(t, x);
        ys.set(t, y);
        t += 1;
    }
    proof {
        assert forall|j: int| #![trigger tables@[j]] 0 <= j < n implies ladder_step(
            *tables@[j],
            0,
            lane_of(xs0, ys0, j),
        ) == Some(lane_of(xs@, ys@, j)) by {
            assert(den0[j]@ != 0);
        }
        assert forall|j: int| 0 <= j < n implies (#[trigger] ys0[j])@ != 0 by {
            assert(den0[j]@ != 0);
        }
    }
    true
}

/// Doubles every accumulator and adds a digit's multiple; `false` if a denominator is zero.
fn digit_column<C: Group>(
    tables: &Vec<&Table<C>>,
    scalar: &Decomposed<C>,
    i: usize,
    xs: &mut Vec<Fe<C::Base>>,
    ys: &mut Vec<Fe<C::Base>>,
    den: &mut Vec<Fe<C::Base>>,
    scratch: &mut Vec<Fe<C::Base>>,
) -> (r: bool)
    requires
        i < scalar.digits().len(),
        1 <= scalar.digits()[i as int] <= 48,
        old(xs)@.len() == tables@.len(),
        old(ys)@.len() == tables@.len(),
        old(den)@.len() == tables@.len(),
        old(scratch)@.len() == tables@.len(),
    ensures
        final(xs)@.len() == tables@.len(),
        final(ys)@.len() == tables@.len(),
        final(den)@.len() == tables@.len(),
        final(scratch)@.len() == tables@.len(),
        r <==> forall|t: int|
            #![trigger tables@[t]]
            0 <= t < tables@.len() ==> ladder_step(
                *tables@[t],
                scalar.digits()[i as int] as int,
                lane_of(old(xs)@, old(ys)@, t),
            ) is Some,
        r ==> forall|t: int|
            #![trigger tables@[t]]
            0 <= t < tables@.len() ==> ladder_step(
                *tables@[t],
                scalar.digits()[i as int] as int,
                lane_of(old(xs)@, old(ys)@, t),
            ) == Some(lane_of(final(xs)@, final(ys)@, t)),
        !r ==> final(xs)@ == old(xs)@ && final(ys)@ == old(ys)@,
{
    let code = scalar.digit(i);
    let n = tables.len();
    let ghost p = <C::Base as Modulus>::p();
    let ghost (xs0, ys0) = (xs@, ys@);
    let mut us: Vec<(Fe<C::Base>, Fe<C::Base>)> = Vec::new();
    let mut t: usize = 0;
    while t < n
        invariant
            t <= n,
            n == tables@.len(),
            n == xs@.len(),
            n == den@.len(),
            1 <= code <= 48,
            p == <C::Base as Modulus>::p(),
            us@.len() == t,
            forall|j: int| 0 <= j < t ==> (#[trigger] den@[j])@ == (us@[j].0@ - xs@[j]@) % p,
            forall|j: int|
                0 <= j < t ==> is_digit_of(*tables@[j], code as int, #[trigger] us@[j]),
        decreases n - t,
    {
        let (u, v) = tables[t].digit_coords(code);
        den.set(t, u.sub(xs[t]));
        us.push((u, v));
        t += 1;
    }
    let ghost den0 = den@;
    proof {
        assert forall|j: int| 0 <= j < n implies ((#[trigger] den0[j])@ == 0 <==> us@[j].0@
            == xs0[j]@) by {
            lemma_apart_residues(us@[j].0, xs0[j]);
        }
    }
    if !batch_invert_nonzero(den, scratch) {
        proof {
            let j = choose|j: int| 0 <= j < n && (#[trigger] den0[j])@ == 0;
            lemma_digit_coordinates(*tables@[j], code as int, us@[j]);
            assert(ladder_step(*tables@[j], code as int, lane_of(xs0, ys0, j)) is None);
        }
        return false;
    }
    // The slopes of the chords and the first coordinates of the sums.
    let mut chords: Vec<(Fe<C::Base>, Fe<C::Base>)> = Vec::new();
    let mut t: usize = 0;
    while t < n
        invariant
            t <= n,
            n == xs@.len(),
            n == ys@.len(),
            n == den@.len(),
            n == den0.len(),
            n == us@.len(),
            p == <C::Base as Modulus>::p(),
            chords@.len() == t,
            forall|j: int| 0 <= j < n ==> (#[trigger] den0[j])@ == (us@[j].0@ - xs@[j]@) % p,
            forall|j: int| 0 <= j < n ==> is_inverse(den0[j]@, (#[trigger] den@[j])@, p),
            forall|j: int|
                0 <= j < t ==> is_chord::<C>(xs@[j]@, ys@[j]@, us@[j], #[trigger] chords@[j]),
        decreases n - t,
    {
        assert(den0[t as int]@ == (us@[t as int].0@ - xs@[t as int]@) % p);
        let (u, v) = us[t];
        let (s, x1) = affine_chord::<C>(xs[t], ys[t], u, v, den[t]);
        chords.push((s, x1));
        t += 1;
    }
    let mut t: usize = 0;
    while t < n
        invariant
            t <= n,
            n == xs@.len(),
            n == den@.len(),
            n == chords@.len(),
            p == <C::Base as Modulus>::p(),
            forall|j: int| 0 <= j < t ==> (#[trigger] den@[j])@ == (chords@[j].1@ - xs@[j]@) % p,
        decreases n - t,
    {
        let (s, x1) = chords[t];
        den.set(t, x1.sub(xs[t]));
        t += 1;
    }
    let ghost den1 = den@;
    proof {
        assert forall|j: int| 0 <= j < n implies ((#[trigger] den1[j])@ == 0 <==> chords@[j].1@
            == xs0[j]@) by {
            lemma_apart_residues(chords@[j].1, xs0[j]);
        }
    }
    if !batch_invert_nonzero(den, scratch) {
        proof {
            let j = choose|j: int| 0 <= j < n && (#[trigger] den1[j])@ == 0;
            lemma_digit_coordinates(*tables@[j], code as int, us@[j]);
            assert(is_chord::<C>(xs0[j]@, ys0[j]@, us@[j], chords@[j]));
            assert(ladder_step(*tables@[j], code as int, lane_of(xs0, ys0, j)) is None);
        }
        return false;
    }
    let mut t: usize = 0;
    while t < n
        invariant
            t <= n,
            n == xs@.len(),
            n == ys@.len(),
            n == den@.len(),
            n == den1.len(),
            n == xs0.len(),
            n == ys0.len(),
            n == us@.len(),
            n == chords@.len(),
            p == <C::Base as Modulus>::p(),
            forall|j: int| 0 <= j < n ==> (#[trigger] den1[j])@ == (chords@[j].1@ - xs0[j]@) % p,
            forall|j: int| 0 <= j < n ==> is_inverse(den1[j]@, (#[trigger] den@[j])@, p),
            forall|j: int|
                0 <= j < n ==> is_chord::<C>(xs0[j]@, ys0[j]@, us@[j], #[trigger] chords@[j]),
            forall|j: int| t <= j < n ==> #[trigger] xs@[j] == xs0[j],
            forall|j: int| t <= j < n ==> #[trigger] ys@[j] == ys0[j],
            forall|j: int|
                0 <= j < t ==> lane_of(xs@, ys@, j) == plus::<C>(
                    #[trigger] lane_of(xs0, ys0, j),
                    plus::<C>(
                        lane_of(xs0, ys0, j),
                        Pt::At { x: us@[j].0@, y: us@[j].1@ },
                    ),
                ),
        decreases n - t,
    {
        proof {
            assert(den1[t as int]@ == (chords@[t as int].1@ - xs0[t as int]@) % p);
            assert(xs@[t as int] == xs0[t as int] && ys@[t as int] == ys0[t as int]);
            assert(is_chord::<C>(
                xs0[t as int]@,
                ys0[t as int]@,
                us@[t as int],
                chords@[t as int],
            ));
        }
        let (s, x1) = chords[t];
        let (x, y) = affine_fused::<C>(
            xs[t],
            ys[t],
            s,
            x1,
            den[t],
            Ghost((us@[t as int].0@, us@[t as int].1@)),
        );
        xs.set(t, x);
        ys.set(t, y);
        t += 1;
    }
    proof {
        assert forall|j: int| #![trigger tables@[j]] 0 <= j < n implies ladder_step(
            *tables@[j],
            code as int,
            lane_of(xs0, ys0, j),
        ) == Some(lane_of(xs@, ys@, j)) by {
            lemma_digit_coordinates(*tables@[j], code as int, us@[j]);
            assert(is_chord::<C>(xs0[j]@, ys0[j]@, us@[j], chords@[j]));
            assert(den1[j]@ != 0);
        }
    }
    true
}

/// The coordinates of a digit's multiple.
pub(crate) open spec fn is_digit_of<C: Group>(
    table: Table<C>,
    code: int,
    u: (Fe<C::Base>, Fe<C::Base>),
) -> bool {
    affine_point(u.0@, u.1@) == table.entry(code)
}

/// The coordinates of a digit's multiple stand for the entry.
pub(crate) proof fn lemma_digit_coordinates<C: Group>(
    table: Table<C>,
    code: int,
    u: (Fe<C::Base>, Fe<C::Base>),
)
    requires
        is_digit_of(table, code, u),
    ensures
        as_coordinates(table.entry(code)) == (Pt::At { x: u.0@, y: u.1@ }),
{
}

/// The slope of the chord through two points and the first coordinate of their sum.
pub(crate) open spec fn is_chord<C: Group>(
    x: int,
    y: int,
    u: (Fe<C::Base>, Fe<C::Base>),
    c: (Fe<C::Base>, Fe<C::Base>),
) -> bool {
    &&& u.0@ != x
    &&& c.0@ == quotient(u.1@ - y, u.0@ - x, <C::Base as Modulus>::p())
    &&& plus::<C>(Pt::At { x, y }, Pt::At { x: u.0@, y: u.1@ }) matches Pt::At { x: sx, .. } && sx
        == c.1@
}

/// The multiples of the tables' points by one scalar, on affine accumulators; `None` if a
/// denominator is zero. No denominator is zero if no point is the neutral element and the
/// schedule is safe.
fn batch_affine_ladder<C: Group>(tables: &Vec<&Table<C>>, k: &Decomposed<C>) -> (r: Option<
    Vec<Affine<C>>,
>)
    requires
        k.digits().len() > 0,
    ensures
        r is Some <==> forall|t: int|
            0 <= t < tables@.len() ==> accumulator(*#[trigger] tables@[t], k.digits(), 0) is Some,
        tables@.len() > 0 && (forall|t: int|
            0 <= t < tables@.len() ==> is_live(*#[trigger] tables@[t])) ==> (r is Some
            <==> is_schedule_safe::<C>(k.digits())),
        r matches Some(points) ==> points@.len() == tables@.len() && forall|t: int|
            0 <= t < tables@.len() && is_live(*#[trigger] tables@[t]) ==> points@[t]@ == smul::<C>(
                k.value(),
                tables@[t].base(),
            ),
{
    let n = tables.len();
    let len = k.len();
    let top = k.digit(len - 1);
    let mut xs: Vec<Fe<C::Base>> = Vec::new();
    let mut ys: Vec<Fe<C::Base>> = Vec::new();
    let mut den: Vec<Fe<C::Base>> = Vec::new();
    let mut scratch: Vec<Fe<C::Base>> = Vec::new();
    let mut t: usize = 0;
    while t < n
        invariant
            t <= n,
            n == tables@.len(),
            len == k.digits().len(),
            len > 0,
            top == k.digits()[len - 1],
            1 <= top <= 48,
            xs@.len() == t,
            ys@.len() == t,
            den@.len() == t,
            scratch@.len() == t,
            forall|j: int| 0 <= j < t ==> (#[trigger] tables@[j]).holds(),
            forall|j: int|
                #![trigger tables@[j]]
                0 <= j < t ==> accumulator(*tables@[j], k.digits(), len - 1) == Some(
                    lane_of(xs@, ys@, j),
                ),
        decreases n - t,
    {
        let table = tables[t];
        let (x, y) = table.digit_coords(top);
        proof {
            use_type_invariant(table);
            lemma_digit_coordinates(*table, top as int, (x, y));
        }
        xs.push(x);
        ys.push(y);
        den.push(Fe::zero());
        scratch.push(Fe::zero());
        t += 1;
    }
    proof {
        assert forall|j: int| 0 <= j < n && is_live(*#[trigger] tables@[j]) implies (accumulator(
            *tables@[j],
            k.digits(),
            0,
        ) is Some <==> is_schedule_safe::<C>(k.digits())) by {
            lemma_ladder(*tables@[j], k.digits(), 0);
        }
    }
    let mut i: usize = len - 1;
    while i > 0
        invariant
            i < len,
            len == k.digits().len(),
            n == tables@.len(),
            xs@.len() == n,
            ys@.len() == n,
            den@.len() == n,
            scratch@.len() == n,
            forall|j: int|
                0 <= j < n && is_live(*#[trigger] tables@[j]) ==> (accumulator(
                    *tables@[j],
                    k.digits(),
                    0,
                ) is Some <==> is_schedule_safe::<C>(k.digits())),
            forall|j: int|
                #![trigger tables@[j]]
                0 <= j < n ==> accumulator(*tables@[j], k.digits(), i as int) == Some(
                    lane_of(xs@, ys@, j),
                ),
        decreases i,
    {
        let ghost (xs0, ys0) = (xs@, ys@);
        i -= 1;
        let code = k.digit(i);
        let ok = if code == 0 {
            double_column(tables, k, i, &mut xs, &mut ys, &mut den, &mut scratch)
        } else {
            digit_column(tables, k, i, &mut xs, &mut ys, &mut den, &mut scratch)
        };
        if !ok {
            proof {
                let j = if code == 0 {
                    choose|j: int| 0 <= j < n && (#[trigger] ys0[j])@ == 0
                } else {
                    choose|j: int|
                        #![trigger tables@[j]]
                        0 <= j < n && ladder_step(*tables@[j], code as int, lane_of(xs0, ys0, j))
                            is None
                };
                assert(accumulator(*tables@[j], k.digits(), i + 1) == Some(lane_of(xs0, ys0, j)));
                lemma_stopped(*tables@[j], k.digits(), i as int);
            }
            return None;
        }
        proof {
            assert forall|j: int| #![trigger tables@[j]] 0 <= j < n implies accumulator(
                *tables@[j],
                k.digits(),
                i as int,
            ) == Some(lane_of(xs@, ys@, j)) by {
                assert(accumulator(*tables@[j], k.digits(), i + 1) == Some(lane_of(xs0, ys0, j)));
            }
        }
    }
    proof {
        lemma_suffix_end::<C>(k.digits());
    }
    let mut points: Vec<Affine<C>> = Vec::new();
    let mut t: usize = 0;
    while t < n
        invariant
            t <= n,
            n == tables@.len(),
            xs@.len() == n,
            ys@.len() == n,
            is_recoded(k.digits()),
            forall|j: int| 0 <= j < n ==> (#[trigger] tables@[j]).holds(),
            forall|j: int|
                #![trigger tables@[j]]
                0 <= j < n ==> accumulator(*tables@[j], k.digits(), 0) == Some(
                    lane_of(xs@, ys@, j),
                ),
            suffix_of::<C>(k.digits(), 0) == k.value(),
            points@.len() == t,
            forall|j: int|
                0 <= j < t && is_live(*#[trigger] tables@[j]) ==> points@[j]@ == smul::<C>(
                    k.value(),
                    tables@[j].base(),
                ),
        decreases n - t,
    {
        let a = Affine { x: xs[t], y: ys[t] };
        proof {
            if is_live(*tables@[t as int]) {
                let s = smul::<C>(k.value(), tables@[t as int].base());
                lemma_ladder(*tables@[t as int], k.digits(), 0);
                lemma_smul_closed::<C>(k.value(), tables@[t as int].base());
                lemma_affine_of::<C>(a, s);
            }
        }
        points.push(a);
        t += 1;
    }
    proof {
        if n > 0 {
            assert(accumulator(*tables@[0], k.digits(), 0) is Some);
        }
    }
    Some(points)
}

impl<C: Group> Table<C> {
    /// The multiples of the tables' points by one scalar.
    pub fn mul_decomposed_batch(tables: &Vec<&Self>, k: &Decomposed<C>) -> (r: Vec<Point<C>>)
        ensures
            r@.len() == tables@.len(),
            forall|t: int|
                0 <= t < tables@.len() && on_curve::<C>(
                    (#[trigger] tables@[t]).base(),
                ) ==> r@[t]@ == smul::<C>(k.value(), tables@[t].base()),
    {
        let n = tables.len();
        let mut live: Vec<&Self> = Vec::new();
        let mut at: Vec<usize> = Vec::new();
        let mut t: usize = 0;
        while t < n
            invariant
                t <= n,
                n == tables@.len(),
                at@.len() == t,
                live@.len() <= t,
                forall|j: int|
                    #![trigger at@[j]]
                    0 <= j < t ==> if at@[j] == usize::MAX {
                        on_curve::<C>(tables@[j].base())
                            ==> tables@[j].base() == Pt::Infinity
                    } else {
                        &&& at@[j] < live@.len()
                        &&& live@[at@[j] as int] == tables@[j]
                        &&& on_curve::<C>(tables@[j].base())
                            ==> tables@[j].base() != Pt::Infinity
                    },
            decreases n - t,
        {
            if tables[t].is_identity() {
                at.push(usize::MAX);
            } else {
                at.push(live.len());
                live.push(tables[t]);
            }
            t += 1;
        }
        let mut r: Vec<Point<C>> = Vec::new();
        if k.len() > 0 && live.len() >= BATCH_AFFINE_MIN_POINTS && k.safe() {
            if let Some(products) = batch_affine_ladder(&live, k) {
                let mut t: usize = 0;
                while t < n
                    invariant
                        t <= n,
                        n == tables@.len(),
                        n == at@.len(),
                        products@.len() == live@.len(),
                        forall|j: int|
                            0 <= j < live@.len() && is_live(*#[trigger] live@[j])
                                ==> products@[j]@ == smul::<C>(k.value(), live@[j].base()),
                        forall|j: int|
                            #![trigger at@[j]]
                            0 <= j < n ==> if at@[j] == usize::MAX {
                                on_curve::<C>(tables@[j].base())
                                    ==> tables@[j].base() == Pt::Infinity
                            } else {
                                &&& at@[j] < live@.len()
                                &&& live@[at@[j] as int] == tables@[j]
                                &&& on_curve::<C>(tables@[j].base())
                                    ==> tables@[j].base() != Pt::Infinity
                            },
                        r@.len() == t,
                        forall|j: int|
                            0 <= j < t && on_curve::<C>(
                                (#[trigger] tables@[j]).base(),
                            ) ==> r@[j]@ == smul::<C>(k.value(), tables@[j].base()),
                    decreases n - t,
                {
                    let a = at[t];
                    if a == usize::MAX {
                        proof {
                            lemma_smul_infinity::<C>(k.value());
                        }
                        r.push(Point::identity());
                    } else {
                        r.push(Point::from_affine(products[a]));
                    }
                    t += 1;
                }
                return r;
            }
        }
        let mut t: usize = 0;
        while t < n
            invariant
                t <= n,
                n == tables@.len(),
                r@.len() == t,
                forall|j: int|
                    0 <= j < t && on_curve::<C>((#[trigger] tables@[j]).base())
                        ==> r@[j]@ == smul::<C>(k.value(), tables@[j].base()),
            decreases n - t,
        {
            r.push(tables[t].mul_decomposed(k));
            t += 1;
        }
        r
    }

    /// The affine multiples of points by one scalar.
    pub fn mul_decomposed_same_scalar_affine(points: &Vec<Point<C>>, scalar: &Decomposed<C>) -> (r:
        Vec<Affine<C>>)
        requires
            points@.len() * 8 <= usize::MAX,
        ensures
            r@.len() == points@.len(),
            forall|t: int|
                0 <= t < points@.len() && on_curve::<C>((#[trigger] points@[t])@)
                    ==> r@[t]@ == smul::<C>(scalar.value(), points@[t]@),
    {
        let n = points.len();
        let tables = Self::batch(points);
        let (refs, all_live) = live_tables(&tables);
        if n >= BATCH_AFFINE_MIN_POINTS && all_live && scalar.len() > 0 && scalar.safe() {
            if let Some(products) = batch_affine_ladder(&refs, scalar) {
                proof {
                    assert forall|t: int|
                        0 <= t < points@.len() && on_curve::<C>(
                            (#[trigger] points@[t])@,
                        ) implies products@[t]@ == smul::<C>(scalar.value(), points@[t]@) by {
                        assert(tables@[t].base() == points@[t]@);
                        assert(refs@[t] == tables@[t]);
                        assert(is_live(*refs@[t]));
                    }
                }
                return products;
            }
        }
        let mut projective: Vec<Point<C>> = Vec::new();
        let mut t: usize = 0;
        while t < n
            invariant
                t <= n,
                n == tables@.len(),
                n == points@.len(),
                forall|j: int| 0 <= j < n ==> (#[trigger] tables@[j]).base() == points@[j]@,
                projective@.len() == t,
                forall|j: int|
                    0 <= j < t && on_curve::<C>((#[trigger] points@[j])@)
                        ==> projective@[j]@ == smul::<C>(scalar.value(), points@[j]@),
            decreases n - t,
        {
            assert(tables@[t as int].base() == points@[t as int]@);
            projective.push(tables[t].mul_decomposed(scalar));
            t += 1;
        }
        let r = batch_normalize(&projective);
        proof {
            assert forall|t: int|
                0 <= t < points@.len() && on_curve::<C>((#[trigger] points@[t])@)
                    implies r@[t]@ == smul::<C>(scalar.value(), points@[t]@) by {
                lemma_smul_closed::<C>(scalar.value(), points@[t]@);
                assert(is_affine_of(r@[t], projective@[t]@));
                lemma_affine_of::<C>(r@[t], projective@[t]@);
            }
        }
        r
    }
}

/// References to all tables, and whether none belongs to the neutral element.
pub(crate) fn live_tables<'a, C: Group>(tables: &'a Vec<Table<C>>) -> (r: (Vec<&'a Table<C>>, bool))
    ensures
        r.0@.len() == tables@.len(),
        forall|t: int| 0 <= t < tables@.len() ==> *#[trigger] r.0@[t] == tables@[t],
        r.1 ==> forall|t: int|
            0 <= t < tables@.len() && on_curve::<C>(
                (#[trigger] tables@[t]).base(),
            ) ==> is_live(tables@[t]),
{
    let mut refs: Vec<&Table<C>> = Vec::new();
    let mut all_live = true;
    let mut t: usize = 0;
    while t < tables.len()
        invariant
            t <= tables@.len(),
            refs@.len() == t,
            forall|j: int| 0 <= j < t ==> *#[trigger] refs@[j] == tables@[j],
            all_live ==> forall|j: int|
                0 <= j < t && on_curve::<C>((#[trigger] tables@[j]).base())
                    ==> is_live(tables@[j]),
        decreases tables@.len() - t,
    {
        if tables[t].is_identity() {
            all_live = false;
        }
        refs.push(&tables[t]);
        t += 1;
    }
    (refs, all_live)
}

} // verus!

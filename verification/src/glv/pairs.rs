//! The affine ladder for points with different scalars.
use crate::curve::affine::Affine;
use crate::curve::batch::{
    affine_chord, affine_double, affine_fused, batch_invert_nonzero, batch_normalize, is_affine_of,
    lemma_affine_of, lemma_apart_residues,
};
use crate::curve::law::{lemma_smul_closed, on_curve, plus, smul, Pt};
use crate::curve::point::Point;
use crate::curve::Group;
use crate::field::primes::is_inverse;
use crate::field::{Fe, Modulus};
use crate::glv::ladder::{
    accumulator, as_coordinates, is_chord, is_digit_of, is_live, is_recoded, ladder_step, lane_of,
    lemma_digit_coordinates, lemma_inverse_nonzero, lemma_ladder, lemma_stopped, lemma_twice,
    live_tables, BATCH_AFFINE_MIN_POINTS,
};
use crate::glv::scalar::{is_schedule_safe, lemma_suffix_end, Decomposed};
use crate::glv::table::Table;
use vstd::prelude::*;

verus! {

/// Every point has a scalar.
pub open spec fn are_paired<C: Group>(
    count: nat,
    scalars: Seq<Decomposed<C>>,
    which: Seq<usize>,
) -> bool {
    which.len() == count && forall|t: int| 0 <= t < count ==> #[trigger] which[t] < scalars.len()
}

/// What a lane does at a position.
#[derive(Clone, Copy)]
enum Step<C: Group> {
    /// The scalar has no digit here.
    Wait,
    /// The highest digit: the accumulator becomes the digit's multiple.
    Start(Fe<C::Base>, Fe<C::Base>),
    /// A zero digit: the accumulator is doubled.
    Double,
    /// A nonzero digit: the accumulator is doubled and the digit's multiple is added.
    Digit(Fe<C::Base>, Fe<C::Base>),
}

/// The step of a lane, for the digit at a position.
spec fn is_step<C: Group>(
    step: Step<C>,
    table: Table<C>,
    scalar: Decomposed<C>,
    pos: int,
) -> bool {
    let digits = scalar.digits();
    match step {
        Step::Wait => pos >= digits.len(),
        Step::Start(u, v) => pos == digits.len() - 1 && 1 <= digits[pos] <= 48 && is_digit_of(
            table,
            digits[pos] as int,
            (u, v),
        ),
        Step::Double => pos < digits.len() - 1 && digits[pos] == 0,
        Step::Digit(u, v) => pos < digits.len() - 1 && 1 <= digits[pos] <= 48 && is_digit_of(
            table,
            digits[pos] as int,
            (u, v),
        ),
    }
}

/// The first denominator of a step.
spec fn first_denominator<C: Group>(step: Step<C>, x: int, y: int) -> int {
    let p = <C::Base as Modulus>::p();
    match step {
        Step::Double => (2 * y) % p,
        Step::Digit(u, v) => (u@ - x) % p,
        _ => 1,
    }
}

fn choose_step<C: Group>(table: &Table<C>, scalar: &Decomposed<C>, pos: usize) -> (r: Step<C>)
    ensures
        is_step(r, *table, *scalar, pos as int),
{
    let len = scalar.len();
    if pos >= len {
        return Step::Wait;
    }
    let code = scalar.digit(pos);
    if pos == len - 1 {
        let (u, v) = table.digit_coords(code);
        Step::Start(u, v)
    } else if code == 0 {
        Step::Double
    } else {
        let (u, v) = table.digit_coords(code);
        Step::Digit(u, v)
    }
}

/// The next accumulator of a lane: it waits for the highest digit, starts there, and takes a step
/// of the ladder at every later digit; `None` if a denominator is zero.
spec fn lane_step<C: Group>(table: Table<C>, digits: Seq<u8>, pos: int, a: Pt) -> Option<Pt> {
    if pos >= digits.len() {
        Some(a)
    } else if pos == digits.len() - 1 {
        Some(as_coordinates(table.entry(digits[pos] as int)))
    } else {
        ladder_step(table, digits[pos] as int, a)
    }
}

/// The next accumulator of the lane `t`.
spec fn next_of<C: Group>(
    tables: Seq<&Table<C>>,
    scalars: Seq<Decomposed<C>>,
    which: Seq<usize>,
    pos: int,
    xs: Seq<Fe<C::Base>>,
    ys: Seq<Fe<C::Base>>,
    t: int,
) -> Option<Pt> {
    lane_step(*tables[t], scalars[which[t] as int].digits(), pos, lane_of(xs, ys, t))
}

/// A lane that has started holds the accumulator of its ladder.
spec fn lane_holds<C: Group>(table: Table<C>, digits: Seq<u8>, pos: int, a: Pt) -> bool {
    pos < digits.len() ==> accumulator(table, digits, pos) == Some(a)
}

/// The accumulators before position `pos - 1` is processed.
spec fn lanes_hold<C: Group>(
    tables: Seq<&Table<C>>,
    scalars: Seq<Decomposed<C>>,
    which: Seq<usize>,
    pos: int,
    xs: Seq<Fe<C::Base>>,
    ys: Seq<Fe<C::Base>>,
) -> bool {
    &&& xs.len() == tables.len()
    &&& ys.len() == tables.len()
    &&& forall|t: int|
        0 <= t < tables.len() ==> lane_holds(
            *#[trigger] tables[t],
            scalars[which[t] as int].digits(),
            pos,
            lane_of(xs, ys, t),
        )
}

/// A lane between the two inversions: a step with a nonzero digit has its chord, and every other
/// step is done.
spec fn half_done<C: Group>(
    step: Step<C>,
    next: Option<Pt>,
    before: (Fe<C::Base>, Fe<C::Base>),
    after: (Fe<C::Base>, Fe<C::Base>),
    chord: (Fe<C::Base>, Fe<C::Base>),
) -> bool {
    match step {
        Step::Digit(u, v) => after == before && is_chord::<C>(
            before.0@,
            before.1@,
            (u, v),
            chord,
        ),
        _ => next == Some(Pt::At { x: after.0@, y: after.1@ }),
    }
}

/// A step with a zero first denominator has no next accumulator.
proof fn lemma_first_denominator<C: Group>(
    step: Step<C>,
    table: Table<C>,
    scalar: Decomposed<C>,
    pos: int,
    x: Fe<C::Base>,
    y: Fe<C::Base>,
)
    requires
        is_step(step, table, scalar, pos),
        first_denominator::<C>(step, x@, y@) == 0,
    ensures
        lane_step(table, scalar.digits(), pos, Pt::At { x: x@, y: y@ }) is None,
{
    match step {
        Step::Double => {
            lemma_twice(y);
        },
        Step::Digit(u, v) => {
            lemma_apart_residues(u, x);
            lemma_digit_coordinates(table, scalar.digits()[pos] as int, (u, v));
        },
        _ => {},
    }
}

/// A chord gives the next accumulator exactly if its sum has another first coordinate.
proof fn lemma_second_denominator<C: Group>(
    step: Step<C>,
    table: Table<C>,
    scalar: Decomposed<C>,
    pos: int,
    x: Fe<C::Base>,
    y: Fe<C::Base>,
    c: (Fe<C::Base>, Fe<C::Base>),
)
    requires
        is_step(step, table, scalar, pos),
        step matches Step::Digit(u, v) && is_chord::<C>(x@, y@, (u, v), c),
    ensures
        lane_step(table, scalar.digits(), pos, Pt::At { x: x@, y: y@ }) == if (c.1@ - x@)
            % <C::Base as Modulus>::p() == 0 {
            None
        } else {
            let a = Pt::At { x: x@, y: y@ };
            Some(plus::<C>(a, plus::<C>(a, Pt::At { x: step->Digit_0@, y: step->Digit_1@ })))
        },
{
    if let Step::Digit(u, v) = step {
        lemma_apart_residues(c.1, x);
        lemma_digit_coordinates(table, scalar.digits()[pos] as int, (u, v));
    }
}

/// Processes one position of all lanes; `false` if a denominator is zero.
fn pairs_column<C: Group>(
    tables: &Vec<&Table<C>>,
    scalars: &Vec<Decomposed<C>>,
    which: &Vec<usize>,
    pos: usize,
    xs: &mut Vec<Fe<C::Base>>,
    ys: &mut Vec<Fe<C::Base>>,
    den: &mut Vec<Fe<C::Base>>,
    scratch: &mut Vec<Fe<C::Base>>,
) -> (r: bool)
    requires
        are_paired(tables@.len(), scalars@, which@),
        old(xs)@.len() == tables@.len(),
        old(ys)@.len() == tables@.len(),
        old(den)@.len() == tables@.len(),
        old(scratch)@.len() == tables@.len(),
    ensures
        final(xs)@.len() == tables@.len(),
        final(ys)@.len() == tables@.len(),
        final(den)@.len() == tables@.len(),
        final(scratch)@.len() == tables@.len(),
        r <==> forall|t: int|
            0 <= t < tables@.len() ==> #[trigger] next_of(
                tables@,
                scalars@,
                which@,
                pos as int,
                old(xs)@,
                old(ys)@,
                t,
            ) is Some,
        r ==> forall|t: int|
            0 <= t < tables@.len() ==> #[trigger] next_of(
                tables@,
                scalars@,
                which@,
                pos as int,
                old(xs)@,
                old(ys)@,
                t,
            ) == Some(lane_of(final(xs)@, final(ys)@, t)),
        !r ==> forall|t: int|
            0 <= t < tables@.len() ==> lane_of(final(xs)@, final(ys)@, t) == lane_of(
                old(xs)@,
                old(ys)@,
                t,
            ) || #[trigger] next_of(
                tables@,
                scalars@,
                which@,
                pos as int,
                old(xs)@,
                old(ys)@,
                t,
            ) == Some(lane_of(final(xs)@, final(ys)@, t)),
{
    let n = tables.len();
    let ghost p = <C::Base as Modulus>::p();
    let ghost (xs0, ys0) = (xs@, ys@);
    let mut steps: Vec<Step<C>> = Vec::new();
    let mut t: usize = 0;
    while t < n
        invariant
            t <= n,
            n == tables@.len(),
            n == xs@.len(),
            n == ys@.len(),
            n == den@.len(),
            are_paired(n as nat, scalars@, which@),
            steps@.len() == t,
            forall|j: int|
                0 <= j < t ==> is_step(
                    #[trigger] steps@[j],
                    *tables@[j],
                    scalars@[which@[j] as int],
                    pos as int,
                ),
            forall|j: int|
                0 <= j < t ==> (#[trigger] den@[j])@ == first_denominator::<C>(
                    steps@[j],
                    xs@[j]@,
                    ys@[j]@,
                ),
        decreases n - t,
    {
        assert(which@[t as int] < scalars@.len());
        let step = choose_step(tables[t], &scalars[which[t]], pos);
        let d = match step {
            Step::Double => ys[t].double(),
            Step::Digit(u, v) => u.sub(xs[t]),
            _ => Fe::one(),
        };
        den.set(t, d);
        steps.push(step);
        t += 1;
    }
    let ghost den0 = den@;
    if !batch_invert_nonzero(den, scratch) {
        proof {
            let j = choose|j: int| 0 <= j < n && (#[trigger] den0[j])@ == 0;
            let scalar = scalars@[which@[j] as int];
            lemma_first_denominator(steps@[j], *tables@[j], scalar, pos as int, xs0[j], ys0[j]);
            assert(next_of(tables@, scalars@, which@, pos as int, xs0, ys0, j) is None);
        }
        return false;
    }
    // Start and double, and take the first part of the steps with nonzero digits.
    let mut chords: Vec<(Fe<C::Base>, Fe<C::Base>)> = Vec::new();
    let mut t: usize = 0;
    while t < n
        invariant
            t <= n,
            n == tables@.len(),
            n == xs@.len(),
            n == ys@.len(),
            n == xs0.len(),
            n == ys0.len(),
            n == den@.len(),
            n == den0.len(),
            n == steps@.len(),
            p == <C::Base as Modulus>::p(),
            are_paired(n as nat, scalars@, which@),
            forall|j: int|
                0 <= j < n ==> is_step(
                    #[trigger] steps@[j],
                    *tables@[j],
                    scalars@[which@[j] as int],
                    pos as int,
                ),
            forall|j: int|
                0 <= j < n ==> (#[trigger] den0[j])@ == first_denominator::<C>(
                    steps@[j],
                    xs0[j]@,
                    ys0[j]@,
                ),
            forall|j: int| 0 <= j < n ==> is_inverse(den0[j]@, (#[trigger] den@[j])@, p),
            forall|j: int| t <= j < n ==> #[trigger] xs@[j] == xs0[j],
            forall|j: int| t <= j < n ==> #[trigger] ys@[j] == ys0[j],
            chords@.len() == t,
            forall|j: int|
                0 <= j < t ==> half_done(
                    #[trigger] steps@[j],
                    next_of(tables@, scalars@, which@, pos as int, xs0, ys0, j),
                    (xs0[j], ys0[j]),
                    (xs@[j], ys@[j]),
                    chords@[j],
                ),
        decreases n - t,
    {
        let ghost (table, scalar) = (*tables@[t as int], scalars@[which@[t as int] as int]);
        let ghost (xa, ya) = (xs0[t as int], ys0[t as int]);
        proof {
            assert(xs@[t as int] == xa && ys@[t as int] == ya);
            assert(den0[t as int]@ == first_denominator::<C>(steps@[t as int], xa@, ya@));
            assert(is_step(steps@[t as int], table, scalar, pos as int));
        }
        let mut chord = (Fe::zero(), Fe::zero());
        match steps[t] {
            Step::Wait => {},
            Step::Start(u, v) => {
                xs.set(t, u);
                ys.set(t, v);
                proof {
                    lemma_digit_coordinates(table, scalar.digits()[pos as int] as int, (u, v));
                }
            },
            Step::Double => {
                let (x, y) = affine_double::<C>(xs[t], ys[t], den[t]);
                xs.set(t, x);
                ys.set(t, y);
                proof {
                    lemma_twice(ya);
                    assert(is_inverse(den0[t as int]@, den@[t as int]@, p));
                    lemma_inverse_nonzero::<C::Base>(den0[t as int]@, den@[t as int]@);
                }
            },
            Step::Digit(u, v) => {
                chord = affine_chord::<C>(xs[t], ys[t], u, v, den[t]);
            },
        }
        chords.push(chord);
        t += 1;
    }
    let mut t: usize = 0;
    while t < n
        invariant
            t <= n,
            n == xs@.len(),
            n == den@.len(),
            n == chords@.len(),
            n == steps@.len(),
            p == <C::Base as Modulus>::p(),
            forall|j: int|
                0 <= j < t ==> (#[trigger] den@[j])@ == if steps@[j] is Digit {
                    (chords@[j].1@ - xs@[j]@) % p
                } else {
                    1
                },
        decreases n - t,
    {
        let d = match steps[t] {
            Step::Digit(_, _) => {
                let (s, x1) = chords[t];
                x1.sub(xs[t])
            },
            _ => Fe::one(),
        };
        den.set(t, d);
        t += 1;
    }
    let ghost den1 = den@;
    if !batch_invert_nonzero(den, scratch) {
        proof {
            let j = choose|j: int| 0 <= j < n && (#[trigger] den1[j])@ == 0;
            let scalar = scalars@[which@[j] as int];
            lemma_second_denominator(
                steps@[j],
                *tables@[j],
                scalar,
                pos as int,
                xs0[j],
                ys0[j],
                chords@[j],
            );
            assert(next_of(tables@, scalars@, which@, pos as int, xs0, ys0, j) is None);
            assert forall|l: int| 0 <= l < n implies lane_of(xs@, ys@, l) == lane_of(xs0, ys0, l)
                || #[trigger] next_of(tables@, scalars@, which@, pos as int, xs0, ys0, l) == Some(
                lane_of(xs@, ys@, l),
            ) by {
                let step = steps@[l];
            }
        }
        return false;
    }
    let mut t: usize = 0;
    while t < n
        invariant
            t <= n,
            n == tables@.len(),
            n == xs@.len(),
            n == ys@.len(),
            n == xs0.len(),
            n == ys0.len(),
            n == den@.len(),
            n == den1.len(),
            n == steps@.len(),
            n == chords@.len(),
            p == <C::Base as Modulus>::p(),
            forall|j: int|
                0 <= j < n ==> is_step(
                    #[trigger] steps@[j],
                    *tables@[j],
                    scalars@[which@[j] as int],
                    pos as int,
                ),
            forall|j: int|
                0 <= j < n && steps@[j] is Digit ==> (#[trigger] den1[j])@ == (chords@[j].1@
                    - xs0[j]@) % p,
            forall|j: int| 0 <= j < n ==> (#[trigger] den1[j])@ != 0,
            forall|j: int| 0 <= j < n ==> is_inverse(den1[j]@, (#[trigger] den@[j])@, p),
            forall|j: int|
                t <= j < n ==> half_done(
                    #[trigger] steps@[j],
                    next_of(tables@, scalars@, which@, pos as int, xs0, ys0, j),
                    (xs0[j], ys0[j]),
                    (xs@[j], ys@[j]),
                    chords@[j],
                ),
            forall|j: int|
                0 <= j < t ==> #[trigger] next_of(
                    tables@,
                    scalars@,
                    which@,
                    pos as int,
                    xs0,
                    ys0,
                    j,
                ) == Some(lane_of(xs@, ys@, j)),
        decreases n - t,
    {
        let ghost (table, scalar) = (*tables@[t as int], scalars@[which@[t as int] as int]);
        let ghost (xa, ya) = (xs0[t as int], ys0[t as int]);
        proof {
            assert(is_step(steps@[t as int], table, scalar, pos as int));
        }
        if let Step::Digit(u, v) = steps[t] {
            let (s, x1) = chords[t];
            assert(den1[t as int]@ == (chords@[t as int].1@ - xa@) % p);
            let (x, y) = affine_fused::<C>(xs[t], ys[t], s, x1, den[t], Ghost((u@, v@)));
            xs.set(t, x);
            ys.set(t, y);
            proof {
                assert(den1[t as int]@ != 0);
                lemma_second_denominator(
                    steps@[t as int],
                    table,
                    scalar,
                    pos as int,
                    xa,
                    ya,
                    chords@[t as int],
                );
            }
        }
        t += 1;
    }
    true
}

/// The multiples of the tables' points by their own scalars, on affine accumulators; `None` if a
/// denominator is zero. No denominator is zero if no point is the neutral element and all
/// schedules are safe.
fn batch_affine_ladder_pairs<C: Group>(
    tables: &Vec<&Table<C>>,
    scalars: &Vec<Decomposed<C>>,
    which: &Vec<usize>,
) -> (r: Option<Vec<Affine<C>>>)
    requires
        are_paired(tables@.len(), scalars@, which@),
        forall|t: int|
            0 <= t < which@.len() ==> scalars@[#[trigger] which@[t] as int].digits().len() > 0,
    ensures
        r is Some <==> forall|t: int|
            0 <= t < tables@.len() ==> accumulator(
                *#[trigger] tables@[t],
                scalars@[which@[t] as int].digits(),
                0,
            ) is Some,
        (forall|t: int| 0 <= t < tables@.len() ==> is_live(*#[trigger] tables@[t])) ==> (r is Some
            <==> forall|t: int|
            0 <= t < which@.len() ==> is_schedule_safe::<C>(
                scalars@[#[trigger] which@[t] as int].digits(),
            )),
        r matches Some(points) ==> points@.len() == tables@.len() && forall|t: int|
            0 <= t < tables@.len() && is_live(*#[trigger] tables@[t]) ==> points@[t]@ == smul::<C>(
                scalars@[which@[t] as int].value(),
                tables@[t].base(),
            ),
{
    let n = tables.len();
    let mut xs: Vec<Fe<C::Base>> = Vec::new();
    let mut ys: Vec<Fe<C::Base>> = Vec::new();
    let mut den: Vec<Fe<C::Base>> = Vec::new();
    let mut scratch: Vec<Fe<C::Base>> = Vec::new();
    let mut max_len: usize = 0;
    let mut t: usize = 0;
    while t < n
        invariant
            t <= n,
            n == tables@.len(),
            are_paired(n as nat, scalars@, which@),
            xs@.len() == t,
            ys@.len() == t,
            den@.len() == t,
            scratch@.len() == t,
            forall|j: int| 0 <= j < t ==> (#[trigger] tables@[j]).holds(),
            forall|j: int|
                0 <= j < t && scalars@[#[trigger] which@[j] as int].digits().len() > 0
                    ==> is_recoded(scalars@[which@[j] as int].digits()),
            forall|j: int|
                0 <= j < t ==> scalars@[#[trigger] which@[j] as int].digits().len() <= max_len,
        decreases n - t,
    {
        assert(which@[t as int] < scalars@.len());
        let table = tables[t];
        proof {
            use_type_invariant(table);
        }
        let len = scalars[which[t]].len();
        if len > max_len {
            max_len = len;
        }
        xs.push(Fe::zero());
        ys.push(Fe::zero());
        den.push(Fe::zero());
        scratch.push(Fe::zero());
        t += 1;
    }
    let mut pos: usize = max_len;
    proof {
        assert forall|j: int| 0 <= j < n implies lane_holds(
            *#[trigger] tables@[j],
            scalars@[which@[j] as int].digits(),
            pos as int,
            lane_of(xs@, ys@, j),
        ) by {
            assert(scalars@[which@[j] as int].digits().len() <= max_len);
        }
        assert forall|j: int| 0 <= j < n && is_live(*#[trigger] tables@[j]) implies (accumulator(
            *tables@[j],
            scalars@[which@[j] as int].digits(),
            0,
        ) is Some <==> is_schedule_safe::<C>(scalars@[which@[j] as int].digits())) by {
            assert(scalars@[which@[j] as int].digits().len() > 0);
            lemma_ladder(*tables@[j], scalars@[which@[j] as int].digits(), 0);
        }
    }
    while pos > 0
        invariant
            n == tables@.len(),
            are_paired(n as nat, scalars@, which@),
            den@.len() == n,
            scratch@.len() == n,
            lanes_hold(tables@, scalars@, which@, pos as int, xs@, ys@),
            forall|j: int|
                0 <= j < n && is_live(*#[trigger] tables@[j]) ==> (accumulator(
                    *tables@[j],
                    scalars@[which@[j] as int].digits(),
                    0,
                ) is Some <==> is_schedule_safe::<C>(scalars@[which@[j] as int].digits())),
        decreases pos,
    {
        let ghost (xs0, ys0) = (xs@, ys@);
        pos -= 1;
        if !pairs_column(tables, scalars, which, pos, &mut xs, &mut ys, &mut den, &mut scratch) {
            proof {
                let j = choose|j: int|
                    0 <= j < n && #[trigger] next_of(
                        tables@,
                        scalars@,
                        which@,
                        pos as int,
                        xs0,
                        ys0,
                        j,
                    ) is None;
                let digits = scalars@[which@[j] as int].digits();
                assert(lane_holds(*tables@[j], digits, pos + 1, lane_of(xs0, ys0, j)));
                lemma_stopped(*tables@[j], digits, pos as int);
                assert(is_live(*tables@[j]) ==> !is_schedule_safe::<C>(digits));
                assert(scalars@[which@[j] as int].digits() == digits);
            }
            return None;
        }
        proof {
            assert forall|j: int| 0 <= j < n implies lane_holds(
                *#[trigger] tables@[j],
                scalars@[which@[j] as int].digits(),
                pos as int,
                lane_of(xs@, ys@, j),
            ) by {
                let digits = scalars@[which@[j] as int].digits();
                assert(lane_holds(*tables@[j], digits, pos + 1, lane_of(xs0, ys0, j)));
                assert(next_of(tables@, scalars@, which@, pos as int, xs0, ys0, j) == Some(
                    lane_of(xs@, ys@, j),
                ));
            }
        }
    }
    let mut points: Vec<Affine<C>> = Vec::new();
    let mut t: usize = 0;
    while t < n
        invariant
            t <= n,
            n == tables@.len(),
            n == which@.len(),
            lanes_hold(tables@, scalars@, which@, 0, xs@, ys@),
            forall|j: int|
                0 <= j < n ==> scalars@[#[trigger] which@[j] as int].digits().len() > 0,
            forall|j: int| 0 <= j < n ==> (#[trigger] tables@[j]).holds(),
            forall|j: int|
                0 <= j < n ==> is_recoded(scalars@[#[trigger] which@[j] as int].digits()),
            points@.len() == t,
            forall|j: int|
                0 <= j < t && is_live(*#[trigger] tables@[j]) ==> points@[j]@ == smul::<C>(
                    scalars@[which@[j] as int].value(),
                    tables@[j].base(),
                ),
        decreases n - t,
    {
        let a = Affine { x: xs[t], y: ys[t] };
        proof {
            if is_live(*tables@[t as int]) {
                let k = scalars@[which@[t as int] as int];
                lemma_suffix_end::<C>(k.digits());
                assert(is_recoded(scalars@[which@[t as int] as int].digits()));
                lemma_ladder(*tables@[t as int], k.digits(), 0);
                assert(lane_holds(*tables@[t as int], k.digits(), 0, lane_of(xs@, ys@, t as int)));
                lemma_smul_closed::<C>(k.value(), tables@[t as int].base());
                lemma_affine_of::<C>(a, smul::<C>(k.value(), tables@[t as int].base()));
            }
        }
        points.push(a);
        t += 1;
    }
    proof {
        assert forall|j: int| 0 <= j < n implies accumulator(
            *#[trigger] tables@[j],
            scalars@[which@[j] as int].digits(),
            0,
        ) is Some by {
            let digits = scalars@[which@[j] as int].digits();
            assert(lane_holds(*tables@[j], digits, 0, lane_of(xs@, ys@, j)));
        }
        assert forall|j: int| 0 <= j < n && is_live(*tables@[j]) implies is_schedule_safe::<C>(
            scalars@[#[trigger] which@[j] as int].digits(),
        ) by {
            assert(accumulator(*tables@[j], scalars@[which@[j] as int].digits(), 0) is Some);
        }
    }
    Some(points)
}

/// The scalar is nonzero and its schedule is safe.
spec fn may_ladder<C: Group>(scalar: Decomposed<C>) -> bool {
    scalar.digits().len() > 0 && is_schedule_safe::<C>(scalar.digits())
}

/// Whether every point's scalar is nonzero and may take the affine ladder.
fn all_safe<C: Group>(scalars: &Vec<Decomposed<C>>, which: &Vec<usize>) -> (r: bool)
    requires
        are_paired(which@.len(), scalars@, which@),
    ensures
        r <==> forall|t: int|
            0 <= t < which@.len() ==> may_ladder(scalars@[#[trigger] which@[t] as int]),
{
    let mut t: usize = 0;
    while t < which.len()
        invariant
            t <= which@.len(),
            are_paired(which@.len(), scalars@, which@),
            forall|j: int|
                0 <= j < t ==> may_ladder(scalars@[#[trigger] which@[j] as int]),
        decreases which@.len() - t,
    {
        assert(which@[t as int] < scalars@.len());
        let k = &scalars[which[t]];
        if k.len() == 0 || !k.safe() {
            return false;
        }
        t += 1;
    }
    true
}

impl<C: Group> Table<C> {
    /// The affine multiples of points by their own scalars.
    pub fn mul_decomposed_pairs_affine(
        points: &Vec<Point<C>>,
        scalars: &Vec<Decomposed<C>>,
        which: &Vec<usize>,
    ) -> (r: Vec<Affine<C>>)
        requires
            points@.len() * 8 <= usize::MAX,
            are_paired(points@.len(), scalars@, which@),
        ensures
            r@.len() == points@.len(),
            forall|t: int|
                0 <= t < points@.len() && on_curve::<C>((#[trigger] points@[t])@)
                    ==> r@[t]@ == smul::<C>(scalars@[which@[t] as int].value(), points@[t]@),
    {
        let n = points.len();
        let tables = Self::batch(points);
        let (refs, all_live) = live_tables(&tables);
        if n >= BATCH_AFFINE_MIN_POINTS && all_live && all_safe(scalars, which) {
            if let Some(products) = batch_affine_ladder_pairs(&refs, scalars, which) {
                proof {
                    assert forall|t: int|
                        0 <= t < points@.len() && on_curve::<C>(
                            (#[trigger] points@[t])@,
                        ) implies products@[t]@ == smul::<C>(
                        scalars@[which@[t] as int].value(),
                        points@[t]@,
                    ) by {
                        assert(tables@[t].base() == points@[t]@);
                        assert(*refs@[t] == tables@[t]);
                        assert(is_live(*refs@[t]));
                    }
                }
                return products;
            }
        }
        let mut projective: Vec<Point<C>> = Vec::new();
        let mut t: usize = 0;
        while t < n
            invariant
                t <= n,
                n == tables@.len(),
                n == points@.len(),
                are_paired(n as nat, scalars@, which@),
                forall|j: int| 0 <= j < n ==> (#[trigger] tables@[j]).base() == points@[j]@,
                projective@.len() == t,
                forall|j: int|
                    0 <= j < t && on_curve::<C>((#[trigger] points@[j])@)
                        ==> projective@[j]@ == smul::<C>(
                        scalars@[which@[j] as int].value(),
                        points@[j]@,
                    ),
            decreases n - t,
        {
            assert(tables@[t as int].base() == points@[t as int]@);
            assert(which@[t as int] < scalars@.len());
            projective.push(tables[t].mul_decomposed(&scalars[which[t]]));
            t += 1;
        }
        let r = batch_normalize(&projective);
        proof {
            assert forall|t: int|
                0 <= t < points@.len() && on_curve::<C>((#[trigger] points@[t])@)
                    implies r@[t]@ == smul::<C>(
                scalars@[which@[t] as int].value(),
                points@[t]@,
            ) by {
                lemma_smul_closed::<C>(scalars@[which@[t] as int].value(), points@[t]@);
                assert(is_affine_of(r@[t], projective@[t]@));
                lemma_affine_of::<C>(r@[t], projective@[t]@);
            }
        }
        r
    }
}

} // verus!

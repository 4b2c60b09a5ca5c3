//! Sums of values with the powers of a base.
use crate::field::congruence::{congruent, lemma_congruent_ops};
use vstd::arithmetic::power::{lemma_pow0, lemma_pow1, lemma_pow_adds, pow};
use vstd::prelude::*;

verus! {

/// The values with the powers of `base`, from the highest power to the lowest.
pub open spec fn horner(values: Seq<int>, base: int) -> int
    decreases values.len(),
{
    if values.len() == 0 {
        0
    } else {
        horner(values.drop_last(), base) * base + values.last()
    }
}

/// The values at the claimed positions, and zero elsewhere.
pub open spec fn masked(values: Seq<int>, claimed: Seq<bool>) -> Seq<int> {
    Seq::new(values.len(), |i: int| if claimed[i] { values[i] } else { 0 })
}

/// The claims with all positions from `start` to `end - 1` added.
pub open spec fn claim(claimed: Seq<bool>, start: int, end: int) -> Seq<bool> {
    Seq::new(claimed.len(), |i: int| claimed[i] || start <= i < end)
}

/// Changing one value changes the sum by the difference times its power.
pub proof fn lemma_horner_update(values: Seq<int>, i: int, v: int, base: int)
    requires
        0 <= i < values.len(),
    ensures
        horner(values.update(i, v), base) == horner(values, base) + (v - values[i]) * pow(
            base,
            (values.len() - 1 - i) as nat,
        ),
    decreases values.len(),
{
    let n = values.len() as int;
    let updated = values.update(i, v);
    if i == n - 1 {
        assert(updated.drop_last() =~= values.drop_last());
        lemma_pow0(base);
        assert((v - values[i]) * 1 == v - values[i]);
    } else {
        assert(updated.drop_last() =~= values.drop_last().update(i, v));
        lemma_horner_update(values.drop_last(), i, v, base);
        let t = pow(base, (n - 2 - i) as nat);
        lemma_pow1(base);
        lemma_pow_adds(base, (n - 2 - i) as nat, 1);
        let (h, d) = (horner(values.drop_last(), base), v - values[i]);
        assert((h + d * t) * base == h * base + d * (t * base)) by (nonlinear_arith);
    }
}

/// Nothing claimed sums to zero.
pub proof fn lemma_horner_zero(values: Seq<int>, base: int)
    requires
        forall|i: int| 0 <= i < values.len() ==> #[trigger] values[i] == 0,
    ensures
        horner(values, base) == 0,
    decreases values.len(),
{
    if values.len() > 0 {
        lemma_horner_zero(values.drop_last(), base);
        assert(0 * base == 0);
    }
}

/// Claiming a run of unclaimed positions adds their sum times the power of the last one.
pub proof fn lemma_horner_claim(
    values: Seq<int>,
    claimed: Seq<bool>,
    start: int,
    end: int,
    base: int,
)
    requires
        values.len() == claimed.len(),
        0 <= start <= end <= values.len(),
        forall|i: int| start <= i < end ==> !#[trigger] claimed[i],
    ensures
        horner(masked(values, claim(claimed, start, end)), base) == horner(
            masked(values, claimed),
            base,
        ) + horner(values.subrange(start, end), base) * pow(base, (values.len() - end) as nat),
    decreases end - start,
{
    let n = values.len() as int;
    if start == end {
        assert(masked(values, claim(claimed, start, end)) =~= masked(values, claimed));
        assert(values.subrange(start, end) =~= Seq::empty());
        assert(0 * pow(base, (n - end) as nat) == 0);
    } else {
        let e = end - 1;
        lemma_horner_claim(values, claimed, start, e, base);
        let before = masked(values, claim(claimed, start, e));
        assert(masked(values, claim(claimed, start, end)) =~= before.update(e, values[e]));
        assert(before[e] == 0);
        lemma_horner_update(before, e, values[e], base);
        assert(values.subrange(start, end).drop_last() =~= values.subrange(start, e));
        let (h, v, t) = (
            horner(values.subrange(start, e), base),
            values[e],
            pow(base, (n - end) as nat),
        );
        lemma_pow1(base);
        lemma_pow_adds(base, (n - end) as nat, 1);
        assert(pow(base, (n - e) as nat) == t * base);
        assert(h * (t * base) + (v - 0) * t == (h * base + v) * t) by (nonlinear_arith);
    }
}

/// Congruent values have congruent sums.
pub proof fn lemma_horner_congruent(a: Seq<int>, b: Seq<int>, base: int, p: int)
    requires
        p > 0,
        a.len() == b.len(),
        forall|i: int| 0 <= i < a.len() ==> congruent(#[trigger] a[i], b[i], p),
    ensures
        congruent(horner(a, base), horner(b, base), p),
    decreases a.len(),
{
    if a.len() > 0 {
        assert forall|i: int| 0 <= i < a.drop_last().len() implies congruent(
            #[trigger] a.drop_last()[i],
            b.drop_last()[i],
            p,
        ) by {
            assert(congruent(a[i], b[i], p));
        }
        lemma_horner_congruent(a.drop_last(), b.drop_last(), base, p);
        let (x, y) = (horner(a.drop_last(), base), horner(b.drop_last(), base));
        lemma_congruent_ops(x, y, base, base, p);
        assert(congruent(a[a.len() - 1], b[a.len() - 1], p));
        lemma_congruent_ops(x * base, y * base, a.last(), b.last(), p);
    }
}

/// A common factor of all values is a factor of the sum.
pub proof fn lemma_horner_scale(factor: int, bodies: Seq<int>, values: Seq<int>, base: int)
    requires
        values.len() == bodies.len(),
        forall|i: int| 0 <= i < values.len() ==> #[trigger] values[i] == bodies[i] * factor,
    ensures
        horner(values, base) == horner(bodies, base) * factor,
    decreases values.len(),
{
    if values.len() > 0 {
        assert forall|i: int| 0 <= i < values.drop_last().len() implies #[trigger] values.drop_last()[i]
            == bodies.drop_last()[i] * factor by {
            assert(values[i] == bodies[i] * factor);
        }
        lemma_horner_scale(factor, bodies.drop_last(), values.drop_last(), base);
        let (h, b) = (horner(bodies.drop_last(), base), bodies.last());
        assert(values[values.len() - 1] == bodies[values.len() - 1] * factor);
        assert((h * factor) * base + b * factor == (h * base + b) * factor) by (nonlinear_arith);
    } else {
        assert(0 * factor == 0);
    }
}

} // verus!

//! The plan that an expression is compiled to.
use crate::field::congruence::congruent;
use crate::field::Modulus;
use crate::poly::ast::{Ast, AstLeaf};
use crate::poly::families::{are_family_matches, selector_runs, SelectorFamilyMatch, SelectorRunMatch};
use crate::poly::horner::claim;
use crate::poly::plan::{
    DistributionWork, EvaluationPlan, FactorBodyPlan, FactorBodyWork, WeightedTerm,
};
use crate::poly::recognize::{factored, has_factor, is_expanded, FactorSide};
use vstd::arithmetic::power::pow;
use vstd::prelude::*;

verus! {

/// The terms are products whose factors on the given side are built alike.
pub open spec fn share_factor<M: Modulus>(a: Ast<M>, b: Ast<M>, side: FactorSide) -> bool {
    factored(a, side) matches Some((factor, body)) && has_factor(b, factor, side)
}

/// Consecutive terms that become one item: a run with a common factor on a side, or one term.
pub struct Span {
    /// The first term.
    pub start: int,
    /// The position after the last term.
    pub end: int,
    /// The side of the common factor.
    pub side: Option<FactorSide>,
}

/// The start of the longest run of unclaimed terms up to `start` that share the factor of the term
/// before `end`.
pub open spec fn factor_start<M: Modulus>(
    terms: Seq<Ast<M>>,
    claimed: Seq<bool>,
    start: int,
    end: int,
    side: FactorSide,
) -> int
    decreases start,
{
    if start > 0 && !claimed[start - 1] && share_factor(terms[end - 1], terms[start - 1], side) {
        factor_start(terms, claimed, start - 1, end, side)
    } else {
        start
    }
}

/// The item that ends before `end`: the longest run of at least two terms with a common left
/// factor, or else with a common right factor, or else the last term alone.
pub open spec fn span_before<M: Modulus>(
    terms: Seq<Ast<M>>,
    claimed: Seq<bool>,
    end: int,
) -> Span {
    let left = factor_start(terms, claimed, end - 1, end, FactorSide::Left);
    let right = factor_start(terms, claimed, end - 1, end, FactorSide::Right);
    if left < end - 1 {
        Span { start: left, end, side: Some(FactorSide::Left) }
    } else if right < end - 1 {
        Span { start: right, end, side: Some(FactorSide::Right) }
    } else {
        Span { start: end - 1, end, side: None }
    }
}

/// A run starts at an unclaimed term, and all of its terms are unclaimed and share the factor.
pub proof fn lemma_factor_start<M: Modulus>(
    terms: Seq<Ast<M>>,
    claimed: Seq<bool>,
    start: int,
    end: int,
    side: FactorSide,
)
    requires
        0 <= start,
    ensures
        0 <= factor_start(terms, claimed, start, end, side) <= start,
        forall|i: int|
            #![trigger terms[i]]
            #![trigger claimed[i]]
            factor_start(terms, claimed, start, end, side) <= i < start ==> !claimed[i]
                && share_factor(terms[end - 1], terms[i], side),
    decreases start,
{
    if start > 0 && !claimed[start - 1] && share_factor(terms[end - 1], terms[start - 1], side) {
        lemma_factor_start(terms, claimed, start - 1, end, side);
    }
}

/// The items of the unclaimed terms before `end`, from the last term to the first.
pub open spec fn spans<M: Modulus>(
    terms: Seq<Ast<M>>,
    claimed: Seq<bool>,
    end: int,
) -> Seq<Span>
    decreases end,
{
    if end <= 0 {
        Seq::empty()
    } else if claimed[end - 1] {
        spans(terms, claimed, end - 1)
    } else {
        proof {
            lemma_factor_start(terms, claimed, end - 1, end, FactorSide::Left);
            lemma_factor_start(terms, claimed, end - 1, end, FactorSide::Right);
        }
        seq![span_before(terms, claimed, end)] + spans(
            terms,
            claimed,
            span_before(terms, claimed, end).start,
        )
    }
}

/// The position lies in one of the items.
pub open spec fn in_span(items: Seq<Span>, w: int, i: int) -> bool {
    0 <= w < items.len() && items[w].start <= i < items[w].end
}

/// The items cover every unclaimed term exactly once and no claimed one: they lie one before the
/// other, and a position is unclaimed exactly if it lies in an item.
pub proof fn lemma_spans_cover<M: Modulus>(terms: Seq<Ast<M>>, claimed: Seq<bool>, end: int)
    requires
        0 <= end <= terms.len(),
    ensures
        forall|w: int|
            0 <= w < spans(terms, claimed, end).len() ==> 0 <= (#[trigger] spans(
                terms,
                claimed,
                end,
            )[w]).start < spans(terms, claimed, end)[w].end <= end,
        forall|w: int, v: int|
            0 <= w < v < spans(terms, claimed, end).len() ==> (#[trigger] spans(
                terms,
                claimed,
                end,
            )[v]).end <= (#[trigger] spans(terms, claimed, end)[w]).start,
        forall|i: int|
            #![trigger claimed[i]]
            0 <= i < end ==> (!claimed[i] <==> exists|w: int|
                in_span(spans(terms, claimed, end), w, i)),
    decreases end,
{
    let all = spans(terms, claimed, end);
    if end > 0 {
        if claimed[end - 1] {
            lemma_spans_cover(terms, claimed, end - 1);
            assert forall|i: int| #![trigger claimed[i]] 0 <= i < end implies (!claimed[i]
                <==> exists|w: int| in_span(all, w, i)) by {
                if i == end - 1 {
                    assert(forall|w: int| !in_span(all, w, i));
                }
            }
        } else {
            lemma_factor_start(terms, claimed, end - 1, end, FactorSide::Left);
            lemma_factor_start(terms, claimed, end - 1, end, FactorSide::Right);
            let first = span_before(terms, claimed, end);
            let rest = spans(terms, claimed, first.start);
            lemma_spans_cover(terms, claimed, first.start);
            assert(all == seq![first] + rest);
            assert forall|w: int| 0 <= w < all.len() implies 0 <= (#[trigger] all[w]).start
                < all[w].end <= end by {
                if w > 0 {
                    assert(all[w] == rest[w - 1]);
                }
            }
            assert forall|w: int, v: int| 0 <= w < v < all.len() implies (#[trigger] all[v]).end
                <= (#[trigger] all[w]).start by {
                assert(all[v] == rest[v - 1]);
                if w > 0 {
                    assert(all[w] == rest[w - 1]);
                }
            }
            assert forall|i: int| #![trigger claimed[i]] 0 <= i < end implies (!claimed[i]
                <==> exists|w: int| in_span(all, w, i)) by {
                if i >= first.start {
                    assert(in_span(all, 0, i));
                } else {
                    if !claimed[i] {
                        let w = choose|w: int| in_span(rest, w, i);
                        assert(in_span(all, w + 1, i));
                    }
                    if exists|w: int| in_span(all, w, i) {
                        let w = choose|w: int| in_span(all, w, i);
                        assert(in_span(rest, w - 1, i));
                    }
                }
            }
        }
    }
}

/// The claims with the first `k` runs added.
pub open spec fn claim_runs(claimed: Seq<bool>, runs: Seq<SelectorRunMatch>, k: int) -> Seq<bool>
    decreases k,
{
    if k <= 0 {
        claimed
    } else {
        claim(
            claim_runs(claimed, runs, k - 1),
            runs[k - 1].start as int,
            runs[k - 1].end as int,
        )
    }
}

/// The terms of the first `f` families among `n` terms.
pub open spec fn family_claims(families: Seq<SelectorFamilyMatch>, n: nat, f: int) -> Seq<bool>
    decreases f,
{
    if f <= 0 {
        Seq::new(n, |i: int| false)
    } else {
        claim_runs(
            family_claims(families, n, f - 1),
            families[f - 1].runs@,
            families[f - 1].runs@.len() as int,
        )
    }
}

/// What is left of the terms from `start` to `end - 1` without their factors.
pub open spec fn bodies_of<M: Modulus>(
    terms: Seq<Ast<M>>,
    start: int,
    end: int,
    side: FactorSide,
) -> Seq<Ast<M>> {
    Seq::new((end - start) as nat, |i: int| factored(terms[start + i], side).unwrap().1)
}

/// Bodies with a common factor of their own.
pub struct Group<M: Modulus> {
    /// The factor.
    pub factor: Ast<M>,
    /// The side of the factor.
    pub side: FactorSide,
    /// The positions of the bodies.
    pub positions: Seq<int>,
}

/// The group has the position in its `k`th place.
pub open spec fn has_position<M: Modulus>(
    groups: Seq<Group<M>>,
    g: int,
    k: int,
    i: int,
) -> bool {
    0 <= k < groups[g].positions.len() && groups[g].positions[k] == i
}

/// One of the first `count` groups has the position.
pub open spec fn taken<M: Modulus>(groups: Seq<Group<M>>, count: int, i: int) -> bool {
    exists|g: int, k: int| 0 <= g < count && #[trigger] has_position(groups, g, k, i)
}

/// No two bodies outside the first `count` groups share a factor on the side.
pub open spec fn none_shared<M: Modulus>(
    bodies: Seq<Ast<M>>,
    groups: Seq<Group<M>>,
    count: int,
    side: FactorSide,
) -> bool {
    forall|i: int, j: int|
        0 <= i < j < bodies.len() && !taken(groups, count, i) && !taken(groups, count, j)
            ==> !share_factor(#[trigger] bodies[i], #[trigger] bodies[j], side)
}

/// At least two bodies in ascending order, all with the factor of the first.
pub open spec fn is_factor_group<M: Modulus>(group: Group<M>, bodies: Seq<Ast<M>>) -> bool {
    &&& group.positions.len() >= 2
    &&& forall|k: int|
        0 <= k < group.positions.len() ==> 0 <= #[trigger] group.positions[k] < bodies.len()
            && has_factor(bodies[group.positions[k]], group.factor, group.side)
    &&& forall|k: int, l: int|
        0 <= k < l < group.positions.len() ==> (#[trigger] group.positions[k]) < (
        #[trigger] group.positions[l])
    &&& factored(bodies[group.positions[0]], group.side) matches Some((factor, body)) && factor
        == group.factor
}

/// The groups by common factors: every group takes all bodies with its factor that are left by the
/// groups before it, left factors go before right factors and groups of one side by their
/// first bodies, and in the end no two bodies without a group share a factor.
#[verifier::opaque]
pub open spec fn is_grouping<M: Modulus>(bodies: Seq<Ast<M>>, groups: Seq<Group<M>>) -> bool {
    &&& forall|g: int| 0 <= g < groups.len() ==> is_factor_group(#[trigger] groups[g], bodies)
    &&& forall|g: int, k: int|
        0 <= g < groups.len() && 0 <= k < groups[g].positions.len() ==> !taken(
            groups,
            g,
            #[trigger] groups[g].positions[k],
        )
    &&& forall|g: int, i: int|
        0 <= g < groups.len() && 0 <= i < bodies.len() && !taken(groups, g + 1, i) ==> !has_factor(
            #[trigger] bodies[i],
            (#[trigger] groups[g]).factor,
            groups[g].side,
        )
    &&& forall|g: int, h: int|
        0 <= g < h < groups.len() ==> ((#[trigger] groups[h]).side is Left ==> (
        #[trigger] groups[g]).side is Left) && (groups[g].side == groups[h].side
            ==> groups[g].positions[0] < groups[h].positions[0])
    &&& forall|g: int|
        0 <= g < groups.len() && (#[trigger] groups[g]).side is Right ==> none_shared(
            bodies,
            groups,
            g,
            FactorSide::Left,
        )
    &&& none_shared(bodies, groups, groups.len() as int, FactorSide::Left)
    &&& none_shared(bodies, groups, groups.len() as int, FactorSide::Right)
}

/// The positions before `i` that no group has.
pub open spec fn loose<M: Modulus>(groups: Seq<Group<M>>, i: int) -> Seq<int>
    decreases i,
{
    if i <= 0 {
        Seq::empty()
    } else if taken(groups, groups.len() as int, i - 1) {
        loose(groups, i - 1)
    } else {
        loose(groups, i - 1).push(i - 1)
    }
}

/// The power of the challenge.
pub open spec fn is_power<M: Modulus>(power: int, base: int, exponent: int) -> bool {
    congruent(power, pow(base, exponent as nat), M::p())
}

/// The plan is what the expression is compiled to.
///
/// An expanded polynomial is evaluated by Horner's rule, a product of equal operands is a square,
/// and a linear combination of two or more terms is split into the complete selector
/// families, the runs with a common factor and the terms that are left.
pub open spec fn is_compiled<M: Modulus>(plan: EvaluationPlan<M>, ast: Ast<M>) -> bool
    decreases plan, ast.height(),
{
    match ast {
        Ast::Poly(leaf) => plan == EvaluationPlan::<M>::Poly(leaf),
        Ast::Add(a, b) => if exists|x: Ast<M>, coefficients: Seq<AstLeaf>| #[trigger]
            is_expanded(ast, x, coefficients) {
            plan matches EvaluationPlan::Horner { base, coefficients } && exists|x: Ast<M>|
                #[trigger] is_expanded(ast, x, coefficients@) && is_compiled(*base, x)
        } else {
            plan matches EvaluationPlan::Add(x, y) && is_compiled(*x, *a) && is_compiled(*y, *b)
        },
        Ast::Mul(a, b) => if a.same(*b) {
            plan matches EvaluationPlan::Square(x) && is_compiled(*x, *a)
        } else {
            plan matches EvaluationPlan::Mul(x, y) && is_compiled(*x, *a) && is_compiled(*y, *b)
        },
        Ast::Scale(a, scalar) => plan matches EvaluationPlan::Scale(x, s) && s == scalar
            && is_compiled(*x, *a),
        Ast::DistributePowers(terms, base) => if terms@.len() == 0 {
            plan matches EvaluationPlan::ConstantTerm(s) && s@ == 0
        } else if terms@.len() == 1 {
            proof {
                Ast::lemma_terms_height(terms@, 0);
            }
            is_compiled(plan, terms@[0])
        } else {
            plan matches EvaluationPlan::DistributePowers { work, base: b } && b == base
                && exists|families: Seq<SelectorFamilyMatch>| #[trigger]
                are_family_matches(selector_runs(terms@, 0), families) && {
                let n = terms@.len();
                let rest = spans(
                    terms@,
                    family_claims(families, n, families.len() as int),
                    n as int,
                );
                &&& work@.len() == families.len() + rest.len()
                &&& forall|f: int|
                    0 <= f < families.len() ==> family_compiled(
                        #[trigger] work@[f],
                        families[f],
                        terms@,
                        base@,
                    )
                &&& forall|w: int|
                    families.len() <= w < work@.len() ==> item_compiled(
                        #[trigger] work@[w],
                        rest[w - families.len()],
                        terms@,
                        base@,
                    )
            }
        },
        Ast::LinearTerm(scalar) => plan == EvaluationPlan::<M>::LinearTerm(scalar),
        Ast::ConstantTerm(scalar) => plan == EvaluationPlan::<M>::ConstantTerm(scalar),
    }
}

/// The item evaluates a selector family: the bodies of every selector's run, with the challenge
/// power of the last of them.
pub open spec fn family_compiled<M: Modulus>(
    item: DistributionWork<M>,
    family: SelectorFamilyMatch,
    terms: Seq<Ast<M>>,
    base: int,
) -> bool
    decreases item, 0nat,
{
    item matches DistributionWork::SelectorFamily { query, runs } && query == family.query
        && runs@.len() == family.runs@.len() && forall|k: int|
        0 <= k < runs@.len() ==> bodies_compiled(
            (#[trigger] runs@[k]).bodies,
            bodies_of(
                terms,
                family.runs@[k].start as int,
                family.runs@[k].end as int,
                family.runs@[k].side,
            ),
            base,
        ) && is_power::<M>(runs@[k].power@, base, terms.len() - family.runs@[k].end)
}

/// The item evaluates a run by its common factor and its bodies, or a single term, with the
/// challenge power of the last term.
pub open spec fn item_compiled<M: Modulus>(
    item: DistributionWork<M>,
    span: Span,
    terms: Seq<Ast<M>>,
    base: int,
) -> bool
    decreases item, 0nat,
{
    match span.side {
        Some(side) => item matches DistributionWork::SharedFactor { factor, bodies, power }
            && is_compiled(factor, factored(terms[span.end - 1], side).unwrap().0)
            && bodies_compiled(bodies, bodies_of(terms, span.start, span.end, side), base)
            && is_power::<M>(power@, base, terms.len() - span.end),
        None => item matches DistributionWork::Term { term, power } && is_compiled(
            term,
            terms[span.end - 1],
        ) && is_power::<M>(power@, base, terms.len() - span.end),
    }
}

/// The bodies of a run in a row if no two of them share a factor, and grouped by their own common
/// factors otherwise, each with its challenge power.
pub open spec fn bodies_compiled<M: Modulus>(
    plan: FactorBodyPlan<M>,
    bodies: Seq<Ast<M>>,
    base: int,
) -> bool
    decreases plan, 0nat,
{
    match plan {
        FactorBodyPlan::Sequential(plans) => {
            &&& plans@.len() == bodies.len()
            &&& forall|i: int|
                0 <= i < plans@.len() ==> is_compiled(#[trigger] plans@[i], bodies[i])
            &&& is_grouping(bodies, Seq::<Group<M>>::empty())
        },
        FactorBodyPlan::Factored(work) => exists|groups: Seq<Group<M>>|
            groups_compiled(work@, groups, bodies, base) && #[trigger] is_grouping(bodies, groups),
    }
}

/// The first items evaluate the groups, and the others the bodies that no group has.
pub open spec fn groups_compiled<M: Modulus>(
    work: Seq<FactorBodyWork<M>>,
    groups: Seq<Group<M>>,
    bodies: Seq<Ast<M>>,
    base: int,
) -> bool
    decreases work, 0nat,
{
    let rest = loose(groups, bodies.len() as int);
    &&& groups.len() > 0
    &&& work.len() == groups.len() + rest.len()
    &&& forall|g: int|
        0 <= g < groups.len() ==> g < work.len() && group_compiled(
            #[trigger] work[g],
            groups[g],
            bodies,
            base,
        )
    &&& forall|w: int|
        groups.len() <= w < work.len() ==> single_compiled(
            #[trigger] work[w],
            bodies,
            rest[w - groups.len()],
            base,
        )
}

/// The item evaluates a group by its common factor.
pub open spec fn group_compiled<M: Modulus>(
    item: FactorBodyWork<M>,
    group: Group<M>,
    bodies: Seq<Ast<M>>,
    base: int,
) -> bool
    decreases item, 0nat,
{
    item matches FactorBodyWork::SharedFactor { factor, terms } && is_compiled(
        factor,
        group.factor,
    ) && terms@.len() == group.positions.len() && forall|k: int|
        0 <= k < terms@.len() ==> weighted_compiled(
            #[trigger] terms@[k],
            factored(bodies[group.positions[k]], group.side).unwrap().1,
            bodies.len() - 1 - group.positions[k],
            base,
        )
}

/// The item evaluates one body.
pub open spec fn single_compiled<M: Modulus>(
    item: FactorBodyWork<M>,
    bodies: Seq<Ast<M>>,
    position: int,
    base: int,
) -> bool
    decreases item, 0nat,
{
    item matches FactorBodyWork::Term(term) && weighted_compiled(
        term,
        bodies[position],
        bodies.len() - 1 - position,
        base,
    )
}

/// A compiled expression with a power of the challenge.
pub open spec fn weighted_compiled<M: Modulus>(
    term: WeightedTerm<M>,
    ast: Ast<M>,
    exponent: int,
    base: int,
) -> bool
    decreases term, 0nat,
{
    is_compiled(term.term, ast) && is_power::<M>(term.power@, base, exponent)
}

} // verus!

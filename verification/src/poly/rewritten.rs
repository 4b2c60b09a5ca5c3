//! The plan that cached values turn a plan into.
use crate::field::Modulus;
use crate::poly::caching::CacheAction;
use crate::poly::plan::{
    DistributionWork, EvaluationPlan, FactorBodyPlan, FactorBodyWork, SelectorFamilyRun,
    WeightedTerm,
};
use vstd::prelude::*;

verus! {

/// The plan with the action at position `t` and the actions at its parts, which stand from `t + 1`
/// on: a load takes the place of the part, a store goes around it.
pub open spec fn rewritten<M: Modulus>(
    new: EvaluationPlan<M>,
    old: EvaluationPlan<M>,
    actions: Seq<Option<CacheAction>>,
    t: int,
) -> bool
    decreases old, 1nat,
{
    match actions[t] {
        Some(action) => if action.store {
            new matches EvaluationPlan::CacheStore { slot, inner } && slot == action.slot
                && inside_rewritten(*inner, old, actions, t)
        } else {
            new == (EvaluationPlan::<M>::CacheLoad { slot: action.slot })
        },
        None => inside_rewritten(new, old, actions, t),
    }
}

/// The node is kept, and its parts are rewritten.
pub open spec fn inside_rewritten<M: Modulus>(
    new: EvaluationPlan<M>,
    old: EvaluationPlan<M>,
    actions: Seq<Option<CacheAction>>,
    t: int,
) -> bool
    decreases old, 0nat,
{
    match old {
        EvaluationPlan::Add(a, b) => new matches EvaluationPlan::Add(x, y) && rewritten(
            *x,
            *a,
            actions,
            t + 1,
        ) && rewritten(*y, *b, actions, t + 1 + a.nodes().len()),
        EvaluationPlan::Mul(a, b) => new matches EvaluationPlan::Mul(x, y) && rewritten(
            *x,
            *a,
            actions,
            t + 1,
        ) && rewritten(*y, *b, actions, t + 1 + a.nodes().len()),
        EvaluationPlan::Square(a) => new matches EvaluationPlan::Square(x) && rewritten(
            *x,
            *a,
            actions,
            t + 1,
        ),
        EvaluationPlan::Scale(a, scalar) => new matches EvaluationPlan::Scale(x, s) && s == scalar
            && rewritten(*x, *a, actions, t + 1),
        EvaluationPlan::Horner { base, coefficients } => new matches EvaluationPlan::Horner {
            base: x,
            coefficients: c,
        } && c@ == coefficients@ && rewritten(*x, *base, actions, t + 1),
        EvaluationPlan::DistributePowers { work, base } => {
            new matches EvaluationPlan::DistributePowers { work: w, base: b } && b == base
                && work_rewritten(w@, work@, actions, t + 1)
        },
        _ => new == old,
    }
}

/// The pieces of work, whose parts follow one another.
pub open spec fn work_rewritten<M: Modulus>(
    new: Seq<DistributionWork<M>>,
    old: Seq<DistributionWork<M>>,
    actions: Seq<Option<CacheAction>>,
    t: int,
) -> bool
    decreases old, 0nat,
{
    &&& new.len() == old.len()
    &&& old.len() > 0 ==> work_rewritten(new.drop_last(), old.drop_last(), actions, t)
        && item_rewritten(
        new.last(),
        old[old.len() - 1],
        actions,
        t + DistributionWork::all_nodes(old.drop_last()).len(),
    )
}

/// A piece of work with its query and its power.
pub open spec fn item_rewritten<M: Modulus>(
    new: DistributionWork<M>,
    old: DistributionWork<M>,
    actions: Seq<Option<CacheAction>>,
    t: int,
) -> bool
    decreases old, 0nat,
{
    match old {
        DistributionWork::Term { term, power } => new matches DistributionWork::Term {
            term: x,
            power: p,
        } && p == power && rewritten(x, term, actions, t),
        DistributionWork::SharedFactor { factor, bodies, power } => {
            new matches DistributionWork::SharedFactor { factor: x, bodies: y, power: p } && p
                == power && rewritten(x, factor, actions, t) && bodies_rewritten(
                y,
                bodies,
                actions,
                t + factor.nodes().len(),
            )
        },
        DistributionWork::SelectorFamily { query, runs } => {
            new matches DistributionWork::SelectorFamily { query: q, runs: r } && q == query
                && runs_rewritten(r@, runs@, actions, t)
        },
    }
}

/// The runs of a family, whose parts stand from the last run to the first.
pub open spec fn runs_rewritten<M: Modulus>(
    new: Seq<SelectorFamilyRun<M>>,
    old: Seq<SelectorFamilyRun<M>>,
    actions: Seq<Option<CacheAction>>,
    t: int,
) -> bool
    decreases old, 0nat,
{
    &&& new.len() == old.len()
    &&& old.len() > 0 ==> new.last().power == old.last().power && bodies_rewritten(
        new.last().bodies,
        old[old.len() - 1].bodies,
        actions,
        t,
    ) && runs_rewritten(
        new.drop_last(),
        old.drop_last(),
        actions,
        t + old.last().bodies.nodes().len(),
    )
}

/// The bodies of a run.
pub open spec fn bodies_rewritten<M: Modulus>(
    new: FactorBodyPlan<M>,
    old: FactorBodyPlan<M>,
    actions: Seq<Option<CacheAction>>,
    t: int,
) -> bool
    decreases old, 0nat,
{
    match old {
        FactorBodyPlan::Sequential(plans) => new matches FactorBodyPlan::Sequential(x)
            && sequence_rewritten(x@, plans@, actions, t),
        FactorBodyPlan::Factored(work) => new matches FactorBodyPlan::Factored(x)
            && body_work_rewritten(x@, work@, actions, t),
    }
}

/// Plans whose parts follow one another.
pub open spec fn sequence_rewritten<M: Modulus>(
    new: Seq<EvaluationPlan<M>>,
    old: Seq<EvaluationPlan<M>>,
    actions: Seq<Option<CacheAction>>,
    t: int,
) -> bool
    decreases old, 0nat,
{
    &&& new.len() == old.len()
    &&& old.len() > 0 ==> sequence_rewritten(new.drop_last(), old.drop_last(), actions, t)
        && rewritten(
        new.last(),
        old[old.len() - 1],
        actions,
        t + EvaluationPlan::sequence_nodes(old.drop_last()).len(),
    )
}

/// Pieces of the work of factored bodies, whose parts follow one another.
pub open spec fn body_work_rewritten<M: Modulus>(
    new: Seq<FactorBodyWork<M>>,
    old: Seq<FactorBodyWork<M>>,
    actions: Seq<Option<CacheAction>>,
    t: int,
) -> bool
    decreases old, 0nat,
{
    &&& new.len() == old.len()
    &&& old.len() > 0 ==> body_work_rewritten(new.drop_last(), old.drop_last(), actions, t)
        && body_item_rewritten(
        new.last(),
        old[old.len() - 1],
        actions,
        t + FactorBodyWork::all_nodes(old.drop_last()).len(),
    )
}

/// A piece of the work of factored bodies.
pub open spec fn body_item_rewritten<M: Modulus>(
    new: FactorBodyWork<M>,
    old: FactorBodyWork<M>,
    actions: Seq<Option<CacheAction>>,
    t: int,
) -> bool
    decreases old, 0nat,
{
    match old {
        FactorBodyWork::Term(term) => new matches FactorBodyWork::Term(x) && x.power == term.power
            && rewritten(x.term, term.term, actions, t),
        FactorBodyWork::SharedFactor { factor, terms } => new matches FactorBodyWork::SharedFactor {
            factor: x,
            terms: y,
        } && rewritten(x, factor, actions, t) && terms_rewritten(
            y@,
            terms@,
            actions,
            t + factor.nodes().len(),
        ),
    }
}

/// Weighted terms whose parts follow one another.
pub open spec fn terms_rewritten<M: Modulus>(
    new: Seq<WeightedTerm<M>>,
    old: Seq<WeightedTerm<M>>,
    actions: Seq<Option<CacheAction>>,
    t: int,
) -> bool
    decreases old, 0nat,
{
    &&& new.len() == old.len()
    &&& old.len() > 0 ==> new.last().power == old.last().power && terms_rewritten(
        new.drop_last(),
        old.drop_last(),
        actions,
        t,
    ) && rewritten(
        new.last().term,
        old[old.len() - 1].term,
        actions,
        t + WeightedTerm::all_nodes(old.drop_last()).len(),
    )
}

} // verus!

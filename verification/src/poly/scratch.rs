//! The number of row buffers that running a plan takes.
use crate::field::Modulus;
use crate::poly::cache::capped;
use crate::poly::plan::{
    DistributionWork, EvaluationPlan, FactorBodyPlan, FactorBodyWork, SelectorFamilyRun,
    WeightedTerm,
};
use vstd::prelude::*;

verus! {

/// The larger of two numbers.
pub open spec fn larger(a: nat, b: nat) -> nat {
    if a < b {
        b
    } else {
        a
    }
}

fn larger_of(a: usize, b: usize) -> (r: usize)
    ensures
        forall|x: nat, y: nat|
            a == capped(x) && b == capped(y) ==> r == #[trigger] capped(larger(x, y)),
{
    if a < b {
        b
    } else {
        a
    }
}

impl<M: Modulus> EvaluationPlan<M> {
    /// The buffers that running the plan takes beyond its output.
    pub open spec fn scratch(self) -> nat
        decreases self,
    {
        match self {
            EvaluationPlan::Add(a, b) => larger(a.scratch(), 1 + b.scratch()),
            EvaluationPlan::Mul(a, b) => larger(a.scratch(), 1 + b.scratch()),
            EvaluationPlan::Square(a) => a.scratch(),
            EvaluationPlan::Scale(a, s) => a.scratch(),
            EvaluationPlan::Horner { base, coefficients } => 1 + larger(base.scratch(), 1),
            EvaluationPlan::DistributePowers { work, base } => DistributionWork::max_scratch(work@),
            EvaluationPlan::CacheStore { slot, inner } => inner.scratch(),
            _ => 0,
        }
    }

    /// The largest number of buffers of the plans.
    pub open spec fn max_scratch(plans: Seq<EvaluationPlan<M>>) -> nat
        decreases plans,
    {
        if plans.len() == 0 {
            0
        } else {
            larger(Self::max_scratch(plans.drop_last()), plans.last().scratch())
        }
    }

    /// The number of buffers that running the plan takes, capped at the largest machine integer.
    pub fn required_scratch_slots(&self) -> (r: usize)
        ensures
            r == capped(self.scratch()),
        decreases self,
    {
        match self {
            EvaluationPlan::Add(a, b) => larger_of(
                a.required_scratch_slots(),
                b.required_scratch_slots().saturating_add(1),
            ),
            EvaluationPlan::Mul(a, b) => larger_of(
                a.required_scratch_slots(),
                b.required_scratch_slots().saturating_add(1),
            ),
            EvaluationPlan::Square(a) => a.required_scratch_slots(),
            EvaluationPlan::Scale(a, _) => a.required_scratch_slots(),
            EvaluationPlan::Horner { base, coefficients: _ } => {
                let inner = larger_of(base.required_scratch_slots(), 1);
                proof {
                    assert(capped(1) == 1);
                    assert(inner == capped(larger(base.scratch(), 1)));
                }
                inner.saturating_add(1)
            },
            EvaluationPlan::DistributePowers { work, base: _ } => work_scratch(work),
            EvaluationPlan::CacheStore { slot: _, inner } => inner.required_scratch_slots(),
            _ => 0,
        }
    }
}

fn work_scratch<M: Modulus>(work: &Vec<DistributionWork<M>>) -> (r: usize)
    ensures
        r == capped(DistributionWork::max_scratch(work@)),
    decreases work@,
{
    let mut r: usize = 0;
    let mut k: usize = 0;
    while k < work.len()
        invariant
            k <= work@.len(),
            r == capped(DistributionWork::max_scratch(work@.take(k as int))),
        decreases work@.len() - k,
    {
        assert(work@.take(k + 1).drop_last() =~= work@.take(k as int));
        r = larger_of(r, work[k].required_scratch_slots());
        k += 1;
    }
    assert(work@.take(k as int) =~= work@);
    r
}

fn plans_scratch<M: Modulus>(plans: &Vec<EvaluationPlan<M>>) -> (r: usize)
    ensures
        r == capped(EvaluationPlan::max_scratch(plans@)),
    decreases plans@,
{
    let mut r: usize = 0;
    let mut k: usize = 0;
    while k < plans.len()
        invariant
            k <= plans@.len(),
            r == capped(EvaluationPlan::max_scratch(plans@.take(k as int))),
        decreases plans@.len() - k,
    {
        assert(plans@.take(k + 1).drop_last() =~= plans@.take(k as int));
        r = larger_of(r, plans[k].required_scratch_slots());
        k += 1;
    }
    assert(plans@.take(k as int) =~= plans@);
    r
}

fn body_work_scratch<M: Modulus>(work: &Vec<FactorBodyWork<M>>) -> (r: usize)
    ensures
        r == capped(FactorBodyWork::max_scratch(work@)),
    decreases work@,
{
    let mut r: usize = 0;
    let mut k: usize = 0;
    while k < work.len()
        invariant
            k <= work@.len(),
            r == capped(FactorBodyWork::max_scratch(work@.take(k as int))),
        decreases work@.len() - k,
    {
        assert(work@.take(k + 1).drop_last() =~= work@.take(k as int));
        r = larger_of(r, work[k].required_scratch_slots());
        k += 1;
    }
    assert(work@.take(k as int) =~= work@);
    r
}

fn terms_scratch<M: Modulus>(terms: &Vec<WeightedTerm<M>>) -> (r: usize)
    ensures
        r == capped(WeightedTerm::max_scratch(terms@)),
    decreases terms@,
{
    let mut r: usize = 0;
    let mut k: usize = 0;
    while k < terms.len()
        invariant
            k <= terms@.len(),
            r == capped(WeightedTerm::max_scratch(terms@.take(k as int))),
        decreases terms@.len() - k,
    {
        assert(terms@.take(k + 1).drop_last() =~= terms@.take(k as int));
        r = larger_of(r, terms[k].term.required_scratch_slots());
        k += 1;
    }
    assert(terms@.take(k as int) =~= terms@);
    r
}

fn runs_scratch<M: Modulus>(runs: &Vec<SelectorFamilyRun<M>>) -> (r: usize)
    ensures
        r == capped(SelectorFamilyRun::max_scratch(runs@)),
    decreases runs@,
{
    let mut r: usize = 0;
    let mut k: usize = 0;
    while k < runs.len()
        invariant
            k <= runs@.len(),
            r == capped(SelectorFamilyRun::max_scratch(runs@.take(k as int))),
        decreases runs@.len() - k,
    {
        assert(runs@.take(k + 1).drop_last() =~= runs@.take(k as int));
        r = larger_of(r, runs[k].bodies.required_scratch_slots());
        k += 1;
    }
    assert(runs@.take(k as int) =~= runs@);
    r
}

impl<M: Modulus> DistributionWork<M> {
    /// The buffers that the piece of work takes.
    pub open spec fn scratch(self) -> nat
        decreases self,
    {
        match self {
            DistributionWork::Term { term, power } => term.scratch(),
            DistributionWork::SharedFactor { factor, bodies, power } => 1 + larger(
                factor.scratch(),
                bodies.scratch(),
            ),
            DistributionWork::SelectorFamily { query, runs } => runs@.len() + 1
                + SelectorFamilyRun::max_scratch(runs@),
        }
    }

    /// The largest number of buffers of the pieces.
    pub open spec fn max_scratch(work: Seq<DistributionWork<M>>) -> nat
        decreases work,
    {
        if work.len() == 0 {
            0
        } else {
            larger(Self::max_scratch(work.drop_last()), work.last().scratch())
        }
    }

    /// The number of buffers that the piece of work takes, capped at the largest machine integer.
    pub fn required_scratch_slots(&self) -> (r: usize)
        ensures
            r == capped(self.scratch()),
        decreases self,
    {
        match self {
            DistributionWork::Term { term, power: _ } => term.required_scratch_slots(),
            // One buffer holds the factor while the bodies are evaluated.
            DistributionWork::SharedFactor { factor, bodies, power: _ } => {
                let inner = larger_of(
                    factor.required_scratch_slots(),
                    bodies.required_scratch_slots(),
                );
                assert(inner == capped(larger(factor.scratch(), bodies.scratch())));
                inner.saturating_add(1)
            },
            // The product tree takes one more buffer than its leaves.
            DistributionWork::SelectorFamily { query: _, runs } => runs.len().saturating_add(
                1,
            ).saturating_add(runs_scratch(runs)),
        }
    }
}

impl<M: Modulus> SelectorFamilyRun<M> {
    /// The largest number of buffers of the runs.
    pub open spec fn max_scratch(runs: Seq<SelectorFamilyRun<M>>) -> nat
        decreases runs,
    {
        if runs.len() == 0 {
            0
        } else {
            larger(Self::max_scratch(runs.drop_last()), runs.last().bodies.scratch())
        }
    }
}

impl<M: Modulus> FactorBodyPlan<M> {
    /// The buffers that the bodies take.
    pub open spec fn scratch(self) -> nat
        decreases self,
    {
        match self {
            FactorBodyPlan::Sequential(bodies) => 1 + EvaluationPlan::max_scratch(bodies@),
            FactorBodyPlan::Factored(work) => FactorBodyWork::max_scratch(work@),
        }
    }

    /// The number of buffers that the bodies take, capped at the largest machine integer.
    pub fn required_scratch_slots(&self) -> (r: usize)
        ensures
            r == capped(self.scratch()),
        decreases self,
    {
        match self {
            FactorBodyPlan::Sequential(bodies) => plans_scratch(bodies).saturating_add(1),
            FactorBodyPlan::Factored(work) => body_work_scratch(work),
        }
    }
}

impl<M: Modulus> FactorBodyWork<M> {
    /// The buffers that the piece of work takes.
    pub open spec fn scratch(self) -> nat
        decreases self,
    {
        match self {
            FactorBodyWork::Term(term) => term.term.scratch(),
            FactorBodyWork::SharedFactor { factor, terms } => larger(
                factor.scratch(),
                WeightedTerm::max_scratch(terms@),
            ),
        }
    }

    /// The largest number of buffers of the pieces.
    pub open spec fn max_scratch(work: Seq<FactorBodyWork<M>>) -> nat
        decreases work,
    {
        if work.len() == 0 {
            0
        } else {
            larger(Self::max_scratch(work.drop_last()), work.last().scratch())
        }
    }

    /// The number of buffers that the piece of work takes, capped at the largest machine integer.
    pub fn required_scratch_slots(&self) -> (r: usize)
        ensures
            r == capped(self.scratch()),
        decreases self,
    {
        match self {
            FactorBodyWork::Term(term) => term.term.required_scratch_slots(),
            FactorBodyWork::SharedFactor { factor, terms } => larger_of(
                factor.required_scratch_slots(),
                terms_scratch(terms),
            ),
        }
    }
}

impl<M: Modulus> WeightedTerm<M> {
    /// The largest number of buffers of the terms.
    pub open spec fn max_scratch(terms: Seq<WeightedTerm<M>>) -> nat
        decreases terms,
    {
        if terms.len() == 0 {
            0
        } else {
            larger(Self::max_scratch(terms.drop_last()), terms.last().term.scratch())
        }
    }
}

} // verus!

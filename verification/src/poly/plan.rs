//! The program that an expression is compiled to, and what running it means.
use crate::field::{Fe, Modulus};
use crate::poly::ast::{AstLeaf, Row};
use vstd::prelude::*;

verus! {

/// An evaluator program, compiled once before the chunks are evaluated.
#[allow(inconsistent_fields)]
pub enum EvaluationPlan<M: Modulus> {
    /// Reads a registered polynomial.
    Poly(AstLeaf),
    /// Adds two values.
    Add(Box<EvaluationPlan<M>>, Box<EvaluationPlan<M>>),
    /// Multiplies two values.
    Mul(Box<EvaluationPlan<M>>, Box<EvaluationPlan<M>>),
    /// Squares a value.
    Square(Box<EvaluationPlan<M>>),
    /// Multiplies a value by a field element.
    Scale(Box<EvaluationPlan<M>>, Fe<M>),
    /// Evaluates a polynomial in `base` by Horner's rule; the coefficients go from the constant
    /// upwards.
    Horner { base: Box<EvaluationPlan<M>>, coefficients: Vec<AstLeaf> },
    /// Adds up pieces of work, each with its own challenge power.
    DistributePowers { work: Vec<DistributionWork<M>>, base: Fe<M> },
    /// Evaluates a plan and keeps the value in a cache slot.
    CacheStore { slot: usize, inner: Box<EvaluationPlan<M>> },
    /// Reads a value from a cache slot.
    CacheLoad { slot: usize },
    /// The degree-one term.
    LinearTerm(Fe<M>),
    /// The degree-zero term.
    ConstantTerm(Fe<M>),
}

/// A piece of the work of a linear combination.
pub enum DistributionWork<M: Modulus> {
    /// One term with its challenge power.
    Term { term: EvaluationPlan<M>, power: Fe<M> },
    /// A run of products with a common factor.
    SharedFactor { factor: EvaluationPlan<M>, bodies: FactorBodyPlan<M>, power: Fe<M> },
    /// All selectors of one combination, in the order of their roots.
    SelectorFamily { query: AstLeaf, runs: Vec<SelectorFamilyRun<M>> },
}

/// The terms selected by one selector of a family.
pub struct SelectorFamilyRun<M: Modulus> {
    /// The selected bodies.
    pub bodies: FactorBodyPlan<M>,
    /// The challenge power of the last body.
    pub power: Fe<M>,
}

/// The bodies of a run of products with a common factor.
pub enum FactorBodyPlan<M: Modulus> {
    /// The bodies by Horner's rule over the challenge.
    Sequential(Vec<EvaluationPlan<M>>),
    /// The bodies with their own common factors.
    Factored(Vec<FactorBodyWork<M>>),
}

/// A piece of the work of factored bodies.
pub enum FactorBodyWork<M: Modulus> {
    /// One body.
    Term(WeightedTerm<M>),
    /// Bodies with a common factor.
    SharedFactor { factor: EvaluationPlan<M>, terms: Vec<WeightedTerm<M>> },
}

/// A term with its challenge power.
pub struct WeightedTerm<M: Modulus> {
    /// The term.
    pub term: EvaluationPlan<M>,
    /// The challenge power.
    pub power: Fe<M>,
}

/// The value of the polynomial with the given coefficients, from the constant upwards.
pub open spec fn polynomial_value(coefficients: Seq<AstLeaf>, x: int, row: Row) -> int
    decreases coefficients.len(),
{
    if coefficients.len() == 0 {
        0
    } else {
        (row.leaf)(coefficients.first()) + x * polynomial_value(coefficients.drop_first(), x, row)
    }
}

/// The factor that vanishes where the query has the value `root`, as an integer that stands for
/// `root - query` modulo `p`.
pub open spec fn selector_factor(root: int, query: int, p: int) -> int {
    root + query * (p - 1)
}

/// The product of the selector factors of the roots from `lo + 1` to `hi`.
pub open spec fn selector_product(lo: int, hi: int, query: int, p: int) -> int
    decreases hi - lo,
{
    if hi <= lo {
        1
    } else {
        selector_product(lo, hi - 1, query, p) * selector_factor(hi, query, p)
    }
}

/// The bodies from `lo` to `hi - 1`, each times the selector factors of all other roots in the
/// range.
pub open spec fn selector_sum(bodies: Seq<int>, lo: int, hi: int, query: int, p: int) -> int
    decreases hi - lo,
{
    if hi <= lo {
        0
    } else {
        selector_sum(bodies, lo, hi - 1, query, p) * selector_factor(hi, query, p) + bodies[hi - 1]
            * selector_product(lo, hi - 1, query, p)
    }
}

/// The value of a whole selector family.
pub open spec fn family_value(bodies: Seq<int>, query: int, p: int) -> int {
    selector_sum(bodies, 0, bodies.len() as int, query, p) * query
}

impl<M: Modulus> EvaluationPlan<M> {
    /// The value of a plan without cache accesses.
    pub open spec fn value(self, row: Row) -> int
        decreases self,
    {
        match self {
            EvaluationPlan::Poly(leaf) => (row.leaf)(leaf),
            EvaluationPlan::Add(a, b) => a.value(row) + b.value(row),
            EvaluationPlan::Mul(a, b) => a.value(row) * b.value(row),
            EvaluationPlan::Square(a) => a.value(row) * a.value(row),
            EvaluationPlan::Scale(a, scalar) => a.value(row) * scalar@,
            EvaluationPlan::Horner { base, coefficients } => polynomial_value(
                coefficients@,
                base.value(row),
                row,
            ),
            EvaluationPlan::DistributePowers { work, base } => DistributionWork::total(
                work@,
                base@,
                row,
            ),
            EvaluationPlan::CacheStore { slot, inner } => inner.value(row),
            EvaluationPlan::CacheLoad { slot } => 0,
            EvaluationPlan::LinearTerm(scalar) => (row.linear)(scalar@),
            EvaluationPlan::ConstantTerm(scalar) => (row.constant)(scalar@),
        }
    }

    /// The value of a sequence of plans by Horner's rule over `base`.
    pub open spec fn sequence_value(plans: Seq<EvaluationPlan<M>>, base: int, row: Row) -> int
        decreases plans,
    {
        if plans.len() == 0 {
            0
        } else {
            Self::sequence_value(plans.drop_last(), base, row) * base + plans.last().value(row)
        }
    }

    /// Runs the plan on a cache: its value and the cache afterwards.
    pub open spec fn run(self, row: Row, cache: Seq<int>) -> (int, Seq<int>)
        decreases self,
    {
        match self {
            EvaluationPlan::Poly(leaf) => ((row.leaf)(leaf), cache),
            EvaluationPlan::Add(a, b) => {
                let (x, cache) = a.run(row, cache);
                let (y, cache) = b.run(row, cache);
                (x + y, cache)
            },
            EvaluationPlan::Mul(a, b) => {
                let (x, cache) = a.run(row, cache);
                let (y, cache) = b.run(row, cache);
                (x * y, cache)
            },
            EvaluationPlan::Square(a) => {
                let (x, cache) = a.run(row, cache);
                (x * x, cache)
            },
            EvaluationPlan::Scale(a, scalar) => {
                let (x, cache) = a.run(row, cache);
                (x * scalar@, cache)
            },
            EvaluationPlan::Horner { base, coefficients } => {
                let (x, cache) = base.run(row, cache);
                (polynomial_value(coefficients@, x, row), cache)
            },
            EvaluationPlan::DistributePowers { work, base } => DistributionWork::run_all(
                work@,
                base@,
                row,
                cache,
            ),
            EvaluationPlan::CacheStore { slot, inner } => {
                let (x, cache) = inner.run(row, cache);
                (x, cache.update(slot as int, x % M::p()))
            },
            EvaluationPlan::CacheLoad { slot } => (cache[slot as int], cache),
            EvaluationPlan::LinearTerm(scalar) => ((row.linear)(scalar@), cache),
            EvaluationPlan::ConstantTerm(scalar) => ((row.constant)(scalar@), cache),
        }
    }

    /// Runs a sequence of plans, combining their values by Horner's rule over `base`.
    pub open spec fn run_sequence(
        plans: Seq<EvaluationPlan<M>>,
        base: int,
        row: Row,
        cache: Seq<int>,
    ) -> (int, Seq<int>)
        decreases plans,
    {
        if plans.len() == 0 {
            (0, cache)
        } else {
            let (x, cache) = Self::run_sequence(plans.drop_last(), base, row, cache);
            let (y, cache) = plans.last().run(row, cache);
            (x * base + y, cache)
        }
    }

    /// The plan and all its parts, each before its own parts, in the order in which they run.
    pub open spec fn nodes(self) -> Seq<EvaluationPlan<M>>
        decreases self,
    {
        seq![self] + match self {
            EvaluationPlan::Add(a, b) => a.nodes() + b.nodes(),
            EvaluationPlan::Mul(a, b) => a.nodes() + b.nodes(),
            EvaluationPlan::Square(a) => a.nodes(),
            EvaluationPlan::Scale(a, scalar) => a.nodes(),
            EvaluationPlan::Horner { base, coefficients } => base.nodes(),
            EvaluationPlan::DistributePowers { work, base } => DistributionWork::all_nodes(work@),
            _ => Seq::empty(),
        }
    }

    /// The parts of a sequence of plans.
    pub open spec fn sequence_nodes(plans: Seq<EvaluationPlan<M>>) -> Seq<EvaluationPlan<M>>
        decreases plans,
    {
        if plans.len() == 0 {
            Seq::empty()
        } else {
            Self::sequence_nodes(plans.drop_last()) + plans.last().nodes()
        }
    }

    /// The node itself neither stores to the cache nor loads from it.
    pub open spec fn cache_free_node(self) -> bool {
        !(self is CacheStore) && !(self is CacheLoad)
    }

    /// No part accesses the cache.
    pub open spec fn cache_free(self) -> bool {
        forall|i: int|
            0 <= i < self.nodes().len() ==> (#[trigger] self.nodes()[i]).cache_free_node()
    }

    /// Every leaf satisfies a predicate, every cache slot is below `slots`, and no list that
    /// needs an entry is empty.
    pub open spec fn sound(self, f: spec_fn(AstLeaf) -> bool, slots: nat) -> bool
        decreases self,
    {
        match self {
            EvaluationPlan::Poly(leaf) => f(leaf),
            EvaluationPlan::Add(a, b) => a.sound(f, slots) && b.sound(f, slots),
            EvaluationPlan::Mul(a, b) => a.sound(f, slots) && b.sound(f, slots),
            EvaluationPlan::Square(a) => a.sound(f, slots),
            EvaluationPlan::Scale(a, scalar) => a.sound(f, slots),
            EvaluationPlan::Horner { base, coefficients } => {
                &&& base.sound(f, slots)
                &&& coefficients@.len() > 0
                &&& forall|i: int| 0 <= i < coefficients@.len() ==> f(#[trigger] coefficients@[i])
            },
            EvaluationPlan::DistributePowers { work, base } => forall|i: int|
                0 <= i < work@.len() ==> (#[trigger] work@[i]).sound(f, slots),
            EvaluationPlan::CacheStore { slot, inner } => slot < slots && inner.sound(f, slots),
            EvaluationPlan::CacheLoad { slot } => slot < slots,
            _ => true,
        }
    }
}

impl<M: Modulus> DistributionWork<M> {
    /// The value of the piece of work.
    pub open spec fn value(self, base: int, row: Row) -> int
        decreases self,
    {
        match self {
            DistributionWork::Term { term, power } => term.value(row) * power@,
            DistributionWork::SharedFactor { factor, bodies, power } => bodies.value(base, row)
                * factor.value(row) * power@,
            DistributionWork::SelectorFamily { query, runs } => family_value(
                SelectorFamilyRun::values(runs@, base, row),
                (row.leaf)(query),
                M::p(),
            ),
        }
    }

    /// The sum of all pieces.
    pub open spec fn total(work: Seq<DistributionWork<M>>, base: int, row: Row) -> int
        decreases work,
    {
        if work.len() == 0 {
            0
        } else {
            Self::total(work.drop_last(), base, row) + work.last().value(base, row)
        }
    }

    /// Runs the piece of work on a cache.
    pub open spec fn run(self, base: int, row: Row, cache: Seq<int>) -> (int, Seq<int>)
        decreases self,
    {
        match self {
            DistributionWork::Term { term, power } => {
                let (x, cache) = term.run(row, cache);
                (x * power@, cache)
            },
            DistributionWork::SharedFactor { factor, bodies, power } => {
                let (x, cache) = factor.run(row, cache);
                let (y, cache) = bodies.run(base, row, cache);
                (y * x * power@, cache)
            },
            DistributionWork::SelectorFamily { query, runs } => {
                let (bodies, cache) = SelectorFamilyRun::run_all(runs@, base, row, cache);
                (family_value(bodies, (row.leaf)(query), M::p()), cache)
            },
        }
    }

    /// Runs all pieces in order.
    pub open spec fn run_all(
        work: Seq<DistributionWork<M>>,
        base: int,
        row: Row,
        cache: Seq<int>,
    ) -> (int, Seq<int>)
        decreases work,
    {
        if work.len() == 0 {
            (0, cache)
        } else {
            let (x, cache) = Self::run_all(work.drop_last(), base, row, cache);
            let (y, cache) = work.last().run(base, row, cache);
            (x + y, cache)
        }
    }

    /// The parts of the piece of work.
    pub open spec fn nodes(self) -> Seq<EvaluationPlan<M>>
        decreases self,
    {
        match self {
            DistributionWork::Term { term, power } => term.nodes(),
            DistributionWork::SharedFactor { factor, bodies, power } => factor.nodes()
                + bodies.nodes(),
            DistributionWork::SelectorFamily { query, runs } => SelectorFamilyRun::all_nodes(runs@),
        }
    }

    /// The parts of all pieces.
    pub open spec fn all_nodes(work: Seq<DistributionWork<M>>) -> Seq<EvaluationPlan<M>>
        decreases work,
    {
        if work.len() == 0 {
            Seq::empty()
        } else {
            Self::all_nodes(work.drop_last()) + work.last().nodes()
        }
    }

    /// See [`EvaluationPlan::sound`].
    pub open spec fn sound(self, f: spec_fn(AstLeaf) -> bool, slots: nat) -> bool
        decreases self,
    {
        match self {
            DistributionWork::Term { term, power } => term.sound(f, slots),
            DistributionWork::SharedFactor { factor, bodies, power } => factor.sound(f, slots)
                && bodies.sound(f, slots),
            DistributionWork::SelectorFamily { query, runs } => {
                &&& f(query)
                &&& runs@.len() >= 2
                &&& forall|i: int|
                    0 <= i < runs@.len() ==> (#[trigger] runs@[i]).bodies.sound(f, slots)
            },
        }
    }
}

impl<M: Modulus> SelectorFamilyRun<M> {
    /// The weighted bodies of the runs, in the order of the runs.
    pub open spec fn values(runs: Seq<SelectorFamilyRun<M>>, base: int, row: Row) -> Seq<int>
        decreases runs,
    {
        if runs.len() == 0 {
            Seq::empty()
        } else {
            Self::values(runs.drop_last(), base, row).push(
                runs.last().bodies.value(base, row) * runs.last().power@,
            )
        }
    }

    /// Runs the bodies from the last run to the first.
    pub open spec fn run_all(
        runs: Seq<SelectorFamilyRun<M>>,
        base: int,
        row: Row,
        cache: Seq<int>,
    ) -> (Seq<int>, Seq<int>)
        decreases runs,
    {
        if runs.len() == 0 {
            (Seq::empty(), cache)
        } else {
            let (x, cache) = runs.last().bodies.run(base, row, cache);
            let (xs, cache) = Self::run_all(runs.drop_last(), base, row, cache);
            (xs.push(x * runs.last().power@), cache)
        }
    }

    /// The parts of the runs, from the last run to the first.
    pub open spec fn all_nodes(runs: Seq<SelectorFamilyRun<M>>) -> Seq<EvaluationPlan<M>>
        decreases runs,
    {
        if runs.len() == 0 {
            Seq::empty()
        } else {
            runs.last().bodies.nodes() + Self::all_nodes(runs.drop_last())
        }
    }
}

impl<M: Modulus> FactorBodyPlan<M> {
    /// The value of the bodies, by Horner's rule over `base`.
    pub open spec fn value(self, base: int, row: Row) -> int
        decreases self,
    {
        match self {
            FactorBodyPlan::Sequential(bodies) => EvaluationPlan::sequence_value(
                bodies@,
                base,
                row,
            ),
            FactorBodyPlan::Factored(work) => FactorBodyWork::total(work@, row),
        }
    }

    /// Runs the bodies on a cache.
    pub open spec fn run(self, base: int, row: Row, cache: Seq<int>) -> (int, Seq<int>)
        decreases self,
    {
        match self {
            FactorBodyPlan::Sequential(bodies) => EvaluationPlan::run_sequence(
                bodies@,
                base,
                row,
                cache,
            ),
            FactorBodyPlan::Factored(work) => FactorBodyWork::run_all(work@, row, cache),
        }
    }

    /// The parts of the bodies.
    pub open spec fn nodes(self) -> Seq<EvaluationPlan<M>>
        decreases self,
    {
        match self {
            FactorBodyPlan::Sequential(bodies) => EvaluationPlan::sequence_nodes(bodies@),
            FactorBodyPlan::Factored(work) => FactorBodyWork::all_nodes(work@),
        }
    }

    /// See [`EvaluationPlan::sound`].
    pub open spec fn sound(self, f: spec_fn(AstLeaf) -> bool, slots: nat) -> bool
        decreases self,
    {
        match self {
            FactorBodyPlan::Sequential(bodies) => {
                &&& bodies@.len() > 0
                &&& forall|i: int| 0 <= i < bodies@.len() ==> (#[trigger] bodies@[i]).sound(f, slots)
            },
            FactorBodyPlan::Factored(work) => forall|i: int|
                0 <= i < work@.len() ==> (#[trigger] work@[i]).sound(f, slots),
        }
    }
}

impl<M: Modulus> FactorBodyWork<M> {
    /// The value of the piece of work.
    pub open spec fn value(self, row: Row) -> int
        decreases self,
    {
        match self {
            FactorBodyWork::Term(term) => term.term.value(row) * term.power@,
            FactorBodyWork::SharedFactor { factor, terms } => WeightedTerm::total(terms@, row)
                * factor.value(row),
        }
    }

    /// The sum of all pieces.
    pub open spec fn total(work: Seq<FactorBodyWork<M>>, row: Row) -> int
        decreases work,
    {
        if work.len() == 0 {
            0
        } else {
            Self::total(work.drop_last(), row) + work.last().value(row)
        }
    }

    /// Runs the piece of work on a cache.
    pub open spec fn run(self, row: Row, cache: Seq<int>) -> (int, Seq<int>)
        decreases self,
    {
        match self {
            FactorBodyWork::Term(term) => {
                let (x, cache) = term.term.run(row, cache);
                (x * term.power@, cache)
            },
            FactorBodyWork::SharedFactor { factor, terms } => {
                let (x, cache) = factor.run(row, cache);
                let (y, cache) = WeightedTerm::run_all(terms@, row, cache);
                (y * x, cache)
            },
        }
    }

    /// Runs all pieces in order.
    pub open spec fn run_all(work: Seq<FactorBodyWork<M>>, row: Row, cache: Seq<int>) -> (
        int,
        Seq<int>,
    )
        decreases work,
    {
        if work.len() == 0 {
            (0, cache)
        } else {
            let (x, cache) = Self::run_all(work.drop_last(), row, cache);
            let (y, cache) = work.last().run(row, cache);
            (x + y, cache)
        }
    }

    /// The parts of the piece of work.
    pub open spec fn nodes(self) -> Seq<EvaluationPlan<M>>
        decreases self,
    {
        match self {
            FactorBodyWork::Term(term) => term.term.nodes(),
            FactorBodyWork::SharedFactor { factor, terms } => factor.nodes()
                + WeightedTerm::all_nodes(terms@),
        }
    }

    /// The parts of all pieces.
    pub open spec fn all_nodes(work: Seq<FactorBodyWork<M>>) -> Seq<EvaluationPlan<M>>
        decreases work,
    {
        if work.len() == 0 {
            Seq::empty()
        } else {
            Self::all_nodes(work.drop_last()) + work.last().nodes()
        }
    }

    /// See [`EvaluationPlan::sound`].
    pub open spec fn sound(self, f: spec_fn(AstLeaf) -> bool, slots: nat) -> bool
        decreases self,
    {
        match self {
            FactorBodyWork::Term(term) => term.term.sound(f, slots),
            FactorBodyWork::SharedFactor { factor, terms } => {
                &&& factor.sound(f, slots)
                &&& forall|i: int|
                    0 <= i < terms@.len() ==> (#[trigger] terms@[i]).term.sound(f, slots)
            },
        }
    }
}

impl<M: Modulus> WeightedTerm<M> {
    /// The sum of the weighted terms.
    pub open spec fn total(terms: Seq<WeightedTerm<M>>, row: Row) -> int
        decreases terms,
    {
        if terms.len() == 0 {
            0
        } else {
            Self::total(terms.drop_last(), row) + terms.last().term.value(row)
                * terms.last().power@
        }
    }

    /// Runs the weighted terms in order.
    pub open spec fn run_all(terms: Seq<WeightedTerm<M>>, row: Row, cache: Seq<int>) -> (
        int,
        Seq<int>,
    )
        decreases terms,
    {
        if terms.len() == 0 {
            (0, cache)
        } else {
            let (x, cache) = Self::run_all(terms.drop_last(), row, cache);
            let (y, cache) = terms.last().term.run(row, cache);
            (x + y * terms.last().power@, cache)
        }
    }

    /// The parts of the weighted terms.
    pub open spec fn all_nodes(terms: Seq<WeightedTerm<M>>) -> Seq<EvaluationPlan<M>>
        decreases terms,
    {
        if terms.len() == 0 {
            Seq::empty()
        } else {
            Self::all_nodes(terms.drop_last()) + terms.last().term.nodes()
        }
    }
}

} // verus!

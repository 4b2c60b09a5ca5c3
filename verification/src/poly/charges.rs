//! What a plan is charged: the multiplications and visits of its parts, and the buffers that are in
//! use at once while it runs.
use crate::field::Modulus;
use crate::poly::cache::{capped, key_le};
use crate::poly::cse::{is_repeat, members, repeats, savings_key};
use crate::poly::plan::{
    DistributionWork, EvaluationPlan, FactorBodyPlan, FactorBodyWork, SelectorFamilyRun,
    WeightedTerm,
};
use vstd::prelude::*;

verus! {

/// The multiplications of one part, without those of its own parts: one for a product, one for a
/// scalar other than one, minus one and two, and one for each coefficient but the first of a
/// polynomial.
pub open spec fn multiplications<M: Modulus>(part: EvaluationPlan<M>) -> int {
    match part {
        EvaluationPlan::Mul(a, b) => 1,
        EvaluationPlan::Scale(a, s) => if s@ == 1 || s@ == 2 || s@ + 1 == M::p() {
            0
        } else {
            1
        },
        EvaluationPlan::Horner { base, coefficients } => coefficients@.len() - 1,
        _ => 0,
    }
}

/// The visits of one part: one, and one for each coefficient of a polynomial.
pub open spec fn visits<M: Modulus>(part: EvaluationPlan<M>) -> int {
    match part {
        EvaluationPlan::Horner { base, coefficients } => 1 + coefficients@.len() as int,
        _ => 1,
    }
}

/// The multiplications and the visits of all parts.
pub open spec fn charged<M: Modulus>(parts: Seq<EvaluationPlan<M>>) -> (int, int)
    decreases parts.len(),
{
    if parts.len() == 0 {
        (0, 0)
    } else {
        let (m, v) = charged(parts.drop_last());
        (m + multiplications(parts.last()), v + visits(parts.last()))
    }
}

proof fn lemma_charged_concat<M: Modulus>(a: Seq<EvaluationPlan<M>>, b: Seq<EvaluationPlan<M>>)
    ensures
        charged(a + b).0 == charged(a).0 + charged(b).0,
        charged(a + b).1 == charged(a).1 + charged(b).1,
    decreases b.len(),
{
    if b.len() == 0 {
        assert(a + b =~= a);
    } else {
        lemma_charged_concat(a, b.drop_last());
        assert((a + b).drop_last() =~= a + b.drop_last());
    }
}

/// The cost of a part is counted by its own parts: it is no linear combination, and a polynomial
/// has coefficients.
pub open spec fn is_counted<M: Modulus>(part: EvaluationPlan<M>) -> bool {
    match part {
        EvaluationPlan::Horner { base, coefficients } => coefficients@.len() > 0,
        EvaluationPlan::DistributePowers { work, base } => false,
        _ => true,
    }
}

/// The cost of a plan is the sum of the multiplications and the visits of its parts.
pub proof fn lemma_cost_counts_parts<M: Modulus>(plan: EvaluationPlan<M>)
    requires
        forall|k: int| 0 <= k < plan.nodes().len() ==> is_counted(#[trigger] plan.nodes()[k]),
    ensures
        plan.cost().0 == charged(plan.nodes()).0,
        plan.cost().1 == charged(plan.nodes()).1,
    decreases plan,
{
    let parts = plan.nodes().drop_first();
    assert(plan.nodes() =~= seq![plan] + parts);
    assert(plan.nodes()[0] == plan);
    lemma_charged_concat(seq![plan], parts);
    assert(seq![plan].drop_last() =~= Seq::empty());
    assert(charged(seq![plan]) == (multiplications(plan), visits(plan))) by {
        assert(charged(Seq::<EvaluationPlan<M>>::empty()) == (0int, 0int));
    }
    match plan {
        EvaluationPlan::Add(a, b) => {
            lemma_two_parts(plan, *a, *b);
            lemma_cost_counts_parts(*a);
            lemma_cost_counts_parts(*b);
            lemma_charged_concat(a.nodes(), b.nodes());
            assert(parts =~= a.nodes() + b.nodes());
        },
        EvaluationPlan::Mul(a, b) => {
            lemma_two_parts(plan, *a, *b);
            lemma_cost_counts_parts(*a);
            lemma_cost_counts_parts(*b);
            lemma_charged_concat(a.nodes(), b.nodes());
            assert(parts =~= a.nodes() + b.nodes());
        },
        EvaluationPlan::Square(a) => {
            lemma_one_part(plan, *a);
            lemma_cost_counts_parts(*a);
            assert(parts =~= a.nodes());
        },
        EvaluationPlan::Scale(a, s) => {
            lemma_one_part(plan, *a);
            lemma_cost_counts_parts(*a);
            assert(parts =~= a.nodes());
        },
        EvaluationPlan::Horner { base, coefficients } => {
            lemma_one_part(plan, *base);
            lemma_cost_counts_parts(*base);
            assert(parts =~= base.nodes());
        },
        _ => {
            assert(parts =~= Seq::empty());
        },
    }
}

proof fn lemma_one_part<M: Modulus>(plan: EvaluationPlan<M>, a: EvaluationPlan<M>)
    requires
        plan.nodes() == seq![plan] + a.nodes(),
        forall|k: int| 0 <= k < plan.nodes().len() ==> is_counted(#[trigger] plan.nodes()[k]),
    ensures
        forall|k: int| 0 <= k < a.nodes().len() ==> is_counted(#[trigger] a.nodes()[k]),
{
    assert forall|k: int| 0 <= k < a.nodes().len() implies is_counted(#[trigger] a.nodes()[k]) by {
        assert(plan.nodes()[k + 1] == a.nodes()[k]);
    }
}

proof fn lemma_two_parts<M: Modulus>(
    plan: EvaluationPlan<M>,
    a: EvaluationPlan<M>,
    b: EvaluationPlan<M>,
)
    requires
        plan.nodes() == seq![plan] + (a.nodes() + b.nodes()),
        forall|k: int| 0 <= k < plan.nodes().len() ==> is_counted(#[trigger] plan.nodes()[k]),
    ensures
        forall|k: int| 0 <= k < a.nodes().len() ==> is_counted(#[trigger] a.nodes()[k]),
        forall|k: int| 0 <= k < b.nodes().len() ==> is_counted(#[trigger] b.nodes()[k]),
{
    assert forall|k: int| 0 <= k < a.nodes().len() implies is_counted(#[trigger] a.nodes()[k]) by {
        assert(plan.nodes()[k + 1] == a.nodes()[k]);
    }
    assert forall|k: int| 0 <= k < b.nodes().len() implies is_counted(#[trigger] b.nodes()[k]) by {
        assert(plan.nodes()[k + 1 + a.nodes().len()] == b.nodes()[k]);
    }
}

/// Plans whose cost is not counted by their parts: a linear combination is visited once, and an
/// empty polynomial takes no multiplications.
pub proof fn lemma_cost_of_others<M: Modulus>(plan: EvaluationPlan<M>)
    ensures
        plan is DistributePowers ==> plan.cost() == (0nat, 1nat),
        plan matches EvaluationPlan::Horner { base, coefficients } ==> (coefficients@.len() == 0
            ==> plan.cost().0 == 0 && plan.cost().1 == 1 + base.cost().1),
{
}

/// A capped count is the count where that is a machine integer, and the largest one otherwise.
pub proof fn lemma_capped(n: nat)
    ensures
        capped(n) <= n,
        capped(n) < n ==> capped(n) == usize::MAX,
        n <= usize::MAX ==> capped(n) == n,
{
}

/// The number of parts from `leader` up to `i` that are built like the one at `leader`.
pub open spec fn copies<M: Modulus>(parts: Seq<EvaluationPlan<M>>, leader: int, i: int) -> int
    decreases i - leader,
{
    if i <= leader {
        0
    } else {
        copies(parts, leader, i - 1) + if parts[leader].same(parts[i - 1]) {
            1int
        } else {
            0
        }
    }
}

proof fn lemma_copies<M: Modulus>(parts: Seq<EvaluationPlan<M>>, leader: int, i: int)
    ensures
        copies(parts, leader, i) == members(parts, leader, i).len(),
    decreases i - leader,
{
    if i > leader {
        lemma_copies(parts, leader, i - 1);
    }
}

/// Repeated parts are taken by what caching them saves: first by the multiplications of all copies
/// but one, then by their visits, then by their positions.
pub proof fn lemma_savings_order<M: Modulus>(parts: Seq<EvaluationPlan<M>>, a: int, b: int)
    requires
        0 <= a < parts.len() <= usize::MAX,
        0 <= b < parts.len(),
        copies(parts, a, parts.len() as int) >= 1,
        copies(parts, b, parts.len() as int) >= 1,
        parts[a].cost().0 <= usize::MAX,
        parts[a].cost().1 <= usize::MAX,
        parts[b].cost().0 <= usize::MAX,
        parts[b].cost().1 <= usize::MAX,
        (copies(parts, a, parts.len() as int) - 1) * parts[a].cost().0 <= usize::MAX,
        (copies(parts, a, parts.len() as int) - 1) * parts[a].cost().1 <= usize::MAX,
        (copies(parts, b, parts.len() as int) - 1) * parts[b].cost().0 <= usize::MAX,
        (copies(parts, b, parts.len() as int) - 1) * parts[b].cost().1 <= usize::MAX,
    ensures
        ({
            let (x, y) = (
                copies(parts, a, parts.len() as int) - 1,
                copies(parts, b, parts.len() as int) - 1,
            );
            let (ma, mb) = (x * parts[a].cost().0, y * parts[b].cost().0);
            let (va, vb) = (x * parts[a].cost().1, y * parts[b].cost().1);
            key_le(savings_key(parts, a), savings_key(parts, b)) <==> ma > mb || ma == mb && (va
                > vb || va == vb && a <= b)
        }),
{
    lemma_copies(parts, a, parts.len() as int);
    lemma_copies(parts, b, parts.len() as int);
    let (x, y) = (
        (copies(parts, a, parts.len() as int) - 1) as nat,
        (copies(parts, b, parts.len() as int) - 1) as nat,
    );
    assert(x * parts[a].cost().0 >= 0 && x * parts[a].cost().1 >= 0 && y * parts[b].cost().0 >= 0
        && y * parts[b].cost().1 >= 0);
}

/// Parts repeat exactly where two of them are built alike and take at least one multiplication.
pub proof fn lemma_repeated_parts<M: Modulus>(parts: Seq<EvaluationPlan<M>>)
    ensures
        repeats(parts) <==> exists|i: int, j: int|
            0 <= i < j < parts.len() && #[trigger] parts[i].same(parts[j]) && parts[i].cost().0
                >= 1,
{
    if repeats(parts) {
        let (i, j) = choose|i: int, j: int| is_repeat(parts, i, j);
        assert(parts[i].same(parts[j]));
    }
    if exists|i: int, j: int|
        0 <= i < j < parts.len() && #[trigger] parts[i].same(parts[j]) && parts[i].cost().0 >= 1 {
        let (i, j) = choose|i: int, j: int|
            0 <= i < j < parts.len() && #[trigger] parts[i].same(parts[j]) && parts[i].cost().0
                >= 1;
        assert(is_repeat(parts, i, j));
    }
}

impl<M: Modulus> EvaluationPlan<M> {
    /// The plan runs where `n` buffers are free: the second operand of a sum or a product has a
    /// buffer of its own while the first is kept, and a polynomial has one for its base and one
    /// for its coefficients.
    pub open spec fn runs_in(self, n: int) -> bool
        decreases self,
    {
        &&& n >= 0
        &&& match self {
            EvaluationPlan::Add(a, b) => a.runs_in(n) && b.runs_in(n - 1),
            EvaluationPlan::Mul(a, b) => a.runs_in(n) && b.runs_in(n - 1),
            EvaluationPlan::Square(a) => a.runs_in(n),
            EvaluationPlan::Scale(a, s) => a.runs_in(n),
            EvaluationPlan::Horner { base, coefficients } => base.runs_in(n - 1) && n >= 2,
            EvaluationPlan::DistributePowers { work, base } => forall|i: int|
                0 <= i < work@.len() ==> (#[trigger] work@[i]).runs_in(n),
            EvaluationPlan::CacheStore { slot, inner } => inner.runs_in(n),
            _ => true,
        }
    }

    /// A plan runs exactly where as many buffers are free as its scratch count says.
    pub proof fn lemma_scratch_suffices(self, n: int)
        ensures
            self.runs_in(n) <==> n >= self.scratch(),
        decreases self,
    {
        match self {
            EvaluationPlan::Add(a, b) => {
                a.lemma_scratch_suffices(n);
                b.lemma_scratch_suffices(n - 1);
            },
            EvaluationPlan::Mul(a, b) => {
                a.lemma_scratch_suffices(n);
                b.lemma_scratch_suffices(n - 1);
            },
            EvaluationPlan::Square(a) => {
                a.lemma_scratch_suffices(n);
            },
            EvaluationPlan::Scale(a, s) => {
                a.lemma_scratch_suffices(n);
            },
            EvaluationPlan::Horner { base, coefficients } => {
                base.lemma_scratch_suffices(n - 1);
            },
            EvaluationPlan::DistributePowers { work, base } => {
                assert forall|i: int| 0 <= i < work@.len() implies ((#[trigger] work@[i]).runs_in(
                    n,
                ) <==> n >= work@[i].scratch()) by {
                    work@[i].lemma_scratch_suffices(n);
                }
                DistributionWork::lemma_largest(work@, n);
            },
            EvaluationPlan::CacheStore { slot, inner } => {
                inner.lemma_scratch_suffices(n);
            },
            _ => {},
        }
    }

    proof fn lemma_largest(plans: Seq<EvaluationPlan<M>>, n: int)
        ensures
            n >= Self::max_scratch(plans) <==> n >= 0 && forall|i: int|
                0 <= i < plans.len() ==> n >= (#[trigger] plans[i]).scratch(),
        decreases plans.len(),
    {
        if plans.len() > 0 {
            let front = plans.drop_last();
            Self::lemma_largest(front, n);
            if n >= Self::max_scratch(plans) {
                assert forall|i: int| 0 <= i < plans.len() implies n >= (
                #[trigger] plans[i]).scratch() by {
                    if i < front.len() {
                        assert(front[i] == plans[i]);
                    }
                }
            }
            if n >= 0 && forall|i: int|
                0 <= i < plans.len() ==> n >= (#[trigger] plans[i]).scratch() {
                assert forall|i: int| 0 <= i < front.len() implies n >= (
                #[trigger] front[i]).scratch() by {
                    assert(plans[i] == front[i]);
                }
                assert(plans[plans.len() - 1] == plans.last());
            }
        }
    }
}

impl<M: Modulus> DistributionWork<M> {
    /// The piece of work runs where `n` buffers are free: a common factor has a buffer while the
    /// bodies run, and a family one for each run and one for the products.
    pub open spec fn runs_in(self, n: int) -> bool
        decreases self,
    {
        &&& n >= 0
        &&& match self {
            DistributionWork::Term { term, power } => term.runs_in(n),
            DistributionWork::SharedFactor { factor, bodies, power } => factor.runs_in(n - 1)
                && bodies.runs_in(n - 1),
            DistributionWork::SelectorFamily { query, runs } => n >= runs@.len() + 1 && forall|
                i: int,
            |
                0 <= i < runs@.len() ==> (#[trigger] runs@[i]).bodies.runs_in(n - runs@.len() - 1),
        }
    }

    /// See [`EvaluationPlan::lemma_scratch_suffices`].
    pub proof fn lemma_scratch_suffices(self, n: int)
        ensures
            self.runs_in(n) <==> n >= self.scratch(),
        decreases self,
    {
        match self {
            DistributionWork::Term { term, power } => {
                term.lemma_scratch_suffices(n);
            },
            DistributionWork::SharedFactor { factor, bodies, power } => {
                factor.lemma_scratch_suffices(n - 1);
                bodies.lemma_scratch_suffices(n - 1);
            },
            DistributionWork::SelectorFamily { query, runs } => {
                let m = n - runs@.len() - 1;
                assert forall|i: int| 0 <= i < runs@.len() implies ((
                #[trigger] runs@[i]).bodies.runs_in(m) <==> m >= runs@[i].bodies.scratch()) by {
                    runs@[i].bodies.lemma_scratch_suffices(m);
                }
                SelectorFamilyRun::lemma_largest(runs@, m);
            },
        }
    }

    proof fn lemma_largest(work: Seq<DistributionWork<M>>, n: int)
        ensures
            n >= Self::max_scratch(work) <==> n >= 0 && forall|i: int|
                0 <= i < work.len() ==> n >= (#[trigger] work[i]).scratch(),
        decreases work.len(),
    {
        if work.len() > 0 {
            let front = work.drop_last();
            Self::lemma_largest(front, n);
            if n >= Self::max_scratch(work) {
                assert forall|i: int| 0 <= i < work.len() implies n >= (
                #[trigger] work[i]).scratch() by {
                    if i < front.len() {
                        assert(front[i] == work[i]);
                    }
                }
            }
            if n >= 0 && forall|i: int|
                0 <= i < work.len() ==> n >= (#[trigger] work[i]).scratch() {
                assert forall|i: int| 0 <= i < front.len() implies n >= (
                #[trigger] front[i]).scratch() by {
                    assert(work[i] == front[i]);
                }
                assert(work[work.len() - 1] == work.last());
            }
        }
    }
}

impl<M: Modulus> SelectorFamilyRun<M> {
    proof fn lemma_largest(runs: Seq<SelectorFamilyRun<M>>, n: int)
        ensures
            n >= Self::max_scratch(runs) <==> n >= 0 && forall|i: int|
                0 <= i < runs.len() ==> n >= (#[trigger] runs[i]).bodies.scratch(),
        decreases runs.len(),
    {
        if runs.len() > 0 {
            let front = runs.drop_last();
            Self::lemma_largest(front, n);
            if n >= Self::max_scratch(runs) {
                assert forall|i: int| 0 <= i < runs.len() implies n >= (
                #[trigger] runs[i]).bodies.scratch() by {
                    if i < front.len() {
                        assert(front[i] == runs[i]);
                    }
                }
            }
            if n >= 0 && forall|i: int|
                0 <= i < runs.len() ==> n >= (#[trigger] runs[i]).bodies.scratch() {
                assert forall|i: int| 0 <= i < front.len() implies n >= (
                #[trigger] front[i]).bodies.scratch() by {
                    assert(runs[i] == front[i]);
                }
                assert(runs[runs.len() - 1] == runs.last());
            }
        }
    }
}

impl<M: Modulus> FactorBodyPlan<M> {
    /// The bodies run where `n` buffers are free: bodies by Horner's rule have a buffer for the
    /// next one.
    pub open spec fn runs_in(self, n: int) -> bool
        decreases self,
    {
        &&& n >= 0
        &&& match self {
            FactorBodyPlan::Sequential(bodies) => n >= 1 && forall|i: int|
                0 <= i < bodies@.len() ==> (#[trigger] bodies@[i]).runs_in(n - 1),
            FactorBodyPlan::Factored(work) => forall|i: int|
                0 <= i < work@.len() ==> (#[trigger] work@[i]).runs_in(n),
        }
    }

    /// See [`EvaluationPlan::lemma_scratch_suffices`].
    pub proof fn lemma_scratch_suffices(self, n: int)
        ensures
            self.runs_in(n) <==> n >= self.scratch(),
        decreases self,
    {
        match self {
            FactorBodyPlan::Sequential(bodies) => {
                assert forall|i: int| 0 <= i < bodies@.len() implies ((
                #[trigger] bodies@[i]).runs_in(n - 1) <==> n - 1 >= bodies@[i].scratch()) by {
                    bodies@[i].lemma_scratch_suffices(n - 1);
                }
                EvaluationPlan::lemma_largest(bodies@, n - 1);
            },
            FactorBodyPlan::Factored(work) => {
                assert forall|i: int| 0 <= i < work@.len() implies ((#[trigger] work@[i]).runs_in(
                    n,
                ) <==> n >= work@[i].scratch()) by {
                    work@[i].lemma_scratch_suffices(n);
                }
                FactorBodyWork::lemma_largest(work@, n);
            },
        }
    }
}

impl<M: Modulus> FactorBodyWork<M> {
    /// The piece of work runs where `n` buffers are free.
    pub open spec fn runs_in(self, n: int) -> bool
        decreases self,
    {
        &&& n >= 0
        &&& match self {
            FactorBodyWork::Term(term) => term.term.runs_in(n),
            FactorBodyWork::SharedFactor { factor, terms } => factor.runs_in(n) && forall|i: int|
                0 <= i < terms@.len() ==> (#[trigger] terms@[i]).term.runs_in(n),
        }
    }

    /// See [`EvaluationPlan::lemma_scratch_suffices`].
    pub proof fn lemma_scratch_suffices(self, n: int)
        ensures
            self.runs_in(n) <==> n >= self.scratch(),
        decreases self,
    {
        match self {
            FactorBodyWork::Term(term) => {
                term.term.lemma_scratch_suffices(n);
            },
            FactorBodyWork::SharedFactor { factor, terms } => {
                factor.lemma_scratch_suffices(n);
                assert forall|i: int| 0 <= i < terms@.len() implies ((
                #[trigger] terms@[i]).term.runs_in(n) <==> n >= terms@[i].term.scratch()) by {
                    terms@[i].term.lemma_scratch_suffices(n);
                }
                WeightedTerm::lemma_largest(terms@, n);
            },
        }
    }

    proof fn lemma_largest(work: Seq<FactorBodyWork<M>>, n: int)
        ensures
            n >= Self::max_scratch(work) <==> n >= 0 && forall|i: int|
                0 <= i < work.len() ==> n >= (#[trigger] work[i]).scratch(),
        decreases work.len(),
    {
        if work.len() > 0 {
            let front = work.drop_last();
            Self::lemma_largest(front, n);
            if n >= Self::max_scratch(work) {
                assert forall|i: int| 0 <= i < work.len() implies n >= (
                #[trigger] work[i]).scratch() by {
                    if i < front.len() {
                        assert(front[i] == work[i]);
                    }
                }
            }
            if n >= 0 && forall|i: int|
                0 <= i < work.len() ==> n >= (#[trigger] work[i]).scratch() {
                assert forall|i: int| 0 <= i < front.len() implies n >= (
                #[trigger] front[i]).scratch() by {
                    assert(work[i] == front[i]);
                }
                assert(work[work.len() - 1] == work.last());
            }
        }
    }
}

impl<M: Modulus> WeightedTerm<M> {
    proof fn lemma_largest(terms: Seq<WeightedTerm<M>>, n: int)
        ensures
            n >= Self::max_scratch(terms) <==> n >= 0 && forall|i: int|
                0 <= i < terms.len() ==> n >= (#[trigger] terms[i]).term.scratch(),
        decreases terms.len(),
    {
        if terms.len() > 0 {
            let front = terms.drop_last();
            Self::lemma_largest(front, n);
            if n >= Self::max_scratch(terms) {
                assert forall|i: int| 0 <= i < terms.len() implies n >= (
                #[trigger] terms[i]).term.scratch() by {
                    if i < front.len() {
                        assert(front[i] == terms[i]);
                    }
                }
            }
            if n >= 0 && forall|i: int|
                0 <= i < terms.len() ==> n >= (#[trigger] terms[i]).term.scratch() {
                assert forall|i: int| 0 <= i < front.len() implies n >= (
                #[trigger] front[i]).term.scratch() by {
                    assert(terms[i] == front[i]);
                }
                assert(terms[terms.len() - 1] == terms.last());
            }
        }
    }
}

} // verus!

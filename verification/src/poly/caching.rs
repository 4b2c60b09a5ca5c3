//! When reading values from a cache gives the values of a plan.
use crate::field::congruence::{congruent, lemma_congruent_mod};
use crate::field::Modulus;
use crate::poly::ast::Row;
use crate::poly::plan::{
    DistributionWork, EvaluationPlan, FactorBodyPlan, FactorBodyWork, SelectorFamilyRun,
    WeightedTerm,
};
use vstd::prelude::*;

verus! {

/// What happens at one occurrence of a repeated plan.
#[derive(Clone, Copy, Debug, PartialEq, Eq, Structural)]
pub struct CacheAction {
    /// The cache slot of the repeated plan.
    pub slot: usize,
    /// Whether the value is stored here; otherwise it is loaded.
    pub store: bool,
    /// The occurrence after the last part of this one.
    pub end: usize,
}

/// The actions on the parts of a plan.
pub struct Caching<M: Modulus> {
    /// The parts of the plan.
    pub nodes: Seq<EvaluationPlan<M>>,
    /// The action at each part.
    pub actions: Seq<Option<CacheAction>>,
    /// The number of cache slots.
    pub slots: nat,
}

impl<M: Modulus> EvaluationPlan<M> {
    /// The two plans are built alike; plans with a linear combination never are.
    pub open spec fn same(self, other: EvaluationPlan<M>) -> bool
        decreases self,
    {
        match (self, other) {
            (EvaluationPlan::Poly(a), EvaluationPlan::Poly(b)) => a == b,
            (EvaluationPlan::Add(a, b), EvaluationPlan::Add(c, d)) => a.same(*c) && b.same(*d),
            (EvaluationPlan::Mul(a, b), EvaluationPlan::Mul(c, d)) => a.same(*c) && b.same(*d),
            (EvaluationPlan::Square(a), EvaluationPlan::Square(b)) => a.same(*b),
            (EvaluationPlan::Scale(a, s), EvaluationPlan::Scale(b, t)) => s@ == t@ && a.same(*b),
            (
                EvaluationPlan::Horner { base: a, coefficients: c },
                EvaluationPlan::Horner { base: b, coefficients: d },
            ) => a.same(*b) && c@ == d@,
            (EvaluationPlan::LinearTerm(s), EvaluationPlan::LinearTerm(t)) => s@ == t@,
            (EvaluationPlan::ConstantTerm(s), EvaluationPlan::ConstantTerm(t)) => s@ == t@,
            _ => false,
        }
    }

    /// The multiplications and the visits that running the plan takes; a linear combination
    /// counts as one visit.
    pub open spec fn cost(self) -> (nat, nat)
        decreases self,
    {
        match self {
            EvaluationPlan::Add(a, b) => (a.cost().0 + b.cost().0, 1 + a.cost().1 + b.cost().1),
            EvaluationPlan::Mul(a, b) => (1 + a.cost().0 + b.cost().0, 1 + a.cost().1 + b.cost().1),
            EvaluationPlan::Square(a) => (a.cost().0, 1 + a.cost().1),
            EvaluationPlan::Scale(a, s) => (
                a.cost().0 + if s@ == M::p() - 1 || s@ == 1 || s@ == 2 {
                    0nat
                } else {
                    1nat
                },
                1 + a.cost().1,
            ),
            EvaluationPlan::Horner { base, coefficients } => (
                if coefficients@.len() == 0 {
                    0
                } else {
                    (base.cost().0 + coefficients@.len() - 1) as nat
                },
                1 + base.cost().1 + coefficients@.len(),
            ),
            _ => (0, 1),
        }
    }

    /// Being built alike is symmetric; plans built alike have the same value, cost and number of
    /// parts.
    pub proof fn lemma_same(self, other: EvaluationPlan<M>)
        requires
            self.same(other),
        ensures
            other.same(self),
            self.same(self),
            self.cost() == other.cost(),
            self.nodes().len() == other.nodes().len(),
            forall|row: Row| #[trigger] self.value(row) == other.value(row),
        decreases self,
    {
        match (self, other) {
            (EvaluationPlan::Add(a, b), EvaluationPlan::Add(c, d)) => {
                a.lemma_same(*c);
                b.lemma_same(*d);
                assert forall|row: Row| #[trigger] self.value(row) == other.value(row) by {
                    assert(a.value(row) == c.value(row) && b.value(row) == d.value(row));
                }
            },
            (EvaluationPlan::Mul(a, b), EvaluationPlan::Mul(c, d)) => {
                a.lemma_same(*c);
                b.lemma_same(*d);
                assert forall|row: Row| #[trigger] self.value(row) == other.value(row) by {
                    assert(a.value(row) == c.value(row) && b.value(row) == d.value(row));
                }
            },
            (EvaluationPlan::Square(a), EvaluationPlan::Square(b)) => {
                a.lemma_same(*b);
                assert forall|row: Row| #[trigger] self.value(row) == other.value(row) by {
                    assert(a.value(row) == b.value(row));
                }
            },
            (EvaluationPlan::Scale(a, s), EvaluationPlan::Scale(b, t)) => {
                a.lemma_same(*b);
                assert forall|row: Row| #[trigger] self.value(row) == other.value(row) by {
                    assert(a.value(row) == b.value(row));
                }
            },
            (
                EvaluationPlan::Horner { base: a, coefficients: c },
                EvaluationPlan::Horner { base: b, coefficients: d },
            ) => {
                a.lemma_same(*b);
                assert forall|row: Row| #[trigger] self.value(row) == other.value(row) by {
                    assert(a.value(row) == b.value(row));
                }
            },
            _ => {},
        }
    }

    /// Being built alike is transitive.
    pub proof fn lemma_same_transitive(self, b: EvaluationPlan<M>, c: EvaluationPlan<M>)
        requires
            self.same(b),
            b.same(c),
        ensures
            self.same(c),
        decreases self,
    {
        match (self, b, c) {
            (EvaluationPlan::Add(x, y), EvaluationPlan::Add(z, w), EvaluationPlan::Add(u, v)) => {
                x.lemma_same_transitive(*z, *u);
                y.lemma_same_transitive(*w, *v);
            },
            (EvaluationPlan::Mul(x, y), EvaluationPlan::Mul(z, w), EvaluationPlan::Mul(u, v)) => {
                x.lemma_same_transitive(*z, *u);
                y.lemma_same_transitive(*w, *v);
            },
            (EvaluationPlan::Square(x), EvaluationPlan::Square(z), EvaluationPlan::Square(u)) => {
                x.lemma_same_transitive(*z, *u);
            },
            (
                EvaluationPlan::Scale(x, s),
                EvaluationPlan::Scale(z, t),
                EvaluationPlan::Scale(u, w),
            ) => {
                x.lemma_same_transitive(*z, *u);
            },
            (
                EvaluationPlan::Horner { base: x, coefficients: s },
                EvaluationPlan::Horner { base: z, coefficients: t },
                EvaluationPlan::Horner { base: u, coefficients: w },
            ) => {
                x.lemma_same_transitive(*z, *u);
            },
            _ => {},
        }
    }
}

/// The parts of each part follow it in the list.
pub open spec fn nested<M: Modulus>(nodes: Seq<EvaluationPlan<M>>) -> bool {
    forall|i: int| 0 <= i < nodes.len() ==> #[trigger] is_nested_at(nodes, i)
}

/// The parts of the part at `i` follow it in the list.
pub open spec fn is_nested_at<M: Modulus>(nodes: Seq<EvaluationPlan<M>>, i: int) -> bool {
    let len = nodes[i].nodes().len() as int;
    len > 0 && i + len <= nodes.len() && nodes.subrange(i, i + len) == nodes[i].nodes()
}

proof fn lemma_nested_concat<M: Modulus>(a: Seq<EvaluationPlan<M>>, b: Seq<EvaluationPlan<M>>)
    requires
        nested(a),
        nested(b),
    ensures
        nested(a + b),
{
    let c = a + b;
    assert forall|i: int| 0 <= i < c.len() implies #[trigger] is_nested_at(c, i) by {
        let len = c[i].nodes().len() as int;
        if i < a.len() {
            assert(is_nested_at(a, i));
            assert(c.subrange(i, i + len) =~= a.subrange(i, i + len));
        } else {
            let k = i - a.len();
            assert(is_nested_at(b, k));
            assert(c.subrange(i, i + len) =~= b.subrange(k, k + len));
        }
    }
}

proof fn lemma_nested_cons<M: Modulus>(plan: EvaluationPlan<M>, parts: Seq<EvaluationPlan<M>>)
    requires
        plan.nodes() == seq![plan] + parts,
        nested(parts),
    ensures
        nested(plan.nodes()),
{
    let c = plan.nodes();
    assert forall|i: int| 0 <= i < c.len() implies #[trigger] is_nested_at(c, i) by {
        let len = c[i].nodes().len() as int;
        if i == 0 {
            assert(c.subrange(0, len) =~= c);
        } else {
            assert(is_nested_at(parts, i - 1));
            assert(c.subrange(i, i + len) =~= parts.subrange(i - 1, i - 1 + len));
        }
    }
}

/// The parts of a plan are nested.
pub proof fn lemma_nested<M: Modulus>(plan: EvaluationPlan<M>)
    ensures
        nested(plan.nodes()),
    decreases plan,
{
    match plan {
        EvaluationPlan::Add(a, b) => {
            lemma_nested(*a);
            lemma_nested(*b);
            lemma_nested_concat(a.nodes(), b.nodes());
            lemma_nested_cons(plan, a.nodes() + b.nodes());
        },
        EvaluationPlan::Mul(a, b) => {
            lemma_nested(*a);
            lemma_nested(*b);
            lemma_nested_concat(a.nodes(), b.nodes());
            lemma_nested_cons(plan, a.nodes() + b.nodes());
        },
        EvaluationPlan::Square(a) => {
            lemma_nested(*a);
            lemma_nested_cons(plan, a.nodes());
        },
        EvaluationPlan::Scale(a, s) => {
            lemma_nested(*a);
            lemma_nested_cons(plan, a.nodes());
        },
        EvaluationPlan::Horner { base, coefficients } => {
            lemma_nested(*base);
            lemma_nested_cons(plan, base.nodes());
        },
        EvaluationPlan::DistributePowers { work, base } => {
            lemma_nested_work(work@);
            lemma_nested_cons(plan, DistributionWork::all_nodes(work@));
        },
        _ => {
            lemma_nested_cons(plan, Seq::empty());
        },
    }
}

proof fn lemma_nested_work<M: Modulus>(work: Seq<DistributionWork<M>>)
    ensures
        nested(DistributionWork::all_nodes(work)),
    decreases work,
{
    if work.len() > 0 {
        lemma_nested_work(work.drop_last());
        match work.last() {
            DistributionWork::Term { term, power } => {
                lemma_nested(term);
            },
            DistributionWork::SharedFactor { factor, bodies, power } => {
                lemma_nested(factor);
                lemma_nested_bodies(bodies);
                lemma_nested_concat(factor.nodes(), bodies.nodes());
            },
            DistributionWork::SelectorFamily { query, runs } => {
                lemma_nested_runs(runs@);
            },
        }
        lemma_nested_concat(
            DistributionWork::all_nodes(work.drop_last()),
            work.last().nodes(),
        );
    }
}

proof fn lemma_nested_runs<M: Modulus>(runs: Seq<SelectorFamilyRun<M>>)
    ensures
        nested(SelectorFamilyRun::all_nodes(runs)),
    decreases runs,
{
    if runs.len() > 0 {
        lemma_nested_bodies(runs.last().bodies);
        lemma_nested_runs(runs.drop_last());
        lemma_nested_concat(
            runs.last().bodies.nodes(),
            SelectorFamilyRun::all_nodes(runs.drop_last()),
        );
    }
}

proof fn lemma_nested_bodies<M: Modulus>(bodies: FactorBodyPlan<M>)
    ensures
        nested(bodies.nodes()),
    decreases bodies,
{
    match bodies {
        FactorBodyPlan::Sequential(plans) => {
            lemma_nested_sequence(plans@);
        },
        FactorBodyPlan::Factored(work) => {
            lemma_nested_body_work(work@);
        },
    }
}

proof fn lemma_nested_sequence<M: Modulus>(plans: Seq<EvaluationPlan<M>>)
    ensures
        nested(EvaluationPlan::sequence_nodes(plans)),
    decreases plans,
{
    if plans.len() > 0 {
        lemma_nested_sequence(plans.drop_last());
        lemma_nested(plans.last());
        lemma_nested_concat(
            EvaluationPlan::sequence_nodes(plans.drop_last()),
            plans.last().nodes(),
        );
    }
}

proof fn lemma_nested_body_work<M: Modulus>(work: Seq<FactorBodyWork<M>>)
    ensures
        nested(FactorBodyWork::all_nodes(work)),
    decreases work,
{
    if work.len() > 0 {
        lemma_nested_body_work(work.drop_last());
        match work.last() {
            FactorBodyWork::Term(term) => {
                lemma_nested(term.term);
            },
            FactorBodyWork::SharedFactor { factor, terms } => {
                lemma_nested(factor);
                lemma_nested_terms(terms@);
                lemma_nested_concat(factor.nodes(), WeightedTerm::all_nodes(terms@));
            },
        }
        lemma_nested_concat(FactorBodyWork::all_nodes(work.drop_last()), work.last().nodes());
    }
}

proof fn lemma_nested_terms<M: Modulus>(terms: Seq<WeightedTerm<M>>)
    ensures
        nested(WeightedTerm::all_nodes(terms)),
    decreases terms,
{
    if terms.len() > 0 {
        lemma_nested_terms(terms.drop_last());
        lemma_nested(terms.last().term);
        lemma_nested_concat(
            WeightedTerm::all_nodes(terms.drop_last()),
            terms.last().term.nodes(),
        );
    }
}

/// The value loaded at `j` was stored at `i`.
pub open spec fn is_source(actions: Seq<Option<CacheAction>>, i: int, j: int) -> bool {
    &&& 0 <= i < j < actions.len()
    &&& is_store(actions, i)
    &&& is_load(actions, j)
    &&& actions[i].unwrap().slot == actions[j].unwrap().slot
    &&& forall|k: int|
        i < k < j && #[trigger] is_store(actions, k) ==> actions[k].unwrap().slot
            != actions[j].unwrap().slot
}

/// The value is stored at this occurrence.
pub open spec fn is_store(actions: Seq<Option<CacheAction>>, i: int) -> bool {
    actions[i] is Some && actions[i].unwrap().store
}

/// The value is loaded at this occurrence.
pub open spec fn is_load(actions: Seq<Option<CacheAction>>, i: int) -> bool {
    actions[i] is Some && !actions[i].unwrap().store
}

impl<M: Modulus> Caching<M> {
    /// Actions cover disjoint parts of the plan, and every load reads a value stored for a plan
    /// that is built alike.
    pub open spec fn valid(self) -> bool {
        &&& self.actions.len() == self.nodes.len()
        &&& nested(self.nodes)
        &&& forall|i: int|
            0 <= i < self.actions.len() && (#[trigger] self.actions[i]) is Some
                ==> self.actions[i].unwrap().slot < self.slots && self.actions[i].unwrap().end == i
                + self.nodes[i].nodes().len()
        &&& forall|i: int, k: int|
            0 <= i < k < self.actions.len() && (#[trigger] self.actions[i]) is Some && (
            #[trigger] self.actions[k]) is Some ==> self.actions[i].unwrap().end <= k
        &&& forall|j: int|
            0 <= j < self.actions.len() && #[trigger] is_load(self.actions, j) ==> exists|i: int|
                is_source(self.actions, i, j)
        &&& forall|i: int, j: int| #[trigger]
            is_source(self.actions, i, j) ==> self.nodes[i].same(self.nodes[j])
    }

    /// Nothing happens from `t` to `e - 1`.
    pub open spec fn idle(self, t: int, e: int) -> bool {
        forall|i: int| t <= i < e ==> (#[trigger] self.actions[i]) is None
    }

    /// No action reaches over position `t`.
    pub open spec fn clear(self, t: int) -> bool {
        forall|i: int|
            0 <= i < t && i < self.actions.len() && (#[trigger] self.actions[i]) is Some
                ==> self.actions[i].unwrap().end <= t
    }

    /// The cache holds what later loads read of the values stored before position `t`.
    pub open spec fn ready(self, t: int, cache: Seq<int>, row: Row) -> bool {
        forall|i: int, j: int| #[trigger]
            is_source(self.actions, i, j) && self.actions[i].unwrap().end <= t <= j ==> congruent(
                cache[self.actions[j].unwrap().slot as int],
                self.nodes[j].value(row),
                M::p(),
            )
    }

    /// Running from `t` to `e` takes the cache from `before` to `after`, and `good` holds.
    pub open spec fn flow(
        self,
        t: int,
        e: int,
        row: Row,
        before: Seq<int>,
        after: Seq<int>,
        good: bool,
    ) -> bool {
        before.len() == self.slots ==> {
            &&& after.len() == self.slots
            &&& self.idle(t, e) ==> after == before && good
            &&& self.clear(t) && self.ready(t, before, row) ==> good && self.clear(e) && self.ready(
                e,
                after,
                row,
            )
        }
    }

    /// Passing a part without an action.
    pub proof fn lemma_flow_node(self, t: int, row: Row, cache: Seq<int>)
        requires
            self.valid(),
            0 <= t < self.actions.len(),
            self.actions[t] is None,
        ensures
            self.flow(t, t + 1, row, cache, cache, true),
    {
        if self.clear(t) && self.ready(t, cache, row) {
            assert forall|i: int, j: int| #[trigger]
                is_source(self.actions, i, j) && self.actions[i].unwrap().end <= t + 1
                    <= j implies congruent(
                cache[self.actions[j].unwrap().slot as int],
                self.nodes[j].value(row),
                M::p(),
            ) by {
                assert(self.actions[i] is Some);
                assert(is_nested_at(self.nodes, i));
                assert(self.actions[i].unwrap().end <= t);
            }
        }
    }

    /// One stretch after the other.
    pub proof fn lemma_flow_chain(
        self,
        t: int,
        m: int,
        e: int,
        row: Row,
        before: Seq<int>,
        mid: Seq<int>,
        after: Seq<int>,
        first: bool,
        second: bool,
    )
        requires
            t <= m <= e,
            self.flow(t, m, row, before, mid, first),
            self.flow(m, e, row, mid, after, second),
        ensures
            self.flow(t, e, row, before, after, first && second),
    {
        if self.idle(t, e) {
            assert(self.idle(t, m));
            assert(self.idle(m, e));
        }
    }

    /// Loading a value that was stored before.
    pub proof fn lemma_flow_load(self, t: int, row: Row, cache: Seq<int>)
        requires
            self.valid(),
            0 <= t < self.actions.len(),
            is_load(self.actions, t),
        ensures
            self.flow(
                t,
                self.actions[t].unwrap().end as int,
                row,
                cache,
                cache,
                congruent(
                    cache[self.actions[t].unwrap().slot as int],
                    self.nodes[t].value(row),
                    M::p(),
                ),
            ),
    {
        let e = self.actions[t].unwrap().end as int;
        assert(self.actions[t] is Some);
        assert(is_nested_at(self.nodes, t));
        assert(t < e);
        if self.clear(t) && self.ready(t, cache, row) {
            let i = choose|i: int| is_source(self.actions, i, t);
            assert(self.actions[i] is Some);
            assert(self.actions[i].unwrap().end <= t);
            assert forall|i: int|
                0 <= i < e && i < self.actions.len() && (
                #[trigger] self.actions[i]) is Some implies self.actions[i].unwrap().end <= e by {
                if i > t {
                    assert(self.actions[t].unwrap().end <= i);
                }
            }
            assert forall|i: int, j: int| #[trigger]
                is_source(self.actions, i, j) && self.actions[i].unwrap().end <= e
                    <= j implies congruent(
                cache[self.actions[j].unwrap().slot as int],
                self.nodes[j].value(row),
                M::p(),
            ) by {
                assert(self.actions[i] is Some);
                if i > t {
                    assert(self.actions[t].unwrap().end <= i);
                    assert(self.actions[i].unwrap().end > i) by {
                        assert(is_nested_at(self.nodes, i));
                        assert(self.actions[i].unwrap().end == i + self.nodes[i].nodes().len());
                    }
                }
                assert(i < t);
                assert(self.actions[i].unwrap().end <= t);
            }
        }
    }

    /// Storing a value.
    pub proof fn lemma_flow_store(
        self,
        t: int,
        row: Row,
        before: Seq<int>,
        mid: Seq<int>,
        value: int,
    )
        requires
            self.valid(),
            0 <= t < self.actions.len(),
            is_store(self.actions, t),
            self.flow(
                t + 1,
                self.actions[t].unwrap().end as int,
                row,
                before,
                mid,
                congruent(value, self.nodes[t].value(row), M::p()),
            ),
        ensures
            self.flow(
                t,
                self.actions[t].unwrap().end as int,
                row,
                before,
                mid.update(self.actions[t].unwrap().slot as int, value % M::p()),
                congruent(value, self.nodes[t].value(row), M::p()),
            ),
    {
        M::lemma_modulus();
        let e = self.actions[t].unwrap().end as int;
        let slot = self.actions[t].unwrap().slot as int;
        let after = mid.update(slot, value % M::p());
        assert(self.actions[t] is Some);
        assert(is_nested_at(self.nodes, t));
        assert(t < e);
        if before.len() == self.slots {
            assert(self.idle(t + 1, e)) by {
                assert forall|i: int| t + 1 <= i < e implies (#[trigger] self.actions[i]) is None by {
                    if i < self.actions.len() && self.actions[i] is Some {
                        assert(self.actions[t].unwrap().end <= i);
                    }
                    if i >= self.actions.len() {
                        assert(false) by {
                            self.lemma_end(t);
                        }
                    }
                }
            }
            assert(mid == before);
            if self.clear(t) && self.ready(t, before, row) {
                assert forall|i: int|
                    0 <= i < e && i < self.actions.len() && (
                    #[trigger] self.actions[i]) is Some implies self.actions[i].unwrap().end
                    <= e by {
                    if i > t {
                        assert(self.actions[t].unwrap().end <= i);
                    }
                }
                assert forall|i: int, j: int| #[trigger]
                    is_source(self.actions, i, j) && self.actions[i].unwrap().end <= e
                        <= j implies congruent(
                    after[self.actions[j].unwrap().slot as int],
                    self.nodes[j].value(row),
                    M::p(),
                ) by {
                    assert(self.actions[i] is Some);
                    assert(self.actions[j] is Some);
                    if i == t {
                        self.nodes[i].lemma_same(self.nodes[j]);
                        assert(self.nodes[i].value(row) == self.nodes[j].value(row));
                        lemma_congruent_mod(value, M::p());
                    } else {
                        if i > t {
                            assert(self.actions[t].unwrap().end <= i);
                            assert(self.actions[i].unwrap().end > i) by {
                                assert(is_nested_at(self.nodes, i));
                                assert(self.actions[i].unwrap().end == i
                                    + self.nodes[i].nodes().len());
                            }
                        }
                        assert(i < t);
                        assert(self.actions[i].unwrap().end <= t);
                        assert(self.actions[j].unwrap().slot != slot) by {
                            assert(is_store(self.actions, t));
                        }
                    }
                }
            }
        }
    }

    proof fn lemma_end(self, t: int)
        requires
            self.valid(),
            0 <= t < self.actions.len(),
            self.actions[t] is Some,
        ensures
            self.actions[t].unwrap().end <= self.actions.len(),
    {
        assert(is_nested_at(self.nodes, t));
    }
}

} // verus!

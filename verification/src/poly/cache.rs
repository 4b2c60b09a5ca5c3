//! Caching of common subexpressions.
use crate::field::{Fe, Modulus};
use crate::poly::ast::AstLeaf;
use crate::poly::caching::{is_load, is_source, is_store, CacheAction};
use crate::poly::plan::{
    DistributionWork, EvaluationPlan, FactorBodyPlan, FactorBodyWork, SelectorFamilyRun,
    WeightedTerm,
};
use vstd::prelude::*;

verus! {

/// Whether two plans are built alike.
pub fn same_plan<M: Modulus>(lhs: &EvaluationPlan<M>, rhs: &EvaluationPlan<M>) -> (r: bool)
    ensures
        r == lhs.same(*rhs),
    decreases lhs,
{
    match (lhs, rhs) {
        (EvaluationPlan::Poly(a), EvaluationPlan::Poly(b)) => *a == *b,
        (EvaluationPlan::Add(a, b), EvaluationPlan::Add(c, d)) => same_plan(a, c) && same_plan(
            b,
            d,
        ),
        (EvaluationPlan::Mul(a, b), EvaluationPlan::Mul(c, d)) => same_plan(a, c) && same_plan(
            b,
            d,
        ),
        (EvaluationPlan::Square(a), EvaluationPlan::Square(b)) => same_plan(a, b),
        (EvaluationPlan::Scale(a, s), EvaluationPlan::Scale(b, t)) => s.same(*t) && same_plan(a, b),
        (
            EvaluationPlan::Horner { base: a, coefficients: c },
            EvaluationPlan::Horner { base: b, coefficients: d },
        ) => same_plan(a, b) && same_leaves(c, d),
        (EvaluationPlan::LinearTerm(s), EvaluationPlan::LinearTerm(t)) => s.same(*t),
        (EvaluationPlan::ConstantTerm(s), EvaluationPlan::ConstantTerm(t)) => s.same(*t),
        _ => false,
    }
}

fn same_leaves(lhs: &Vec<AstLeaf>, rhs: &Vec<AstLeaf>) -> (r: bool)
    ensures
        r == (lhs@ == rhs@),
{
    if lhs.len() != rhs.len() {
        return false;
    }
    let mut i: usize = 0;
    while i < lhs.len()
        invariant
            i <= lhs@.len(),
            lhs@.len() == rhs@.len(),
            forall|k: int| 0 <= k < i ==> lhs@[k] == rhs@[k],
        decreases lhs@.len() - i,
    {
        if lhs[i] != rhs[i] {
            return false;
        }
        i += 1;
    }
    assert(lhs@ =~= rhs@);
    true
}

/// A count, or the largest machine integer where it exceeds that.
pub open spec fn capped(n: nat) -> usize {
    if n <= usize::MAX {
        n as usize
    } else {
        usize::MAX
    }
}

/// The multiplications and the visits that running a plan takes, capped at the largest machine
/// integer.
pub fn plan_cost<M: Modulus>(plan: &EvaluationPlan<M>) -> (r: (usize, usize))
    ensures
        r.0 == capped(plan.cost().0),
        r.1 == capped(plan.cost().1),
    decreases plan,
{
    match plan {
        EvaluationPlan::Add(lhs, rhs) => {
            let (a, b) = (plan_cost(lhs), plan_cost(rhs));
            (a.0.saturating_add(b.0), a.1.saturating_add(b.1).saturating_add(1))
        },
        EvaluationPlan::Mul(lhs, rhs) => {
            let (a, b) = (plan_cost(lhs), plan_cost(rhs));
            (
                a.0.saturating_add(b.0).saturating_add(1),
                a.1.saturating_add(b.1).saturating_add(1),
            )
        },
        EvaluationPlan::Square(inner) => {
            let a = plan_cost(inner);
            (a.0, a.1.saturating_add(1))
        },
        EvaluationPlan::Scale(inner, scalar) => {
            let a = plan_cost(inner);
            let one = Fe::<M>::one();
            let two = one.double();
            proof {
                M::lemma_modulus();
                vstd::arithmetic::div_mod::lemma_small_mod(2, M::p() as nat);
                vstd::arithmetic::div_mod::lemma_small_mod((M::p() - 1) as nat, M::p() as nat);
                vstd::arithmetic::div_mod::lemma_mod_add_multiples_vanish(-1, M::p());
            }
            let free = scalar.same(one.neg()) || scalar.same(one) || scalar.same(two);
            (
                if free {
                    a.0
                } else {
                    a.0.saturating_add(1)
                },
                a.1.saturating_add(1),
            )
        },
        EvaluationPlan::Horner { base, coefficients } => {
            let a = plan_cost(base);
            let n = coefficients.len();
            (
                if n == 0 {
                    0
                } else {
                    a.0.saturating_add(n - 1)
                },
                a.1.saturating_add(n).saturating_add(1),
            )
        },
        _ => (0, 1),
    }
}

/// A part of a plan and the occurrence after its own parts.
pub struct PlanOccurrence<'a, M: Modulus> {
    /// The part.
    pub plan: &'a EvaluationPlan<M>,
    /// The occurrence after the last part of this one.
    pub end: usize,
}

/// The parts stand in the list from a position on, with their ends.
pub open spec fn listed<M: Modulus>(
    nodes: Seq<PlanOccurrence<M>>,
    from: int,
    parts: Seq<EvaluationPlan<M>>,
) -> bool {
    &&& from + parts.len() <= nodes.len()
    &&& forall|k: int|
        0 <= k < parts.len() ==> is_listed_at(nodes, from, #[trigger] parts[k], k)
}

/// The part stands `k` positions after `from`, with its end.
pub open spec fn is_listed_at<M: Modulus>(
    nodes: Seq<PlanOccurrence<M>>,
    from: int,
    part: EvaluationPlan<M>,
    k: int,
) -> bool {
    *nodes[from + k].plan == part && nodes[from + k].end == from + k + part.nodes().len()
}

/// The list was extended by the given parts.
pub open spec fn extended<'a, M: Modulus>(
    before: Seq<PlanOccurrence<'a, M>>,
    after: Seq<PlanOccurrence<'a, M>>,
    parts: Seq<EvaluationPlan<M>>,
) -> bool {
    &&& after.len() == before.len() + parts.len()
    &&& forall|i: int| 0 <= i < before.len() ==> after[i] == before[i]
    &&& listed(after, before.len() as int, parts)
}

proof fn lemma_extended_concat<'a, M: Modulus>(
    x: Seq<PlanOccurrence<'a, M>>,
    y: Seq<PlanOccurrence<'a, M>>,
    z: Seq<PlanOccurrence<'a, M>>,
    a: Seq<EvaluationPlan<M>>,
    b: Seq<EvaluationPlan<M>>,
)
    requires
        extended(x, y, a),
        extended(y, z, b),
    ensures
        extended(x, z, a + b),
{
    let c = a + b;
    assert forall|k: int| 0 <= k < c.len() implies is_listed_at(
        z,
        x.len() as int,
        #[trigger] c[k],
        k,
    ) by {
        if k < a.len() {
            assert(is_listed_at(y, x.len() as int, a[k], k));
            assert(z[x.len() + k] == y[x.len() + k]);
        } else {
            assert(is_listed_at(z, y.len() as int, b[k - a.len()], k - a.len()));
        }
    }
}

/// Lists a plan and its parts in the order in which they run.
pub fn collect_plan_occurrences<'a, M: Modulus>(
    plan: &'a EvaluationPlan<M>,
    nodes: &mut Vec<PlanOccurrence<'a, M>>,
)
    ensures
        extended(old(nodes)@, final(nodes)@, plan.nodes()),
    decreases plan, 0nat,
{
    let ghost before = nodes@;
    let index = nodes.len();
    nodes.push(PlanOccurrence { plan, end: index });
    let ghost start = nodes@;
    let ghost parts = plan.nodes().drop_first();
    assert(plan.nodes() =~= seq![*plan] + parts);
    match plan {
        EvaluationPlan::Add(lhs, rhs) => {
            collect_plan_occurrences(lhs, nodes);
            let ghost mid = nodes@;
            collect_plan_occurrences(rhs, nodes);
            proof {
                lemma_extended_concat(start, mid, nodes@, lhs.nodes(), rhs.nodes());
                assert(parts =~= lhs.nodes() + rhs.nodes());
            }
        },
        EvaluationPlan::Mul(lhs, rhs) => {
            collect_plan_occurrences(lhs, nodes);
            let ghost mid = nodes@;
            collect_plan_occurrences(rhs, nodes);
            proof {
                lemma_extended_concat(start, mid, nodes@, lhs.nodes(), rhs.nodes());
                assert(parts =~= lhs.nodes() + rhs.nodes());
            }
        },
        EvaluationPlan::Square(inner) => {
            assert(parts =~= inner.nodes());
            collect_plan_occurrences(inner, nodes);
        },
        EvaluationPlan::Scale(inner, _) => {
            assert(parts =~= inner.nodes());
            collect_plan_occurrences(inner, nodes);
        },
        EvaluationPlan::Horner { base, coefficients: _ } => {
            assert(parts =~= base.nodes());
            collect_plan_occurrences(base, nodes);
        },
        EvaluationPlan::DistributePowers { work, base: _ } => {
            assert(parts =~= DistributionWork::all_nodes(work@));
            assert(work@.take(work@.len() as int) =~= work@);
            collect_work(work, work.len(), nodes);
        },
        _ => {
            assert(parts =~= Seq::empty());
        },
    }
    let ghost mid = nodes@;
    assert(extended(start, mid, parts));
    let end = nodes.len();
    nodes.set(index, PlanOccurrence { plan, end });
    proof {
        let all = plan.nodes();
        assert forall|k: int| 0 <= k < all.len() implies is_listed_at(
            nodes@,
            before.len() as int,
            #[trigger] all[k],
            k,
        ) by {
            if k > 0 {
                assert(is_listed_at(mid, start.len() as int, parts[k - 1], k - 1));
            }
        }
    }
}

fn collect_work<'a, M: Modulus>(
    work: &'a Vec<DistributionWork<M>>,
    k: usize,
    nodes: &mut Vec<PlanOccurrence<'a, M>>,
)
    requires
        k <= work@.len(),
    ensures
        extended(old(nodes)@, final(nodes)@, DistributionWork::all_nodes(work@.take(k as int))),
    decreases work@, k as nat,
{
    if k == 0 {
        return;
    }
    let ghost before = nodes@;
    let ghost list = work@.take(k as int);
    assert(list.drop_last() =~= work@.take(k - 1));
    collect_work(work, k - 1, nodes);
    let ghost mid = nodes@;
    match &work[k - 1] {
        DistributionWork::Term { term, power: _ } => {
            collect_plan_occurrences(term, nodes);
        },
        DistributionWork::SharedFactor { factor, bodies, power: _ } => {
            collect_plan_occurrences(factor, nodes);
            let ghost inner = nodes@;
            collect_factor_body_occurrences(bodies, nodes);
            proof {
                lemma_extended_concat(mid, inner, nodes@, factor.nodes(), bodies.nodes());
            }
        },
        DistributionWork::SelectorFamily { query: _, runs } => {
            assert(runs@.take(runs@.len() as int) =~= runs@);
            collect_runs(runs, runs.len(), nodes);
        },
    }
    proof {
        lemma_extended_concat(
            before,
            mid,
            nodes@,
            DistributionWork::all_nodes(list.drop_last()),
            list.last().nodes(),
        );
    }
}

fn collect_runs<'a, M: Modulus>(
    runs: &'a Vec<SelectorFamilyRun<M>>,
    k: usize,
    nodes: &mut Vec<PlanOccurrence<'a, M>>,
)
    requires
        k <= runs@.len(),
    ensures
        extended(old(nodes)@, final(nodes)@, SelectorFamilyRun::all_nodes(runs@.take(k as int))),
    decreases runs@, k as nat,
{
    if k == 0 {
        return;
    }
    let ghost before = nodes@;
    let ghost list = runs@.take(k as int);
    assert(list.drop_last() =~= runs@.take(k - 1));
    collect_factor_body_occurrences(&runs[k - 1].bodies, nodes);
    let ghost mid = nodes@;
    collect_runs(runs, k - 1, nodes);
    proof {
        lemma_extended_concat(
            before,
            mid,
            nodes@,
            list.last().bodies.nodes(),
            SelectorFamilyRun::all_nodes(list.drop_last()),
        );
    }
}

fn collect_factor_body_occurrences<'a, M: Modulus>(
    plan: &'a FactorBodyPlan<M>,
    nodes: &mut Vec<PlanOccurrence<'a, M>>,
)
    ensures
        extended(old(nodes)@, final(nodes)@, plan.nodes()),
    decreases plan, 0nat,
{
    match plan {
        FactorBodyPlan::Sequential(bodies) => {
            assert(bodies@.take(bodies@.len() as int) =~= bodies@);
            collect_sequence(bodies, bodies.len(), nodes);
        },
        FactorBodyPlan::Factored(work) => {
            assert(work@.take(work@.len() as int) =~= work@);
            collect_body_work(work, work.len(), nodes);
        },
    }
}

fn collect_sequence<'a, M: Modulus>(
    plans: &'a Vec<EvaluationPlan<M>>,
    k: usize,
    nodes: &mut Vec<PlanOccurrence<'a, M>>,
)
    requires
        k <= plans@.len(),
    ensures
        extended(old(nodes)@, final(nodes)@, EvaluationPlan::sequence_nodes(plans@.take(k as int))),
    decreases plans@, k as nat,
{
    if k == 0 {
        return;
    }
    let ghost before = nodes@;
    let ghost list = plans@.take(k as int);
    assert(list.drop_last() =~= plans@.take(k - 1));
    collect_sequence(plans, k - 1, nodes);
    let ghost mid = nodes@;
    collect_plan_occurrences(&plans[k - 1], nodes);
    proof {
        lemma_extended_concat(
            before,
            mid,
            nodes@,
            EvaluationPlan::sequence_nodes(list.drop_last()),
            list.last().nodes(),
        );
    }
}

fn collect_body_work<'a, M: Modulus>(
    work: &'a Vec<FactorBodyWork<M>>,
    k: usize,
    nodes: &mut Vec<PlanOccurrence<'a, M>>,
)
    requires
        k <= work@.len(),
    ensures
        extended(old(nodes)@, final(nodes)@, FactorBodyWork::all_nodes(work@.take(k as int))),
    decreases work@, k as nat,
{
    if k == 0 {
        return;
    }
    let ghost before = nodes@;
    let ghost list = work@.take(k as int);
    assert(list.drop_last() =~= work@.take(k - 1));
    collect_body_work(work, k - 1, nodes);
    let ghost mid = nodes@;
    match &work[k - 1] {
        FactorBodyWork::Term(term) => {
            collect_plan_occurrences(&term.term, nodes);
        },
        FactorBodyWork::SharedFactor { factor, terms } => {
            collect_plan_occurrences(factor, nodes);
            let ghost inner = nodes@;
            assert(terms@.take(terms@.len() as int) =~= terms@);
            collect_terms(terms, terms.len(), nodes);
            proof {
                lemma_extended_concat(
                    mid,
                    inner,
                    nodes@,
                    factor.nodes(),
                    WeightedTerm::all_nodes(terms@),
                );
            }
        },
    }
    proof {
        lemma_extended_concat(
            before,
            mid,
            nodes@,
            FactorBodyWork::all_nodes(list.drop_last()),
            list.last().nodes(),
        );
    }
}

fn collect_terms<'a, M: Modulus>(
    terms: &'a Vec<WeightedTerm<M>>,
    k: usize,
    nodes: &mut Vec<PlanOccurrence<'a, M>>,
)
    requires
        k <= terms@.len(),
    ensures
        extended(old(nodes)@, final(nodes)@, WeightedTerm::all_nodes(terms@.take(k as int))),
    decreases terms@, k as nat,
{
    if k == 0 {
        return;
    }
    let ghost before = nodes@;
    let ghost list = terms@.take(k as int);
    assert(list.drop_last() =~= terms@.take(k - 1));
    collect_terms(terms, k - 1, nodes);
    let ghost mid = nodes@;
    collect_plan_occurrences(&terms[k - 1].term, nodes);
    proof {
        lemma_extended_concat(
            before,
            mid,
            nodes@,
            WeightedTerm::all_nodes(list.drop_last()),
            list.last().term.nodes(),
        );
    }
}

/// Keys compare by their first component, then the second, then the third.
pub open spec fn key_le(a: (usize, usize, usize), b: (usize, usize, usize)) -> bool {
    a.0 < b.0 || (a.0 == b.0 && (a.1 < b.1 || (a.1 == b.1 && a.2 <= b.2)))
}

/// The positions of the keys in ascending order.
pub open spec fn is_order(order: Seq<usize>, keys: Seq<(usize, usize, usize)>) -> bool {
    &&& order.len() == keys.len()
    &&& forall|a: int| 0 <= a < order.len() ==> (#[trigger] order[a]) < keys.len()
    &&& forall|a: int, b: int|
        0 <= a < b < order.len() ==> (#[trigger] order[a]) != (#[trigger] order[b]) && key_le(
            keys[order[a] as int],
            keys[order[b] as int],
        )
    &&& forall|a: int, b: int|
        0 <= a < b < order.len() && keys[#[trigger] order[a] as int]
            == keys[#[trigger] order[b] as int] ==> order[a] < order[b]
    &&& forall|i: int| 0 <= i < keys.len() ==> #[trigger] order.contains(i as usize)
}

/// The order of keys is that of the numbers with three digits: keys are compared as numbers to a
/// base above every component.
pub proof fn lemma_key_order(a: (usize, usize, usize), b: (usize, usize, usize))
    ensures
        key_le(a, b) <==> ({
            let n = usize::MAX + 1;
            (a.0 * n + a.1) * n + a.2 <= (b.0 * n + b.1) * n + b.2
        }),
{
    let n = usize::MAX + 1;
    lemma_digit_order(a.0 as int, a.1 as int, b.0 as int, b.1 as int, n);
    lemma_digit_order(b.0 as int, b.1 as int, a.0 as int, a.1 as int, n);
    lemma_digit_order(a.0 * n + a.1, a.2 as int, b.0 * n + b.1, b.2 as int, n);
    lemma_digit_order(b.0 * n + b.1, b.2 as int, a.0 * n + a.1, a.2 as int, n);
}

proof fn lemma_digit_order(x: int, r: int, y: int, s: int, n: int)
    requires
        0 <= r < n,
        0 <= s < n,
    ensures
        x < y ==> x * n + r < y * n + s,
        x == y ==> x * n == y * n,
{
    if x < y {
        assert(x * n + n <= y * n) by (nonlinear_arith)
            requires
                x + 1 <= y,
                n > 0,
        ;
    }
}

/// Orders positions by their keys, keeping the order of positions with equal keys.
pub fn sorted_order(keys: &Vec<(usize, usize, usize)>) -> (order: Vec<usize>)
    ensures
        is_order(order@, keys@),
{
    let mut order: Vec<usize> = Vec::new();
    let mut i: usize = 0;
    while i < keys.len()
        invariant
            i <= keys@.len(),
            order@.len() == i,
            forall|a: int| 0 <= a < order@.len() ==> (#[trigger] order@[a]) < i,
            forall|a: int, b: int|
                0 <= a < b < order@.len() ==> (#[trigger] order@[a]) != (#[trigger] order@[b])
                    && key_le(keys@[order@[a] as int], keys@[order@[b] as int]),
            forall|a: int, b: int|
                0 <= a < b < order@.len() && keys@[#[trigger] order@[a] as int]
                    == keys@[#[trigger] order@[b] as int] ==> order@[a] < order@[b],
            forall|k: int| 0 <= k < i ==> #[trigger] order@.contains(k as usize),
        decreases keys@.len() - i,
    {
        let key = keys[i];
        let mut at: usize = i;
        while at > 0 && (key.0 < keys[order[at - 1]].0 || (key.0 == keys[order[at - 1]].0 && (key.1
            < keys[order[at - 1]].1 || (key.1 == keys[order[at - 1]].1 && key.2
            < keys[order[at - 1]].2))))
            invariant
                i < keys@.len(),
                key == keys@[i as int],
                order@.len() == i,
                at <= i,
                forall|a: int| 0 <= a < order@.len() ==> (#[trigger] order@[a]) < i,
                forall|b: int|
                    at <= b < order@.len() ==> key_le(key, keys@[#[trigger] order@[b] as int])
                        && key != keys@[order@[b] as int],
            decreases at,
        {
            at -= 1;
        }
        let ghost before = order@;
        order.insert(at, i);
        proof {
            assert(at > 0 ==> key_le(keys@[before[at - 1] as int], key));
            assert forall|a: int, b: int| 0 <= a < b < order@.len() implies (
            #[trigger] order@[a]) != (#[trigger] order@[b]) && key_le(
                keys@[order@[a] as int],
                keys@[order@[b] as int],
            ) by {
                let (x, y) = (
                    if a < at { a } else { a - 1 },
                    if b < at { b } else { b - 1 },
                );
                if b == at {
                    assert(order@[a] == before[a]);
                    if a < at - 1 {
                        assert(key_le(keys@[before[a] as int], keys@[before[at - 1] as int]));
                    }
                } else if a == at {
                    assert(order@[b] == before[y]);
                } else {
                    assert(order@[a] == before[x] && order@[b] == before[y]);
                }
            }
            assert forall|a: int, b: int|
                0 <= a < b < order@.len() && keys@[#[trigger] order@[a] as int]
                    == keys@[#[trigger] order@[b] as int] implies order@[a] < order@[b] by {
                let (x, y) = (
                    if a < at { a } else { a - 1 },
                    if b < at { b } else { b - 1 },
                );
                if b == at {
                    assert(order@[a] == before[a]);
                } else if a == at {
                    assert(order@[b] == before[y]);
                } else {
                    assert(order@[a] == before[x] && order@[b] == before[y]);
                }
            }
            assert forall|k: int| 0 <= k < i + 1 implies #[trigger] order@.contains(k as usize) by {
                if k == i {
                    assert(order@[at as int] == i);
                } else {
                    assert(before.contains(k as usize));
                    let a = choose|a: int| 0 <= a < before.len() && before[a] == k as usize;
                    assert(order@[if a < at { a } else { a + 1 }] == k as usize);
                }
            }
        }
        i += 1;
    }
    order
}

/// Each slot is stored to once, before its loads.
pub open spec fn fresh(actions: Seq<Option<CacheAction>>, slots: int) -> bool {
    &&& forall|i: int|
        0 <= i < actions.len() && (#[trigger] actions[i]) is Some ==> actions[i].unwrap().slot
            < slots
    &&& forall|i: int, k: int|
        0 <= i < k < actions.len() && #[trigger] is_store(actions, i) && #[trigger] is_store(
            actions,
            k,
        ) ==> actions[i].unwrap().slot != actions[k].unwrap().slot
    &&& forall|j: int|
        0 <= j < actions.len() && #[trigger] is_load(actions, j) ==> exists|i: int|
            is_source(actions, i, j)
    &&& forall|s: int| 0 <= s < slots ==> #[trigger] is_stored(actions, s)
}

/// Some occurrence stores to the slot.
pub open spec fn is_stored(actions: Seq<Option<CacheAction>>, slot: int) -> bool {
    exists|i: int|
        0 <= i < actions.len() && #[trigger] is_store(actions, i) && actions[i].unwrap().slot == slot
}

/// All actions on a slot lie between its store and the last of them.
pub open spec fn is_interval(
    actions: Seq<Option<CacheAction>>,
    slot: int,
    start: int,
    end: int,
    upto: int,
) -> bool {
    &&& 0 <= start <= end < upto
    &&& is_store(actions, start)
    &&& actions[start].unwrap().slot == slot
    &&& actions[end] is Some && actions[end].unwrap().slot == slot
    &&& forall|i: int|
        0 <= i < upto && (#[trigger] actions[i]) is Some && actions[i].unwrap().slot == slot
            ==> start <= i <= end
}

/// The value in a slot is still needed at an occurrence: it was stored at or before it and is
/// loaded at or after it.
pub open spec fn is_live(actions: Seq<Option<CacheAction>>, slot: int, t: int) -> bool {
    exists|i: int, j: int|
        0 <= i < actions.len() && #[trigger] is_store(actions, i) && actions[i].unwrap().slot == slot
            && i <= t <= j && (i == j || #[trigger] is_source(actions, i, j))
}

/// The actions differ only in their slots.
pub open spec fn same_but_slots(
    a: Seq<Option<CacheAction>>,
    b: Seq<Option<CacheAction>>,
) -> bool {
    &&& a.len() == b.len()
    &&& forall|i: int|
        #![trigger a[i]]
        #![trigger b[i]]
        0 <= i < a.len() ==> (a[i] is Some <==> b[i] is Some) && (a[i] is Some
            ==> a[i].unwrap().store == b[i].unwrap().store && a[i].unwrap().end
            == b[i].unwrap().end)
}

/// The first and the last action of each slot.
fn slot_intervals(actions: &Vec<Option<CacheAction>>, cache_slots: usize) -> (r: Vec<
    (usize, usize),
>)
    requires
        fresh(actions@, cache_slots as int),
    ensures
        r@.len() == cache_slots,
        forall|s: int|
            0 <= s < cache_slots ==> is_interval(
                actions@,
                s,
                (#[trigger] r@[s]).0 as int,
                r@[s].1 as int,
                actions@.len() as int,
            ),
{
    let mut r: Vec<(usize, usize)> = vec![(usize::MAX, 0); cache_slots];
    let mut i: usize = 0;
    let ghost acts = actions@;
    while i < actions.len()
        invariant
            i <= acts.len(),
            acts == actions@,
            fresh(acts, cache_slots as int),
            r@.len() == cache_slots,
            forall|s: int|
                0 <= s < cache_slots && (exists|k: int|
                    0 <= k < i && #[trigger] is_store(acts, k) && acts[k].unwrap().slot == s)
                    ==> is_interval(
                    acts,
                    s,
                    (#[trigger] r@[s]).0 as int,
                    r@[s].1 as int,
                    i as int,
                ),
        decreases acts.len() - i,
    {
        let ghost before = r@;
        if let Some(action) = actions[i] {
            let slot = action.slot;
            assert(acts[i as int] is Some);
            let old = r[slot];
            if action.store {
                r.set(slot, (i, i));
            } else {
                r.set(slot, (old.0, i));
            }
            proof {
                assert forall|s: int|
                    0 <= s < cache_slots && (exists|k: int|
                        0 <= k < i + 1 && #[trigger] is_store(acts, k) && acts[k].unwrap().slot
                            == s) implies is_interval(
                    acts,
                    s,
                    (#[trigger] r@[s]).0 as int,
                    r@[s].1 as int,
                    i + 1,
                ) by {
                    let k = choose|k: int|
                        0 <= k < i + 1 && #[trigger] is_store(acts, k) && acts[k].unwrap().slot == s;
                    if s == slot {
                        if action.store {
                            assert(is_store(acts, i as int));
                            assert forall|x: int|
                                0 <= x < i + 1 && (#[trigger] acts[x]) is Some
                                    && acts[x].unwrap().slot == s implies i <= x <= i by {
                                if x < i {
                                    if is_store(acts, x) {
                                    } else {
                                        assert(is_load(acts, x));
                                        let y = choose|y: int| is_source(acts, y, x);
                                        assert(is_store(acts, y));
                                    }
                                }
                            }
                        } else {
                            assert(is_load(acts, i as int));
                            assert(k < i);
                            assert(is_interval(
                                acts,
                                s,
                                before[s].0 as int,
                                before[s].1 as int,
                                i as int,
                            ));
                        }
                    } else {
                        assert(k < i);
                        assert(is_interval(
                            acts,
                            s,
                            before[s].0 as int,
                            before[s].1 as int,
                            i as int,
                        ));
                        assert(r@[s] == before[s]);
                    }
                }
            }
        } else {
            proof {
                assert forall|s: int|
                    0 <= s < cache_slots && (exists|k: int|
                        0 <= k < i + 1 && #[trigger] is_store(acts, k) && acts[k].unwrap().slot
                            == s) implies is_interval(
                    acts,
                    s,
                    (#[trigger] r@[s]).0 as int,
                    r@[s].1 as int,
                    i + 1,
                ) by {
                    let k = choose|k: int|
                        0 <= k < i + 1 && #[trigger] is_store(acts, k) && acts[k].unwrap().slot == s;
                    assert(k < i);
                    assert(is_interval(acts, s, before[s].0 as int, before[s].1 as int, i as int));
                }
            }
        }
        i += 1;
    }
    proof {
        assert forall|s: int| 0 <= s < cache_slots implies is_interval(
            acts,
            s,
            (#[trigger] r@[s]).0 as int,
            r@[s].1 as int,
            acts.len() as int,
        ) by {
            assert(is_stored(acts, s));
        }
    }
    r
}

/// Two slots are never needed at the same time.
spec fn apart(intervals: Seq<(usize, usize)>, p: int, q: int) -> bool {
    intervals[p].1 < intervals[q].0 || intervals[q].1 < intervals[p].0
}

/// A slot numbered `m` is needed at occurrence `t`.
spec fn is_needed(intervals: Seq<(usize, usize)>, remap: Seq<usize>, m: int, t: int) -> bool {
    exists|p: int|
        0 <= p < intervals.len() && #[trigger] remap[p] == m && intervals[p].0 <= t
            <= intervals[p].1
}

/// All slot numbers below `r` are needed at occurrence `t`.
spec fn needed_at(intervals: Seq<(usize, usize)>, remap: Seq<usize>, r: int, t: int) -> bool {
    forall|m: int| 0 <= m < r ==> #[trigger] is_needed(intervals, remap, m, t)
}

/// One of the first `o` slots in the order got the number `m` and is needed at occurrence `t`.
spec fn is_needed_by(
    order: Seq<usize>,
    o: int,
    intervals: Seq<(usize, usize)>,
    remap: Seq<usize>,
    m: int,
    t: int,
) -> bool {
    exists|a: int|
        0 <= a < o && remap[#[trigger] order[a] as int] == m && intervals[order[a] as int].0 <= t
            <= intervals[order[a] as int].1
}

spec fn needed_by(
    order: Seq<usize>,
    o: int,
    intervals: Seq<(usize, usize)>,
    remap: Seq<usize>,
    r: int,
    t: int,
) -> bool {
    forall|m: int| 0 <= m < r ==> #[trigger] is_needed_by(order, o, intervals, remap, m, t)
}

/// One of the first `o` slots in the order got the number of the entry and ends where it says.
spec fn has_owner(
    order: Seq<usize>,
    o: int,
    intervals: Seq<(usize, usize)>,
    remap: Seq<usize>,
    entry: (usize, usize),
) -> bool {
    exists|a: int|
        0 <= a < o && remap[#[trigger] order[a] as int] == entry.1 && intervals[order[a] as int].1
            == entry.0
}

spec fn in_active(active: Seq<(usize, usize)>, m: int) -> bool {
    exists|k: int| 0 <= k < active.len() && (#[trigger] active[k]).1 == m
}

/// Every number below `next` is held once, by an active slot or in the free list.
spec fn is_pool(active: Seq<(usize, usize)>, free: Seq<usize>, next: int) -> bool {
    &&& forall|m: int|
        0 <= m < next ==> #[trigger] in_active(active, m) || free.contains(m as usize)
    &&& forall|k: int, l: int|
        0 <= k < l < active.len() ==> (#[trigger] active[k]).1 != (#[trigger] active[l]).1
    &&& forall|k: int, l: int|
        0 <= k < l < free.len() ==> (#[trigger] free[k]) != (#[trigger] free[l])
    &&& forall|k: int, l: int|
        0 <= k < active.len() && 0 <= l < free.len() ==> (#[trigger] active[k]).1
            != (#[trigger] free[l])
    &&& forall|k: int| 0 <= k < active.len() ==> (#[trigger] active[k]).1 < next
    &&& forall|k: int| 0 <= k < free.len() ==> (#[trigger] free[k]) < next
}

proof fn lemma_pool_release(
    active: Seq<(usize, usize)>,
    free: Seq<usize>,
    next: int,
    index: int,
    after: Seq<(usize, usize)>,
)
    requires
        is_pool(active, free, next),
        0 <= index < active.len(),
        next <= usize::MAX,
        after == active.update(index, active.last()).drop_last(),
    ensures
        is_pool(after, free.push(active[index].1), next),
{
    let pushed = free.push(active[index].1);
    assert forall|m: int| 0 <= m < next implies #[trigger] in_active(after, m) || pushed.contains(
        m as usize,
    ) by {
        assert(in_active(active, m) || free.contains(m as usize));
        if in_active(active, m) {
            let k = choose|k: int| 0 <= k < active.len() && (#[trigger] active[k]).1 == m;
            if k == index {
                assert(pushed[free.len() as int] == m as usize);
            } else if k == active.len() - 1 {
                assert(after[index].1 == m);
            } else {
                assert(after[k].1 == m);
            }
        } else {
            let k = choose|k: int| 0 <= k < free.len() && free[k] == m as usize;
            assert(pushed[k] == m as usize);
        }
    }
}

proof fn lemma_pool_take(
    active: Seq<(usize, usize)>,
    free: Seq<usize>,
    next: int,
    end: usize,
)
    requires
        is_pool(active, free, next),
        next <= usize::MAX,
        free.len() > 0,
    ensures
        is_pool(active.push((end, free.last())), free.drop_last(), next),
{
    let pushed = active.push((end, free.last()));
    let rest = free.drop_last();
    assert forall|m: int| 0 <= m < next implies #[trigger] in_active(pushed, m) || rest.contains(
        m as usize,
    ) by {
        assert(in_active(active, m) || free.contains(m as usize));
        if in_active(active, m) {
            let k = choose|k: int| 0 <= k < active.len() && (#[trigger] active[k]).1 == m;
            assert(pushed[k].1 == m);
        } else {
            let k = choose|k: int| 0 <= k < free.len() && free[k] == m as usize;
            if k == free.len() - 1 {
                assert(pushed[active.len() as int].1 == m);
            } else {
                assert(rest[k] == m as usize);
            }
        }
    }
    assert forall|k: int, l: int|
        0 <= k < pushed.len() && 0 <= l < rest.len() implies (#[trigger] pushed[k]).1
        != (#[trigger] rest[l]) by {
        if k == active.len() {
            assert(free[l] != free[free.len() - 1]);
        } else {
            assert(active[k].1 != free[l]);
        }
    }
    assert forall|k: int, l: int| 0 <= k < l < pushed.len() implies (#[trigger] pushed[k]).1
        != (#[trigger] pushed[l]).1 by {
        if l == active.len() {
            assert(active[k].1 != free[free.len() - 1]);
        }
    }
}

proof fn lemma_pool_fresh(active: Seq<(usize, usize)>, next: usize, end: usize)
    requires
        is_pool(active, Seq::empty(), next as int),
        next < usize::MAX,
    ensures
        is_pool(active.push((end, next)), Seq::empty(), next + 1),
{
    let pushed = active.push((end, next));
    assert forall|m: int| 0 <= m < next + 1 implies #[trigger] in_active(pushed, m)
        || Seq::<usize>::empty().contains(m as usize) by {
        if m == next {
            assert(pushed[active.len() as int].1 == m);
        } else {
            assert(in_active(active, m) || Seq::<usize>::empty().contains(m as usize));
            let k = choose|k: int| 0 <= k < active.len() && (#[trigger] active[k]).1 == m;
            assert(pushed[k].1 == m);
        }
    }
}

/// How far the slots are numbered.
pub struct Numbering {
    /// The number of each slot, zero where it has none yet.
    pub numbers: Seq<usize>,
    /// The numbers in use, each with the last occurrence that it is needed at.
    pub active: Seq<(usize, usize)>,
    /// The numbers that are free again; the one that was freed last is used first.
    pub free: Seq<usize>,
    /// The least number that was never used.
    pub next: nat,
}

/// The sequence with its last element in the place of the one at `i`.
pub open spec fn swap_removed<T>(values: Seq<T>, i: int) -> Seq<T> {
    values.update(i, values.last()).drop_last()
}

/// The numbers from `index` on that are not needed at `start` become free: the last in use takes
/// the place of each.
pub open spec fn retired(
    active: Seq<(usize, usize)>,
    free: Seq<usize>,
    start: usize,
    index: int,
) -> (Seq<(usize, usize)>, Seq<usize>)
    decreases active.len() - index,
{
    if !(0 <= index < active.len()) {
        (active, free)
    } else if active[index].0 < start {
        retired(swap_removed(active, index), free.push(active[index].1), start, index)
    } else {
        retired(active, free, start, index + 1)
    }
}

/// The numbers of the first `k` slots in the order: each takes a number that is free again, or
/// the next one.
pub open spec fn numbered(intervals: Seq<(usize, usize)>, order: Seq<usize>, k: nat) -> Numbering
    decreases k,
{
    if k == 0 {
        Numbering {
            numbers: Seq::new(intervals.len(), |i: int| 0usize),
            active: Seq::empty(),
            free: Seq::empty(),
            next: 0,
        }
    } else {
        let before = numbered(intervals, order, (k - 1) as nat);
        let slot = order[k - 1] as int;
        let (start, end) = intervals[slot];
        let (active, free) = retired(before.active, before.free, start, 0);
        if free.len() > 0 {
            Numbering {
                numbers: before.numbers.update(slot, free.last()),
                active: active.push((end, free.last())),
                free: free.drop_last(),
                next: before.next,
            }
        } else {
            Numbering {
                numbers: before.numbers.update(slot, before.next as usize),
                active: active.push((end, before.next as usize)),
                free,
                next: before.next + 1,
            }
        }
    }
}

/// The first occurrences of slots as keys to sort them by.
pub open spec fn starts_of(intervals: Seq<(usize, usize)>) -> Seq<(usize, usize, usize)> {
    Seq::new(intervals.len(), |s: int| (intervals[s].0, 0usize, 0usize))
}

/// The numbering of all slots in the order of their stores.
pub open spec fn is_numbering(
    intervals: Seq<(usize, usize)>,
    order: Seq<usize>,
    numbers: Seq<usize>,
    count: nat,
) -> bool {
    &&& is_order(order, starts_of(intervals))
    &&& numbered(intervals, order, intervals.len()).numbers == numbers
    &&& numbered(intervals, order, intervals.len()).next == count
}

/// The actions with their slots numbered anew: the slots take numbers in the order of their
/// stores, and a number is free again once its slot was loaded for the last time.
pub open spec fn is_renumbering(
    before: Seq<Option<CacheAction>>,
    after: Seq<Option<CacheAction>>,
    slots: nat,
    count: nat,
) -> bool {
    exists|intervals: Seq<(usize, usize)>, order: Seq<usize>, numbers: Seq<usize>| #[trigger]
        is_numbering(intervals, order, numbers, count) && is_renumbered(
            before,
            after,
            slots,
            intervals,
            numbers,
        )
}

/// The actions have the numbers of their slots, which are needed in the intervals.
pub open spec fn is_renumbered(
    before: Seq<Option<CacheAction>>,
    after: Seq<Option<CacheAction>>,
    slots: nat,
    intervals: Seq<(usize, usize)>,
    numbers: Seq<usize>,
) -> bool {
    &&& intervals.len() == slots
    &&& forall|s: int|
        0 <= s < slots ==> is_interval(
            before,
            s,
            (#[trigger] intervals[s]).0 as int,
            intervals[s].1 as int,
            before.len() as int,
        )
    &&& after.len() == before.len()
    &&& forall|i: int|
        0 <= i < before.len() ==> #[trigger] after[i] == renumbered(before[i], numbers)
}

/// New numbers for the slots, so that slots that are needed at the same time differ.
fn assign_slots(
    intervals: &Vec<(usize, usize)>,
) -> (r: (Vec<usize>, usize))
    requires
        forall|s: int| 0 <= s < intervals@.len() ==> (#[trigger] intervals@[s]).0 <= intervals@[s].1,
    ensures
        r.0@.len() == intervals@.len(),
        r.1 <= intervals@.len(),
        forall|p: int| 0 <= p < intervals@.len() ==> (#[trigger] r.0@[p]) < r.1,
        forall|p: int, q: int|
            0 <= p < intervals@.len() && 0 <= q < intervals@.len() && p != q && #[trigger] r.0@[p]
                == #[trigger] r.0@[q] ==> apart(intervals@, p, q),
        r.1 > 0 ==> exists|t: int|
            #![trigger needed_at(intervals@, r.0@, r.1 as int, t)]
            needed_at(intervals@, r.0@, r.1 as int, t),
        exists|order: Seq<usize>| #[trigger]
            is_numbering(intervals@, order, r.0@, r.1 as nat),
{
    let n = intervals.len();
    let mut keys: Vec<(usize, usize, usize)> = Vec::new();
    let mut k: usize = 0;
    while k < n
        invariant
            k <= n,
            n == intervals@.len(),
            keys@.len() == k,
            forall|s: int|
                0 <= s < k ==> #[trigger] keys@[s] == (intervals@[s].0, 0usize, 0usize),
        decreases n - k,
    {
        keys.push((intervals[k].0, 0, 0));
        k += 1;
    }
    assert(keys@ =~= starts_of(intervals@));
    let order = sorted_order(&keys);
    let mut remap: Vec<usize> = vec![0; n];
    let mut active: Vec<(usize, usize)> = Vec::new();
    let mut free: Vec<usize> = Vec::new();
    let mut next_slot: usize = 0;
    let ghost mut witness: int = 0;
    let mut o: usize = 0;
    proof {
        let state = numbered(intervals@, order@, 0);
        assert(state.numbers =~= remap@);
        assert(state.active =~= active@ && state.free =~= free@);
    }
    while o < n
        invariant
            o <= n,
            n == intervals@.len(),
            numbered(intervals@, order@, o as nat) == (Numbering {
                numbers: remap@,
                active: active@,
                free: free@,
                next: next_slot as nat,
            }),
            remap@.len() == n,
            next_slot <= o,
            is_order(order@, keys@),
            keys@.len() == n,
            forall|s: int| 0 <= s < n ==> (#[trigger] keys@[s]).0 == intervals@[s].0,
            forall|s: int| 0 <= s < n ==> (#[trigger] intervals@[s]).0 <= intervals@[s].1,
            forall|k: int|
                0 <= k < active@.len() ==> has_owner(
                    order@,
                    o as int,
                    intervals@,
                    remap@,
                    #[trigger] active@[k],
                ),
            is_pool(active@, free@, next_slot as int),
            forall|a: int, k: int|
                0 <= a < o && 0 <= k < active@.len() && (#[trigger] active@[k]).1
                    == remap@[#[trigger] order@[a] as int] ==> intervals@[order@[a] as int].1
                    <= active@[k].0,
            forall|a: int, k: int, b: int|
                0 <= a < o && 0 <= k < free@.len() && #[trigger] free@[k]
                    == remap@[#[trigger] order@[a] as int] && o <= b < n
                    ==> intervals@[order@[a] as int].1 < intervals@[#[trigger] order@[b] as int].0,
            forall|a: int| 0 <= a < o ==> remap@[#[trigger] order@[a] as int] < next_slot,
            forall|a: int, b: int|
                0 <= a < b < o && remap@[#[trigger] order@[a] as int] == remap@[
                    #[trigger] order@[b] as int] ==> apart(
                    intervals@,
                    order@[a] as int,
                    order@[b] as int,
                ),
            next_slot > 0 ==> needed_by(order@, o as int, intervals@, remap@, next_slot as int, witness),
        decreases n - o,
    {
        let old_slot = order[o];
        let (start, end) = intervals[old_slot];
        proof {
            assert forall|a: int, b: int| 0 <= a <= o <= b < n implies intervals@[
                #[trigger] order@[a] as int].0 <= start <= intervals@[
                #[trigger] order@[b] as int].0 by {
                if a < o {
                    assert(key_le(keys@[order@[a] as int], keys@[order@[o as int] as int]));
                }
                if o < b {
                    assert(key_le(keys@[order@[o as int] as int], keys@[order@[b] as int]));
                }
                assert(order@[a] < n && order@[b] < n && order@[o as int] < n);
            }
        }
        let mut index: usize = 0;
        let ghost (in_use, unused) = (active@, free@);
        while index < active.len()
            invariant
                index <= active@.len(),
                retired(active@, free@, start, index as int) == retired(in_use, unused, start, 0),
                o < n,
                n == intervals@.len(),
                remap@.len() == n,
                order@.len() == n,
                old_slot == order@[o as int],
                start == intervals@[old_slot as int].0,
                forall|a: int, b: int|
                    0 <= a <= o <= b < n ==> intervals@[#[trigger] order@[a] as int].0 <= start
                        <= intervals@[#[trigger] order@[b] as int].0,
                forall|k: int| 0 <= k < index ==> (#[trigger] active@[k]).0 >= start,
                forall|k: int|
                    0 <= k < active@.len() ==> has_owner(
                        order@,
                        o as int,
                        intervals@,
                        remap@,
                        #[trigger] active@[k],
                    ),
                is_pool(active@, free@, next_slot as int),
                forall|a: int, k: int|
                    0 <= a < o && 0 <= k < active@.len() && (#[trigger] active@[k]).1
                        == remap@[#[trigger] order@[a] as int] ==> intervals@[order@[a] as int].1
                        <= active@[k].0,
                forall|a: int, k: int, b: int|
                    0 <= a < o && 0 <= k < free@.len() && #[trigger] free@[k]
                        == remap@[#[trigger] order@[a] as int] && o <= b < n
                        ==> intervals@[order@[a] as int].1 < intervals@[
                        #[trigger] order@[b] as int].0,
            decreases active@.len() - index,
        {
            if active[index].0 < start {
                let ghost (active0, free0) = (active@, free@);
                let released = active.swap_remove(index);
                free.push(released.1);
                proof {
                    assert(active@ =~= swap_removed(active0, index as int));
                    assert(free@ =~= free0.push(active0[index as int].1));
                    lemma_pool_release(
                        active0,
                        free0,
                        next_slot as int,
                        index as int,
                        active@,
                    );
                    assert forall|a: int, k: int, b: int|
                        0 <= a < o && 0 <= k < free@.len() && #[trigger] free@[k]
                            == remap@[#[trigger] order@[a] as int] && o <= b
                            < n implies intervals@[order@[a] as int].1 < intervals@[
                        #[trigger] order@[b] as int].0 by {
                        if k == free0.len() {
                            assert(active0[index as int].1 == remap@[order@[a] as int]);
                            assert(intervals@[order@[o as int] as int].0 <= start
                                <= intervals@[order@[b] as int].0);
                        } else {
                            assert(free0[k] == remap@[order@[a] as int]);
                        }
                    }
                }
            } else {
                index += 1;
            }
        }
        let ghost (remap0, free0, active0, next0) = (remap@, free@, active@, next_slot);
        assert(retired(in_use, unused, start, 0) == (active@, free@));
        let new_slot = match free.pop() {
            Some(slot) => slot,
            None => {
                let slot = next_slot;
                next_slot += 1;
                slot
            },
        };
        remap.set(old_slot, new_slot);
        active.push((end, new_slot));
        proof {
            let state = numbered(intervals@, order@, (o + 1) as nat);
            assert(state.numbers =~= remap@);
            assert(state.active =~= active@);
            assert(state.free =~= free@);
            assert(state.next == next_slot);
            assert forall|a: int| 0 <= a < o implies remap@[#[trigger] order@[a] as int]
                == remap0[order@[a] as int] by {
                assert(order@[a] != order@[o as int]);
            }
            assert(remap@[order@[o as int] as int] == new_slot);
            // The slots that were processed before keep away from the new interval.
            assert forall|a: int|
                0 <= a < o && remap@[#[trigger] order@[a] as int] == new_slot implies intervals@[order@[a] as int].1
                < start by {
                if free0.len() > 0 {
                    assert(free0[free0.len() - 1] == remap0[order@[a] as int]);
                    assert(order@[o as int] == old_slot);
                } else {
                    assert(remap0[order@[a] as int] < next0);
                }
            }
            assert forall|k: int| 0 <= k < active@.len() implies has_owner(
                order@,
                o + 1,
                intervals@,
                remap@,
                #[trigger] active@[k],
            ) by {
                if k < active0.len() {
                    assert(has_owner(order@, o as int, intervals@, remap0, active0[k]));
                    let a = choose|a: int|
                        #![trigger order@[a]]
                        0 <= a < o && remap0[order@[a] as int] == active0[k].1 && intervals@[order@[a] as int].1
                            == active0[k].0;
                    assert(remap@[order@[a] as int] == active@[k].1);
                } else {
                    assert(remap@[order@[o as int] as int] == active@[k].1);
                }
            }
            if free0.len() > 0 {
                lemma_pool_take(active0, free0, next0 as int, end);
            } else {
                assert(free0 =~= Seq::empty());
                lemma_pool_fresh(active0, next0, end);
            }
            assert forall|a: int, k: int|
                0 <= a < o + 1 && 0 <= k < active@.len() && (#[trigger] active@[k]).1
                    == remap@[#[trigger] order@[a] as int] implies intervals@[order@[a] as int].1
                <= active@[k].0 by {
                if a < o && k < active0.len() {
                    assert(active0[k].1 == remap0[order@[a] as int]);
                } else if a < o {
                    assert(remap@[order@[a] as int] == new_slot);
                } else if k < active0.len() {
                    assert(active@[k].1 != active@[active0.len() as int].1);
                }
            }
            assert forall|a: int, k: int, b: int|
                0 <= a < o + 1 && 0 <= k < free@.len() && #[trigger] free@[k]
                    == remap@[#[trigger] order@[a] as int] && o + 1 <= b < n implies intervals@[order@[a] as int].1
                < intervals@[#[trigger] order@[b] as int].0 by {
                if a < o {
                    assert(free0[k] == remap0[order@[a] as int]);
                } else {
                    assert(active@[active0.len() as int].1 != free@[k]);
                }
            }
            assert forall|a: int, b: int|
                0 <= a < b < o + 1 && remap@[#[trigger] order@[a] as int] == remap@[
                    #[trigger] order@[b] as int] implies apart(
                intervals@,
                order@[a] as int,
                order@[b] as int,
            ) by {
                if b == o {
                    assert(remap@[order@[a] as int] == new_slot);
                } else {
                    assert(remap0[order@[a] as int] == remap0[order@[b] as int]);
                }
            }
            if free0.len() == 0 {
                witness = start as int;
            }
            assert forall|m: int| 0 <= m < next_slot implies #[trigger] is_needed_by(
                order@,
                o + 1,
                intervals@,
                remap@,
                m,
                witness,
            ) by {
                if free0.len() > 0 {
                    assert(is_needed_by(order@, o as int, intervals@, remap0, m, witness));
                    let a = choose|a: int|
                        0 <= a < o && remap0[#[trigger] order@[a] as int] == m
                            && intervals@[order@[a] as int].0 <= witness
                            <= intervals@[order@[a] as int].1;
                    assert(remap@[order@[a] as int] == m);
                } else if m == new_slot {
                    assert(remap@[order@[o as int] as int] == m);
                } else {
                    assert(in_active(active0, m) || free0.contains(m as usize));
                    let k = choose|k: int| 0 <= k < active0.len() && (#[trigger] active0[k]).1 == m;
                    assert(has_owner(order@, o as int, intervals@, remap0, active0[k]));
                    let a = choose|a: int|
                        #![trigger order@[a]]
                        0 <= a < o && remap0[order@[a] as int] == active0[k].1
                            && intervals@[order@[a] as int].1 == active0[k].0;
                    assert(remap@[order@[a] as int] == m);
                    assert(active0[k].0 >= start);
                    assert(intervals@[order@[a] as int].0 <= start <= intervals@[order@[o as int] as int].0);
                }
            }
        }
        o += 1;
    }
    proof {
        assert forall|p: int| 0 <= p < n implies #[trigger] order@.contains(p as usize) by {}
        assert forall|p: int| 0 <= p < n implies (#[trigger] remap@[p]) < next_slot by {
            assert(order@.contains(p as usize));
            let a = choose|a: int| 0 <= a < order@.len() && order@[a] == p as usize;
            assert(remap@[order@[a] as int] < next_slot);
        }
        assert forall|p: int, q: int|
            0 <= p < n && 0 <= q < n && p != q && #[trigger] remap@[p]
                == #[trigger] remap@[q] implies apart(intervals@, p, q) by {
            assert(order@.contains(p as usize) && order@.contains(q as usize));
            let a = choose|a: int| 0 <= a < order@.len() && order@[a] == p as usize;
            let b = choose|b: int| 0 <= b < order@.len() && order@[b] == q as usize;
            if a < b {
                assert(apart(intervals@, order@[a] as int, order@[b] as int));
            } else {
                assert(apart(intervals@, order@[b] as int, order@[a] as int));
            }
        }
        if next_slot > 0 {
            assert forall|m: int| 0 <= m < next_slot implies #[trigger] is_needed(
                intervals@,
                remap@,
                m,
                witness,
            ) by {
                assert(is_needed_by(order@, o as int, intervals@, remap@, m, witness));
                let a = choose|a: int|
                    0 <= a < o && remap@[#[trigger] order@[a] as int] == m
                        && intervals@[order@[a] as int].0 <= witness
                        <= intervals@[order@[a] as int].1;
                let p = order@[a] as int;
                assert(remap@[p] == m);
            }
        }
    }
    let r = (remap, next_slot);
    assert(is_numbering(intervals@, order@, r.0@, r.1 as nat));
    assert(next_slot > 0 ==> needed_at(intervals@, r.0@, r.1 as int, witness));
    r
}

/// Numbers the cache slots anew so that slots whose values are not needed at the same time share
/// a number; what is stored and what is loaded stays as it is.
///
/// All numbers are needed at one occurrence, so that fewer would not do.
pub fn reuse_cache_slots(actions: &mut Vec<Option<CacheAction>>, cache_slots: usize) -> (r: usize)
    requires
        fresh(old(actions)@, cache_slots as int),
    ensures
        same_but_slots(old(actions)@, final(actions)@),
        r <= cache_slots,
        r > 0 <==> cache_slots > 0,
        forall|i: int|
            0 <= i < final(actions)@.len() && (#[trigger] final(actions)@[i]) is Some
                ==> final(actions)@[i].unwrap().slot < r,
        forall|i: int, j: int| #[trigger]
            is_source(final(actions)@, i, j) <==> is_source(old(actions)@, i, j),
        r > 0 ==> exists|t: int|
            #![trigger all_live(final(actions)@, r as int, t)]
            all_live(final(actions)@, r as int, t),
        is_renumbering(old(actions)@, final(actions)@, cache_slots as nat, r as nat),
{
    let ghost before = actions@;
    let intervals = slot_intervals(actions, cache_slots);
    let (remap, slots) = assign_slots(&intervals);
    let mut i: usize = 0;
    while i < actions.len()
        invariant
            i <= actions@.len(),
            actions@.len() == before.len(),
            remap@.len() == cache_slots,
            fresh(before, cache_slots as int),
            forall|k: int| i <= k < before.len() ==> actions@[k] == before[k],
            forall|k: int| 0 <= k < i ==> #[trigger] actions@[k] == renumbered(before[k], remap@),
        decreases actions@.len() - i,
    {
        assert(actions@[i as int] == before[i as int]);
        if let Some(action) = actions[i] {
            assert(before[i as int] is Some);
            actions.set(
                i,
                Some(
                    CacheAction {
                        slot: remap[action.slot],
                        store: action.store,
                        end: action.end,
                    },
                ),
            );
        }
        i += 1;
    }
    proof {
        let after = actions@;
        assert(forall|k: int| 0 <= k < before.len() ==> #[trigger] after[k] == renumbered(before[k], remap@));
        assert forall|k: int| 0 <= k < after.len() && (#[trigger] after[k]) is Some implies after[k].unwrap().slot
            < slots by {
            assert(before[k] is Some);
            assert(remap@[before[k].unwrap().slot as int] < slots);
        }
        assert forall|i: int, j: int| #[trigger] is_source(after, i, j) <==> is_source(
            before,
            i,
            j,
        ) by {
            lemma_sources(before, after, intervals@, remap@, cache_slots as int, i, j);
        }
        if slots > 0 {
            let t = choose|t: int|
                #![trigger needed_at(intervals@, remap@, slots as int, t)]
                needed_at(intervals@, remap@, slots as int, t);
            assert forall|m: int| 0 <= m < slots implies #[trigger] is_live(after, m, t) by {
                assert(is_needed(intervals@, remap@, m, t));
                let p = choose|p: int|
                    0 <= p < intervals@.len() && #[trigger] remap@[p] == m && intervals@[p].0 <= t
                        <= intervals@[p].1;
                let (a, b) = (intervals@[p].0 as int, intervals@[p].1 as int);
                assert(is_interval(before, p, a, b, before.len() as int));
                assert(is_store(after, a));
                if a < b {
                    assert(is_load(before, b)) by {
                        if is_store(before, b) {
                            assert(is_store(before, a));
                        }
                    }
                    let s = choose|s: int| is_source(before, s, b);
                    assert(is_store(before, s) && is_store(before, a));
                    assert(s == a);
                    assert(is_source(after, a, b));
                } else {
                    assert(!is_source(after, a, b));
                }
            }
            assert(all_live(after, slots as int, t));
        }
        if cache_slots > 0 {
            assert(remap@[0] < slots);
        }
        let order = choose|order: Seq<usize>| #[trigger]
            is_numbering(intervals@, order, remap@, slots as nat);
        assert(is_numbering(intervals@, order, remap@, slots as nat));
        assert(is_renumbered(before, after, cache_slots as nat, intervals@, remap@));
    }
    slots
}

/// The values in all slots below `r` are needed at occurrence `t`.
pub open spec fn all_live(actions: Seq<Option<CacheAction>>, r: int, t: int) -> bool {
    forall|m: int| 0 <= m < r ==> #[trigger] is_live(actions, m, t)
}

/// The action with the new number of its slot.
pub open spec fn renumbered(action: Option<CacheAction>, remap: Seq<usize>) -> Option<CacheAction> {
    match action {
        Some(a) => Some(CacheAction { slot: remap[a.slot as int], store: a.store, end: a.end }),
        None => None,
    }
}

/// Slots that are needed at different times can share a number.
proof fn lemma_sources(
    before: Seq<Option<CacheAction>>,
    after: Seq<Option<CacheAction>>,
    intervals: Seq<(usize, usize)>,
    remap: Seq<usize>,
    slots: int,
    i: int,
    j: int,
)
    requires
        fresh(before, slots),
        intervals.len() == slots,
        remap.len() == slots,
        after.len() == before.len(),
        forall|k: int| 0 <= k < before.len() ==> #[trigger] after[k] == renumbered(before[k], remap),
        forall|s: int|
            0 <= s < slots ==> is_interval(
                before,
                s,
                (#[trigger] intervals[s]).0 as int,
                intervals[s].1 as int,
                before.len() as int,
            ),
        forall|p: int, q: int|
            0 <= p < slots && 0 <= q < slots && p != q && #[trigger] remap[p]
                == #[trigger] remap[q] ==> apart(intervals, p, q),
    ensures
        is_source(after, i, j) <==> is_source(before, i, j),
{
    if is_source(before, i, j) {
        lemma_source_kept(before, after, intervals, remap, slots, i, j);
    }
    if is_source(after, i, j) {
        assert(is_load(before, j));
        let s = choose|s: int| is_source(before, s, j);
        lemma_source_kept(before, after, intervals, remap, slots, s, j);
        assert(is_source(after, s, j));
        assert(is_store(after, s) && is_store(after, i));
        assert(s == i);
    }
}

proof fn lemma_source_kept(
    before: Seq<Option<CacheAction>>,
    after: Seq<Option<CacheAction>>,
    intervals: Seq<(usize, usize)>,
    remap: Seq<usize>,
    slots: int,
    i: int,
    j: int,
)
    requires
        fresh(before, slots),
        intervals.len() == slots,
        remap.len() == slots,
        after.len() == before.len(),
        forall|k: int| 0 <= k < before.len() ==> #[trigger] after[k] == renumbered(before[k], remap),
        forall|s: int|
            0 <= s < slots ==> is_interval(
                before,
                s,
                (#[trigger] intervals[s]).0 as int,
                intervals[s].1 as int,
                before.len() as int,
            ),
        forall|p: int, q: int|
            0 <= p < slots && 0 <= q < slots && p != q && #[trigger] remap[p]
                == #[trigger] remap[q] ==> apart(intervals, p, q),
        is_source(before, i, j),
    ensures
        is_source(after, i, j),
{
    assert(after[i] == renumbered(before[i], remap));
    assert(after[j] == renumbered(before[j], remap));
    let p = before[i].unwrap().slot as int;
    assert(before[i] is Some && before[j] is Some);
    assert(is_interval(before, p, intervals[p].0 as int, intervals[p].1 as int, before.len() as int));
    assert forall|k: int| i < k < j && #[trigger] is_store(after, k) implies after[k].unwrap().slot
        != after[j].unwrap().slot by {
        assert(after[k] == renumbered(before[k], remap));
        assert(is_store(before, k) && is_store(before, i));
        let q = before[k].unwrap().slot as int;
        assert(before[k] is Some);
        assert(q != p);
        assert(is_interval(
            before,
            q,
            intervals[q].0 as int,
            intervals[q].1 as int,
            before.len() as int,
        ));
        if remap[p] == remap[q] {
            assert(apart(intervals, p, q));
        }
    }
}

} // verus!

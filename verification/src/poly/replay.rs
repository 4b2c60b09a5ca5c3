//! Rewriting a plan so that repeated parts are computed once.
use crate::field::congruence::{congruent, lemma_congruent_ops};
use crate::field::{Fe, Modulus};
use crate::poly::assemble::{lemma_polynomial_congruent, plain};
use crate::poly::ast::{AstLeaf, Row};
use crate::poly::caching::{is_load, is_store, CacheAction, Caching};
use crate::poly::rewritten::{
    bodies_rewritten, body_item_rewritten, body_work_rewritten, inside_rewritten, item_rewritten,
    rewritten, runs_rewritten, sequence_rewritten, terms_rewritten, work_rewritten,
};
use crate::poly::plan::{
    family_value, selector_factor, selector_product, selector_sum, DistributionWork, EvaluationPlan,
    FactorBodyPlan, FactorBodyWork, SelectorFamilyRun, WeightedTerm,
};
use vstd::prelude::*;

verus! {

impl<M: Modulus> Caching<M> {
    /// The given parts stand from position `t` on.
    pub open spec fn holds(self, t: int, parts: Seq<EvaluationPlan<M>>) -> bool {
        &&& 0 <= t
        &&& t + parts.len() <= self.nodes.len()
        &&& self.nodes.subrange(t, t + parts.len()) == parts
        &&& plain(parts)
    }

    proof fn lemma_holds_concat(
        self,
        t: int,
        a: Seq<EvaluationPlan<M>>,
        b: Seq<EvaluationPlan<M>>,
    )
        requires
            self.holds(t, a + b),
        ensures
            self.holds(t, a),
            self.holds(t + a.len(), b),
    {
        let c = a + b;
        assert(self.nodes.subrange(t, t + a.len()) =~= c.subrange(0, a.len() as int));
        assert(c.subrange(0, a.len() as int) =~= a);
        assert(self.nodes.subrange(t + a.len(), t + a.len() + b.len()) =~= c.subrange(
            a.len() as int,
            c.len() as int,
        ));
        assert(c.subrange(a.len() as int, c.len() as int) =~= b);
        assert forall|i: int| 0 <= i < a.len() implies (#[trigger] a[i]).cache_free_node() by {
            assert(c[i].cache_free_node());
        }
        assert forall|i: int| 0 <= i < b.len() implies (#[trigger] b[i]).cache_free_node() by {
            assert(c[i + a.len()].cache_free_node());
        }
    }
}

/// The rewritten plan has the value of the plan at position `t`.
pub open spec fn replays<M: Modulus>(
    c: Caching<M>,
    new: EvaluationPlan<M>,
    old: EvaluationPlan<M>,
    t: int,
) -> bool {
    &&& forall|row: Row, cache: Seq<int>|
        c.flow(
            t,
            t + old.nodes().len(),
            row,
            cache,
            (#[trigger] new.run(row, cache)).1,
            congruent(new.run(row, cache).0, old.value(row), M::p()),
        )
    &&& forall|f: spec_fn(AstLeaf) -> bool|
        old.sound(f, 0) ==> #[trigger] new.sound(f, c.slots)
}

spec fn replays_inner<M: Modulus>(
    c: Caching<M>,
    new: EvaluationPlan<M>,
    old: EvaluationPlan<M>,
    t: int,
) -> bool {
    &&& forall|row: Row, cache: Seq<int>|
        c.flow(
            t + 1,
            t + old.nodes().len(),
            row,
            cache,
            (#[trigger] new.run(row, cache)).1,
            congruent(new.run(row, cache).0, old.value(row), M::p()),
        )
    &&& forall|f: spec_fn(AstLeaf) -> bool|
        old.sound(f, 0) ==> #[trigger] new.sound(f, c.slots)
}

spec fn replays_sequence<M: Modulus>(
    c: Caching<M>,
    new: Seq<EvaluationPlan<M>>,
    old: Seq<EvaluationPlan<M>>,
    base: int,
    t: int,
) -> bool {
    &&& new.len() == old.len()
    &&& forall|row: Row, cache: Seq<int>|
        c.flow(
            t,
            t + EvaluationPlan::sequence_nodes(old).len(),
            row,
            cache,
            (#[trigger] EvaluationPlan::run_sequence(new, base, row, cache)).1,
            congruent(
                EvaluationPlan::run_sequence(new, base, row, cache).0,
                EvaluationPlan::sequence_value(old, base, row),
                M::p(),
            ),
        )
    &&& forall|f: spec_fn(AstLeaf) -> bool, i: int|
        0 <= i < old.len() && old[i].sound(f, 0) ==> #[trigger] new[i].sound(f, c.slots)
}

spec fn replays_terms<M: Modulus>(
    c: Caching<M>,
    new: Seq<WeightedTerm<M>>,
    old: Seq<WeightedTerm<M>>,
    t: int,
) -> bool {
    &&& new.len() == old.len()
    &&& forall|row: Row, cache: Seq<int>|
        c.flow(
            t,
            t + WeightedTerm::all_nodes(old).len(),
            row,
            cache,
            (#[trigger] WeightedTerm::run_all(new, row, cache)).1,
            congruent(
                WeightedTerm::run_all(new, row, cache).0,
                WeightedTerm::total(old, row),
                M::p(),
            ),
        )
    &&& forall|f: spec_fn(AstLeaf) -> bool, i: int|
        0 <= i < old.len() && old[i].term.sound(f, 0) ==> #[trigger] new[i].term.sound(f, c.slots)
}

spec fn replays_body_work<M: Modulus>(
    c: Caching<M>,
    new: FactorBodyWork<M>,
    old: FactorBodyWork<M>,
    t: int,
) -> bool {
    &&& forall|row: Row, cache: Seq<int>|
        c.flow(
            t,
            t + old.nodes().len(),
            row,
            cache,
            (#[trigger] new.run(row, cache)).1,
            congruent(new.run(row, cache).0, old.value(row), M::p()),
        )
    &&& forall|f: spec_fn(AstLeaf) -> bool|
        old.sound(f, 0) ==> #[trigger] new.sound(f, c.slots)
}

spec fn replays_body_list<M: Modulus>(
    c: Caching<M>,
    new: Seq<FactorBodyWork<M>>,
    old: Seq<FactorBodyWork<M>>,
    t: int,
) -> bool {
    &&& new.len() == old.len()
    &&& forall|row: Row, cache: Seq<int>|
        c.flow(
            t,
            t + FactorBodyWork::all_nodes(old).len(),
            row,
            cache,
            (#[trigger] FactorBodyWork::run_all(new, row, cache)).1,
            congruent(
                FactorBodyWork::run_all(new, row, cache).0,
                FactorBodyWork::total(old, row),
                M::p(),
            ),
        )
    &&& forall|f: spec_fn(AstLeaf) -> bool, i: int|
        0 <= i < old.len() && old[i].sound(f, 0) ==> #[trigger] new[i].sound(f, c.slots)
}

spec fn replays_bodies<M: Modulus>(
    c: Caching<M>,
    new: FactorBodyPlan<M>,
    old: FactorBodyPlan<M>,
    base: int,
    t: int,
) -> bool {
    &&& forall|row: Row, cache: Seq<int>|
        c.flow(
            t,
            t + old.nodes().len(),
            row,
            cache,
            (#[trigger] new.run(base, row, cache)).1,
            congruent(new.run(base, row, cache).0, old.value(base, row), M::p()),
        )
    &&& forall|f: spec_fn(AstLeaf) -> bool|
        old.sound(f, 0) ==> #[trigger] new.sound(f, c.slots)
}

/// Values that are congruent one by one.
pub open spec fn all_congruent(a: Seq<int>, b: Seq<int>, p: int) -> bool {
    a.len() == b.len() && forall|i: int| 0 <= i < a.len() ==> congruent(#[trigger] a[i], b[i], p)
}

spec fn replays_runs<M: Modulus>(
    c: Caching<M>,
    new: Seq<SelectorFamilyRun<M>>,
    old: Seq<SelectorFamilyRun<M>>,
    base: int,
    t: int,
) -> bool {
    &&& new.len() == old.len()
    &&& forall|row: Row, cache: Seq<int>|
        c.flow(
            t,
            t + SelectorFamilyRun::all_nodes(old).len(),
            row,
            cache,
            (#[trigger] SelectorFamilyRun::run_all(new, base, row, cache)).1,
            all_congruent(
                SelectorFamilyRun::run_all(new, base, row, cache).0,
                SelectorFamilyRun::values(old, base, row),
                M::p(),
            ),
        )
    &&& forall|f: spec_fn(AstLeaf) -> bool, i: int|
        0 <= i < old.len() && old[i].bodies.sound(f, 0) ==> #[trigger] new[i].bodies.sound(
            f,
            c.slots,
        )
}

spec fn replays_work<M: Modulus>(
    c: Caching<M>,
    new: DistributionWork<M>,
    old: DistributionWork<M>,
    base: int,
    t: int,
) -> bool {
    &&& forall|row: Row, cache: Seq<int>|
        c.flow(
            t,
            t + old.nodes().len(),
            row,
            cache,
            (#[trigger] new.run(base, row, cache)).1,
            congruent(new.run(base, row, cache).0, old.value(base, row), M::p()),
        )
    &&& forall|f: spec_fn(AstLeaf) -> bool|
        old.sound(f, 0) ==> #[trigger] new.sound(f, c.slots)
}

spec fn replays_work_list<M: Modulus>(
    c: Caching<M>,
    new: Seq<DistributionWork<M>>,
    old: Seq<DistributionWork<M>>,
    base: int,
    t: int,
) -> bool {
    &&& new.len() == old.len()
    &&& forall|row: Row, cache: Seq<int>|
        c.flow(
            t,
            t + DistributionWork::all_nodes(old).len(),
            row,
            cache,
            (#[trigger] DistributionWork::run_all(new, base, row, cache)).1,
            congruent(
                DistributionWork::run_all(new, base, row, cache).0,
                DistributionWork::total(old, base, row),
                M::p(),
            ),
        )
    &&& forall|f: spec_fn(AstLeaf) -> bool, i: int|
        0 <= i < old.len() && old[i].sound(f, 0) ==> #[trigger] new[i].sound(f, c.slots)
}

proof fn lemma_flow_stay<M: Modulus>(c: Caching<M>, t: int, row: Row, cache: Seq<int>)
    ensures
        c.flow(t, t, row, cache, cache, true),
{
}

proof fn lemma_sequence_push<M: Modulus>(
    c: Caching<M>,
    new: Seq<EvaluationPlan<M>>,
    old: Seq<EvaluationPlan<M>>,
    base: int,
    t: int,
    item: EvaluationPlan<M>,
)
    requires
        old.len() > 0,
        replays_sequence(c, new, old.drop_last(), base, t),
        replays(
            c,
            item,
            old.last(),
            t + EvaluationPlan::sequence_nodes(old.drop_last()).len(),
        ),
    ensures
        replays_sequence(c, new.push(item), old, base, t),
{
    M::lemma_modulus();
    let p = M::p();
    let pushed = new.push(item);
    assert(pushed.drop_last() =~= new);
    let m = t + EvaluationPlan::sequence_nodes(old.drop_last()).len();
    let e = t + EvaluationPlan::sequence_nodes(old).len();
    assert forall|row: Row, cache: Seq<int>|
        c.flow(
            t,
            e,
            row,
            cache,
            (#[trigger] EvaluationPlan::run_sequence(pushed, base, row, cache)).1,
            congruent(
                EvaluationPlan::run_sequence(pushed, base, row, cache).0,
                EvaluationPlan::sequence_value(old, base, row),
                p,
            ),
        ) by {
        let (x, mid) = EvaluationPlan::run_sequence(new, base, row, cache);
        let (y, after) = item.run(row, mid);
        let (u, v) = (
            EvaluationPlan::sequence_value(old.drop_last(), base, row),
            old.last().value(row),
        );
        c.lemma_flow_chain(
            t,
            m,
            e,
            row,
            cache,
            mid,
            after,
            congruent(x, u, p),
            congruent(y, v, p),
        );
        if congruent(x, u, p) && congruent(y, v, p) {
            lemma_congruent_ops(x, u, base, base, p);
            lemma_congruent_ops(x * base, u * base, y, v, p);
        }
        assert(EvaluationPlan::run_sequence(pushed, base, row, cache) == (x * base + y, after));
    }
    assert forall|f: spec_fn(AstLeaf) -> bool, i: int|
        0 <= i < old.len() && old[i].sound(f, 0) implies #[trigger] pushed[i].sound(
        f,
        c.slots,
    ) by {
        if i < new.len() {
            assert(old.drop_last()[i].sound(f, 0));
            assert(new[i].sound(f, c.slots));
        } else {
            assert(item.sound(f, c.slots));
        }
    }
}

proof fn lemma_terms_push<M: Modulus>(
    c: Caching<M>,
    new: Seq<WeightedTerm<M>>,
    old: Seq<WeightedTerm<M>>,
    t: int,
    item: WeightedTerm<M>,
)
    requires
        old.len() > 0,
        replays_terms(c, new, old.drop_last(), t),
        replays(
            c,
            item.term,
            old.last().term,
            t + WeightedTerm::all_nodes(old.drop_last()).len(),
        ),
        item.power == old.last().power,
    ensures
        replays_terms(c, new.push(item), old, t),
{
    M::lemma_modulus();
    let p = M::p();
    let pushed = new.push(item);
    assert(pushed.drop_last() =~= new);
    let m = t + WeightedTerm::all_nodes(old.drop_last()).len();
    let e = t + WeightedTerm::all_nodes(old).len();
    assert forall|row: Row, cache: Seq<int>|
        c.flow(
            t,
            e,
            row,
            cache,
            (#[trigger] WeightedTerm::run_all(pushed, row, cache)).1,
            congruent(
                WeightedTerm::run_all(pushed, row, cache).0,
                WeightedTerm::total(old, row),
                p,
            ),
        ) by {
        let (x, mid) = WeightedTerm::run_all(new, row, cache);
        let (y, after) = item.term.run(row, mid);
        let (u, v, w) = (
            WeightedTerm::total(old.drop_last(), row),
            old.last().term.value(row),
            item.power@,
        );
        c.lemma_flow_chain(
            t,
            m,
            e,
            row,
            cache,
            mid,
            after,
            congruent(x, u, p),
            congruent(y, v, p),
        );
        if congruent(x, u, p) && congruent(y, v, p) {
            lemma_congruent_ops(y, v, w, w, p);
            lemma_congruent_ops(x, u, y * w, v * w, p);
        }
        assert(WeightedTerm::run_all(pushed, row, cache) == (x + y * w, after));
    }
    assert forall|f: spec_fn(AstLeaf) -> bool, i: int|
        0 <= i < old.len() && old[i].term.sound(f, 0) implies #[trigger] pushed[i].term.sound(
        f,
        c.slots,
    ) by {
        if i < new.len() {
            assert(old.drop_last()[i].term.sound(f, 0));
            assert(new[i].term.sound(f, c.slots));
        } else {
            assert(item.term.sound(f, c.slots));
        }
    }
}

proof fn lemma_body_push<M: Modulus>(
    c: Caching<M>,
    new: Seq<FactorBodyWork<M>>,
    old: Seq<FactorBodyWork<M>>,
    t: int,
    item: FactorBodyWork<M>,
)
    requires
        old.len() > 0,
        replays_body_list(c, new, old.drop_last(), t),
        replays_body_work(
            c,
            item,
            old.last(),
            t + FactorBodyWork::all_nodes(old.drop_last()).len(),
        ),
    ensures
        replays_body_list(c, new.push(item), old, t),
{
    M::lemma_modulus();
    let p = M::p();
    let pushed = new.push(item);
    assert(pushed.drop_last() =~= new);
    let m = t + FactorBodyWork::all_nodes(old.drop_last()).len();
    let e = t + FactorBodyWork::all_nodes(old).len();
    assert forall|row: Row, cache: Seq<int>|
        c.flow(
            t,
            e,
            row,
            cache,
            (#[trigger] FactorBodyWork::run_all(pushed, row, cache)).1,
            congruent(
                FactorBodyWork::run_all(pushed, row, cache).0,
                FactorBodyWork::total(old, row),
                p,
            ),
        ) by {
        let (x, mid) = FactorBodyWork::run_all(new, row, cache);
        let (y, after) = item.run(row, mid);
        let (u, v) = (FactorBodyWork::total(old.drop_last(), row), old.last().value(row));
        c.lemma_flow_chain(
            t,
            m,
            e,
            row,
            cache,
            mid,
            after,
            congruent(x, u, p),
            congruent(y, v, p),
        );
        if congruent(x, u, p) && congruent(y, v, p) {
            lemma_congruent_ops(x, u, y, v, p);
        }
        assert(FactorBodyWork::run_all(pushed, row, cache) == (x + y, after));
    }
    assert forall|f: spec_fn(AstLeaf) -> bool, i: int|
        0 <= i < old.len() && old[i].sound(f, 0) implies #[trigger] pushed[i].sound(
        f,
        c.slots,
    ) by {
        if i < new.len() {
            assert(old.drop_last()[i].sound(f, 0));
            assert(new[i].sound(f, c.slots));
        } else {
            assert(item.sound(f, c.slots));
        }
    }
}

proof fn lemma_work_push<M: Modulus>(
    c: Caching<M>,
    new: Seq<DistributionWork<M>>,
    old: Seq<DistributionWork<M>>,
    base: int,
    t: int,
    item: DistributionWork<M>,
)
    requires
        old.len() > 0,
        replays_work_list(c, new, old.drop_last(), base, t),
        replays_work(
            c,
            item,
            old.last(),
            base,
            t + DistributionWork::all_nodes(old.drop_last()).len(),
        ),
    ensures
        replays_work_list(c, new.push(item), old, base, t),
{
    M::lemma_modulus();
    let p = M::p();
    let pushed = new.push(item);
    assert(pushed.drop_last() =~= new);
    let m = t + DistributionWork::all_nodes(old.drop_last()).len();
    let e = t + DistributionWork::all_nodes(old).len();
    assert forall|row: Row, cache: Seq<int>|
        c.flow(
            t,
            e,
            row,
            cache,
            (#[trigger] DistributionWork::run_all(pushed, base, row, cache)).1,
            congruent(
                DistributionWork::run_all(pushed, base, row, cache).0,
                DistributionWork::total(old, base, row),
                p,
            ),
        ) by {
        let (x, mid) = DistributionWork::run_all(new, base, row, cache);
        let (y, after) = item.run(base, row, mid);
        let (u, v) = (
            DistributionWork::total(old.drop_last(), base, row),
            old.last().value(base, row),
        );
        c.lemma_flow_chain(
            t,
            m,
            e,
            row,
            cache,
            mid,
            after,
            congruent(x, u, p),
            congruent(y, v, p),
        );
        if congruent(x, u, p) && congruent(y, v, p) {
            lemma_congruent_ops(x, u, y, v, p);
        }
        assert(DistributionWork::run_all(pushed, base, row, cache) == (x + y, after));
    }
    assert forall|f: spec_fn(AstLeaf) -> bool, i: int|
        0 <= i < old.len() && old[i].sound(f, 0) implies #[trigger] pushed[i].sound(
        f,
        c.slots,
    ) by {
        if i < new.len() {
            assert(old.drop_last()[i].sound(f, 0));
            assert(new[i].sound(f, c.slots));
        } else {
            assert(item.sound(f, c.slots));
        }
    }
}

proof fn lemma_runs_push<M: Modulus>(
    c: Caching<M>,
    new: Seq<SelectorFamilyRun<M>>,
    old: Seq<SelectorFamilyRun<M>>,
    base: int,
    t: int,
    item: SelectorFamilyRun<M>,
)
    requires
        old.len() > 0,
        replays_bodies(c, item.bodies, old.last().bodies, base, t),
        replays_runs(c, new, old.drop_last(), base, t + old.last().bodies.nodes().len()),
        item.power == old.last().power,
    ensures
        replays_runs(c, new.push(item), old, base, t),
{
    M::lemma_modulus();
    let p = M::p();
    let pushed = new.push(item);
    assert(pushed.drop_last() =~= new);
    let m = t + old.last().bodies.nodes().len();
    let e = t + SelectorFamilyRun::all_nodes(old).len();
    assert forall|row: Row, cache: Seq<int>|
        c.flow(
            t,
            e,
            row,
            cache,
            (#[trigger] SelectorFamilyRun::run_all(pushed, base, row, cache)).1,
            all_congruent(
                SelectorFamilyRun::run_all(pushed, base, row, cache).0,
                SelectorFamilyRun::values(old, base, row),
                p,
            ),
        ) by {
        let (x, mid) = item.bodies.run(base, row, cache);
        let (xs, after) = SelectorFamilyRun::run_all(new, base, row, mid);
        let (u, w) = (old.last().bodies.value(base, row), item.power@);
        let us = SelectorFamilyRun::values(old.drop_last(), base, row);
        c.lemma_flow_chain(
            t,
            m,
            e,
            row,
            cache,
            mid,
            after,
            congruent(x, u, p),
            all_congruent(xs, us, p),
        );
        let all = SelectorFamilyRun::values(old, base, row);
        assert(all == us.push(u * w));
        assert(SelectorFamilyRun::run_all(pushed, base, row, cache) == (xs.push(x * w), after));
        if congruent(x, u, p) && all_congruent(xs, us, p) {
            lemma_congruent_ops(x, u, w, w, p);
            let ys = xs.push(x * w);
            assert forall|i: int| 0 <= i < ys.len() implies congruent(
                #[trigger] ys[i],
                all[i],
                p,
            ) by {
                if i < xs.len() {
                    assert(congruent(xs[i], us[i], p));
                }
            }
        }
    }
    assert forall|f: spec_fn(AstLeaf) -> bool, i: int|
        0 <= i < old.len() && old[i].bodies.sound(f, 0) implies #[trigger] pushed[i].bodies.sound(
        f,
        c.slots,
    ) by {
        if i < new.len() {
            assert(old.drop_last()[i].bodies.sound(f, 0));
            assert(new[i].bodies.sound(f, c.slots));
        } else {
            assert(item.bodies.sound(f, c.slots));
        }
    }
}

/// Congruent bodies have congruent family values.
pub proof fn lemma_family_congruent(a: Seq<int>, b: Seq<int>, h: int, query: int, p: int)
    requires
        p > 0,
        all_congruent(a, b, p),
        0 <= h <= a.len(),
    ensures
        congruent(selector_sum(a, 0, h, query, p), selector_sum(b, 0, h, query, p), p),
    decreases h,
{
    if h > 0 {
        lemma_family_congruent(a, b, h - 1, query, p);
        let (s, t) = (selector_sum(a, 0, h - 1, query, p), selector_sum(b, 0, h - 1, query, p));
        let (g, o) = (selector_factor(h, query, p), selector_product(0, h - 1, query, p));
        lemma_congruent_ops(s, t, g, g, p);
        assert(congruent(a[h - 1], b[h - 1], p));
        lemma_congruent_ops(a[h - 1], b[h - 1], o, o, p);
        lemma_congruent_ops(s * g, t * g, a[h - 1] * o, b[h - 1] * o, p);
    }
}

proof fn lemma_shared_work<M: Modulus>(
    c: Caching<M>,
    new: DistributionWork<M>,
    old: DistributionWork<M>,
    base: int,
    t: int,
)
    requires
        old matches DistributionWork::SharedFactor { factor: f0, bodies: b0, power: p0 } && (
        new matches DistributionWork::SharedFactor { factor: f1, bodies: b1, power: p1 } && replays(
            c,
            f1,
            f0,
            t,
        ) && replays_bodies(c, b1, b0, base, t + f0.nodes().len()) && p1 == p0),
    ensures
        replays_work(c, new, old, base, t),
{
    M::lemma_modulus();
    let p = M::p();
    match (old, new) {
        (
            DistributionWork::SharedFactor { factor: f0, bodies: b0, power: p0 },
            DistributionWork::SharedFactor { factor: f1, bodies: b1, power: p1 },
        ) => {
            let m = t + f0.nodes().len();
            let e = t + old.nodes().len();
            assert forall|row: Row, cache: Seq<int>|
                c.flow(
                    t,
                    e,
                    row,
                    cache,
                    (#[trigger] new.run(base, row, cache)).1,
                    congruent(new.run(base, row, cache).0, old.value(base, row), p),
                ) by {
                let (x, mid) = f1.run(row, cache);
                let (y, after) = b1.run(base, row, mid);
                let (u, v, w) = (f0.value(row), b0.value(base, row), p0@);
                c.lemma_flow_chain(
                    t,
                    m,
                    e,
                    row,
                    cache,
                    mid,
                    after,
                    congruent(x, u, p),
                    congruent(y, v, p),
                );
                if congruent(x, u, p) && congruent(y, v, p) {
                    lemma_congruent_ops(y, v, x, u, p);
                    lemma_congruent_ops(y * x, v * u, w, w, p);
                }
                assert(new.run(base, row, cache) == (y * x * w, after));
                assert(old.value(base, row) == v * u * w);
            }
            assert forall|f: spec_fn(AstLeaf) -> bool| old.sound(f, 0) implies #[trigger] new.sound(
                f,
                c.slots,
            ) by {
                assert(f1.sound(f, c.slots));
                assert(b1.sound(f, c.slots));
            }
        },
        _ => {},
    }
}

proof fn lemma_term_work<M: Modulus>(
    c: Caching<M>,
    new: DistributionWork<M>,
    old: DistributionWork<M>,
    base: int,
    t: int,
)
    requires
        old matches DistributionWork::Term { term: t0, power: p0 } && (
        new matches DistributionWork::Term { term: t1, power: p1 } && replays(c, t1, t0, t) && p1
            == p0),
    ensures
        replays_work(c, new, old, base, t),
{
    M::lemma_modulus();
    let p = M::p();
    match (old, new) {
        (
            DistributionWork::Term { term: t0, power: p0 },
            DistributionWork::Term { term: t1, power: p1 },
        ) => {
            let e = t + old.nodes().len();
            assert forall|row: Row, cache: Seq<int>|
                c.flow(
                    t,
                    e,
                    row,
                    cache,
                    (#[trigger] new.run(base, row, cache)).1,
                    congruent(new.run(base, row, cache).0, old.value(base, row), p),
                ) by {
                let (x, after) = t1.run(row, cache);
                let (u, w) = (t0.value(row), p0@);
                if congruent(x, u, p) {
                    lemma_congruent_ops(x, u, w, w, p);
                }
                assert(c.flow(t, e, row, cache, after, congruent(x, u, p)));
                assert(new.run(base, row, cache) == (x * w, after));
                assert(old.value(base, row) == u * w);
            }
            assert forall|f: spec_fn(AstLeaf) -> bool| old.sound(f, 0) implies #[trigger] new.sound(
                f,
                c.slots,
            ) by {
                assert(t1.sound(f, c.slots));
            }
        },
        _ => {},
    }
}

proof fn lemma_family_work<M: Modulus>(
    c: Caching<M>,
    new: DistributionWork<M>,
    old: DistributionWork<M>,
    base: int,
    t: int,
)
    requires
        old matches DistributionWork::SelectorFamily { query: q0, runs: r0 } && (
        new matches DistributionWork::SelectorFamily { query: q1, runs: r1 } && replays_runs(
            c,
            r1@,
            r0@,
            base,
            t,
        ) && q1 == q0),
    ensures
        replays_work(c, new, old, base, t),
{
    M::lemma_modulus();
    let p = M::p();
    match (old, new) {
        (
            DistributionWork::SelectorFamily { query: q0, runs: r0 },
            DistributionWork::SelectorFamily { query: q1, runs: r1 },
        ) => {
            let e = t + old.nodes().len();
            assert forall|row: Row, cache: Seq<int>|
                c.flow(
                    t,
                    e,
                    row,
                    cache,
                    (#[trigger] new.run(base, row, cache)).1,
                    congruent(new.run(base, row, cache).0, old.value(base, row), p),
                ) by {
                let (xs, after) = SelectorFamilyRun::run_all(r1@, base, row, cache);
                let us = SelectorFamilyRun::values(r0@, base, row);
                let q = (row.leaf)(q0);
                if all_congruent(xs, us, p) {
                    let n = xs.len() as int;
                    lemma_family_congruent(xs, us, n, q, p);
                    lemma_congruent_ops(
                        selector_sum(xs, 0, n, q, p),
                        selector_sum(us, 0, n, q, p),
                        q,
                        q,
                        p,
                    );
                }
                assert(c.flow(t, e, row, cache, after, all_congruent(xs, us, p)));
                assert(new.run(base, row, cache) == (family_value(xs, q, p), after));
                assert(old.value(base, row) == family_value(us, q, p));
            }
            assert forall|f: spec_fn(AstLeaf) -> bool| old.sound(f, 0) implies #[trigger] new.sound(
                f,
                c.slots,
            ) by {
                assert forall|i: int| 0 <= i < r1@.len() implies (
                #[trigger] r1@[i]).bodies.sound(f, c.slots) by {
                    assert(r0@[i].bodies.sound(f, 0));
                }
            }
        },
        _ => {},
    }
}

proof fn lemma_shared_body<M: Modulus>(
    c: Caching<M>,
    new: FactorBodyWork<M>,
    old: FactorBodyWork<M>,
    t: int,
)
    requires
        old matches FactorBodyWork::SharedFactor { factor: f0, terms: t0 } && (
        new matches FactorBodyWork::SharedFactor { factor: f1, terms: t1 } && replays(c, f1, f0, t)
            && replays_terms(c, t1@, t0@, t + f0.nodes().len())),
    ensures
        replays_body_work(c, new, old, t),
{
    M::lemma_modulus();
    let p = M::p();
    match (old, new) {
        (
            FactorBodyWork::SharedFactor { factor: f0, terms: t0 },
            FactorBodyWork::SharedFactor { factor: f1, terms: t1 },
        ) => {
            let m = t + f0.nodes().len();
            let e = t + old.nodes().len();
            assert forall|row: Row, cache: Seq<int>|
                c.flow(
                    t,
                    e,
                    row,
                    cache,
                    (#[trigger] new.run(row, cache)).1,
                    congruent(new.run(row, cache).0, old.value(row), p),
                ) by {
                let (x, mid) = f1.run(row, cache);
                let (y, after) = WeightedTerm::run_all(t1@, row, mid);
                let (u, v) = (f0.value(row), WeightedTerm::total(t0@, row));
                c.lemma_flow_chain(
                    t,
                    m,
                    e,
                    row,
                    cache,
                    mid,
                    after,
                    congruent(x, u, p),
                    congruent(y, v, p),
                );
                if congruent(x, u, p) && congruent(y, v, p) {
                    lemma_congruent_ops(y, v, x, u, p);
                }
                assert(new.run(row, cache) == (y * x, after));
                assert(old.value(row) == v * u);
            }
            assert forall|f: spec_fn(AstLeaf) -> bool| old.sound(f, 0) implies #[trigger] new.sound(
                f,
                c.slots,
            ) by {
                assert(f1.sound(f, c.slots));
                assert forall|i: int| 0 <= i < t1@.len() implies (#[trigger] t1@[i]).term.sound(
                    f,
                    c.slots,
                ) by {
                    assert(t0@[i].term.sound(f, 0));
                }
            }
        },
        _ => {},
    }
}

proof fn lemma_term_body<M: Modulus>(
    c: Caching<M>,
    new: FactorBodyWork<M>,
    old: FactorBodyWork<M>,
    t: int,
)
    requires
        old matches FactorBodyWork::Term(t0) && (new matches FactorBodyWork::Term(t1) && replays(
            c,
            t1.term,
            t0.term,
            t,
        ) && t1.power == t0.power),
    ensures
        replays_body_work(c, new, old, t),
{
    M::lemma_modulus();
    let p = M::p();
    match (old, new) {
        (FactorBodyWork::Term(t0), FactorBodyWork::Term(t1)) => {
            let e = t + old.nodes().len();
            assert forall|row: Row, cache: Seq<int>|
                c.flow(
                    t,
                    e,
                    row,
                    cache,
                    (#[trigger] new.run(row, cache)).1,
                    congruent(new.run(row, cache).0, old.value(row), p),
                ) by {
                let (x, after) = t1.term.run(row, cache);
                let (u, w) = (t0.term.value(row), t0.power@);
                if congruent(x, u, p) {
                    lemma_congruent_ops(x, u, w, w, p);
                }
                assert(c.flow(t, e, row, cache, after, congruent(x, u, p)));
                assert(new.run(row, cache) == (x * w, after));
                assert(old.value(row) == u * w);
            }
            assert forall|f: spec_fn(AstLeaf) -> bool| old.sound(f, 0) implies #[trigger] new.sound(
                f,
                c.slots,
            ) by {
                assert(t1.term.sound(f, c.slots));
            }
        },
        _ => {},
    }
}

/// The parts of a rewritten plan with two operands.
proof fn lemma_binary<M: Modulus>(
    c: Caching<M>,
    new: EvaluationPlan<M>,
    old: EvaluationPlan<M>,
    a: (EvaluationPlan<M>, EvaluationPlan<M>),
    b: (EvaluationPlan<M>, EvaluationPlan<M>),
    t: int,
)
    requires
        replays(c, a.1, a.0, t + 1),
        replays(c, b.1, b.0, t + 1 + a.0.nodes().len()),
        (old matches EvaluationPlan::Add(x, y) && *x == a.0 && *y == b.0 && (
        new matches EvaluationPlan::Add(u, v) && *u == a.1 && *v == b.1)) || (
        old matches EvaluationPlan::Mul(x, y) && *x == a.0 && *y == b.0 && (
        new matches EvaluationPlan::Mul(u, v) && *u == a.1 && *v == b.1)),
    ensures
        replays_inner(c, new, old, t),
{
    M::lemma_modulus();
    let p = M::p();
    let m = t + 1 + a.0.nodes().len();
    let e = t + old.nodes().len();
    assert(old.nodes().len() == 1 + a.0.nodes().len() + b.0.nodes().len());
    assert forall|row: Row, cache: Seq<int>|
        c.flow(
            t + 1,
            e,
            row,
            cache,
            (#[trigger] new.run(row, cache)).1,
            congruent(new.run(row, cache).0, old.value(row), p),
        ) by {
        let (x, mid) = a.1.run(row, cache);
        let (y, after) = b.1.run(row, mid);
        let (u, v) = (a.0.value(row), b.0.value(row));
        c.lemma_flow_chain(
            t + 1,
            m,
            e,
            row,
            cache,
            mid,
            after,
            congruent(x, u, p),
            congruent(y, v, p),
        );
        if congruent(x, u, p) && congruent(y, v, p) {
            lemma_congruent_ops(x, u, y, v, p);
        }
        assert(new.run(row, cache).1 == after);
    }
    assert forall|f: spec_fn(AstLeaf) -> bool| old.sound(f, 0) implies #[trigger] new.sound(
        f,
        c.slots,
    ) by {
        assert(a.1.sound(f, c.slots));
        assert(b.1.sound(f, c.slots));
    }
}

/// The part of a rewritten plan with one operand.
proof fn lemma_unary<M: Modulus>(
    c: Caching<M>,
    new: EvaluationPlan<M>,
    old: EvaluationPlan<M>,
    a: (EvaluationPlan<M>, EvaluationPlan<M>),
    t: int,
)
    requires
        replays(c, a.1, a.0, t + 1),
        (old matches EvaluationPlan::Square(x) && *x == a.0 && (
        new matches EvaluationPlan::Square(u) && *u == a.1)) || (
        old matches EvaluationPlan::Scale(x, s) && *x == a.0 && (
        new matches EvaluationPlan::Scale(u, r) && *u == a.1 && r == s)) || (
        old matches EvaluationPlan::Horner { base: x, coefficients: s } && *x == a.0 && (
        new matches EvaluationPlan::Horner { base: u, coefficients: r } && *u == a.1 && r@ == s@)),
    ensures
        replays_inner(c, new, old, t),
{
    M::lemma_modulus();
    let p = M::p();
    let e = t + old.nodes().len();
    assert forall|row: Row, cache: Seq<int>|
        c.flow(
            t + 1,
            e,
            row,
            cache,
            (#[trigger] new.run(row, cache)).1,
            congruent(new.run(row, cache).0, old.value(row), p),
        ) by {
        let (x, after) = a.1.run(row, cache);
        let u = a.0.value(row);
        assert(c.flow(t + 1, e, row, cache, after, congruent(x, u, p)));
        if congruent(x, u, p) {
            match old {
                EvaluationPlan::Square(y) => {
                    lemma_congruent_ops(x, u, x, u, p);
                },
                EvaluationPlan::Scale(y, s) => {
                    lemma_congruent_ops(x, u, s@, s@, p);
                },
                EvaluationPlan::Horner { base, coefficients } => {
                    lemma_polynomial_congruent(coefficients@, x, u, row, p);
                },
                _ => {},
            }
        }
        assert(new.run(row, cache).1 == after);
    }
    assert forall|f: spec_fn(AstLeaf) -> bool| old.sound(f, 0) implies #[trigger] new.sound(
        f,
        c.slots,
    ) by {
        assert(a.1.sound(f, c.slots));
    }
}

/// A part without an action of its own.
proof fn lemma_no_action<M: Modulus>(
    c: Caching<M>,
    new: EvaluationPlan<M>,
    old: EvaluationPlan<M>,
    t: int,
)
    requires
        c.valid(),
        0 <= t < c.actions.len(),
        c.actions[t] is None,
        old.nodes().len() > 0,
        replays_inner(c, new, old, t),
    ensures
        replays(c, new, old, t),
{
    let e = t + old.nodes().len();
    assert forall|row: Row, cache: Seq<int>|
        c.flow(
            t,
            e,
            row,
            cache,
            (#[trigger] new.run(row, cache)).1,
            congruent(new.run(row, cache).0, old.value(row), M::p()),
        ) by {
        c.lemma_flow_node(t, row, cache);
        let (x, after) = new.run(row, cache);
        c.lemma_flow_chain(
            t,
            t + 1,
            e,
            row,
            cache,
            cache,
            after,
            true,
            congruent(x, old.value(row), M::p()),
        );
    }
}

/// A part whose value is stored.
proof fn lemma_store<M: Modulus>(
    c: Caching<M>,
    new: EvaluationPlan<M>,
    inner: EvaluationPlan<M>,
    old: EvaluationPlan<M>,
    t: int,
)
    requires
        c.valid(),
        0 <= t < c.actions.len(),
        is_store(c.actions, t),
        c.nodes[t] == old,
        replays_inner(c, inner, old, t),
        new matches EvaluationPlan::CacheStore { slot, inner: x } && *x == inner && slot
            == c.actions[t].unwrap().slot,
    ensures
        replays(c, new, old, t),
{
    assert(c.actions[t] is Some);
    let e = t + old.nodes().len();
    assert forall|row: Row, cache: Seq<int>|
        c.flow(
            t,
            e,
            row,
            cache,
            (#[trigger] new.run(row, cache)).1,
            congruent(new.run(row, cache).0, old.value(row), M::p()),
        ) by {
        let (x, mid) = inner.run(row, cache);
        c.lemma_flow_store(t, row, cache, mid, x);
        assert(new.run(row, cache) == (
            x,
            mid.update(c.actions[t].unwrap().slot as int, x % M::p()),
        ));
    }
    assert forall|f: spec_fn(AstLeaf) -> bool| old.sound(f, 0) implies #[trigger] new.sound(
        f,
        c.slots,
    ) by {
        assert(inner.sound(f, c.slots));
    }
}

/// A part whose value is loaded.
proof fn lemma_load<M: Modulus>(
    c: Caching<M>,
    new: EvaluationPlan<M>,
    old: EvaluationPlan<M>,
    t: int,
)
    requires
        c.valid(),
        0 <= t < c.actions.len(),
        is_load(c.actions, t),
        c.nodes[t] == old,
        new == (EvaluationPlan::<M>::CacheLoad { slot: c.actions[t].unwrap().slot }),
    ensures
        replays(c, new, old, t),
        c.actions[t].unwrap().end == t + old.nodes().len(),
{
    assert(c.actions[t] is Some);
    assert forall|row: Row, cache: Seq<int>|
        c.flow(
            t,
            t + old.nodes().len(),
            row,
            cache,
            (#[trigger] new.run(row, cache)).1,
            congruent(new.run(row, cache).0, old.value(row), M::p()),
        ) by {
        c.lemma_flow_load(t, row, cache);
    }
}

/// A part without parts of its own.
proof fn lemma_leaf<M: Modulus>(
    c: Caching<M>,
    new: EvaluationPlan<M>,
    old: EvaluationPlan<M>,
    t: int,
)
    requires
        new == old,
        old is Poly || old is LinearTerm || old is ConstantTerm,
    ensures
        replays_inner(c, new, old, t),
{
    assert(old.nodes().len() == 1);
    assert forall|row: Row, cache: Seq<int>|
        c.flow(
            t + 1,
            t + 1,
            row,
            cache,
            (#[trigger] new.run(row, cache)).1,
            congruent(new.run(row, cache).0, old.value(row), M::p()),
        ) by {
        lemma_flow_stay(c, t + 1, row, cache);
        assert(new.run(row, cache) == (old.value(row), cache));
    }
}

fn copy_leaves(leaves: &Vec<AstLeaf>) -> (r: Vec<AstLeaf>)
    ensures
        r@ == leaves@,
{
    let mut r: Vec<AstLeaf> = Vec::new();
    let mut i: usize = 0;
    while i < leaves.len()
        invariant
            i <= leaves@.len(),
            r@ == leaves@.take(i as int),
        decreases leaves@.len() - i,
    {
        r.push(leaves[i]);
        i += 1;
        assert(leaves@.take(i as int) =~= leaves@.take(i - 1).push(leaves@[i - 1]));
    }
    assert(leaves@.take(i as int) =~= leaves@);
    r
}

/// Rewrites a plan by the actions at its parts, which stand from `occurrence` on.
pub fn apply_cache_actions<M: Modulus>(
    plan: &EvaluationPlan<M>,
    actions: &Vec<Option<CacheAction>>,
    occurrence: &mut usize,
    Ghost(c): Ghost<Caching<M>>,
) -> (r: EvaluationPlan<M>)
    requires
        c.valid(),
        c.actions == actions@,
        c.holds(*old(occurrence) as int, plan.nodes()),
    ensures
        *final(occurrence) == *old(occurrence) + plan.nodes().len(),
        replays(c, r, *plan, *old(occurrence) as int),
        rewritten(r, *plan, c.actions, *old(occurrence) as int),
    decreases plan, 0nat,
{
    let ghost t = *occurrence as int;
    let ghost rest = plan.nodes().drop_first();
    proof {
        assert(c.nodes[t] == plan.nodes()[0]);
        assert(plan.nodes() =~= seq![*plan] + rest);
        c.lemma_holds_concat(t, seq![*plan], rest);
        assert(plan.cache_free_node()) by {
            assert(plan.nodes()[0].cache_free_node());
        }
    }
    let action = actions[*occurrence];
    let ghost size = plan.nodes().len() as int;
    assert(t + size <= actions.len());
    *occurrence = *occurrence + 1;
    if let Some(action) = action {
        if !action.store {
            let r = EvaluationPlan::CacheLoad { slot: action.slot };
            proof {
                assert(is_load(c.actions, t));
                lemma_load(c, r, *plan, t);
            }
            *occurrence = action.end;
            return r;
        }
    }
    let inner = match plan {
        EvaluationPlan::Add(lhs, rhs) => {
            proof {
                assert(rest =~= lhs.nodes() + rhs.nodes());
                c.lemma_holds_concat(t + 1, lhs.nodes(), rhs.nodes());
            }
            let a = apply_cache_actions(lhs, actions, occurrence, Ghost(c));
            let b = apply_cache_actions(rhs, actions, occurrence, Ghost(c));
            let r = EvaluationPlan::Add(Box::new(a), Box::new(b));
            proof {
                lemma_binary(c, r, *plan, (**lhs, a), (**rhs, b), t);
            }
            r
        },
        EvaluationPlan::Mul(lhs, rhs) => {
            proof {
                assert(rest =~= lhs.nodes() + rhs.nodes());
                c.lemma_holds_concat(t + 1, lhs.nodes(), rhs.nodes());
            }
            let a = apply_cache_actions(lhs, actions, occurrence, Ghost(c));
            let b = apply_cache_actions(rhs, actions, occurrence, Ghost(c));
            let r = EvaluationPlan::Mul(Box::new(a), Box::new(b));
            proof {
                lemma_binary(c, r, *plan, (**lhs, a), (**rhs, b), t);
            }
            r
        },
        EvaluationPlan::Square(x) => {
            assert(rest =~= x.nodes());
            let a = apply_cache_actions(x, actions, occurrence, Ghost(c));
            let r = EvaluationPlan::Square(Box::new(a));
            proof {
                lemma_unary(c, r, *plan, (**x, a), t);
            }
            r
        },
        EvaluationPlan::Scale(x, scalar) => {
            assert(rest =~= x.nodes());
            let a = apply_cache_actions(x, actions, occurrence, Ghost(c));
            let r = EvaluationPlan::Scale(Box::new(a), *scalar);
            proof {
                lemma_unary(c, r, *plan, (**x, a), t);
            }
            r
        },
        EvaluationPlan::Horner { base, coefficients } => {
            assert(rest =~= base.nodes());
            let a = apply_cache_actions(base, actions, occurrence, Ghost(c));
            let r = EvaluationPlan::Horner {
                base: Box::new(a),
                coefficients: copy_leaves(coefficients),
            };
            proof {
                lemma_unary(c, r, *plan, (**base, a), t);
            }
            r
        },
        EvaluationPlan::DistributePowers { work, base } => {
            assert(rest =~= DistributionWork::all_nodes(work@));
            assert(work@.take(work@.len() as int) =~= work@);
            let new = apply_work(work, work.len(), *base, actions, occurrence, Ghost(c));
            let r = EvaluationPlan::DistributePowers { work: new, base: *base };
            proof {
                assert(forall|row: Row, cache: Seq<int>|
                    (#[trigger] r.run(row, cache)) == DistributionWork::run_all(
                        new@,
                        base@,
                        row,
                        cache,
                    ));
                assert forall|f: spec_fn(AstLeaf) -> bool|
                    plan.sound(f, 0) implies #[trigger] r.sound(f, c.slots) by {
                    assert forall|i: int| 0 <= i < new@.len() implies (#[trigger] new@[i]).sound(
                        f,
                        c.slots,
                    ) by {
                        assert(work@[i].sound(f, 0));
                    }
                }
            }
            r
        },
        EvaluationPlan::Poly(leaf) => {
            let r = EvaluationPlan::Poly(*leaf);
            proof {
                lemma_leaf(c, r, *plan, t);
            }
            r
        },
        EvaluationPlan::LinearTerm(scalar) => {
            let r = EvaluationPlan::LinearTerm(*scalar);
            proof {
                lemma_leaf(c, r, *plan, t);
            }
            r
        },
        EvaluationPlan::ConstantTerm(scalar) => {
            let r = EvaluationPlan::ConstantTerm(*scalar);
            proof {
                lemma_leaf(c, r, *plan, t);
            }
            r
        },
        EvaluationPlan::CacheStore { slot, inner: _ } => {
            EvaluationPlan::CacheLoad { slot: *slot }
        },
        EvaluationPlan::CacheLoad { slot } => EvaluationPlan::CacheLoad { slot: *slot },
    };
    match action {
        Some(action) => {
            let r = EvaluationPlan::CacheStore { slot: action.slot, inner: Box::new(inner) };
            proof {
                assert(inside_rewritten(inner, *plan, c.actions, t));
                assert(is_store(c.actions, t));
                lemma_store(c, r, inner, *plan, t);
            }
            r
        },
        None => {
            proof {
                lemma_no_action(c, inner, *plan, t);
            }
            inner
        },
    }
}

/// Rewrites the first `k` pieces of work.
fn apply_work<M: Modulus>(
    work: &Vec<DistributionWork<M>>,
    k: usize,
    base: Fe<M>,
    actions: &Vec<Option<CacheAction>>,
    occurrence: &mut usize,
    Ghost(c): Ghost<Caching<M>>,
) -> (r: Vec<DistributionWork<M>>)
    requires
        k <= work@.len(),
        c.valid(),
        c.actions == actions@,
        c.holds(*old(occurrence) as int, DistributionWork::all_nodes(work@.take(k as int))),
    ensures
        *final(occurrence) == *old(occurrence) + DistributionWork::all_nodes(
            work@.take(k as int),
        ).len(),
        replays_work_list(c, r@, work@.take(k as int), base@, *old(occurrence) as int),
        work_rewritten(r@, work@.take(k as int), c.actions, *old(occurrence) as int),
    decreases work@, k as nat,
{
    let ghost t = *occurrence as int;
    if k == 0 {
        let r: Vec<DistributionWork<M>> = Vec::new();
        proof {
            assert forall|row: Row, cache: Seq<int>|
                c.flow(
                    t,
                    t,
                    row,
                    cache,
                    (#[trigger] DistributionWork::run_all(r@, base@, row, cache)).1,
                    congruent(
                        DistributionWork::run_all(r@, base@, row, cache).0,
                        DistributionWork::total(work@.take(0), base@, row),
                        M::p(),
                    ),
                ) by {
                lemma_flow_stay(c, t, row, cache);
            }
        }
        return r;
    }
    let ghost list = work@.take(k as int);
    proof {
        assert(list.drop_last() =~= work@.take(k - 1));
        c.lemma_holds_concat(
            t,
            DistributionWork::all_nodes(list.drop_last()),
            list.last().nodes(),
        );
    }
    let mut r = apply_work(work, k - 1, base, actions, occurrence, Ghost(c));
    let ghost m = *occurrence as int;
    let item = match &work[k - 1] {
        DistributionWork::Term { term, power } => {
            let new = DistributionWork::Term {
                term: apply_cache_actions(term, actions, occurrence, Ghost(c)),
                power: *power,
            };
            proof {
                lemma_term_work(c, new, list.last(), base@, m);
                assert(item_rewritten(new, list.last(), c.actions, m));
            }
            new
        },
        DistributionWork::SharedFactor { factor, bodies, power } => {
            proof {
                c.lemma_holds_concat(m, factor.nodes(), bodies.nodes());
            }
            let factor = apply_cache_actions(factor, actions, occurrence, Ghost(c));
            let bodies = apply_bodies(bodies, base, actions, occurrence, Ghost(c));
            let new = DistributionWork::SharedFactor { factor, bodies, power: *power };
            proof {
                lemma_shared_work(c, new, list.last(), base@, m);
                assert(item_rewritten(new, list.last(), c.actions, m));
            }
            new
        },
        DistributionWork::SelectorFamily { query, runs } => {
            assert(runs@.take(runs@.len() as int) =~= runs@);
            let runs = apply_runs(runs, runs.len(), base, actions, occurrence, Ghost(c));
            let new = DistributionWork::SelectorFamily { query: *query, runs };
            proof {
                lemma_family_work(c, new, list.last(), base@, m);
                assert(item_rewritten(new, list.last(), c.actions, m));
            }
            new
        },
    };
    proof {
        lemma_work_push(c, r@, list, base@, t, item);
        assert(r@.push(item).drop_last() =~= r@);
    }
    r.push(item);
    r
}

/// Rewrites the first `k` runs of a family, from the last one to the first.
fn apply_runs<M: Modulus>(
    runs: &Vec<SelectorFamilyRun<M>>,
    k: usize,
    base: Fe<M>,
    actions: &Vec<Option<CacheAction>>,
    occurrence: &mut usize,
    Ghost(c): Ghost<Caching<M>>,
) -> (r: Vec<SelectorFamilyRun<M>>)
    requires
        k <= runs@.len(),
        c.valid(),
        c.actions == actions@,
        c.holds(*old(occurrence) as int, SelectorFamilyRun::all_nodes(runs@.take(k as int))),
    ensures
        *final(occurrence) == *old(occurrence) + SelectorFamilyRun::all_nodes(
            runs@.take(k as int),
        ).len(),
        replays_runs(c, r@, runs@.take(k as int), base@, *old(occurrence) as int),
        runs_rewritten(r@, runs@.take(k as int), c.actions, *old(occurrence) as int),
    decreases runs@, k as nat,
{
    let ghost t = *occurrence as int;
    if k == 0 {
        let r: Vec<SelectorFamilyRun<M>> = Vec::new();
        proof {
            assert forall|row: Row, cache: Seq<int>|
                c.flow(
                    t,
                    t,
                    row,
                    cache,
                    (#[trigger] SelectorFamilyRun::run_all(r@, base@, row, cache)).1,
                    all_congruent(
                        SelectorFamilyRun::run_all(r@, base@, row, cache).0,
                        SelectorFamilyRun::values(runs@.take(0), base@, row),
                        M::p(),
                    ),
                ) by {
                lemma_flow_stay(c, t, row, cache);
            }
        }
        return r;
    }
    let ghost list = runs@.take(k as int);
    proof {
        assert(list.drop_last() =~= runs@.take(k - 1));
        c.lemma_holds_concat(
            t,
            list.last().bodies.nodes(),
            SelectorFamilyRun::all_nodes(list.drop_last()),
        );
    }
    let bodies = apply_bodies(&runs[k - 1].bodies, base, actions, occurrence, Ghost(c));
    let item = SelectorFamilyRun { bodies, power: runs[k - 1].power };
    let mut r = apply_runs(runs, k - 1, base, actions, occurrence, Ghost(c));
    proof {
        lemma_runs_push(c, r@, list, base@, t, item);
        assert(r@.push(item).drop_last() =~= r@);
    }
    r.push(item);
    r
}

/// Rewrites the bodies of a run.
fn apply_bodies<M: Modulus>(
    plan: &FactorBodyPlan<M>,
    base: Fe<M>,
    actions: &Vec<Option<CacheAction>>,
    occurrence: &mut usize,
    Ghost(c): Ghost<Caching<M>>,
) -> (r: FactorBodyPlan<M>)
    requires
        c.valid(),
        c.actions == actions@,
        c.holds(*old(occurrence) as int, plan.nodes()),
    ensures
        *final(occurrence) == *old(occurrence) + plan.nodes().len(),
        replays_bodies(c, r, *plan, base@, *old(occurrence) as int),
        bodies_rewritten(r, *plan, c.actions, *old(occurrence) as int),
    decreases plan, 0nat,
{
    match plan {
        FactorBodyPlan::Sequential(plans) => {
            assert(plans@.take(plans@.len() as int) =~= plans@);
            let new = apply_sequence(plans, plans.len(), base, actions, occurrence, Ghost(c));
            let r = FactorBodyPlan::Sequential(new);
            proof {
                assert(forall|row: Row, cache: Seq<int>|
                    (#[trigger] r.run(base@, row, cache)) == EvaluationPlan::run_sequence(
                        new@,
                        base@,
                        row,
                        cache,
                    ));
                assert forall|f: spec_fn(AstLeaf) -> bool|
                    plan.sound(f, 0) implies #[trigger] r.sound(f, c.slots) by {
                    assert forall|i: int| 0 <= i < new@.len() implies (#[trigger] new@[i]).sound(
                        f,
                        c.slots,
                    ) by {
                        assert(plans@[i].sound(f, 0));
                    }
                }
            }
            r
        },
        FactorBodyPlan::Factored(work) => {
            assert(work@.take(work@.len() as int) =~= work@);
            let new = apply_body_work(work, work.len(), actions, occurrence, Ghost(c));
            let r = FactorBodyPlan::Factored(new);
            proof {
                assert(forall|row: Row, cache: Seq<int>|
                    (#[trigger] r.run(base@, row, cache)) == FactorBodyWork::run_all(
                        new@,
                        row,
                        cache,
                    ));
                assert forall|f: spec_fn(AstLeaf) -> bool|
                    plan.sound(f, 0) implies #[trigger] r.sound(f, c.slots) by {
                    assert forall|i: int| 0 <= i < new@.len() implies (#[trigger] new@[i]).sound(
                        f,
                        c.slots,
                    ) by {
                        assert(work@[i].sound(f, 0));
                    }
                }
            }
            r
        },
    }
}

fn apply_sequence<M: Modulus>(
    plans: &Vec<EvaluationPlan<M>>,
    k: usize,
    base: Fe<M>,
    actions: &Vec<Option<CacheAction>>,
    occurrence: &mut usize,
    Ghost(c): Ghost<Caching<M>>,
) -> (r: Vec<EvaluationPlan<M>>)
    requires
        k <= plans@.len(),
        c.valid(),
        c.actions == actions@,
        c.holds(*old(occurrence) as int, EvaluationPlan::sequence_nodes(plans@.take(k as int))),
    ensures
        *final(occurrence) == *old(occurrence) + EvaluationPlan::sequence_nodes(
            plans@.take(k as int),
        ).len(),
        replays_sequence(c, r@, plans@.take(k as int), base@, *old(occurrence) as int),
        sequence_rewritten(r@, plans@.take(k as int), c.actions, *old(occurrence) as int),
    decreases plans@, k as nat,
{
    let ghost t = *occurrence as int;
    if k == 0 {
        let r: Vec<EvaluationPlan<M>> = Vec::new();
        proof {
            assert forall|row: Row, cache: Seq<int>|
                c.flow(
                    t,
                    t,
                    row,
                    cache,
                    (#[trigger] EvaluationPlan::run_sequence(r@, base@, row, cache)).1,
                    congruent(
                        EvaluationPlan::run_sequence(r@, base@, row, cache).0,
                        EvaluationPlan::sequence_value(plans@.take(0), base@, row),
                        M::p(),
                    ),
                ) by {
                lemma_flow_stay(c, t, row, cache);
            }
        }
        return r;
    }
    let ghost list = plans@.take(k as int);
    proof {
        assert(list.drop_last() =~= plans@.take(k - 1));
        c.lemma_holds_concat(
            t,
            EvaluationPlan::sequence_nodes(list.drop_last()),
            list.last().nodes(),
        );
    }
    let mut r = apply_sequence(plans, k - 1, base, actions, occurrence, Ghost(c));
    let item = apply_cache_actions(&plans[k - 1], actions, occurrence, Ghost(c));
    proof {
        lemma_sequence_push(c, r@, list, base@, t, item);
        assert(r@.push(item).drop_last() =~= r@);
    }
    r.push(item);
    r
}

fn apply_body_work<M: Modulus>(
    work: &Vec<FactorBodyWork<M>>,
    k: usize,
    actions: &Vec<Option<CacheAction>>,
    occurrence: &mut usize,
    Ghost(c): Ghost<Caching<M>>,
) -> (r: Vec<FactorBodyWork<M>>)
    requires
        k <= work@.len(),
        c.valid(),
        c.actions == actions@,
        c.holds(*old(occurrence) as int, FactorBodyWork::all_nodes(work@.take(k as int))),
    ensures
        *final(occurrence) == *old(occurrence) + FactorBodyWork::all_nodes(
            work@.take(k as int),
        ).len(),
        replays_body_list(c, r@, work@.take(k as int), *old(occurrence) as int),
        body_work_rewritten(r@, work@.take(k as int), c.actions, *old(occurrence) as int),
    decreases work@, k as nat,
{
    let ghost t = *occurrence as int;
    if k == 0 {
        let r: Vec<FactorBodyWork<M>> = Vec::new();
        proof {
            assert forall|row: Row, cache: Seq<int>|
                c.flow(
                    t,
                    t,
                    row,
                    cache,
                    (#[trigger] FactorBodyWork::run_all(r@, row, cache)).1,
                    congruent(
                        FactorBodyWork::run_all(r@, row, cache).0,
                        FactorBodyWork::total(work@.take(0), row),
                        M::p(),
                    ),
                ) by {
                lemma_flow_stay(c, t, row, cache);
            }
        }
        return r;
    }
    let ghost list = work@.take(k as int);
    proof {
        assert(list.drop_last() =~= work@.take(k - 1));
        c.lemma_holds_concat(
            t,
            FactorBodyWork::all_nodes(list.drop_last()),
            list.last().nodes(),
        );
    }
    let mut r = apply_body_work(work, k - 1, actions, occurrence, Ghost(c));
    let ghost m = *occurrence as int;
    let item = match &work[k - 1] {
        FactorBodyWork::Term(term) => {
            let new = FactorBodyWork::Term(
                WeightedTerm {
                    term: apply_cache_actions(&term.term, actions, occurrence, Ghost(c)),
                    power: term.power,
                },
            );
            proof {
                lemma_term_body(c, new, list.last(), m);
                assert(body_item_rewritten(new, list.last(), c.actions, m));
            }
            new
        },
        FactorBodyWork::SharedFactor { factor, terms } => {
            proof {
                c.lemma_holds_concat(m, factor.nodes(), WeightedTerm::all_nodes(terms@));
                assert(terms@.take(terms@.len() as int) =~= terms@);
            }
            let factor = apply_cache_actions(factor, actions, occurrence, Ghost(c));
            let terms = apply_terms(terms, terms.len(), actions, occurrence, Ghost(c));
            let new = FactorBodyWork::SharedFactor { factor, terms };
            proof {
                lemma_shared_body(c, new, list.last(), m);
                assert(body_item_rewritten(new, list.last(), c.actions, m));
            }
            new
        },
    };
    proof {
        lemma_body_push(c, r@, list, t, item);
        assert(r@.push(item).drop_last() =~= r@);
    }
    r.push(item);
    r
}

fn apply_terms<M: Modulus>(
    terms: &Vec<WeightedTerm<M>>,
    k: usize,
    actions: &Vec<Option<CacheAction>>,
    occurrence: &mut usize,
    Ghost(c): Ghost<Caching<M>>,
) -> (r: Vec<WeightedTerm<M>>)
    requires
        k <= terms@.len(),
        c.valid(),
        c.actions == actions@,
        c.holds(*old(occurrence) as int, WeightedTerm::all_nodes(terms@.take(k as int))),
    ensures
        *final(occurrence) == *old(occurrence) + WeightedTerm::all_nodes(
            terms@.take(k as int),
        ).len(),
        replays_terms(c, r@, terms@.take(k as int), *old(occurrence) as int),
        terms_rewritten(r@, terms@.take(k as int), c.actions, *old(occurrence) as int),
    decreases terms@, k as nat,
{
    let ghost t = *occurrence as int;
    if k == 0 {
        let r: Vec<WeightedTerm<M>> = Vec::new();
        proof {
            assert forall|row: Row, cache: Seq<int>|
                c.flow(
                    t,
                    t,
                    row,
                    cache,
                    (#[trigger] WeightedTerm::run_all(r@, row, cache)).1,
                    congruent(
                        WeightedTerm::run_all(r@, row, cache).0,
                        WeightedTerm::total(terms@.take(0), row),
                        M::p(),
                    ),
                ) by {
                lemma_flow_stay(c, t, row, cache);
            }
        }
        return r;
    }
    let ghost list = terms@.take(k as int);
    proof {
        assert(list.drop_last() =~= terms@.take(k - 1));
        c.lemma_holds_concat(
            t,
            WeightedTerm::all_nodes(list.drop_last()),
            list.last().term.nodes(),
        );
    }
    let mut r = apply_terms(terms, k - 1, actions, occurrence, Ghost(c));
    let item = WeightedTerm {
        term: apply_cache_actions(&terms[k - 1].term, actions, occurrence, Ghost(c)),
        power: terms[k - 1].power,
    };
    proof {
        lemma_terms_push(c, r@, list, t, item);
        assert(r@.push(item).drop_last() =~= r@);
    }
    r.push(item);
    r
}

} // verus!

//! What the pieces of a plan add up to while an expression is compiled.
use crate::field::congruence::{congruent, lemma_congruent_ops};
use crate::field::{Fe, Modulus};
use crate::poly::ast::{target, Ast, AstLeaf, Row};
use crate::poly::horner::{
    claim, horner, lemma_horner_claim, lemma_horner_scale, lemma_horner_update, masked,
};
use crate::poly::plan::{
    family_value, polynomial_value, selector_factor, selector_product, selector_sum,
    DistributionWork, EvaluationPlan, FactorBodyPlan, FactorBodyWork, SelectorFamilyRun,
    WeightedTerm,
};
use crate::poly::recognize::{
    factored, has_factor, is_expanded, is_power_term, is_selector, lemma_selector_value,
    product_without, selector_parts, sum_terms, FactorSide,
};
use vstd::arithmetic::power::pow;
use vstd::prelude::*;

verus! {

impl<M: Modulus> Ast<M> {
    /// The nesting depth of the expression.
    pub open spec fn height(self) -> nat
        decreases self,
    {
        match self {
            Ast::Add(a, b) => 1 + if a.height() < b.height() {
                b.height()
            } else {
                a.height()
            },
            Ast::Mul(a, b) => 1 + if a.height() < b.height() {
                b.height()
            } else {
                a.height()
            },
            Ast::Scale(a, scalar) => 1 + a.height(),
            Ast::DistributePowers(terms, base) => 1 + Self::terms_height(terms@),
            _ => 0,
        }
    }

    /// The largest nesting depth of the terms.
    pub open spec fn terms_height(terms: Seq<Ast<M>>) -> nat
        decreases terms,
    {
        if terms.len() == 0 {
            0
        } else if Self::terms_height(terms.drop_last()) < terms.last().height() {
            terms.last().height()
        } else {
            Self::terms_height(terms.drop_last())
        }
    }

    /// The value is defined by the pointwise values of the parts at this row.
    pub open spec fn fits(self, row: Row) -> bool {
        row.zero_constant() && (row.pointwise() || self.product_free())
    }

    /// The values of the terms.
    pub open spec fn values(terms: Seq<Ast<M>>, row: Row) -> Seq<int> {
        Seq::new(terms.len(), |i: int| terms[i].value(row))
    }

    pub proof fn lemma_terms_height(terms: Seq<Ast<M>>, i: int)
        requires
            0 <= i < terms.len(),
        ensures
            terms[i].height() <= Self::terms_height(terms),
        decreases terms.len(),
    {
        if i < terms.len() - 1 {
            Self::lemma_terms_height(terms.drop_last(), i);
            assert(terms.drop_last()[i] == terms[i]);
        }
    }

    pub proof fn lemma_terms_height_bound(terms: Seq<Ast<M>>, bound: nat)
        requires
            forall|i: int| 0 <= i < terms.len() ==> (#[trigger] terms[i]).height() < bound,
            bound > 0,
        ensures
            Self::terms_height(terms) < bound,
        decreases terms.len(),
    {
        if terms.len() > 0 {
            assert forall|i: int| 0 <= i < terms.drop_last().len() implies (
            #[trigger] terms.drop_last()[i]).height() < bound by {
                assert(terms[i].height() < bound);
            }
            Self::lemma_terms_height_bound(terms.drop_last(), bound);
            assert(terms[terms.len() - 1].height() < bound);
        }
    }

    pub proof fn lemma_terms_product_free(terms: Seq<Ast<M>>, i: int)
        requires
            0 <= i < terms.len(),
            Self::terms_product_free(terms),
        ensures
            terms[i].product_free(),
        decreases terms.len(),
    {
        if i < terms.len() - 1 {
            Self::lemma_terms_product_free(terms.drop_last(), i);
            assert(terms.drop_last()[i] == terms[i]);
        }
    }

    pub proof fn lemma_terms_leaves(
        terms: Seq<Ast<M>>,
        f: spec_fn(AstLeaf) -> bool,
        i: int,
    )
        requires
            0 <= i < terms.len(),
            Self::terms_leaves(terms, f),
        ensures
            terms[i].leaves(f),
        decreases terms.len(),
    {
        if i < terms.len() - 1 {
            Self::lemma_terms_leaves(terms.drop_last(), f, i);
            assert(terms.drop_last()[i] == terms[i]);
        }
    }

    /// A linear combination is a Horner sum of the values of its terms.
    pub proof fn lemma_terms_value(terms: Seq<Ast<M>>, base: int, row: Row)
        ensures
            Self::terms_value(terms, base, row) == horner(Self::values(terms, row), base),
        decreases terms.len(),
    {
        if terms.len() > 0 {
            Self::lemma_terms_value(terms.drop_last(), base, row);
            assert(Self::values(terms, row).drop_last() =~= Self::values(terms.drop_last(), row));
        }
    }
}

/// No node accesses the cache.
pub open spec fn plain<M: Modulus>(nodes: Seq<EvaluationPlan<M>>) -> bool {
    forall|i: int| 0 <= i < nodes.len() ==> (#[trigger] nodes[i]).cache_free_node()
}

pub proof fn lemma_plain_concat<M: Modulus>(a: Seq<EvaluationPlan<M>>, b: Seq<EvaluationPlan<M>>)
    requires
        plain(a),
        plain(b),
    ensures
        plain(a + b),
{
}

/// The plan has the value of the expression at every row, reads only its leaves and does not
/// access the cache.
pub open spec fn implements<M: Modulus>(plan: EvaluationPlan<M>, ast: Ast<M>) -> bool {
    &&& forall|row: Row|
        ast.fits(row) ==> congruent(#[trigger] plan.value(row), ast.value(row), M::p())
    &&& plan.cache_free()
    &&& forall|f: spec_fn(AstLeaf) -> bool, slots: nat|
        ast.leaves(f) ==> #[trigger] plan.sound(f, slots)
}

/// The plan has the value of the bodies by Horner's rule at every row.
pub open spec fn body_implements<M: Modulus>(
    plan: FactorBodyPlan<M>,
    bodies: Seq<Ast<M>>,
    base: int,
) -> bool {
    &&& forall|row: Row|
        row.pointwise() ==> congruent(
            #[trigger] plan.value(base, row),
            horner(Ast::values(bodies, row), base),
            M::p(),
        )
    &&& plain(plan.nodes())
    &&& forall|f: spec_fn(AstLeaf) -> bool, slots: nat|
        all_leaves(bodies, f) ==> #[trigger] plan.sound(f, slots)
}

pub proof fn lemma_sum_terms_parts<M: Modulus>(ast: Ast<M>, i: int)
    requires
        sum_terms(ast) is Some,
        0 <= i < sum_terms(ast).unwrap().len(),
    ensures
        ast.product_free() ==> sum_terms(ast).unwrap()[i].product_free(),
        sum_terms(ast).unwrap()[i].height() < ast.height(),
        forall|f: spec_fn(AstLeaf) -> bool| #[trigger]
            ast.leaves(f) ==> sum_terms(ast).unwrap()[i].leaves(f),
    decreases ast,
{
    match ast {
        Ast::Add(lhs, rhs) => {
            let front = sum_terms(target(lhs)).unwrap();
            if i < front.len() {
                lemma_sum_terms_parts(target(lhs), i);
                assert(sum_terms(ast).unwrap()[i] == front[i]);
                assert forall|f: spec_fn(AstLeaf) -> bool| #[trigger]
                    ast.leaves(f) implies sum_terms(ast).unwrap()[i].leaves(f) by {
                    assert(target(lhs).leaves(f));
                }
            }
        },
        _ => {},
    }
}

/// The base and the coefficients of a recognized polynomial are proper parts of it.
pub proof fn lemma_expanded_parts<M: Modulus>(ast: Ast<M>, base: Ast<M>, coefficients: Seq<AstLeaf>)
    requires
        is_expanded(ast, base, coefficients),
    ensures
        !ast.product_free(),
        base.height() < ast.height(),
        forall|f: spec_fn(AstLeaf) -> bool| #[trigger]
            ast.leaves(f) ==> base.leaves(f) && forall|i: int|
                0 <= i < coefficients.len() ==> f(#[trigger] coefficients[i]),
{
    let terms = sum_terms(ast).unwrap();
    lemma_sum_terms_parts(ast, 0);
    lemma_sum_terms_parts(ast, 1);
    assert(is_power_term(terms, base, coefficients[0], 0));
    assert(is_power_term(terms, base, coefficients[1], 1));
    reveal_with_fuel(Ast::height, 3);
    assert forall|f: spec_fn(AstLeaf) -> bool| #[trigger] ast.leaves(f) implies base.leaves(f)
        && forall|i: int| 0 <= i < coefficients.len() ==> f(#[trigger] coefficients[i]) by {
        assert(terms[1].leaves(f));
        reveal_with_fuel(Ast::leaves, 3);
        assert forall|i: int| 0 <= i < coefficients.len() implies f(
            #[trigger] coefficients[i],
        ) by {
            lemma_sum_terms_parts(ast, i);
            assert(is_power_term(terms, base, coefficients[i], i));
            assert(terms[i].leaves(f));
        }
    }
}

/// Congruent bases give congruent polynomial values.
pub proof fn lemma_polynomial_congruent(
    coefficients: Seq<AstLeaf>,
    x: int,
    y: int,
    row: Row,
    p: int,
)
    requires
        p > 0,
        congruent(x, y, p),
    ensures
        congruent(polynomial_value(coefficients, x, row), polynomial_value(coefficients, y, row), p),
    decreases coefficients.len(),
{
    if coefficients.len() > 0 {
        let tail = coefficients.drop_first();
        lemma_polynomial_congruent(tail, x, y, row, p);
        let (s, t) = (polynomial_value(tail, x, row), polynomial_value(tail, y, row));
        lemma_congruent_ops(x, y, s, t, p);
        let c = (row.leaf)(coefficients.first());
        lemma_congruent_ops(c, c, x * s, y * t, p);
    }
}


/// Every leaf of every expression satisfies a predicate.
pub open spec fn all_leaves<M: Modulus>(asts: Seq<Ast<M>>, f: spec_fn(AstLeaf) -> bool) -> bool {
    forall|i: int| 0 <= i < asts.len() ==> (#[trigger] asts[i]).leaves(f)
}

/// The values of the terms are defined by the pointwise values of their parts at this row.
pub open spec fn terms_fit<M: Modulus>(terms: Seq<Ast<M>>, row: Row) -> bool {
    row.zero_constant() && (row.pointwise() || Ast::terms_product_free(terms))
}

/// The factor is built from leaves of the expressions.
pub open spec fn is_part<M: Modulus>(part: Ast<M>, asts: Seq<Ast<M>>) -> bool {
    forall|f: spec_fn(AstLeaf) -> bool| all_leaves(asts, f) ==> #[trigger] part.leaves(f)
}

/// The work has the value of the claimed bodies.
pub open spec fn covers_bodies<M: Modulus>(
    work: Seq<FactorBodyWork<M>>,
    bodies: Seq<Ast<M>>,
    claimed: Seq<bool>,
    base: int,
) -> bool {
    &&& claimed.len() == bodies.len()
    &&& forall|row: Row|
        row.pointwise() ==> congruent(
            #[trigger] FactorBodyWork::total(work, row),
            horner(masked(Ast::values(bodies, row), claimed), base),
            M::p(),
        )
    &&& plain(FactorBodyWork::all_nodes(work))
    &&& forall|f: spec_fn(AstLeaf) -> bool, slots: nat, i: int|
        all_leaves(bodies, f) && 0 <= i < work.len() ==> #[trigger] work[i].sound(f, slots)
}

/// The weighted terms times the factor have the value of the bodies claimed since `before`.
pub open spec fn covers_group<M: Modulus>(
    terms: Seq<WeightedTerm<M>>,
    factor: Ast<M>,
    bodies: Seq<Ast<M>>,
    before: Seq<bool>,
    after: Seq<bool>,
    base: int,
) -> bool {
    &&& before.len() == bodies.len()
    &&& after.len() == bodies.len()
    &&& forall|row: Row|
        row.pointwise() ==> congruent(
            #[trigger] WeightedTerm::total(terms, row) * factor.value(row) + horner(
                masked(Ast::values(bodies, row), before),
                base,
            ),
            horner(masked(Ast::values(bodies, row), after), base),
            M::p(),
        )
    &&& plain(WeightedTerm::all_nodes(terms))
    &&& forall|f: spec_fn(AstLeaf) -> bool, slots: nat, i: int|
        all_leaves(bodies, f) && 0 <= i < terms.len() ==> #[trigger] terms[i].term.sound(f, slots)
}

/// The work has the value of the claimed terms.
pub open spec fn covers_terms<M: Modulus>(
    work: Seq<DistributionWork<M>>,
    terms: Seq<Ast<M>>,
    claimed: Seq<bool>,
    base: int,
) -> bool {
    &&& claimed.len() == terms.len()
    &&& forall|row: Row|
        terms_fit(terms, row) ==> congruent(
            #[trigger] DistributionWork::total(work, base, row),
            horner(masked(Ast::values(terms, row), claimed), base),
            M::p(),
        )
    &&& plain(DistributionWork::all_nodes(work))
    &&& forall|f: spec_fn(AstLeaf) -> bool, slots: nat, i: int|
        all_leaves(terms, f) && 0 <= i < work.len() ==> #[trigger] work[i].sound(f, slots)
}

/// The runs have the value of the terms claimed since `before`.
pub open spec fn covers_family<M: Modulus>(
    runs: Seq<SelectorFamilyRun<M>>,
    query: AstLeaf,
    len: int,
    terms: Seq<Ast<M>>,
    before: Seq<bool>,
    after: Seq<bool>,
    base: int,
) -> bool {
    &&& before.len() == terms.len()
    &&& after.len() == terms.len()
    &&& forall|row: Row|
        row.pointwise() ==> congruent(
            without_sum(
                #[trigger] SelectorFamilyRun::values(runs, base, row),
                runs.len() as int,
                len,
                (row.leaf)(query),
                M::p(),
            ) * (row.leaf)(query) + horner(masked(Ast::values(terms, row), before), base),
            horner(masked(Ast::values(terms, row), after), base),
            M::p(),
        )
    &&& plain(SelectorFamilyRun::all_nodes(runs))
    &&& forall|f: spec_fn(AstLeaf) -> bool, slots: nat, i: int|
        all_leaves(terms, f) && 0 <= i < runs.len() ==> #[trigger] runs[i].bodies.sound(f, slots)
}

/// The first `m` bodies, each times the selector factors of all other roots up to `h`.
pub open spec fn without_sum(bodies: Seq<int>, m: int, h: int, query: int, p: int) -> int
    decreases m,
{
    if m <= 0 {
        0
    } else {
        without_sum(bodies, m - 1, h, query, p) + bodies[m - 1] * product_without(h, m, query, p)
    }
}

proof fn lemma_product_without_above(h: int, root: int, query: int, p: int)
    requires
        h < root,
        0 <= h,
    ensures
        product_without(h, root, query, p) == selector_product(0, h, query, p),
    decreases h,
{
    if h > 0 {
        lemma_product_without_above(h - 1, root, query, p);
    }
}

proof fn lemma_without_sum_step(bodies: Seq<int>, m: int, h: int, query: int, p: int)
    requires
        0 <= m < h,
    ensures
        without_sum(bodies, m, h, query, p) == without_sum(bodies, m, h - 1, query, p)
            * selector_factor(h, query, p),
    decreases m,
{
    let t = selector_factor(h, query, p);
    if m > 0 {
        lemma_without_sum_step(bodies, m - 1, h, query, p);
        let (s, b, w) = (
            without_sum(bodies, m - 1, h - 1, query, p),
            bodies[m - 1],
            product_without(h - 1, m, query, p),
        );
        assert(s * t + b * (w * t) == (s + b * w) * t) by (nonlinear_arith);
    } else {
        assert(0 * t == 0);
    }
}

/// The sum over a whole family by its recursive form.
proof fn lemma_selector_sum(bodies: Seq<int>, h: int, query: int, p: int)
    requires
        0 <= h,
    ensures
        selector_sum(bodies, 0, h, query, p) == without_sum(bodies, h, h, query, p),
    decreases h,
{
    if h > 0 {
        lemma_selector_sum(bodies, h - 1, query, p);
        lemma_without_sum_step(bodies, h - 1, h, query, p);
        lemma_product_without_above(h - 1, h, query, p);
        assert(product_without(h, h, query, p) == product_without(h - 1, h, query, p));
    }
}

/// The sum depends only on the bodies that it adds up.
proof fn lemma_without_sum_prefix(
    a: Seq<int>,
    b: Seq<int>,
    m: int,
    h: int,
    query: int,
    p: int,
)
    requires
        0 <= m <= a.len(),
        0 <= m <= b.len(),
        forall|i: int| 0 <= i < m ==> a[i] == b[i],
    ensures
        without_sum(a, m, h, query, p) == without_sum(b, m, h, query, p),
    decreases m,
{
    if m > 0 {
        lemma_without_sum_prefix(a, b, m - 1, h, query, p);
    }
}

proof fn lemma_run_values_len<M: Modulus>(runs: Seq<SelectorFamilyRun<M>>, base: int, row: Row)
    ensures
        SelectorFamilyRun::values(runs, base, row).len() == runs.len(),
    decreases runs.len(),
{
    if runs.len() > 0 {
        lemma_run_values_len(runs.drop_last(), base, row);
    }
}

/// The query of a selector is one of its leaves.
proof fn lemma_selector_leaf<M: Modulus>(ast: Ast<M>, f: spec_fn(AstLeaf) -> bool)
    requires
        selector_parts(ast) is Some,
        ast.leaves(f),
    ensures
        f(selector_parts(ast).unwrap().0),
    decreases ast,
{
    match ast {
        Ast::Mul(lhs, rhs) => {
            lemma_selector_leaf(target(lhs), f);
        },
        _ => {},
    }
}

/// The value of a product by its factor and its body.
pub proof fn lemma_factored_value<M: Modulus>(
    term: Ast<M>,
    side: FactorSide,
    factor: Ast<M>,
    row: Row,
)
    requires
        has_factor(term, factor, side),
    ensures
        term.value(row) == factored(term, side).unwrap().1.value(row) * factor.value(row),
        !term.product_free(),
        factored(term, side).unwrap().1.height() < term.height(),
        factored(term, side).unwrap().0.height() < term.height(),
        forall|f: spec_fn(AstLeaf) -> bool| #[trigger]
            term.leaves(f) ==> factored(term, side).unwrap().1.leaves(f) && factored(
                term,
                side,
            ).unwrap().0.leaves(f),
{
    let (candidate, body) = factored(term, side).unwrap();
    factor.lemma_same_value(candidate, row);
    let (x, y) = (candidate.value(row), body.value(row));
    assert(x * y == y * x) by (nonlinear_arith);
}

/// A single value claims one position.
proof fn lemma_claim_one(values: Seq<int>, claimed: Seq<bool>, i: int, base: int)
    requires
        values.len() == claimed.len(),
        0 <= i < values.len(),
        !claimed[i],
    ensures
        horner(masked(values, claimed.update(i, true)), base) == horner(
            masked(values, claimed),
            base,
        ) + values[i] * pow(base, (values.len() - 1 - i) as nat),
{
    lemma_horner_update(masked(values, claimed), i, values[i], base);
    assert(masked(values, claimed.update(i, true)) =~= masked(values, claimed).update(
        i,
        values[i],
    ));
}

/// Adds a single body to the work.
pub proof fn lemma_cover_body<M: Modulus>(
    work: Seq<FactorBodyWork<M>>,
    bodies: Seq<Ast<M>>,
    claimed: Seq<bool>,
    base: int,
    i: int,
    term: WeightedTerm<M>,
)
    requires
        covers_bodies(work, bodies, claimed, base),
        0 <= i < bodies.len(),
        !claimed[i],
        implements(term.term, bodies[i]),
        congruent(term.power@, pow(base, (bodies.len() - 1 - i) as nat), M::p()),
    ensures
        covers_bodies(
            work.push(FactorBodyWork::Term(term)),
            bodies,
            claimed.update(i, true),
            base,
        ),
{
    M::lemma_modulus();
    let p = M::p();
    let item = FactorBodyWork::Term(term);
    let after = work.push(item);
    assert(after.drop_last() =~= work);
    let power = pow(base, (bodies.len() - 1 - i) as nat);
    assert forall|row: Row| row.pointwise() implies congruent(
        #[trigger] FactorBodyWork::total(after, row),
        horner(masked(Ast::values(bodies, row), claimed.update(i, true)), base),
        p,
    ) by {
        let values = Ast::values(bodies, row);
        lemma_claim_one(values, claimed, i, base);
        assert(bodies[i].fits(row));
        assert(congruent(term.term.value(row), bodies[i].value(row), p));
        lemma_congruent_ops(term.term.value(row), bodies[i].value(row), term.power@, power, p);
        assert(congruent(
            FactorBodyWork::total(work, row),
            horner(masked(values, claimed), base),
            p,
        ));
        lemma_congruent_ops(
            FactorBodyWork::total(work, row),
            horner(masked(values, claimed), base),
            item.value(row),
            values[i] * power,
            p,
        );
    }
    assert(plain(term.term.nodes()));
    lemma_plain_concat(FactorBodyWork::all_nodes(work), item.nodes());
    assert forall|f: spec_fn(AstLeaf) -> bool, slots: nat, k: int|
        all_leaves(bodies, f) && 0 <= k < after.len() implies #[trigger] after[k].sound(
        f,
        slots,
    ) by {
        if k < work.len() {
            assert(work[k].sound(f, slots));
        } else {
            assert(bodies[i].leaves(f));
            assert(term.term.sound(f, slots));
        }
    }
}

/// Starts a group with a common factor.
pub proof fn lemma_group_start<M: Modulus>(
    factor: Ast<M>,
    bodies: Seq<Ast<M>>,
    claimed: Seq<bool>,
    base: int,
)
    requires
        claimed.len() == bodies.len(),
    ensures
        covers_group(Seq::empty(), factor, bodies, claimed, claimed, base),
{
    assert forall|row: Row| row.pointwise() implies congruent(
        #[trigger] WeightedTerm::<M>::total(Seq::empty(), row) * factor.value(row) + horner(
            masked(Ast::values(bodies, row), claimed),
            base,
        ),
        horner(masked(Ast::values(bodies, row), claimed), base),
        M::p(),
    ) by {
        assert(0 * factor.value(row) == 0);
    }
}

/// Adds a body to a group with a common factor.
pub proof fn lemma_group_push<M: Modulus>(
    terms: Seq<WeightedTerm<M>>,
    factor: Ast<M>,
    bodies: Seq<Ast<M>>,
    before: Seq<bool>,
    after: Seq<bool>,
    base: int,
    i: int,
    side: FactorSide,
    term: WeightedTerm<M>,
)
    requires
        covers_group(terms, factor, bodies, before, after, base),
        0 <= i < bodies.len(),
        !after[i],
        has_factor(bodies[i], factor, side),
        implements(term.term, factored(bodies[i], side).unwrap().1),
        congruent(term.power@, pow(base, (bodies.len() - 1 - i) as nat), M::p()),
    ensures
        covers_group(terms.push(term), factor, bodies, before, after.update(i, true), base),
{
    M::lemma_modulus();
    let p = M::p();
    let pushed = terms.push(term);
    assert(pushed.drop_last() =~= terms);
    let power = pow(base, (bodies.len() - 1 - i) as nat);
    let body = factored(bodies[i], side).unwrap().1;
    assert forall|row: Row| row.pointwise() implies congruent(
        #[trigger] WeightedTerm::total(pushed, row) * factor.value(row) + horner(
            masked(Ast::values(bodies, row), before),
            base,
        ),
        horner(masked(Ast::values(bodies, row), after.update(i, true)), base),
        p,
    ) by {
        let values = Ast::values(bodies, row);
        lemma_claim_one(values, after, i, base);
        lemma_factored_value(bodies[i], side, factor, row);
        assert(body.fits(row));
        let (t, b, g, w) = (term.term.value(row), body.value(row), factor.value(row), term.power@);
        assert(congruent(t, b, p));
        lemma_congruent_ops(t, b, w, power, p);
        lemma_congruent_ops(t * w, b * power, g, g, p);
        let (x, h0, h1) = (
            WeightedTerm::total(terms, row),
            horner(masked(values, before), base),
            horner(masked(values, after), base),
        );
        assert(congruent(x * g + h0, h1, p));
        lemma_congruent_ops(x * g + h0, h1, t * w * g, b * power * g, p);
        assert(x * g + h0 + t * w * g == (x + t * w) * g + h0) by (nonlinear_arith);
        assert(b * power * g == b * g * power) by (nonlinear_arith);
    }
    assert(plain(term.term.nodes()));
    lemma_plain_concat(WeightedTerm::all_nodes(terms), term.term.nodes());
    assert forall|f: spec_fn(AstLeaf) -> bool, slots: nat, k: int|
        all_leaves(bodies, f) && 0 <= k < pushed.len() implies #[trigger] pushed[k].term.sound(
        f,
        slots,
    ) by {
        if k < terms.len() {
            assert(terms[k].term.sound(f, slots));
        } else {
            assert(bodies[i].leaves(f));
            lemma_factored_leaves(bodies[i], side, f);
            assert(term.term.sound(f, slots));
        }
    }
}

/// The factor and the body of a product hold leaves of the product.
proof fn lemma_factored_leaves<M: Modulus>(
    term: Ast<M>,
    side: FactorSide,
    f: spec_fn(AstLeaf) -> bool,
)
    requires
        factored(term, side) is Some,
        term.leaves(f),
    ensures
        factored(term, side).unwrap().0.leaves(f),
        factored(term, side).unwrap().1.leaves(f),
{
}

/// The factor of one of the expressions is a part of them.
pub proof fn lemma_factor_part<M: Modulus>(asts: Seq<Ast<M>>, i: int, side: FactorSide)
    requires
        0 <= i < asts.len(),
        factored(asts[i], side) is Some,
    ensures
        is_part(factored(asts[i], side).unwrap().0, asts),
        is_part(factored(asts[i], side).unwrap().1, asts),
{
    assert forall|f: spec_fn(AstLeaf) -> bool| all_leaves(asts, f) implies #[trigger] factored(
        asts[i],
        side,
    ).unwrap().0.leaves(f) by {
        assert(asts[i].leaves(f));
        lemma_factored_leaves(asts[i], side, f);
    }
    assert forall|f: spec_fn(AstLeaf) -> bool| all_leaves(asts, f) implies #[trigger] factored(
        asts[i],
        side,
    ).unwrap().1.leaves(f) by {
        assert(asts[i].leaves(f));
        lemma_factored_leaves(asts[i], side, f);
    }
}

/// Adds a group with a common factor to the work.
pub proof fn lemma_cover_group<M: Modulus>(
    work: Seq<FactorBodyWork<M>>,
    bodies: Seq<Ast<M>>,
    before: Seq<bool>,
    after: Seq<bool>,
    base: int,
    factor: Ast<M>,
    item: FactorBodyWork<M>,
)
    requires
        covers_bodies(work, bodies, before, base),
        item matches FactorBodyWork::SharedFactor { factor: plan, terms } && implements(
            plan,
            factor,
        ) && covers_group(terms@, factor, bodies, before, after, base),
        is_part(factor, bodies),
    ensures
        covers_bodies(work.push(item), bodies, after, base),
{
    M::lemma_modulus();
    let p = M::p();
    let pushed = work.push(item);
    assert(pushed.drop_last() =~= work);
    match item {
        FactorBodyWork::SharedFactor { factor: plan, terms } => {
            assert forall|row: Row| row.pointwise() implies congruent(
                #[trigger] FactorBodyWork::total(pushed, row),
                horner(masked(Ast::values(bodies, row), after), base),
                p,
            ) by {
                let values = Ast::values(bodies, row);
                assert(factor.fits(row));
                let (x, g, t) = (plan.value(row), factor.value(row), WeightedTerm::total(terms@, row));
                assert(congruent(x, g, p));
                lemma_congruent_ops(t, t, x, g, p);
                let h = horner(masked(values, before), base);
                let total = FactorBodyWork::total(work, row);
                assert(congruent(total, h, p));
                lemma_congruent_ops(total, h, t * x, t * g, p);
                assert(congruent(t * g + h, horner(masked(values, after), base), p));
                assert(item.value(row) == t * x);
            }
            assert(plain(plan.nodes()));
            lemma_plain_concat(plan.nodes(), WeightedTerm::all_nodes(terms@));
            lemma_plain_concat(FactorBodyWork::all_nodes(work), item.nodes());
            assert forall|f: spec_fn(AstLeaf) -> bool, slots: nat, k: int|
                all_leaves(bodies, f) && 0 <= k < pushed.len() implies #[trigger] pushed[k].sound(
                f,
                slots,
            ) by {
                if k < work.len() {
                    assert(work[k].sound(f, slots));
                } else {
                    assert(factor.leaves(f));
                    assert(plan.sound(f, slots));
                    assert forall|i: int| 0 <= i < terms@.len() implies (
                    #[trigger] terms@[i]).term.sound(f, slots) by {}
                }
            }
        },
        _ => {},
    }
}

/// Adds a single term to the work.
pub proof fn lemma_cover_term<M: Modulus>(
    work: Seq<DistributionWork<M>>,
    terms: Seq<Ast<M>>,
    claimed: Seq<bool>,
    base: int,
    i: int,
    plan: EvaluationPlan<M>,
    power: Fe<M>,
)
    requires
        covers_terms(work, terms, claimed, base),
        0 <= i < terms.len(),
        !claimed[i],
        implements(plan, terms[i]),
        congruent(power@, pow(base, (terms.len() - 1 - i) as nat), M::p()),
    ensures
        covers_terms(
            work.push(DistributionWork::Term { term: plan, power }),
            terms,
            claimed.update(i, true),
            base,
        ),
{
    M::lemma_modulus();
    let p = M::p();
    let item = DistributionWork::Term { term: plan, power };
    let after = work.push(item);
    assert(after.drop_last() =~= work);
    let w = pow(base, (terms.len() - 1 - i) as nat);
    assert forall|row: Row| terms_fit(terms, row) implies congruent(
        #[trigger] DistributionWork::total(after, base, row),
        horner(masked(Ast::values(terms, row), claimed.update(i, true)), base),
        p,
    ) by {
        let values = Ast::values(terms, row);
        lemma_claim_one(values, claimed, i, base);
        if Ast::terms_product_free(terms) {
            Ast::lemma_terms_product_free(terms, i);
        }
        assert(terms[i].fits(row));
        assert(congruent(plan.value(row), terms[i].value(row), p));
        lemma_congruent_ops(plan.value(row), terms[i].value(row), power@, w, p);
        let (x, h) = (
            DistributionWork::total(work, base, row),
            horner(masked(values, claimed), base),
        );
        assert(congruent(x, h, p));
        lemma_congruent_ops(x, h, item.value(base, row), values[i] * w, p);
    }
    assert(plain(plan.nodes()));
    lemma_plain_concat(DistributionWork::all_nodes(work), item.nodes());
    assert forall|f: spec_fn(AstLeaf) -> bool, slots: nat, k: int|
        all_leaves(terms, f) && 0 <= k < after.len() implies #[trigger] after[k].sound(
        f,
        slots,
    ) by {
        if k < work.len() {
            assert(work[k].sound(f, slots));
        } else {
            assert(terms[i].leaves(f));
            assert(plan.sound(f, slots));
        }
    }
}

/// The terms from `start` to `end - 1` are products with the given factor, and the bodies are
/// what is left of them.
pub open spec fn is_body_run<M: Modulus>(
    terms: Seq<Ast<M>>,
    start: int,
    end: int,
    factor: Ast<M>,
    side: FactorSide,
    bodies: Seq<Ast<M>>,
) -> bool {
    &&& 0 <= start < end <= terms.len()
    &&& bodies.len() == end - start
    &&& forall|i: int|
        #![trigger terms[i]]
        start <= i < end ==> has_factor(terms[i], factor, side) && factored(
            terms[i],
            side,
        ).unwrap().1 == bodies[i - start]
}

/// A run of products has the value of its bodies times the common factor.
proof fn lemma_body_run<M: Modulus>(
    terms: Seq<Ast<M>>,
    start: int,
    end: int,
    factor: Ast<M>,
    side: FactorSide,
    bodies: Seq<Ast<M>>,
    base: int,
    row: Row,
)
    requires
        is_body_run(terms, start, end, factor, side, bodies),
    ensures
        horner(Ast::values(terms, row).subrange(start, end), base) == horner(
            Ast::values(bodies, row),
            base,
        ) * factor.value(row),
        !Ast::terms_product_free(terms),
        forall|f: spec_fn(AstLeaf) -> bool| #[trigger]
            all_leaves(terms, f) ==> all_leaves(bodies, f),
{
    let values = Ast::values(terms, row).subrange(start, end);
    let parts = Ast::values(bodies, row);
    assert forall|i: int| 0 <= i < values.len() implies #[trigger] values[i] == parts[i]
        * factor.value(row) by {
        assert(has_factor(terms[start + i], factor, side));
        lemma_factored_value(terms[start + i], side, factor, row);
    }
    lemma_horner_scale(factor.value(row), parts, values, base);
    assert(has_factor(terms[start], factor, side));
    lemma_factored_value(terms[start], side, factor, row);
    if Ast::terms_product_free(terms) {
        Ast::lemma_terms_product_free(terms, start);
    }
    assert forall|f: spec_fn(AstLeaf) -> bool| #[trigger] all_leaves(terms, f) implies all_leaves(
        bodies,
        f,
    ) by {
        assert forall|k: int| 0 <= k < bodies.len() implies (#[trigger] bodies[k]).leaves(f) by {
            let i = start + k;
            assert(terms[i].leaves(f));
            lemma_factored_leaves(terms[i], side, f);
        }
    }
}

/// Adds a run with a common factor to the work.
pub proof fn lemma_cover_shared<M: Modulus>(
    work: Seq<DistributionWork<M>>,
    terms: Seq<Ast<M>>,
    claimed: Seq<bool>,
    base: int,
    start: int,
    end: int,
    factor: Ast<M>,
    side: FactorSide,
    bodies: Seq<Ast<M>>,
    item: DistributionWork<M>,
)
    requires
        covers_terms(work, terms, claimed, base),
        is_body_run(terms, start, end, factor, side, bodies),
        forall|i: int| start <= i < end ==> !#[trigger] claimed[i],
        item matches DistributionWork::SharedFactor { factor: plan, bodies: body_plan, power }
            && implements(plan, factor) && body_implements(body_plan, bodies, base) && congruent(
            power@,
            pow(base, (terms.len() - end) as nat),
            M::p(),
        ),
        is_part(factor, terms),
    ensures
        covers_terms(work.push(item), terms, claim(claimed, start, end), base),
{
    M::lemma_modulus();
    let p = M::p();
    let after = work.push(item);
    assert(after.drop_last() =~= work);
    let w = pow(base, (terms.len() - end) as nat);
    match item {
        DistributionWork::SharedFactor { factor: plan, bodies: body_plan, power } => {
            assert forall|row: Row| terms_fit(terms, row) implies congruent(
                #[trigger] DistributionWork::total(after, base, row),
                horner(masked(Ast::values(terms, row), claim(claimed, start, end)), base),
                p,
            ) by {
                let values = Ast::values(terms, row);
                lemma_horner_claim(values, claimed, start, end, base);
                lemma_body_run(terms, start, end, factor, side, bodies, base, row);
                assert(factor.fits(row));
                let (x, g) = (plan.value(row), factor.value(row));
                let (y, b) = (
                    body_plan.value(base, row),
                    horner(Ast::values(bodies, row), base),
                );
                assert(congruent(x, g, p));
                assert(congruent(y, b, p));
                lemma_congruent_ops(y, b, x, g, p);
                lemma_congruent_ops(y * x, b * g, power@, w, p);
                let (t, h) = (
                    DistributionWork::total(work, base, row),
                    horner(masked(values, claimed), base),
                );
                assert(congruent(t, h, p));
                lemma_congruent_ops(t, h, y * x * power@, b * g * w, p);
                assert(item.value(base, row) == y * x * power@);
            }
            assert(plain(plan.nodes()));
            lemma_plain_concat(plan.nodes(), body_plan.nodes());
            lemma_plain_concat(DistributionWork::all_nodes(work), item.nodes());
            assert forall|f: spec_fn(AstLeaf) -> bool, slots: nat, k: int|
                all_leaves(terms, f) && 0 <= k < after.len() implies #[trigger] after[k].sound(
                f,
                slots,
            ) by {
                if k < work.len() {
                    assert(work[k].sound(f, slots));
                } else {
                    let row = Row { leaf: |l: AstLeaf| 0int, linear: |s: int| s, constant: |s: int| s };
                    lemma_body_run(terms, start, end, factor, side, bodies, base, row);
                    assert(factor.leaves(f));
                    assert(plan.sound(f, slots));
                    assert(body_plan.sound(f, slots));
                }
            }
        },
        _ => {},
    }
}

/// Starts a family.
pub proof fn lemma_family_start<M: Modulus>(
    query: AstLeaf,
    len: int,
    terms: Seq<Ast<M>>,
    claimed: Seq<bool>,
    base: int,
)
    requires
        claimed.len() == terms.len(),
    ensures
        covers_family(Seq::empty(), query, len, terms, claimed, claimed, base),
{
    assert forall|row: Row| row.pointwise() implies congruent(
        without_sum(
            #[trigger] SelectorFamilyRun::<M>::values(Seq::empty(), base, row),
            0,
            len,
            (row.leaf)(query),
            M::p(),
        ) * (row.leaf)(query) + horner(masked(Ast::values(terms, row), claimed), base),
        horner(masked(Ast::values(terms, row), claimed), base),
        M::p(),
    ) by {
        assert(0 * (row.leaf)(query) == 0);
    }
}

/// Adds the run of the next root to a family.
pub proof fn lemma_family_push<M: Modulus>(
    runs: Seq<SelectorFamilyRun<M>>,
    query: AstLeaf,
    len: nat,
    terms: Seq<Ast<M>>,
    before: Seq<bool>,
    after: Seq<bool>,
    base: int,
    start: int,
    end: int,
    factor: Ast<M>,
    side: FactorSide,
    bodies: Seq<Ast<M>>,
    run: SelectorFamilyRun<M>,
)
    requires
        covers_family(runs, query, len as int, terms, before, after, base),
        is_body_run(terms, start, end, factor, side, bodies),
        is_selector(factor, query, len, (runs.len() + 1) as nat),
        forall|i: int| start <= i < end ==> !#[trigger] after[i],
        body_implements(run.bodies, bodies, base),
        congruent(run.power@, pow(base, (terms.len() - end) as nat), M::p()),
    ensures
        covers_family(
            runs.push(run),
            query,
            len as int,
            terms,
            before,
            claim(after, start, end),
            base,
        ),
{
    M::lemma_modulus();
    let p = M::p();
    let pushed = runs.push(run);
    assert(pushed.drop_last() =~= runs);
    let w = pow(base, (terms.len() - end) as nat);
    let m = runs.len() as int;
    assert forall|row: Row| row.pointwise() implies congruent(
        without_sum(
            #[trigger] SelectorFamilyRun::values(pushed, base, row),
            pushed.len() as int,
            len as int,
            (row.leaf)(query),
            M::p(),
        ) * (row.leaf)(query) + horner(masked(Ast::values(terms, row), before), base),
        horner(masked(Ast::values(terms, row), claim(after, start, end)), base),
        M::p(),
    ) by {
        let values = Ast::values(terms, row);
        let q = (row.leaf)(query);
        let front = SelectorFamilyRun::values(runs, base, row);
        let all = SelectorFamilyRun::values(pushed, base, row);
        lemma_run_values_len(runs, base, row);
        assert(all == front.push(run.bodies.value(base, row) * run.power@));
        lemma_without_sum_prefix(front, all, m, len as int, q, p);
        lemma_horner_claim(values, after, start, end, base);
        lemma_body_run(terms, start, end, factor, side, bodies, base, row);
        lemma_selector_value(factor, query, len, (m + 1) as nat, row);
        let o = product_without(len as int, m + 1, q, p);
        let (y, b) = (run.bodies.value(base, row), horner(Ast::values(bodies, row), base));
        assert(congruent(y, b, p));
        lemma_congruent_ops(y, b, run.power@, w, p);
        lemma_congruent_ops(y * run.power@, b * w, q * o, q * o, p);
        let (s, h0, h1) = (
            without_sum(front, m, len as int, q, p),
            horner(masked(values, before), base),
            horner(masked(values, after), base),
        );
        assert(congruent(s * q + h0, h1, p));
        let a = y * run.power@;
        lemma_congruent_ops(s * q + h0, h1, a * (q * o), b * w * (q * o), p);
        assert(s * q + h0 + a * (q * o) == (s + a * o) * q + h0) by (nonlinear_arith);
        assert(b * w * (q * o) == b * (q * o) * w) by (nonlinear_arith);
    }
    lemma_plain_concat(run.bodies.nodes(), SelectorFamilyRun::all_nodes(runs));
    assert forall|f: spec_fn(AstLeaf) -> bool, slots: nat, k: int|
        all_leaves(terms, f) && 0 <= k < pushed.len() implies #[trigger] pushed[k].bodies.sound(
        f,
        slots,
    ) by {
        if k < runs.len() {
            assert(runs[k].bodies.sound(f, slots));
        } else {
            let row = Row { leaf: |l: AstLeaf| 0int, linear: |s: int| s, constant: |s: int| s };
            lemma_body_run(terms, start, end, factor, side, bodies, base, row);
            assert(run.bodies.sound(f, slots));
        }
    }
}

/// Adds a whole family to the work.
pub proof fn lemma_cover_family<M: Modulus>(
    work: Seq<DistributionWork<M>>,
    terms: Seq<Ast<M>>,
    before: Seq<bool>,
    after: Seq<bool>,
    base: int,
    query: AstLeaf,
    item: DistributionWork<M>,
    selector: Ast<M>,
)
    requires
        covers_terms(work, terms, before, base),
        item matches DistributionWork::SelectorFamily { query: q, runs } && q == query
            && runs@.len() >= 2 && covers_family(
            runs@,
            query,
            runs@.len() as int,
            terms,
            before,
            after,
            base,
        ),
        is_part(selector, terms),
        selector_parts(selector) matches Some((q, roots)) && q == query,
        !Ast::terms_product_free(terms),
    ensures
        covers_terms(work.push(item), terms, after, base),
{
    M::lemma_modulus();
    let p = M::p();
    let pushed = work.push(item);
    assert(pushed.drop_last() =~= work);
    match item {
        DistributionWork::SelectorFamily { query: q0, runs } => {
            assert forall|row: Row| terms_fit(terms, row) implies congruent(
                #[trigger] DistributionWork::total(pushed, base, row),
                horner(masked(Ast::values(terms, row), after), base),
                p,
            ) by {
                let values = Ast::values(terms, row);
                let q = (row.leaf)(query);
                let bodies = SelectorFamilyRun::values(runs@, base, row);
                lemma_run_values_len(runs@, base, row);
                lemma_selector_sum(bodies, runs@.len() as int, q, p);
                let h = horner(masked(values, before), base);
                let t = DistributionWork::total(work, base, row);
                assert(congruent(t, h, p));
                let v = family_value(bodies, q, p);
                lemma_congruent_ops(t, h, v, v, p);
                assert(congruent(v + h, horner(masked(values, after), base), p));
                assert(item.value(base, row) == v);
            }
            lemma_plain_concat(DistributionWork::all_nodes(work), item.nodes());
            assert forall|f: spec_fn(AstLeaf) -> bool, slots: nat, k: int|
                all_leaves(terms, f) && 0 <= k < pushed.len() implies #[trigger] pushed[k].sound(
                f,
                slots,
            ) by {
                if k < work.len() {
                    assert(work[k].sound(f, slots));
                } else {
                    assert(selector.leaves(f));
                    lemma_selector_leaf(selector, f);
                    assert forall|i: int| 0 <= i < runs@.len() implies (
                    #[trigger] runs@[i]).bodies.sound(f, slots) by {}
                }
            }
        },
        _ => {},
    }
}

pub proof fn lemma_binary_parts<M: Modulus>(
    r: EvaluationPlan<M>,
    x: EvaluationPlan<M>,
    y: EvaluationPlan<M>,
    ast: Ast<M>,
    a: Ast<M>,
    b: Ast<M>,
)
    requires
        implements(x, a),
        implements(y, b),
        (r matches EvaluationPlan::Add(u, v) && *u == x && *v == y) || (
        r matches EvaluationPlan::Mul(u, v) && *u == x && *v == y),
        (ast matches Ast::Add(u, v) && *u == a && *v == b) || (ast matches Ast::Mul(u, v) && *u == a
            && *v == b),
    ensures
        r.cache_free(),
        forall|f: spec_fn(AstLeaf) -> bool, slots: nat|
            ast.leaves(f) ==> #[trigger] r.sound(f, slots),
{
    lemma_plain_concat(x.nodes(), y.nodes());
    assert(plain(seq![r]));
    lemma_plain_concat(seq![r], x.nodes() + y.nodes());
    assert forall|f: spec_fn(AstLeaf) -> bool, slots: nat|
        ast.leaves(f) implies #[trigger] r.sound(f, slots) by {
        assert(x.sound(f, slots));
        assert(y.sound(f, slots));
    }
}

} // verus!

//! What expressions are compiled to: squares, polynomials by Horner's rule, and one product for
//! terms with a common factor.
use crate::field::{Fe, Modulus};
use crate::poly::ast::{Ast, AstLeaf};
use crate::poly::compiled::{
    factor_start, family_claims, is_compiled, item_compiled, share_factor, span_before, spans,
};
use crate::poly::families::{
    are_family_matches, has_root, is_family, root_found, selected, selector_of,
    selector_runs, FoundRun, SelectorFamilyMatch,
};
use crate::poly::plan::{DistributionWork, EvaluationPlan};
use crate::poly::recognize::{
    is_expanded, is_power_term, sum_terms, FactorSide,
};
use crate::poly::shapes::{lemma_polynomials_are_recognized, polynomial_ast};
use vstd::prelude::*;

verus! {

/// A product of operands that are built alike is compiled to a square, and any other product to a
/// product of what its operands are compiled to.
pub proof fn lemma_products_are_planned<M: Modulus>(plan: EvaluationPlan<M>, ast: Ast<M>)
    requires
        is_compiled(plan, ast),
        ast is Mul,
    ensures
        ast matches Ast::Mul(a, b) && if a.same(*b) {
            plan matches EvaluationPlan::Square(x) && is_compiled(*x, *a)
        } else {
            plan matches EvaluationPlan::Mul(x, y) && is_compiled(*x, *a) && is_compiled(*y, *b)
        },
{
}

/// An expression is a polynomial in one base with one list of coefficients.
proof fn lemma_expanded_unique<M: Modulus>(
    ast: Ast<M>,
    x: Ast<M>,
    y: Ast<M>,
    c: Seq<AstLeaf>,
    d: Seq<AstLeaf>,
)
    requires
        is_expanded(ast, x, c),
        is_expanded(ast, y, d),
    ensures
        x == y,
        c == d,
{
    let terms = sum_terms(ast).unwrap();
    assert forall|i: int| 0 <= i < c.len() implies c[i] == d[i] by {
        assert(is_power_term(terms, x, c[i], i));
        assert(is_power_term(terms, y, d[i], i));
    }
    assert(c =~= d);
    assert(is_power_term(terms, x, c[1], 1));
    assert(is_power_term(terms, y, d[1], 1));
}

/// A polynomial of four coefficients or more is evaluated by Horner's rule, with its coefficients
/// and what its base is compiled to.
pub proof fn lemma_polynomials_are_planned<M: Modulus>(
    plan: EvaluationPlan<M>,
    base: Ast<M>,
    one: Fe<M>,
    zero: Fe<M>,
    coefficients: Seq<AstLeaf>,
)
    requires
        is_compiled(plan, polynomial_ast(base, one, zero, coefficients)),
        one@ == 1,
        zero@ == 0,
        coefficients.len() >= 4,
    ensures
        plan matches EvaluationPlan::Horner { base: x, coefficients: c } && c@ == coefficients
            && is_compiled(*x, base),
{
    let ast = polynomial_ast(base, one, zero, coefficients);
    lemma_polynomials_are_recognized(base, one, zero, coefficients);
    assert(is_expanded(ast, base, coefficients));
    match plan {
        EvaluationPlan::Horner { base: p, coefficients: c } => {
            let x = choose|x: Ast<M>|
                #[trigger] is_expanded(ast, x, c@) && is_compiled(*p, x);
            lemma_expanded_unique(ast, x, base, c@, coefficients);
        },
        _ => {},
    }
}

/// Without selectors there are no runs.
proof fn lemma_no_runs<M: Modulus>(terms: Seq<Ast<M>>, start: int)
    requires
        0 <= start <= terms.len(),
        forall|i: int| 0 <= i < terms.len() ==> selected(#[trigger] terms[i]) is None,
    ensures
        selector_runs(terms, start).len() == 0,
    decreases terms.len() - start,
{
    if start < terms.len() {
        assert(selected(terms[start]) is None);
        lemma_no_runs(terms, start + 1);
    }
}

/// Without runs there are no families.
proof fn lemma_no_families(found: Seq<FoundRun>, families: Seq<SelectorFamilyMatch>)
    requires
        found.len() == 0,
        are_family_matches(found, families),
    ensures
        families.len() == 0,
{
    if families.len() > 0 {
        let family = families[0];
        assert(is_family(found, family.query, family.combination_len, family.runs@));
        assert(root_found(found, family.query, family.combination_len, 1));
        let i = choose|i: int| has_root(found, family.query, family.combination_len, 1, i);
    }
}

proof fn lemma_shared_start<M: Modulus>(
    terms: Seq<Ast<M>>,
    claimed: Seq<bool>,
    start: int,
    end: int,
    side: FactorSide,
)
    requires
        0 <= start < end <= terms.len(),
        forall|i: int| 0 <= i < start ==> !(#[trigger] claimed[i]),
        forall|i: int| 0 <= i < start ==> share_factor(terms[end - 1], #[trigger] terms[i], side),
    ensures
        factor_start(terms, claimed, start, end, side) == 0,
    decreases start,
{
    if start > 0 {
        assert(!claimed[start - 1]);
        assert(share_factor(terms[end - 1], terms[start - 1], side));
        lemma_shared_start(terms, claimed, start - 1, end, side);
    }
}

/// Two or more terms that are products with one left factor, none of which is a selector, are
/// compiled to one piece of work: the factor is evaluated once for all bodies.
pub proof fn lemma_common_factor_is_planned_once<M: Modulus>(
    plan: EvaluationPlan<M>,
    ast: Ast<M>,
    factor: Ast<M>,
)
    requires
        is_compiled(plan, ast),
        ast matches Ast::DistributePowers(terms, base) && terms@.len() >= 2 && forall|i: int|
            0 <= i < terms@.len() ==> (#[trigger] terms@[i] matches Ast::Mul(x, y) && *x == factor
                && selector_of(*x) is None && selector_of(*y) is None),
    ensures
        plan matches EvaluationPlan::DistributePowers { work, base } && work@.len() == 1
            && (work@[0] matches DistributionWork::SharedFactor { factor: f, bodies, power }
            && is_compiled(f, factor)),
{
    match ast {
        Ast::DistributePowers(list, base) => {
            let terms = list@;
            let n = terms.len() as int;
            assert forall|i: int| 0 <= i < n implies selected(#[trigger] terms[i]) is None by {
                assert(terms[i] is Mul);
            }
            lemma_no_runs(terms, 0);
            match plan {
                EvaluationPlan::DistributePowers { work, base: b } => {
                    let families = choose|families: Seq<SelectorFamilyMatch>| #[trigger]
                        are_family_matches(selector_runs(terms, 0), families) && {
                            let rest = spans(
                                terms,
                                family_claims(families, terms.len(), families.len() as int),
                                n,
                            );
                            &&& work@.len() == families.len() + rest.len()
                            &&& forall|w: int|
                                families.len() <= w < work@.len() ==> item_compiled(
                                    #[trigger] work@[w],
                                    rest[w - families.len()],
                                    terms,
                                    base@,
                                )
                        };
                    lemma_no_families(selector_runs(terms, 0), families);
                    let claimed = family_claims(families, terms.len(), 0);
                    factor.lemma_same_reflexive();
                    assert forall|i: int| 0 <= i < n - 1 implies share_factor(
                        terms[n - 1],
                        #[trigger] terms[i],
                        FactorSide::Left,
                    ) by {
                        assert(terms[i] is Mul && terms[n - 1] is Mul);
                    }
                    lemma_shared_start(terms, claimed, n - 1, n, FactorSide::Left);
                    let span = span_before(terms, claimed, n);
                    assert(span.start == 0 && span.side == Some(FactorSide::Left));
                    assert(spans(terms, claimed, 0) =~= Seq::empty());
                    assert(spans(terms, claimed, n) =~= seq![span]);
                    assert(item_compiled(work@[0], span, terms, base@));
                    assert(terms[n - 1] is Mul);
                },
                _ => {},
            }
        },
        _ => {},
    }
}

} // verus!

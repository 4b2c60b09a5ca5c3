//! Which expressions an evaluator accepts, and what looking up a selector gives.
use crate::field::congruence::congruent;
use crate::field::{Fe, Modulus};
use crate::poly::ast::{Ast, AstLeaf, Row};
use crate::poly::basis::{readable_leaves, row_of, Basis, EvaluationDomain};
use crate::poly::evaluator::{
    is_evaluation, is_replaced, lookup, registered, selector_leaves, selectors_hold,
    CompressedSelectorLeaf, Evaluator,
};
use crate::poly::families::{lemma_selector_unique, selector_of};
use crate::poly::recognize::{is_selector, lemma_selector_value};
use vstd::prelude::*;

verus! {

/// The evaluator's polynomials fit the domain: there is one, they have as many rows as the basis,
/// and the registered selectors can be read.
pub open spec fn is_ready<M: Modulus>(
    evaluator: Evaluator<M>,
    domain: EvaluationDomain<M>,
) -> bool {
    &&& evaluator.polys@.len() > 0
    &&& forall|k: int|
        0 <= k < evaluator.polys@.len() ==> (#[trigger] evaluator.polys@[k])@.len()
            == if evaluator.basis == Basis::ExtendedLagrangeCoeff {
            domain.rows() * domain.scale()
        } else {
            domain.rows()
        }
    &&& forall|k: int|
        0 <= k < evaluator.compressed_selectors@.len() ==> can_read(
            evaluator,
            domain,
            (#[trigger] evaluator.compressed_selectors@[k]).selector,
        )
}

/// The leaf can be read: it is one of the polynomials, these are given by values, and in the
/// Lagrange basis the rotation goes at most once around.
pub open spec fn can_read<M: Modulus>(
    evaluator: Evaluator<M>,
    domain: EvaluationDomain<M>,
    leaf: AstLeaf,
) -> bool {
    &&& evaluator.basis != Basis::Coeff
    &&& leaf.index < evaluator.polys@.len()
    &&& evaluator.basis == Basis::LagrangeCoeff ==> -domain.rows() <= leaf.rotation.0
        && leaf.rotation.0 <= domain.rows()
}

/// An evaluator that is ready accepts the leaves that it can read, all constants and degree-one
/// terms, the sums and multiples of what it accepts, and the products too unless the rows are
/// coefficients; it accepts nothing else.
pub proof fn lemma_accepted<M: Modulus>(
    evaluator: Evaluator<M>,
    domain: EvaluationDomain<M>,
    ast: Ast<M>,
)
    ensures
        evaluator.accepts(domain, ast) ==> is_ready(evaluator, domain),
        is_ready(evaluator, domain) ==> match ast {
            Ast::Poly(leaf) => evaluator.accepts(domain, ast) <==> can_read(
                evaluator,
                domain,
                leaf,
            ),
            Ast::Add(a, b) => evaluator.accepts(domain, ast) <==> evaluator.accepts(domain, *a)
                && evaluator.accepts(domain, *b),
            Ast::Mul(a, b) => evaluator.accepts(domain, ast) <==> evaluator.basis != Basis::Coeff
                && evaluator.accepts(domain, *a) && evaluator.accepts(domain, *b),
            Ast::Scale(a, s) => evaluator.accepts(domain, ast) <==> evaluator.accepts(domain, *a),
            Ast::DistributePowers(terms, base) => evaluator.accepts(domain, ast) <==> forall|i: int|
                0 <= i < terms@.len() ==> evaluator.accepts(domain, #[trigger] terms@[i]),
            Ast::LinearTerm(s) => evaluator.accepts(domain, ast),
            Ast::ConstantTerm(s) => evaluator.accepts(domain, ast),
        },
{
    let f = readable_leaves(evaluator.basis, domain, evaluator.polys@.len());
    let selectors = evaluator.compressed_selectors@;
    if is_ready(evaluator, domain) {
        assert(selector_leaves(selectors, f)) by {
            assert forall|k: int| 0 <= k < selectors.len() implies f(
                (#[trigger] selectors[k]).selector,
            ) by {
                assert(can_read(evaluator, domain, evaluator.compressed_selectors@[k].selector));
            }
        }
    }
    if evaluator.accepts(domain, ast) {
        assert forall|k: int| 0 <= k < selectors.len() implies can_read(
            evaluator,
            domain,
            (#[trigger] selectors[k]).selector,
        ) by {
            assert(f(selectors[k].selector));
        }
    }
    match ast {
        Ast::DistributePowers(terms, base) => {
            lemma_all_terms(terms@, f);
            if is_ready(evaluator, domain) {
                assert forall|i: int| 0 <= i < terms@.len() implies (evaluator.accepts(
                    domain,
                    #[trigger] terms@[i],
                ) <==> terms@[i].leaves(f) && (evaluator.basis == Basis::Coeff
                    ==> terms@[i].product_free())) by {}
                if evaluator.accepts(domain, ast) {
                    assert forall|i: int| 0 <= i < terms@.len() implies evaluator.accepts(
                        domain,
                        #[trigger] terms@[i],
                    ) by {
                        assert(terms@[i].leaves(f));
                    }
                }
                if forall|i: int|
                    0 <= i < terms@.len() ==> evaluator.accepts(domain, #[trigger] terms@[i]) {
                    assert(forall|i: int| 0 <= i < terms@.len() ==> (#[trigger] terms@[i]).leaves(f));
                    assert(evaluator.basis == Basis::Coeff ==> forall|i: int|
                        0 <= i < terms@.len() ==> (#[trigger] terms@[i]).product_free());
                }
            }
        },
        _ => {},
    }
}

proof fn lemma_all_terms<M: Modulus>(terms: Seq<Ast<M>>, f: spec_fn(AstLeaf) -> bool)
    ensures
        Ast::terms_leaves(terms, f) <==> forall|i: int|
            0 <= i < terms.len() ==> (#[trigger] terms[i]).leaves(f),
        Ast::terms_product_free(terms) <==> forall|i: int|
            0 <= i < terms.len() ==> (#[trigger] terms[i]).product_free(),
    decreases terms.len(),
{
    if terms.len() > 0 {
        let front = terms.drop_last();
        lemma_all_terms(front, f);
        assert(terms[terms.len() - 1] == terms.last());
        if forall|i: int| 0 <= i < terms.len() ==> (#[trigger] terms[i]).leaves(f) {
            assert forall|i: int| 0 <= i < front.len() implies (#[trigger] front[i]).leaves(f) by {
                assert(terms[i] == front[i]);
            }
        }
        if forall|i: int| 0 <= i < terms.len() ==> (#[trigger] terms[i]).product_free() {
            assert forall|i: int| 0 <= i < front.len() implies (
            #[trigger] front[i]).product_free() by {
                assert(terms[i] == front[i]);
            }
        }
        if Ast::terms_leaves(terms, f) {
            assert forall|i: int| 0 <= i < terms.len() implies (#[trigger] terms[i]).leaves(f) by {
                if i < front.len() {
                    assert(front[i] == terms[i]);
                }
            }
        }
        if Ast::terms_product_free(terms) {
            assert forall|i: int| 0 <= i < terms.len() implies (
            #[trigger] terms[i]).product_free() by {
                if i < front.len() {
                    assert(front[i] == terms[i]);
                }
            }
        }
    }
}

/// A selector is looked up by its query, length and root: the first entry with all three gives
/// the polynomial, and without one there is none.
pub proof fn lemma_first_entry_counts(
    selectors: Seq<CompressedSelectorLeaf>,
    query: AstLeaf,
    len: usize,
    root: usize,
    i: int,
)
    requires
        0 <= i <= selectors.len(),
        forall|k: int|
            0 <= k < i ==> (#[trigger] selectors[k]).query != query || selectors[k].combination_len
                != len || selectors[k].assigned_root != root,
        i < selectors.len() ==> selectors[i].query == query && selectors[i].combination_len == len
            && selectors[i].assigned_root == root,
    ensures
        i == selectors.len() ==> lookup(selectors, query, len, root) is None,
        i < selectors.len() ==> lookup(selectors, query, len, root) == Some(selectors[i].selector),
    decreases selectors.len(),
{
    if selectors.len() > 0 && i > 0 {
        let rest = selectors.drop_first();
        assert(selectors[0].query != query || selectors[0].combination_len != len
            || selectors[0].assigned_root != root);
        assert forall|k: int| 0 <= k < i - 1 implies (#[trigger] rest[k]).query != query
            || rest[k].combination_len != len || rest[k].assigned_root != root by {
            assert(rest[k] == selectors[k + 1]);
        }
        lemma_first_entry_counts(rest, query, len, root, i - 1);
    }
}

/// The registered polynomial of a selector holds at a row exactly where it has the value that the
/// selector itself has there.
pub proof fn lemma_holding_selectors<M: Modulus>(
    entry: CompressedSelectorLeaf,
    selector: Ast<M>,
    row: Row,
)
    requires
        is_selector(
            selector,
            entry.query,
            entry.combination_len as nat,
            entry.assigned_root as nat,
        ),
        row.pointwise(),
    ensures
        entry.holds(row, M::p()) <==> congruent(
            (row.leaf)(entry.selector),
            selector.value(row),
            M::p(),
        ),
{
    lemma_selector_value(
        selector,
        entry.query,
        entry.combination_len as nat,
        entry.assigned_root as nat,
        row,
    );
}

/// All selectors hold exactly where each of them does; without selectors nothing is asked.
pub proof fn lemma_all_selectors_hold(selectors: Seq<CompressedSelectorLeaf>, row: Row, p: int)
    ensures
        selectors_hold(selectors, row, p) <==> forall|i: int|
            0 <= i < selectors.len() ==> (#[trigger] selectors[i]).holds(row, p),
        selectors.len() == 0 ==> selectors_hold(selectors, row, p),
{
}

/// An evaluation has one row for each row of the basis, and every row is the reduced value of the
/// expression there.
pub proof fn lemma_evaluations<M: Modulus>(
    evaluator: Evaluator<M>,
    domain: EvaluationDomain<M>,
    ast: Ast<M>,
    r: Seq<Fe<M>>,
)
    ensures
        is_evaluation(evaluator, domain, ast, r) <==> r.len() == (if evaluator.basis
            == Basis::ExtendedLagrangeCoeff {
            domain.rows() * domain.scale()
        } else {
            domain.rows()
        }) && forall|i: int|
            0 <= i < r.len() ==> (#[trigger] r[i])@ == ast.value(
                row_of(evaluator.basis, domain, evaluator.polys@, i),
            ) % M::p(),
{
}

/// A registered selector is replaced by its polynomial; of everything else the parts are replaced,
/// and what has no parts stays.
pub proof fn lemma_replaced_parts<M: Modulus>(
    selectors: Seq<CompressedSelectorLeaf>,
    ast: Ast<M>,
    r: Ast<M>,
)
    requires
        is_replaced(selectors, ast, r),
    ensures
        forall|query: AstLeaf, len: usize, root: usize, leaf: AstLeaf|
            #[trigger] is_selector(ast, query, len as nat, root as nat) && #[trigger] is_entry(
                selectors,
                query,
                len,
                root,
                leaf,
            ) ==> r == Ast::<M>::Poly(leaf),
        (forall|query: AstLeaf, len: usize, root: usize| #[trigger]
            is_selector(ast, query, len as nat, root as nat) ==> lookup(
                selectors,
                query,
                len,
                root,
            ) is None) ==> match ast {
            Ast::Add(a, b) => r matches Ast::Add(c, d) && is_replaced(selectors, *a, *c)
                && is_replaced(selectors, *b, *d),
            Ast::Mul(a, b) => r matches Ast::Mul(c, d) && is_replaced(selectors, *a, *c)
                && is_replaced(selectors, *b, *d),
            Ast::Scale(a, s) => r matches Ast::Scale(c, t) && s == t && is_replaced(
                selectors,
                *a,
                *c,
            ),
            Ast::DistributePowers(a, s) => r matches Ast::DistributePowers(b, t) && s == t
                && a@.len() == b@.len() && forall|i: int|
                0 <= i < a@.len() ==> is_replaced(selectors, #[trigger] a@[i], b@[i]),
            _ => r == ast,
        },
{
    assert forall|query: AstLeaf, len: usize, root: usize, leaf: AstLeaf|
        #[trigger] is_selector(ast, query, len as nat, root as nat) && #[trigger] is_entry(
            selectors,
            query,
            len,
            root,
            leaf,
        ) implies r == Ast::<M>::Poly(leaf) by {
        lemma_selector_unique(ast, query, len, root);
    }
    if forall|query: AstLeaf, len: usize, root: usize| #[trigger]
        is_selector(ast, query, len as nat, root as nat) ==> lookup(
            selectors,
            query,
            len,
            root,
        ) is None {
        assert(registered(selectors, ast) is None) by {
            if selector_of(ast) is Some {
                let (query, len, root) = selector_of(ast).unwrap();
                assert(is_selector(ast, query, len as nat, root as nat));
            }
        }
    }
}

/// The polynomial is found for the selector.
pub open spec fn is_entry(
    selectors: Seq<CompressedSelectorLeaf>,
    query: AstLeaf,
    len: usize,
    root: usize,
    leaf: AstLeaf,
) -> bool {
    lookup(selectors, query, len, root) == Some(leaf)
}

} // verus!

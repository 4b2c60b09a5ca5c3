//! Selector families that are found: one product for each selector of a combination makes a
//! complete family.
use crate::field::Modulus;
use crate::poly::ast::{target, Ast, AstLeaf};
use crate::poly::families::{
    has_root, is_complete, lemma_selector_unique, root_found, run_end, selected, selector_runs,
};
use crate::poly::recognize::{
    difference, has_factor, is_selector, roots_without, selector_parts, FactorSide,
};
use vstd::prelude::*;

verus! {

/// Expressions built alike are products of the same selector factors.
proof fn lemma_same_parts<M: Modulus>(a: Ast<M>, b: Ast<M>)
    requires
        a.same(b),
    ensures
        selector_parts(a) == selector_parts(b),
    decreases a,
{
    match (a, b) {
        (Ast::Mul(x, y), Ast::Mul(u, v)) => {
            lemma_same_parts(target(x), target(u));
            lemma_same_difference(target(y), target(v));
        },
        _ => {},
    }
}

proof fn lemma_same_difference<M: Modulus>(a: Ast<M>, b: Ast<M>)
    requires
        a.same(b),
    ensures
        difference(a) == difference(b),
{
    reveal_with_fuel(Ast::same, 4);
}

/// The terms are the selectors of one combination from the root `k + 1` on, each times a body.
pub open spec fn are_selected<M: Modulus>(
    terms: Seq<Ast<M>>,
    query: AstLeaf,
    len: usize,
    factors: Seq<Ast<M>>,
    bodies: Seq<Ast<M>>,
) -> bool {
    &&& terms.len() == len
    &&& factors.len() == len
    &&& bodies.len() == len
    &&& forall|k: int|
        0 <= k < len ==> (#[trigger] terms[k] matches Ast::Mul(x, y) && *x == factors[k] && *y
            == bodies[k])
    &&& forall|k: int|
        0 <= k < len ==> is_selector(#[trigger] factors[k], query, len as nat, (k + 1) as nat)
}

/// The scan finds one run for each of the terms.
proof fn lemma_runs_of_family<M: Modulus>(
    terms: Seq<Ast<M>>,
    query: AstLeaf,
    len: usize,
    factors: Seq<Ast<M>>,
    bodies: Seq<Ast<M>>,
    start: int,
)
    requires
        are_selected(terms, query, len, factors, bodies),
        0 <= start <= len,
    ensures
        selector_runs(terms, start).len() == len - start,
        forall|i: int|
            0 <= i < len - start ==> {
                let found = #[trigger] selector_runs(terms, start)[i];
                &&& found.query == query
                &&& found.combination_len == len
                &&& found.run.assigned_root == start + i + 1
                &&& found.run.start == start + i
                &&& found.run.end == start + i + 1
                &&& found.run.side == FactorSide::Left
            },
    decreases len - start,
{
    if start < len {
        let factor = factors[start];
        let root = (start + 1) as usize;
        assert(terms[start] is Mul);
        assert(is_selector(factor, query, len as nat, (start + 1) as nat));
        lemma_selector_unique(factor, query, len, root);
        assert(selected(terms[start]) == Some((FactorSide::Left, factor, (query, len, root))));
        // The next term has another selector, so that the run ends before it.
        if start + 1 < len {
            let next = factors[start + 1];
            assert(terms[start + 1] is Mul);
            assert(is_selector(next, query, len as nat, (start + 2) as nat));
            if factor.same(next) {
                lemma_same_parts(factor, next);
                let (a, b) = (
                    roots_without(len as nat, (start + 1) as nat),
                    roots_without(len as nat, (start + 2) as nat),
                );
                assert(a[start] == start + 2 && b[start] == start + 1);
            }
            assert(!has_factor(terms[start + 1], factor, FactorSide::Left));
        }
        assert(run_end(terms, factor, FactorSide::Left, start + 1) == start + 1);
        lemma_runs_of_family(terms, query, len, factors, bodies, start + 1);
        let rest = selector_runs(terms, start + 1);
        assert(selector_runs(terms, start).drop_first() =~= rest);
        assert forall|i: int| 0 <= i < len - start implies {
            let found = #[trigger] selector_runs(terms, start)[i];
            &&& found.query == query
            &&& found.combination_len == len
            &&& found.run.assigned_root == start + i + 1
            &&& found.run.start == start + i
            &&& found.run.end == start + i + 1
            &&& found.run.side == FactorSide::Left
        } by {
            if i > 0 {
                assert(selector_runs(terms, start)[i] == rest[i - 1]);
            }
        }
    }
}

/// The products of all selectors of a combination with any bodies make a complete family, with
/// one run of one term for each root.
pub proof fn lemma_families_are_found<M: Modulus>(
    terms: Seq<Ast<M>>,
    query: AstLeaf,
    len: usize,
    factors: Seq<Ast<M>>,
    bodies: Seq<Ast<M>>,
)
    requires
        are_selected(terms, query, len, factors, bodies),
    ensures
        is_complete(selector_runs(terms, 0), query, len),
        selector_runs(terms, 0).len() == len,
        forall|k: int|
            0 <= k < len ==> (#[trigger] selector_runs(terms, 0)[k]).run.start == k
                && selector_runs(terms, 0)[k].run.end == k + 1 && selector_runs(
                terms,
                0,
            )[k].run.assigned_root == k + 1,
{
    lemma_runs_of_family(terms, query, len, factors, bodies, 0);
    let found = selector_runs(terms, 0);
    assert forall|root: int| 1 <= root <= len implies #[trigger] root_found(
        found,
        query,
        len,
        root,
    ) by {
        assert(found[root - 1].run.assigned_root == root);
        assert(has_root(found, query, len, root, root - 1));
    }
}

} // verus!

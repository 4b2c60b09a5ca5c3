//! Evaluation of expressions over registered polynomials.
use crate::field::congruence::{congruent, lemma_congruent_ops};
use crate::field::{Fe, Modulus};
use crate::poly::assemble::implements;
use crate::poly::ast::{target, Ast, AstLeaf, Rotation, Row};
use crate::poly::basis::{readable_leaves, row_of, Basis, EvaluationDomain};
use crate::poly::buffers::all_sized;
use crate::poly::cse::computes;
use crate::poly::families::{lemma_selector_unique, selector_of};
use crate::poly::plan::EvaluationPlan;
use crate::poly::recognize::{
    compressed_selector, is_selector, lemma_selector_value, product_without, roots_without,
};
use crate::poly::run::{column, is_result, ChunkContext};
use std::sync::Arc;
use crate::threads::current_num_threads;
use vstd::prelude::*;

verus! {

/// The size of the chunks that a polynomial is evaluated in, and their number: four chunks for
/// each thread, so that a thread that comes late finds work left.
pub fn get_chunk_params(poly_len: usize, num_threads: usize) -> (r: (usize, usize))
    requires
        0 < poly_len,
        0 < num_threads,
        poly_len + 4 * num_threads - 1 <= usize::MAX,
        poly_len + (poly_len + 4 * num_threads - 1) / (4 * num_threads) - 1 <= usize::MAX,
    ensures
        r.0 == (poly_len + 4 * num_threads - 1) / (4 * num_threads),
        r.1 == (poly_len + r.0 - 1) / (r.0 as int),
        0 < r.0 <= poly_len,
        r.0 * (r.1 - 1) < poly_len <= r.0 * r.1,
{
    let num_chunks: usize = num_threads * 4;
    let chunk_size: usize = (poly_len + (num_chunks - 1)) / num_chunks;
    proof {
        let (n, c) = ((poly_len + num_chunks - 1) as int, num_chunks as int);
        vstd::arithmetic::div_mod::lemma_fundamental_div_mod(n, c);
        vstd::arithmetic::div_mod::lemma_mod_bound(n, c);
        let q = n / c;
        assert(q >= 1) by (nonlinear_arith)
            requires
                n == c * q + n % c,
                0 <= n % c < c,
                n >= c,
                c > 0,
        ;
        assert(q <= poly_len) by (nonlinear_arith)
            requires
                n == c * q + n % c,
                0 <= n % c,
                n == poly_len + c - 1,
                c >= 1,
                poly_len >= 1,
        ;
        let m = poly_len + q - 1;
        vstd::arithmetic::div_mod::lemma_fundamental_div_mod(m, q);
        vstd::arithmetic::div_mod::lemma_mod_bound(m, q);
        let k = m / q;
        assert(q * (k - 1) == q * k - q) by (nonlinear_arith);
    }
    let num_chunks: usize = (poly_len + (chunk_size - 1)) / chunk_size;
    (chunk_size, num_chunks)
}

/// A polynomial that holds the values of a compressed selector.
#[derive(Clone, Copy, Debug, PartialEq, Eq, Structural)]
pub struct CompressedSelectorLeaf {
    /// The query of the selector.
    pub query: AstLeaf,
    /// The number of selectors in its combination.
    pub combination_len: usize,
    /// The root of the selector.
    pub assigned_root: usize,
    /// The polynomial with its values.
    pub selector: AstLeaf,
}

impl CompressedSelectorLeaf {
    /// The entry is the one of the given selector.
    pub open spec fn is_for(self, query: AstLeaf, len: usize, root: usize) -> bool {
        self.query == query && self.combination_len == len && self.assigned_root == root
    }

    /// The polynomial has the value of the selector at a row.
    pub open spec fn holds(self, row: Row, p: int) -> bool {
        let q = (row.leaf)(self.query);
        congruent(
            (row.leaf)(self.selector),
            q * product_without(self.combination_len as int, self.assigned_root as int, q, p),
            p,
        )
    }
}

/// The polynomial of the first entry for a selector.
pub open spec fn lookup(
    selectors: Seq<CompressedSelectorLeaf>,
    query: AstLeaf,
    len: usize,
    root: usize,
) -> Option<AstLeaf>
    decreases selectors.len(),
{
    if selectors.len() == 0 {
        None
    } else if selectors.first().is_for(query, len, root) {
        Some(selectors.first().selector)
    } else {
        lookup(selectors.drop_first(), query, len, root)
    }
}

/// The polynomial registered for an expression, if it is a selector.
pub open spec fn registered<M: Modulus>(
    selectors: Seq<CompressedSelectorLeaf>,
    ast: Ast<M>,
) -> Option<AstLeaf> {
    match selector_of(ast) {
        Some((query, len, root)) => lookup(selectors, query, len, root),
        None => None,
    }
}

/// `r` is the expression with every registered selector replaced by its polynomial.
pub open spec fn is_replaced<M: Modulus>(
    selectors: Seq<CompressedSelectorLeaf>,
    ast: Ast<M>,
    r: Ast<M>,
) -> bool
    decreases ast,
{
    match registered(selectors, ast) {
        Some(leaf) => r == Ast::<M>::Poly(leaf),
        None => match (ast, r) {
            (Ast::Add(a, b), Ast::Add(c, d)) => is_replaced(selectors, *a, *c) && is_replaced(
                selectors,
                *b,
                *d,
            ),
            (Ast::Mul(a, b), Ast::Mul(c, d)) => is_replaced(selectors, *a, *c) && is_replaced(
                selectors,
                *b,
                *d,
            ),
            (Ast::Scale(a, s), Ast::Scale(b, t)) => s == t && is_replaced(selectors, *a, *b),
            (Ast::DistributePowers(a, s), Ast::DistributePowers(b, t)) => {
                &&& s == t
                &&& a@.len() == b@.len()
                &&& forall|i: int|
                    0 <= i < a@.len() ==> is_replaced(selectors, #[trigger] a@[i], b@[i])
            },
            (Ast::Poly(a), Ast::Poly(b)) => a == b,
            (Ast::LinearTerm(s), Ast::LinearTerm(t)) => s == t,
            (Ast::ConstantTerm(s), Ast::ConstantTerm(t)) => s == t,
            _ => false,
        },
    }
}

/// Every registered polynomial has the value of its selector at a row.
pub open spec fn selectors_hold(selectors: Seq<CompressedSelectorLeaf>, row: Row, p: int) -> bool {
    forall|i: int| 0 <= i < selectors.len() ==> (#[trigger] selectors[i]).holds(row, p)
}

/// Every registered polynomial satisfies a predicate.
pub open spec fn selector_leaves(
    selectors: Seq<CompressedSelectorLeaf>,
    f: spec_fn(AstLeaf) -> bool,
) -> bool {
    forall|i: int| 0 <= i < selectors.len() ==> f((#[trigger] selectors[i]).selector)
}

proof fn lemma_lookup(
    selectors: Seq<CompressedSelectorLeaf>,
    query: AstLeaf,
    len: usize,
    root: usize,
) -> (i: int)
    requires
        lookup(selectors, query, len, root) is Some,
    ensures
        0 <= i < selectors.len(),
        selectors[i].is_for(query, len, root),
        lookup(selectors, query, len, root) == Some(selectors[i].selector),
    decreases selectors.len(),
{
    if selectors.first().is_for(query, len, root) {
        0
    } else {
        lemma_lookup(selectors.drop_first(), query, len, root) + 1
    }
}

/// Replacing selectors by polynomials that have their values keeps the value of an expression.
pub proof fn lemma_replaced_value<M: Modulus>(
    selectors: Seq<CompressedSelectorLeaf>,
    ast: Ast<M>,
    r: Ast<M>,
    row: Row,
)
    requires
        is_replaced(selectors, ast, r),
        ast.fits(row),
        selectors_hold(selectors, row, M::p()),
    ensures
        congruent(r.value(row), ast.value(row), M::p()),
        r.fits(row),
    decreases ast,
{
    M::lemma_modulus();
    let p = M::p();
    match registered(selectors, ast) {
        Some(leaf) => {
            let (q, l, a) = selector_of(ast).unwrap();
            assert(is_selector(ast, q, l as nat, a as nat));
            let i = lemma_lookup(selectors, q, l, a);
            assert(roots_without(l as nat, a as nat).len() == l - 1);
            assert(!ast.product_free());
            lemma_selector_value(ast, q, l as nat, a as nat, row);
            assert(selectors[i].holds(row, p));
        },
        None => match (ast, r) {
            (Ast::Add(a, b), Ast::Add(c, d)) => {
                lemma_replaced_value(selectors, target(a), target(c), row);
                lemma_replaced_value(selectors, target(b), target(d), row);
                lemma_congruent_ops(
                    target(c).value(row),
                    target(a).value(row),
                    target(d).value(row),
                    target(b).value(row),
                    p,
                );
            },
            (Ast::Mul(a, b), Ast::Mul(c, d)) => {
                lemma_replaced_value(selectors, target(a), target(c), row);
                lemma_replaced_value(selectors, target(b), target(d), row);
                lemma_congruent_ops(
                    target(c).value(row),
                    target(a).value(row),
                    target(d).value(row),
                    target(b).value(row),
                    p,
                );
            },
            (Ast::Scale(a, s), Ast::Scale(b, t)) => {
                lemma_replaced_value(selectors, target(a), target(b), row);
                lemma_congruent_ops(target(b).value(row), target(a).value(row), s@, s@, p);
            },
            (Ast::DistributePowers(a, s), Ast::DistributePowers(b, t)) => {
                lemma_replaced_terms(selectors, a@, b@, s@, row);
            },
            _ => {},
        },
    }
}

proof fn lemma_replaced_terms<M: Modulus>(
    selectors: Seq<CompressedSelectorLeaf>,
    a: Seq<Ast<M>>,
    b: Seq<Ast<M>>,
    base: int,
    row: Row,
)
    requires
        a.len() == b.len(),
        forall|i: int| 0 <= i < a.len() ==> is_replaced(selectors, #[trigger] a[i], b[i]),
        row.zero_constant(),
        row.pointwise() || Ast::terms_product_free(a),
        selectors_hold(selectors, row, M::p()),
    ensures
        congruent(Ast::terms_value(b, base, row), Ast::terms_value(a, base, row), M::p()),
        row.pointwise() || Ast::terms_product_free(b),
    decreases a,
{
    M::lemma_modulus();
    let p = M::p();
    if a.len() > 0 {
        assert forall|i: int| 0 <= i < a.drop_last().len() implies is_replaced(
            selectors,
            #[trigger] a.drop_last()[i],
            b.drop_last()[i],
        ) by {
            assert(is_replaced(selectors, a[i], b[i]));
        }
        lemma_replaced_terms(selectors, a.drop_last(), b.drop_last(), base, row);
        assert(is_replaced(selectors, a[a.len() - 1], b[a.len() - 1]));
        lemma_replaced_value(selectors, a.last(), b.last(), row);
        let (x, y) = (
            Ast::terms_value(b.drop_last(), base, row),
            Ast::terms_value(a.drop_last(), base, row),
        );
        lemma_congruent_ops(x, y, base, base, p);
        lemma_congruent_ops(x * base, y * base, b.last().value(row), a.last().value(row), p);
    }
}

/// Two expressions that replace the selectors of one expression have the same values.
proof fn lemma_replaced_alike<M: Modulus>(
    selectors: Seq<CompressedSelectorLeaf>,
    ast: Ast<M>,
    a: Ast<M>,
    b: Ast<M>,
    row: Row,
)
    requires
        is_replaced(selectors, ast, a),
        is_replaced(selectors, ast, b),
    ensures
        a.value(row) == b.value(row),
    decreases ast,
{
    if registered(selectors, ast) is None {
        match (ast, a, b) {
            (Ast::Add(x, y), Ast::Add(c, d), Ast::Add(e, f)) => {
                lemma_replaced_alike(selectors, target(x), target(c), target(e), row);
                lemma_replaced_alike(selectors, target(y), target(d), target(f), row);
            },
            (Ast::Mul(x, y), Ast::Mul(c, d), Ast::Mul(e, f)) => {
                lemma_replaced_alike(selectors, target(x), target(c), target(e), row);
                lemma_replaced_alike(selectors, target(y), target(d), target(f), row);
            },
            (Ast::Scale(x, s), Ast::Scale(c, t), Ast::Scale(e, u)) => {
                lemma_replaced_alike(selectors, target(x), target(c), target(e), row);
            },
            (
                Ast::DistributePowers(x, s),
                Ast::DistributePowers(c, t),
                Ast::DistributePowers(e, u),
            ) => {
                lemma_terms_alike(selectors, x@, c@, e@, s@, row);
            },
            _ => {},
        }
    }
}

proof fn lemma_terms_alike<M: Modulus>(
    selectors: Seq<CompressedSelectorLeaf>,
    terms: Seq<Ast<M>>,
    a: Seq<Ast<M>>,
    b: Seq<Ast<M>>,
    base: int,
    row: Row,
)
    requires
        a.len() == terms.len(),
        b.len() == terms.len(),
        forall|i: int| 0 <= i < terms.len() ==> is_replaced(selectors, #[trigger] terms[i], a[i]),
        forall|i: int| 0 <= i < terms.len() ==> is_replaced(selectors, #[trigger] terms[i], b[i]),
    ensures
        Ast::terms_value(a, base, row) == Ast::terms_value(b, base, row),
    decreases terms,
{
    if terms.len() > 0 {
        let init = terms.drop_last();
        assert forall|i: int| 0 <= i < init.len() implies is_replaced(
            selectors,
            #[trigger] init[i],
            a.drop_last()[i],
        ) && is_replaced(selectors, init[i], b.drop_last()[i]) by {
            assert(is_replaced(selectors, terms[i], a[i]));
        }
        lemma_terms_alike(selectors, init, a.drop_last(), b.drop_last(), base, row);
        assert(is_replaced(selectors, terms[terms.len() - 1], a[terms.len() - 1]));
        lemma_replaced_alike(selectors, terms.last(), a.last(), b.last(), row);
    }
}

/// `r` is what an evaluator gives for an expression.
pub open spec fn is_result_of<M: Modulus>(
    evaluator: Evaluator<M>,
    domain: EvaluationDomain<M>,
    ast: Ast<M>,
    r: Seq<Fe<M>>,
) -> bool {
    exists|t: Ast<M>| #[trigger]
        is_replaced(evaluator.compressed_selectors@, ast, t) && is_evaluation(
            evaluator,
            domain,
            t,
            r,
        )
}

/// The result of an evaluation depends on the expression and the polynomials alone: any two
/// evaluations give the same values, whatever the numbers of threads.
pub proof fn lemma_result_unique<M: Modulus>(
    evaluator: Evaluator<M>,
    domain: EvaluationDomain<M>,
    ast: Ast<M>,
    a: Seq<Fe<M>>,
    b: Seq<Fe<M>>,
)
    requires
        is_result_of(evaluator, domain, ast, a),
        is_result_of(evaluator, domain, ast, b),
    ensures
        a.len() == b.len(),
        forall|i: int| 0 <= i < a.len() ==> (#[trigger] a[i])@ == b[i]@,
{
    let selectors = evaluator.compressed_selectors@;
    let t = choose|t: Ast<M>| #[trigger]
        is_replaced(selectors, ast, t) && is_evaluation(evaluator, domain, t, a);
    let u = choose|u: Ast<M>| #[trigger]
        is_replaced(selectors, ast, u) && is_evaluation(evaluator, domain, u, b);
    assert forall|i: int| 0 <= i < a.len() implies (#[trigger] a[i])@ == b[i]@ by {
        lemma_replaced_alike(selectors, ast, t, u, evaluator.row(domain, i));
        assert(b[i]@ == u.value(evaluator.row(domain, i)) % M::p());
    }
}

/// Replacing selectors brings in no leaves but the registered polynomials.
proof fn lemma_replaced_leaves<M: Modulus>(
    selectors: Seq<CompressedSelectorLeaf>,
    ast: Ast<M>,
    r: Ast<M>,
    f: spec_fn(AstLeaf) -> bool,
)
    requires
        is_replaced(selectors, ast, r),
        ast.leaves(f),
        selector_leaves(selectors, f),
    ensures
        r.leaves(f),
    decreases ast,
{
    match registered(selectors, ast) {
        Some(leaf) => {
            let (q, l, a) = selector_of(ast).unwrap();
            let i = lemma_lookup(selectors, q, l, a);
            assert(f(selectors[i].selector));
        },
        None => match (ast, r) {
            (Ast::Add(a, b), Ast::Add(c, d)) => {
                lemma_replaced_leaves(selectors, target(a), target(c), f);
                lemma_replaced_leaves(selectors, target(b), target(d), f);
            },
            (Ast::Mul(a, b), Ast::Mul(c, d)) => {
                lemma_replaced_leaves(selectors, target(a), target(c), f);
                lemma_replaced_leaves(selectors, target(b), target(d), f);
            },
            (Ast::Scale(a, s), Ast::Scale(b, t)) => {
                lemma_replaced_leaves(selectors, target(a), target(b), f);
            },
            (Ast::DistributePowers(a, s), Ast::DistributePowers(b, t)) => {
                lemma_replaced_terms_leaves(selectors, a@, b@, f);
            },
            _ => {},
        },
    }
}

proof fn lemma_replaced_terms_leaves<M: Modulus>(
    selectors: Seq<CompressedSelectorLeaf>,
    a: Seq<Ast<M>>,
    b: Seq<Ast<M>>,
    f: spec_fn(AstLeaf) -> bool,
)
    requires
        a.len() == b.len(),
        forall|i: int| 0 <= i < a.len() ==> is_replaced(selectors, #[trigger] a[i], b[i]),
        Ast::terms_leaves(a, f),
        selector_leaves(selectors, f),
    ensures
        Ast::terms_leaves(b, f),
    decreases a,
{
    if a.len() > 0 {
        assert forall|i: int| 0 <= i < a.drop_last().len() implies is_replaced(
            selectors,
            #[trigger] a.drop_last()[i],
            b.drop_last()[i],
        ) by {
            assert(is_replaced(selectors, a[i], b[i]));
        }
        lemma_replaced_terms_leaves(selectors, a.drop_last(), b.drop_last(), f);
        assert(is_replaced(selectors, a[a.len() - 1], b[a.len() - 1]));
        lemma_replaced_leaves(selectors, a.last(), b.last(), f);
    }
}

/// Polynomials in one basis, against which expressions are evaluated.
#[derive(Debug)]
pub struct Evaluator<M: Modulus> {
    /// The basis of the polynomials.
    pub basis: Basis,
    /// The registered polynomials.
    pub polys: Vec<Vec<Fe<M>>>,
    /// The polynomials that hold compressed selectors.
    pub compressed_selectors: Vec<CompressedSelectorLeaf>,
}

/// An evaluator without polynomials.
pub fn new_evaluator<M: Modulus>(basis: Basis) -> (r: Evaluator<M>)
    ensures
        r.basis == basis,
        r.polys@.len() == 0,
        r.compressed_selectors@.len() == 0,
{
    Evaluator { basis, polys: Vec::new(), compressed_selectors: Vec::new() }
}

impl<M: Modulus> Evaluator<M> {
    /// What an expression reads at a row.
    pub open spec fn row(self, domain: EvaluationDomain<M>, r: int) -> Row {
        row_of(self.basis, domain, self.polys@, r)
    }

    /// The expression can be evaluated: there is a polynomial, all have the length of the basis,
    /// every leaf can be read, and in the standard basis nothing is multiplied.
    pub open spec fn accepts(self, domain: EvaluationDomain<M>, ast: Ast<M>) -> bool {
        &&& self.polys@.len() > 0
        &&& forall|k: int|
            0 <= k < self.polys@.len() ==> (#[trigger] self.polys@[k])@.len() == domain.basis_len(
                self.basis,
            )
        &&& ast.leaves(readable_leaves(self.basis, domain, self.polys@.len()))
        &&& selector_leaves(
            self.compressed_selectors@,
            readable_leaves(self.basis, domain, self.polys@.len()),
        )
        &&& self.basis == Basis::Coeff ==> ast.product_free()
    }

    /// Registers a polynomial; the same polynomial registered twice counts as two.
    pub fn register_poly(&mut self, poly: Vec<Fe<M>>) -> (r: AstLeaf)
        ensures
            r.index == old(self).polys@.len(),
            r.rotation.0 == 0,
            final(self).polys@ == old(self).polys@.push(poly),
            final(self).basis == old(self).basis,
            final(self).compressed_selectors@ == old(self).compressed_selectors@,
    {
        let index = self.polys.len();
        self.polys.push(poly);
        AstLeaf { index, rotation: Rotation::cur() }
    }

    /// Registers the polynomial that holds a compressed selector.
    pub fn register_compressed_selector(
        &mut self,
        query: AstLeaf,
        combination_len: usize,
        assigned_root: usize,
        selector: AstLeaf,
    )
        ensures
            final(self).compressed_selectors@ == old(self).compressed_selectors@.push(
                (CompressedSelectorLeaf { query, combination_len, assigned_root, selector }),
            ),
            final(self).polys@ == old(self).polys@,
            final(self).basis == old(self).basis,
    {
        self.compressed_selectors.push(
            CompressedSelectorLeaf { query, combination_len, assigned_root, selector },
        );
    }

    fn find_selector(&self, query: AstLeaf, len: usize, root: usize) -> (r: Option<AstLeaf>)
        ensures
            r == lookup(self.compressed_selectors@, query, len, root),
    {
        let ghost all = self.compressed_selectors@;
        let mut i: usize = 0;
        assert(all.skip(0) =~= all);
        while i < self.compressed_selectors.len()
            invariant
                i <= all.len(),
                all == self.compressed_selectors@,
                lookup(all, query, len, root) == lookup(all.skip(i as int), query, len, root),
            decreases all.len() - i,
        {
            let entry = self.compressed_selectors[i];
            proof {
                assert(all.skip(i as int).first() == entry);
                assert(all.skip(i as int).drop_first() =~= all.skip(i + 1));
            }
            if entry.query == query && entry.combination_len == len && entry.assigned_root == root {
                return Some(entry.selector);
            }
            i += 1;
        }
        None
    }

    /// The expression with every registered selector replaced by its polynomial.
    pub fn replace_compressed_selectors(&self, ast: &Ast<M>) -> (r: Ast<M>)
        ensures
            is_replaced(self.compressed_selectors@, *ast, r),
        decreases ast,
    {
        let one = Fe::<M>::one();
        proof {
            M::lemma_modulus();
            vstd::arithmetic::div_mod::lemma_small_mod((M::p() - 1) as nat, M::p() as nat);
            vstd::arithmetic::div_mod::lemma_mod_add_multiples_vanish(-1, M::p());
        }
        match compressed_selector(ast, one.neg()) {
            Some((query, combination_len, assigned_root)) => {
                proof {
                    lemma_selector_unique(*ast, query, combination_len, assigned_root);
                }
                if let Some(leaf) = self.find_selector(query, combination_len, assigned_root) {
                    return Ast::Poly(leaf);
                }
            },
            None => {},
        }
        match ast {
            Ast::Poly(leaf) => Ast::Poly(*leaf),
            Ast::Add(lhs, rhs) => Ast::Add(
                Arc::new(self.replace_compressed_selectors(lhs)),
                Arc::new(self.replace_compressed_selectors(rhs)),
            ),
            Ast::Mul(lhs, rhs) => Ast::Mul(
                Arc::new(self.replace_compressed_selectors(lhs)),
                Arc::new(self.replace_compressed_selectors(rhs)),
            ),
            Ast::Scale(inner, scalar) => Ast::Scale(
                Arc::new(self.replace_compressed_selectors(inner)),
                *scalar,
            ),
            Ast::DistributePowers(terms, base) => Ast::DistributePowers(
                Arc::new(self.replace_terms(terms)),
                *base,
            ),
            Ast::LinearTerm(value) => Ast::LinearTerm(*value),
            Ast::ConstantTerm(value) => Ast::ConstantTerm(*value),
        }
    }

    fn replace_terms(&self, terms: &Vec<Ast<M>>) -> (r: Vec<Ast<M>>)
        ensures
            r@.len() == terms@.len(),
            forall|i: int|
                0 <= i < r@.len() ==> is_replaced(
                    self.compressed_selectors@,
                    #[trigger] terms@[i],
                    r@[i],
                ),
        decreases terms@,
    {
        let mut r: Vec<Ast<M>> = Vec::new();
        let mut i: usize = 0;
        while i < terms.len()
            invariant
                i <= terms@.len(),
                r@.len() == i,
                forall|k: int|
                    0 <= k < i ==> is_replaced(
                        self.compressed_selectors@,
                        #[trigger] terms@[k],
                        r@[k],
                    ),
            decreases terms@.len() - i,
        {
            r.push(self.replace_compressed_selectors(&terms[i]));
            i += 1;
        }
        r
    }

    /// Evaluates an expression at every row.
    ///
    /// The value at a row is that of the expression with the registered selectors replaced by
    /// their polynomials, which is the value of the expression itself wherever these polynomials
    /// have the values of their selectors.
    pub fn evaluate(&self, ast: &Ast<M>, domain: &EvaluationDomain<M>) -> (r: Vec<Fe<M>>)
        requires
            self.accepts(*domain, *ast),
        ensures
            r@.len() == domain.basis_len(self.basis),
            is_result_of(*self, *domain, *ast, r@),
            forall|i: int|
                0 <= i < r@.len() && selectors_hold(
                    self.compressed_selectors@,
                    self.row(*domain, i),
                    M::p(),
                ) ==> (#[trigger] r@[i])@ == ast.value(self.row(*domain, i)) % M::p(),
    {
        let threads = current_num_threads();
        // The number of chunks does not show in the result.
        let threads = if threads == 0 || threads > 0x1000 {
            1
        } else {
            threads
        };
        self.evaluate_with_threads(ast, domain, threads)
    }

    /// Evaluates an expression at every row, in the chunks for the given number of threads.
    pub fn evaluate_with_threads(
        &self,
        ast: &Ast<M>,
        domain: &EvaluationDomain<M>,
        num_threads: usize,
    ) -> (r: Vec<Fe<M>>)
        requires
            self.accepts(*domain, *ast),
            0 < num_threads <= 0x1000_0000,
        ensures
            r@.len() == domain.basis_len(self.basis),
            is_result_of(*self, *domain, *ast, r@),
            forall|i: int|
                0 <= i < r@.len() && selectors_hold(
                    self.compressed_selectors@,
                    self.row(*domain, i),
                    M::p(),
                ) ==> (#[trigger] r@[i])@ == ast.value(self.row(*domain, i)) % M::p(),
    {
        let poly_len = domain.len(self.basis);
        assert(usize::MAX == 0xffff_ffff || usize::MAX == 0xffff_ffff_ffff_ffff);
        let (chunk_size, _) = get_chunk_params(poly_len, num_threads);
        let ghost f = readable_leaves(self.basis, *domain, self.polys@.len());
        let replaced = self.replace_compressed_selectors(ast);
        let mut plan = EvaluationPlan::compile(&replaced);
        let ghost compiled = plan;
        let cache_slots = plan.cache_common_subexpressions();
        let scratch_slots = plan.required_scratch_slots();
        proof {
            lemma_replaced_leaves(self.compressed_selectors@, *ast, replaced, f);
            assert(compiled.sound(f, 0));
            assert(plan.sound(f, cache_slots as nat));
            self.lemma_replaced_fits(*domain, *ast, replaced);
        }
        let mut result: Vec<Fe<M>> = Vec::new();
        let mut start: usize = 0;
        while start < poly_len
            invariant
                start <= poly_len,
                poly_len == domain.basis_len(self.basis),
                0 < chunk_size <= poly_len,
                self.accepts(*domain, *ast),
                f == readable_leaves(self.basis, *domain, self.polys@.len()),
                plan.sound(f, cache_slots as nat),
                computes(plan, compiled, cache_slots as nat),
                implements(compiled, replaced),
                forall|i: int| 0 <= i < poly_len ==> replaced.fits(#[trigger] self.row(*domain, i)),
                result@.len() == start,
                forall|i: int|
                    0 <= i < start ==> (#[trigger] result@[i])@ == replaced.value(
                        self.row(*domain, i),
                    ) % M::p(),
            decreases poly_len - start,
        {
            let len: usize = if chunk_size < poly_len - start {
                chunk_size
            } else {
                poly_len - start
            };
            let mut chunk = self.evaluate_chunk(
                &plan,
                domain,
                start,
                len,
                cache_slots,
                scratch_slots,
            );
            let ghost before = result@;
            proof {
                assert forall|i: int| 0 <= i < len implies (#[trigger] chunk@[i])@
                    == replaced.value(self.row(*domain, start + i)) % M::p() by {
                    let row = self.row(*domain, start + i);
                    let cache = Seq::new(cache_slots as nat, |s: int| 0int);
                    assert(replaced.fits(row));
                    assert(chunk@[i]@ == plan.run(row, cache).0 % M::p());
                    assert(congruent(plan.run(row, cache).0, compiled.value(row), M::p()));
                    assert(congruent(compiled.value(row), replaced.value(row), M::p()));
                }
            }
            let ghost rows = chunk@;
            result.append(&mut chunk);
            proof {
                assert forall|i: int| 0 <= i < start + len implies (#[trigger] result@[i])@
                    == replaced.value(self.row(*domain, i)) % M::p() by {
                    if i >= start {
                        assert(result@[i] == rows[i - start]);
                        assert(rows[i - start]@ == replaced.value(
                            self.row(*domain, start + (i - start)),
                        ) % M::p());
                    }
                }
            }
            start += len;
        }
        proof {
            assert(is_evaluation(*self, *domain, replaced, result@));
            assert forall|i: int|
                0 <= i < result@.len() && selectors_hold(
                    self.compressed_selectors@,
                    self.row(*domain, i),
                    M::p(),
                ) implies (#[trigger] result@[i])@ == ast.value(self.row(*domain, i)) % M::p() by {
                lemma_replaced_value(
                    self.compressed_selectors@,
                    *ast,
                    replaced,
                    self.row(*domain, i),
                );
            }
        }
        result
    }

    pub(crate) proof fn lemma_replaced_fits(
        self,
        domain: EvaluationDomain<M>,
        ast: Ast<M>,
        replaced: Ast<M>,
    )
        requires
            self.basis == Basis::Coeff ==> ast.product_free(),
            is_replaced(self.compressed_selectors@, ast, replaced),
        ensures
            forall|i: int| replaced.fits(#[trigger] self.row(domain, i)),
            forall|i: int| ast.fits(#[trigger] self.row(domain, i)),
    {
        assert forall|i: int| replaced.fits(#[trigger] self.row(domain, i)) by {
            let row = self.row(domain, i);
            if self.basis == Basis::Coeff {
                lemma_product_free_kept(self.compressed_selectors@, ast, replaced);
            }
        }
    }

    /// Evaluates a plan at the rows of one chunk.
    pub fn evaluate_chunk(
        &self,
        plan: &EvaluationPlan<M>,
        domain: &EvaluationDomain<M>,
        start: usize,
        len: usize,
        cache_slots: usize,
        scratch_slots: usize,
    ) -> (r: Vec<Fe<M>>)
        requires
            forall|k: int|
                0 <= k < self.polys@.len() ==> (#[trigger] self.polys@[k])@.len()
                    == domain.basis_len(self.basis),
            start + len <= domain.basis_len(self.basis),
            plan.sound(
                readable_leaves(self.basis, *domain, self.polys@.len()),
                cache_slots as nat,
            ),
        ensures
            r@.len() == len,
            forall|i: int|
                0 <= i < len ==> (#[trigger] r@[i])@ == plan.run(
                    self.row(*domain, start + i),
                    Seq::new(cache_slots as nat, |s: int| 0int),
                ).0 % M::p(),
    {
        let one = Fe::<M>::one();
        let zero = Fe::<M>::zero();
        proof {
            M::lemma_modulus();
            vstd::arithmetic::div_mod::lemma_small_mod(2, M::p() as nat);
            vstd::arithmetic::div_mod::lemma_small_mod((M::p() - 1) as nat, M::p() as nat);
            vstd::arithmetic::div_mod::lemma_mod_add_multiples_vanish(-1, M::p());
        }
        let context = ChunkContext {
            basis: self.basis,
            domain,
            polys: &self.polys,
            start,
            minus_one: one.neg(),
            two: one.double(),
        };
        let mut output: Vec<Fe<M>> = vec![zero; len];
        let mut cache = zero_buffers(cache_slots, len);
        let mut scratch = zero_buffers(scratch_slots, len);
        let ghost before = cache@;
        context.run_into(plan, &mut output, &mut cache, &mut scratch);
        proof {
            assert forall|i: int| 0 <= i < len implies (#[trigger] output@[i])@ == plan.run(
                self.row(*domain, start + i),
                Seq::new(cache_slots as nat, |s: int| 0int),
            ).0 % M::p() by {
                assert(column(before, i) =~= Seq::new(cache_slots as nat, |s: int| 0int));
                assert(is_result(
                    output@[i]@,
                    column(cache@, i),
                    plan.run(context.row(i), column(before, i)),
                    M::p(),
                ));
            }
        }
        output
    }
}

/// The rows of the basis hold the values of an expression.
pub open spec fn is_evaluation<M: Modulus>(
    evaluator: Evaluator<M>,
    domain: EvaluationDomain<M>,
    ast: Ast<M>,
    rows: Seq<Fe<M>>,
) -> bool {
    &&& rows.len() == domain.basis_len(evaluator.basis)
    &&& forall|i: int|
        0 <= i < rows.len() ==> (#[trigger] rows[i])@ == ast.value(evaluator.row(domain, i))
            % M::p()
}

proof fn lemma_product_free_kept<M: Modulus>(
    selectors: Seq<CompressedSelectorLeaf>,
    ast: Ast<M>,
    r: Ast<M>,
)
    requires
        is_replaced(selectors, ast, r),
        ast.product_free(),
    ensures
        r.product_free(),
    decreases ast,
{
    match registered(selectors, ast) {
        Some(leaf) => {},
        None => match (ast, r) {
            (Ast::Add(a, b), Ast::Add(c, d)) => {
                lemma_product_free_kept(selectors, target(a), target(c));
                lemma_product_free_kept(selectors, target(b), target(d));
            },
            (Ast::Scale(a, s), Ast::Scale(b, t)) => {
                lemma_product_free_kept(selectors, target(a), target(b));
            },
            (Ast::DistributePowers(a, s), Ast::DistributePowers(b, t)) => {
                lemma_terms_product_free_kept(selectors, a@, b@);
            },
            _ => {},
        },
    }
}

proof fn lemma_terms_product_free_kept<M: Modulus>(
    selectors: Seq<CompressedSelectorLeaf>,
    a: Seq<Ast<M>>,
    b: Seq<Ast<M>>,
)
    requires
        a.len() == b.len(),
        forall|i: int| 0 <= i < a.len() ==> is_replaced(selectors, #[trigger] a[i], b[i]),
        Ast::terms_product_free(a),
    ensures
        Ast::terms_product_free(b),
    decreases a,
{
    if a.len() > 0 {
        assert forall|i: int| 0 <= i < a.drop_last().len() implies is_replaced(
            selectors,
            #[trigger] a.drop_last()[i],
            b.drop_last()[i],
        ) by {
            assert(is_replaced(selectors, a[i], b[i]));
        }
        lemma_terms_product_free_kept(selectors, a.drop_last(), b.drop_last());
        assert(is_replaced(selectors, a[a.len() - 1], b[a.len() - 1]));
        lemma_product_free_kept(selectors, a.last(), b.last());
    }
}

fn zero_buffers<M: Modulus>(count: usize, rows: usize) -> (r: Vec<Vec<Fe<M>>>)
    ensures
        r@.len() == count,
        all_sized(r@, rows as nat),
        forall|s: int, i: int|
            0 <= s < count && 0 <= i < rows ==> (#[trigger] r@[s]@[i])@ == 0,
{
    let mut r: Vec<Vec<Fe<M>>> = Vec::new();
    let zero = Fe::<M>::zero();
    let mut k: usize = 0;
    while k < count
        invariant
            k <= count,
            zero@ == 0,
            r@.len() == k,
            all_sized(r@, rows as nat),
            forall|s: int, i: int|
                0 <= s < k && 0 <= i < rows ==> (#[trigger] r@[s]@[i])@ == 0,
        decreases count - k,
    {
        let ghost before = r@;
        r.push(vec![zero; rows]);
        proof {
            assert forall|s: int, i: int| 0 <= s < k + 1 && 0 <= i < rows implies (
            #[trigger] r@[s]@[i])@ == 0 by {
                if s < k {
                    assert(before[s]@[i]@ == 0);
                }
            }
        }
        k += 1;
    }
    r
}

} // verus!

//! How the evaluations of expressions relate: they are computed row by row from the evaluations of
//! the parts.
use crate::field::congruence::{lemma_congruent_mod, lemma_congruent_ops};
use crate::field::{Fe, Modulus};
use crate::poly::ast::Ast;
use crate::poly::basis::{readable_leaves, Basis, EvaluationDomain};
use crate::poly::evaluator::{
    is_evaluation, is_replaced, is_result_of, lemma_replaced_value, selectors_hold, Evaluator,
};
use vstd::arithmetic::power::{lemma_pow0, lemma_pow1, lemma_pow_adds, pow};
use vstd::prelude::*;

verus! {

/// Every registered polynomial has the values of its selector.
pub open spec fn all_selectors_hold<M: Modulus>(
    evaluator: Evaluator<M>,
    domain: EvaluationDomain<M>,
) -> bool {
    forall|i: int|
        0 <= i < domain.basis_len(evaluator.basis) ==> selectors_hold(
            evaluator.compressed_selectors@,
            #[trigger] evaluator.row(domain, i),
            M::p(),
        )
}

/// The rows of an evaluation are the values of the expression.
pub proof fn lemma_result_is_evaluation<M: Modulus>(
    evaluator: Evaluator<M>,
    domain: EvaluationDomain<M>,
    ast: Ast<M>,
    r: Seq<Fe<M>>,
)
    requires
        evaluator.accepts(domain, ast),
        all_selectors_hold(evaluator, domain),
        is_result_of(evaluator, domain, ast, r),
    ensures
        is_evaluation(evaluator, domain, ast, r),
{
    let selectors = evaluator.compressed_selectors@;
    let t = choose|t: Ast<M>| #[trigger]
        is_replaced(selectors, ast, t) && is_evaluation(evaluator, domain, t, r);
    evaluator.lemma_replaced_fits(domain, ast, t);
    assert forall|i: int| 0 <= i < r.len() implies (#[trigger] r[i])@ == ast.value(
        evaluator.row(domain, i),
    ) % M::p() by {
        lemma_replaced_value(selectors, ast, t, evaluator.row(domain, i));
    }
}

/// The evaluation of a sum is the sum of the evaluations, row by row.
pub proof fn lemma_sum_is_pointwise<M: Modulus>(
    evaluator: Evaluator<M>,
    domain: EvaluationDomain<M>,
    a: Ast<M>,
    b: Ast<M>,
    sum: Ast<M>,
    ra: Seq<Fe<M>>,
    rb: Seq<Fe<M>>,
    r: Seq<Fe<M>>,
)
    requires
        evaluator.accepts(domain, a),
        evaluator.accepts(domain, b),
        all_selectors_hold(evaluator, domain),
        sum matches Ast::Add(x, y) && *x == a && *y == b,
        is_result_of(evaluator, domain, a, ra),
        is_result_of(evaluator, domain, b, rb),
        is_result_of(evaluator, domain, sum, r),
    ensures
        ra.len() == r.len(),
        rb.len() == r.len(),
        forall|i: int| 0 <= i < r.len() ==> (#[trigger] r[i])@ == (ra[i]@ + rb[i]@) % M::p(),
{
    M::lemma_modulus();
    let p = M::p();
    lemma_result_is_evaluation(evaluator, domain, a, ra);
    lemma_result_is_evaluation(evaluator, domain, b, rb);
    lemma_result_is_evaluation(evaluator, domain, sum, r);
    assert forall|i: int| 0 <= i < r.len() implies (#[trigger] r[i])@ == (ra[i]@ + rb[i]@) % p by {
        let row = evaluator.row(domain, i);
        assert(ra[i]@ == a.value(row) % p && rb[i]@ == b.value(row) % p);
        lemma_congruent_mod(a.value(row), p);
        lemma_congruent_mod(b.value(row), p);
        lemma_congruent_ops(ra[i]@, a.value(row), rb[i]@, b.value(row), p);
    }
}

/// The evaluation of a multiple is the multiple of the evaluation, row by row.
pub proof fn lemma_multiple_is_pointwise<M: Modulus>(
    evaluator: Evaluator<M>,
    domain: EvaluationDomain<M>,
    a: Ast<M>,
    scalar: Fe<M>,
    multiple: Ast<M>,
    ra: Seq<Fe<M>>,
    r: Seq<Fe<M>>,
)
    requires
        evaluator.accepts(domain, a),
        all_selectors_hold(evaluator, domain),
        multiple matches Ast::Scale(x, s) && *x == a && s@ == scalar@,
        is_result_of(evaluator, domain, a, ra),
        is_result_of(evaluator, domain, multiple, r),
    ensures
        ra.len() == r.len(),
        forall|i: int| 0 <= i < r.len() ==> (#[trigger] r[i])@ == (ra[i]@ * scalar@) % M::p(),
{
    M::lemma_modulus();
    let p = M::p();
    lemma_result_is_evaluation(evaluator, domain, a, ra);
    lemma_result_is_evaluation(evaluator, domain, multiple, r);
    assert forall|i: int| 0 <= i < r.len() implies (#[trigger] r[i])@ == (ra[i]@ * scalar@) % p by {
        let row = evaluator.row(domain, i);
        assert(ra[i]@ == a.value(row) % p);
        lemma_congruent_mod(a.value(row), p);
        lemma_congruent_ops(ra[i]@, a.value(row), scalar@, scalar@, p);
    }
}

/// The evaluation of a difference is the difference of the evaluations, row by row.
pub proof fn lemma_difference_is_pointwise<M: Modulus>(
    evaluator: Evaluator<M>,
    domain: EvaluationDomain<M>,
    a: Ast<M>,
    b: Ast<M>,
    difference: Ast<M>,
    ra: Seq<Fe<M>>,
    rb: Seq<Fe<M>>,
    r: Seq<Fe<M>>,
)
    requires
        evaluator.accepts(domain, a),
        evaluator.accepts(domain, b),
        all_selectors_hold(evaluator, domain),
        difference matches Ast::Add(x, y) && *x == a && (*y matches Ast::Scale(z, s) && *z == b
            && s@ == M::p() - 1),
        is_result_of(evaluator, domain, a, ra),
        is_result_of(evaluator, domain, b, rb),
        is_result_of(evaluator, domain, difference, r),
    ensures
        ra.len() == r.len(),
        rb.len() == r.len(),
        forall|i: int| 0 <= i < r.len() ==> (#[trigger] r[i])@ == (ra[i]@ - rb[i]@) % M::p(),
{
    M::lemma_modulus();
    let p = M::p();
    lemma_result_is_evaluation(evaluator, domain, a, ra);
    lemma_result_is_evaluation(evaluator, domain, b, rb);
    let negated = *difference->Add_1;
    assert(negated.leaves(readable_leaves(evaluator.basis, domain, evaluator.polys@.len())));
    assert(evaluator.basis == Basis::Coeff ==> negated.product_free());
    lemma_result_is_evaluation(evaluator, domain, difference, r);
    assert forall|i: int| 0 <= i < r.len() implies (#[trigger] r[i])@ == (ra[i]@ - rb[i]@) % p by {
        let row = evaluator.row(domain, i);
        let (u, v) = (a.value(row), b.value(row));
        assert(ra[i]@ == u % p && rb[i]@ == v % p);
        lemma_congruent_mod(u, p);
        lemma_congruent_mod(v, p);
        lemma_congruent_ops(ra[i]@, u, rb[i]@, v, p);
        assert(negated.value(row) == v * (p - 1));
        assert(difference.value(row) == u + v * (p - 1));
        assert(u + v * (p - 1) == (u - v) + p * v) by (nonlinear_arith);
        vstd::arithmetic::div_mod::lemma_mod_multiples_vanish(v, u - v, p);
    }
}

/// In the bases of values, the evaluation of a product is the product of the evaluations, row by
/// row.
pub proof fn lemma_product_is_pointwise<M: Modulus>(
    evaluator: Evaluator<M>,
    domain: EvaluationDomain<M>,
    a: Ast<M>,
    b: Ast<M>,
    product: Ast<M>,
    ra: Seq<Fe<M>>,
    rb: Seq<Fe<M>>,
    r: Seq<Fe<M>>,
)
    requires
        evaluator.basis != Basis::Coeff,
        evaluator.accepts(domain, a),
        evaluator.accepts(domain, b),
        all_selectors_hold(evaluator, domain),
        product matches Ast::Mul(x, y) && *x == a && *y == b,
        is_result_of(evaluator, domain, a, ra),
        is_result_of(evaluator, domain, b, rb),
        is_result_of(evaluator, domain, product, r),
    ensures
        ra.len() == r.len(),
        rb.len() == r.len(),
        forall|i: int| 0 <= i < r.len() ==> (#[trigger] r[i])@ == (ra[i]@ * rb[i]@) % M::p(),
{
    M::lemma_modulus();
    let p = M::p();
    lemma_result_is_evaluation(evaluator, domain, a, ra);
    lemma_result_is_evaluation(evaluator, domain, b, rb);
    lemma_result_is_evaluation(evaluator, domain, product, r);
    assert forall|i: int| 0 <= i < r.len() implies (#[trigger] r[i])@ == (ra[i]@ * rb[i]@) % p by {
        let row = evaluator.row(domain, i);
        assert(ra[i]@ == a.value(row) % p && rb[i]@ == b.value(row) % p);
        lemma_congruent_mod(a.value(row), p);
        lemma_congruent_mod(b.value(row), p);
        lemma_congruent_ops(ra[i]@, a.value(row), rb[i]@, b.value(row), p);
    }
}

/// The sum of the first `k` of the values at row `i`, each with its power of `base`: the last of
/// all columns has the power zero.
pub open spec fn power_sum<M: Modulus>(
    columns: Seq<Seq<Fe<M>>>,
    base: int,
    i: int,
    k: nat,
) -> int
    decreases k,
{
    if k == 0 {
        0
    } else {
        let j = (k - 1) as nat;
        power_sum(columns, base, i, j) + pow(base, (columns.len() - 1 - j) as nat)
            * columns[j as int][i]@
    }
}

/// The evaluation of distributed powers is the sum of the evaluations of the terms with their
/// powers, row by row, whatever the terms share: `y^(n-1) e(t_0) + ... + e(t_(n-1))`. It is zero
/// without terms, and the evaluation of the term where there is one.
pub proof fn lemma_powers_are_pointwise<M: Modulus>(
    evaluator: Evaluator<M>,
    domain: EvaluationDomain<M>,
    terms: Seq<Ast<M>>,
    base: Fe<M>,
    combination: Ast<M>,
    columns: Seq<Seq<Fe<M>>>,
    r: Seq<Fe<M>>,
)
    requires
        evaluator.accepts(domain, combination),
        all_selectors_hold(evaluator, domain),
        combination matches Ast::DistributePowers(t, y) && t@ == terms && y == base,
        columns.len() == terms.len(),
        forall|j: int|
            0 <= j < terms.len() ==> is_result_of(
                evaluator,
                domain,
                #[trigger] terms[j],
                columns[j],
            ),
        is_result_of(evaluator, domain, combination, r),
    ensures
        forall|j: int| 0 <= j < terms.len() ==> (#[trigger] columns[j]).len() == r.len(),
        forall|i: int|
            0 <= i < r.len() ==> (#[trigger] r[i])@ == power_sum(
                columns,
                base@,
                i,
                columns.len(),
            ) % M::p(),
        terms.len() == 0 ==> forall|i: int| 0 <= i < r.len() ==> (#[trigger] r[i])@ == 0,
        terms.len() == 1 ==> forall|i: int|
            0 <= i < r.len() ==> (#[trigger] r[i])@ == columns[0][i]@,
{
    M::lemma_modulus();
    let p = M::p();
    lemma_result_is_evaluation(evaluator, domain, combination, r);
    assert forall|j: int| 0 <= j < terms.len() implies is_evaluation(
        evaluator,
        domain,
        #[trigger] terms[j],
        columns[j],
    ) by {
        lemma_term_accepted(evaluator, domain, terms, j);
        lemma_result_is_evaluation(evaluator, domain, terms[j], columns[j]);
    }
    assert forall|j: int| 0 <= j < terms.len() implies (#[trigger] columns[j]).len() == r.len() by {
        assert(is_evaluation(evaluator, domain, terms[j], columns[j]));
    }
    assert forall|i: int| 0 <= i < r.len() implies (#[trigger] r[i])@ == power_sum(
        columns,
        base@,
        i,
        columns.len(),
    ) % p && (terms.len() == 0 ==> r[i]@ == 0) && (terms.len() == 1 ==> r[i]@
        == columns[0][i]@) by {
        lemma_powers_at(evaluator, domain, terms, base@, columns, i);
        lemma_pow0(base@);
        vstd::arithmetic::div_mod::lemma_small_mod(0, p as nat);
        if terms.len() == 1 {
            assert(power_sum(columns, base@, i, 0) == 0);
            assert(power_sum(columns, base@, i, 1) == 1 * columns[0][i]@);
            columns[0][i].lemma_view();
            vstd::arithmetic::div_mod::lemma_small_mod(columns[0][i]@ as nat, p as nat);
        }
    }
}

/// The terms of an accepted combination are accepted.
proof fn lemma_term_accepted<M: Modulus>(
    evaluator: Evaluator<M>,
    domain: EvaluationDomain<M>,
    terms: Seq<Ast<M>>,
    j: int,
)
    requires
        0 <= j < terms.len(),
        Ast::terms_leaves(
            terms,
            readable_leaves(evaluator.basis, domain, evaluator.polys@.len()),
        ),
        evaluator.basis == Basis::Coeff ==> Ast::terms_product_free(terms),
    ensures
        terms[j].leaves(
            readable_leaves(evaluator.basis, domain, evaluator.polys@.len()),
        ),
        evaluator.basis == Basis::Coeff ==> terms[j].product_free(),
    decreases terms.len(),
{
    if j < terms.len() - 1 {
        lemma_term_accepted(evaluator, domain, terms.drop_last(), j);
    }
}

/// The value of a combination at a row is congruent to the sum with the powers.
proof fn lemma_powers_at<M: Modulus>(
    evaluator: Evaluator<M>,
    domain: EvaluationDomain<M>,
    terms: Seq<Ast<M>>,
    base: int,
    columns: Seq<Seq<Fe<M>>>,
    i: int,
)
    requires
        columns.len() == terms.len(),
        0 <= i < domain.basis_len(evaluator.basis),
        forall|j: int|
            0 <= j < terms.len() ==> is_evaluation(
                evaluator,
                domain,
                #[trigger] terms[j],
                columns[j],
            ),
    ensures
        power_sum(columns, base, i, columns.len()) % M::p() == Ast::terms_value(
            terms,
            base,
            evaluator.row(domain, i),
        ) % M::p(),
    decreases terms.len(),
{
    M::lemma_modulus();
    let p = M::p();
    let row = evaluator.row(domain, i);
    if terms.len() > 0 {
        let n = (terms.len() - 1) as nat;
        let (t, c) = (terms.drop_last(), columns.drop_last());
        assert forall|j: int| 0 <= j < t.len() implies is_evaluation(
            evaluator,
            domain,
            #[trigger] t[j],
            c[j],
        ) by {
            assert(is_evaluation(evaluator, domain, terms[j], columns[j]));
        }
        lemma_powers_at(evaluator, domain, t, base, c, i);
        lemma_power_sum_shift(columns, base, i, n);
        lemma_pow0(base);
        let (x, y) = (power_sum(c, base, i, n), Ast::terms_value(t, base, row));
        let (u, v) = (columns[n as int][i]@, terms[n as int].value(row));
        assert(is_evaluation(evaluator, domain, terms[n as int], columns[n as int]));
        assert(u == v % p);
        lemma_congruent_mod(v, p);
        lemma_congruent_ops(x, y, base, base, p);
        lemma_congruent_ops(x * base, y * base, u, v, p);
        assert(1 * u == u);
        assert(power_sum(columns, base, i, columns.len()) == x * base + u);
    }
}

/// One more column raises the powers of the others by one.
proof fn lemma_power_sum_shift<M: Modulus>(
    columns: Seq<Seq<Fe<M>>>,
    base: int,
    i: int,
    k: nat,
)
    requires
        k < columns.len(),
    ensures
        power_sum(columns, base, i, k) == power_sum(columns.drop_last(), base, i, k) * base,
    decreases k,
{
    let c = columns.drop_last();
    if k == 0 {
        assert(0 * base == 0);
    } else {
        let j = (k - 1) as nat;
        lemma_power_sum_shift(columns, base, i, j);
        let e = (c.len() - 1 - j) as nat;
        lemma_pow1(base);
        lemma_pow_adds(base, e, 1);
        assert((columns.len() - 1 - j) as nat == e + 1);
        let (x, q, v) = (power_sum(c, base, i, j), pow(base, e), c[j as int][i]@);
        assert(x * base + (q * base) * v == (x + q * v) * base) by (nonlinear_arith);
    }
}

} // verus!

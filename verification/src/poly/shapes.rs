//! Expressions that are recognized: products that select one of several values of a query,
//! polynomials in a base, and terms with a common factor.
use crate::field::congruence::lemma_congruent_multiple;
use crate::field::primes::{is_prime, lemma_euclid};
use crate::field::{Fe, Modulus};
use crate::poly::ast::{Ast, AstLeaf, Row};
use crate::poly::plan::selector_factor;
use crate::poly::recognize::{
    difference, factored, has_factor, is_expanded, is_factor_run, is_power_term, is_selector,
    lemma_selector_value, product_without, roots_without, selector_parts, sum_terms, FactorSide,
};
use crate::poly::rows::value_at;
use std::sync::Arc;
use vstd::arithmetic::div_mod::{lemma_mul_mod_noop_general, lemma_small_mod};
use vstd::arithmetic::power::{lemma_pow0, lemma_pow1, lemma_pow_adds, pow};
use vstd::prelude::*;

verus! {

/// The expression `root - query`.
pub open spec fn difference_of<M: Modulus>(query: AstLeaf, root: Fe<M>, minus_one: Fe<M>) -> Ast<M> {
    Ast::Add(
        Arc::new(Ast::ConstantTerm(root)),
        Arc::new(Ast::Scale(Arc::new(Ast::Poly(query)), minus_one)),
    )
}

/// The product `query * (r_1 - query) * (r_2 - query) * ...`.
pub open spec fn selector_ast<M: Modulus>(
    query: AstLeaf,
    roots: Seq<Fe<M>>,
    minus_one: Fe<M>,
) -> Ast<M>
    decreases roots.len(),
{
    if roots.len() == 0 {
        Ast::Poly(query)
    } else {
        Ast::Mul(
            Arc::new(selector_ast(query, roots.drop_last(), minus_one)),
            Arc::new(difference_of(query, roots.last(), minus_one)),
        )
    }
}

proof fn lemma_selector_ast_parts<M: Modulus>(
    query: AstLeaf,
    roots: Seq<Fe<M>>,
    minus_one: Fe<M>,
    values: Seq<int>,
)
    requires
        minus_one@ == M::p() - 1,
        values.len() == roots.len(),
        forall|i: int| 0 <= i < roots.len() ==> (#[trigger] roots[i])@ == values[i],
    ensures
        selector_parts(selector_ast(query, roots, minus_one)) == Some((query, values)),
    decreases roots.len(),
{
    if roots.len() == 0 {
        assert(values =~= Seq::empty());
    } else {
        let front = roots.drop_last();
        assert forall|i: int| 0 <= i < front.len() implies (#[trigger] front[i])@
            == values.drop_last()[i] by {
            assert(roots[i]@ == values[i]);
        }
        lemma_selector_ast_parts(query, front, minus_one, values.drop_last());
        assert(roots[roots.len() - 1]@ == values[roots.len() - 1]);
        assert(difference(difference_of(query, roots.last(), minus_one)) == Some(
            (roots.last()@, query),
        ));
        assert(values.drop_last().push(values.last()) =~= values);
    }
}

/// The product of a query with the differences from the numbers one to `len` without `root`, of
/// four numbers or more, is recognized as the selector of `root`.
pub proof fn lemma_selectors_are_recognized<M: Modulus>(
    query: AstLeaf,
    roots: Seq<Fe<M>>,
    minus_one: Fe<M>,
    len: nat,
    root: nat,
)
    requires
        minus_one@ == M::p() - 1,
        4 <= len,
        1 <= root <= len,
        roots.len() == len - 1,
        forall|i: int|
            0 <= i < roots.len() ==> (#[trigger] roots[i])@ == if i + 1 < root {
                i + 1
            } else {
                i + 2
            },
    ensures
        is_selector(selector_ast(query, roots, minus_one), query, len, root),
{
    lemma_selector_ast_parts(query, roots, minus_one, roots_without(len, root));
}

/// The difference from a number below the modulus vanishes exactly at that number.
proof fn lemma_factor_vanishes(k: int, v: int, p: int)
    requires
        0 <= k < p,
        0 <= v < p,
    ensures
        selector_factor(k, v, p) % p == 0 <==> k == v,
{
    assert(selector_factor(k, v, p) == (k - v) + v * p) by (nonlinear_arith)
        requires
            selector_factor(k, v, p) == k + v * (p - 1),
    ;
    lemma_congruent_multiple(selector_factor(k, v, p), k - v, v, p);
    if k >= v {
        lemma_small_mod((k - v) as nat, p as nat);
    } else {
        lemma_congruent_multiple(k - v, k - v + p, -1, p);
        lemma_small_mod((k - v + p) as nat, p as nat);
    }
}

/// A product vanishes modulo a prime exactly if a factor does.
proof fn lemma_product_vanishes(x: int, y: int, p: int)
    requires
        is_prime(p),
    ensures
        (x * y) % p == 0 <==> x % p == 0 || y % p == 0,
{
    if (x * y) % p == 0 && x % p != 0 {
        lemma_euclid(p, x, y);
    }
    lemma_mul_mod_noop_general(x, y, p);
    if x % p == 0 {
        assert(0 * (y % p) == 0);
        lemma_small_mod(0, p as nat);
    }
    if y % p == 0 {
        assert((x % p) * 0 == 0);
        lemma_small_mod(0, p as nat);
    }
}

proof fn lemma_factors_vanish(hi: int, root: int, v: int, p: int)
    requires
        is_prime(p),
        hi < p,
        0 <= v < p,
    ensures
        product_without(hi, root, v, p) % p == 0 <==> 1 <= v <= hi && v != root,
    decreases hi,
{
    if hi <= 0 {
        lemma_small_mod(1, p as nat);
    } else {
        lemma_factors_vanish(hi - 1, root, v, p);
        if hi != root {
            lemma_factor_vanishes(hi, v, p);
            lemma_product_vanishes(
                product_without(hi - 1, root, v, p),
                selector_factor(hi, v, p),
                p,
            );
        }
    }
}

/// A recognized selector selects: on rows where the query has a value up to the length of the
/// combination, it vanishes exactly where that value is not its root.
pub proof fn lemma_selectors_select<M: Modulus>(
    ast: Ast<M>,
    query: AstLeaf,
    len: nat,
    root: nat,
    row: Row,
)
    requires
        is_selector(ast, query, len, root),
        row.pointwise(),
        0 <= (row.leaf)(query) <= len < M::p(),
    ensures
        ast.value(row) % M::p() != 0 <==> (row.leaf)(query) == root,
{
    M::lemma_modulus();
    let v = (row.leaf)(query);
    lemma_selector_value(ast, query, len, root, row);
    lemma_factors_vanish(len as int, root as int, v, M::p());
    lemma_product_vanishes(v, product_without(len as int, root as int, v, M::p()), M::p());
    lemma_small_mod(v as nat, M::p() as nat);
}

/// The power of a base, multiplied together from the constant one.
pub open spec fn power_ast<M: Modulus>(base: Ast<M>, one: Fe<M>, degree: nat) -> Ast<M>
    decreases degree,
{
    if degree == 0 {
        Ast::ConstantTerm(one)
    } else {
        Ast::Mul(Arc::new(power_ast(base, one, (degree - 1) as nat)), Arc::new(base))
    }
}

/// The sum of the coefficients times the powers of a base, from the constant zero on.
pub open spec fn polynomial_ast<M: Modulus>(
    base: Ast<M>,
    one: Fe<M>,
    zero: Fe<M>,
    coefficients: Seq<AstLeaf>,
) -> Ast<M>
    decreases coefficients.len(),
{
    if coefficients.len() == 0 {
        Ast::ConstantTerm(zero)
    } else {
        Ast::Add(
            Arc::new(polynomial_ast(base, one, zero, coefficients.drop_last())),
            Arc::new(
                Ast::Mul(
                    Arc::new(power_ast(base, one, (coefficients.len() - 1) as nat)),
                    Arc::new(Ast::Poly(coefficients.last())),
                ),
            ),
        )
    }
}

proof fn lemma_polynomial_terms<M: Modulus>(
    base: Ast<M>,
    one: Fe<M>,
    zero: Fe<M>,
    coefficients: Seq<AstLeaf>,
)
    requires
        zero@ == 0,
    ensures
        sum_terms(polynomial_ast(base, one, zero, coefficients)) is Some,
        sum_terms(polynomial_ast(base, one, zero, coefficients)).unwrap().len()
            == coefficients.len(),
        forall|d: int|
            0 <= d < coefficients.len() ==> #[trigger] sum_terms(
                polynomial_ast(base, one, zero, coefficients),
            ).unwrap()[d] == Ast::Mul(
                Arc::new(power_ast(base, one, d as nat)),
                Arc::new(Ast::<M>::Poly(coefficients[d])),
            ),
    decreases coefficients.len(),
{
    if coefficients.len() > 0 {
        lemma_polynomial_terms(base, one, zero, coefficients.drop_last());
    }
}

/// A polynomial of four coefficients or more in any base is recognized, with its base and its
/// coefficients.
pub proof fn lemma_polynomials_are_recognized<M: Modulus>(
    base: Ast<M>,
    one: Fe<M>,
    zero: Fe<M>,
    coefficients: Seq<AstLeaf>,
)
    requires
        one@ == 1,
        zero@ == 0,
        coefficients.len() >= 4,
    ensures
        is_expanded(polynomial_ast(base, one, zero, coefficients), base, coefficients),
{
    lemma_polynomial_terms(base, one, zero, coefficients);
    let terms = sum_terms(polynomial_ast(base, one, zero, coefficients)).unwrap();
    base.lemma_same_reflexive();
    assert forall|d: int| 0 <= d < terms.len() implies #[trigger] is_power_term(
        terms,
        base,
        coefficients[d],
        d,
    ) by {
        assert(terms[d] == Ast::Mul(
            Arc::new(power_ast(base, one, d as nat)),
            Arc::new(Ast::<M>::Poly(coefficients[d])),
        ));
        if d > 0 {
            assert(terms[d - 1] == Ast::Mul(
                Arc::new(power_ast(base, one, (d - 1) as nat)),
                Arc::new(Ast::<M>::Poly(coefficients[d - 1])),
            ));
            power_ast(base, one, (d - 1) as nat).lemma_same_reflexive();
        }
    }
}

/// Products with one factor on one side form a run, as far back as they reach; the factor found is
/// the one on that side.
pub proof fn lemma_common_factors_are_found<M: Modulus>(
    terms: Seq<Ast<M>>,
    factor: Ast<M>,
    bodies: Seq<Ast<M>>,
    start: int,
    end: int,
    left: bool,
)
    requires
        0 <= start < end <= terms.len(),
        bodies.len() == terms.len(),
        forall|i: int|
            start <= i < end ==> #[trigger] terms[i] == if left {
                Ast::Mul(Arc::new(factor), Arc::new(bodies[i]))
            } else {
                Ast::Mul(Arc::new(bodies[i]), Arc::new(factor))
            },
        start > 0 ==> !(terms[start - 1] is Mul),
    ensures
        is_factor_run(
            terms,
            start,
            end,
            if left {
                FactorSide::Left
            } else {
                FactorSide::Right
            },
        ),
        factored(
            terms[end - 1],
            if left {
                FactorSide::Left
            } else {
                FactorSide::Right
            },
        ) == Some((factor, bodies[end - 1])),
{
    let side = if left {
        FactorSide::Left
    } else {
        FactorSide::Right
    };
    factor.lemma_same_reflexive();
    assert(terms[end - 1] is Mul);
    assert forall|i: int| start <= i < end - 1 implies has_factor(
        #[trigger] terms[i],
        factor,
        side,
    ) by {
        assert(terms[i] is Mul);
    }
}

/// Combinations of fewer than four selectors and polynomials of fewer than four coefficients are
/// not recognized; a selector has one of the roots from one to the length of its combination.
pub proof fn lemma_short_shapes<M: Modulus>(
    ast: Ast<M>,
    query: AstLeaf,
    len: nat,
    root: nat,
    base: Ast<M>,
    coefficients: Seq<AstLeaf>,
)
    ensures
        is_selector(ast, query, len, root) ==> 4 <= len && 1 <= root <= len,
        is_expanded(ast, base, coefficients) ==> 4 <= coefficients.len(),
{
}

/// The value of a recognized polynomial is the sum of its coefficients times the powers of its
/// base.
pub proof fn lemma_polynomial_values<M: Modulus>(
    base: Ast<M>,
    one: Fe<M>,
    zero: Fe<M>,
    coefficients: Seq<AstLeaf>,
    row: Row,
)
    requires
        one@ == 1,
        zero@ == 0,
        row.pointwise(),
    ensures
        polynomial_ast(base, one, zero, coefficients).value(row) == value_at(
            coefficients.map_values(|leaf: AstLeaf| (row.leaf)(leaf)),
            base.value(row),
        ),
    decreases coefficients.len(),
{
    let x = base.value(row);
    let values = coefficients.map_values(|leaf: AstLeaf| (row.leaf)(leaf));
    if coefficients.len() > 0 {
        let front = coefficients.drop_last();
        lemma_polynomial_values(base, one, zero, front, row);
        let n = front.len();
        assert(values.drop_last() =~= front.map_values(|leaf: AstLeaf| (row.leaf)(leaf)));
        lemma_power_value(base, one, n, row);
        lemma_value_last(values, x);
        reveal_with_fuel(Ast::value, 3);
        assert(pow(x, n) * (row.leaf)(coefficients.last()) == values.last() * pow(x, n))
            by (nonlinear_arith)
            requires
                values.last() == (row.leaf)(coefficients.last()),
        ;
    }
}

proof fn lemma_power_value<M: Modulus>(base: Ast<M>, one: Fe<M>, degree: nat, row: Row)
    requires
        one@ == 1,
        row.pointwise(),
    ensures
        power_ast(base, one, degree).value(row) == pow(base.value(row), degree),
    decreases degree,
{
    let x = base.value(row);
    if degree == 0 {
        lemma_pow0(x);
    } else {
        let n = (degree - 1) as nat;
        lemma_power_value(base, one, n, row);
        lemma_pow_adds(x, n, 1);
        lemma_pow1(x);
    }
}

/// The highest coefficient adds its multiple of the highest power.
proof fn lemma_value_last(values: Seq<int>, x: int)
    requires
        values.len() > 0,
    ensures
        value_at(values, x) == value_at(values.drop_last(), x) + values.last() * pow(
            x,
            (values.len() - 1) as nat,
        ),
    decreases values.len(),
{
    let front = values.drop_last();
    if values.len() == 1 {
        lemma_pow0(x);
        assert(values.drop_first() =~= Seq::empty());
        assert(front =~= Seq::empty());
        assert(value_at(values.drop_first(), x) == 0);
        assert(x * 0 == 0);
        assert(values.last() * 1 == values.last());
    } else {
        let tail = values.drop_first();
        lemma_value_last(tail, x);
        assert(tail.drop_last() =~= front.drop_first());
        let n = (values.len() - 2) as nat;
        lemma_pow_adds(x, 1, n);
        lemma_pow1(x);
        let (c, v, p) = (values.last(), value_at(front.drop_first(), x), pow(x, n));
        assert(x * (v + c * p) == x * v + c * (x * p)) by (nonlinear_arith);
    }
}

} // verus!

//! Compilation of expressions to plans.
use crate::field::congruence::{congruent, lemma_congruent_mod, lemma_congruent_ops};
use crate::field::{Fe, Modulus};
use crate::poly::assemble::{
    all_leaves, body_implements, covers_bodies, covers_family, covers_group, covers_terms,
    implements, is_body_run, is_part, lemma_binary_parts, lemma_cover_body, lemma_cover_family,
    lemma_cover_group, lemma_cover_shared, lemma_cover_term, lemma_expanded_parts,
    lemma_factor_part, lemma_family_push, lemma_family_start, lemma_group_push, lemma_group_start,
    lemma_plain_concat, lemma_polynomial_congruent, plain, terms_fit,
};
use crate::poly::ast::{target, Ast, AstLeaf, Row};
use crate::poly::compiled::{
    bodies_compiled, bodies_of, claim_runs, factor_start, family_claims, family_compiled,
    group_compiled, groups_compiled, has_position, is_compiled, is_factor_group, is_grouping, is_power,
    item_compiled, loose, none_shared, share_factor, single_compiled, span_before, spans, taken,
    weighted_compiled, Group, Span,
};
use crate::poly::families::{
    are_disjoint, are_family_matches, is_selector_run, selector_family_matches, selector_runs,
    FoundRun, SelectorFamilyMatch, SelectorRunMatch,
};
use crate::poly::horner::{claim, horner, lemma_horner_zero, masked};
use crate::poly::plan::{
    DistributionWork, EvaluationPlan, FactorBodyPlan, FactorBodyWork, SelectorFamilyRun,
    WeightedTerm,
};
use crate::poly::recognize::{
    expanded_polynomial, factor_terms, factored, has_factor, is_expanded, is_factor_run,
    is_selector, lemma_expanded_value, pointees, same_ast, shared_factor_run, FactorSide,
};
use vstd::arithmetic::power::{lemma_pow0, lemma_pow1, lemma_pow_adds, pow};
use vstd::prelude::*;
use vstd::slice::slice_subrange;

verus! {

impl<M: Modulus> EvaluationPlan<M> {
    /// Compiles an expression.
    ///
    /// An expanded polynomial becomes a Horner evaluation and a product of equal operands a
    /// square; linear combinations are grouped by their common factors.
    pub fn compile(ast: &Ast<M>) -> (r: Self)
        ensures
            implements(r, *ast),
            is_compiled(r, *ast),
        decreases ast.height(), 2nat,
    {
        proof {
            M::lemma_modulus();
        }
        if let Ast::Add(_, _) = ast {
            if let Some(polynomial) = expanded_polynomial(ast) {
                proof {
                    lemma_expanded_parts(*ast, *polynomial.base, polynomial.coefficients@);
                }
                let base = Self::compile(polynomial.base);
                let r = EvaluationPlan::Horner {
                    base: Box::new(base),
                    coefficients: polynomial.coefficients,
                };
                proof {
                    assert forall|row: Row| ast.fits(row) implies congruent(
                        #[trigger] r.value(row),
                        ast.value(row),
                        M::p(),
                    ) by {
                        lemma_expanded_value(
                            *ast,
                            *polynomial.base,
                            polynomial.coefficients@,
                            row,
                        );
                        assert(polynomial.base.fits(row));
                        assert(congruent(
                            base.value(row),
                            polynomial.base.value(row),
                            M::p(),
                        ));
                        lemma_polynomial_congruent(
                            polynomial.coefficients@,
                            base.value(row),
                            polynomial.base.value(row),
                            row,
                            M::p(),
                        );
                    }
                    assert(plain(base.nodes()));
                    assert(r.cache_free());
                    assert forall|f: spec_fn(AstLeaf) -> bool, slots: nat|
                        ast.leaves(f) implies #[trigger] r.sound(f, slots) by {
                        assert(base.sound(f, slots));
                    }
                    lemma_horner_compiled(r, *ast, *polynomial.base);
                }
                return r;
            }
        }
        match ast {
            Ast::Poly(leaf) => EvaluationPlan::Poly(*leaf),
            Ast::Add(a, b) => {
                let x = Self::compile(a);
                let y = Self::compile(b);
                let r = EvaluationPlan::Add(Box::new(x), Box::new(y));
                proof {
                    assert forall|row: Row| ast.fits(row) implies congruent(
                        #[trigger] r.value(row),
                        ast.value(row),
                        M::p(),
                    ) by {
                        assert(a.fits(row) && b.fits(row));
                        assert(congruent(x.value(row), a.value(row), M::p()));
                        assert(congruent(y.value(row), b.value(row), M::p()));
                        lemma_congruent_ops(
                            x.value(row),
                            a.value(row),
                            y.value(row),
                            b.value(row),
                            M::p(),
                        );
                    }
                    lemma_binary_parts(r, x, y, *ast, target(*a), target(*b));
                }
                r
            },
            Ast::Mul(a, b) => {
                if same_ast(a, b) {
                    let x = Self::compile(a);
                    let r = EvaluationPlan::Square(Box::new(x));
                    proof {
                        assert forall|row: Row| ast.fits(row) implies congruent(
                            #[trigger] r.value(row),
                            ast.value(row),
                            M::p(),
                        ) by {
                            assert(a.fits(row));
                            assert(congruent(x.value(row), a.value(row), M::p()));
                            target(*a).lemma_same_value(target(*b), row);
                            lemma_congruent_ops(
                                x.value(row),
                                a.value(row),
                                x.value(row),
                                a.value(row),
                                M::p(),
                            );
                        }
                        assert(plain(x.nodes()));
                        assert(r.cache_free());
                        assert forall|f: spec_fn(AstLeaf) -> bool, slots: nat|
                            ast.leaves(f) implies #[trigger] r.sound(f, slots) by {
                            assert(x.sound(f, slots));
                        }
                    }
                    return r;
                }
                let x = Self::compile(a);
                let y = Self::compile(b);
                let r = EvaluationPlan::Mul(Box::new(x), Box::new(y));
                proof {
                    assert forall|row: Row| ast.fits(row) implies congruent(
                        #[trigger] r.value(row),
                        ast.value(row),
                        M::p(),
                    ) by {
                        assert(a.fits(row) && b.fits(row));
                        assert(congruent(x.value(row), a.value(row), M::p()));
                        assert(congruent(y.value(row), b.value(row), M::p()));
                        lemma_congruent_ops(
                            x.value(row),
                            a.value(row),
                            y.value(row),
                            b.value(row),
                            M::p(),
                        );
                    }
                    lemma_binary_parts(r, x, y, *ast, target(*a), target(*b));
                }
                r
            },
            Ast::Scale(a, scalar) => {
                let x = Self::compile(a);
                let r = EvaluationPlan::Scale(Box::new(x), *scalar);
                proof {
                    assert forall|row: Row| ast.fits(row) implies congruent(
                        #[trigger] r.value(row),
                        ast.value(row),
                        M::p(),
                    ) by {
                        assert(a.fits(row));
                        assert(congruent(x.value(row), a.value(row), M::p()));
                        lemma_congruent_ops(
                            x.value(row),
                            a.value(row),
                            scalar@,
                            scalar@,
                            M::p(),
                        );
                    }
                    assert(plain(x.nodes()));
                    assert(r.cache_free());
                    assert forall|f: spec_fn(AstLeaf) -> bool, slots: nat|
                        ast.leaves(f) implies #[trigger] r.sound(f, slots) by {
                        assert(x.sound(f, slots));
                    }
                }
                r
            },
            Ast::DistributePowers(terms, base) => Self::compile_distribute_powers(
                terms.as_slice(),
                *base,
                Ghost(*ast),
            ),
            Ast::LinearTerm(scalar) => EvaluationPlan::LinearTerm(*scalar),
            Ast::ConstantTerm(scalar) => EvaluationPlan::ConstantTerm(*scalar),
        }
    }

    fn compile_distribute_powers(
        terms: &[Ast<M>],
        base: Fe<M>,
        Ghost(ast): Ghost<Ast<M>>,
    ) -> (r: Self)
        requires
            ast matches Ast::DistributePowers(t, b) && t@ == terms@ && b == base,
        ensures
            implements(r, ast),
            is_compiled(r, ast),
        decreases ast.height(), 1nat,
    {
        let n = terms.len();
        proof {
            M::lemma_modulus();
            assert forall|i: int| 0 <= i < terms@.len() implies (#[trigger] terms@[i]).height()
                < ast.height() by {
                Ast::lemma_terms_height(terms@, i);
            }
            lemma_distribute_parts(ast, terms@, base);
        }
        if n == 0 {
            return EvaluationPlan::ConstantTerm(Fe::zero());
        }
        if n == 1 {
            let r = Self::compile(&terms[0]);
            proof {
                lemma_single_term(ast, terms@, base, r);
            }
            return r;
        }
        let powers = power_table(base, n);
        let mut work: Vec<DistributionWork<M>> = Vec::new();
        let mut claimed: Vec<bool> = vec![false; n];
        proof {
            lemma_cover_none(terms@, claimed@, base@);
        }
        let one = Fe::<M>::one();
        proof {
            lemma_minus_one(one);
        }
        let families = selector_family_matches(terms, one.neg());
        let mut f: usize = 0;
        while f < families.len()
            invariant
                M::p() > 1,
                n == terms@.len(),
                n >= 2,
                f <= families@.len(),
                forall|i: int| 0 <= i < terms@.len() ==> (#[trigger] terms@[i]).height()
                    < ast.height(),
                is_power_table(powers@, base@, n as int),
                are_families(families@, terms@),
                covers_terms(work@, terms@, claimed@, base@),
                unclaimed_from(families@, claimed@, f as int, 0),
                work@.len() == f,
                claimed@ == family_claims(families@, n as nat, f as int),
                forall|g: int|
                    0 <= g < f ==> family_compiled(
                        #[trigger] work@[g],
                        families@[g],
                        terms@,
                        base@,
                    ),
            decreases families@.len() - f,
        {
            let family = &families[f];
            let mut runs: Vec<SelectorFamilyRun<M>> = Vec::new();
            let ghost before = claimed@;
            let mut k: usize = 0;
            proof {
                lemma_family_start(
                    family.query,
                    family.runs@.len() as int,
                    terms@,
                    claimed@,
                    base@,
                );
                lemma_family_len(families@, terms@, f as int);
            }
            while k < family.runs.len()
                invariant
                    M::p() > 1,
                    n == terms@.len(),
                    f < families@.len(),
                    *family == families@[f as int],
                    k <= family.runs@.len(),
                    family.runs@.len() == family.combination_len,
                    runs@.len() == k,
                    forall|i: int| 0 <= i < terms@.len() ==> (#[trigger] terms@[i]).height()
                        < ast.height(),
                    is_power_table(powers@, base@, n as int),
                    are_families(families@, terms@),
                    claimed@.len() == n,
                    covers_family(
                        runs@,
                        family.query,
                        family.runs@.len() as int,
                        terms@,
                        before,
                        claimed@,
                        base@,
                    ),
                    unclaimed_from(families@, claimed@, f as int, k as int),
                    claimed@ == claim_runs(before, family.runs@, k as int),
                    forall|l: int|
                        0 <= l < k ==> run_compiled(
                            #[trigger] runs@[l],
                            family.runs@[l],
                            terms@,
                            base@,
                        ),
                decreases family.runs@.len() - k,
            {
                let run = family.runs[k];
                proof {
                    lemma_family_run(families@, terms@, f as int, k as int);
                }
                let ghost factor = factored(terms@[run.start as int], run.side).unwrap().0;
                let bodies = run_bodies(terms, run.start, run.end, run.side, Ghost(factor));
                proof {
                    lemma_bodies_height(
                        terms@,
                        run.start as int,
                        run.end as int,
                        factor,
                        run.side,
                        pointees(bodies@),
                        ast.height(),
                    );
                }
                let plan = SelectorFamilyRun {
                    bodies: FactorBodyPlan::compile(&bodies, base, Ghost(ast.height())),
                    power: powers[n - run.end],
                };
                proof {
                    lemma_unclaimed_run(families@, claimed@, f as int, k as int);
                    lemma_family_push(
                        runs@,
                        family.query,
                        family.runs@.len(),
                        terms@,
                        before,
                        claimed@,
                        base@,
                        run.start as int,
                        run.end as int,
                        factor,
                        run.side,
                        pointees(bodies@),
                        plan,
                    );
                    lemma_claim_run(families@, terms@, claimed@, f as int, k as int);
                    lemma_bodies_of(
                        terms@,
                        run.start as int,
                        run.end as int,
                        factor,
                        run.side,
                        pointees(bodies@),
                    );
                    assert(run_compiled(plan, run, terms@, base@));
                }
                runs.push(plan);
                fill_claimed(&mut claimed, run.start, run.end);
                k += 1;
            }
            let item = DistributionWork::SelectorFamily { query: family.query, runs };
            proof {
                assert forall|l: int| 0 <= l < runs@.len() implies bodies_compiled(
                    (#[trigger] runs@[l]).bodies,
                    bodies_of(
                        terms@,
                        family.runs@[l].start as int,
                        family.runs@[l].end as int,
                        family.runs@[l].side,
                    ),
                    base@,
                ) && is_power::<M>(
                    runs@[l].power@,
                    base@,
                    terms@.len() - family.runs@[l].end,
                ) by {
                    assert(run_compiled(runs@[l], family.runs@[l], terms@, base@));
                }
                assert(family_compiled(item, *family, terms@, base@));
                let first = families@[f as int].runs@[0];
                lemma_family_run(families@, terms@, f as int, 0);
                lemma_factor_part(terms@, first.start as int, first.side);
                if Ast::terms_product_free(terms@) {
                    Ast::lemma_terms_product_free(terms@, first.start as int);
                }
                lemma_cover_family(
                    work@,
                    terms@,
                    before,
                    claimed@,
                    base@,
                    family.query,
                    item,
                    factored(terms@[first.start as int], first.side).unwrap().0,
                );
                lemma_next_family(families@, claimed@, f as int);
            }
            work.push(item);
            f += 1;
        }
        let mut end: usize = n;
        let ghost selected = claimed@;
        let ghost all = spans(terms@, selected, n as int);
        let ghost mut done: Seq<Span> = Seq::empty();
        assert(all =~= done + spans(terms@, selected, end as int));
        // From the lowest challenge power to the highest.
        while end > 0
            invariant
                M::p() > 1,
                n == terms@.len(),
                end <= n,
                forall|i: int| 0 <= i < terms@.len() ==> (#[trigger] terms@[i]).height()
                    < ast.height(),
                is_power_table(powers@, base@, n as int),
                covers_terms(work@, terms@, claimed@, base@),
                forall|i: int| end <= i < n ==> #[trigger] claimed@[i],
                selected.len() == n,
                claimed@.len() == n,
                forall|i: int| 0 <= i < end ==> #[trigger] claimed@[i] == selected[i],
                all == spans(terms@, selected, n as int),
                all == done + spans(terms@, selected, end as int),
                work@.len() == families@.len() + done.len(),
                forall|g: int|
                    0 <= g < families@.len() ==> family_compiled(
                        #[trigger] work@[g],
                        families@[g],
                        terms@,
                        base@,
                    ),
                forall|w: int|
                    families@.len() <= w < work@.len() ==> item_compiled(
                        #[trigger] work@[w],
                        done[w - families@.len()],
                        terms@,
                        base@,
                    ),
            decreases end,
        {
            assert(claimed@[end - 1] == selected[end - 1]);
            if claimed[end - 1] {
                end -= 1;
                continue;
            }
            let from = unclaimed_start(&claimed, end);
            let stretch = slice_subrange(terms, from, end);
            let ghost span = span_before(terms@, selected, end as int);
            proof {
                assert forall|i: int| from <= i < end implies !#[trigger] selected[i] by {
                    assert(!claimed@[i]);
                }
                if from > 0 {
                    assert(claimed@[from - 1]);
                }
                assert(terms@[end - 1] == stretch@[end - from - 1]);
            }
            match shared_factor_run(stretch, end - from) {
                Some((offset, factor, side)) => {
                    let start: usize = from + offset;
                    proof {
                        lemma_stretch_run(
                            terms@,
                            from as int,
                            end as int,
                            offset as int,
                            *factor,
                            side,
                        );
                    }
                    let bodies = run_bodies(terms, start, end, side, Ghost(*factor));
                    proof {
                        lemma_bodies_height(
                            terms@,
                            start as int,
                            end as int,
                            *factor,
                            side,
                            pointees(bodies@),
                            ast.height(),
                        );
                        let last = terms@[end - 1];
                        assert(last.height() < ast.height());
                        assert(factor.height() < last.height());
                        lemma_factor_part(terms@, end - 1, side);
                    }
                    let item = DistributionWork::SharedFactor {
                        factor: Self::compile(factor),
                        bodies: FactorBodyPlan::compile(&bodies, base, Ghost(ast.height())),
                        power: powers[n - end],
                    };
                    proof {
                        lemma_cover_shared(
                            work@,
                            terms@,
                            claimed@,
                            base@,
                            start as int,
                            end as int,
                            *factor,
                            side,
                            pointees(bodies@),
                            item,
                        );
                    }
                    proof {
                        lemma_shared_span(
                            terms@,
                            selected,
                            from as int,
                            end as int,
                            offset as int,
                            side,
                        );
                        lemma_bodies_of(
                            terms@,
                            start as int,
                            end as int,
                            *factor,
                            side,
                            pointees(bodies@),
                        );
                        assert(item_compiled(item, span, terms@, base@));
                        lemma_span_pushed(terms@, selected, all, done, end as int);
                        done = done.push(span);
                    }
                    work.push(item);
                    fill_claimed(&mut claimed, start, end);
                    end = start;
                },
                None => {
                    let term = Self::compile(&terms[end - 1]);
                    let power = powers[n - end];
                    proof {
                        lemma_cover_term(
                            work@,
                            terms@,
                            claimed@,
                            base@,
                            end - 1,
                            term,
                            power,
                        );
                    }
                    let item = DistributionWork::Term { term, power };
                    proof {
                        lemma_single_span(terms@, selected, from as int, end as int);
                        assert(item_compiled(item, span, terms@, base@));
                        lemma_span_pushed(terms@, selected, all, done, end as int);
                        done = done.push(span);
                    }
                    work.push(item);
                    claimed.set(end - 1, true);
                    end -= 1;
                },
            }
        }
        let r = EvaluationPlan::DistributePowers { work, base };
        proof {
            assert(all =~= done);
            assert(are_family_matches(selector_runs(terms@, 0), families@));
            lemma_distribute_covered(ast, terms@, base, claimed@, r);
        }
        r
    }
}

/// Bodies with a common factor, with their positions.
struct FactorGroup<'a, M: Modulus> {
    factor: &'a Ast<M>,
    side: FactorSide,
    terms: Vec<(usize, &'a Ast<M>)>,
}

/// The group holds products with its factor at unclaimed positions, each position once.
spec fn is_group<M: Modulus>(
    group: FactorGroup<M>,
    terms: Seq<Ast<M>>,
    before: Seq<bool>,
    after: Seq<bool>,
) -> bool {
    &&& before.len() == terms.len()
    &&& group.terms@.len() >= 2
    &&& after == claim_all(before, group.terms@, group.terms@.len() as int)
    &&& is_part(*group.factor, terms)
    &&& exists|i: int| 0 <= i < terms.len() && #[trigger] factored(terms[i], group.side) is Some
        && factored(terms[i], group.side).unwrap().0 == *group.factor
    &&& forall|k: int|
        0 <= k < group.terms@.len() ==> is_member(group, terms, before, #[trigger] group.terms@[k])
    &&& forall|k: int, l: int|
        0 <= k < l < group.terms@.len() ==> (#[trigger] group.terms@[k]).0 < (
        #[trigger] group.terms@[l]).0
}

spec fn is_member<M: Modulus>(
    group: FactorGroup<M>,
    terms: Seq<Ast<M>>,
    before: Seq<bool>,
    entry: (usize, &Ast<M>),
) -> bool {
    &&& entry.0 < terms.len()
    &&& !before[entry.0 as int]
    &&& has_factor(terms[entry.0 as int], *group.factor, group.side)
    &&& factored(terms[entry.0 as int], group.side).unwrap().1 == *entry.1
}

/// The claims with the positions of the first `k` entries added.
spec fn claim_all<M: Modulus>(claimed: Seq<bool>, entries: Seq<(usize, &Ast<M>)>, k: int) -> Seq<
    bool,
>
    decreases k,
{
    if k <= 0 {
        claimed
    } else {
        claim_all(claimed, entries, k - 1).update(entries[k - 1].0 as int, true)
    }
}

/// The claims after the first `g` groups.
spec fn claims_after<M: Modulus>(groups: Seq<FactorGroup<M>>, n: nat, g: int) -> Seq<bool>
    decreases g,
{
    if g <= 0 {
        Seq::new(n, |i: int| false)
    } else {
        let entries = groups[g - 1].terms@;
        claim_all(claims_after(groups, n, g - 1), entries, entries.len() as int)
    }
}

/// Every group follows the ones before it.
spec fn are_groups<M: Modulus>(groups: Seq<FactorGroup<M>>, terms: Seq<Ast<M>>) -> bool {
    forall|g: int|
        0 <= g < groups.len() ==> is_group(
            #[trigger] groups[g],
            terms,
            claims_after(groups, terms.len(), g),
            claims_after(groups, terms.len(), g + 1),
        )
}

/// No unclaimed product before `index` shares its factor with a later unclaimed one.
spec fn settled<M: Modulus>(
    terms: Seq<Ast<M>>,
    claimed: Seq<bool>,
    side: FactorSide,
    index: int,
) -> bool {
    forall|i: int, j: int|
        0 <= i < index && i < j < terms.len() && !claimed[i] && !claimed[j] ==> !share_factor(
            #[trigger] terms[i],
            #[trigger] terms[j],
            side,
        )
}

/// The group has the factor of its first term, and leaves no product with that factor unclaimed.
spec fn is_whole<M: Modulus>(
    group: FactorGroup<M>,
    terms: Seq<Ast<M>>,
    after: Seq<bool>,
) -> bool {
    &&& group.terms@.len() > 0
    &&& factored(terms[group.terms@[0].0 as int], group.side) matches Some((factor, body))
        && factor == *group.factor
    &&& forall|i: int|
        0 <= i < terms.len() && !after[i] ==> !has_factor(
            #[trigger] terms[i],
            *group.factor,
            group.side,
        )
}

/// Left factors come before right factors, and groups of one side are ordered by their first
/// terms.
spec fn in_order<M: Modulus>(a: FactorGroup<M>, b: FactorGroup<M>) -> bool {
    &&& b.side is Left ==> a.side is Left
    &&& a.side == b.side ==> a.terms@[0].0 < b.terms@[0].0
}

/// The groups after the terms before `index` have had their turn on the given side: they are whole
/// and in order, the left factors are exhausted before the right ones, and no two of the
/// unclaimed terms that have had their turn share a factor.
spec fn grouped<M: Modulus>(
    groups: Seq<FactorGroup<M>>,
    terms: Seq<Ast<M>>,
    side: FactorSide,
    index: int,
) -> bool {
    let (n, rest) = (terms.len(), claims_after(groups, terms.len(), groups.len() as int));
    &&& forall|g: int|
        0 <= g < groups.len() ==> is_whole(
            #[trigger] groups[g],
            terms,
            claims_after(groups, n, g + 1),
        )
    &&& forall|g: int|
        0 <= g < groups.len() && (#[trigger] groups[g]).side is Right ==> settled(
            terms,
            claims_after(groups, n, g),
            FactorSide::Left,
            n as int,
        )
    &&& forall|g: int, h: int|
        0 <= g < h < groups.len() ==> in_order(#[trigger] groups[g], #[trigger] groups[h])
    &&& forall|g: int|
        0 <= g < groups.len() ==> if (#[trigger] groups[g]).side == side {
            groups[g].terms@[0].0 < index
        } else {
            side is Right
        }
    &&& side is Right ==> settled(terms, rest, FactorSide::Left, n as int)
    &&& settled(terms, rest, side, index)
}

/// The groups after all terms have had their turn on both sides.
spec fn are_greedy<M: Modulus>(groups: Seq<FactorGroup<M>>, terms: Seq<Ast<M>>) -> bool {
    grouped(groups, terms, FactorSide::Right, terms.len() as int)
}

/// Claims are kept, and the positions of the entries are claimed.
proof fn lemma_claimed<M: Modulus>(claimed: Seq<bool>, entries: Seq<(usize, &Ast<M>)>, k: int)
    requires
        0 <= k <= entries.len(),
        forall|l: int| 0 <= l < k ==> (#[trigger] entries[l]).0 < claimed.len(),
    ensures
        claim_all(claimed, entries, k).len() == claimed.len(),
        forall|i: int|
            0 <= i < claimed.len() && claimed[i] ==> #[trigger] claim_all(claimed, entries, k)[i],
        forall|l: int|
            0 <= l < k ==> claim_all(claimed, entries, k)[(#[trigger] entries[l]).0 as int],
    decreases k,
{
    if k > 0 {
        lemma_claimed(claimed, entries, k - 1);
    }
}

/// A group of the term at `index` with all later products that share its factor.
proof fn lemma_next_group<M: Modulus>(
    groups: Seq<FactorGroup<M>>,
    group: FactorGroup<M>,
    terms: Seq<Ast<M>>,
    index: int,
)
    requires
        0 <= index < terms.len(),
        grouped(groups, terms, group.side, index),
        claims_after(groups, terms.len(), groups.len() as int).len() == terms.len(),
        !claims_after(groups, terms.len(), groups.len() as int)[index],
        factored(terms[index], group.side) matches Some((factor, body)) && factor == *group.factor,
        group.terms@.len() > 0,
        forall|k: int|
            0 <= k < group.terms@.len() ==> index <= (#[trigger] group.terms@[k]).0 < terms.len(),
        forall|k: int, l: int|
            0 <= k < l < group.terms@.len() ==> (#[trigger] group.terms@[k]).0 < (
            #[trigger] group.terms@[l]).0,
        forall|i: int|
            index <= i < terms.len() && !claims_after(groups, terms.len(), groups.len() as int)[i]
                && has_factor(#[trigger] terms[i], *group.factor, group.side) ==> exists|k: int|
                0 <= k < group.terms@.len() && (#[trigger] group.terms@[k]).0 == i,
    ensures
        grouped(groups.push(group), terms, group.side, index + 1),
{
    let n = terms.len();
    let last = groups.len() as int;
    let before = claims_after(groups, n, last);
    let (entries, count) = (group.terms@, group.terms@.len() as int);
    let after = claim_all(before, entries, count);
    let all = groups.push(group);
    (*group.factor).lemma_same_reflexive();
    assert(has_factor(terms[index], *group.factor, group.side));
    let k = choose|k: int| 0 <= k < entries.len() && (#[trigger] entries[k]).0 == index;
    assert(k == 0) by {
        if k > 0 {
            assert(entries[0].0 < entries[k].0);
        }
    }
    lemma_claimed(before, entries, count);
    lemma_claims_prefix(groups, all, n, last);
    assert(claims_after(all, n, last + 1) == after);
    assert forall|i: int| 0 <= i < n && !after[i] implies !has_factor(
        #[trigger] terms[i],
        *group.factor,
        group.side,
    ) by {
        assert(!before[i]);
        if has_factor(terms[i], *group.factor, group.side) {
            if i < index {
                let other = factored(terms[i], group.side).unwrap().0;
                (*group.factor).lemma_same_symmetric(other);
                assert(share_factor(terms[i], terms[index], group.side));
            } else {
                let l = choose|l: int| 0 <= l < entries.len() && (#[trigger] entries[l]).0 == i;
                assert(after[entries[l].0 as int]);
            }
        }
    }
    assert forall|g: int| 0 <= g < all.len() implies is_whole(
        #[trigger] all[g],
        terms,
        claims_after(all, n, g + 1),
    ) by {
        if g < last {
            assert(is_whole(groups[g], terms, claims_after(groups, n, g + 1)));
            lemma_claims_prefix(groups, all, n, g + 1);
        }
    }
    assert forall|g: int| 0 <= g < all.len() && (#[trigger] all[g]).side is Right implies settled(
        terms,
        claims_after(all, n, g),
        FactorSide::Left,
        n as int,
    ) by {
        lemma_claims_prefix(groups, all, n, g);
        if g < last {
            assert(groups[g].side is Right);
        }
    }
    assert forall|g: int, h: int| 0 <= g < h < all.len() implies in_order(
        #[trigger] all[g],
        #[trigger] all[h],
    ) by {
        assert(groups[g] == all[g]);
        if h < last {
            assert(in_order(groups[g], groups[h]));
        }
    }
}

/// The positions from `index` on of the unclaimed products with the given factor.
fn matching_terms<'a, M: Modulus>(
    terms: &Vec<&'a Ast<M>>,
    claimed: &Vec<bool>,
    index: usize,
    factor: &Ast<M>,
    side: FactorSide,
) -> (r: Vec<(usize, &'a Ast<M>)>)
    requires
        claimed@.len() == terms@.len(),
    ensures
        forall|k: int|
            0 <= k < r@.len() ==> {
                let (position, body) = #[trigger] r@[k];
                &&& index <= position < terms@.len()
                &&& !claimed@[position as int]
                &&& has_factor(*terms@[position as int], *factor, side)
                &&& factored(*terms@[position as int], side).unwrap().1 == *body
            },
        forall|k: int, l: int|
            0 <= k < l < r@.len() ==> (#[trigger] r@[k]).0 < (#[trigger] r@[l]).0,
        forall|i: int|
            index <= i < terms@.len() && !claimed@[i] && has_factor(
                *#[trigger] terms@[i],
                *factor,
                side,
            ) ==> exists|k: int| 0 <= k < r@.len() && (#[trigger] r@[k]).0 == i,
{
    let mut r: Vec<(usize, &'a Ast<M>)> = Vec::new();
    let mut i: usize = index;
    while i < terms.len()
        invariant
            claimed@.len() == terms@.len(),
            index <= i,
            i <= terms@.len() || i == index,
            forall|k: int|
                0 <= k < r@.len() ==> {
                    let (position, body) = #[trigger] r@[k];
                    &&& index <= position < i
                    &&& position < terms@.len()
                    &&& !claimed@[position as int]
                    &&& has_factor(*terms@[position as int], *factor, side)
                    &&& factored(*terms@[position as int], side).unwrap().1 == *body
                },
            forall|k: int, l: int|
                0 <= k < l < r@.len() ==> (#[trigger] r@[k]).0 < (#[trigger] r@[l]).0,
            forall|j: int|
                index <= j < i && !claimed@[j] && has_factor(
                    *#[trigger] terms@[j],
                    *factor,
                    side,
                ) ==> exists|k: int| 0 <= k < r@.len() && (#[trigger] r@[k]).0 == j,
        decreases terms@.len() - i,
    {
        if !claimed[i] {
            if let Some((candidate, body)) = factor_terms(terms[i], side) {
                if same_ast(factor, candidate) {
                    let ghost before = r@;
                    r.push((i, body));
                    proof {
                        assert(r@[r@.len() - 1].0 == i);
                        assert forall|j: int|
                            index <= j < i + 1 && !claimed@[j] && has_factor(
                                *#[trigger] terms@[j],
                                *factor,
                                side,
                            ) implies exists|k: int| 0 <= k < r@.len() && (#[trigger] r@[k]).0
                            == j by {
                            if j < i {
                                let k = choose|k: int|
                                    0 <= k < before.len() && (#[trigger] before[k]).0 == j;
                                assert(r@[k].0 == j);
                            }
                        }
                    }
                }
            }
        }
        i += 1;
    }
    r
}

/// Groups the products with a common left factor, and among the others those with a common
/// right factor.
fn factor_groups<'a, M: Modulus>(terms: &Vec<&'a Ast<M>>) -> (r: Vec<FactorGroup<'a, M>>)
    ensures
        are_groups(r@, pointees(terms@)),
        are_greedy(r@, pointees(terms@)),
{
    let n = terms.len();
    let ghost all = pointees(terms@);
    let mut claimed: Vec<bool> = vec![false; n];
    let mut groups: Vec<FactorGroup<'a, M>> = Vec::new();
    assert(claimed@ =~= claims_after(groups@, n as nat, 0));
    let mut turn: usize = 0;
    while turn < 2
        invariant
            turn <= 2,
            n == terms@.len(),
            all == pointees(terms@),
            claimed@.len() == n,
            are_groups(groups@, all),
            claimed@ == claims_after(groups@, n as nat, groups@.len() as int),
            turn == 0 ==> groups@.len() == 0,
            turn == 1 ==> grouped(groups@, all, FactorSide::Left, n as int),
            turn == 2 ==> grouped(groups@, all, FactorSide::Right, n as int),
        decreases 2 - turn,
    {
        let side = if turn == 0 {
            FactorSide::Left
        } else {
            FactorSide::Right
        };
        let mut index: usize = 0;
        proof {
            assert forall|g: int| 0 <= g < groups@.len() implies if (#[trigger] groups@[g]).side
                == side {
                groups@[g].terms@[0].0 < 0
            } else {
                side is Right
            } by {
                assert(groups@[g].side is Left);
            }
            assert(grouped(groups@, all, side, 0));
        }
        while index < n
            invariant
                index <= n,
                n == terms@.len(),
                all == pointees(terms@),
                claimed@.len() == n,
                are_groups(groups@, all),
                claimed@ == claims_after(groups@, n as nat, groups@.len() as int),
                grouped(groups@, all, side, index as int),
            decreases n - index,
        {
            assert(all[index as int] == *terms@[index as int]);
            if !claimed[index] {
                if let Some((factor, _)) = factor_terms(terms[index], side) {
                    let entries = matching_terms(terms, &claimed, index, factor, side);
                    if entries.len() >= 2 {
                        let ghost before = claimed@;
                        let ghost old_groups = groups@;
                        mark_all(&mut claimed, &entries);
                        let group = FactorGroup { factor, side, terms: entries };
                        proof {
                            assert(all[index as int] == *terms@[index as int]);
                            lemma_factor_part(all, index as int, side);
                            assert forall|k: int|
                                0 <= k < group.terms@.len() implies is_member(
                                group,
                                all,
                                before,
                                #[trigger] group.terms@[k],
                            ) by {
                                let position = group.terms@[k].0;
                                assert(all[position as int] == *terms@[position as int]);
                            }
                            assert(is_group(group, all, before, claimed@));
                        }
                        proof {
                            assert forall|i: int|
                                index <= i < n && !before[i] && has_factor(
                                    #[trigger] all[i],
                                    *group.factor,
                                    side,
                                ) implies exists|k: int|
                                0 <= k < group.terms@.len() && (#[trigger] group.terms@[k]).0
                                    == i by {
                                assert(all[i] == *terms@[i]);
                            }
                            lemma_next_group(old_groups, group, all, index as int);
                        }
                        groups.push(group);
                        proof {
                            lemma_claims_prefix(
                                old_groups,
                                groups@,
                                n as nat,
                                old_groups.len() as int,
                            );
                            assert forall|g: int| 0 <= g < groups@.len() implies is_group(
                                #[trigger] groups@[g],
                                all,
                                claims_after(groups@, n as nat, g),
                                claims_after(groups@, n as nat, g + 1),
                            ) by {
                                if g < old_groups.len() {
                                    assert(is_group(
                                        old_groups[g],
                                        all,
                                        claims_after(old_groups, n as nat, g),
                                        claims_after(old_groups, n as nat, g + 1),
                                    ));
                                    lemma_claims_prefix(old_groups, groups@, n as nat, g);
                                    lemma_claims_prefix(old_groups, groups@, n as nat, g + 1);
                                }
                            }
                        }
                    } else {
                        proof {
                            factor.lemma_same_reflexive();
                            assert(has_factor(*terms@[index as int], *factor, side));
                            assert forall|j: int|
                                index < j < n && !claimed@[j] implies !share_factor(
                                all[index as int],
                                #[trigger] all[j],
                                side,
                            ) by {
                                assert(all[j] == *terms@[j]);
                                if has_factor(*terms@[j], *factor, side) {
                                    let k = choose|k: int|
                                        0 <= k < entries@.len() && (#[trigger] entries@[k]).0
                                            == index;
                                    let l = choose|l: int|
                                        0 <= l < entries@.len() && (#[trigger] entries@[l]).0 == j;
                                    assert(k != l);
                                }
                            }
                        }
                    }
                }
            }
            index += 1;
        }
        turn += 1;
    }
    groups
}

proof fn lemma_claims_prefix<M: Modulus>(
    a: Seq<FactorGroup<M>>,
    b: Seq<FactorGroup<M>>,
    n: nat,
    g: int,
)
    requires
        0 <= g <= a.len() <= b.len(),
        forall|i: int| 0 <= i < a.len() ==> a[i] == b[i],
    ensures
        claims_after(a, n, g) == claims_after(b, n, g),
    decreases g,
{
    if g > 0 {
        lemma_claims_prefix(a, b, n, g - 1);
    }
}

proof fn lemma_claim_all<M: Modulus>(
    claimed: Seq<bool>,
    entries: Seq<(usize, &Ast<M>)>,
    k: int,
)
    requires
        0 <= k <= entries.len(),
        forall|l: int| 0 <= l < k ==> (#[trigger] entries[l]).0 < claimed.len(),
    ensures
        claim_all(claimed, entries, k).len() == claimed.len(),
        forall|i: int|
            0 <= i < claimed.len() && (forall|l: int| 0 <= l < k ==> (#[trigger] entries[l]).0 != i)
                ==> #[trigger] claim_all(claimed, entries, k)[i] == claimed[i],
    decreases k,
{
    if k > 0 {
        lemma_claim_all(claimed, entries, k - 1);
    }
}

fn mark_all<M: Modulus>(claimed: &mut Vec<bool>, entries: &Vec<(usize, &Ast<M>)>)
    requires
        forall|k: int| 0 <= k < entries@.len() ==> (#[trigger] entries@[k]).0 < old(claimed)@.len(),
    ensures
        final(claimed)@ == claim_all(old(claimed)@, entries@, entries@.len() as int),
        final(claimed)@.len() == old(claimed)@.len(),
{
    let ghost before = claimed@;
    let mut k: usize = 0;
    while k < entries.len()
        invariant
            k <= entries@.len(),
            claimed@.len() == before.len(),
            claimed@ == claim_all(before, entries@, k as int),
            forall|k: int| 0 <= k < entries@.len() ==> (#[trigger] entries@[k]).0 < before.len(),
        decreases entries@.len() - k,
    {
        claimed.set(entries[k].0, true);
        k += 1;
    }
}

/// The group by its factor and the positions of its bodies.
spec fn group_view<M: Modulus>(group: FactorGroup<M>) -> Group<M> {
    Group {
        factor: *group.factor,
        side: group.side,
        positions: Seq::new(group.terms@.len(), |k: int| group.terms@[k].0 as int),
    }
}

spec fn group_views<M: Modulus>(groups: Seq<FactorGroup<M>>) -> Seq<Group<M>> {
    Seq::new(groups.len(), |g: int| group_view(groups[g]))
}

/// A position is claimed after the first groups exactly if one of them has it.
proof fn lemma_taken<M: Modulus>(groups: Seq<FactorGroup<M>>, terms: Seq<Ast<M>>, g: int)
    requires
        are_groups(groups, terms),
        0 <= g <= groups.len(),
    ensures
        claims_after(groups, terms.len(), g).len() == terms.len(),
        forall|i: int|
            0 <= i < terms.len() ==> #[trigger] claims_after(groups, terms.len(), g)[i] == taken(
                group_views(groups),
                g,
                i,
            ),
    decreases g,
{
    let views = group_views(groups);
    let n = terms.len();
    if g > 0 {
        lemma_taken(groups, terms, g - 1);
        let before = claims_after(groups, n, g - 1);
        let group = groups[g - 1];
        let (entries, count) = (group.terms@, group.terms@.len() as int);
        assert(is_group(group, terms, before, claims_after(groups, n, g)));
        assert forall|l: int| 0 <= l < count implies (#[trigger] entries[l]).0 < before.len() by {
            assert(is_member(group, terms, before, entries[l]));
        }
        lemma_claimed(before, entries, count);
        lemma_claim_all(before, entries, count);
        assert forall|i: int| 0 <= i < n implies #[trigger] claims_after(groups, n, g)[i] == taken(
            views,
            g,
            i,
        ) by {
            if claims_after(groups, n, g)[i] {
                if before[i] {
                    let (h, k) = choose|h: int, k: int|
                        0 <= h < g - 1 && #[trigger] has_position(views, h, k, i);
                    assert(has_position(views, h, k, i));
                } else {
                    let l = choose|l: int| 0 <= l < count && (#[trigger] entries[l]).0 == i;
                    assert(has_position(views, g - 1, l, i));
                }
            }
            if taken(views, g, i) {
                let (h, k) = choose|h: int, k: int|
                    0 <= h < g && #[trigger] has_position(views, h, k, i);
                if h < g - 1 {
                    assert(taken(views, g - 1, i));
                    assert(before[i]);
                } else {
                    assert(claims_after(groups, n, g)[entries[k].0 as int]);
                }
            }
        }
    }
}

/// The groups that are found are a grouping.
proof fn lemma_grouping<M: Modulus>(groups: Seq<FactorGroup<M>>, terms: Seq<Ast<M>>)
    requires
        are_groups(groups, terms),
        are_greedy(groups, terms),
    ensures
        is_grouping(terms, group_views(groups)),
{
    reveal(is_grouping);
    let views = group_views(groups);
    let n = terms.len();
    assert forall|g: int| 0 <= g < views.len() implies is_factor_group(#[trigger] views[g], terms)
        && (forall|k: int|
        0 <= k < views[g].positions.len() ==> !taken(
            views,
            g,
            #[trigger] views[g].positions[k],
        )) by {
        let (before, after) = (claims_after(groups, n, g), claims_after(groups, n, g + 1));
        assert(is_group(groups[g], terms, before, after));
        assert(is_whole(groups[g], terms, after));
        lemma_taken(groups, terms, g);
        assert forall|k: int| 0 <= k < views[g].positions.len() implies 0
            <= #[trigger] views[g].positions[k] < n && has_factor(
            terms[views[g].positions[k]],
            views[g].factor,
            views[g].side,
        ) && !taken(views, g, views[g].positions[k]) by {
            assert(is_member(groups[g], terms, before, groups[g].terms@[k]));
            assert(before[views[g].positions[k]] == taken(views, g, views[g].positions[k]));
        }
        assert forall|k: int, l: int| 0 <= k < l < views[g].positions.len() implies (
        #[trigger] views[g].positions[k]) < (#[trigger] views[g].positions[l]) by {
            assert(groups[g].terms@[k].0 < groups[g].terms@[l].0);
        }
    }
    assert forall|g: int, i: int|
        0 <= g < views.len() && 0 <= i < n && !taken(views, g + 1, i) implies !has_factor(
        #[trigger] terms[i],
        (#[trigger] views[g]).factor,
        views[g].side,
    ) by {
        lemma_taken(groups, terms, g + 1);
        assert(is_whole(groups[g], terms, claims_after(groups, n, g + 1)));
        assert(!claims_after(groups, n, g + 1)[i]);
    }
    assert forall|g: int, h: int| 0 <= g < h < views.len() implies ((#[trigger] views[h]).side is Left
        ==> (#[trigger] views[g]).side is Left) && (views[g].side == views[h].side
        ==> views[g].positions[0] < views[h].positions[0]) by {
        assert(in_order(groups[g], groups[h]));
        assert(is_whole(groups[g], terms, claims_after(groups, n, g + 1)));
        assert(is_whole(groups[h], terms, claims_after(groups, n, h + 1)));
    }
    assert forall|g: int|
        0 <= g < views.len() && (#[trigger] views[g]).side is Right implies none_shared(
        terms,
        views,
        g,
        FactorSide::Left,
    ) by {
        assert(groups[g].side is Right);
        lemma_settled(groups, terms, g, FactorSide::Left);
    }
    lemma_settled(groups, terms, groups.len() as int, FactorSide::Left);
    lemma_settled(groups, terms, groups.len() as int, FactorSide::Right);
}

proof fn lemma_settled<M: Modulus>(
    groups: Seq<FactorGroup<M>>,
    terms: Seq<Ast<M>>,
    g: int,
    side: FactorSide,
)
    requires
        are_groups(groups, terms),
        0 <= g <= groups.len(),
        settled(terms, claims_after(groups, terms.len(), g), side, terms.len() as int),
    ensures
        none_shared(terms, group_views(groups), g, side),
{
    let views = group_views(groups);
    lemma_taken(groups, terms, g);
    assert forall|i: int, j: int|
        0 <= i < j < terms.len() && !taken(views, g, i) && !taken(
            views,
            g,
            j,
        ) implies !share_factor(#[trigger] terms[i], #[trigger] terms[j], side) by {
        assert(!claims_after(groups, terms.len(), g)[i]);
        assert(!claims_after(groups, terms.len(), g)[j]);
    }
}

/// The run of a selector with the challenge power of its last term.
spec fn run_compiled<M: Modulus>(
    plan: SelectorFamilyRun<M>,
    run: SelectorRunMatch,
    terms: Seq<Ast<M>>,
    base: int,
) -> bool {
    &&& bodies_compiled(
        plan.bodies,
        bodies_of(terms, run.start as int, run.end as int, run.side),
        base,
    )
    &&& is_power::<M>(plan.power@, base, terms.len() - run.end)
}

/// The bodies of a run are what is left of its terms.
proof fn lemma_bodies_of<M: Modulus>(
    terms: Seq<Ast<M>>,
    start: int,
    end: int,
    factor: Ast<M>,
    side: FactorSide,
    bodies: Seq<Ast<M>>,
)
    requires
        is_body_run(terms, start, end, factor, side, bodies),
    ensures
        bodies == bodies_of(terms, start, end, side),
{
    assert forall|i: int| 0 <= i < bodies.len() implies #[trigger] bodies[i] == bodies_of(
        terms,
        start,
        end,
        side,
    )[i] by {
        assert(factored(terms[start + i], side).unwrap().1 == bodies[start + i - start]);
    }
    assert(bodies =~= bodies_of(terms, start, end, side));
}

proof fn lemma_factor_start_at<M: Modulus>(
    terms: Seq<Ast<M>>,
    claimed: Seq<bool>,
    start: int,
    end: int,
    side: FactorSide,
    target: int,
)
    requires
        0 <= target <= start,
        forall|i: int|
            #![trigger terms[i]]
            #![trigger claimed[i]]
            target <= i < start ==> !claimed[i] && share_factor(terms[end - 1], terms[i], side),
        target > 0 ==> claimed[target - 1] || !share_factor(
            terms[end - 1],
            terms[target - 1],
            side,
        ),
    ensures
        factor_start(terms, claimed, start, end, side) == target,
    decreases start,
{
    if start > target {
        assert(share_factor(terms[end - 1], terms[start - 1], side));
        lemma_factor_start_at(terms, claimed, start - 1, end, side, target);
    }
}

/// The longest run in an unclaimed stretch is the longest run of unclaimed terms.
proof fn lemma_run_start<M: Modulus>(
    terms: Seq<Ast<M>>,
    claimed: Seq<bool>,
    from: int,
    end: int,
    offset: int,
    side: FactorSide,
)
    requires
        0 <= from < end <= terms.len(),
        forall|i: int| from <= i < end ==> !#[trigger] claimed[i],
        from > 0 ==> claimed[from - 1],
        is_factor_run(terms.subrange(from, end), offset, end - from, side),
    ensures
        factor_start(terms, claimed, end - 1, end, side) == from + offset,
{
    let stretch = terms.subrange(from, end);
    assert(stretch[end - from - 1] == terms[end - 1]);
    assert forall|i: int|
        #![trigger terms[i]]
        #![trigger claimed[i]]
        from + offset <= i < end - 1 implies !claimed[i]
        && share_factor(terms[end - 1], terms[i], side) by {
        assert(stretch[i - from] == terms[i]);
    }
    if offset > 0 {
        assert(stretch[offset - 1] == terms[from + offset - 1]);
    }
    lemma_factor_start_at(terms, claimed, end - 1, end, side, from + offset);
}

/// A polynomial that is evaluated by Horner's rule.
proof fn lemma_horner_compiled<M: Modulus>(plan: EvaluationPlan<M>, ast: Ast<M>, x: Ast<M>)
    requires
        ast is Add,
        plan matches EvaluationPlan::Horner { base, coefficients } && is_expanded(
            ast,
            x,
            coefficients@,
        ) && is_compiled(*base, x),
    ensures
        is_compiled(plan, ast),
{
    if let EvaluationPlan::Horner { base, coefficients } = plan {
        let c = coefficients@;
        assert(is_expanded(ast, x, c) && is_compiled(*base, x));
    }
}

/// Bodies that are evaluated by groups.
proof fn lemma_factored_compiled<M: Modulus>(
    plan: FactorBodyPlan<M>,
    work: Seq<FactorBodyWork<M>>,
    groups: Seq<Group<M>>,
    bodies: Seq<Ast<M>>,
    base: int,
)
    requires
        plan matches FactorBodyPlan::Factored(items) && items@ == work,
        is_grouping(bodies, groups),
        groups.len() > 0,
        work.len() == groups.len() + loose(groups, bodies.len() as int).len(),
        forall|g: int|
            0 <= g < groups.len() ==> group_compiled(#[trigger] work[g], groups[g], bodies, base),
        forall|w: int|
            groups.len() <= w < work.len() ==> single_compiled(
                #[trigger] work[w],
                bodies,
                loose(groups, bodies.len() as int)[w - groups.len()],
                base,
            ),
    ensures
        bodies_compiled(plan, bodies, base),
{
    assert(groups_compiled(work, groups, bodies, base));
}

/// The item of a run with a common factor.
proof fn lemma_shared_span<M: Modulus>(
    terms: Seq<Ast<M>>,
    claimed: Seq<bool>,
    from: int,
    end: int,
    offset: int,
    side: FactorSide,
)
    requires
        0 <= from < end <= terms.len(),
        forall|i: int| from <= i < end ==> !#[trigger] claimed[i],
        from > 0 ==> claimed[from - 1],
        is_factor_run(terms.subrange(from, end), offset, end - from, side),
        offset + 1 < end - from,
        side is Right ==> is_factor_run(
            terms.subrange(from, end),
            end - from - 1,
            end - from,
            FactorSide::Left,
        ),
    ensures
        span_before(terms, claimed, end) == (Span { start: from + offset, end, side: Some(side) }),
{
    lemma_run_start(terms, claimed, from, end, offset, side);
    if side is Right {
        lemma_run_start(terms, claimed, from, end, end - from - 1, FactorSide::Left);
    }
}

/// The item of a term that shares no factor with the term before it.
proof fn lemma_single_span<M: Modulus>(
    terms: Seq<Ast<M>>,
    claimed: Seq<bool>,
    from: int,
    end: int,
)
    requires
        0 <= from < end <= terms.len(),
        forall|i: int| from <= i < end ==> !#[trigger] claimed[i],
        from > 0 ==> claimed[from - 1],
        terms[end - 1] is Mul ==> {
            let (stretch, last) = (terms.subrange(from, end), end - from - 1);
            is_factor_run(stretch, last, last + 1, FactorSide::Left) && is_factor_run(
                stretch,
                last,
                last + 1,
                FactorSide::Right,
            )
        },
    ensures
        span_before(terms, claimed, end) == (Span { start: end - 1, end, side: None }),
{
    if terms[end - 1] is Mul {
        lemma_run_start(terms, claimed, from, end, end - from - 1, FactorSide::Left);
        lemma_run_start(terms, claimed, from, end, end - from - 1, FactorSide::Right);
    }
}

proof fn lemma_span_pushed<M: Modulus>(
    terms: Seq<Ast<M>>,
    claimed: Seq<bool>,
    all: Seq<Span>,
    done: Seq<Span>,
    end: int,
)
    requires
        0 < end,
        !claimed[end - 1],
        all == done + spans(terms, claimed, end),
    ensures
        all == done.push(span_before(terms, claimed, end)) + spans(
            terms,
            claimed,
            span_before(terms, claimed, end).start,
        ),
{
    let span = span_before(terms, claimed, end);
    assert(all =~= done.push(span) + spans(terms, claimed, span.start));
}

impl<M: Modulus> FactorBodyPlan<M> {
    /// Compiles the bodies of a run, grouped by their own common factors.
    #[verifier::rlimit(60)]
    #[verifier::spinoff_prover]
    fn compile(terms: &Vec<&Ast<M>>, base: Fe<M>, Ghost(bound): Ghost<nat>) -> (r: Self)
        requires
            terms@.len() > 0,
            forall|i: int|
                0 <= i < terms@.len() ==> (#[trigger] pointees(terms@)[i]).height() < bound,
        ensures
            body_implements(r, pointees(terms@), base@),
            bodies_compiled(r, pointees(terms@), base@),
        decreases bound, 0nat,
    {
        let n = terms.len();
        let ghost all = pointees(terms@);
        proof {
            M::lemma_modulus();
            assert forall|i: int| 0 <= i < terms@.len() implies (#[trigger] terms@[i]).height()
                < bound by {
                assert(all[i] == *terms@[i]);
            }
        }
        let groups = factor_groups(terms);
        let ghost views = group_views(groups@);
        proof {
            lemma_grouping(groups@, all);
        }
        if groups.len() == 0 {
            let mut plans: Vec<EvaluationPlan<M>> = Vec::new();
            let mut i: usize = 0;
            while i < n
                invariant
                    i <= n,
                    n == terms@.len(),
                    all == pointees(terms@),
                    plans@.len() == i,
                    forall|k: int| 0 <= k < terms@.len() ==> (#[trigger] terms@[k]).height()
                        < bound,
                    forall|k: int| 0 <= k < i ==> implements(#[trigger] plans@[k], all[k]),
                    forall|k: int| 0 <= k < i ==> is_compiled(#[trigger] plans@[k], all[k]),
                decreases n - i,
            {
                assert(all[i as int] == *terms@[i as int]);
                assert(terms@[i as int].height() < bound);
                plans.push(EvaluationPlan::compile(terms[i]));
                i += 1;
            }
            let r = FactorBodyPlan::Sequential(plans);
            proof {
                lemma_sequential(r, plans@, all, base@);
                assert(views =~= Seq::empty());
            }
            return r;
        }
        let powers = power_table(base, n);
        let mut claimed: Vec<bool> = vec![false; n];
        let mut work: Vec<FactorBodyWork<M>> = Vec::new();
        proof {
            lemma_cover_no_bodies(all, claimed@, base@);
            assert(claimed@ =~= claims_after(groups@, n as nat, 0));
        }
        let mut g: usize = 0;
        while g < groups.len()
            invariant
                M::p() > 1,
                g <= groups@.len(),
                n == terms@.len(),
                all == pointees(terms@),
                forall|k: int| 0 <= k < terms@.len() ==> (#[trigger] terms@[k]).height() < bound,
                are_groups(groups@, all),
                is_power_table(powers@, base@, n as int),
                claimed@ == claims_after(groups@, n as nat, g as int),
                covers_bodies(work@, all, claimed@, base@),
                views == group_views(groups@),
                work@.len() == g,
                forall|h: int|
                    0 <= h < g ==> group_compiled(#[trigger] work@[h], views[h], all, base@),
            decreases groups@.len() - g,
        {
            let group = &groups[g];
            let ghost before = claimed@;
            assert(is_group(
                *group,
                all,
                claims_after(groups@, n as nat, g as int),
                claims_after(groups@, n as nat, g + 1),
            ));
            let mut weighted: Vec<WeightedTerm<M>> = Vec::new();
            let mut k: usize = 0;
            proof {
                lemma_group_start(*group.factor, all, claimed@, base@);
            }
            while k < group.terms.len()
                invariant
                    M::p() > 1,
                    k <= group.terms@.len(),
                    n == terms@.len(),
                    all == pointees(terms@),
                    before.len() == n,
                    forall|k: int| 0 <= k < terms@.len() ==> (#[trigger] terms@[k]).height()
                        < bound,
                    is_group(*group, all, before, claims_after(groups@, n as nat, g + 1)),
                    is_power_table(powers@, base@, n as int),
                    claimed@ == claim_all(before, group.terms@, k as int),
                    covers_group(weighted@, *group.factor, all, before, claimed@, base@),
                    weighted@.len() == k,
                    forall|l: int|
                        0 <= l < k ==> weighted_compiled(
                            #[trigger] weighted@[l],
                            factored(all[group.terms@[l].0 as int], group.side).unwrap().1,
                            n - 1 - group.terms@[l].0,
                            base@,
                        ),
                decreases group.terms@.len() - k,
            {
                let (position, body) = group.terms[k];
                proof {
                    assert(is_member(*group, all, before, group.terms@[k as int]));
                    assert forall|l: int| 0 <= l < k implies (#[trigger] group.terms@[l]).0
                        < before.len() by {
                        assert(is_member(*group, all, before, group.terms@[l]));
                    }
                    lemma_claim_all(before, group.terms@, k as int);
                    assert(all[position as int] == *terms@[position as int]);
                    lemma_part_height(all[position as int], group.side);
                    assert(terms@[position as int].height() < bound);
                }
                let term = WeightedTerm {
                    term: EvaluationPlan::compile(body),
                    power: powers[n - 1 - position],
                };
                proof {
                    lemma_group_push(
                        weighted@,
                        *group.factor,
                        all,
                        before,
                        claimed@,
                        base@,
                        position as int,
                        group.side,
                        term,
                    );
                }
                weighted.push(term);
                claimed.set(position, true);
                k += 1;
            }
            proof {
                let i = choose|i: int|
                    0 <= i < all.len() && #[trigger] factored(all[i], group.side) is Some
                        && factored(all[i], group.side).unwrap().0 == *group.factor;
                lemma_part_height(all[i], group.side);
                assert(all[i] == *terms@[i]);
                assert(terms@[i].height() < bound);
            }
            let item = FactorBodyWork::SharedFactor {
                factor: EvaluationPlan::compile(group.factor),
                terms: weighted,
            };
            proof {
                assert(views[g as int] == group_view(*group));
                assert forall|l: int| 0 <= l < weighted@.len() implies weighted_compiled(
                    #[trigger] weighted@[l],
                    factored(all[views[g as int].positions[l]], group.side).unwrap().1,
                    all.len() - 1 - views[g as int].positions[l],
                    base@,
                ) by {}
                assert(group_compiled(item, views[g as int], all, base@));
                lemma_cover_group(work@, all, before, claimed@, base@, *group.factor, item);
            }
            work.push(item);
            g += 1;
        }
        proof {
            lemma_taken(groups@, all, groups@.len() as int);
        }
        let mut i: usize = 0;
        while i < n
            invariant
                views.len() == groups@.len(),
                work@.len() == views.len() + loose(views, i as int).len(),
                forall|h: int|
                    0 <= h < views.len() ==> group_compiled(
                        #[trigger] work@[h],
                        views[h],
                        all,
                        base@,
                    ),
                forall|w: int|
                    views.len() <= w < work@.len() ==> single_compiled(
                        #[trigger] work@[w],
                        all,
                        loose(views, i as int)[w - views.len()],
                        base@,
                    ),
                claimed@.len() == n,
                forall|k: int|
                    i <= k < n ==> #[trigger] claimed@[k] == taken(
                        views,
                        views.len() as int,
                        k,
                    ),
                M::p() > 1,
                i <= n,
                n == terms@.len(),
                all == pointees(terms@),
                forall|k: int| 0 <= k < terms@.len() ==> (#[trigger] terms@[k]).height() < bound,
                is_power_table(powers@, base@, n as int),
                covers_bodies(work@, all, claimed@, base@),
                forall|k: int| 0 <= k < i ==> #[trigger] claimed@[k],
            decreases n - i,
        {
            let ghost rest = loose(views, i as int);
            assert(claimed@[i as int] == taken(views, views.len() as int, i as int));
            assert(loose(views, i + 1) == if claimed@[i as int] {
                rest
            } else {
                rest.push(i as int)
            });
            if !claimed[i] {
                assert(all[i as int] == *terms@[i as int]);
                assert(terms@[i as int].height() < bound);
                let term = WeightedTerm {
                    term: EvaluationPlan::compile(terms[i]),
                    power: powers[n - 1 - i],
                };
                proof {
                    lemma_cover_body(work@, all, claimed@, base@, i as int, term);
                }
                let item = FactorBodyWork::Term(term);
                assert(single_compiled(item, all, i as int, base@));
                work.push(item);
                claimed.set(i, true);
            }
            i += 1;
        }
        let r = FactorBodyPlan::Factored(work);
        proof {
            lemma_factored_compiled(r, work@, views, all, base@);
            lemma_bodies_covered(r, work@, all, claimed@, base@);
        }
        r
    }
}

/// The powers of `base` from the zeroth on.
spec fn is_power_table<M: Modulus>(powers: Seq<Fe<M>>, base: int, n: int) -> bool {
    &&& powers.len() == n
    &&& forall|i: int|
        0 <= i < n ==> congruent((#[trigger] powers[i])@, pow(base, i as nat), M::p())
}

fn power_table<M: Modulus>(base: Fe<M>, n: usize) -> (r: Vec<Fe<M>>)
    ensures
        is_power_table(r@, base@, n as int),
{
    let mut powers: Vec<Fe<M>> = Vec::new();
    let mut power = Fe::<M>::one();
    proof {
        M::lemma_modulus();
        lemma_pow0(base@);
    }
    let mut i: usize = 0;
    while i < n
        invariant
            M::p() > 1,
            i <= n,
            congruent(power@, pow(base@, i as nat), M::p()),
            is_power_table(powers@, base@, i as int),
        decreases n - i,
    {
        powers.push(power);
        proof {
            lemma_pow1(base@);
            lemma_pow_adds(base@, i as nat, 1);
            lemma_congruent_ops(power@, pow(base@, i as nat), base@, base@, M::p());
            lemma_congruent_mod(power@ * base@, M::p());
        }
        power = power.mul(base);
        i += 1;
    }
    powers
}

pub(crate) fn fill_claimed(claimed: &mut Vec<bool>, start: usize, end: usize)
    requires
        start <= end <= old(claimed)@.len(),
    ensures
        final(claimed)@ == claim(old(claimed)@, start as int, end as int),
{
    let ghost before = claimed@;
    let mut i: usize = start;
    assert(claimed@ =~= claim(before, start as int, start as int));
    while i < end
        invariant
            start <= i <= end <= before.len(),
            claimed@ == claim(before, start as int, i as int),
        decreases end - i,
    {
        claimed.set(i, true);
        i += 1;
        assert(claimed@ =~= claim(before, start as int, i as int));
    }
}

/// The position after the last claimed one before `end`.
fn unclaimed_start(claimed: &Vec<bool>, end: usize) -> (r: usize)
    requires
        end <= claimed@.len(),
    ensures
        r <= end,
        forall|i: int| r <= i < end ==> !#[trigger] claimed@[i],
        r > 0 ==> claimed@[r - 1],
{
    let mut start: usize = end;
    while start > 0 && !claimed[start - 1]
        invariant
            start <= end <= claimed@.len(),
            forall|i: int| start <= i < end ==> !#[trigger] claimed@[i],
        decreases start,
    {
        start -= 1;
    }
    start
}

/// The bodies of a run of products.
fn run_bodies<'a, M: Modulus>(
    terms: &'a [Ast<M>],
    start: usize,
    end: usize,
    side: FactorSide,
    Ghost(factor): Ghost<Ast<M>>,
) -> (r: Vec<&'a Ast<M>>)
    requires
        start < end <= terms@.len(),
        forall|i: int| start <= i < end ==> has_factor(#[trigger] terms@[i], factor, side),
    ensures
        is_body_run(terms@, start as int, end as int, factor, side, pointees(r@)),
{
    let mut r: Vec<&'a Ast<M>> = Vec::new();
    let mut i: usize = start;
    while i < end
        invariant
            start <= i <= end <= terms@.len(),
            r@.len() == i - start,
            forall|i: int| start <= i < end ==> has_factor(#[trigger] terms@[i], factor, side),
            forall|k: int|
                start <= k < i ==> factored(#[trigger] terms@[k], side).unwrap().1 == *r@[k - start],
        decreases end - i,
    {
        assert(has_factor(terms@[i as int], factor, side));
        if let Some((_, body)) = factor_terms(&terms[i], side) {
            r.push(body);
        }
        i += 1;
    }
    r
}

proof fn lemma_part_height<M: Modulus>(term: Ast<M>, side: FactorSide)
    requires
        factored(term, side) is Some,
    ensures
        factored(term, side).unwrap().0.height() < term.height(),
        factored(term, side).unwrap().1.height() < term.height(),
{
}

proof fn lemma_bodies_height<M: Modulus>(
    terms: Seq<Ast<M>>,
    start: int,
    end: int,
    factor: Ast<M>,
    side: FactorSide,
    bodies: Seq<Ast<M>>,
    bound: nat,
)
    requires
        is_body_run(terms, start, end, factor, side, bodies),
        forall|i: int| 0 <= i < terms.len() ==> (#[trigger] terms[i]).height() < bound,
    ensures
        forall|i: int| 0 <= i < bodies.len() ==> (#[trigger] bodies[i]).height() < bound,
{
    assert forall|i: int| 0 <= i < bodies.len() implies (#[trigger] bodies[i]).height() < bound by {
        let t = terms[start + i];
        assert(t.height() < bound);
        assert(has_factor(t, factor, side));
        lemma_part_height(t, side);
    }
}

/// A run in a stretch of the terms is a run in the terms.
proof fn lemma_stretch_run<M: Modulus>(
    terms: Seq<Ast<M>>,
    from: int,
    end: int,
    offset: int,
    factor: Ast<M>,
    side: FactorSide,
)
    requires
        0 <= from < end <= terms.len(),
        is_factor_run(terms.subrange(from, end), offset, end - from, side),
        factored(terms[end - 1], side).unwrap().0 == factor,
    ensures
        factored(terms[end - 1], side) is Some,
        forall|i: int|
            from + offset <= i < end ==> has_factor(#[trigger] terms[i], factor, side),
{
    let stretch = terms.subrange(from, end);
    factor.lemma_same_reflexive();
    assert forall|i: int| from + offset <= i < end implies has_factor(
        #[trigger] terms[i],
        factor,
        side,
    ) by {
        if i < end - 1 {
            assert(has_factor(stretch[i - from], factor, side));
        }
    }
}

/// The families are those that the recognition of selectors gives.
spec fn are_families<M: Modulus>(
    families: Seq<SelectorFamilyMatch>,
    terms: Seq<Ast<M>>,
) -> bool {
    &&& forall|f: int|
        0 <= f < families.len() ==> (#[trigger] families[f]).runs@.len()
            == families[f].combination_len && families[f].runs@.len() >= 1
    &&& forall|f: int, k: int|
        0 <= f < families.len() && 0 <= k < families[f].runs@.len() ==> is_selector_run(
            terms,
            FoundRun {
                query: families[f].query,
                combination_len: families[f].combination_len,
                run: #[trigger] families[f].runs@[k],
            },
        ) && families[f].runs@[k].assigned_root == k + 1
    &&& forall|f: int, k: int, g: int, l: int|
        0 <= f < families.len() && 0 <= k < families[f].runs@.len() && 0 <= g < families.len() && 0
            <= l < families[g].runs@.len() && (f != g || k != l) ==> are_disjoint(
            #[trigger] families[f].runs@[k],
            #[trigger] families[g].runs@[l],
        )
}

/// No run from position `(f, k)` on is claimed.
spec fn unclaimed_from(
    families: Seq<SelectorFamilyMatch>,
    claimed: Seq<bool>,
    f: int,
    k: int,
) -> bool {
    forall|g: int, l: int, i: int|
        0 <= g < families.len() && 0 <= l < families[g].runs@.len() && (g > f || (g == f && l >= k))
            && families[g].runs@[l].start <= i < families[g].runs@[l].end && i < claimed.len()
            ==> !(#[trigger] is_claimed_in(families[g].runs@[l], claimed, i))
}

spec fn is_claimed_in(run: SelectorRunMatch, claimed: Seq<bool>, i: int) -> bool {
    claimed[i]
}

proof fn lemma_family_len<M: Modulus>(
    families: Seq<SelectorFamilyMatch>,
    terms: Seq<Ast<M>>,
    f: int,
)
    requires
        are_families(families, terms),
        0 <= f < families.len(),
    ensures
        families[f].runs@.len() == families[f].combination_len,
        families[f].runs@.len() >= 4,
{
    assert(families[f].runs@.len() >= 1);
    lemma_family_run(families, terms, f, 0);
}

proof fn lemma_family_run<M: Modulus>(
    families: Seq<SelectorFamilyMatch>,
    terms: Seq<Ast<M>>,
    f: int,
    k: int,
)
    requires
        are_families(families, terms),
        0 <= f < families.len(),
        0 <= k < families[f].runs@.len(),
    ensures
        ({
            let run = families[f].runs@[k];
            let factor = factored(terms[run.start as int], run.side).unwrap().0;
            &&& run.start < run.end <= terms.len()
            &&& factored(terms[run.start as int], run.side) is Some
            &&& is_selector(
                factor,
                families[f].query,
                families[f].combination_len as nat,
                (k + 1) as nat,
            )
            &&& families[f].combination_len == families[f].runs@.len()
            &&& forall|i: int|
                run.start <= i < run.end ==> has_factor(#[trigger] terms[i], factor, run.side)
        }),
{
    let run = families[f].runs@[k];
    let found = FoundRun {
        query: families[f].query,
        combination_len: families[f].combination_len,
        run,
    };
    assert(is_selector_run(terms, found));
    assert(families[f].runs@.len() == families[f].combination_len);
    let factor = factored(terms[run.start as int], run.side).unwrap().0;
    factor.lemma_same_reflexive();
}

proof fn lemma_unclaimed_run(
    families: Seq<SelectorFamilyMatch>,
    claimed: Seq<bool>,
    f: int,
    k: int,
)
    requires
        unclaimed_from(families, claimed, f, k),
        0 <= f < families.len(),
        0 <= k < families[f].runs@.len(),
        families[f].runs@[k].end <= claimed.len(),
    ensures
        forall|i: int|
            families[f].runs@[k].start <= i < families[f].runs@[k].end ==> !#[trigger] claimed[i],
{
    let run = families[f].runs@[k];
    assert forall|i: int| run.start <= i < run.end implies !#[trigger] claimed[i] by {
        assert(!is_claimed_in(families[f].runs@[k], claimed, i));
    }
}

proof fn lemma_claim_run<M: Modulus>(
    families: Seq<SelectorFamilyMatch>,
    terms: Seq<Ast<M>>,
    claimed: Seq<bool>,
    f: int,
    k: int,
)
    requires
        are_families(families, terms),
        unclaimed_from(families, claimed, f, k),
        0 <= f < families.len(),
        0 <= k < families[f].runs@.len(),
        claimed.len() == terms.len(),
    ensures
        unclaimed_from(
            families,
            claim(
                claimed,
                families[f].runs@[k].start as int,
                families[f].runs@[k].end as int,
            ),
            f,
            k + 1,
        ),
{
    let run = families[f].runs@[k];
    let after = claim(claimed, run.start as int, run.end as int);
    assert forall|g: int, l: int, i: int|
        0 <= g < families.len() && 0 <= l < families[g].runs@.len() && (g > f || (g == f && l >= k
            + 1)) && families[g].runs@[l].start <= i < families[g].runs@[l].end && i
            < after.len() implies !(#[trigger] is_claimed_in(
        families[g].runs@[l],
        after,
        i,
    )) by {
        assert(!is_claimed_in(families[g].runs@[l], claimed, i));
        assert(are_disjoint(families[f].runs@[k], families[g].runs@[l]));
    }
}

proof fn lemma_next_family(families: Seq<SelectorFamilyMatch>, claimed: Seq<bool>, f: int)
    requires
        0 <= f < families.len(),
        unclaimed_from(families, claimed, f, families[f].runs@.len() as int),
    ensures
        unclaimed_from(families, claimed, f + 1, 0),
{
    assert forall|g: int, l: int, i: int|
        0 <= g < families.len() && 0 <= l < families[g].runs@.len() && (g > f + 1 || (g == f + 1 && l
            >= 0)) && families[g].runs@[l].start <= i < families[g].runs@[l].end && i
            < claimed.len() implies !(#[trigger] is_claimed_in(
        families[g].runs@[l],
        claimed,
        i,
    )) by {}
}

proof fn lemma_minus_one<M: Modulus>(one: Fe<M>)
    requires
        one@ == 1,
    ensures
        (-one@) % M::p() == M::p() - 1,
{
    M::lemma_modulus();
    vstd::arithmetic::div_mod::lemma_small_mod((M::p() - 1) as nat, M::p() as nat);
    vstd::arithmetic::div_mod::lemma_mod_add_multiples_vanish(-1, M::p());
}

proof fn lemma_nothing_claimed(values: Seq<int>, claimed: Seq<bool>, base: int)
    requires
        forall|i: int| 0 <= i < values.len() ==> !#[trigger] claimed[i],
    ensures
        horner(masked(values, claimed), base) == 0,
{
    let m = masked(values, claimed);
    assert forall|i: int| 0 <= i < m.len() implies #[trigger] m[i] == 0 by {
        assert(!claimed[i]);
    }
    lemma_horner_zero(m, base);
}

proof fn lemma_cover_none<M: Modulus>(terms: Seq<Ast<M>>, claimed: Seq<bool>, base: int)
    requires
        claimed.len() == terms.len(),
        forall|i: int| 0 <= i < terms.len() ==> !#[trigger] claimed[i],
    ensures
        covers_terms(Seq::<DistributionWork<M>>::empty(), terms, claimed, base),
{
    assert forall|row: Row| terms_fit(terms, row) implies congruent(
        #[trigger] DistributionWork::<M>::total(Seq::empty(), base, row),
        horner(masked(Ast::values(terms, row), claimed), base),
        M::p(),
    ) by {
        lemma_nothing_claimed(Ast::values(terms, row), claimed, base);
    }
}

proof fn lemma_cover_no_bodies<M: Modulus>(bodies: Seq<Ast<M>>, claimed: Seq<bool>, base: int)
    requires
        claimed.len() == bodies.len(),
        forall|i: int| 0 <= i < bodies.len() ==> !#[trigger] claimed[i],
    ensures
        covers_bodies(Seq::<FactorBodyWork<M>>::empty(), bodies, claimed, base),
{
    assert forall|row: Row| row.pointwise() implies congruent(
        #[trigger] FactorBodyWork::<M>::total(Seq::empty(), row),
        horner(masked(Ast::values(bodies, row), claimed), base),
        M::p(),
    ) by {
        lemma_nothing_claimed(Ast::values(bodies, row), claimed, base);
    }
}

proof fn lemma_distribute_parts<M: Modulus>(ast: Ast<M>, terms: Seq<Ast<M>>, base: Fe<M>)
    requires
        ast matches Ast::DistributePowers(t, b) && t@ == terms && b == base,
    ensures
        forall|row: Row| ast.fits(row) ==> #[trigger] terms_fit(terms, row),
        forall|f: spec_fn(AstLeaf) -> bool| #[trigger] ast.leaves(f) ==> all_leaves(terms, f),
        forall|row: Row| #[trigger]
            ast.value(row) == horner(Ast::values(terms, row), base@),
{
    assert forall|f: spec_fn(AstLeaf) -> bool| #[trigger] ast.leaves(f) implies all_leaves(
        terms,
        f,
    ) by {
        assert forall|i: int| 0 <= i < terms.len() implies (#[trigger] terms[i]).leaves(f) by {
            Ast::lemma_terms_leaves(terms, f, i);
        }
    }
    assert forall|row: Row| #[trigger]
        ast.value(row) == horner(Ast::values(terms, row), base@) by {
        Ast::lemma_terms_value(terms, base@, row);
    }
}

proof fn lemma_single_term<M: Modulus>(
    ast: Ast<M>,
    terms: Seq<Ast<M>>,
    base: Fe<M>,
    r: EvaluationPlan<M>,
)
    requires
        ast matches Ast::DistributePowers(t, b) && t@ == terms && b == base,
        terms.len() == 1,
        implements(r, terms[0]),
    ensures
        implements(r, ast),
{
    lemma_distribute_parts(ast, terms, base);
    assert forall|row: Row| ast.fits(row) implies congruent(
        #[trigger] r.value(row),
        ast.value(row),
        M::p(),
    ) by {
        if Ast::terms_product_free(terms) {
            Ast::lemma_terms_product_free(terms, 0);
        }
        assert(terms[0].fits(row));
        let values = Ast::values(terms, row);
        assert(horner(values.drop_last(), base@) == 0);
        assert(0 * base@ == 0);
        assert(ast.value(row) == horner(values, base@));
    }
    assert forall|f: spec_fn(AstLeaf) -> bool, slots: nat|
        ast.leaves(f) implies #[trigger] r.sound(f, slots) by {
        assert(terms[0].leaves(f));
    }
}

proof fn lemma_distribute_covered<M: Modulus>(
    ast: Ast<M>,
    terms: Seq<Ast<M>>,
    base: Fe<M>,
    claimed: Seq<bool>,
    r: EvaluationPlan<M>,
)
    requires
        ast matches Ast::DistributePowers(t, b) && t@ == terms && b == base,
        r matches EvaluationPlan::DistributePowers { work, base: b } && b == base && covers_terms(
            work@,
            terms,
            claimed,
            base@,
        ),
        forall|i: int| 0 <= i < terms.len() ==> #[trigger] claimed[i],
    ensures
        implements(r, ast),
{
    lemma_distribute_parts(ast, terms, base);
    match r {
        EvaluationPlan::DistributePowers { work, base: b } => {
            assert forall|row: Row| ast.fits(row) implies congruent(
                #[trigger] r.value(row),
                ast.value(row),
                M::p(),
            ) by {
                assert(terms_fit(terms, row));
                let values = Ast::values(terms, row);
                assert(masked(values, claimed) =~= values);
                assert(congruent(
                    DistributionWork::total(work@, base@, row),
                    horner(masked(values, claimed), base@),
                    M::p(),
                ));
                assert(ast.value(row) == horner(values, base@));
            }
            assert(plain(seq![r]));
            lemma_plain_concat(seq![r], DistributionWork::all_nodes(work@));
            assert forall|f: spec_fn(AstLeaf) -> bool, slots: nat|
                ast.leaves(f) implies #[trigger] r.sound(f, slots) by {
                assert forall|i: int| 0 <= i < work@.len() implies (#[trigger] work@[i]).sound(
                    f,
                    slots,
                ) by {}
            }
        },
        _ => {},
    }
}

proof fn lemma_sequence_value<M: Modulus>(
    plans: Seq<EvaluationPlan<M>>,
    bodies: Seq<Ast<M>>,
    base: int,
    row: Row,
)
    requires
        plans.len() == bodies.len(),
        forall|i: int| 0 <= i < bodies.len() ==> implements(#[trigger] plans[i], bodies[i]),
        row.pointwise(),
    ensures
        congruent(
            EvaluationPlan::sequence_value(plans, base, row),
            horner(Ast::values(bodies, row), base),
            M::p(),
        ),
    decreases plans.len(),
{
    M::lemma_modulus();
    let p = M::p();
    if plans.len() > 0 {
        let (a, b) = (plans.drop_last(), bodies.drop_last());
        assert forall|i: int| 0 <= i < b.len() implies implements(#[trigger] a[i], b[i]) by {
            assert(implements(plans[i], bodies[i]));
        }
        lemma_sequence_value(a, b, base, row);
        let values = Ast::values(bodies, row);
        assert(values.drop_last() =~= Ast::values(b, row));
        let (x, y) = (EvaluationPlan::sequence_value(a, base, row), horner(values.drop_last(), base));
        lemma_congruent_ops(x, y, base, base, p);
        assert(implements(plans[plans.len() - 1], bodies[plans.len() - 1]));
        assert(bodies.last().fits(row));
        assert(congruent(plans.last().value(row), bodies.last().value(row), p));
        lemma_congruent_ops(
            x * base,
            y * base,
            plans.last().value(row),
            bodies.last().value(row),
            p,
        );
    }
}

proof fn lemma_sequence_plain<M: Modulus>(plans: Seq<EvaluationPlan<M>>)
    requires
        forall|i: int| 0 <= i < plans.len() ==> (#[trigger] plans[i]).cache_free(),
    ensures
        plain(EvaluationPlan::sequence_nodes(plans)),
    decreases plans.len(),
{
    if plans.len() > 0 {
        assert forall|i: int| 0 <= i < plans.drop_last().len() implies (
        #[trigger] plans.drop_last()[i]).cache_free() by {
            assert(plans[i].cache_free());
        }
        lemma_sequence_plain(plans.drop_last());
        assert(plans[plans.len() - 1].cache_free());
        assert(plain(plans.last().nodes()));
        lemma_plain_concat(
            EvaluationPlan::sequence_nodes(plans.drop_last()),
            plans.last().nodes(),
        );
    }
}

proof fn lemma_sequential<M: Modulus>(
    r: FactorBodyPlan<M>,
    plans: Seq<EvaluationPlan<M>>,
    bodies: Seq<Ast<M>>,
    base: int,
)
    requires
        r matches FactorBodyPlan::Sequential(v) && v@ == plans,
        plans.len() == bodies.len(),
        plans.len() > 0,
        forall|i: int| 0 <= i < bodies.len() ==> implements(#[trigger] plans[i], bodies[i]),
    ensures
        body_implements(r, bodies, base),
{
    assert forall|row: Row| row.pointwise() implies congruent(
        #[trigger] r.value(base, row),
        horner(Ast::values(bodies, row), base),
        M::p(),
    ) by {
        lemma_sequence_value(plans, bodies, base, row);
    }
    assert forall|i: int| 0 <= i < plans.len() implies (#[trigger] plans[i]).cache_free() by {
        assert(implements(plans[i], bodies[i]));
    }
    lemma_sequence_plain(plans);
    assert forall|f: spec_fn(AstLeaf) -> bool, slots: nat|
        all_leaves(bodies, f) implies #[trigger] r.sound(f, slots) by {
        assert forall|i: int| 0 <= i < plans.len() implies (#[trigger] plans[i]).sound(
            f,
            slots,
        ) by {
            assert(implements(plans[i], bodies[i]));
            assert(bodies[i].leaves(f));
        }
    }
}

proof fn lemma_bodies_covered<M: Modulus>(
    r: FactorBodyPlan<M>,
    work: Seq<FactorBodyWork<M>>,
    bodies: Seq<Ast<M>>,
    claimed: Seq<bool>,
    base: int,
)
    requires
        r matches FactorBodyPlan::Factored(v) && v@ == work,
        covers_bodies(work, bodies, claimed, base),
        forall|i: int| 0 <= i < bodies.len() ==> #[trigger] claimed[i],
    ensures
        body_implements(r, bodies, base),
{
    assert forall|row: Row| row.pointwise() implies congruent(
        #[trigger] r.value(base, row),
        horner(Ast::values(bodies, row), base),
        M::p(),
    ) by {
        let values = Ast::values(bodies, row);
        assert(masked(values, claimed) =~= values);
        assert(congruent(
            FactorBodyWork::total(work, row),
            horner(masked(values, claimed), base),
            M::p(),
        ));
    }
    assert forall|f: spec_fn(AstLeaf) -> bool, slots: nat|
        all_leaves(bodies, f) implies #[trigger] r.sound(f, slots) by {
        assert forall|i: int| 0 <= i < work.len() implies (#[trigger] work[i]).sound(
            f,
            slots,
        ) by {}
    }
}

} // verus!

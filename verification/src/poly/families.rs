//! Complete families of compressed selectors among the terms of a linear combination.
use crate::field::{Fe, Modulus};
use crate::poly::ast::{Ast, AstLeaf};
use crate::poly::recognize::{
    compressed_selector, factor_terms, factored, has_factor, is_selector, roots_without, same_ast,
    FactorSide,
};
use vstd::prelude::*;

verus! {

/// A run of terms selected by one compressed selector.
#[derive(Clone, Copy, Debug, PartialEq, Eq, Structural)]
pub struct SelectorRunMatch {
    /// The root of the selector.
    pub assigned_root: usize,
    /// The first term of the run.
    pub start: usize,
    /// The term after the run.
    pub end: usize,
    /// The side on which the selector stands.
    pub side: FactorSide,
}

/// The selector runs of one combination, in the order of their roots.
#[derive(Debug)]
pub struct SelectorFamilyMatch {
    /// The query of all selectors.
    pub query: AstLeaf,
    /// The number of selectors in the combination.
    pub combination_len: usize,
    /// One run for each root, in ascending order.
    pub runs: Vec<SelectorRunMatch>,
}

/// A run together with the combination it belongs to.
#[derive(Clone, Copy, Debug, PartialEq, Eq, Structural)]
pub struct FoundRun {
    /// The query of the selector.
    pub query: AstLeaf,
    /// The number of selectors in its combination.
    pub combination_len: usize,
    /// The run.
    pub run: SelectorRunMatch,
}

/// The combination and the root of a compressed selector.
pub open spec fn selector_of<M: Modulus>(ast: Ast<M>) -> Option<(AstLeaf, usize, usize)> {
    if exists|q: AstLeaf, l: usize, a: usize| #[trigger] is_selector(ast, q, l as nat, a as nat) {
        Some(
            choose|q: AstLeaf, l: usize, a: usize| #[trigger]
                is_selector(ast, q, l as nat, a as nat),
        )
    } else {
        None
    }
}

/// An expression is the selector of at most one root in one combination.
pub proof fn lemma_selector_unique<M: Modulus>(ast: Ast<M>, q: AstLeaf, l: usize, a: usize)
    requires
        is_selector(ast, q, l as nat, a as nat),
    ensures
        selector_of(ast) == Some((q, l, a)),
{
    let (q2, l2, a2) = selector_of(ast).unwrap();
    assert(is_selector(ast, q2, l2 as nat, a2 as nat));
    let (w, w2) = (roots_without(l as nat, a as nat), roots_without(l2 as nat, a2 as nat));
    assert(w.len() == w2.len());
    if a < a2 {
        assert(w[a - 1] == a + 1);
        assert(w2[a - 1] == a);
    } else if a2 < a {
        assert(w2[a2 - 1] == a2 + 1);
        assert(w[a2 - 1] == a2);
    }
}

/// The side of a selector in a product, the left one first, and the selector.
pub open spec fn selected<M: Modulus>(term: Ast<M>) -> Option<
    (FactorSide, Ast<M>, (AstLeaf, usize, usize)),
> {
    match factored(term, FactorSide::Left) {
        Some((left, right)) => match selector_of(left) {
            Some(selector) => Some((FactorSide::Left, left, selector)),
            None => match selector_of(right) {
                Some(selector) => Some((FactorSide::Right, right, selector)),
                None => None,
            },
        },
        None => None,
    }
}

/// The end of the run of terms from `end` on with the given factor.
pub open spec fn run_end<M: Modulus>(
    terms: Seq<Ast<M>>,
    factor: Ast<M>,
    side: FactorSide,
    end: int,
) -> int
    decreases terms.len() - end,
{
    if 0 <= end < terms.len() && has_factor(terms[end], factor, side) {
        run_end(terms, factor, side, end + 1)
    } else {
        end
    }
}

/// The selector run that starts at a term.
pub open spec fn run_at<M: Modulus>(terms: Seq<Ast<M>>, start: int) -> Option<FoundRun> {
    match selected(terms[start]) {
        Some((side, factor, (query, combination_len, assigned_root))) => Some(
            FoundRun {
                query,
                combination_len,
                run: SelectorRunMatch {
                    assigned_root,
                    start: start as usize,
                    end: run_end(terms, factor, side, start + 1) as usize,
                    side,
                },
            },
        ),
        None => None,
    }
}

/// A run extends over terms with the given factor.
pub proof fn lemma_run_end<M: Modulus>(terms: Seq<Ast<M>>, factor: Ast<M>, side: FactorSide, end: int)
    requires
        0 <= end <= terms.len(),
    ensures
        end <= run_end(terms, factor, side, end) <= terms.len(),
        forall|i: int|
            end <= i < run_end(terms, factor, side, end) ==> has_factor(
                #[trigger] terms[i],
                factor,
                side,
            ),
    decreases terms.len() - end,
{
    if end < terms.len() && has_factor(terms[end], factor, side) {
        lemma_run_end(terms, factor, side, end + 1);
    }
}

/// The selector runs from `start` on, scanning the terms from the left.
pub open spec fn selector_runs<M: Modulus>(terms: Seq<Ast<M>>, start: int) -> Seq<FoundRun>
    decreases terms.len() - start,
{
    if 0 <= start < terms.len() {
        match selected(terms[start]) {
            Some((side, factor, selector)) => {
                proof {
                    lemma_run_end(terms, factor, side, start + 1);
                }
                seq![run_at(terms, start).unwrap()] + selector_runs(
                    terms,
                    run_end(terms, factor, side, start + 1),
                )
            },
            None => selector_runs(terms, start + 1),
        }
    } else {
        Seq::empty()
    }
}

/// A run stands for a selector times bodies.
pub open spec fn is_selector_run<M: Modulus>(terms: Seq<Ast<M>>, found: FoundRun) -> bool {
    let run = found.run;
    &&& run.start < run.end <= terms.len()
    &&& factored(terms[run.start as int], run.side) matches Some((factor, body)) && {
        &&& is_selector(factor, found.query, found.combination_len as nat, run.assigned_root as nat)
        &&& forall|i: int|
            run.start < i < run.end ==> has_factor(#[trigger] terms[i], factor, run.side)
    }
}

/// The run that starts at a term, if a compressed selector stands there.
fn find_run<M: Modulus>(terms: &[Ast<M>], start: usize, minus_one: Fe<M>) -> (r: Option<FoundRun>)
    requires
        start < terms@.len(),
        minus_one@ == M::p() - 1,
    ensures
        r == run_at(terms@, start as int),
        r matches Some(found) ==> is_selector_run(terms@, found) && found.run.start == start,
        selected(terms@[start as int]) matches Some((side, factor, selector)) ==> r is Some
            && r.unwrap().run.end == run_end(terms@, factor, side, start + 1),
{
    let (left, right) = match factor_terms(&terms[start], FactorSide::Left) {
        Some(factors) => factors,
        None => {
            return None;
        },
    };
    match compressed_selector(left, minus_one) {
        Some((query, combination_len, assigned_root)) => {
            proof {
                lemma_selector_unique(*left, query, combination_len, assigned_root);
                lemma_run_end(terms@, *left, FactorSide::Left, start + 1);
            }
            let end = find_run_end(terms, left, FactorSide::Left, start + 1);
            Some(
                FoundRun {
                    query,
                    combination_len,
                    run: SelectorRunMatch { assigned_root, start, end, side: FactorSide::Left },
                },
            )
        },
        None => match compressed_selector(right, minus_one) {
            Some((query, combination_len, assigned_root)) => {
                proof {
                    lemma_selector_unique(*right, query, combination_len, assigned_root);
                    lemma_run_end(terms@, *right, FactorSide::Right, start + 1);
                }
                let end = find_run_end(terms, right, FactorSide::Right, start + 1);
                Some(
                    FoundRun {
                        query,
                        combination_len,
                        run: SelectorRunMatch { assigned_root, start, end, side: FactorSide::Right },
                    },
                )
            },
            None => None,
        },
    }
}

fn find_run_end<M: Modulus>(terms: &[Ast<M>], factor: &Ast<M>, side: FactorSide, from: usize) -> (r:
    usize)
    requires
        from <= terms@.len(),
    ensures
        r == run_end(terms@, *factor, side, from as int),
        from <= r <= terms@.len(),
{
    let mut end: usize = from;
    while end < terms.len()
        invariant
            from <= end <= terms@.len(),
            run_end(terms@, *factor, side, from as int) == run_end(
                terms@,
                *factor,
                side,
                end as int,
            ),
        decreases terms@.len() - end,
    {
        let fits = match factor_terms(&terms[end], side) {
            Some((candidate, _)) => same_ast(factor, candidate),
            None => false,
        };
        if !fits {
            return end;
        }
        end += 1;
    }
    end
}

/// All selector runs among the terms.
fn find_runs<M: Modulus>(terms: &[Ast<M>], minus_one: Fe<M>) -> (r: Vec<FoundRun>)
    requires
        minus_one@ == M::p() - 1,
    ensures
        r@ == selector_runs(terms@, 0),
        forall|i: int| 0 <= i < r@.len() ==> is_selector_run(terms@, #[trigger] r@[i]),
        forall|i: int, j: int|
            0 <= i < j < r@.len() ==> (#[trigger] r@[i]).run.end <= (#[trigger] r@[j]).run.start,
{
    let mut found: Vec<FoundRun> = Vec::new();
    let mut start: usize = 0;
    assert(found@ + selector_runs(terms@, 0) =~= selector_runs(terms@, 0));
    while start < terms.len()
        invariant
            minus_one@ == M::p() - 1,
            start <= terms@.len(),
            found@ + selector_runs(terms@, start as int) == selector_runs(terms@, 0),
            forall|i: int| 0 <= i < found@.len() ==> is_selector_run(terms@, #[trigger] found@[i]),
            forall|i: int| 0 <= i < found@.len() ==> (#[trigger] found@[i]).run.end <= start,
            forall|i: int, j: int|
                0 <= i < j < found@.len() ==> (#[trigger] found@[i]).run.end <= (
                #[trigger] found@[j]).run.start,
        decreases terms@.len() - start,
    {
        match find_run(terms, start, minus_one) {
            Some(run) => {
                let ghost before = found@;
                found.push(run);
                proof {
                    let rest = selector_runs(terms@, run.run.end as int);
                    assert(before + (seq![run] + rest) =~= found@ + rest);
                }
                start = run.run.end;
            },
            None => {
                start += 1;
            },
        }
    }
    assert(found@ + selector_runs(terms@, start as int) =~= found@);
    found
}

/// The run belongs to the combination.
pub open spec fn in_combination(found: FoundRun, query: AstLeaf, len: usize) -> bool {
    found.query == query && found.combination_len == len
}

/// Each root of the combination has exactly one run.
pub open spec fn is_complete(found: Seq<FoundRun>, query: AstLeaf, len: usize) -> bool {
    &&& forall|root: int| 1 <= root <= len ==> #[trigger] root_found(found, query, len, root)
    &&& forall|i: int, j: int|
        0 <= i < j < found.len() && in_combination(#[trigger] found[i], query, len)
            && in_combination(#[trigger] found[j], query, len) ==> found[i].run.assigned_root
            != found[j].run.assigned_root
}

/// The run at position `i` is the one of the given root.
pub open spec fn has_root(found: Seq<FoundRun>, query: AstLeaf, len: usize, root: int, i: int) -> bool {
    0 <= i < found.len() && in_combination(found[i], query, len) && found[i].run.assigned_root == root
}

/// Some run is the one of the given root.
pub open spec fn root_found(found: Seq<FoundRun>, query: AstLeaf, len: usize, root: int) -> bool {
    exists|i: int| has_root(found, query, len, root, i)
}

/// The runs are those of a complete combination, in the order of their roots.
pub open spec fn is_family(
    found: Seq<FoundRun>,
    query: AstLeaf,
    len: usize,
    runs: Seq<SelectorRunMatch>,
) -> bool {
    &&& is_complete(found, query, len)
    &&& runs.len() == len
    &&& forall|k: int|
        0 <= k < len ==> exists|i: int|
            has_root(found, query, len, k + 1, i) && found[i].run == #[trigger] runs[k]
}

/// The runs of a combination in the order of their roots, if it is complete.
fn order_runs(found: &Vec<FoundRun>, query: AstLeaf, len: usize) -> (r: Option<
    Vec<SelectorRunMatch>,
>)
    requires
        forall|i: int|
            0 <= i < found@.len() ==> 1 <= (#[trigger] found@[i]).run.assigned_root
                <= found@[i].combination_len,
    ensures
        match r {
            Some(runs) => is_family(found@, query, len, runs@),
            None => !is_complete(found@, query, len),
        },
{
    let mut slots: Vec<Option<usize>> = Vec::new();
    let mut k: usize = 0;
    while k < len
        invariant
            k <= len,
            slots@.len() == k,
            forall|j: int| 0 <= j < k ==> #[trigger] slots@[j] is None,
        decreases len - k,
    {
        slots.push(None);
        k += 1;
    }
    let mut i: usize = 0;
    while i < found.len()
        invariant
            i <= found@.len(),
            slots@.len() == len,
            forall|j: int|
                0 <= j < found@.len() ==> 1 <= (#[trigger] found@[j]).run.assigned_root
                    <= found@[j].combination_len,
            forall|s: int|
                0 <= s < len ==> ((#[trigger] slots@[s]) matches Some(j) ==> j < i && has_root(
                    found@,
                    query,
                    len,
                    s + 1,
                    j as int,
                )),
            forall|j: int|
                0 <= j < i && in_combination(#[trigger] found@[j], query, len) ==> slots@[found@[j].run.assigned_root
                    - 1] == Some(j as usize),
        decreases found@.len() - i,
    {
        let run = found[i];
        if run.query == query && run.combination_len == len {
            let slot: usize = run.run.assigned_root - 1;
            if let Some(j) = slots[slot] {
                assert(has_root(found@, query, len, slot + 1, j as int));
                return None;
            }
            slots.set(slot, Some(i));
        }
        i += 1;
    }
    let mut runs: Vec<SelectorRunMatch> = Vec::new();
    let mut k: usize = 0;
    while k < len
        invariant
            k <= len,
            runs@.len() == k,
            slots@.len() == len,
            forall|s: int|
                0 <= s < len ==> ((#[trigger] slots@[s]) matches Some(j) ==> has_root(
                    found@,
                    query,
                    len,
                    s + 1,
                    j as int,
                )),
            forall|j: int|
                0 <= j < found@.len() && in_combination(#[trigger] found@[j], query, len)
                    ==> slots@[found@[j].run.assigned_root - 1] == Some(j as usize),
            forall|s: int| 0 <= s < k ==> #[trigger] slots@[s] is Some,
            forall|s: int|
                0 <= s < k ==> exists|j: int|
                    has_root(found@, query, len, s + 1, j) && found@[j].run == #[trigger] runs@[s],
        decreases len - k,
    {
        match slots[k] {
            Some(j) => {
                assert(has_root(found@, query, len, k + 1, j as int));
                runs.push(found[j].run);
                assert(found@[j as int].run == runs@[k as int]);
            },
            None => {
                proof {
                    if is_complete(found@, query, len) {
                        let root = k + 1;
                        assert(root_found(found@, query, len, root));
                        let t = choose|t: int| has_root(found@, query, len, root, t);
                        assert(slots@[found@[t].run.assigned_root - 1] is Some);
                    }
                }
                return None;
            },
        }
        k += 1;
    }
    proof {
        assert forall|root: int| 1 <= root <= len implies #[trigger] root_found(
            found@,
            query,
            len,
            root,
        ) by {
            let s = root - 1;
            assert(slots@[s] is Some);
            assert(has_root(found@, query, len, s + 1, slots@[s].unwrap() as int));
        }
        assert forall|i: int, j: int|
            0 <= i < j < found@.len() && in_combination(#[trigger] found@[i], query, len)
                && in_combination(#[trigger] found@[j], query, len) implies found@[i].run.assigned_root
            != found@[j].run.assigned_root by {
            assert(found@.len() == found.len());
            if found@[i].run.assigned_root == found@[j].run.assigned_root {
                assert(slots@[found@[i].run.assigned_root - 1] == Some(i as usize));
                assert(slots@[found@[j].run.assigned_root - 1] == Some(j as usize));
            }
        }
        assert(is_complete(found@, query, len));
    }
    Some(runs)
}

/// The match belongs to the combination.
pub open spec fn is_match_of(family: SelectorFamilyMatch, query: AstLeaf, len: usize) -> bool {
    family.query == query && family.combination_len == len
}

/// A run of the combination is found before every run of the other one.
pub open spec fn found_before(
    found: Seq<FoundRun>,
    a: SelectorFamilyMatch,
    b: SelectorFamilyMatch,
) -> bool {
    exists|i: int|
        0 <= i < found.len() && in_combination(#[trigger] found[i], a.query, a.combination_len)
            && forall|j: int|
            0 <= j <= i ==> !in_combination(#[trigger] found[j], b.query, b.combination_len)
}

/// The families are the complete combinations, in the order in which they are found.
pub open spec fn are_family_matches(
    found: Seq<FoundRun>,
    families: Seq<SelectorFamilyMatch>,
) -> bool {
    &&& forall|f: int|
        0 <= f < families.len() ==> is_family(
            found,
            (#[trigger] families[f]).query,
            families[f].combination_len,
            families[f].runs@,
        ) && families[f].combination_len >= 1
    &&& forall|q: AstLeaf, l: usize|
        1 <= l && #[trigger] is_complete(found, q, l) ==> exists|f: int|
            0 <= f < families.len() && #[trigger] is_match_of(families[f], q, l)
    &&& forall|f: int, g: int|
        0 <= f < g < families.len() ==> found_before(
            found,
            #[trigger] families[f],
            #[trigger] families[g],
        )
}

/// Two runs share no term.
pub open spec fn are_disjoint(a: SelectorRunMatch, b: SelectorRunMatch) -> bool {
    a.end <= b.start || b.end <= a.start
}

/// The complete selector families among the terms of a linear combination.
///
/// A combination counts where each of its roots selects exactly one run of the scan from the
/// left.
pub fn selector_family_matches<M: Modulus>(terms: &[Ast<M>], minus_one: Fe<M>) -> (r: Vec<
    SelectorFamilyMatch,
>)
    requires
        minus_one@ == M::p() - 1,
    ensures
        are_family_matches(selector_runs(terms@, 0), r@),
        forall|f: int|
            0 <= f < r@.len() ==> is_family(
                selector_runs(terms@, 0),
                (#[trigger] r@[f]).query,
                r@[f].combination_len,
                r@[f].runs@,
            ) && r@[f].combination_len >= 1,
        forall|q: AstLeaf, l: usize|
            1 <= l && is_complete(selector_runs(terms@, 0), q, l) ==> exists|f: int|
                0 <= f < r@.len() && #[trigger] is_match_of(r@[f], q, l),
        forall|f: int, k: int|
            0 <= f < r@.len() && 0 <= k < r@[f].runs@.len() ==> is_selector_run(
                terms@,
                FoundRun {
                    query: r@[f].query,
                    combination_len: r@[f].combination_len,
                    run: #[trigger] r@[f].runs@[k],
                },
            ) && r@[f].runs@[k].assigned_root == k + 1,
        forall|f: int, k: int, g: int, l: int|
            0 <= f < r@.len() && 0 <= k < r@[f].runs@.len() && 0 <= g < r@.len() && 0 <= l
                < r@[g].runs@.len() && (f != g || k != l) ==> are_disjoint(
                #[trigger] r@[f].runs@[k],
                #[trigger] r@[g].runs@[l],
            ),
{
    let found = find_runs(terms, minus_one);
    let mut families: Vec<SelectorFamilyMatch> = Vec::new();
    let mut i: usize = 0;
    assert forall|i: int| 0 <= i < found@.len() implies 1 <= (
    #[trigger] found@[i]).run.assigned_root <= found@[i].combination_len by {
        assert(is_selector_run(terms@, found@[i]));
    }
    while i < found.len()
        invariant
            i <= found@.len(),
            found@ == selector_runs(terms@, 0),
            forall|i: int|
                0 <= i < found@.len() ==> 1 <= (#[trigger] found@[i]).run.assigned_root
                    <= found@[i].combination_len,
            forall|f: int|
                0 <= f < families@.len() ==> is_family(
                    found@,
                    (#[trigger] families@[f]).query,
                    families@[f].combination_len,
                    families@[f].runs@,
                ) && families@[f].combination_len >= 1,
            forall|j: int|
                0 <= j < i && is_complete(
                    found@,
                    (#[trigger] found@[j]).query,
                    found@[j].combination_len,
                ) ==> exists|f: int|
                    0 <= f < families@.len() && is_match_of(
                        #[trigger] families@[f],
                        found@[j].query,
                        found@[j].combination_len,
                    ),
            forall|f: int, g: int|
                0 <= f < g < families@.len() ==> !is_match_of(
                    #[trigger] families@[f],
                    (#[trigger] families@[g]).query,
                    families@[g].combination_len,
                ),
            forall|f: int|
                0 <= f < families@.len() ==> found_by(found@, #[trigger] families@[f], i as int),
            forall|f: int, g: int|
                0 <= f < g < families@.len() ==> found_before(
                    found@,
                    #[trigger] families@[f],
                    #[trigger] families@[g],
                ),
        decreases found@.len() - i,
    {
        let (query, len) = (found[i].query, found[i].combination_len);
        proof {
            assert forall|f: int| 0 <= f < families@.len() implies found_by(
                found@,
                #[trigger] families@[f],
                i + 1,
            ) by {
                assert(found_by(found@, families@[f], i as int));
            }
        }
        if !has_match(&families, query, len) {
            if let Some(runs) = order_runs(&found, query, len) {
                let ghost before = families@;
                families.push(
                    SelectorFamilyMatch { query, combination_len: len, runs },
                );
                proof {
                    assert(forall|f: int| 0 <= f < before.len() ==> families@[f] == before[f]);
                    let last = families@.len() - 1;
                    assert(is_match_of(families@[last], query, len));
                    assert forall|j: int| 0 <= j < i implies !in_combination(
                        #[trigger] found@[j],
                        query,
                        len,
                    ) by {
                        if in_combination(found@[j], query, len) {
                            assert(is_complete(
                                found@,
                                found@[j].query,
                                found@[j].combination_len,
                            ));
                        }
                    }
                    assert(in_combination(found@[i as int], query, len));
                    assert forall|f: int, g: int| 0 <= f < g < families@.len() implies found_before(
                        found@,
                        #[trigger] families@[f],
                        #[trigger] families@[g],
                    ) by {
                        assert(families@[f] == before[f]);
                        if g == last {
                            assert(found_by(found@, before[f], i as int) || found_by(
                                found@,
                                before[f],
                                i + 1,
                            ));
                            assert(!is_match_of(before[f], query, len));
                        } else {
                            assert(found_before(found@, before[f], before[g]));
                        }
                    }
                    assert forall|f: int| 0 <= f < families@.len() implies found_by(
                        found@,
                        #[trigger] families@[f],
                        i + 1,
                    ) by {
                        if f < last {
                            assert(found_by(found@, before[f], i + 1));
                        }
                    }
                }
            }
        }
        i += 1;
    }
    proof {
        lemma_family_runs(terms@, found@, families@);
        assert forall|q: AstLeaf, l: usize| 1 <= l && is_complete(found@, q, l) implies exists|f: int|
            0 <= f < families@.len() && #[trigger] is_match_of(families@[f], q, l) by {
            assert(root_found(found@, q, l, 1));
            let t = choose|t: int| has_root(found@, q, l, 1, t);
            assert(is_complete(found@, found@[t].query, found@[t].combination_len));
        }
    }
    families
}

/// A run of the combination is found before position `i`.
spec fn found_by(found: Seq<FoundRun>, a: SelectorFamilyMatch, i: int) -> bool {
    exists|j: int|
        0 <= j < i && j < found.len() && in_combination(
            #[trigger] found[j],
            a.query,
            a.combination_len,
        )
}

proof fn lemma_family_runs<M: Modulus>(
    terms: Seq<Ast<M>>,
    found: Seq<FoundRun>,
    r: Seq<SelectorFamilyMatch>,
)
    requires
        forall|i: int| 0 <= i < found.len() ==> is_selector_run(terms, #[trigger] found[i]),
        forall|i: int, j: int|
            0 <= i < j < found.len() ==> (#[trigger] found[i]).run.end <= (
            #[trigger] found[j]).run.start,
        forall|f: int|
            0 <= f < r.len() ==> is_family(
                found,
                (#[trigger] r[f]).query,
                r[f].combination_len,
                r[f].runs@,
            ),
        forall|f: int, g: int|
            0 <= f < g < r.len() ==> !is_match_of(
                #[trigger] r[f],
                (#[trigger] r[g]).query,
                r[g].combination_len,
            ),
    ensures
        forall|f: int, k: int|
            0 <= f < r.len() && 0 <= k < r[f].runs@.len() ==> is_selector_run(
                terms,
                FoundRun {
                    query: r[f].query,
                    combination_len: r[f].combination_len,
                    run: #[trigger] r[f].runs@[k],
                },
            ) && r[f].runs@[k].assigned_root == k + 1,
        forall|f: int, k: int, g: int, l: int|
            0 <= f < r.len() && 0 <= k < r[f].runs@.len() && 0 <= g < r.len() && 0 <= l
                < r[g].runs@.len() && (f != g || k != l) ==> are_disjoint(
                #[trigger] r[f].runs@[k],
                #[trigger] r[g].runs@[l],
            ),
{
    assert forall|f: int, k: int| 0 <= f < r.len() && 0 <= k < r[f].runs@.len() implies is_selector_run(
        terms,
        FoundRun {
            query: r[f].query,
            combination_len: r[f].combination_len,
            run: #[trigger] r[f].runs@[k],
        },
    ) && r[f].runs@[k].assigned_root == k + 1 by {
        let i = lemma_family_index(found, r[f], k);
        assert(is_selector_run(terms, found[i]));
    }
    assert forall|f: int, k: int, g: int, l: int|
        0 <= f < r.len() && 0 <= k < r[f].runs@.len() && 0 <= g < r.len() && 0 <= l
            < r[g].runs@.len() && (f != g || k != l) implies are_disjoint(
        #[trigger] r[f].runs@[k],
        #[trigger] r[g].runs@[l],
    ) by {
        let i = lemma_family_index(found, r[f], k);
        let j = lemma_family_index(found, r[g], l);
        if i == j {
            assert(k == l);
            if f < g {
                assert(!is_match_of(r[f], r[g].query, r[g].combination_len));
            } else {
                assert(!is_match_of(r[g], r[f].query, r[f].combination_len));
            }
        } else if i < j {
            assert(found[i].run.end <= found[j].run.start);
        } else {
            assert(found[j].run.end <= found[i].run.start);
        }
    }
}

proof fn lemma_family_index(found: Seq<FoundRun>, family: SelectorFamilyMatch, k: int) -> (i: int)
    requires
        is_family(found, family.query, family.combination_len, family.runs@),
        0 <= k < family.runs@.len(),
    ensures
        has_root(found, family.query, family.combination_len, k + 1, i),
        found[i].run == family.runs@[k],
{
    choose|i: int|
        has_root(found, family.query, family.combination_len, k + 1, i) && found[i].run
            == family.runs@[k]
}

fn has_match(families: &Vec<SelectorFamilyMatch>, query: AstLeaf, len: usize) -> (r: bool)
    ensures
        r == exists|f: int| 0 <= f < families@.len() && is_match_of(#[trigger] families@[f], query, len),
{
    let mut f: usize = 0;
    while f < families.len()
        invariant
            f <= families@.len(),
            forall|g: int| 0 <= g < f ==> !is_match_of(#[trigger] families@[g], query, len),
        decreases families@.len() - f,
    {
        if families[f].query == query && families[f].combination_len == len {
            assert(is_match_of(families@[f as int], query, len));
            return true;
        }
        f += 1;
    }
    false
}

} // verus!

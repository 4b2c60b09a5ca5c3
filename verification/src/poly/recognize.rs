//! Recognition of the expression shapes that have a cheaper plan.
use crate::field::{Fe, Modulus};
use crate::poly::ast::{target, Ast, AstLeaf, Row};
use crate::poly::plan::{polynomial_value, selector_factor};
use vstd::arithmetic::power::{lemma_pow0, lemma_pow1, lemma_pow_adds, pow};
use vstd::prelude::*;

verus! {

impl<M: Modulus> Ast<M> {
    /// The two expressions are built alike, from the same leaves and field elements.
    pub open spec fn same(self, other: Ast<M>) -> bool
        decreases self,
    {
        match (self, other) {
            (Ast::Poly(a), Ast::Poly(b)) => a == b,
            (Ast::Add(a, b), Ast::Add(c, d)) => a.same(*c) && b.same(*d),
            (Ast::Mul(a, b), Ast::Mul(c, d)) => a.same(*c) && b.same(*d),
            (Ast::Scale(a, s), Ast::Scale(b, t)) => s@ == t@ && a.same(*b),
            (Ast::DistributePowers(a, s), Ast::DistributePowers(b, t)) => {
                &&& s@ == t@
                &&& a@.len() == b@.len()
                &&& forall|i: int| 0 <= i < a@.len() ==> (#[trigger] a@[i]).same(b@[i])
            },
            (Ast::LinearTerm(s), Ast::LinearTerm(t)) => s@ == t@,
            (Ast::ConstantTerm(s), Ast::ConstantTerm(t)) => s@ == t@,
            _ => false,
        }
    }

    /// Expressions built alike have the same value.
    pub proof fn lemma_same_value(self, other: Ast<M>, row: Row)
        requires
            self.same(other),
        ensures
            self.value(row) == other.value(row),
        decreases self,
    {
        match (self, other) {
            (Ast::Add(a, b), Ast::Add(c, d)) => {
                target(a).lemma_same_value(target(c), row);
                target(b).lemma_same_value(target(d), row);
            },
            (Ast::Mul(a, b), Ast::Mul(c, d)) => {
                target(a).lemma_same_value(target(c), row);
                target(b).lemma_same_value(target(d), row);
            },
            (Ast::Scale(a, s), Ast::Scale(b, t)) => {
                target(a).lemma_same_value(target(b), row);
            },
            (Ast::DistributePowers(a, s), Ast::DistributePowers(b, t)) => {
                Self::lemma_same_terms_value(a@, b@, s@, row);
            },
            _ => {},
        }
    }

    /// An expression is built like itself.
    pub proof fn lemma_same_reflexive(self)
        ensures
            self.same(self),
        decreases self,
    {
        match self {
            Ast::Add(a, b) => {
                target(a).lemma_same_reflexive();
                target(b).lemma_same_reflexive();
            },
            Ast::Mul(a, b) => {
                target(a).lemma_same_reflexive();
                target(b).lemma_same_reflexive();
            },
            Ast::Scale(a, s) => {
                target(a).lemma_same_reflexive();
            },
            Ast::DistributePowers(a, s) => {
                assert forall|i: int| 0 <= i < a@.len() implies (#[trigger] a@[i]).same(a@[i]) by {
                    a@[i].lemma_same_reflexive();
                }
            },
            _ => {},
        }
    }

    /// Being built alike is symmetric.
    pub proof fn lemma_same_symmetric(self, other: Ast<M>)
        requires
            self.same(other),
        ensures
            other.same(self),
        decreases self,
    {
        match (self, other) {
            (Ast::Add(a, b), Ast::Add(c, d)) => {
                target(a).lemma_same_symmetric(target(c));
                target(b).lemma_same_symmetric(target(d));
            },
            (Ast::Mul(a, b), Ast::Mul(c, d)) => {
                target(a).lemma_same_symmetric(target(c));
                target(b).lemma_same_symmetric(target(d));
            },
            (Ast::Scale(a, s), Ast::Scale(b, t)) => {
                target(a).lemma_same_symmetric(target(b));
            },
            (Ast::DistributePowers(a, s), Ast::DistributePowers(b, t)) => {
                assert forall|i: int| 0 <= i < b@.len() implies (#[trigger] b@[i]).same(a@[i]) by {
                    assert(a@[i].same(b@[i]));
                    a@[i].lemma_same_symmetric(b@[i]);
                }
            },
            _ => {},
        }
    }

    proof fn lemma_same_terms_value(a: Seq<Ast<M>>, b: Seq<Ast<M>>, base: int, row: Row)
        requires
            a.len() == b.len(),
            forall|i: int| 0 <= i < a.len() ==> (#[trigger] a[i]).same(b[i]),
        ensures
            Self::terms_value(a, base, row) == Self::terms_value(b, base, row),
        decreases a,
    {
        if a.len() > 0 {
            assert forall|i: int| 0 <= i < a.drop_last().len() implies (#[trigger] a.drop_last()[i]).same(
                b.drop_last()[i],
            ) by {
                assert(a[i].same(b[i]));
            }
            Self::lemma_same_terms_value(a.drop_last(), b.drop_last(), base, row);
            assert(a[a.len() - 1].same(b[a.len() - 1]));
            a.last().lemma_same_value(b.last(), row);
        }
    }
}

/// Whether two expressions are built alike.
pub fn same_ast<M: Modulus>(lhs: &Ast<M>, rhs: &Ast<M>) -> (r: bool)
    ensures
        r == lhs.same(*rhs),
    decreases lhs,
{
    match (lhs, rhs) {
        (Ast::Poly(a), Ast::Poly(b)) => *a == *b,
        (Ast::Add(a, b), Ast::Add(c, d)) => same_ast(a, c) && same_ast(b, d),
        (Ast::Mul(a, b), Ast::Mul(c, d)) => same_ast(a, c) && same_ast(b, d),
        (Ast::Scale(a, s), Ast::Scale(b, t)) => s.same(*t) && same_ast(a, b),
        (Ast::DistributePowers(a, s), Ast::DistributePowers(b, t)) => {
            s.same(*t) && a.len() == b.len() && same_terms(a, b)
        },
        (Ast::LinearTerm(s), Ast::LinearTerm(t)) => s.same(*t),
        (Ast::ConstantTerm(s), Ast::ConstantTerm(t)) => s.same(*t),
        _ => false,
    }
}

fn same_terms<M: Modulus>(lhs: &Vec<Ast<M>>, rhs: &Vec<Ast<M>>) -> (r: bool)
    requires
        lhs@.len() == rhs@.len(),
    ensures
        r == forall|i: int| 0 <= i < lhs@.len() ==> (#[trigger] lhs@[i]).same(rhs@[i]),
    decreases lhs@,
{
    let mut i: usize = 0;
    while i < lhs.len()
        invariant
            i <= lhs@.len(),
            lhs@.len() == rhs@.len(),
            forall|k: int| 0 <= k < i ==> (#[trigger] lhs@[k]).same(rhs@[k]),
        decreases lhs@.len() - i,
    {
        if !same_ast(&lhs[i], &rhs[i]) {
            return false;
        }
        i += 1;
    }
    true
}

/// The side of a product that holds a shared factor.
#[derive(Clone, Copy, Debug, PartialEq, Eq, Structural)]
pub enum FactorSide {
    /// The left operand.
    Left,
    /// The right operand.
    Right,
}

/// The factor and the body of a product, with the factor on the given side.
pub open spec fn factored<M: Modulus>(term: Ast<M>, side: FactorSide) -> Option<(Ast<M>, Ast<M>)> {
    match term {
        Ast::Mul(lhs, rhs) => match side {
            FactorSide::Left => Some((*lhs, *rhs)),
            FactorSide::Right => Some((*rhs, *lhs)),
        },
        _ => None,
    }
}

/// Splits a product into the factor on the given side and the body.
pub fn factor_terms<M: Modulus>(term: &Ast<M>, side: FactorSide) -> (r: Option<(&Ast<M>, &Ast<M>)>)
    ensures
        match r {
            Some((factor, body)) => factored(*term, side) == Some((*factor, *body)),
            None => factored(*term, side) is None,
        },
{
    match term {
        Ast::Mul(lhs, rhs) => match side {
            FactorSide::Left => Some((lhs, rhs)),
            FactorSide::Right => Some((rhs, lhs)),
        },
        _ => None,
    }
}

/// The term is a product with the given factor on the given side.
pub open spec fn has_factor<M: Modulus>(term: Ast<M>, factor: Ast<M>, side: FactorSide) -> bool {
    factored(term, side) matches Some((candidate, body)) && factor.same(candidate)
}

/// Whether a term is a product with the given factor on the given side.
fn check_factor<M: Modulus>(term: &Ast<M>, factor: &Ast<M>, side: FactorSide) -> (r: bool)
    ensures
        r == has_factor(*term, *factor, side),
{
    match factor_terms(term, side) {
        Some((candidate, _)) => same_ast(factor, candidate),
        None => false,
    }
}

/// `start` begins the longest run of terms that ends before `end` and shares the factor of the
/// last term on the given side.
pub open spec fn is_factor_run<M: Modulus>(
    terms: Seq<Ast<M>>,
    start: int,
    end: int,
    side: FactorSide,
) -> bool {
    &&& 0 <= start < end <= terms.len()
    &&& factored(terms[end - 1], side) matches Some((factor, body)) && {
        &&& forall|i: int| start <= i < end - 1 ==> has_factor(#[trigger] terms[i], factor, side)
        &&& start > 0 ==> !has_factor(terms[start - 1], factor, side)
    }
}

/// The longest run of products before `end` with a common factor, of at least two terms; a run
/// with a common left factor goes before one with a common right factor.
pub fn shared_factor_run<M: Modulus>(terms: &[Ast<M>], end: usize) -> (r: Option<
    (usize, &Ast<M>, FactorSide),
>)
    requires
        0 < end <= terms@.len(),
    ensures
        match r {
            Some((start, factor, side)) => {
                &&& is_factor_run(terms@, start as int, end as int, side)
                &&& start + 1 < end
                &&& factored(terms@[end - 1], side).unwrap().0 == *factor
                &&& side == FactorSide::Right ==> is_factor_run(
                    terms@,
                    end - 1,
                    end as int,
                    FactorSide::Left,
                )
            },
            None => {
                ||| !(terms@[end - 1] is Mul)
                ||| {
                    &&& is_factor_run(terms@, end - 1, end as int, FactorSide::Left)
                    &&& is_factor_run(terms@, end - 1, end as int, FactorSide::Right)
                }
            },
        },
{
    match shared_factor_side(terms, end, FactorSide::Left) {
        Some((start, factor)) => {
            if end - start > 1 {
                return Some((start, factor, FactorSide::Left));
            }
        },
        None => {
            return None;
        },
    }
    match shared_factor_side(terms, end, FactorSide::Right) {
        Some((start, factor)) => {
            if end - start > 1 {
                return Some((start, factor, FactorSide::Right));
            }
        },
        None => {
            return None;
        },
    }
    None
}

fn shared_factor_side<M: Modulus>(terms: &[Ast<M>], end: usize, side: FactorSide) -> (r: Option<
    (usize, &Ast<M>),
>)
    requires
        0 < end <= terms@.len(),
    ensures
        match r {
            Some((start, factor)) => is_factor_run(terms@, start as int, end as int, side)
                && factored(terms@[end - 1], side).unwrap().0 == *factor,
            None => !(terms@[end - 1] is Mul),
        },
{
    match factor_terms(&terms[end - 1], side) {
        Some((factor, _)) => {
            let mut start: usize = end - 1;
            while start > 0 && check_factor(&terms[start - 1], factor, side)
                invariant
                    start < end <= terms@.len(),
                    forall|i: int|
                        start <= i < end - 1 ==> has_factor(#[trigger] terms@[i], *factor, side),
                decreases start,
            {
                start -= 1;
            }
            Some((start, factor))
        },
        None => None,
    }
}

/// The shortest selector combination that is planned as a family.
pub const MIN_SELECTOR_FAMILY_LEN: usize = 4;

/// The root and the query of `root - query`.
pub open spec fn difference<M: Modulus>(ast: Ast<M>) -> Option<(int, AstLeaf)> {
    match ast {
        Ast::Add(constant, negated) => match (*constant, *negated) {
            (Ast::ConstantTerm(root), Ast::Scale(query, scalar)) => if scalar@ == M::p() - 1 {
                match *query {
                    Ast::Poly(leaf) => Some((root@, leaf)),
                    _ => None,
                }
            } else {
                None
            },
            _ => None,
        },
        _ => None,
    }
}

/// Recognizes `root - query`.
fn selector_difference<M: Modulus>(ast: &Ast<M>, minus_one: Fe<M>) -> (r: Option<(Fe<M>, AstLeaf)>)
    requires
        minus_one@ == M::p() - 1,
    ensures
        match r {
            Some((root, leaf)) => difference(*ast) == Some((root@, leaf)),
            None => difference(*ast) is None,
        },
{
    match ast {
        Ast::Add(constant, negated) => match &**constant {
            Ast::ConstantTerm(root) => match &**negated {
                Ast::Scale(query, scalar) => {
                    if scalar.same(minus_one) {
                        match &**query {
                            Ast::Poly(leaf) => Some((*root, *leaf)),
                            _ => None,
                        }
                    } else {
                        None
                    }
                },
                _ => None,
            },
            _ => None,
        },
        _ => None,
    }
}

/// The query of a product `query * (r_1 - query) * (r_2 - query) * ...` and its roots.
pub open spec fn selector_parts<M: Modulus>(ast: Ast<M>) -> Option<(AstLeaf, Seq<int>)>
    decreases ast,
{
    match ast {
        Ast::Poly(leaf) => Some((leaf, Seq::empty())),
        Ast::Mul(lhs, rhs) => match (selector_parts(*lhs), difference(*rhs)) {
            (Some((leaf, roots)), Some((root, query))) => if leaf == query {
                Some((leaf, roots.push(root)))
            } else {
                None
            },
            _ => None,
        },
        _ => None,
    }
}

/// The numbers from one to `len`, without `root`.
pub open spec fn roots_without(len: nat, root: nat) -> Seq<int> {
    Seq::new(
        (len - 1) as nat,
        |i: int| if i + 1 < root { i + 1 } else { i + 2 },
    )
}

/// The expression is the selector with the given root in a combination of `len` selectors.
pub open spec fn is_selector<M: Modulus>(ast: Ast<M>, query: AstLeaf, len: nat, root: nat) -> bool {
    &&& len >= MIN_SELECTOR_FAMILY_LEN
    &&& 1 <= root <= len
    &&& selector_parts(ast) == Some((query, roots_without(len, root)))
}

/// The query and the roots of a product of selector factors.
fn collect_selector_parts<M: Modulus>(ast: &Ast<M>, minus_one: Fe<M>) -> (r: Option<
    (AstLeaf, Vec<Fe<M>>),
>)
    requires
        minus_one@ == M::p() - 1,
    ensures
        match r {
            Some((query, roots)) => selector_parts(*ast) == Some((query, root_values(roots@))),
            None => selector_parts(*ast) is None,
        },
    decreases ast,
{
    match ast {
        Ast::Poly(leaf) => {
            let roots: Vec<Fe<M>> = Vec::new();
            assert(root_values(roots@) =~= Seq::<int>::empty());
            Some((*leaf, roots))
        },
        Ast::Mul(lhs, rhs) => match selector_difference(rhs, minus_one) {
            Some((root, query)) => match collect_selector_parts(lhs, minus_one) {
                Some((leaf, mut roots)) => {
                    if leaf == query {
                        let ghost before = root_values(roots@);
                        roots.push(root);
                        assert(root_values(roots@) =~= before.push(root@));
                        Some((leaf, roots))
                    } else {
                        None
                    }
                },
                None => None,
            },
            None => None,
        },
        _ => None,
    }
}

spec fn root_values<M: Modulus>(roots: Seq<Fe<M>>) -> Seq<int> {
    Seq::new(roots.len(), |i: int| roots[i]@)
}

/// Recognizes the exact expression of a compressed selector: its query, the length of its
/// combination and its own root.
pub fn compressed_selector<M: Modulus>(ast: &Ast<M>, minus_one: Fe<M>) -> (r: Option<
    (AstLeaf, usize, usize),
>)
    requires
        minus_one@ == M::p() - 1,
    ensures
        match r {
            Some((query, len, root)) => is_selector(*ast, query, len as nat, root as nat),
            None => forall|query: AstLeaf, len: usize, root: usize|
                !#[trigger] is_selector(*ast, query, len as nat, root as nat),
        },
{
    let (query, roots) = match collect_selector_parts(ast, minus_one) {
        Some(parts) => parts,
        None => {
            return None;
        },
    };
    let ghost parts = root_values(roots@);
    proof {
        M::lemma_modulus();
        assert forall|q: AstLeaf, l: usize, a: usize| #[trigger]
            is_selector(*ast, q, l as nat, a as nat) implies l == parts.len() + 1 by {
            assert(roots_without(l as nat, a as nat).len() == parts.len());
        }
    }
    if roots.len() == usize::MAX || roots.len() + 1 < MIN_SELECTOR_FAMILY_LEN {
        return None;
    }
    let len: usize = roots.len() + 1;
    // The roots count up from one; the first number left out is the selector's own root.
    let mut root: usize = 1;
    let mut expected = Fe::<M>::one();
    while root < len && roots[root - 1].same(expected)
        invariant
            M::p() > 0x1_0000_0000_0000_0000,
            len == roots@.len() + 1,
            parts == root_values(roots@),
            1 <= root <= len,
            expected@ == root,
            forall|i: int| 0 <= i < root - 1 ==> #[trigger] parts[i] == i + 1,
        decreases len - root,
    {
        expected = expected.add(Fe::one());
        root += 1;
        proof {
            vstd::arithmetic::div_mod::lemma_small_mod(root as nat, M::p() as nat);
        }
    }
    proof {
        assert(root < len ==> parts[root - 1] != root);
        assert forall|q: AstLeaf, l: usize, a: usize| #[trigger]
            is_selector(*ast, q, l as nat, a as nat) implies a == root && l == len && q == query by {
            let w = roots_without(l as nat, a as nat);
            assert(w == parts);
            assert(w.len() == parts.len());
            if a < root {
                assert(w[a - 1] == a + 1);
                assert(parts[a - 1] == a);
            } else if a > root {
                assert(w[root - 1] == root);
            }
        }
    }
    let mut next: usize = root;
    while next < len
        invariant
            M::p() > 0x1_0000_0000_0000_0000,
            len == roots@.len() + 1,
            parts == root_values(roots@),
            1 <= root <= next <= len,
            expected@ == next,
            forall|i: int| 0 <= i < root - 1 ==> #[trigger] parts[i] == i + 1,
            forall|i: int| root - 1 <= i < next - 1 ==> #[trigger] parts[i] == i + 2,
            selector_parts(*ast) == Some((query, parts)),
            forall|q: AstLeaf, l: usize, a: usize| #[trigger]
                is_selector(*ast, q, l as nat, a as nat) ==> a == root && l == len && q == query,
        decreases len - next,
    {
        expected = expected.add(Fe::one());
        proof {
            vstd::arithmetic::div_mod::lemma_small_mod((next + 1) as nat, M::p() as nat);
        }
        if !roots[next - 1].same(expected) {
            proof {
                assert(parts[next - 1] != roots_without(len as nat, root as nat)[next - 1]);
            }
            return None;
        }
        next += 1;
    }
    assert(parts =~= roots_without(len as nat, root as nat));
    Some((query, len, root))
}

/// The value of a product of selector factors.
proof fn lemma_selector_parts_value<M: Modulus>(
    ast: Ast<M>,
    query: AstLeaf,
    roots: Seq<int>,
    row: Row,
)
    requires
        selector_parts(ast) == Some((query, roots)),
        row.pointwise(),
    ensures
        ast.value(row) == (row.leaf)(query) * factors_product(roots, (row.leaf)(query), M::p()),
    decreases ast,
{
    match ast {
        Ast::Mul(lhs, rhs) => {
            let (leaf, front) = selector_parts(target(lhs)).unwrap();
            let (root, q) = difference(target(rhs)).unwrap();
            lemma_selector_parts_value(target(lhs), leaf, front, row);
            assert(roots.drop_last() =~= front);
            let v = (row.leaf)(query);
            let f = selector_factor(root, v, M::p());
            assert(rhs.value(row) == f) by {
                reveal_with_fuel(Ast::value, 4);
            }
            let x = factors_product(front, v, M::p());
            assert((v * x) * f == v * (x * f)) by (nonlinear_arith);
        },
        _ => {
            let v = (row.leaf)(query);
            assert(roots =~= Seq::<int>::empty());
            assert(v * 1 == v);
        },
    }
}

/// The product of the selector factors of the given roots.
pub open spec fn factors_product(roots: Seq<int>, query: int, p: int) -> int
    decreases roots.len(),
{
    if roots.len() == 0 {
        1
    } else {
        factors_product(roots.drop_last(), query, p) * selector_factor(roots.last(), query, p)
    }
}

/// The product of the factors of the roots from one to `hi`, without `root` where it is among
/// them.
pub open spec fn product_without(hi: int, root: int, query: int, p: int) -> int
    decreases hi,
{
    if hi <= 0 {
        1
    } else if hi == root {
        product_without(hi - 1, root, query, p)
    } else {
        product_without(hi - 1, root, query, p) * selector_factor(hi, query, p)
    }
}

proof fn lemma_factors_product(len: nat, root: nat, k: nat, query: int, p: int)
    requires
        1 <= root <= len,
        k <= len,
    ensures
        product_without(k as int, root as int, query, p) == factors_product(
            roots_without(len, root).take(if k < root { k as int } else { k - 1 }),
            query,
            p,
        ),
    decreases k,
{
    let roots = roots_without(len, root);
    if k == 0 {
        assert(roots.take(0) =~= Seq::empty());
    } else {
        lemma_factors_product(len, root, (k - 1) as nat, query, p);
        if k < root {
            assert(roots.take(k as int).drop_last() =~= roots.take(k - 1));
        } else if k > root {
            assert(roots.take(k - 1).drop_last() =~= roots.take(k - 2));
        }
    }
}

/// A compressed selector has the value of its query times the factors of all other roots.
pub proof fn lemma_selector_value<M: Modulus>(
    ast: Ast<M>,
    query: AstLeaf,
    len: nat,
    root: nat,
    row: Row,
)
    requires
        is_selector(ast, query, len, root),
        row.pointwise(),
    ensures
        ast.value(row) == (row.leaf)(query) * product_without(
            len as int,
            root as int,
            (row.leaf)(query),
            M::p(),
        ),
{
    let roots = roots_without(len, root);
    lemma_selector_parts_value(ast, query, roots, row);
    lemma_factors_product(len, root, len, (row.leaf)(query), M::p());
    assert(roots.take(len - 1) =~= roots);
}

/// The smallest number of coefficients that is evaluated by Horner's rule.
pub const MIN_HORNER_COEFFICIENTS: usize = 4;

/// The terms of a left-nested sum that starts from the constant zero.
pub open spec fn sum_terms<M: Modulus>(ast: Ast<M>) -> Option<Seq<Ast<M>>>
    decreases ast,
{
    match ast {
        Ast::Add(lhs, rhs) => match sum_terms(*lhs) {
            Some(terms) => Some(terms.push(*rhs)),
            None => None,
        },
        Ast::ConstantTerm(constant) => if constant@ == 0 {
            Some(Seq::empty())
        } else {
            None
        },
        _ => None,
    }
}

/// A polynomial assembled from independently constructed powers of a base.
#[derive(Debug)]
pub struct ExpandedPolynomial<'a, M: Modulus> {
    /// The base of the powers.
    pub base: &'a Ast<M>,
    /// The coefficients, from the constant upwards.
    pub coefficients: Vec<AstLeaf>,
}

/// The power that a coefficient of a term multiplies.
pub open spec fn power_of<M: Modulus>(term: Ast<M>) -> Ast<M> {
    match term {
        Ast::Mul(power, coefficient) => *power,
        _ => term,
    }
}

/// The term of degree `d` multiplies the coefficient by the base times the previous power; the
/// power of degree zero is the constant one.
pub open spec fn is_power_term<M: Modulus>(
    terms: Seq<Ast<M>>,
    base: Ast<M>,
    leaf: AstLeaf,
    d: int,
) -> bool {
    terms[d] matches Ast::Mul(power, coefficient) && *coefficient == Ast::<M>::Poly(leaf) && if d
        == 0 {
        *power matches Ast::ConstantTerm(one) && one@ == 1
    } else {
        *power matches Ast::Mul(prefix, x) && prefix.same(power_of(terms[d - 1])) && if d == 1 {
            *x == base
        } else {
            base.same(*x)
        }
    }
}

/// The terms are `1 * c_0`, `(1 * x) * c_1`, `((1 * x) * x) * c_2` and so on, up to the degree
/// `k - 1`.
pub open spec fn is_power_basis<M: Modulus>(
    terms: Seq<Ast<M>>,
    base: Ast<M>,
    coefficients: Seq<AstLeaf>,
    k: int,
) -> bool {
    forall|d: int| 0 <= d < k ==> #[trigger] is_power_term(terms, base, coefficients[d], d)
}

/// The expression is `0 + 1 * c_0 + (1 * x) * c_1 + ((1 * x) * x) * c_2 + ...`.
pub open spec fn is_expanded<M: Modulus>(
    ast: Ast<M>,
    base: Ast<M>,
    coefficients: Seq<AstLeaf>,
) -> bool {
    &&& sum_terms(ast) matches Some(terms) && {
        &&& terms.len() == coefficients.len()
        &&& terms.len() >= MIN_HORNER_COEFFICIENTS
        &&& is_power_basis(terms, base, coefficients, terms.len() as int)
    }
}

fn collect_sum_terms<M: Modulus>(ast: &Ast<M>) -> (r: Option<Vec<&Ast<M>>>)
    ensures
        match r {
            Some(terms) => sum_terms(*ast) == Some(pointees(terms@)),
            None => sum_terms(*ast) is None,
        },
    decreases ast,
{
    match ast {
        Ast::Add(lhs, rhs) => match collect_sum_terms(lhs) {
            Some(mut terms) => {
                let ghost before = pointees(terms@);
                terms.push(rhs);
                assert(pointees(terms@) =~= before.push(**rhs));
                Some(terms)
            },
            None => None,
        },
        Ast::ConstantTerm(constant) => {
            if constant.is_zero() {
                let terms: Vec<&Ast<M>> = Vec::new();
                assert(pointees(terms@) =~= Seq::empty());
                Some(terms)
            } else {
                None
            }
        },
        _ => None,
    }
}

/// The expressions that references point to.
pub open spec fn pointees<M: Modulus>(terms: Seq<&Ast<M>>) -> Seq<Ast<M>> {
    Seq::new(terms.len(), |i: int| *terms[i])
}

/// The coefficient of the term of a given degree, if the term has the expected shape.
fn check_power_term<M: Modulus>(terms: &Vec<&Ast<M>>, base: &Ast<M>, degree: usize) -> (r: Option<
    AstLeaf,
>)
    requires
        degree < terms@.len(),
        degree > 0 ==> pointees(terms@)[degree - 1] is Mul,
        degree == 1 ==> (pointees(terms@)[1] matches Ast::Mul(power, coefficient) && (
        *power matches Ast::Mul(prefix, x) && *x == *base)),
    ensures
        match r {
            Some(leaf) => is_power_term(pointees(terms@), *base, leaf, degree as int),
            None => forall|leaf: AstLeaf|
                !#[trigger] is_power_term(pointees(terms@), *base, leaf, degree as int),
        },
{
    assert(pointees(terms@)[degree as int] == *terms@[degree as int]);
    let (power, leaf) = match terms[degree] {
        Ast::Mul(power, coefficient) => match &**coefficient {
            Ast::Poly(leaf) => (&**power, *leaf),
            _ => {
                return None;
            },
        },
        _ => {
            return None;
        },
    };
    if degree == 0 {
        return match power {
            Ast::ConstantTerm(constant) => if constant.same(Fe::one()) {
                Some(leaf)
            } else {
                None
            },
            _ => None,
        };
    }
    assert(pointees(terms@)[degree - 1] == *terms@[degree - 1]);
    let previous = match terms[degree - 1] {
        Ast::Mul(previous, _) => &**previous,
        _ => {
            return None;
        },
    };
    match power {
        Ast::Mul(prefix, x) => if same_ast(prefix, previous) && (degree == 1 || same_ast(
            base,
            x,
        )) {
            Some(leaf)
        } else {
            None
        },
        _ => None,
    }
}

/// Recognizes a polynomial assembled from independently constructed powers.
pub fn expanded_polynomial<'a, M: Modulus>(ast: &'a Ast<M>) -> (r: Option<
    ExpandedPolynomial<'a, M>,
>)
    ensures
        match r {
            Some(polynomial) => is_expanded(*ast, *polynomial.base, polynomial.coefficients@),
            None => forall|base: Ast<M>, coefficients: Seq<AstLeaf>|
                !#[trigger] is_expanded(*ast, base, coefficients),
        },
{
    let terms = match collect_sum_terms(ast) {
        Some(terms) => terms,
        None => {
            return None;
        },
    };
    // Small polynomials do not recover the cost of recognizing them.
    if terms.len() < MIN_HORNER_COEFFICIENTS {
        return None;
    }
    let ghost all = pointees(terms@);
    proof {
        assert(all[1] == *terms@[1]);
        assert forall|b: Ast<M>, c: Seq<AstLeaf>| #[trigger] is_expanded(*ast, b, c) implies (
        all[1] matches Ast::Mul(power, coefficient) && (*power matches Ast::Mul(prefix, x) && *x
            == b)) by {
            assert(is_power_term(all, b, c[1], 1));
        }
    }
    let base: &'a Ast<M> = match terms[1] {
        Ast::Mul(power, _) => match &**power {
            Ast::Mul(_, x) => x,
            _ => {
                return None;
            },
        },
        _ => {
            return None;
        },
    };
    let mut coefficients: Vec<AstLeaf> = Vec::new();
    let mut degree: usize = 0;
    while degree < terms.len()
        invariant
            all == pointees(terms@),
            sum_terms(*ast) == Some(all),
            terms@.len() >= MIN_HORNER_COEFFICIENTS,
            degree <= terms@.len(),
            coefficients@.len() == degree,
            forall|b: Ast<M>, c: Seq<AstLeaf>| #[trigger] is_expanded(*ast, b, c) ==> b == *base,
            all[1] matches Ast::Mul(power, coefficient) && (*power matches Ast::Mul(prefix, x)
                && *x == *base),
            is_power_basis(all, *base, coefficients@, degree as int),
        decreases terms@.len() - degree,
    {
        proof {
            assert(all[degree as int] == *terms@[degree as int]);
            if degree > 0 {
                assert(all[degree - 1] == *terms@[degree - 1]);
                assert(is_power_term(all, *base, coefficients@[degree - 1], degree - 1));
            }
            assert forall|b: Ast<M>, c: Seq<AstLeaf>| #[trigger]
                is_expanded(*ast, b, c) implies is_power_term(
                all,
                *base,
                c[degree as int],
                degree as int,
            ) by {
                assert(is_power_term(all, b, c[degree as int], degree as int));
            }
        }
        match check_power_term(&terms, base, degree) {
            Some(leaf) => {
                let ghost before = coefficients@;
                coefficients.push(leaf);
                proof {
                    assert forall|d: int| 0 <= d < degree + 1 implies #[trigger] is_power_term(
                        all,
                        *base,
                        coefficients@[d],
                        d,
                    ) by {
                        if d < degree {
                            assert(is_power_term(all, *base, before[d], d));
                        }
                    }
                }
            },
            None => {
                return None;
            },
        }
        degree += 1;
    }
    Some(ExpandedPolynomial { base, coefficients })
}

/// Appending the coefficient of the highest power.
pub proof fn lemma_polynomial_push(front: Seq<AstLeaf>, leaf: AstLeaf, x: int, row: Row)
    ensures
        polynomial_value(front.push(leaf), x, row) == polynomial_value(front, x, row) + pow(
            x,
            front.len(),
        ) * (row.leaf)(leaf),
    decreases front.len(),
{
    let v = (row.leaf)(leaf);
    if front.len() == 0 {
        lemma_pow0(x);
        assert(front.push(leaf).drop_first() =~= Seq::empty());
        assert(front.push(leaf).first() == leaf);
        assert(polynomial_value(Seq::empty(), x, row) == 0);
        assert(x * 0 == 0 && 1 * v == v) by (nonlinear_arith);
    } else {
        assert(front.push(leaf).first() == front.first());
        assert(front.push(leaf).drop_first() =~= front.drop_first().push(leaf));
        lemma_polynomial_push(front.drop_first(), leaf, x, row);
        lemma_pow1(x);
        lemma_pow_adds(x, 1, front.drop_first().len());
        let (a, t) = (
            polynomial_value(front.drop_first(), x, row),
            pow(x, front.drop_first().len()),
        );
        assert(x * (a + t * v) == x * a + (x * t) * v) by (nonlinear_arith);
    }
}

/// The value of the first `k` terms over a power basis.
proof fn lemma_power_basis_value<M: Modulus>(
    terms: Seq<Ast<M>>,
    base: Ast<M>,
    coefficients: Seq<AstLeaf>,
    d: int,
    row: Row,
)
    requires
        is_power_basis(terms, base, coefficients, terms.len() as int),
        0 <= d < terms.len(),
        row.pointwise(),
    ensures
        power_of(terms[d]).value(row) == pow(base.value(row), d as nat),
        terms[d].value(row) == pow(base.value(row), d as nat) * (row.leaf)(coefficients[d]),
    decreases d,
{
    let x = base.value(row);
    assert(is_power_term(terms, base, coefficients[d], d));
    assert(terms[d].value(row) == power_of(terms[d]).value(row) * (row.leaf)(coefficients[d])) by {
        reveal_with_fuel(Ast::value, 2);
    }
    if d == 0 {
        lemma_pow0(x);
    } else {
        lemma_power_basis_value(terms, base, coefficients, d - 1, row);
        match power_of(terms[d]) {
            Ast::Mul(prefix, y) => {
                target(prefix).lemma_same_value(power_of(terms[d - 1]), row);
                if d > 1 {
                    base.lemma_same_value(target(y), row);
                }
                lemma_pow1(x);
                lemma_pow_adds(x, (d - 1) as nat, 1);
            },
            _ => {},
        }
    }
}

proof fn lemma_sum_terms_value<M: Modulus>(ast: Ast<M>, row: Row)
    requires
        sum_terms(ast) is Some,
        row.zero_constant(),
    ensures
        ast.value(row) == sum_value(sum_terms(ast).unwrap(), row),
    decreases ast,
{
    match ast {
        Ast::Add(lhs, rhs) => {
            lemma_sum_terms_value(target(lhs), row);
            let front = sum_terms(target(lhs)).unwrap();
            assert(front.push(target(rhs)).drop_last() =~= front);
        },
        _ => {},
    }
}

spec fn sum_value<M: Modulus>(terms: Seq<Ast<M>>, row: Row) -> int
    decreases terms.len(),
{
    if terms.len() == 0 {
        0
    } else {
        sum_value(terms.drop_last(), row) + terms.last().value(row)
    }
}

/// A recognized polynomial has the value that Horner's rule gives.
pub proof fn lemma_expanded_value<M: Modulus>(
    ast: Ast<M>,
    base: Ast<M>,
    coefficients: Seq<AstLeaf>,
    row: Row,
)
    requires
        is_expanded(ast, base, coefficients),
        row.pointwise(),
    ensures
        ast.value(row) == polynomial_value(coefficients, base.value(row), row),
{
    let terms = sum_terms(ast).unwrap();
    lemma_sum_terms_value(ast, row);
    lemma_expanded_prefix(terms, base, coefficients, terms.len(), row);
    assert(terms.take(terms.len() as int) =~= terms);
    assert(coefficients.take(terms.len() as int) =~= coefficients);
}

proof fn lemma_expanded_prefix<M: Modulus>(
    terms: Seq<Ast<M>>,
    base: Ast<M>,
    coefficients: Seq<AstLeaf>,
    k: nat,
    row: Row,
)
    requires
        is_power_basis(terms, base, coefficients, terms.len() as int),
        terms.len() == coefficients.len(),
        k <= terms.len(),
        row.pointwise(),
    ensures
        sum_value(terms.take(k as int), row) == polynomial_value(
            coefficients.take(k as int),
            base.value(row),
            row,
        ),
    decreases k,
{
    if k > 0 {
        let d = k - 1;
        lemma_expanded_prefix(terms, base, coefficients, d as nat, row);
        lemma_power_basis_value(terms, base, coefficients, d, row);
        lemma_polynomial_push(coefficients.take(d), coefficients[d], base.value(row), row);
        assert(terms.take(k as int).drop_last() =~= terms.take(d));
        assert(coefficients.take(d).push(coefficients[d]) =~= coefficients.take(k as int));
    }
}

} // verus!

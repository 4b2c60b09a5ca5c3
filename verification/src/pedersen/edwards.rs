//! The group law of the Jubjub curve, a twisted Edwards curve.
use crate::curve::law::quotient;
use crate::pedersen::complete::{
    lemma_closed_sum, lemma_commuted_sum, lemma_grouped_sum, lemma_opposite_sum,
};
use vstd::arithmetic::div_mod::{
    lemma_add_mod_noop, lemma_fundamental_div_mod, lemma_mod_twice, lemma_small_mod,
};
use vstd::prelude::*;

verus! {

/// The modulus of the base field.
pub open spec fn base_modulus() -> int {
    0x73eda753299d7d483339d80809a1d80553bda402fffe5bfeffffffff00000001int
}

/// The order of the prime-order subgroup.
pub open spec fn subgroup_order() -> int {
    0x0e7db4ea6533afa906673b0101343b00a6682093ccc81082d0970e5ed6f72cb7int
}

/// The parameter of the curve.
pub open spec fn edwards_d() -> int {
    0x2a9318e74bfa2b48f5fd9207e6bd7fd4292d7f6d37579d2601065fd6d6343eb1int
}

/// The coordinates are residues with `-u^2 + v^2 = 1 + d u^2 v^2`.
#[verifier::opaque]
pub open spec fn on_edwards(a: (int, int)) -> bool {
    let (u, v) = a;
    &&& 0 <= u < base_modulus()
    &&& 0 <= v < base_modulus()
    &&& (v * v - u * u - 1 - edwards_d() * (u * u) * (v * v)) % base_modulus() == 0
}

/// The neutral element.
pub open spec fn neutral() -> (int, int) {
    (0, 1)
}

/// The sum of two points.
#[verifier::opaque]
pub open spec fn ed_add(a: (int, int), b: (int, int)) -> (int, int) {
    let (u1, v1) = a;
    let (u2, v2) = b;
    let k = edwards_d() * (u1 * u2) * (v1 * v2);
    (
        quotient(u1 * v2 + v1 * u2, 1 + k, base_modulus()),
        quotient(v1 * v2 + u1 * u2, 1 - k, base_modulus()),
    )
}

/// The opposite of a point.
pub open spec fn ed_neg(a: (int, int)) -> (int, int) {
    ((0 - a.0) % base_modulus(), a.1)
}

/// The `k`-fold sum of a point.
pub open spec fn ed_mul(k: nat, a: (int, int)) -> (int, int)
    decreases k,
{
    if k == 0 {
        neutral()
    } else {
        ed_add(ed_mul((k - 1) as nat, a), a)
    }
}

/// The multiple of a point of the subgroup by a scalar.
pub open spec fn zmul(k: int, a: (int, int)) -> (int, int) {
    ed_mul((k % subgroup_order()) as nat, a)
}

/// The point is in the prime-order subgroup.
pub open spec fn in_subgroup(a: (int, int)) -> bool {
    on_edwards(a) && ed_mul(subgroup_order() as nat, a) == neutral()
}

/// The prime-order subgroup holds the generators.
pub open spec fn are_generators(gens: Seq<(int, int)>) -> bool {
    forall|g: int| 0 <= g < gens.len() ==> in_subgroup(#[trigger] gens[g])
}

/// The parameter of the curve is the quotient of minus 10240 and 10241.
pub proof fn lemma_curve_parameter()
    ensures
        (edwards_d() * 10241 + 10240) % base_modulus() == 0,
        0 <= edwards_d() < base_modulus(),
{
}

/// Generators are lawful exactly where each is on the curve and its multiple by the order of the
/// subgroup is neutral.
pub proof fn lemma_lawful_generators(gens: Seq<(int, int)>)
    ensures
        are_generators(gens) <==> forall|g: int|
            0 <= g < gens.len() ==> {
                let (u, v) = #[trigger] gens[g];
                &&& 0 <= u < base_modulus()
                &&& 0 <= v < base_modulus()
                &&& (v * v - u * u - 1 - edwards_d() * (u * u) * (v * v)) % base_modulus() == 0
                &&& ed_mul(subgroup_order() as nat, (u, v)) == (0int, 1int)
            },
{
    reveal(on_edwards);
}

/// Sums are on the curve and do not depend on the order of the summands.
pub proof fn lemma_ed_closed(a: (int, int), b: (int, int))
    requires
        on_edwards(a),
        on_edwards(b),
    ensures
        on_edwards(ed_add(a, b)),
        ed_add(a, b) == ed_add(b, a),
{
    lemma_closed_sum(a, b);
    lemma_commuted_sum(a, b);
}

/// Sums do not depend on the grouping.
pub proof fn lemma_ed_associative(a: (int, int), b: (int, int), c: (int, int))
    requires
        on_edwards(a),
        on_edwards(b),
        on_edwards(c),
    ensures
        ed_add(ed_add(a, b), c) == ed_add(a, ed_add(b, c)),
{
    lemma_grouped_sum(a, b, c);
}

/// The neutral element.
pub proof fn lemma_ed_neutral(a: (int, int))
    requires
        on_edwards(a),
    ensures
        on_edwards(neutral()),
        ed_add(a, neutral()) == a,
        ed_add(neutral(), a) == a,
        on_edwards(ed_neg(a)),
        ed_add(a, ed_neg(a)) == neutral(),
{
    lemma_opposite_sum(a);
    lemma_neutral_on_curve();
    lemma_ed_closed(a, neutral());
}

/// The neutral element is on the curve.
pub proof fn lemma_neutral_on_curve()
    ensures
        on_edwards(neutral()),
{
    reveal(on_edwards);
    let d = edwards_d();
    assert(d * (0 * 0) * (1 * 1) == 0);
    lemma_small_mod(0, base_modulus() as nat);
}

/// Multiples are on the curve.
pub proof fn lemma_ed_mul_closed(k: nat, a: (int, int))
    requires
        on_edwards(a),
    ensures
        on_edwards(ed_mul(k, a)),
    decreases k,
{
    lemma_neutral_on_curve();
    if k > 0 {
        lemma_ed_mul_closed((k - 1) as nat, a);
        lemma_ed_closed(ed_mul((k - 1) as nat, a), a);
    }
}

/// Multiples add up.
proof fn lemma_ed_mul_add(j: nat, k: nat, a: (int, int))
    requires
        on_edwards(a),
    ensures
        ed_mul(j + k, a) == ed_add(ed_mul(j, a), ed_mul(k, a)),
    decreases k,
{
    lemma_ed_mul_closed(j, a);
    if k == 0 {
        lemma_ed_neutral(ed_mul(j, a));
    } else {
        let i = (k - 1) as nat;
        lemma_ed_mul_add(j, i, a);
        lemma_ed_mul_closed(i, a);
        lemma_ed_associative(ed_mul(j, a), ed_mul(i, a), a);
        assert((j + k - 1) as nat == j + i);
    }
}

/// Multiples of the order vanish.
proof fn lemma_ed_mul_order(k: nat, a: (int, int))
    requires
        in_subgroup(a),
    ensures
        ed_mul(k * subgroup_order() as nat, a) == neutral(),
    decreases k,
{
    let r = subgroup_order() as nat;
    if k == 0 {
        assert(0 * r == 0);
    } else {
        let i = (k - 1) as nat;
        lemma_ed_mul_order(i, a);
        vstd::arithmetic::mul::lemma_mul_is_distributive_add_other_way(r as int, i as int, 1);
        lemma_ed_mul_add(i * r, r, a);
        lemma_neutral_on_curve();
        lemma_ed_neutral(neutral());
    }
}

/// A multiple depends on the residue of the factor alone.
pub proof fn lemma_zmul_of(k: nat, a: (int, int))
    requires
        in_subgroup(a),
    ensures
        zmul(k as int, a) == ed_mul(k, a),
{
    let r = subgroup_order();
    lemma_fundamental_div_mod(k as int, r);
    let (c, m) = ((k as int / r) as nat, (k as int % r) as nat);
    let n = c * r as nat;
    lemma_ed_mul_order(c, a);
    vstd::arithmetic::mul::lemma_mul_is_commutative(c as int, r);
    lemma_ed_mul_add(n, m, a);
    lemma_ed_mul_closed(m, a);
    lemma_ed_neutral(ed_mul(m, a));
    assert(n + m == k);
}

/// Scalar multiples are on the curve.
pub proof fn lemma_zmul_closed(k: int, a: (int, int))
    requires
        in_subgroup(a),
    ensures
        on_edwards(zmul(k, a)),
{
    lemma_ed_mul_closed((k % subgroup_order()) as nat, a);
}

/// Scalar multiples add up.
pub proof fn lemma_zmul_add(j: int, k: int, a: (int, int))
    requires
        in_subgroup(a),
    ensures
        ed_add(zmul(j, a), zmul(k, a)) == zmul(j + k, a),
        on_edwards(zmul(j, a)),
        on_edwards(zmul(k, a)),
{
    let r = subgroup_order();
    let (x, y) = ((j % r) as nat, (k % r) as nat);
    lemma_zmul_closed(j, a);
    lemma_zmul_closed(k, a);
    lemma_ed_mul_add(x, y, a);
    lemma_zmul_of(x + y, a);
    lemma_add_mod_noop(j, k, r);
}

/// Scalars with one residue have one multiple.
pub proof fn lemma_zmul_mod(k: int, a: (int, int))
    ensures
        zmul(k % subgroup_order(), a) == zmul(k, a),
{
    lemma_mod_twice(k, subgroup_order());
}

/// The multiples by zero and one.
pub proof fn lemma_zmul_small(a: (int, int))
    requires
        on_edwards(a),
    ensures
        zmul(0, a) == neutral(),
        zmul(1, a) == a,
{
    lemma_small_mod(0, subgroup_order() as nat);
    lemma_small_mod(1, subgroup_order() as nat);
    lemma_ed_neutral(a);
    assert(ed_mul(1, a) == ed_add(ed_mul(0, a), a));
}

/// The opposite of a multiple.
pub proof fn lemma_zmul_neg(k: int, a: (int, int))
    requires
        in_subgroup(a),
    ensures
        ed_neg(zmul(k, a)) == zmul(0 - k, a),
{
    let (x, y) = (zmul(0 - k, a), zmul(k, a));
    let z = ed_neg(y);
    lemma_zmul_add(0 - k, k, a);
    lemma_zmul_small(a);
    lemma_ed_neutral(y);
    lemma_ed_neutral(x);
    lemma_ed_neutral(z);
    lemma_ed_associative(x, y, z);
}

} // verus!

//! The rows of a polynomial are its coefficients or its values: a rotated leaf reads the value at
//! the point multiplied by a power of the root of unity.
use crate::field::congruence::{
    congruent, lemma_congruent_mod, lemma_congruent_multiple, lemma_congruent_ops,
};
use crate::field::{Fe, Modulus};
use crate::poly::ast::AstLeaf;
use crate::poly::basis::{rotated, row_of, split_of, Basis, EvaluationDomain};
use vstd::arithmetic::div_mod::{
    lemma_fundamental_div_mod, lemma_mod_bound, lemma_small_mod,
};
use vstd::arithmetic::power::{lemma_pow_adds, lemma_pow_mod_noop, lemma_pow_multiplies, pow};
use vstd::prelude::*;

verus! {

/// The value at `x` of the polynomial with the given coefficients, the constant one first.
pub open spec fn value_at(coefficients: Seq<int>, x: int) -> int
    decreases coefficients.len(),
{
    if coefficients.len() == 0 {
        0
    } else {
        coefficients.first() + x * value_at(coefficients.drop_first(), x)
    }
}

/// Congruent points give congruent values.
proof fn lemma_value_congruent(coefficients: Seq<int>, x: int, y: int, p: int)
    requires
        p > 0,
        congruent(x, y, p),
    ensures
        congruent(value_at(coefficients, x), value_at(coefficients, y), p),
    decreases coefficients.len(),
{
    if coefficients.len() > 0 {
        let tail = coefficients.drop_first();
        lemma_value_congruent(tail, x, y, p);
        lemma_congruent_ops(x, y, value_at(tail, x), value_at(tail, y), p);
        let c = coefficients.first();
        lemma_congruent_ops(c, c, x * value_at(tail, x), y * value_at(tail, y), p);
    }
}

/// Exponents of a root of unity count modulo its order.
proof fn lemma_exponent_wraps(g: int, e: nat, n: nat, p: int)
    requires
        p > 1,
        n > 0,
        pow(g, n) % p == 1,
    ensures
        congruent(pow(g, e), pow(g, (e as int % n as int) as nat), p),
{
    let q = (e as int / n as int) as nat;
    let t = (e as int % n as int) as nat;
    lemma_fundamental_div_mod(e as int, n as int);
    lemma_mod_bound(e as int, n as int);
    assert(e as int / n as int >= 0) by (nonlinear_arith)
        requires
            e >= 0,
            n > 0,
    ;
    assert(e == n * q + t);
    lemma_pow_adds(g, n * q, t);
    lemma_pow_multiplies(g, n, q);
    lemma_pow_mod_noop(pow(g, n), q as nat, p);
    vstd::arithmetic::power::lemma1_pow(q);
    lemma_small_mod(1, p as nat);
    lemma_congruent_ops(pow(g, n * q), 1, pow(g, t), pow(g, t), p);
    assert(1 * pow(g, t) == pow(g, t));
}

/// The row at `r` rotated by `rotation` turns of `scale` rows stands for the power of the
/// generator that a factor `root` to the `j` leads to.
proof fn lemma_rotation_multiplies(
    g: int,
    root: int,
    scale: nat,
    rows: nat,
    r: nat,
    rotation: int,
    j: nat,
    p: int,
)
    requires
        p > 1,
        rows > 0,
        scale > 0,
        pow(g, rows * scale) % p == 1,
        congruent(root, pow(g, scale), p),
        (j - rotation) % rows as int == 0,
    ensures
        0 <= (r + rotation * scale) % ((rows * scale) as int) < rows * scale,
        congruent(
            pow(g, ((r + rotation * scale) % (rows * scale) as int) as nat),
            pow(g, r) * pow(root, j),
            p,
        ),
{
    let n = rows * scale;
    assert(n > 0) by (nonlinear_arith)
        requires
            n == rows * scale,
            rows > 0,
            scale > 0,
    ;
    let t = (r + rotation * scale) % n as int;
    lemma_mod_bound(r + rotation * scale, n as int);
    // The exponents differ by full turns.
    let k = (j - rotation) / rows as int;
    lemma_fundamental_div_mod(j - rotation, rows as int);
    let e = (r + scale * j) as nat;
    assert(scale * j >= 0) by (nonlinear_arith)
        requires
            scale >= 0,
            j >= 0,
    ;
    assert(e == (r + rotation * scale) + k * n) by (nonlinear_arith)
        requires
            e == r + scale * j,
            j - rotation == rows * k,
            n == rows * scale,
    ;
    lemma_congruent_multiple(
        e as int,
        r + rotation * scale,
        k,
        n as int,
    );
    assert(e as int % n as int == t);
    lemma_exponent_wraps(g, e, n, p);
    lemma_pow_adds(g, r, (scale * j) as nat);
    lemma_pow_multiplies(g, scale, j);
    lemma_pow_mod_noop(root, j, p);
    lemma_pow_mod_noop(pow(g, scale), j, p);
    lemma_congruent_ops(pow(g, r), pow(g, r), pow(pow(g, scale), j), pow(root, j), p);
}

/// Where the rows of a registered polynomial are its values at the powers of the root of unity, or
/// at the coset of the powers of the extended root, a leaf with a rotation reads at every row the
/// value at the point of the row times the power of the root of unity; the degree-one term is the
/// coefficient times the point, the degree-zero term the constant.
pub proof fn lemma_rows_are_values<M: Modulus>(
    basis: Basis,
    domain: EvaluationDomain<M>,
    polys: Seq<Vec<Fe<M>>>,
    coefficients: Seq<int>,
    leaf: AstLeaf,
    r: nat,
    j: nat,
    point: int,
    s: int,
)
    requires
        domain.rows() > 0,
        domain.scale() > 0,
        domain.root() == pow(domain.extended_root(), domain.scale() as nat) % M::p(),
        pow(domain.extended_root(), (domain.rows() * domain.scale()) as nat) % M::p() == 1,
        pow(domain.root(), domain.rows() as nat) % M::p() == 1,
        (j - leaf.rotation.0) % domain.rows() == 0,
        basis == Basis::LagrangeCoeff && r < domain.rows() && point == pow(domain.root(), r) && (
        forall|i: nat|
            i < domain.rows() ==> congruent(
                #[trigger] polys[leaf.index as int]@[i as int]@,
                value_at(coefficients, pow(domain.root(), i)),
                M::p(),
            )) || basis == Basis::ExtendedLagrangeCoeff && r < domain.rows() * domain.scale()
            && point == M::cube_root() * pow(domain.extended_root(), r) && (forall|i: nat|
            i < domain.rows() * domain.scale() ==> congruent(
                #[trigger] polys[leaf.index as int]@[i as int]@,
                value_at(coefficients, M::cube_root() * pow(domain.extended_root(), i)),
                M::p(),
            )),
    ensures
        congruent(
            (row_of(basis, domain, polys, r as int).leaf)(leaf),
            value_at(coefficients, point * pow(domain.root(), j)),
            M::p(),
        ),
        congruent((row_of(basis, domain, polys, r as int).linear)(s), s * point, M::p()),
        (row_of(basis, domain, polys, r as int).constant)(s) == s,
{
    let p = M::p();
    M::lemma_modulus();
    let rows = domain.rows() as nat;
    let rotation = leaf.rotation.0 as int;
    let root = domain.root();
    if basis == Basis::LagrangeCoeff {
        vstd::arithmetic::power::lemma_pow1(root);
        assert(rows * 1 == rows && rotation * 1 == rotation);
        lemma_rotation_multiplies(root, root, 1, rows, r, rotation, j, p);
        let t = ((r + rotation) % rows as int) as nat;
        assert(congruent(
            polys[leaf.index as int]@[t as int]@,
            value_at(coefficients, pow(root, t)),
            p,
        ));
        lemma_value_congruent(coefficients, pow(root, t), point * pow(root, j), p);
        assert(pow(root, r) * s == s * point) by (nonlinear_arith)
            requires
                point == pow(root, r),
        ;
    } else {
        let g = domain.extended_root();
        let scale = domain.scale() as nat;
        let zeta = M::cube_root();
        lemma_congruent_mod(pow(g, scale), p);
        assert((rows * scale) as int == domain.rows() * domain.scale());
        lemma_rotation_multiplies(g, root, scale, rows, r, rotation, j, p);
        let t = ((r + rotation * scale) % (rows * scale) as int) as nat;
        assert(congruent(
            polys[leaf.index as int]@[t as int]@,
            value_at(coefficients, zeta * pow(g, t)),
            p,
        ));
        lemma_congruent_ops(zeta, zeta, pow(g, t), pow(g, r) * pow(root, j), p);
        assert(zeta * (pow(g, r) * pow(root, j)) == point * pow(root, j)) by (nonlinear_arith)
            requires
                point == zeta * pow(g, r),
        ;
        lemma_value_congruent(coefficients, zeta * pow(g, t), point * pow(root, j), p);
        assert(pow(g, r) * zeta * s == s * point) by (nonlinear_arith)
            requires
                point == zeta * pow(g, r),
        ;
    }
}

/// A polynomial whose coefficients are zero has the value zero.
proof fn lemma_zero_polynomial(coefficients: Seq<int>, x: int)
    requires
        forall|i: int| 0 <= i < coefficients.len() ==> #[trigger] coefficients[i] == 0,
    ensures
        value_at(coefficients, x) == 0,
    decreases coefficients.len(),
{
    if coefficients.len() > 0 {
        let tail = coefficients.drop_first();
        assert forall|i: int| 0 <= i < tail.len() implies #[trigger] tail[i] == 0 by {
            assert(tail[i] == coefficients[i + 1]);
        }
        lemma_zero_polynomial(tail, x);
        assert(x * 0 == 0);
    }
}

/// In the standard basis the rows of the degree-one and of the degree-zero term are together the
/// coefficients of the polynomial `s * x + c`.
pub proof fn lemma_rows_are_coefficients<M: Modulus>(
    domain: EvaluationDomain<M>,
    polys: Seq<Vec<Fe<M>>>,
    s: int,
    c: int,
    x: int,
)
    requires
        domain.rows() >= 2,
    ensures
        value_at(
            Seq::new(
                domain.rows() as nat,
                |r: int|
                    (row_of(Basis::Coeff, domain, polys, r).linear)(s) + (row_of(
                        Basis::Coeff,
                        domain,
                        polys,
                        r,
                    ).constant)(c),
            ),
            x,
        ) == s * x + c,
{
    let all = Seq::new(
        domain.rows() as nat,
        |r: int|
            (row_of(Basis::Coeff, domain, polys, r).linear)(s) + (row_of(
                Basis::Coeff,
                domain,
                polys,
                r,
            ).constant)(c),
    );
    let one = all.drop_first();
    let two = one.drop_first();
    assert(all[0] == c);
    assert(one[0] == all[1]);
    assert(one[0] == s);
    assert forall|i: int| 0 <= i < two.len() implies #[trigger] two[i] == 0 by {
        assert(two[i] == all[i + 2]);
    }
    lemma_zero_polynomial(two, x);
    assert(x * value_at(two, x) == 0) by (nonlinear_arith)
        requires
            value_at(two, x) == 0,
    ;
    assert(value_at(one, x) == s);
    assert(x * s == s * x) by (nonlinear_arith);
}

/// The rows of a rotated chunk stand in two runs: up to the split they follow each other, and from
/// there on they follow each other from the first row of the values.
pub proof fn lemma_split_is_the_wrap(start: int, shift: int, len: int, chunk_len: int, i: int)
    requires
        0 < len,
        0 <= chunk_len <= len,
        0 <= i < chunk_len,
    ensures
        0 <= split_of(start, shift, len, chunk_len) <= chunk_len,
        i < split_of(start, shift, len, chunk_len) ==> rotated(start + i, shift, len) == rotated(
            start,
            shift,
            len,
        ) + i,
        i >= split_of(start, shift, len, chunk_len) ==> rotated(start + i, shift, len) == i
            - split_of(start, shift, len, chunk_len),
        0 <= rotated(start, shift, len) < len,
        congruent(rotated(start, shift, len), start + shift, len),
{
    lemma_congruent_mod(start + shift, len);
    let first = (start + shift) % len;
    let at = if i < len - first {
        first + i
    } else {
        first + i - len
    };
    lemma_congruent_ops(first, start + shift, i, i, len);
    let turns = if i < len - first {
        0int
    } else {
        1
    };
    assert(turns * len == first + i - at) by (nonlinear_arith)
        requires
            turns == 0 && first + i - at == 0 || turns == 1 && first + i - at == len,
    ;
    lemma_congruent_multiple(first + i, at, turns, len);
    lemma_small_mod(at as nat, len as nat);
}

} // verus!

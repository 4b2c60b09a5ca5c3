//! Evaluation domains, bases and the rows of a polynomial in a basis.
use crate::field::congruence::{lemma_congruent_mod, lemma_congruent_multiple, lemma_congruent_ops};
use crate::field::{Fe, Modulus};
use crate::poly::ast::{AstLeaf, Rotation, Row};
use vstd::arithmetic::div_mod::lemma_small_mod;
use vstd::arithmetic::power::{lemma_pow1, lemma_pow_adds, pow};
use vstd::arithmetic::power2::{lemma2_to64, lemma_pow2_unfold, pow2};
use vstd::prelude::*;

verus! {

/// The basis in which the rows of a polynomial are given.
#[derive(Clone, Copy, Debug, PartialEq, Eq, Structural)]
pub enum Basis {
    /// Rows are coefficients.
    Coeff,
    /// Rows are values at the powers of the root of unity.
    LagrangeCoeff,
    /// Rows are values at the coset of the powers of the extended root of unity.
    ExtendedLagrangeCoeff,
}

/// The sizes and roots of unity of a polynomial and of its extension.
#[derive(Debug)]
pub struct EvaluationDomain<M: Modulus> {
    n: usize,
    rotation_scale: usize,
    extended_n: usize,
    omega: Fe<M>,
    extended_omega: Fe<M>,
}

impl<M: Modulus> EvaluationDomain<M> {
    #[verifier::type_invariant]
    spec fn sized(self) -> bool {
        &&& 0 < self.n
        &&& 0 < self.rotation_scale
        &&& self.extended_n == self.n * self.rotation_scale
        &&& self.extended_n <= 0x1_0000_0000
        &&& usize::MAX < 0x1_0000_0000 ==> self.extended_n <= 0x4000_0000
    }

    /// The number of rows.
    pub closed spec fn rows(self) -> int {
        self.n as int
    }

    /// The number of rows of the extended domain for each row.
    pub closed spec fn scale(self) -> int {
        self.rotation_scale as int
    }

    /// The root of unity.
    pub closed spec fn root(self) -> int {
        self.omega@
    }

    /// The extended root of unity.
    pub closed spec fn extended_root(self) -> int {
        self.extended_omega@
    }

    /// The number of rows in a basis.
    pub open spec fn basis_len(self, basis: Basis) -> int {
        match basis {
            Basis::ExtendedLagrangeCoeff => self.rows() * self.scale(),
            _ => self.rows(),
        }
    }

    /// The rows by which one rotation moves in a basis.
    pub open spec fn basis_scale(self, basis: Basis) -> int {
        match basis {
            Basis::ExtendedLagrangeCoeff => self.scale(),
            _ => 1,
        }
    }

    /// The domain of polynomials of degree below two to the `k`, extended for constraints of
    /// degree `j`.
    ///
    /// The extended domain has at most two to the 32 rows, the order of the roots of unity, and
    /// the chunks of its rows are counted by machine integers, on a machine of 32 bits for two to
    /// the 30 rows.
    pub fn new(j: u32, k: u32) -> (r: Self)
        requires
            1 <= j,
            pow2(k as nat) * (j - 1) <= 0x1_0000_0000,
            pow2(k as nat) <= 0x1_0000_0000,
            usize::MAX < 0x1_0000_0000 ==> pow2(k as nat) * (j - 1) <= 0x4000_0000 && pow2(
                k as nat,
            ) <= 0x4000_0000,
        ensures
            r.rows() == pow2(k as nat),
            r.scale() >= j - 1,
            r.scale() == 1 || r.scale() < 2 * (j - 1),
            exists|e: nat| r.scale() == #[trigger] pow2(e),
            r.extended_root() == pow(
                M::two_adic_root(),
                (0x1_0000_0000int / (r.rows() * r.scale())) as nat,
            ) % M::p(),
            r.root() == pow(r.extended_root(), r.scale() as nat) % M::p(),
            pow(r.extended_root(), (r.rows() * r.scale()) as nat) % M::p() == 1,
            r.rows() * r.scale() > 1 ==> pow(
                r.extended_root(),
                (r.rows() * r.scale() / 2) as nat,
            ) % M::p() == M::p() - 1,
            pow(r.root(), r.rows() as nat) % M::p() == 1,
            r.rows() > 1 ==> pow(r.root(), (r.rows() / 2) as nat) % M::p() == M::p() - 1,
    {
        proof {
            lemma2_to64();
            vstd::arithmetic::power2::lemma_pow2_pos(k as nat);
        }
        let mut n: usize = 1;
        let mut i: u32 = 0;
        while i < k
            invariant
                i <= k,
                n == pow2(i as nat),
                pow2(k as nat) <= 0x1_0000_0000,
                pow2(k as nat) <= usize::MAX,
            decreases k - i,
        {
            proof {
                lemma_pow2_unfold((i + 1) as nat);
                if i + 1 < k {
                    vstd::arithmetic::power2::lemma_pow2_strictly_increases(
                        (i + 1) as nat,
                        k as nat,
                    );
                }
            }
            n = n * 2;
            i += 1;
        }
        proof {
            assert(j - 1 <= pow2(k as nat) * (j - 1)) by (nonlinear_arith)
                requires
                    pow2(k as nat) >= 1,
                    j >= 1,
            ;
        }
        let degree: usize = (j - 1) as usize;
        let mut scale: usize = 1;
        let ghost mut e: nat = 0;
        while scale < degree
            invariant
                degree == j - 1,
                scale == pow2(e),
                scale >= 1,
                scale == 1 || scale < 2 * degree,
                degree <= 0x1_0000_0000,
                2 * degree <= usize::MAX + 1,
                e > 0 ==> pow2((e - 1) as nat) < degree,
            decreases 2 * degree - scale,
        {
            proof {
                lemma_pow2_unfold(e + 1);
                e = e + 1;
            }
            scale = scale * 2;
        }
        proof {
            lemma_extended_rows(k as nat, e, degree as int);
            assert(n * scale >= 1) by (nonlinear_arith)
                requires
                    n >= 1,
                    scale >= 1,
            ;
        }
        let extended_n: usize = n * scale;
        let extended_omega = Fe::<M>::root_of_unity().pow_vartime(
            0x1_0000_0000u64 / (extended_n as u64),
        );
        let omega = extended_omega.pow_vartime(scale as u64);
        proof {
            lemma_root_orders::<M>(k as nat, e, extended_omega@, omega@);
        }
        EvaluationDomain { n, rotation_scale: scale, extended_n, omega, extended_omega }
    }

    /// The root of unity.
    pub fn get_omega(&self) -> (r: Fe<M>)
        ensures
            r@ == self.root(),
    {
        self.omega
    }

    /// The extended root of unity.
    pub fn get_extended_omega(&self) -> (r: Fe<M>)
        ensures
            r@ == self.extended_root(),
    {
        self.extended_omega
    }

    /// The number of rows in a basis.
    pub fn len(&self, basis: Basis) -> (r: usize)
        ensures
            r == self.basis_len(basis),
            0 < r <= 0x1_0000_0000,
            usize::MAX < 0x1_0000_0000 ==> r <= 0x4000_0000,
            self.rows() > 0,
            self.scale() > 0,
            r == self.rows() * self.basis_scale(basis),
    {
        proof {
            use_type_invariant(self);
            assert(self.n * self.rotation_scale >= self.n) by (nonlinear_arith)
                requires
                    self.n >= 0,
                    self.rotation_scale >= 1,
            ;
        }
        match basis {
            Basis::ExtendedLagrangeCoeff => self.extended_n,
            _ => self.n,
        }
    }

    /// A polynomial whose rows are all zero.
    pub fn empty_poly(&self, basis: Basis) -> (r: Vec<Fe<M>>)
        ensures
            r@.len() == self.basis_len(basis),
            forall|i: int| 0 <= i < r@.len() ==> (#[trigger] r@[i])@ == 0,
    {
        let zero = Fe::<M>::zero();
        let n = self.len(basis);
        let r = vec![zero; n];
        r
    }
}

/// The smallest power of two that is at least `degree` times two to the `k` does not exceed a
/// power of two that the product does not exceed.
proof fn lemma_extended_rows(k: nat, e: nat, degree: int)
    requires
        e > 0 ==> pow2((e - 1) as nat) < degree,
    ensures
        pow2(k) * degree <= 0x1_0000_0000 && pow2(k) <= 0x1_0000_0000 ==> pow2(k) * pow2(e)
            <= 0x1_0000_0000,
        pow2(k) * degree <= 0x4000_0000 && pow2(k) <= 0x4000_0000 ==> pow2(k) * pow2(e)
            <= 0x4000_0000,
{
    lemma2_to64();
    vstd::arithmetic::power2::lemma_pow2_pos(k);
    vstd::arithmetic::power2::lemma_pow2_adds(k, e);
    if e > 0 {
        let d = (e - 1) as nat;
        vstd::arithmetic::power2::lemma_pow2_adds(k, d);
        assert(pow2(k) * pow2(d) < pow2(k) * degree) by (nonlinear_arith)
            requires
                pow2(k) >= 1,
                pow2(d) < degree,
        ;
        vstd::arithmetic::power2::lemma2_to64_rest();
        if k + d >= 32 {
            if k + d > 32 {
                vstd::arithmetic::power2::lemma_pow2_strictly_increases(32, k + d);
            }
        } else if k + e < 32 {
            vstd::arithmetic::power2::lemma_pow2_strictly_increases(k + e, 32);
        }
        if k + d >= 30 {
            if k + d > 30 {
                vstd::arithmetic::power2::lemma_pow2_strictly_increases(30, k + d);
            }
        } else if k + e < 30 {
            vstd::arithmetic::power2::lemma_pow2_strictly_increases(k + e, 30);
        }
    } else {
        assert(pow2(k) * 1 == pow2(k));
    }
}

/// The roots of unity of a domain have the orders of its rows and of its extended rows.
proof fn lemma_root_orders<M: Modulus>(k: nat, e: nat, extended_root: int, root: int)
    requires
        pow2(k) * pow2(e) <= 0x1_0000_0000,
        extended_root == pow(
            M::two_adic_root(),
            (0x1_0000_0000int / (pow2(k) * pow2(e)) as int) as nat,
        ) % M::p(),
        root == pow(extended_root, pow2(e)) % M::p(),
    ensures
        pow(extended_root, pow2(k) * pow2(e)) % M::p() == 1,
        pow2(k) * pow2(e) > 1 ==> pow(extended_root, ((pow2(k) * pow2(e)) as int / 2) as nat)
            % M::p() == M::p() - 1,
        pow(root, pow2(k)) % M::p() == 1,
        pow2(k) > 1 ==> pow(root, (pow2(k) as int / 2) as nat) % M::p() == M::p() - 1,
{
    let p = M::p();
    let a = M::two_adic_root();
    M::lemma_modulus();
    M::lemma_two_adic_root();
    lemma2_to64();
    vstd::arithmetic::power2::lemma2_to64_rest();
    vstd::arithmetic::power2::lemma_pow2_adds(k, e);
    let m = k + e;
    if m > 32 {
        vstd::arithmetic::power2::lemma_pow2_strictly_increases(32, m);
    }
    let d = (32 - m) as nat;
    vstd::arithmetic::power2::lemma_pow2_adds(m, d);
    vstd::arithmetic::power2::lemma_pow2_pos(m);
    vstd::arithmetic::power2::lemma_pow2_pos(d);
    assert(pow2(m) * pow2(d) == pow2(d) * pow2(m)) by (nonlinear_arith);
    vstd::arithmetic::div_mod::lemma_div_by_multiple(pow2(d) as int, pow2(m) as int);
    assert(extended_root == pow(a, pow2(d)) % p);
    // The power to two to the 32 is the square of minus one.
    let h = pow(a, 0x8000_0000);
    lemma_pow_adds(a, 0x8000_0000, 0x8000_0000);
    lemma_congruent_mod(h, p);
    assert((p - 1) % p == p - 1) by {
        lemma_small_mod((p - 1) as nat, p as nat);
    }
    lemma_congruent_ops(h, p - 1, h, p - 1, p);
    assert((p - 1) * (p - 1) == 1 + (p - 2) * p) by (nonlinear_arith);
    lemma_congruent_multiple((p - 1) * (p - 1), 1, p - 2, p);
    lemma_small_mod(1, p as nat);
    lemma_root_power(a, pow2(d), extended_root, pow2(m), p);
    lemma_root_power(extended_root, pow2(e), root, pow2(k), p);
    assert(pow2(e) * pow2(k) == pow2(k) * pow2(e)) by (nonlinear_arith);
    if m > 0 {
        let n = (m - 1) as nat;
        lemma_pow2_unfold(m);
        vstd::arithmetic::power2::lemma_pow2_adds(d, n);
        lemma_root_power(a, pow2(d), extended_root, pow2(n), p);
        assert(d + n == 31);
    }
    if k > 0 {
        let n = (k - 1) as nat;
        lemma_pow2_unfold(k);
        vstd::arithmetic::power2::lemma_pow2_adds(e, n);
        lemma_root_power(extended_root, pow2(e), root, pow2(n), p);
        assert(e + n == m - 1);
    }
}

/// A power of a reduced power is a power.
proof fn lemma_root_power(a: int, u: nat, v: int, w: nat, p: int)
    requires
        p > 1,
        v == pow(a, u) % p,
    ensures
        pow(v, w) % p == pow(a, u * w) % p,
{
    vstd::arithmetic::power::lemma_pow_multiplies(a, u, w);
    vstd::arithmetic::power::lemma_pow_mod_noop(pow(a, u), w, p);
}

/// The row that a rotation by `shift` rows leads to.
pub open spec fn rotated(r: int, shift: int, len: int) -> int {
    (r + shift) % len
}

/// What an expression reads at a row of the registered polynomials.
pub open spec fn row_of<M: Modulus>(
    basis: Basis,
    domain: EvaluationDomain<M>,
    polys: Seq<Vec<Fe<M>>>,
    r: int,
) -> Row {
    Row {
        leaf: |leaf: AstLeaf|
            polys[leaf.index as int]@[rotated(
                r,
                leaf.rotation.0 * domain.basis_scale(basis),
                domain.basis_len(basis),
            )]@,
        linear: |s: int|
            match basis {
                Basis::Coeff => if r == 1 {
                    s
                } else {
                    0
                },
                Basis::LagrangeCoeff => pow(domain.root(), r as nat) * s,
                Basis::ExtendedLagrangeCoeff => pow(domain.extended_root(), r as nat)
                    * M::cube_root() * s,
            },
        constant: |s: int|
            match basis {
                Basis::Coeff => if r == 0 {
                    s
                } else {
                    0
                },
                _ => s,
            },
    }
}

/// The leaf can be read: rows in the standard basis cannot be rotated, and rotations in the
/// Lagrange basis go at most once around.
pub open spec fn is_readable<M: Modulus>(
    basis: Basis,
    domain: EvaluationDomain<M>,
    polys: nat,
    leaf: AstLeaf,
) -> bool {
    &&& basis != Basis::Coeff
    &&& leaf.index < polys
    &&& basis == Basis::LagrangeCoeff ==> -domain.rows() <= leaf.rotation.0 <= domain.rows()
}

/// The leaves that can be read.
pub open spec fn readable_leaves<M: Modulus>(
    basis: Basis,
    domain: EvaluationDomain<M>,
    polys: nat,
) -> spec_fn(AstLeaf) -> bool {
    |leaf: AstLeaf| is_readable(basis, domain, polys, leaf)
}

/// The rows of a rotated chunk up to the end of the values, at most the whole chunk.
pub open spec fn split_of(start: int, shift: int, len: int, chunk_len: int) -> int {
    if chunk_len < len - rotated(start, shift, len) {
        chunk_len
    } else {
        len - rotated(start, shift, len)
    }
}

/// A part of a rotated polynomial, which may wrap around once.
pub struct RotatedChunk<'a, M: Modulus> {
    first: &'a [Fe<M>],
    second: &'a [Fe<M>],
}

impl<'a, M: Modulus> View for RotatedChunk<'a, M> {
    type V = Seq<Fe<M>>;

    closed spec fn view(&self) -> Seq<Fe<M>> {
        self.first@ + self.second@
    }
}

impl<'a, M: Modulus> RotatedChunk<'a, M> {
    /// The number of rows before the wrap.
    pub closed spec fn split(self) -> int {
        self.first@.len() as int
    }

    /// The rows from `start` on of the values rotated by the given number of rows.
    pub fn new(
        values: &'a [Fe<M>],
        rotation_is_negative: bool,
        rotation_abs: usize,
        start: usize,
        chunk_len: usize,
    ) -> (r: Self)
        requires
            rotation_abs <= values@.len(),
            start + chunk_len <= values@.len(),
            values@.len() > 0,
        ensures
            r@.len() == chunk_len,
            r.split() == split_of(
                start as int,
                if rotation_is_negative {
                    -rotation_abs
                } else {
                    rotation_abs as int
                },
                values@.len() as int,
                chunk_len as int,
            ),
            forall|i: int|
                0 <= i < chunk_len ==> #[trigger] r@[i] == values@[rotated(
                    start + i,
                    if rotation_is_negative {
                        -rotation_abs
                    } else {
                        rotation_abs as int
                    },
                    values@.len() as int,
                )],
    {
        let len = values.len();
        let mid: usize = if rotation_is_negative {
            len - rotation_abs
        } else {
            rotation_abs
        };
        let source_start: usize = if start >= len - mid {
            start - (len - mid)
        } else {
            mid + start
        };
        let first_len: usize = if chunk_len < len - source_start {
            chunk_len
        } else {
            len - source_start
        };
        let r = RotatedChunk {
            first: vstd::slice::slice_subrange(values, source_start, source_start + first_len),
            second: vstd::slice::slice_subrange(values, 0, chunk_len - first_len),
        };
        proof {
            let shift = if rotation_is_negative {
                -rotation_abs
            } else {
                rotation_abs as int
            };
            assert forall|i: int| 0 <= i < chunk_len implies #[trigger] r@[i] == values@[rotated(
                start + i,
                shift,
                len as int,
            )] by {
                let at = if i < first_len {
                    source_start + i
                } else {
                    i - first_len
                };
                assert(r@[i] == values@[at]);
                let k = if start + i + shift < 0 {
                    -1int
                } else if start + i + shift >= 2 * len {
                    2
                } else if start + i + shift >= len {
                    1
                } else {
                    0
                };
                assert(start + i + shift == at + k * len) by (nonlinear_arith)
                    requires
                        k == -1 || k == 0 || k == 1 || k == 2,
                        k == -1 ==> start + i + shift == at - len,
                        k == 0 ==> start + i + shift == at,
                        k == 1 ==> start + i + shift == at + len,
                        k == 2 ==> start + i + shift == at + 2 * len,
                ;
                lemma_congruent_multiple(start + i + shift, at, k, len as int);
                lemma_small_mod(at as nat, len as nat);
            }
            let k = if start + shift < 0 {
                -1int
            } else if start + shift >= len {
                1
            } else {
                0
            };
            let at = start + shift - k * len;
            assert(k * len == if k == 0 {
                0
            } else if k == 1 {
                len as int
            } else {
                -len
            }) by (nonlinear_arith)
                requires
                    k == -1 || k == 0 || k == 1,
            ;
            lemma_congruent_multiple(start + shift, at, k, len as int);
            if chunk_len > 0 {
                lemma_small_mod(at as nat, len as nat);
                assert(source_start == at);
            } else {
                vstd::arithmetic::div_mod::lemma_mod_bound(start + shift, len as int);
            }
        }
        r
    }

    /// A whole buffer.
    pub fn whole(values: &'a [Fe<M>]) -> (r: Self)
        ensures
            r@ == values@,
            r.split() == values@.len(),
    {
        let r = RotatedChunk {
            first: values,
            second: vstd::slice::slice_subrange(values, 0, 0),
        };
        assert(r@ =~= values@);
        r
    }

    /// The two runs of rows, before and after the wrap.
    pub fn into_slices(self) -> (r: (&'a [Fe<M>], &'a [Fe<M>]))
        ensures
            r.0@ + r.1@ == self@,
            r.0@.len() == self.split(),
    {
        (self.first, self.second)
    }

    /// One row.
    pub fn get(&self, i: usize) -> (r: Fe<M>)
        requires
            i < self@.len(),
        ensures
            r == self@[i as int],
    {
        if i < self.first.len() {
            self.first[i]
        } else {
            self.second[i - self.first.len()]
        }
    }
}

/// A part of a registered polynomial at the rotation of a leaf.
pub fn rotated_chunk<'a, M: Modulus>(
    basis: Basis,
    domain: &EvaluationDomain<M>,
    poly: &'a Vec<Fe<M>>,
    rotation: Rotation,
    start: usize,
    chunk_len: usize,
) -> (r: RotatedChunk<'a, M>)
    requires
        basis != Basis::Coeff,
        poly@.len() == domain.basis_len(basis),
        start + chunk_len <= poly@.len(),
        basis == Basis::LagrangeCoeff ==> -domain.rows() <= rotation.0 <= domain.rows(),
    ensures
        r@.len() == chunk_len,
        r.split() == split_of(
            start as int,
            rotation.0 * domain.basis_scale(basis),
            domain.basis_len(basis),
            chunk_len as int,
        ),
        forall|i: int|
            0 <= i < chunk_len ==> #[trigger] r@[i] == poly@[rotated(
                start + i,
                rotation.0 * domain.basis_scale(basis),
                domain.basis_len(basis),
            )],
{
    let len = domain.len(basis);
    let negative = rotation.0 < 0;
    let magnitude: usize = (if negative {
        -(rotation.0 as i64)
    } else {
        rotation.0 as i64
    }) as usize;
    match basis {
        Basis::ExtendedLagrangeCoeff => {
            let scale = domain.rotation_scale;
            let period = domain.n;
            proof {
                use_type_invariant(domain);
            }
            let turns: usize = magnitude % period;
            proof {
                assert(turns * scale <= period * scale) by (nonlinear_arith)
                    requires
                        0 <= turns < period,
                        0 <= scale,
                ;
            }
            let r = RotatedChunk::new(poly.as_slice(), negative, turns * scale, start, chunk_len);
            proof {
                let s = scale as int;
                let q = (magnitude / period) as int;
                let k = if negative { q } else { -q };
                let near = if negative { -(turns * s) } else { turns * s };
                let far = rotation.0 * s;
                vstd::arithmetic::div_mod::lemma_fundamental_div_mod(
                    magnitude as int,
                    period as int,
                );
                assert(near == far + k * len) by (nonlinear_arith)
                    requires
                        magnitude == period * q + turns,
                        len == period * s,
                        rotation.0 == (if negative { -(magnitude as int) } else { magnitude as int }),
                        k == (if negative { q } else { -q }),
                        near == (if negative { -(turns * s) } else { turns * s }),
                        far == rotation.0 * s,
                ;
                lemma_congruent_multiple(start + near, start + far, k, len as int);
                assert forall|i: int| 0 <= i < chunk_len implies #[trigger] r@[i] == poly@[rotated(
                    start + i,
                    far,
                    len as int,
                )] by {
                    lemma_congruent_multiple(start + i + near, start + i + far, k, len as int);
                }
            }
            r
        },
        _ => RotatedChunk::new(poly.as_slice(), negative, magnitude, start, chunk_len),
    }
}

/// Writes a part of a registered polynomial at a rotation.
pub fn copy_rotated_chunk<M: Modulus>(
    basis: Basis,
    domain: &EvaluationDomain<M>,
    poly: &Vec<Fe<M>>,
    rotation: Rotation,
    start: usize,
    output: &mut Vec<Fe<M>>,
)
    requires
        basis != Basis::Coeff,
        poly@.len() == domain.basis_len(basis),
        start + old(output)@.len() <= poly@.len(),
        basis == Basis::LagrangeCoeff ==> -domain.rows() <= rotation.0 <= domain.rows(),
    ensures
        final(output)@.len() == old(output)@.len(),
        forall|i: int|
            0 <= i < final(output)@.len() ==> #[trigger] final(output)@[i] == poly@[rotated(
                start + i,
                rotation.0 * domain.basis_scale(basis),
                domain.basis_len(basis),
            )],
{
    let n = output.len();
    let chunk = rotated_chunk(basis, domain, poly, rotation, start, n);
    let (first, second) = chunk.into_slices();
    let ghost all = chunk@;
    let mut i: usize = 0;
    while i < n
        invariant
            i <= n,
            n == output@.len(),
            all == first@ + second@,
            all.len() == n,
            forall|k: int| 0 <= k < i ==> output@[k] == all[k],
        decreases n - i,
    {
        if i < first.len() {
            output.set(i, first[i]);
        } else {
            output.set(i, second[i - first.len()]);
        }
        i += 1;
    }
    assert(forall|k: int| 0 <= k < n ==> #[trigger] output@[k] == all[k]);
}

/// Writes the degree-zero term with the given coefficient.
pub(crate) fn fill_constant<M: Modulus>(
    basis: Basis,
    start: usize,
    scalar: Fe<M>,
    output: &mut Vec<Fe<M>>,
    Ghost(domain): Ghost<EvaluationDomain<M>>,
    Ghost(polys): Ghost<Seq<Vec<Fe<M>>>>,
)
    ensures
        final(output)@.len() == old(output)@.len(),
        forall|i: int|
            0 <= i < final(output)@.len() ==> (#[trigger] final(output)@[i])@ == (row_of(
                basis,
                domain,
                polys,
                start + i,
            ).constant)(scalar@) % M::p(),
{
    let n = output.len();
    let zero = Fe::<M>::zero();
    proof {
        M::lemma_modulus();
        scalar.lemma_view();
        lemma_small_mod(scalar@ as nat, M::p() as nat);
        lemma_small_mod(0, M::p() as nat);
    }
    let mut i: usize = 0;
    while i < n
        invariant
            i <= n,
            output@.len() == n,
            zero@ == 0,
            scalar@ % M::p() == scalar@,
            0int % M::p() == 0,
            forall|k: int|
                0 <= k < i ==> (#[trigger] output@[k])@ == (row_of(
                    basis,
                    domain,
                    polys,
                    start + k,
                ).constant)(scalar@) % M::p(),
        decreases n - i,
    {
        let value = match basis {
            Basis::Coeff => if start == 0 && i == 0 {
                scalar
            } else {
                zero
            },
            _ => scalar,
        };
        output.set(i, value);
        i += 1;
    }
}

/// Writes the degree-one term with the given coefficient.
pub(crate) fn fill_linear<M: Modulus>(
    basis: Basis,
    domain: &EvaluationDomain<M>,
    start: usize,
    scalar: Fe<M>,
    output: &mut Vec<Fe<M>>,
    Ghost(polys): Ghost<Seq<Vec<Fe<M>>>>,
)
    requires
        start + old(output)@.len() <= domain.basis_len(basis),
    ensures
        final(output)@.len() == old(output)@.len(),
        forall|i: int|
            0 <= i < final(output)@.len() ==> (#[trigger] final(output)@[i])@ == (row_of(
                basis,
                *domain,
                polys,
                start + i,
            ).linear)(scalar@) % M::p(),
{
    let n = output.len();
    let zero = Fe::<M>::zero();
    let ghost p = M::p();
    proof {
        M::lemma_modulus();
        scalar.lemma_view();
        lemma_small_mod(scalar@ as nat, p as nat);
        lemma_small_mod(0, p as nat);
    }
    let mut i: usize = 0;
    match basis {
        Basis::Coeff => {
            while i < n
                invariant
                    i <= n,
                    p == M::p(),
                    output@.len() == n,
                    zero@ == 0,
                    scalar@ % p == scalar@,
                    0int % p == 0,
                    forall|k: int|
                        0 <= k < i ==> (#[trigger] output@[k])@ == (row_of(
                            Basis::Coeff,
                            *domain,
                            polys,
                            start + k,
                        ).linear)(scalar@) % p,
                decreases n - i,
            {
                output.set(
                    i,
                    if (start == 0 && i == 1) || (start == 1 && i == 0) {
                        scalar
                    } else {
                        zero
                    },
                );
                i += 1;
            }
        },
        _ => {
            // Every power of the root of unity in the chunk, times the coefficient.
            let (omega, factor) = match basis {
                Basis::ExtendedLagrangeCoeff => (domain.extended_omega, Fe::<M>::zeta().mul(scalar)),
                _ => (domain.omega, scalar),
            };
            let len = domain.len(basis);
            let ghost w = omega@;
            let ghost f = if basis == Basis::ExtendedLagrangeCoeff {
                M::cube_root() * scalar@
            } else {
                scalar@
            };
            let mut value = omega.pow_vartime(start as u64).mul(factor);
            proof {
                lemma_congruent_mod(pow(w, start as nat), p);
                lemma_congruent_mod(f, p);
                lemma_congruent_ops(
                    pow(w, start as nat) % p,
                    pow(w, start as nat),
                    factor@,
                    f,
                    p,
                );
            }
            while i < n
                invariant
                    i <= n,
                    p == M::p(),
                    p > 1,
                    basis != Basis::Coeff,
                    output@.len() == n,
                    omega@ == w,
                    w == if basis == Basis::ExtendedLagrangeCoeff {
                        domain.extended_root()
                    } else {
                        domain.root()
                    },
                    f == if basis == Basis::ExtendedLagrangeCoeff {
                        M::cube_root() * scalar@
                    } else {
                        scalar@
                    },
                    value@ == (pow(w, (start + i) as nat) * f) % p,
                    forall|k: int|
                        0 <= k < i ==> (#[trigger] output@[k])@ == (row_of(
                            basis,
                            *domain,
                            polys,
                            start + k,
                        ).linear)(scalar@) % p,
                decreases n - i,
            {
                output.set(i, value);
                proof {
                    let t = pow(w, (start + i) as nat);
                    assert(t * (M::cube_root() * scalar@) == t * M::cube_root() * scalar@)
                        by (nonlinear_arith);
                    lemma_pow1(w);
                    lemma_pow_adds(w, (start + i) as nat, 1);
                    lemma_congruent_mod(t * f, p);
                    lemma_congruent_ops(value@, t * f, w, w, p);
                    assert((t * f) * w == (t * w) * f) by (nonlinear_arith);
                }
                value = value.mul(omega);
                i += 1;
            }
        },
    }
}

} // verus!

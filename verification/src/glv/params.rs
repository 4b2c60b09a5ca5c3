//! Short bases of the lattices that split scalars.
use crate::curve::{Group, Pallas, Vesta};
use crate::field::congruence::{congruent, lemma_congruent_multiple};
use crate::field::Modulus;
use crate::glv::wide::wide_value;
use vstd::prelude::*;

verus! {

/// A short basis of the lattice of the pairs `(a, b)` with `a + b * lambda = 0`, where `lambda` is
/// the cube root of one in the field of the scalars, and the rounding coefficients of the basis.
pub trait GlvParams: Group {
    /// The first component of the first vector.
    spec fn v1a() -> int;

    /// The negated second component of the first vector.
    spec fn v1b_neg() -> int;

    /// The first component of the second vector.
    spec fn v2a() -> int;

    /// The second component of the second vector.
    spec fn v2b() -> int;

    /// Two to the 384 times the second component of the second vector over the order, rounded.
    spec fn g1() -> int;

    /// Two to the 384 times the negated second component of the first vector over the order,
    /// rounded.
    spec fn g2() -> int;

    /// The vectors are a basis of the lattice, and the coefficients are rounded to the nearest
    /// integers.
    proof fn lemma_lattice()
        ensures
            0 < Self::v1a() < two128(),
            0 < Self::v1b_neg() < two128(),
            0 < Self::v2a() < two128(),
            0 < Self::v2b() < two128(),
            0 <= Self::g1(),
            0 <= Self::g2(),
            Self::v1a() * Self::v2b() + Self::v2a() * Self::v1b_neg()
                == <Self::Scalar as Modulus>::p(),
            congruent(
                Self::v1a() - Self::v1b_neg() * <Self::Scalar as Modulus>::cube_root(),
                0,
                <Self::Scalar as Modulus>::p(),
            ),
            congruent(
                Self::v2a() + Self::v2b() * <Self::Scalar as Modulus>::cube_root(),
                0,
                <Self::Scalar as Modulus>::p(),
            ),
            nearest(Self::g1(), Self::v2b(), <Self::Scalar as Modulus>::p()),
            nearest(Self::g2(), Self::v1b_neg(), <Self::Scalar as Modulus>::p()),
            short(Self::v1a() + Self::v2a(), <Self::Scalar as Modulus>::p()),
            short(Self::v1b_neg() + Self::v2b(), <Self::Scalar as Modulus>::p()),
    ;

    /// The first vector, with the second component negated.
    fn v1() -> (r: (u128, u128))
        ensures
            r.0 == Self::v1a(),
            r.1 == Self::v1b_neg(),
    ;

    /// The second vector.
    fn v2() -> (r: (u128, u128))
        ensures
            r.0 == Self::v2a(),
            r.1 == Self::v2b(),
    ;

    /// The limbs of the first coefficient.
    fn g1_limbs() -> (r: [u64; 5])
        ensures
            wide_value(r@) == Self::g1(),
    ;

    /// The limbs of the second coefficient.
    fn g2_limbs() -> (r: [u64; 5])
        ensures
            wide_value(r@) == Self::g2(),
    ;
}

/// Two to the 127.
pub open spec fn two127() -> int {
    0x8000_0000_0000_0000_0000_0000_0000_0000int
}

/// Two to the 128.
pub open spec fn two128() -> int {
    0x1_0000_0000_0000_0000_0000_0000_0000_0000int
}

/// Two to the 384.
pub open spec fn two384() -> int {
    0x1_0000_0000_0000_0000_0000_0000_0000_0000_0000_0000_0000_0000_0000_0000_0000_0000_0000_0000_0000_0000_0000_0000_0000_0000int
}

/// `g` is two to the 384 times `v / n`, rounded to the nearest integer.
pub open spec fn nearest(g: int, v: int, n: int) -> bool {
    -n <= 2 * (g * n - two384() * v) <= n
}

/// Half of `v` is so far below two to the 127 that rounding errors do not matter.
pub open spec fn short(v: int, n: int) -> bool {
    v * (n + 0x4000_0000_0000_0000_0000_0000_0000_0000int) < n * two128()
}

/// The value of five limbs.
proof fn lemma_five_limbs(r: Seq<u64>)
    requires
        r.len() == 5,
    ensures
        wide_value(r) == r[0] + r[1] * 0x1_0000_0000_0000_0000 + r[2] * two128() + r[3]
            * 0x1_0000_0000_0000_0000_0000_0000_0000_0000_0000_0000_0000_0000int + r[4]
            * 0x1_0000_0000_0000_0000_0000_0000_0000_0000_0000_0000_0000_0000_0000_0000_0000_0000int,
{
    crate::glv::wide::lemma_powers();
    reveal_with_fuel(wide_value, 6);
}

impl GlvParams for Pallas {
    open spec fn v1a() -> int {
        0x49e69d1640f049157fcae1c700000001int
    }

    open spec fn v1b_neg() -> int {
        0x49e69d1640a899538cb1279300000000int
    }

    open spec fn v2a() -> int {
        0x49e69d1640a899538cb1279300000000int
    }

    open spec fn v2b() -> int {
        0x93cd3a2c8198e2690c7c095a00000001int
    }

    open spec fn g1() -> int {
        0x2_4f34e8b2066389a4_31f0256800000002_c35fbd4d086862e0_111f686111afc293int
    }

    open spec fn g2() -> int {
        0x1_279a745902a2654e_32c49e4bffffffff_61afdea68480fa55_4a95a2d972171db4int
    }

    proof fn lemma_lattice() {
        let n = <Self::Scalar as Modulus>::p();
        let z = <Self::Scalar as Modulus>::cube_root();
        let (k1, k2) = (-0x78345c76c77c54d5eef49b6ffffffffint, 0xf068b8ed8f6d44011406c0a50aa0e4fint);
        assert(Self::v1a() - Self::v1b_neg() * z == 0 + k1 * n);
        lemma_congruent_multiple(Self::v1a() - Self::v1b_neg() * z, 0, k1, n);
        assert(Self::v2a() + Self::v2b() * z == 0 + k2 * n);
        lemma_congruent_multiple(Self::v2a() + Self::v2b() * z, 0, k2, n);
    }

    fn v1() -> (r: (u128, u128)) {
        (0x49e69d1640f049157fcae1c700000001, 0x49e69d1640a899538cb1279300000000)
    }

    fn v2() -> (r: (u128, u128)) {
        (0x49e69d1640a899538cb1279300000000, 0x93cd3a2c8198e2690c7c095a00000001)
    }

    fn g1_limbs() -> (r: [u64; 5]) {
        let r: [u64; 5] = [
            0x111f686111afc293,
            0xc35fbd4d086862e0,
            0x31f0256800000002,
            0x4f34e8b2066389a4,
            0x2,
        ];
        proof {
            lemma_five_limbs(r@);
        }
        r
    }

    fn g2_limbs() -> (r: [u64; 5]) {
        let r: [u64; 5] = [
            0x4a95a2d972171db4,
            0x61afdea68480fa55,
            0x32c49e4bffffffff,
            0x279a745902a2654e,
            0x1,
        ];
        proof {
            lemma_five_limbs(r@);
        }
        r
    }
}

impl GlvParams for Vesta {
    open spec fn v1a() -> int {
        0x49e69d1640f049157fcae1c700000000int
    }

    open spec fn v1b_neg() -> int {
        0x49e69d1640a899538cb1279300000001int
    }

    open spec fn v2a() -> int {
        0x49e69d1640a899538cb1279300000001int
    }

    open spec fn v2b() -> int {
        0x93cd3a2c8198e2690c7c095a00000001int
    }

    open spec fn g1() -> int {
        0x2_4f34e8b2066389a4_31f0256800000002_c35fbd4d0afe9926_841d8d62296e1563int
    }

    open spec fn g2() -> int {
        0x1_279a745902a2654e_32c49e4c00000003_61afdea685cc1578_841414c24bf99a83int
    }

    proof fn lemma_lattice() {
        let n = <Self::Scalar as Modulus>::p();
        let z = <Self::Scalar as Modulus>::cube_root();
        let (k1, k2) = (-0x15b5551a73557dc2843fb6ecfdfe4ab9int, 0x2b6aaa34e6c00a56a4e13e28fdfe4abaint);
        assert(Self::v1a() - Self::v1b_neg() * z == 0 + k1 * n);
        lemma_congruent_multiple(Self::v1a() - Self::v1b_neg() * z, 0, k1, n);
        assert(Self::v2a() + Self::v2b() * z == 0 + k2 * n);
        lemma_congruent_multiple(Self::v2a() + Self::v2b() * z, 0, k2, n);
    }

    fn v1() -> (r: (u128, u128)) {
        (0x49e69d1640f049157fcae1c700000000, 0x49e69d1640a899538cb1279300000001)
    }

    fn v2() -> (r: (u128, u128)) {
        (0x49e69d1640a899538cb1279300000001, 0x93cd3a2c8198e2690c7c095a00000001)
    }

    fn g1_limbs() -> (r: [u64; 5]) {
        let r: [u64; 5] = [
            0x841d8d62296e1563,
            0xc35fbd4d0afe9926,
            0x31f0256800000002,
            0x4f34e8b2066389a4,
            0x2,
        ];
        proof {
            lemma_five_limbs(r@);
        }
        r
    }

    fn g2_limbs() -> (r: [u64; 5]) {
        let r: [u64; 5] = [
            0x841414c24bf99a83,
            0x61afdea685cc1578,
            0x32c49e4c00000003,
            0x279a745902a2654e,
            0x1,
        ];
        proof {
            lemma_five_limbs(r@);
        }
        r
    }
}

} // verus!

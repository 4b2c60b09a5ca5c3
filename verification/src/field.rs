//! The prime fields of the Pallas and Vesta curves.
use crate::field::certificates::{
    lemma_prime_pallas_modulus, lemma_prime_vesta_modulus, pallas_modulus, vesta_modulus,
};
use crate::field::limbs::{base256, is_montgomery_inverse, limbs_value, Limbs};
use crate::field::primes::{is_inverse, is_prime};
use crate::field::roots::{lemma_pallas_root, lemma_vesta_root};
use vstd::arithmetic::power::pow;
use vstd::prelude::*;

pub mod backend;
pub mod certificates;
pub mod congruence;
pub mod element;
pub mod fermat;
pub mod limbs;
pub mod primes;
pub mod repr;
pub mod roots;

pub use crate::field::element::{Accumulator, Fe, Fp, Fq};

verus! {

/// The modulus of a prime field and the constants of its Montgomery form.
pub trait Modulus: Copy {
    /// The modulus.
    spec fn p() -> int;

    /// The inverse of two to the 256 modulo the modulus.
    spec fn radix_inverse() -> int;

    /// A nontrivial cube root of one.
    spec fn cube_root() -> int;

    /// A primitive root of one of order two to the 32.
    spec fn two_adic_root() -> int;

    /// The modulus is a prime of 255 bits.
    proof fn lemma_modulus()
        ensures
            is_prime(Self::p()),
            0x4000000000000000000000000000000000000000000000000000000000000000int < Self::p()
                < 0x4000000000000000000000000000000100000000000000000000000000000000int,
            Self::p() % 2 == 1,
            is_inverse(base256(), Self::radix_inverse(), Self::p()),
            0 <= Self::cube_root() < Self::p(),
            (Self::cube_root() * Self::cube_root() + Self::cube_root() + 1) % Self::p() == 0,
            0 <= Self::two_adic_root() < Self::p(),
    ;

    /// The primitive root is the power of five to the odd part of `p - 1`, and its power to two to
    /// the 31 is minus one.
    proof fn lemma_two_adic_root()
        ensures
            (Self::p() - 1) % 0x1_0000_0000 == 0,
            pow(5, ((Self::p() - 1) / 0x1_0000_0000) as nat) % Self::p() == Self::two_adic_root(),
            pow(Self::two_adic_root(), 0x8000_0000) % Self::p() == Self::p() - 1,
    ;

    /// The limbs of the modulus.
    fn limbs() -> (r: Limbs)
        ensures
            limbs_value(r) == Self::p(),
    ;

    /// The negated inverse of the modulus modulo two to the 64.
    fn inv() -> (r: u64)
        ensures
            forall|m: Limbs|
                #![trigger limbs_value(m)]
                limbs_value(m) == Self::p() ==> is_montgomery_inverse(m, r),
    ;

    /// Two to the 256, reduced.
    fn radix() -> (r: Limbs)
        ensures
            limbs_value(r) == base256() % Self::p(),
    ;

    /// Two to the 512, reduced.
    fn radix_squared() -> (r: Limbs)
        ensures
            limbs_value(r) == (base256() * base256()) % Self::p(),
    ;

    /// The limbs of the cube root of one.
    fn cube_root_limbs() -> (r: Limbs)
        ensures
            limbs_value(r) == Self::cube_root(),
    ;

    /// The limbs of the root of one of order two to the 32.
    fn two_adic_root_limbs() -> (r: Limbs)
        ensures
            limbs_value(r) == Self::two_adic_root(),
    ;
}

/// The Pallas base field, which is the Vesta scalar field.
#[derive(Clone, Copy, Debug)]
pub struct PallasBase;

/// The Vesta base field, which is the Pallas scalar field.
#[derive(Clone, Copy, Debug)]
pub struct VestaBase;

impl Modulus for PallasBase {
    open spec fn p() -> int {
        pallas_modulus()
    }

    open spec fn radix_inverse() -> int {
        0x21f1c4ff1e2278d570cb2996efc89a65ac9fba6a4077fc57cf3f8e8753a769a9int
    }

    open spec fn cube_root() -> int {
        0x12ccca834acdba712caad5dc57aab1b01d1f8bd237ad31491dad5ebdfdfe4ab9int
    }

    open spec fn two_adic_root() -> int {
        0x2bce74deac30ebda362120830561f81aea322bf2b7bb7584bdad6fabd87ea32fint
    }

    proof fn lemma_modulus() {
        lemma_prime_pallas_modulus();
    }

    proof fn lemma_two_adic_root() {
        lemma_pallas_root();
    }

    fn limbs() -> (r: Limbs) {
        [0x992d30ed00000001, 0x224698fc094cf91b, 0, 0x4000000000000000]
    }

    fn inv() -> (r: u64) {
        proof {
            assert forall|m: Limbs|
                #![trigger limbs_value(m)]
                limbs_value(m) == Self::p() implies is_montgomery_inverse(
                m,
                0x992d30ecffffffff,
            ) by {
                assert(m[0] == 0x992d30ed00000001);
            }
        }
        0x992d30ecffffffff
    }

    fn radix() -> (r: Limbs) {
        [0x34786d38fffffffd, 0x992c350be41914ad, 0xffffffffffffffff, 0x3fffffffffffffff]
    }

    fn radix_squared() -> (r: Limbs) {
        [0x8c78ecb30000000f, 0xd7d30dbd8b0de0e7, 0x7797a99bc3c95d18, 0x096d41af7b9cb714]
    }

    fn cube_root_limbs() -> (r: Limbs) {
        [0x1dad5ebdfdfe4ab9, 0x1d1f8bd237ad3149, 0x2caad5dc57aab1b0, 0x12ccca834acdba71]
    }

    fn two_adic_root_limbs() -> (r: Limbs) {
        [0xbdad6fabd87ea32f, 0xea322bf2b7bb7584, 0x362120830561f81a, 0x2bce74deac30ebda]
    }
}

impl Modulus for VestaBase {
    open spec fn p() -> int {
        vesta_modulus()
    }

    open spec fn radix_inverse() -> int {
        0x1f7a89dd176479535790be58c050df13c68de1279dc601eb6119a3dd8e1a6f7fint
    }

    open spec fn cube_root() -> int {
        0x06819a58283e528e511db4d81cf70f5a0fed467d47c033af2aa9d2e050aa0e4fint
    }

    open spec fn two_adic_root() -> int {
        0x2de6a9b8746d3f589e5c4dfd492ae26e9bb97ea3c106f049a70e2c1102b6d05fint
    }

    proof fn lemma_modulus() {
        lemma_prime_vesta_modulus();
    }

    proof fn lemma_two_adic_root() {
        lemma_vesta_root();
    }

    fn limbs() -> (r: Limbs) {
        [0x8c46eb2100000001, 0x224698fc0994a8dd, 0, 0x4000000000000000]
    }

    fn inv() -> (r: u64) {
        proof {
            assert forall|m: Limbs|
                #![trigger limbs_value(m)]
                limbs_value(m) == Self::p() implies is_montgomery_inverse(
                m,
                0x8c46eb20ffffffff,
            ) by {
                assert(m[0] == 0x8c46eb2100000001);
            }
        }
        0x8c46eb20ffffffff
    }

    fn radix() -> (r: Limbs) {
        [0x5b2b3e9cfffffffd, 0x992c350be3420567, 0xffffffffffffffff, 0x3fffffffffffffff]
    }

    fn radix_squared() -> (r: Limbs) {
        [0xfc9678ff0000000f, 0x67bb433d891a16e3, 0x7fae231004ccf590, 0x096d41af7ccfdaa9]
    }

    fn cube_root_limbs() -> (r: Limbs) {
        [0x2aa9d2e050aa0e4f, 0x0fed467d47c033af, 0x511db4d81cf70f5a, 0x06819a58283e528e]
    }

    fn two_adic_root_limbs() -> (r: Limbs) {
        [0xa70e2c1102b6d05f, 0x9bb97ea3c106f049, 0x9e5c4dfd492ae26e, 0x2de6a9b8746d3f58]
    }
}

} // verus!

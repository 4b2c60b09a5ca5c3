//! Field elements.
use std::fmt::Debug;
use zakura_arith::field::backend::{adx_available, detect, mul, square, FeatureState};
use zakura_arith::field::repr::bits_at;
use zakura_arith::field::{Fe, Fp, Fq, Modulus, PallasBase, VestaBase};

fn samples<M: Modulus>() -> Vec<Fe<M>> {
    vec![
        Fe::zero(),
        Fe::one(),
        Fe::one().neg(),
        Fe::from_u64(u64::MAX),
        Fe::from_u128(u128::MAX),
        Fe::from_raw([0x0123_4567_89ab_cdef, 0xfedc_ba98_7654_3210, 77, 0x1fff_0000_1234_5678]),
        Fe::from_raw([u64::MAX; 4]),
        Fe::zeta(),
        Fe::root_of_unity(),
    ]
}

fn laws<M: Modulus + Debug>() {
    for a in samples::<M>() {
        assert_eq!(a.add(a.neg()), Fe::zero());
        assert_eq!(a.double(), a.add(a));
        assert_eq!(a.square(), a.mul(a));
        assert_eq!(a.mul(Fe::one()), a);
        match a.invert() {
            Some(inverse) => assert_eq!(a.mul(inverse), Fe::one()),
            None => assert!(a.is_zero()),
        }
        assert_eq!(Fe::from_repr(a.to_repr()), Some(a));
        assert_eq!(Fe::from_raw(a.to_limbs()), a);
        for b in samples::<M>() {
            assert_eq!(a.add(b), b.add(a));
            assert_eq!(a.mul(b), b.mul(a));
            assert_eq!(a.sub(b).add(b), a);
            for c in samples::<M>() {
                assert_eq!(a.mul(b.add(c)), a.mul(b).add(a.mul(c)));
            }
        }
    }
    let two = Fe::<M>::from_u64(2);
    assert_eq!(two.mul(Fe::two_inv()), Fe::one());
    let zeta = Fe::<M>::zeta();
    assert_eq!(zeta.mul(zeta).mul(zeta), Fe::one());
    assert_ne!(zeta, Fe::one());
    let mut root = Fe::<M>::root_of_unity();
    for _ in 0..31 {
        root = root.square();
    }
    assert_eq!(root, Fe::one().neg());
    assert_eq!(Fe::<M>::from_u64(3).pow_vartime(5), Fe::from_u64(243));
    assert_eq!(Fe::<M>::from_u64(3).pow_vartime(0), Fe::one());
}

#[test]
fn pallas_base_is_a_field() {
    laws::<PallasBase>();
}

#[test]
fn vesta_base_is_a_field() {
    laws::<VestaBase>();
}

#[test]
fn residues_have_canonical_limbs() {
    assert_eq!(
        Fp::one().neg().to_limbs(),
        [0x992d30ed00000000, 0x224698fc094cf91b, 0, 0x4000000000000000]
    );
    assert_eq!(
        Fq::one().neg().to_limbs(),
        [0x8c46eb2100000000, 0x224698fc0994a8dd, 0, 0x4000000000000000]
    );
    // The modulus stands for zero.
    let modulus = [0x992d30ed00000001, 0x224698fc094cf91b, 0, 0x4000000000000000];
    assert!(Fp::from_raw(modulus).is_zero());
}

#[test]
fn encodings_are_canonical() {
    let mut one = [0u8; 32];
    one[0] = 1;
    assert_eq!(Fp::one().to_repr(), one);
    let largest = Fp::one().neg().to_repr();
    assert_eq!(Fp::from_repr(largest), Some(Fe::one().neg()));
    let mut modulus = largest;
    modulus[0] += 1;
    assert_eq!(Fp::from_repr(modulus), None);
    // The Pallas modulus is a residue of the larger field.
    assert!(Fq::from_repr(modulus).is_some());
}

#[test]
fn bits_are_those_of_the_encoding() {
    let value = Fp::from_raw([0b1011, 0, 1, 0]);
    let bits = value.to_le_bits();
    let set: Vec<usize> = (0..256).filter(|i| bits[*i]).collect();
    assert_eq!(set, vec![0, 1, 3, 128]);
    let bytes = Fp::from_u64(0x0012_3456_789a_bcde).to_repr();
    assert_eq!(bits_at(&bytes, 0, 8), 0xde);
    assert_eq!(bits_at(&bytes, 7, 10), ((0x0012_3456_789a_bcdeu64 >> 7) & 1023) as u16);
    assert_eq!(bits_at(&bytes, 13, 3), ((0x0012_3456_789a_bcdeu64 >> 13) & 7) as u16);
}

#[test]
fn features_need_both_bits_and_the_leaf() {
    let both = 0x80100;
    assert!(detect(7, both));
    assert!(detect(20, u32::MAX));
    assert!(!detect(6, both));
    assert!(!detect(7, 0x100));
    assert!(!detect(7, 0x80000));
    assert!(!detect(7, 0));
}

#[test]
fn features_are_asked_once() {
    let (available, state) = adx_available(FeatureState::Unknown, 7, 0x80100);
    assert!(available);
    assert_eq!(state, FeatureState::Available);
    assert_eq!(adx_available(state, 0, 0), (true, FeatureState::Available));
    let (available, state) = adx_available(FeatureState::Unknown, 7, 1);
    assert!(!available);
    assert_eq!(adx_available(state, 7, u32::MAX), (false, FeatureState::Unavailable));
}

#[test]
fn backends_multiply_montgomery_residues() {
    let modulus = PallasBase::limbs();
    let inv = PallasBase::inv();
    let one = PallasBase::radix();
    assert_eq!(mul(false, &one, &one, &modulus, inv), None);
    assert_eq!(square(false, &one, &modulus, inv), None);
    // The radix is the Montgomery form of one.
    assert_eq!(mul(true, &one, &one, &modulus, inv), Some(one));
    assert_eq!(square(true, &one, &modulus, inv), Some(one));
    let r2 = PallasBase::radix_squared();
    assert_eq!(mul(true, &r2, &[1, 0, 0, 0], &modulus, inv), Some(one));
}

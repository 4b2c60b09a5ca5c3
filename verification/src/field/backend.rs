//! The choice of a multiplication backend by processor features.
use crate::field::limbs::{
    base256, is_montgomery_inverse, limbs_value, montgomery_mul, Limbs,
};
use vstd::prelude::*;

verus! {

/// The bit of the structured features that stands for BMI2.
pub const CPUID_BMI2: u32 = 0x100;

/// The bit of the structured features that stands for ADX.
pub const CPUID_ADX: u32 = 0x80000;

/// The leaf of the structured features.
pub const CPUID_STRUCTURED_LEAF: u32 = 7;

/// What is known of the processor.
#[derive(Clone, Copy, Debug, PartialEq, Eq, Structural)]
pub enum FeatureState {
    /// The features have not been read.
    Unknown,
    /// A feature is missing.
    Unavailable,
    /// Both features are there.
    Available,
}

/// The structured features can be read, and hold BMI2 and ADX.
pub open spec fn has_features(max_leaf: u32, features: u32) -> bool {
    max_leaf >= 7 && (features / 0x100) % 2 == 1 && (features / 0x80000) % 2 == 1
}

/// Whether BMI2 and ADX are available, by the largest leaf of the processor and the register with
/// its structured features.
pub fn detect(max_leaf: u32, features: u32) -> (r: bool)
    ensures
        r == has_features(max_leaf, features),
{
    proof {
        assert((features & 0x80100 == 0x80100) == ((features / 0x100) % 2 == 1 && (features
            / 0x80000) % 2 == 1)) by (bit_vector);
        assert(0x100u32 | 0x80000u32 == 0x80100) by (bit_vector);
    }
    max_leaf >= CPUID_STRUCTURED_LEAF && features & (CPUID_BMI2 | CPUID_ADX) == (CPUID_BMI2
        | CPUID_ADX)
}

/// Whether the features are available, and what is known from there on.
pub open spec fn answer(state: FeatureState, max_leaf: u32, features: u32) -> (bool, FeatureState) {
    let available = match state {
        FeatureState::Unknown => has_features(max_leaf, features),
        FeatureState::Unavailable => false,
        FeatureState::Available => true,
    };
    (
        available,
        if available {
            FeatureState::Available
        } else {
            FeatureState::Unavailable
        },
    )
}

/// What is known does not change: a second question has the answer of the first, whatever the
/// processor reports then.
pub proof fn lemma_answer_is_kept(
    state: FeatureState,
    max_leaf: u32,
    features: u32,
    later_leaf: u32,
    later_features: u32,
)
    ensures
        answer(answer(state, max_leaf, features).1, later_leaf, later_features) == answer(
            state,
            max_leaf,
            features,
        ),
{
}

/// The first answer is the processor's: its leaves reach to seven, and bits 8 and 19 of the
/// structured features are set.
pub proof fn lemma_first_answer(max_leaf: u32, features: u32)
    ensures
        answer(FeatureState::Unknown, max_leaf, features).0 <==> max_leaf >= 7 && (features >> 8) & 1
            == 1 && (features >> 19) & 1 == 1,
        answer(FeatureState::Unknown, max_leaf, features).1 != FeatureState::Unknown,
        answer(FeatureState::Available, max_leaf, features).0,
        !answer(FeatureState::Unavailable, max_leaf, features).0,
{
    assert((features / 0x100) % 2 == (features >> 8) & 1 && (features / 0x80000) % 2 == (features
        >> 19) & 1) by (bit_vector);
}

/// Whether the features are available, and what is known from there on. The processor's report
/// counts only where nothing is known.
pub fn adx_available(state: FeatureState, max_leaf: u32, features: u32) -> (r: (bool, FeatureState))
    ensures
        r == answer(state, max_leaf, features),
{
    match state {
        FeatureState::Unavailable => (false, FeatureState::Unavailable),
        FeatureState::Available => (true, FeatureState::Available),
        FeatureState::Unknown => {
            if detect(max_leaf, features) {
                (true, FeatureState::Available)
            } else {
                (false, FeatureState::Unavailable)
            }
        },
    }
}

/// The product of two canonical Montgomery residues where the features are available, or `None`
/// to select the portable implementation.
pub fn mul(available: bool, lhs: &Limbs, rhs: &Limbs, modulus: &Limbs, inv: u64) -> (r: Option<
    Limbs,
>)
    requires
        is_montgomery_inverse(*modulus, inv),
        limbs_value(*lhs) < limbs_value(*modulus),
        limbs_value(*rhs) < limbs_value(*modulus),
        2 * limbs_value(*modulus) < base256(),
    ensures
        r is Some <==> available,
        r matches Some(out) ==> limbs_value(out) < limbs_value(*modulus) && (limbs_value(out)
            * base256()) % limbs_value(*modulus) == (limbs_value(*lhs) * limbs_value(*rhs))
            % limbs_value(*modulus),
{
    if !available {
        return None;
    }
    Some(montgomery_mul(lhs, rhs, modulus, inv))
}

/// The square of a canonical Montgomery residue where the features are available, or `None` to
/// select the portable implementation.
pub fn square(available: bool, value: &Limbs, modulus: &Limbs, inv: u64) -> (r: Option<Limbs>)
    requires
        is_montgomery_inverse(*modulus, inv),
        limbs_value(*value) < limbs_value(*modulus),
        2 * limbs_value(*modulus) < base256(),
    ensures
        r is Some <==> available,
        r matches Some(out) ==> limbs_value(out) < limbs_value(*modulus) && (limbs_value(out)
            * base256()) % limbs_value(*modulus) == (limbs_value(*value) * limbs_value(*value))
            % limbs_value(*modulus),
{
    if !available {
        return None;
    }
    Some(montgomery_mul(value, value, modulus, inv))
}

} // verus!

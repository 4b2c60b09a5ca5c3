//! The Pedersen hash.
use group::Group;
use zakura_arith::pedersen::chunks::segment_scalar;
use zakura_arith::pedersen::fused::FusedTables;
use zakura_arith::pedersen::hash::{
    collect_bounded_bits, pedersen_hash, pedersen_hash_fused, Personalization,
};
use zakura_arith::pedersen::windowed::ExpTables;

fn generators() -> Vec<jubjub::ExtendedPoint> {
    (0..6u64)
        .map(|i| {
            let point = jubjub::SubgroupPoint::generator() * jubjub::Fr::from(1_000_003 * i + 77);
            jubjub::ExtendedPoint::from(point)
        })
        .collect()
}

/// Accumulates the scalar of every segment and multiplies its generator directly.
fn reference_pedersen_hash(
    personalization: Personalization,
    input: &[bool],
) -> jubjub::ExtendedPoint {
    let mut bits = personalization
        .get_bits()
        .into_iter()
        .chain(input.iter().copied());
    let mut result = jubjub::ExtendedPoint::identity();
    let generators = generators();
    let mut generators = generators.iter();
    loop {
        let mut acc = jubjub::Fr::zero();
        let mut cur = jubjub::Fr::one();
        let mut chunks_remaining = 63;
        let mut encountered_bits = false;
        while let Some(a) = bits.next() {
            encountered_bits = true;
            let b = bits.next().unwrap_or(false);
            let c = bits.next().unwrap_or(false);
            let mut tmp = cur;
            if a {
                tmp += cur;
            }
            cur = cur.double();
            if b {
                tmp += cur;
            }
            if c {
                tmp = -tmp;
            }
            acc += tmp;
            chunks_remaining -= 1;
            if chunks_remaining == 0 {
                break;
            }
            cur = cur.double().double().double();
        }
        if !encountered_bits {
            break;
        }
        let g = generators.next().expect("we don't have enough generators");
        result += g * acc;
    }
    result
}

#[test]
fn matches_reference_across_boundaries() {
    let tables = ExpTables::new(&generators());
    let fused = FusedTables::new(&generators());
    let mut state: u64 = 0x9e37_79b9_7f4a_7c15;
    let mut next_bit = || {
        state ^= state << 13;
        state ^= state >> 7;
        state ^= state << 17;
        state & 1 == 1
    };
    let lengths = [
        0, 1, 2, 3, 4, 5, 6, 7, 8, 9, 180, 181, 182, 183, 184, 185, 186, 369, 370, 371, 372, 373,
        374, 510, 516, 564, 1125, 1126, 1127, 1128,
    ];
    for personalization in [
        Personalization::NoteCommitment,
        Personalization::MerkleTree(31),
    ] {
        for &len in &lengths {
            let input: Vec<bool> = (0..len).map(|_| next_bit()).collect();
            let expected = reference_pedersen_hash(personalization, &input);
            assert_eq!(
                pedersen_hash(&tables, personalization, &input),
                expected,
                "mismatch at input length {len}",
            );
            assert_eq!(
                pedersen_hash_fused(&fused, personalization, &input),
                expected,
                "fused mismatch at input length {len}",
            );
        }
    }
}

#[test]
fn rejects_one_bit_over_generator_capacity() {
    let max_input_bits = 6 * 63 * 3 - Personalization::NoteCommitment.get_bits().len();
    let fits = vec![true; max_input_bits];
    let all = collect_bounded_bits(Personalization::NoteCommitment, &fits, 6).unwrap();
    assert_eq!(all.len(), 1134);
    let over = vec![true; max_input_bits + 1];
    assert!(collect_bounded_bits(Personalization::NoteCommitment, &over, 6).is_none());
    assert!(collect_bounded_bits(Personalization::NoteCommitment, &vec![], 0).is_none());
    assert!(collect_bounded_bits(Personalization::NoteCommitment, &vec![true; 183], 1).is_some());
    assert!(collect_bounded_bits(Personalization::NoteCommitment, &vec![true; 184], 1).is_none());
}

#[test]
fn personalizations_have_six_bits() {
    assert_eq!(Personalization::NoteCommitment.get_bits(), vec![true; 6]);
    assert_eq!(Personalization::MerkleTree(0).get_bits(), vec![false; 6]);
    assert_eq!(
        Personalization::MerkleTree(37).get_bits(),
        vec![true, false, true, false, false, true]
    );
    assert_eq!(
        Personalization::MerkleTree(62).get_bits(),
        vec![false, true, true, true, true, true]
    );
}

#[test]
fn chunks_have_signed_coefficients() {
    // Plus one to plus four by the first two bits, and the sign by the third.
    for (bits, expected) in [
        ([false, false, false], 1i64),
        ([true, false, false], 2),
        ([false, true, false], 3),
        ([true, true, false], 4),
        ([false, false, true], -1),
        ([true, true, true], -4),
    ] {
        let scalar = segment_scalar(&bits.to_vec(), 0, 1);
        let magnitude = jubjub::Fr::from(expected.unsigned_abs());
        let value = if expected < 0 { -magnitude } else { magnitude };
        assert_eq!(scalar, value);
    }
    // The second chunk weighs sixteen.
    let scalar = segment_scalar(&vec![false, false, false, true], 0, 2);
    assert_eq!(scalar, jubjub::Fr::from(1 + 2 * 16));
}

#[test]
fn one_chunk_selects_a_multiple_of_the_generator() {
    let generators = generators();
    let tables = ExpTables::new(&generators);
    assert_eq!(tables.len(), 6);
    let g = generators[0];
    // The first three bits are the coefficient minus four, the next three are minus four too.
    let bits = vec![true; 6];
    let expected = -(g * jubjub::Fr::from(4 + 4 * 16));
    assert_eq!(tables.windowed_pedersen_hash(&bits), expected);
    let fused = FusedTables::new(&generators);
    assert_eq!(fused.len(), 6);
    assert_eq!(fused.fused_pedersen_hash(&bits), expected);
    assert_eq!(fused.fused_pedersen_hash(&vec![]), jubjub::ExtendedPoint::identity());
}

#[test]
fn one_more_false_bit_counts_only_in_a_new_chunk() {
    let tables = ExpTables::new(&generators());
    let generators = generators();
    let personalization = Personalization::MerkleTree(5);
    for len in [0usize, 1, 2, 3, 182, 183, 184, 186, 371, 372, 1127] {
        let bits: Vec<bool> = (0..len).map(|i| i % 5 < 2).collect();
        let mut more = bits.clone();
        more.push(false);
        let hash = pedersen_hash(&tables, personalization, &bits);
        let longer = pedersen_hash(&tables, personalization, &more);
        if len % 3 != 0 {
            assert_eq!(longer, hash, "length {len}");
        } else {
            let t = (len + 6) / 3;
            let mut weight = jubjub::Fr::one();
            for _ in 0..4 * (t % 63) {
                weight = weight.double();
            }
            assert_eq!(longer, hash + generators[t / 63] * weight, "length {len}");
        }
    }
}

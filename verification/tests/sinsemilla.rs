//! The Sinsemilla hash and its position-weighted evaluation.
use zakura_arith::curve::affine::Affine;
use zakura_arith::curve::batch::batch_normalize;
use zakura_arith::curve::point::Point;
use zakura_arith::curve::Pallas;
use zakura_arith::field::Fe;
use zakura_arith::sinsemilla::domain::{
    extract, message_words, HashDomain, GENERATOR_COUNT, K,
};
use zakura_arith::sinsemilla::weighted::{
    BatchHashWorkspace, UncheckedFixedLengthHashDomain, BATCH_AFFINE_MIN_MESSAGES,
    FUSED_FIRST_WORDS,
};

const WORDS: usize = 12;

fn generator() -> Point<Pallas> {
    Point::from_affine(Affine::from_xy(Fe::one().neg(), Fe::from_u64(2)))
}

fn affine(point: Point<Pallas>) -> Affine<Pallas> {
    batch_normalize(&vec![point])[0]
}

fn same_affine(a: Affine<Pallas>, b: Affine<Pallas>) -> bool {
    a.x.same(b.x) && a.y.same(b.y)
}

fn same(a: Point<Pallas>, b: Point<Pallas>) -> bool {
    same_affine(affine(a), affine(b))
}

/// Generators without small relations: every one is three times the one before, plus a step.
fn generators() -> Vec<Affine<Pallas>> {
    let mut point = generator().mul_glv(Fe::from_raw([11, 22, 33, 44]));
    let step = generator().mul_glv(Fe::from_raw([5, 6, 7, 8]));
    let points = (0..GENERATOR_COUNT)
        .map(|_| {
            let current = point;
            point = point.double().add(point).add(step);
            current
        })
        .collect();
    batch_normalize(&points)
}

fn domain() -> HashDomain {
    let q = generator().mul_glv(Fe::from_raw([91, 92, 93, 94]));
    HashDomain::from_Q(q, generators())
}

fn words_to_bits(words: &[u16]) -> Vec<bool> {
    words
        .iter()
        .flat_map(|word| (0..K).map(move |bit| ((word >> bit) & 1) == 1))
        .collect()
}

fn splitmix64(state: &mut u64) -> u64 {
    *state = state.wrapping_add(0x9e37_79b9_7f4a_7c15);
    let mut value = *state;
    value = (value ^ (value >> 30)).wrapping_mul(0xbf58_476d_1ce4_e5b9);
    value = (value ^ (value >> 27)).wrapping_mul(0x94d0_49bb_1331_11eb);
    value ^ (value >> 31)
}

fn random_words<const N: usize>(state: &mut u64) -> [u16; N] {
    std::array::from_fn(|_| (splitmix64(state) as usize % GENERATOR_COUNT) as u16)
}

#[test]
fn unchecked_evaluator_deliberately_skips_incomplete_addition_failure() {
    let generator_index = 0;
    let generators = generators();
    let generator = generators[generator_index];
    let generator_point = Point::from_affine(generator);
    let domain = HashDomain::from_Q(generator_point, generators);
    let unchecked = UncheckedFixedLengthHashDomain::<1>::new(&domain);
    let words = [generator_index as u16];
    let bits = words_to_bits(&words);

    // The first incomplete addition attempts S + S, so the hash is not defined. The unchecked
    // evaluator computes the corresponding complete group expression instead.
    assert!(domain.hash_to_point(&bits).is_none());
    assert!(domain.hash(&bits).is_none());
    assert!(same(
        unchecked.hash_words_to_point(&words),
        generator_point.double().add_affine(generator)
    ));
}

#[test]
fn fixed_merkle_length_matches_generic_evaluation() {
    let domain = domain();
    let weighted = UncheckedFixedLengthHashDomain::<52>::new(&domain);

    let mut fixtures = vec![
        [0; 52],
        [1; 52],
        [(GENERATOR_COUNT - 1) as u16; 52],
        std::array::from_fn(|i| i as u16),
    ];
    let mut state = 0x5369_6e73_656d_696c;
    fixtures.extend((0..12).map(|_| random_words(&mut state)));

    for words in fixtures {
        let bits = words_to_bits(&words);
        let expected = domain.hash_to_point(&bits).expect("no addition is exceptional");
        assert!(same(expected, weighted.hash_words_to_point(&words)));
        assert!(same(expected, weighted.hash_to_point(&bits)));
        let expected = domain.hash(&bits).expect("no addition is exceptional");
        assert_eq!(expected, weighted.hash_words(&words));
        assert_eq!(expected, weighted.hash(&bits));
    }
}

#[test]
fn batch_matches_individual_word_evaluation() {
    let domain = domain();
    let weighted = UncheckedFixedLengthHashDomain::<WORDS>::new(&domain);
    let mut workspace = BatchHashWorkspace::default();
    let mut state = 0x5369_6e73_656d_696c;
    let messages: Vec<[u16; WORDS]> = (0..64).map(|_| random_words(&mut state)).collect();
    let expected: Vec<_> = messages.iter().map(|words| weighted.hash_words(words)).collect();

    // Both sides of the batch-affine threshold, and odd widths on both paths.
    for width in [
        1,
        2,
        3,
        BATCH_AFFINE_MIN_MESSAGES - 1,
        BATCH_AFFINE_MIN_MESSAGES,
        17,
        33,
        64,
    ] {
        assert_eq!(
            weighted.hash_words_batch(&messages[..width]),
            expected[..width],
            "width {}",
            width
        );
        assert_eq!(
            weighted.hash_words_batch_with_workspace(&messages[..width], &mut workspace),
            &expected[..width],
            "workspace width {}",
            width
        );
    }
    assert!(weighted.hash_words_batch(&[]).is_empty());
    assert!(weighted
        .hash_words_batch_with_workspace(&[], &mut workspace)
        .is_empty());
    assert!(workspace.hashes().is_empty());
}

#[test]
fn batches_with_a_shared_first_word() {
    let domain = domain();
    let weighted = UncheckedFixedLengthHashDomain::<WORDS>::new(&domain);
    let mut state = 7;
    for first in [3, FUSED_FIRST_WORDS as u16 + 1] {
        for width in [5, 40] {
            let messages: Vec<[u16; WORDS]> = (0..width)
                .map(|_| {
                    let mut words: [u16; WORDS] = random_words(&mut state);
                    words[0] = first;
                    words
                })
                .collect();
            let expected: Vec<_> =
                messages.iter().map(|words| weighted.hash_words(words)).collect();
            assert_eq!(weighted.hash_words_batch(&messages), expected);
        }
    }
}

#[test]
fn exceptional_batches_match_individual_evaluation() {
    // With the initial point equal to a generator some chords are not defined.
    let generators = generators();
    let q = Point::from_affine(generators[1]);
    let domain = HashDomain::from_Q(q.neg(), generators);
    let weighted = UncheckedFixedLengthHashDomain::<3>::new(&domain);
    let mut state = 21;
    let mut messages: Vec<[u16; 3]> = (0..40).map(|_| random_words(&mut state)).collect();
    messages[7] = [1, 1, 1];
    messages[8] = [2, 1, 1];
    let expected: Vec<_> = messages.iter().map(|words| weighted.hash_words(words)).collect();
    assert_eq!(weighted.hash_words_batch(&messages), expected);
}

#[test]
fn weighted_table_is_a_doubling_chain() {
    let domain = domain();
    let weighted = UncheckedFixedLengthHashDomain::<WORDS>::new(&domain);
    let initial = (0..WORDS).fold(domain.q(), |point, _| point.double());

    assert_eq!(
        weighted.table_bytes(),
        (WORDS + FUSED_FIRST_WORDS) * GENERATOR_COUNT * std::mem::size_of::<Affine<Pallas>>()
    );

    for generator in (0..GENERATOR_COUNT).step_by(97) {
        assert!(same_affine(
            weighted.weighted_generator(0, generator),
            domain.generator(generator)
        ));
        for exponent in 0..WORDS - 1 {
            let entry = weighted.weighted_generator(exponent, generator);
            assert!(!entry.is_identity());
            let doubled = affine(Point::from_affine(entry).double());
            if exponent + 1 < WORDS - 1 {
                assert!(same_affine(
                    weighted.weighted_generator(exponent + 1, generator),
                    doubled
                ));
            }
        }
        let first_generator =
            Point::from_affine(weighted.weighted_generator(WORDS - 2, generator)).double();
        let first = initial.add(first_generator);
        assert!(same_affine(weighted.first_accumulator(generator), affine(first)));
    }
    for first in 0..FUSED_FIRST_WORDS {
        for second in [0, 5, 1023] {
            let expected = Point::from_affine(weighted.first_accumulator(first))
                .add_affine(weighted.weighted_generator(WORDS - 2, second));
            assert!(same_affine(weighted.fused_first_two(first, second), affine(expected)));
        }
    }
}

#[test]
fn messages_are_padded_with_zeros() {
    assert_eq!(message_words(&vec![]), Vec::<u16>::new());
    assert_eq!(message_words(&vec![true]), vec![1]);
    assert_eq!(message_words(&vec![false, true, true]), vec![6]);
    let mut bits = vec![true; 10];
    bits.push(true);
    assert_eq!(message_words(&bits), vec![1023, 1]);
}

#[test]
fn the_neutral_element_extracts_to_zero() {
    assert!(extract(Point::identity()).is_zero());
    assert_eq!(extract(generator()), Fe::one().neg());
    assert_eq!(extract(generator().neg()), Fe::one().neg());
}

#[test]
fn affine_batches_have_the_coordinates_of_the_points() {
    let weighted = UncheckedFixedLengthHashDomain::<WORDS>::new(&domain());
    let mut workspace = BatchHashWorkspace::default();
    let mut state = 0x0bad_cafe;
    for width in [1, 9, 40] {
        let messages: Vec<[u16; WORDS]> = (0..width).map(|_| random_words(&mut state)).collect();
        assert!(weighted.evaluate_batch_affine(&messages, &mut workspace));
        assert_eq!(workspace.hashes().len(), width);
        assert_eq!(workspace.seconds().len(), width);
        for k in 0..width {
            let point = affine(weighted.hash_words_to_point(&messages[k]));
            assert_eq!(workspace.hashes()[k], point.x);
            assert_eq!(workspace.seconds()[k], point.y);
        }
    }

    // All generators are equal, and the initial point is a quarter of their opposite: the
    // accumulator after the first word is the weighted generator of the second.
    let quarter = Fe::from_u64(4).invert().unwrap().neg();
    let q = generator().mul_glv(quarter);
    let points = (0..GENERATOR_COUNT).map(|_| generator()).collect();
    let exceptional = HashDomain::from_Q(q, batch_normalize(&points));
    let exceptional = UncheckedFixedLengthHashDomain::<3>::new(&exceptional);
    let messages = [[9, 10, 11], [12, 13, 14]];
    assert!(!exceptional.evaluate_batch_affine(&messages, &mut workspace));
    // 8 q + 4 g + 2 g + g
    let sum = generator().double().double().add(generator());
    assert!(same(exceptional.hash_words_to_point(&messages[0]), sum));
}

//! Note commitment trees.
use zakura_arith::curve::affine::Affine;
use zakura_arith::curve::batch::batch_normalize;
use zakura_arith::curve::point::Point;
use zakura_arith::curve::Pallas;
use zakura_arith::field::{Fe, Fp};
use zakura_arith::sinsemilla::domain::{HashDomain, GENERATOR_COUNT, K};
use zakura_arith::sinsemilla::weighted::UncheckedFixedLengthHashDomain;
use zakura_arith::tree::{
    merkle_crh_checked, merkle_crh_message, merkle_crh_to_point, merkle_crh_words, Anchor,
    ExtractedNoteCommitment, MerkleHashBatchWorkspace, MerkleHashOrchard, MerklePath,
    MERKLE_DEPTH_ORCHARD,
};

/// Batch sizes for empty, singleton, odd and tree-level workloads.
const BATCH_WIDTHS: [usize; 9] = [0, 1, 2, 3, 4, 8, 16, 32, 64];

fn generator() -> Point<Pallas> {
    Point::from_affine(Affine::from_xy(Fe::one().neg(), Fe::from_u64(2)))
}

fn hash_domain() -> HashDomain {
    let mut point = generator().mul_glv(Fe::from_raw([17, 22, 33, 44]));
    let step = generator().mul_glv(Fe::from_raw([5, 16, 7, 8]));
    let points = (0..GENERATOR_COUNT)
        .map(|_| {
            let current = point;
            point = point.double().add(point).add(step);
            current
        })
        .collect();
    let q = generator().mul_glv(Fe::from_raw([91, 92, 93, 94]));
    HashDomain::from_Q(q, batch_normalize(&points))
}

fn domain() -> UncheckedFixedLengthHashDomain<52> {
    UncheckedFixedLengthHashDomain::new(&hash_domain())
}

fn node(value: Fp) -> MerkleHashOrchard {
    MerkleHashOrchard::from_base(value)
}

fn random(state: &mut u64) -> Fp {
    let mut next = || {
        *state ^= *state << 13;
        *state ^= *state >> 7;
        *state ^= *state << 17;
        *state
    };
    Fe::from_raw([next(), next(), next(), next()])
}

#[test]
fn combine_batch_matches_scalar_at_every_level_and_width() {
    let domain = domain();
    let mut state = 0x4242_4242_4242_4242;
    let mut workspace = MerkleHashBatchWorkspace::default();
    let mut workspace_output = Vec::new();
    let pairs: Vec<_> = (0..64)
        .map(|_| (node(random(&mut state)), node(random(&mut state))))
        .collect();
    for level in [0u8, 1, 6, 9, 31] {
        let expected: Vec<_> = pairs
            .iter()
            .map(|(left, right)| MerkleHashOrchard::combine(&domain, level, left, right))
            .collect();
        for width in BATCH_WIDTHS {
            let batch = pairs[..width].to_vec();
            let actual = MerkleHashOrchard::combine_batch(&domain, level, &batch);
            assert_eq!(actual, expected[..width], "level {level:?}, width {width}");
            MerkleHashOrchard::combine_batch_with_workspace(
                &domain,
                level,
                &batch,
                &mut workspace,
                &mut workspace_output,
            );
            assert_eq!(
                workspace_output,
                expected[..width],
                "workspace level {level:?}, width {width}"
            );
        }
    }
}

#[test]
fn cached_merkle_crh_domain_matches_fresh_domains() {
    let tree_depth = u8::try_from(MERKLE_DEPTH_ORCHARD).expect("Orchard tree depth fits in u8");
    let generic = hash_domain();
    let domain = domain();
    let left = MerkleHashOrchard::empty_leaf();
    let right = MerkleHashOrchard::empty_root(&domain, tree_depth);
    for level in 0..tree_depth {
        assert_eq!(
            MerkleHashOrchard::combine(&domain, level, &left, &right),
            node(merkle_crh_checked(&generic, level, &left, &right)),
        );
    }
    let point = merkle_crh_to_point(&generic, 3, &left, &right).expect("the hash is defined");
    assert_eq!(
        point.x_or_zero(),
        MerkleHashOrchard::combine(&domain, 3, &left, &right).inner()
    );
}

#[test]
fn weighted_words_edge_vectors() {
    let edges: [Fp; 7] = [
        Fe::zero(),
        Fe::one(),
        Fe::one().neg(),
        Fe::from_u64(u64::MAX),
        Fe::from_raw([u64::MAX; 4]),
        Fe::from_raw([0x5555_5555_5555_5555; 4]),
        Fe::from_raw([0xAAAA_AAAA_AAAA_AAAA; 4]),
    ];
    for level in [0, u8::try_from(MERKLE_DEPTH_ORCHARD - 1).unwrap()] {
        for left in edges.map(node) {
            for right in edges.map(node) {
                let expected = merkle_crh_message(level, &left, &right);
                let actual: Vec<_> = merkle_crh_words(level, &left, &right)
                    .into_iter()
                    .flat_map(|word| (0..K).map(move |bit| ((word >> bit) & 1) == 1))
                    .collect();
                assert_eq!(actual, expected);
            }
        }
    }
}

#[test]
fn messages_hold_level_and_nodes() {
    let message = merkle_crh_message(5, &node(Fe::from_u64(3)), &node(Fe::from_u64(6)));
    assert_eq!(message.len(), 520);
    let set: Vec<usize> = (0..520).filter(|i| message[*i]).collect();
    assert_eq!(set, vec![0, 2, 10, 11, 266, 267]);
    let words = merkle_crh_words(5, &node(Fe::from_u64(3)), &node(Fe::from_u64(6)));
    assert_eq!(words[0], 5);
    assert_eq!(words[1], 3);
    assert_eq!(words[26], 6 << 5);
}

#[test]
fn empty_roots_incremental() {
    let domain = domain();
    let roots = MerkleHashOrchard::empty_roots(&domain);
    assert_eq!(roots.len(), MERKLE_DEPTH_ORCHARD + 1);
    assert_eq!(roots[0].inner(), Fe::from_u64(2));
    for level in 0..MERKLE_DEPTH_ORCHARD {
        assert_eq!(
            MerkleHashOrchard::combine(&domain, level as u8, &roots[level], &roots[level]),
            roots[level + 1],
            "Empty root mismatch at level {}",
            level
        );
    }
    assert_eq!(Anchor::empty_tree(&domain), Anchor::from(roots[32]));
    assert_eq!(MerkleHashOrchard::empty_root(&domain, 7), roots[7]);
}

#[test]
fn paths_of_the_empty_tree_lead_to_its_root() {
    let domain = domain();
    let roots = MerkleHashOrchard::empty_roots(&domain);
    let siblings: [MerkleHashOrchard; 32] = std::array::from_fn(|level| roots[level]);
    for position in [0, 1, 77, u32::MAX] {
        let path = MerklePath::from_parts(position, siblings);
        let root = path.root(&domain, ExtractedNoteCommitment::new(Fe::from_u64(2)));
        assert_eq!(root, Anchor::empty_tree(&domain));
    }
}

#[test]
fn paths_fold_by_the_bits_of_the_position() {
    let domain = domain();
    let mut state = 99;
    let siblings: [Fp; 32] = std::array::from_fn(|_| random(&mut state));
    let leaf = random(&mut state);
    let position = 0b1011_0101;
    let path = MerklePath::new(position, siblings);
    assert_eq!(path.position(), position);
    assert_eq!(path.auth_path()[4].inner(), siblings[4]);
    let mut expected = node(leaf);
    for (level, sibling) in siblings.iter().enumerate() {
        expected = if (position >> level) & 1 == 0 {
            MerkleHashOrchard::combine(&domain, level as u8, &expected, &node(*sibling))
        } else {
            MerkleHashOrchard::combine(&domain, level as u8, &node(*sibling), &expected)
        };
    }
    let root = path.root(&domain, ExtractedNoteCommitment::new(leaf));
    assert_eq!(root, Anchor::from(expected));
    let moved = MerklePath::new(position ^ 1, siblings);
    assert_ne!(moved.root(&domain, ExtractedNoteCommitment::new(leaf)), root);
}

#[test]
fn anchors_and_nodes_have_canonical_encodings() {
    let value = Fe::from_raw([0x0123_4567_89ab_cdef, 2, 3, 4]);
    let bytes = Anchor::from(value).to_bytes();
    assert_eq!(bytes[..9], [0xef, 0xcd, 0xab, 0x89, 0x67, 0x45, 0x23, 0x01, 2]);
    assert_eq!(Anchor::from_bytes(bytes).unwrap().inner(), value);
    assert_eq!(MerkleHashOrchard::from_bytes(&bytes).unwrap().inner(), value);
    assert_eq!(node(value).to_bytes(), bytes);
    let cmx = ExtractedNoteCommitment::new(value);
    assert_eq!(MerkleHashOrchard::from_cmx(&cmx), node(value));

    // The modulus itself and everything above it are refused.
    let largest = node(Fe::one().neg()).to_bytes();
    assert!(MerkleHashOrchard::from_bytes(&largest).is_some());
    let mut modulus = largest;
    modulus[0] += 1;
    assert!(MerkleHashOrchard::from_bytes(&modulus).is_none());
    assert!(Anchor::from_bytes(modulus).is_none());
    assert!(Anchor::from_bytes([0xff; 32]).is_none());
    assert_eq!(Anchor::from_bytes([0; 32]).unwrap().inner(), Fe::zero());
}

#[test]
fn checked_and_weighted_trees_agree() {
    let (checked, weighted) = (hash_domain(), domain());
    let mut state = 0x1357_9bdf_0246_8ace;
    let pairs: Vec<_> = (0..9)
        .map(|_| (node(random(&mut state)), node(random(&mut state))))
        .collect();
    for level in [0u8, 5, 31] {
        let batch = MerkleHashOrchard::combine_batch_checked(&checked, level, &pairs);
        assert_eq!(batch.len(), pairs.len());
        assert_eq!(batch, MerkleHashOrchard::combine_batch(&weighted, level, &pairs));
        for ((left, right), parent) in pairs.iter().zip(batch.iter()) {
            assert_eq!(
                MerkleHashOrchard::combine_checked(&checked, level, left, right),
                *parent
            );
            assert_eq!(
                merkle_crh_checked(&checked, level, left, right),
                parent.inner()
            );
        }
    }
    assert!(MerkleHashOrchard::combine_batch_checked(&checked, 3, &Vec::new()).is_empty());
    let roots = MerkleHashOrchard::empty_roots_checked(&checked);
    assert_eq!(roots, MerkleHashOrchard::empty_roots(&weighted));
    assert_eq!(MerkleHashOrchard::empty_root_checked(&checked, 9), roots[9]);
    assert_eq!(Anchor::empty_tree_checked(&checked), Anchor::from(roots[32]));
    let siblings: [Fp; 32] = std::array::from_fn(|_| random(&mut state));
    let path = MerklePath::new(0b1100_0101, siblings);
    let leaf = ExtractedNoteCommitment::new(random(&mut state));
    assert_eq!(path.root_checked(&checked, leaf), path.root(&weighted, leaf));
    let empty = MerklePath::from_parts(77, std::array::from_fn(|level| roots[level]));
    assert_eq!(
        empty.root_checked(&checked, ExtractedNoteCommitment::new(Fe::from_u64(2))),
        Anchor::empty_tree_checked(&checked)
    );
}

#[test]
fn undefined_checked_hashes_are_zero() {
    // All generators are the start of the hash, so the first addition is of equal points.
    let point = generator();
    let points = (0..GENERATOR_COUNT).map(|_| point).collect();
    let exceptional = HashDomain::from_Q(point, batch_normalize(&points));
    let pair = (node(Fe::from_u64(3)), node(Fe::from_u64(4)));
    assert!(merkle_crh_to_point(&exceptional, 1, &pair.0, &pair.1).is_none());
    let zero: Fp = Fe::zero();
    assert_eq!(
        MerkleHashOrchard::combine_checked(&exceptional, 1, &pair.0, &pair.1).inner(),
        zero
    );
    let batch = MerkleHashOrchard::combine_batch_checked(&exceptional, 1, &vec![pair, pair]);
    assert!(batch.iter().all(|parent| parent.inner() == zero));
    assert_eq!(batch.len(), 2);
}

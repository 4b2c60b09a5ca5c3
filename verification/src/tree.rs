//! Note commitment trees: nodes, paths and anchors.
use crate::curve::batch::{batch_normalize, is_affine_of};
use crate::curve::law::Pt;
use crate::curve::point::Point;
use crate::curve::Pallas;
use crate::field::repr::{bit_of, bits_at, bytes_value, lemma_bytes_bound, lemma_bytes_unique, lemma_low_bits};
use crate::field::{Fe, Fp, Modulus, PallasBase};
use crate::sinsemilla::domain::{
    are_words, checked_hash, extracted, partial_word, words_of, HashDomain, GENERATOR_COUNT,
};
use crate::sinsemilla::weighted::{
    are_hashes, are_valid, is_lawful, lemma_weighted_is_checked, weighted_hash, word_ints,
    BatchHashWorkspace, UncheckedFixedLengthHashDomain,
};
use vstd::arithmetic::div_mod::{lemma_div_denominator, lemma_mod_breakdown, lemma_small_mod};
use vstd::arithmetic::power2::{lemma2_to64, lemma_pow2_adds, lemma_pow2_pos, pow2};
use vstd::prelude::*;

pub mod laws;

verus! {

/// The depth of the tree.
pub const MERKLE_DEPTH_ORCHARD: usize = 32;

/// The number of bits of a node in a hash input.
pub const L_ORCHARD_MERKLE: usize = 255;

/// The number of words of a hash input: one for the level, and two nodes.
pub const MERKLE_CRH_WORDS: usize = 52;

/// The word that holds bits of both nodes.
pub const MERKLE_CRH_CROSS_CHILD_WORD: usize = 26;

/// The bit of a hash input: ten bits of the level, then 255 bits of each node.
pub open spec fn message_bit(level: int, left: int, right: int, i: int) -> bool {
    if i < 10 {
        bit_of(level, i)
    } else if i < 265 {
        bit_of(left, i - 10)
    } else {
        bit_of(right, i - 265)
    }
}

/// The hash input of two nodes at a level.
pub open spec fn merkle_message(level: int, left: int, right: int) -> Seq<bool> {
    Seq::new(520, |i: int| message_bit(level, left, right, i))
}

/// The words of the hash input.
pub open spec fn merkle_words(level: int, left: int, right: int) -> Seq<int> {
    words_of(merkle_message(level, left, right))
}

/// The parent of two nodes at a level.
pub open spec fn parent(q: Pt, s: Seq<Pt>, level: int, left: int, right: int) -> int {
    extracted(weighted_hash(q, s, merkle_words(level, left, right)))
}

/// The root of an empty subtree of a height.
pub open spec fn empty_root_of(q: Pt, s: Seq<Pt>, height: nat) -> int
    decreases height,
{
    if height == 0 {
        2
    } else {
        let below = empty_root_of(q, s, (height - 1) as nat);
        parent(q, s, height - 1, below, below)
    }
}

/// The node that a path reaches from a leaf at a position after some levels.
pub open spec fn path_node(
    q: Pt,
    s: Seq<Pt>,
    position: int,
    siblings: Seq<int>,
    leaf: int,
    height: nat,
) -> int
    decreases height,
{
    if height == 0 {
        leaf
    } else {
        let level = (height - 1) as nat;
        let node = path_node(q, s, position, siblings, leaf, level);
        if bit_of(position, level as int) {
            parent(q, s, level as int, siblings[level as int], node)
        } else {
            parent(q, s, level as int, node, siblings[level as int])
        }
    }
}

/// In an empty tree every path leads to the empty root.
pub proof fn lemma_empty_path(q: Pt, s: Seq<Pt>, position: int, siblings: Seq<int>, height: nat)
    requires
        height <= siblings.len(),
        forall|l: int|
            0 <= l < height ==> #[trigger] siblings[l] == empty_root_of(q, s, l as nat),
    ensures
        path_node(q, s, position, siblings, 2, height) == empty_root_of(q, s, height),
    decreases height,
{
    if height > 0 {
        lemma_empty_path(q, s, position, siblings, (height - 1) as nat);
        assert(siblings[height - 1] == empty_root_of(q, s, (height - 1) as nat));
    }
}

/// Where the hash with incomplete additions is defined, the parent is the hash.
pub proof fn lemma_parent_is_checked(q: Pt, s: Seq<Pt>, level: int, left: int, right: int)
    requires
        is_lawful(q, s),
    ensures
        checked_hash(q, s, merkle_words(level, left, right)) matches Some(p) ==> extracted(p)
            == parent(q, s, level, left, right),
{
    let words = merkle_words(level, left, right);
    assert(are_words(words)) by {
        assert forall|i: int| 0 <= i < words.len() implies 0 <= #[trigger] words[i]
            < GENERATOR_COUNT by {
            lemma_word_bound(merkle_message(level, left, right), 10 * i, 10);
            lemma2_to64();
        }
    }
    lemma_weighted_is_checked(q, s, words);
}

/// The parent of two nodes at a level by the hash with incomplete additions, and zero where it is
/// not defined.
pub open spec fn checked_parent(q: Pt, s: Seq<Pt>, level: int, left: int, right: int) -> int {
    match checked_hash(q, s, merkle_words(level, left, right)) {
        Some(p) => extracted(p),
        None => 0,
    }
}

/// The root of an empty subtree of a height by the hash with incomplete additions.
pub open spec fn checked_empty_root_of(q: Pt, s: Seq<Pt>, height: nat) -> int
    decreases height,
{
    if height == 0 {
        2
    } else {
        let below = checked_empty_root_of(q, s, (height - 1) as nat);
        checked_parent(q, s, height - 1, below, below)
    }
}

/// The node that a path reaches from a leaf at a position after some levels by the hash with
/// incomplete additions.
pub open spec fn checked_path_node(
    q: Pt,
    s: Seq<Pt>,
    position: int,
    siblings: Seq<int>,
    leaf: int,
    height: nat,
) -> int
    decreases height,
{
    if height == 0 {
        leaf
    } else {
        let level = (height - 1) as nat;
        let node = checked_path_node(q, s, position, siblings, leaf, level);
        if bit_of(position, level as int) {
            checked_parent(q, s, level as int, siblings[level as int], node)
        } else {
            checked_parent(q, s, level as int, node, siblings[level as int])
        }
    }
}

/// In an empty tree every path leads to the empty root by the hash with incomplete additions too.
pub proof fn lemma_checked_empty_path(
    q: Pt,
    s: Seq<Pt>,
    position: int,
    siblings: Seq<int>,
    height: nat,
)
    requires
        height <= siblings.len(),
        forall|l: int|
            0 <= l < height ==> #[trigger] siblings[l] == checked_empty_root_of(q, s, l as nat),
    ensures
        checked_path_node(q, s, position, siblings, 2, height) == checked_empty_root_of(
            q,
            s,
            height,
        ),
    decreases height,
{
    if height > 0 {
        lemma_checked_empty_path(q, s, position, siblings, (height - 1) as nat);
        assert(siblings[height - 1] == checked_empty_root_of(q, s, (height - 1) as nat));
    }
}

/// The two ways of hashing lead a path to one node where no hash on the path is exceptional.
pub proof fn lemma_path_is_checked(
    q: Pt,
    s: Seq<Pt>,
    position: int,
    siblings: Seq<int>,
    leaf: int,
    height: nat,
)
    requires
        is_lawful(q, s),
        forall|l: int|
            0 <= l < height ==> {
                let node = checked_path_node(q, s, position, siblings, leaf, l as nat);
                checked_hash(
                    q,
                    s,
                    if #[trigger] bit_of(position, l) {
                        merkle_words(l, siblings[l], node)
                    } else {
                        merkle_words(l, node, siblings[l])
                    },
                ) is Some
            },
    ensures
        checked_path_node(q, s, position, siblings, leaf, height) == path_node(
            q,
            s,
            position,
            siblings,
            leaf,
            height,
        ),
    decreases height,
{
    if height > 0 {
        let l = (height - 1) as nat;
        lemma_path_is_checked(q, s, position, siblings, leaf, l);
        let node = path_node(q, s, position, siblings, leaf, l);
        assert(bit_of(position, l as int) || !bit_of(position, l as int));
        lemma_parent_is_checked(q, s, l as int, siblings[l as int], node);
        lemma_parent_is_checked(q, s, l as int, node, siblings[l as int]);
    }
}

/// What an encoding gives back: the bytes of a value below the modulus are accepted and stand for
/// this value, so encoding and decoding undo each other.
pub proof fn lemma_encoding_round_trip(node: MerkleHashOrchard, bytes: Seq<u8>, other: Seq<u8>)
    requires
        bytes.len() == 32,
        other.len() == 32,
        bytes_value(bytes) == node@,
    ensures
        bytes_value(bytes) < PallasBase::p(),
        bytes_value(other) == node@ ==> other == bytes,
{
    node.0.lemma_view();
    if bytes_value(other) == node@ {
        lemma_bytes_unique(bytes, other);
    }
}

/// A word is below the power of two of its number of bits.
proof fn lemma_word_bound(bits: Seq<bool>, start: int, count: nat)
    ensures
        0 <= partial_word(bits, start, count) < pow2(count),
    decreases count,
{
    lemma2_to64();
    if count > 0 {
        lemma_word_bound(bits, start, (count - 1) as nat);
        lemma_pow2_adds(1, (count - 1) as nat);
        let p = pow2((count - 1) as nat) as int;
        assert(0 * p == 0 && 1 * p == p);
    }
}

/// A word whose bits are those of a number is the low part of the number.
proof fn lemma_word_of(bits: Seq<bool>, start: int, count: nat, u: int)
    requires
        0 <= u,
        0 <= start,
        start + count <= bits.len(),
        forall|t: int| 0 <= t < count ==> #[trigger] bit_of(u, t) == bits[start + t],
    ensures
        partial_word(bits, start, count) == u % pow2(count) as int,
    decreases count,
{
    lemma2_to64();
    if count > 0 {
        let t = (count - 1) as nat;
        lemma_word_of(bits, start, t, u);
        lemma_pow2_adds(t, 1);
        lemma_pow2_pos(t);
        let p = pow2(t) as int;
        lemma_mod_breakdown(u, p, 2);
        assert(bit_of(u, t as int) == bits[start + t]);
        assert(p * 0 == 0 && 0 * p == 0 && p * 1 == p && 1 * p == p);
    } else {
        assert(u % 1 == 0);
    }
}

/// The bits of a shifted number.
proof fn lemma_bit_shift(v: int, a: nat, t: nat)
    requires
        0 <= v,
    ensures
        bit_of(v, (a + t) as int) == bit_of(v / pow2(a) as int, t as int),
{
    lemma_pow2_pos(a);
    lemma_pow2_pos(t);
    lemma_pow2_adds(a, t);
    lemma_div_denominator(v, pow2(a) as int, pow2(t) as int);
}

/// The word of a stretch of a node.
proof fn lemma_stretch(bits: Seq<bool>, start: int, v: int, offset: nat)
    requires
        0 <= v,
        0 <= start,
        start + 10 <= bits.len(),
        forall|t: int| 0 <= t < 10 ==> #[trigger] bits[start + t] == bit_of(v, offset + t),
    ensures
        partial_word(bits, start, 10) == (v / pow2(offset) as int) % 1024,
{
    let u = v / pow2(offset) as int;
    lemma_pow2_pos(offset);
    vstd::arithmetic::div_mod::lemma_div_pos_is_pos(v, pow2(offset) as int);
    assert forall|t: int| 0 <= t < 10 implies #[trigger] bit_of(u, t) == bits[start + t] by {
        lemma_bit_shift(v, offset, t as nat);
        assert(bits[start + t] == bit_of(v, offset + t));
    }
    lemma_word_of(bits, start, 10, u);
    lemma2_to64();
}

/// The bits of the word that holds five bits of each node.
proof fn lemma_cross_bits(a: int, b: int, t: int)
    requires
        0 <= a,
        0 <= b,
        0 <= t < 10,
    ensures
        bit_of(a % 32 + 32 * (b % 32), t) == if t < 5 {
            bit_of(a, t)
        } else {
            bit_of(b, t - 5)
        },
{
    lemma2_to64();
    let (x, y) = (a % 32, b % 32);
    let u = x + 32 * y;
    if t < 5 {
        lemma_low_bits(x, y, 5, t as nat, 1);
        lemma_low_bits(x, a / 32, 5, t as nat, 1);
        assert(a == x + 32 * (a / 32));
    } else {
        lemma_bit_shift(u, 5, (t - 5) as nat);
        assert(u / 32 == y);
        lemma_low_bits(y, b / 32, 5, (t - 5) as nat, 1);
        assert(b == y + 32 * (b / 32));
    }
}

/// The words of a hash input by their positions.
proof fn lemma_merkle_words(level: int, left: int, right: int, i: int)
    requires
        0 <= level < 1024,
        0 <= left,
        0 <= right,
        0 <= i < 52,
    ensures
        merkle_words(level, left, right).len() == 52,
        merkle_words(level, left, right)[i] == if i == 0 {
            level
        } else if i < 26 {
            (left / pow2((10 * (i - 1)) as nat) as int) % 1024
        } else if i == 26 {
            (left / pow2(250) as int) % 32 + 32 * (right % 32)
        } else {
            (right / pow2((5 + 10 * (i - 27)) as nat) as int) % 1024
        },
{
    let bits = merkle_message(level, left, right);
    lemma2_to64();
    if i == 0 {
        assert forall|t: int| 0 <= t < 10 implies #[trigger] bit_of(level, t) == bits[0 + t] by {}
        lemma_word_of(bits, 0, 10, level);
        lemma_small_mod(level as nat, 1024);
    } else if i < 26 {
        lemma_stretch(bits, 10 * i, left, (10 * (i - 1)) as nat);
    } else if i == 26 {
        let a = left / pow2(250) as int;
        let u = a % 32 + 32 * (right % 32);
        lemma_pow2_pos(250);
        vstd::arithmetic::div_mod::lemma_div_pos_is_pos(left, pow2(250) as int);
        assert forall|t: int| 0 <= t < 10 implies #[trigger] bit_of(u, t) == bits[260 + t] by {
            lemma_cross_bits(a, right, t);
            if t < 5 {
                lemma_bit_shift(left, 250, t as nat);
            }
        }
        lemma_word_of(bits, 260, 10, u);
        lemma_small_mod(u as nat, 1024);
    } else {
        lemma_stretch(bits, 10 * i, right, (5 + 10 * (i - 27)) as nat);
    }
}

/// The words of the hash input of two nodes at a level.
pub fn merkle_crh_words(level: u8, left: &MerkleHashOrchard, right: &MerkleHashOrchard) -> (r: [u16;
    52])
    ensures
        word_ints(r@) == merkle_words(level as int, left@, right@),
        are_valid(r@),
{
    let left_bytes = left.0.to_repr();
    let right_bytes = right.0.to_repr();
    let ghost expected = merkle_words(level as int, left@, right@);
    let mut words: [u16; 52] = [0; 52];
    proof {
        lemma_bytes_bound(left_bytes@);
        lemma_bytes_bound(right_bytes@);
        lemma_merkle_words(level as int, left@, right@, 0);
    }
    words[0] = level as u16;
    let mut i: usize = 1;
    while i < MERKLE_CRH_CROSS_CHILD_WORD
        invariant
            1 <= i <= 26,
            bytes_value(left_bytes@) == left@,
            0 <= left@,
            0 <= right@,
            expected == merkle_words(level as int, left@, right@),
            forall|k: int|
                0 <= k < i ==> (#[trigger] words@[k]) as int == expected[k] && words@[k]
                    < GENERATOR_COUNT,
        decreases 26 - i,
    {
        proof {
            lemma_merkle_words(level as int, left@, right@, i as int);
            lemma2_to64();
        }
        words[i] = bits_at(&left_bytes, 10 * (i - 1), 10);
        i += 1;
    }
    let tail = bits_at(&left_bytes, 250, 5);
    let head = bits_at(&right_bytes, 0, 5);
    proof {
        lemma_merkle_words(level as int, left@, right@, 26);
        lemma2_to64();
        assert(right@ / 1 == right@);
    }
    words[26] = tail + 32 * head;
    i = 27;
    while i < MERKLE_CRH_WORDS
        invariant
            27 <= i <= 52,
            bytes_value(right_bytes@) == right@,
            0 <= left@,
            0 <= right@,
            expected == merkle_words(level as int, left@, right@),
            forall|k: int|
                0 <= k < i ==> (#[trigger] words@[k]) as int == expected[k] && words@[k]
                    < GENERATOR_COUNT,
        decreases 52 - i,
    {
        proof {
            lemma_merkle_words(level as int, left@, right@, i as int);
            lemma2_to64();
        }
        words[i] = bits_at(&right_bytes, 5 + 10 * (i - 27), 10);
        i += 1;
    }
    proof {
        lemma_merkle_words(level as int, left@, right@, 0);
        assert(word_ints(words@) =~= expected);
    }
    words
}

/// The hash input of two nodes at a level.
pub fn merkle_crh_message(level: u8, left: &MerkleHashOrchard, right: &MerkleHashOrchard) -> (r: Vec<
    bool,
>)
    ensures
        r@ == merkle_message(level as int, left@, right@),
{
    let left_bits = left.0.to_le_bits();
    let right_bits = right.0.to_le_bits();
    let mut r: Vec<bool> = Vec::new();
    let mut rest = level;
    let mut i: usize = 0;
    proof {
        lemma2_to64();
    }
    while i < 10
        invariant
            i <= 10,
            rest == level as int / pow2(i as nat) as int,
            r@.len() == i,
            forall|k: int| 0 <= k < i ==> #[trigger] r@[k] == bit_of(level as int, k),
        decreases 10 - i,
    {
        r.push(rest % 2 == 1);
        proof {
            lemma_pow2_adds(i as nat, 1);
            lemma_pow2_pos(i as nat);
            lemma2_to64();
            lemma_div_denominator(level as int, pow2(i as nat) as int, 2);
        }
        rest = rest / 2;
        i += 1;
    }
    i = 0;
    while i < L_ORCHARD_MERKLE
        invariant
            i <= 255,
            left_bits@.len() == 256,
            forall|k: int| 0 <= k < 256 ==> #[trigger] left_bits@[k] == bit_of(left@, k),
            r@.len() == 10 + i,
            forall|k: int|
                0 <= k < 10 + i ==> #[trigger] r@[k] == message_bit(
                    level as int,
                    left@,
                    right@,
                    k,
                ),
        decreases 255 - i,
    {
        r.push(left_bits[i]);
        i += 1;
    }
    i = 0;
    while i < L_ORCHARD_MERKLE
        invariant
            i <= 255,
            right_bits@.len() == 256,
            forall|k: int| 0 <= k < 256 ==> #[trigger] right_bits@[k] == bit_of(right@, k),
            r@.len() == 265 + i,
            forall|k: int|
                0 <= k < 265 + i ==> #[trigger] r@[k] == message_bit(
                    level as int,
                    left@,
                    right@,
                    k,
                ),
        decreases 255 - i,
    {
        r.push(right_bits[i]);
        i += 1;
    }
    assert(r@ =~= merkle_message(level as int, left@, right@));
    r
}

/// The parent of two nodes, by the position-weighted hash.
pub fn merkle_crh(
    domain: &UncheckedFixedLengthHashDomain<52>,
    level: u8,
    left: &MerkleHashOrchard,
    right: &MerkleHashOrchard,
) -> (r: Fp)
    ensures
        is_lawful(domain.initial(), domain.bases()) ==> r@ == parent(
            domain.initial(),
            domain.bases(),
            level as int,
            left@,
            right@,
        ),
{
    domain.hash_words(&merkle_crh_words(level, left, right))
}

/// The parent of two nodes as a point, by the hash with incomplete additions.
pub fn merkle_crh_to_point(
    domain: &HashDomain,
    level: u8,
    left: &MerkleHashOrchard,
    right: &MerkleHashOrchard,
) -> (r: Option<Point<Pallas>>)
    ensures
        r is None <==> checked_hash(
            domain.initial(),
            domain.bases(),
            merkle_words(level as int, left@, right@),
        ) is None,
        r matches Some(p) ==> checked_hash(
            domain.initial(),
            domain.bases(),
            merkle_words(level as int, left@, right@),
        ) == Some(p@),
{
    domain.hash_to_point(&merkle_crh_message(level, left, right))
}

/// The parent of two nodes by the hash with incomplete additions, and zero where it is not
/// defined.
pub fn merkle_crh_checked(
    domain: &HashDomain,
    level: u8,
    left: &MerkleHashOrchard,
    right: &MerkleHashOrchard,
) -> (r: Fp)
    ensures
        r@ == checked_parent(
            domain.initial(),
            domain.bases(),
            level as int,
            left@,
            right@,
        ),
{
    match domain.hash(&merkle_crh_message(level, left, right)) {
        Some(hash) => hash,
        None => Fe::zero(),
    }
}

/// The extracted commitment of a note.
#[derive(Clone, Copy, Debug)]
pub struct ExtractedNoteCommitment(Fp);

impl ExtractedNoteCommitment {
    /// The first coordinate of the commitment.
    pub closed spec fn value(self) -> int {
        self.0@
    }

    /// The commitment with a first coordinate.
    pub fn new(value: Fp) -> (r: Self)
        ensures
            r.value() == value@,
    {
        ExtractedNoteCommitment(value)
    }

    /// The first coordinate of the commitment.
    pub fn inner(&self) -> (r: Fp)
        ensures
            r@ == self.value(),
    {
        self.0
    }
}

/// A leaf or an inner node of the note commitment tree.
#[derive(Clone, Copy, Debug)]
pub struct MerkleHashOrchard(Fp);

impl View for MerkleHashOrchard {
    type V = int;

    closed spec fn view(&self) -> int {
        self.0@
    }
}

impl PartialEq for MerkleHashOrchard {
    fn eq(&self, other: &Self) -> (r: bool) {
        self.0.same(other.0)
    }
}

impl vstd::std_specs::cmp::PartialEqSpecImpl for MerkleHashOrchard {
    open spec fn obeys_eq_spec() -> bool {
        true
    }

    open spec fn eq_spec(&self, other: &Self) -> bool {
        self@ == other@
    }
}

impl Eq for MerkleHashOrchard {

}

/// The storage of batched parents.
#[derive(Debug)]
pub struct MerkleHashBatchWorkspace {
    messages: Vec<[u16; 52]>,
    hash: BatchHashWorkspace,
}

impl Default for MerkleHashBatchWorkspace {
    fn default() -> (r: Self)
        ensures
            r.hashes_view() == Seq::<Fp>::empty(),
    {
        MerkleHashBatchWorkspace { messages: Vec::new(), hash: BatchHashWorkspace::default() }
    }
}

impl MerkleHashBatchWorkspace {
    /// The hashes of the last batch.
    pub closed spec fn hashes_view(self) -> Seq<Fp> {
        self.hash.hashes_view()
    }
}

/// The parents of pairs at a level.
pub open spec fn are_parents(
    q: Pt,
    s: Seq<Pt>,
    level: int,
    pairs: Seq<(MerkleHashOrchard, MerkleHashOrchard)>,
    parents: Seq<MerkleHashOrchard>,
) -> bool {
    &&& parents.len() == pairs.len()
    &&& is_lawful(q, s) ==> forall|i: int|
        0 <= i < pairs.len() ==> (#[trigger] parents[i])@ == parent(
            q,
            s,
            level,
            pairs[i].0@,
            pairs[i].1@,
        )
}

impl MerkleHashOrchard {
    /// A node with a value.
    pub fn from_base(value: Fp) -> (r: Self)
        ensures
            r@ == value@,
    {
        MerkleHashOrchard(value)
    }

    /// The leaf of a note commitment.
    pub fn from_cmx(value: &ExtractedNoteCommitment) -> (r: Self)
        ensures
            r@ == value.value(),
    {
        MerkleHashOrchard(value.inner())
    }

    /// The value of the node.
    pub fn inner(&self) -> (r: Fp)
        ensures
            r@ == self@,
    {
        self.0
    }

    /// The canonical encoding of the node.
    pub fn to_bytes(&self) -> (r: [u8; 32])
        ensures
            bytes_value(r@) == self@,
    {
        self.0.to_repr()
    }

    /// The node of a canonical encoding; a value that is not below the modulus is refused.
    pub fn from_bytes(bytes: &[u8; 32]) -> (r: Option<Self>)
        ensures
            r is Some <==> bytes_value(bytes@) < PallasBase::p(),
            r matches Some(v) ==> v@ == bytes_value(bytes@),
    {
        match Fe::from_repr(*bytes) {
            Some(value) => Some(MerkleHashOrchard(value)),
            None => None,
        }
    }

    /// The leaf at an unused position.
    pub fn empty_leaf() -> (r: Self)
        ensures
            r@ == 2,
    {
        MerkleHashOrchard(Fe::from_u64(2))
    }

    /// The parent of two nodes at a level.
    pub fn combine(
        domain: &UncheckedFixedLengthHashDomain<52>,
        level: u8,
        left: &Self,
        right: &Self,
    ) -> (r: Self)
        ensures
            is_lawful(domain.initial(), domain.bases()) ==> r@ == parent(
                domain.initial(),
                domain.bases(),
                level as int,
                left@,
                right@,
            ),
    {
        MerkleHashOrchard(merkle_crh(domain, level, left, right))
    }

    /// The roots of the empty subtrees of all heights.
    pub fn empty_roots(domain: &UncheckedFixedLengthHashDomain<52>) -> (r: Vec<Self>)
        ensures
            r@.len() == MERKLE_DEPTH_ORCHARD + 1,
            is_lawful(domain.initial(), domain.bases()) ==> forall|h: int|
                0 <= h <= MERKLE_DEPTH_ORCHARD ==> (#[trigger] r@[h])@ == empty_root_of(
                    domain.initial(),
                    domain.bases(),
                    h as nat,
                ),
    {
        let ghost (q, s) = (domain.initial(), domain.bases());
        let mut r: Vec<Self> = Vec::new();
        let mut state = Self::empty_leaf();
        r.push(state);
        let mut level: u8 = 0;
        while level < 32
            invariant
                level <= 32,
                q == domain.initial(),
                s == domain.bases(),
                r@.len() == level + 1,
                is_lawful(q, s) ==> state@ == empty_root_of(q, s, level as nat),
                is_lawful(q, s) ==> forall|h: int|
                    0 <= h <= level ==> (#[trigger] r@[h])@ == empty_root_of(q, s, h as nat),
            decreases 32 - level,
        {
            state = Self::combine(domain, level, &state, &state);
            r.push(state);
            level += 1;
        }
        r
    }

    /// The root of an empty subtree of a height.
    pub fn empty_root(domain: &UncheckedFixedLengthHashDomain<52>, level: u8) -> (r: Self)
        requires
            level <= MERKLE_DEPTH_ORCHARD,
        ensures
            is_lawful(domain.initial(), domain.bases()) ==> r@ == empty_root_of(
                domain.initial(),
                domain.bases(),
                level as nat,
            ),
    {
        let roots = Self::empty_roots(domain);
        roots[level as usize]
    }

    /// The parent of two nodes at a level by the hash with incomplete additions.
    pub fn combine_checked(domain: &HashDomain, level: u8, left: &Self, right: &Self) -> (r: Self)
        ensures
            r@ == checked_parent(
                domain.initial(),
                domain.bases(),
                level as int,
                left@,
                right@,
            ),
    {
        MerkleHashOrchard(merkle_crh_checked(domain, level, left, right))
    }

    /// The roots of the empty subtrees of all heights by the hash with incomplete additions.
    pub fn empty_roots_checked(domain: &HashDomain) -> (r: Vec<Self>)
        ensures
            r@.len() == MERKLE_DEPTH_ORCHARD + 1,
            forall|h: int|
                0 <= h <= MERKLE_DEPTH_ORCHARD ==> (#[trigger] r@[h])@ == checked_empty_root_of(
                    domain.initial(),
                    domain.bases(),
                    h as nat,
                ),
    {
        let ghost (q, s) = (domain.initial(), domain.bases());
        let mut r: Vec<Self> = Vec::new();
        let mut state = Self::empty_leaf();
        r.push(state);
        let mut level: u8 = 0;
        while level < 32
            invariant
                level <= 32,
                q == domain.initial(),
                s == domain.bases(),
                r@.len() == level + 1,
                state@ == checked_empty_root_of(q, s, level as nat),
                forall|h: int|
                    0 <= h <= level ==> (#[trigger] r@[h])@ == checked_empty_root_of(
                        q,
                        s,
                        h as nat,
                    ),
            decreases 32 - level,
        {
            state = Self::combine_checked(domain, level, &state, &state);
            r.push(state);
            level += 1;
        }
        r
    }

    /// The root of an empty subtree of a height by the hash with incomplete additions.
    pub fn empty_root_checked(domain: &HashDomain, level: u8) -> (r: Self)
        requires
            level <= MERKLE_DEPTH_ORCHARD,
        ensures
            r@ == checked_empty_root_of(domain.initial(), domain.bases(), level as nat),
    {
        let roots = Self::empty_roots_checked(domain);
        roots[level as usize]
    }

    /// The parents of pairs of one level by the hash with incomplete additions, with one
    /// inversion for all of them.
    pub fn combine_batch_checked(
        domain: &HashDomain,
        level: u8,
        pairs: &Vec<(Self, Self)>,
    ) -> (r: Vec<Self>)
        ensures
            r@.len() == pairs@.len(),
            forall|i: int|
                0 <= i < pairs@.len() ==> (#[trigger] r@[i])@ == checked_parent(
                    domain.initial(),
                    domain.bases(),
                    level as int,
                    pairs@[i].0@,
                    pairs@[i].1@,
                ),
    {
        let ghost (q, s) = (domain.initial(), domain.bases());
        let mut points: Vec<Point<Pallas>> = Vec::new();
        let mut i: usize = 0;
        while i < pairs.len()
            invariant
                i <= pairs@.len(),
                q == domain.initial(),
                s == domain.bases(),
                points@.len() == i,
                forall|k: int|
                    0 <= k < i ==> extracted((#[trigger] points@[k])@) == checked_parent(
                        q,
                        s,
                        level as int,
                        pairs@[k].0@,
                        pairs@[k].1@,
                    ),
            decreases pairs@.len() - i,
        {
            match merkle_crh_to_point(domain, level, &pairs[i].0, &pairs[i].1) {
                Some(point) => points.push(point),
                None => points.push(Point::identity()),
            }
            i += 1;
        }
        let affine = batch_normalize(&points);
        let mut r: Vec<Self> = Vec::new();
        i = 0;
        while i < affine.len()
            invariant
                i <= affine@.len(),
                affine@.len() == pairs@.len(),
                points@.len() == pairs@.len(),
                forall|k: int|
                    0 <= k < points@.len() ==> is_affine_of(#[trigger] affine@[k], points@[k]@),
                forall|k: int|
                    0 <= k < points@.len() ==> extracted((#[trigger] points@[k])@)
                        == checked_parent(q, s, level as int, pairs@[k].0@, pairs@[k].1@),
                r@.len() == i,
                forall|k: int|
                    0 <= k < i ==> (#[trigger] r@[k])@ == checked_parent(
                        q,
                        s,
                        level as int,
                        pairs@[k].0@,
                        pairs@[k].1@,
                    ),
            decreases affine@.len() - i,
        {
            assert(is_affine_of(affine@[i as int], points@[i as int]@));
            assert(affine@[i as int].x@ == extracted(points@[i as int]@));
            r.push(MerkleHashOrchard(affine[i].x));
            i += 1;
        }
        r
    }

    /// The parents of pairs of one level.
    pub fn combine_batch(
        domain: &UncheckedFixedLengthHashDomain<52>,
        level: u8,
        pairs: &Vec<(Self, Self)>,
    ) -> (r: Vec<Self>)
        ensures
            are_parents(domain.initial(), domain.bases(), level as int, pairs@, r@),
    {
        let mut workspace = MerkleHashBatchWorkspace::default();
        let mut output: Vec<Self> = Vec::new();
        Self::combine_batch_with_workspace(domain, level, pairs, &mut workspace, &mut output);
        output
    }

    /// The parents of pairs of one level, with reused storage.
    pub fn combine_batch_with_workspace(
        domain: &UncheckedFixedLengthHashDomain<52>,
        level: u8,
        pairs: &Vec<(Self, Self)>,
        workspace: &mut MerkleHashBatchWorkspace,
        output: &mut Vec<Self>,
    )
        ensures
            are_parents(domain.initial(), domain.bases(), level as int, pairs@, final(output)@),
    {
        let ghost (q, s) = (domain.initial(), domain.bases());
        workspace.messages.clear();
        let mut i: usize = 0;
        while i < pairs.len()
            invariant
                i <= pairs@.len(),
                workspace.messages@.len() == i,
                forall|k: int|
                    0 <= k < i ==> are_valid((#[trigger] workspace.messages@[k])@) && word_ints(
                        workspace.messages@[k]@,
                    ) == merkle_words(level as int, pairs@[k].0@, pairs@[k].1@),
            decreases pairs@.len() - i,
        {
            workspace.messages.push(merkle_crh_words(level, &pairs[i].0, &pairs[i].1));
            i += 1;
        }
        let ghost messages = workspace.messages@;
        domain.hash_words_batch_with_workspace(
            workspace.messages.as_slice(),
            &mut workspace.hash,
        );
        output.clear();
        let hashes = workspace.hash.hashes();
        i = 0;
        while i < hashes.len()
            invariant
                i <= hashes@.len(),
                hashes@.len() == pairs@.len(),
                messages.len() == pairs@.len(),
                are_hashes(q, s, messages, hashes@),
                forall|k: int|
                    0 <= k < messages.len() ==> word_ints((#[trigger] messages[k])@)
                        == merkle_words(level as int, pairs@[k].0@, pairs@[k].1@),
                output@.len() == i,
                is_lawful(q, s) ==> forall|k: int|
                    0 <= k < i ==> (#[trigger] output@[k])@ == parent(
                        q,
                        s,
                        level as int,
                        pairs@[k].0@,
                        pairs@[k].1@,
                    ),
            decreases hashes@.len() - i,
        {
            output.push(MerkleHashOrchard(hashes[i]));
            proof {
                assert(word_ints(messages[i as int]@) == merkle_words(
                    level as int,
                    pairs@[i as int].0@,
                    pairs@[i as int].1@,
                ));
                assert(is_lawful(q, s) ==> hashes@[i as int]@ == extracted(
                    weighted_hash(q, s, word_ints(messages[i as int]@)),
                ));
            }
            i += 1;
        }
    }
}

/// The root of a note commitment tree.
#[derive(Clone, Copy, Debug)]
pub struct Anchor(Fp);

impl View for Anchor {
    type V = int;

    closed spec fn view(&self) -> int {
        self.0@
    }
}

impl PartialEq for Anchor {
    fn eq(&self, other: &Self) -> (r: bool) {
        self.0.same(other.0)
    }
}

impl vstd::std_specs::cmp::PartialEqSpecImpl for Anchor {
    open spec fn obeys_eq_spec() -> bool {
        true
    }

    open spec fn eq_spec(&self, other: &Self) -> bool {
        self@ == other@
    }
}

impl Eq for Anchor {

}

impl From<Fp> for Anchor {
    fn from(anchor_field: Fp) -> (r: Anchor) {
        Anchor(anchor_field)
    }
}

impl vstd::std_specs::convert::FromSpecImpl<Fp> for Anchor {
    open spec fn obeys_from_spec() -> bool {
        true
    }

    closed spec fn from_spec(anchor_field: Fp) -> Anchor {
        Anchor(anchor_field)
    }
}

impl From<MerkleHashOrchard> for Anchor {
    fn from(anchor: MerkleHashOrchard) -> (r: Anchor) {
        Anchor(anchor.0)
    }
}

impl vstd::std_specs::convert::FromSpecImpl<MerkleHashOrchard> for Anchor {
    open spec fn obeys_from_spec() -> bool {
        true
    }

    closed spec fn from_spec(anchor: MerkleHashOrchard) -> Anchor {
        Anchor(anchor.0)
    }
}

/// An anchor made of a field element or of a node has its value.
pub proof fn lemma_anchor_from(value: Fp, node: MerkleHashOrchard)
    ensures
        <Anchor as vstd::std_specs::convert::FromSpec<Fp>>::from_spec(value)@ == value@,
        <Anchor as vstd::std_specs::convert::FromSpec<MerkleHashOrchard>>::from_spec(node)@
            == node@,
{
}

impl Anchor {
    /// The anchor of the empty tree.
    pub fn empty_tree(domain: &UncheckedFixedLengthHashDomain<52>) -> (r: Anchor)
        ensures
            is_lawful(domain.initial(), domain.bases()) ==> r@ == empty_root_of(
                domain.initial(),
                domain.bases(),
                MERKLE_DEPTH_ORCHARD as nat,
            ),
    {
        Anchor(MerkleHashOrchard::empty_root(domain, 32).0)
    }

    /// The anchor of the empty tree by the hash with incomplete additions.
    pub fn empty_tree_checked(domain: &HashDomain) -> (r: Anchor)
        ensures
            r@ == checked_empty_root_of(
                domain.initial(),
                domain.bases(),
                MERKLE_DEPTH_ORCHARD as nat,
            ),
    {
        Anchor(MerkleHashOrchard::empty_root_checked(domain, 32).0)
    }

    /// The value of the anchor.
    pub fn inner(&self) -> (r: Fp)
        ensures
            r@ == self@,
    {
        self.0
    }

    /// The anchor of a canonical encoding; a value that is not below the modulus is refused.
    pub fn from_bytes(bytes: [u8; 32]) -> (r: Option<Anchor>)
        ensures
            r is Some <==> bytes_value(bytes@) < PallasBase::p(),
            r matches Some(v) ==> v@ == bytes_value(bytes@),
    {
        match Fe::from_repr(bytes) {
            Some(value) => Some(Anchor(value)),
            None => None,
        }
    }

    /// The canonical encoding of the anchor.
    pub fn to_bytes(self) -> (r: [u8; 32])
        ensures
            bytes_value(r@) == self@,
    {
        self.0.to_repr()
    }
}

/// The path from a leaf to the anchor.
#[derive(Clone, Debug)]
pub struct MerklePath {
    position: u32,
    auth_path: [MerkleHashOrchard; 32],
}

/// The values of nodes.
pub open spec fn node_values(nodes: Seq<MerkleHashOrchard>) -> Seq<int> {
    Seq::new(nodes.len(), |i: int| nodes[i]@)
}

impl MerklePath {
    /// The position of the leaf.
    pub closed spec fn leaf_position(self) -> u32 {
        self.position
    }

    /// The siblings on the path, from the leaf up.
    pub closed spec fn siblings(self) -> Seq<MerkleHashOrchard> {
        self.auth_path@
    }

    /// The path with a position and field elements as siblings.
    pub fn new(position: u32, auth_path: [Fp; 32]) -> (r: Self)
        ensures
            r.leaf_position() == position,
            r.siblings().len() == 32,
            forall|i: int| 0 <= i < 32 ==> (#[trigger] r.siblings()[i])@ == auth_path@[i]@,
    {
        let mut nodes: [MerkleHashOrchard; 32] = [MerkleHashOrchard(auth_path[0]); 32];
        let mut i: usize = 0;
        while i < 32
            invariant
                i <= 32,
                forall|k: int| 0 <= k < i ==> (#[trigger] nodes@[k])@ == auth_path@[k]@,
            decreases 32 - i,
        {
            nodes[i] = MerkleHashOrchard(auth_path[i]);
            i += 1;
        }
        Self::from_parts(position, nodes)
    }

    /// The path with a position and siblings.
    pub fn from_parts(position: u32, auth_path: [MerkleHashOrchard; 32]) -> (r: Self)
        ensures
            r.leaf_position() == position,
            r.siblings() == auth_path@,
    {
        MerklePath { position, auth_path }
    }

    /// The anchor that the path leads to from a commitment.
    pub fn root(
        &self,
        domain: &UncheckedFixedLengthHashDomain<52>,
        cmx: ExtractedNoteCommitment,
    ) -> (r: Anchor)
        ensures
            is_lawful(domain.initial(), domain.bases()) ==> r@ == path_node(
                domain.initial(),
                domain.bases(),
                self.leaf_position() as int,
                node_values(self.siblings()),
                cmx.value(),
                MERKLE_DEPTH_ORCHARD as nat,
            ),
    {
        let ghost (q, s) = (domain.initial(), domain.bases());
        let ghost values = node_values(self.siblings());
        let mut node = MerkleHashOrchard::from_cmx(&cmx);
        let mut rest = self.position;
        let mut level: u8 = 0;
        proof {
            lemma2_to64();
        }
        while level < 32
            invariant
                level <= 32,
                q == domain.initial(),
                s == domain.bases(),
                values == node_values(self.siblings()),
                rest == self.position as int / pow2(level as nat) as int,
                is_lawful(q, s) ==> node@ == path_node(
                    q,
                    s,
                    self.position as int,
                    values,
                    cmx.value(),
                    level as nat,
                ),
            decreases 32 - level,
        {
            let sibling = self.auth_path[level as usize];
            if rest % 2 == 0 {
                node = MerkleHashOrchard::combine(domain, level, &node, &sibling);
            } else {
                node = MerkleHashOrchard::combine(domain, level, &sibling, &node);
            }
            proof {
                lemma_pow2_adds(level as nat, 1);
                lemma_pow2_pos(level as nat);
                lemma2_to64();
                lemma_div_denominator(self.position as int, pow2(level as nat) as int, 2);
                assert(values[level as int] == sibling@);
            }
            rest = rest / 2;
            level += 1;
        }
        Anchor(node.0)
    }

    /// The anchor that the path leads to from a commitment by the hash with incomplete additions.
    pub fn root_checked(&self, domain: &HashDomain, cmx: ExtractedNoteCommitment) -> (r: Anchor)
        ensures
            r@ == checked_path_node(
                domain.initial(),
                domain.bases(),
                self.leaf_position() as int,
                node_values(self.siblings()),
                cmx.value(),
                MERKLE_DEPTH_ORCHARD as nat,
            ),
    {
        let ghost (q, s) = (domain.initial(), domain.bases());
        let ghost values = node_values(self.siblings());
        let mut node = MerkleHashOrchard::from_cmx(&cmx);
        let mut rest = self.position;
        let mut level: u8 = 0;
        proof {
            lemma2_to64();
        }
        while level < 32
            invariant
                level <= 32,
                q == domain.initial(),
                s == domain.bases(),
                values == node_values(self.siblings()),
                rest == self.position as int / pow2(level as nat) as int,
                node@ == checked_path_node(
                    q,
                    s,
                    self.position as int,
                    values,
                    cmx.value(),
                    level as nat,
                ),
            decreases 32 - level,
        {
            let sibling = self.auth_path[level as usize];
            if rest % 2 == 0 {
                node = MerkleHashOrchard::combine_checked(domain, level, &node, &sibling);
            } else {
                node = MerkleHashOrchard::combine_checked(domain, level, &sibling, &node);
            }
            proof {
                lemma_pow2_adds(level as nat, 1);
                lemma_pow2_pos(level as nat);
                lemma2_to64();
                lemma_div_denominator(self.position as int, pow2(level as nat) as int, 2);
                assert(values[level as int] == sibling@);
            }
            rest = rest / 2;
            level += 1;
        }
        Anchor(node.0)
    }

    /// The position of the leaf.
    pub fn position(&self) -> (r: u32)
        ensures
            r == self.leaf_position(),
    {
        self.position
    }

    /// The siblings on the path, from the leaf up.
    pub fn auth_path(&self) -> (r: [MerkleHashOrchard; 32])
        ensures
            r@ == self.siblings(),
    {
        self.auth_path
    }
}

} // verus!

//! What paths, parents and empty roots are for: the trees that they belong to.
use crate::curve::law::{on_curve, plus, smul, Pt};
use crate::curve::Pallas;
use crate::field::repr::{lemma_bits_add_up, sum_of_bits};
use crate::sinsemilla::laws::{
    is_regular_step, lemma_hash_is_defined, lemma_hash_is_the_sum, lemma_lawful_domains,
    lemma_selecting_words, lemma_words_bound, lemma_words_hold_the_bits, selected_sum,
};
use crate::sinsemilla::weighted::weighted_hash;
use crate::tree::{
    are_parents, checked_empty_root_of, checked_parent, checked_path_node, empty_root_of,
    merkle_message, merkle_words, parent, path_node, MerkleHashOrchard,
};
use vstd::arithmetic::div_mod::{lemma_div_denominator, lemma_small_mod};
use vstd::arithmetic::power2::{lemma2_to64, lemma_pow2_adds, lemma_pow2_pos, pow2};
use vstd::prelude::*;

verus! {

/// The node of a tree at a height and a position of it: the leaves are at height zero, and the
/// node above two nodes is what `up` makes of their height, the left and the right one.
pub open spec fn tree_node(
    up: spec_fn(int, int, int) -> int,
    leaves: spec_fn(int) -> int,
    height: nat,
    index: int,
) -> int
    decreases height,
{
    if height == 0 {
        leaves(index)
    } else {
        let below = (height - 1) as nat;
        up(
            below as int,
            tree_node(up, leaves, below, 2 * index),
            tree_node(up, leaves, below, 2 * index + 1),
        )
    }
}

/// The position of the sibling of a node.
pub open spec fn sibling_of(index: int) -> int {
    if index % 2 == 0 {
        index + 1
    } else {
        index - 1
    }
}

/// The siblings are those of the nodes above the leaf at a position of a tree.
pub open spec fn are_siblings(
    up: spec_fn(int, int, int) -> int,
    leaves: spec_fn(int) -> int,
    position: int,
    siblings: Seq<int>,
    height: nat,
) -> bool {
    forall|l: int|
        0 <= l < height ==> #[trigger] siblings[l] == tree_node(
            up,
            leaves,
            l as nat,
            sibling_of(position / pow2(l as nat) as int),
        )
}

/// The parent of two nodes at a level, by weighted generators.
pub open spec fn weighted_up(q: Pt, s: Seq<Pt>) -> spec_fn(int, int, int) -> int {
    |level: int, left: int, right: int| parent(q, s, level, left, right)
}

/// The parent of two nodes at a level, with incomplete additions.
pub open spec fn checked_up(q: Pt, s: Seq<Pt>) -> spec_fn(int, int, int) -> int {
    |level: int, left: int, right: int| checked_parent(q, s, level, left, right)
}

/// The position above a position.
proof fn lemma_position_above(position: int, level: nat)
    requires
        0 <= position,
    ensures
        position / pow2(level + 1) as int == (position / pow2(level) as int) / 2,
{
    lemma2_to64();
    lemma_pow2_pos(level);
    lemma_pow2_adds(level, 1);
    lemma_div_denominator(position, pow2(level) as int, 2);
}

/// The path of the true siblings of a leaf leads to the nodes above the leaf: from any leaf of any
/// tree, it reaches at every height the node of the tree there.
pub proof fn lemma_path_reaches_nodes(
    q: Pt,
    s: Seq<Pt>,
    leaves: spec_fn(int) -> int,
    position: int,
    siblings: Seq<int>,
    height: nat,
)
    requires
        0 <= position,
        are_siblings(weighted_up(q, s), leaves, position, siblings, height),
    ensures
        path_node(q, s, position, siblings, leaves(position), height) == tree_node(
            weighted_up(q, s),
            leaves,
            height,
            position / pow2(height) as int,
        ),
    decreases height,
{
    lemma2_to64();
    if height == 0 {
        assert(position / 1 == position);
    } else {
        let l = (height - 1) as nat;
        lemma_path_reaches_nodes(q, s, leaves, position, siblings, l);
        lemma_position_above(position, l);
        let at = position / pow2(l) as int;
        assert(siblings[l as int] == tree_node(weighted_up(q, s), leaves, l, sibling_of(at)));
        assert(at == 2 * (at / 2) + at % 2);
    }
}

/// The same of the hash with incomplete additions.
pub proof fn lemma_checked_path_reaches_nodes(
    q: Pt,
    s: Seq<Pt>,
    leaves: spec_fn(int) -> int,
    position: int,
    siblings: Seq<int>,
    height: nat,
)
    requires
        0 <= position,
        are_siblings(checked_up(q, s), leaves, position, siblings, height),
    ensures
        checked_path_node(q, s, position, siblings, leaves(position), height) == tree_node(
            checked_up(q, s),
            leaves,
            height,
            position / pow2(height) as int,
        ),
    decreases height,
{
    lemma2_to64();
    if height == 0 {
        assert(position / 1 == position);
    } else {
        let l = (height - 1) as nat;
        lemma_checked_path_reaches_nodes(q, s, leaves, position, siblings, l);
        lemma_position_above(position, l);
        let at = position / pow2(l) as int;
        assert(siblings[l as int] == tree_node(checked_up(q, s), leaves, l, sibling_of(at)));
        assert(at == 2 * (at / 2) + at % 2);
    }
}

/// The path of a leaf leads to the root of its tree, whatever its leaves: for every position, the
/// true siblings lead from the leaf there to the root, by both ways of hashing.
pub proof fn lemma_paths_lead_to_the_root(
    q: Pt,
    s: Seq<Pt>,
    leaves: spec_fn(int) -> int,
    position: int,
    siblings: Seq<int>,
    height: nat,
)
    requires
        0 <= position < pow2(height),
    ensures
        are_siblings(weighted_up(q, s), leaves, position, siblings, height) ==> path_node(
            q,
            s,
            position,
            siblings,
            leaves(position),
            height,
        ) == tree_node(weighted_up(q, s), leaves, height, 0),
        are_siblings(checked_up(q, s), leaves, position, siblings, height) ==> checked_path_node(
            q,
            s,
            position,
            siblings,
            leaves(position),
            height,
        ) == tree_node(checked_up(q, s), leaves, height, 0),
{
    vstd::arithmetic::div_mod::lemma_basic_div(position, pow2(height) as int);
    if are_siblings(weighted_up(q, s), leaves, position, siblings, height) {
        lemma_path_reaches_nodes(q, s, leaves, position, siblings, height);
    }
    if are_siblings(checked_up(q, s), leaves, position, siblings, height) {
        lemma_checked_path_reaches_nodes(q, s, leaves, position, siblings, height);
    }
}

/// Every node of a tree without notes is the empty root of its height, by both ways of hashing.
pub proof fn lemma_nodes_of_the_empty_tree(q: Pt, s: Seq<Pt>, height: nat, index: int)
    ensures
        tree_node(weighted_up(q, s), |i: int| 2int, height, index) == empty_root_of(q, s, height),
        tree_node(checked_up(q, s), |i: int| 2int, height, index) == checked_empty_root_of(
            q,
            s,
            height,
        ),
    decreases height,
{
    if height > 0 {
        let below = (height - 1) as nat;
        lemma_nodes_of_the_empty_tree(q, s, below, 2 * index);
        lemma_nodes_of_the_empty_tree(q, s, below, 2 * index + 1);
    }
}

/// The input of a parent holds the level and both nodes: of its 52 words of ten bits, bit `k` is
/// that of the level below bit 10, then that of the left node, and from bit 265 that of the right
/// node.
pub proof fn lemma_message_holds_the_nodes(level: int, left: int, right: int, k: int)
    requires
        0 <= level < 1024,
        0 <= left < pow2(255),
        0 <= right < pow2(255),
        0 <= k < 520,
    ensures
        merkle_words(level, left, right).len() == 52,
        (merkle_words(level, left, right)[k / 10] / pow2((k % 10) as nat) as int) % 2 == if k < 10 {
            (level / pow2(k as nat) as int) % 2
        } else if k < 265 {
            (left / pow2((k - 10) as nat) as int) % 2
        } else {
            (right / pow2((k - 265) as nat) as int) % 2
        },
{
    let bits = merkle_message(level, left, right);
    lemma_words_hold_the_bits(bits, k / 10, (k % 10) as nat);
    assert(10 * (k / 10) + k % 10 == k);
}

/// Numbers of ten bits with the same bits are equal.
proof fn lemma_ten_bits(a: int, b: int)
    requires
        0 <= a < 1024,
        0 <= b < 1024,
        forall|d: nat|
            d < 10 ==> (a / #[trigger] (pow2(d) as int)) % 2 == (b / (pow2(d) as int)) % 2,
    ensures
        a == b,
{
    assert(pow2(10) == 1024) by {
        lemma2_to64();
    }
    lemma_same_bits(a, b, 10);
    lemma_bits_add_up(a, 10);
    lemma_bits_add_up(b, 10);
    lemma_small_mod(a as nat, 1024);
    lemma_small_mod(b as nat, 1024);
}

proof fn lemma_same_bits(a: int, b: int, n: nat)
    requires
        forall|d: nat|
            d < n ==> (a / #[trigger] (pow2(d) as int)) % 2 == (b / (pow2(d) as int)) % 2,
    ensures
        sum_of_bits(a, n) == sum_of_bits(b, n),
    decreases n,
{
    if n > 0 {
        let m = (n - 1) as nat;
        lemma_same_bits(a, b, m);
        assert((a / (pow2(m) as int)) % 2 == (b / (pow2(m) as int)) % 2);
    }
}

/// Bit `k` of the input of a parent: ten bits of the level, then 255 bits of each node.
pub open spec fn input_bit(level: int, left: int, right: int, k: int) -> int {
    if k < 10 {
        (level / pow2(k as nat) as int) % 2
    } else if k < 265 {
        (left / pow2((k - 10) as nat) as int) % 2
    } else {
        (right / pow2((k - 265) as nat) as int) % 2
    }
}

/// The words are 52 numbers of ten bits that hold the input of a parent.
pub open spec fn are_input_words(words: Seq<int>, level: int, left: int, right: int) -> bool {
    &&& words.len() == 52
    &&& forall|i: int| 0 <= i < 52 ==> 0 <= #[trigger] words[i] < 1024
    &&& forall|i: int, d: nat|
        0 <= i < 52 && d < 10 ==> (#[trigger] words[i] / #[trigger] (pow2(d) as int)) % 2
            == input_bit(level, left, right, 10 * i + d)
}

/// The parent of two nodes is the first coordinate of the sum of two to the 52 times the initial
/// point and, for every word of the input, of the generator that the word selects times two to
/// the number of words behind it; it is zero where that sum is the neutral element. The parent by
/// incomplete additions is the same where these are defined, and zero otherwise.
pub proof fn lemma_parent_is_the_sum(
    q: Pt,
    s: Seq<Pt>,
    level: int,
    left: int,
    right: int,
    words: Seq<int>,
)
    requires
        on_curve::<Pallas>(q),
        s.len() == 1024,
        forall|i: int| 0 <= i < 1024 ==> on_curve::<Pallas>(#[trigger] s[i]),
        0 <= level < 1024,
        0 <= left < pow2(255),
        0 <= right < pow2(255),
        are_input_words(words, level, left, right),
    ensures
        parent(q, s, level, left, right) == match plus::<Pallas>(
            smul::<Pallas>(pow2(52) as int, q),
            selected_sum(s, words, 52),
        ) {
            Pt::Infinity => 0,
            Pt::At { x, y } => x,
        },
        (forall|i: int|
            0 <= i < 52 ==> is_regular_step(
                weighted_hash(q, s, #[trigger] words.take(i)),
                s[words[i]],
            )) ==> checked_parent(q, s, level, left, right) == parent(q, s, level, left, right),
        !(forall|i: int|
            0 <= i < 52 ==> is_regular_step(
                weighted_hash(q, s, #[trigger] words.take(i)),
                s[words[i]],
            )) ==> checked_parent(q, s, level, left, right) == 0,
{
    let own = merkle_words(level, left, right);
    lemma_lawful_domains(q, s);
    lemma_message_holds_the_nodes(level, left, right, 0);
    assert forall|i: int| 0 <= i < 52 implies 0 <= #[trigger] own[i] < 1024 && own[i] == words[i] by {
        lemma_words_bound(merkle_message(level, left, right), i);
        assert forall|d: nat| d < 10 implies (own[i] / #[trigger] (pow2(d) as int)) % 2 == (
        words[i] / (pow2(d) as int)) % 2 by {
            let k = 10 * i + d;
            lemma_message_holds_the_nodes(level, left, right, k);
            assert(k / 10 == i && k % 10 == d);
            assert((words[i] / (pow2(d) as int)) % 2 == input_bit(level, left, right, 10 * i + d));
        }
        lemma_ten_bits(own[i], words[i]);
    }
    assert(own =~= words);
    lemma_selecting_words(words);
    lemma_hash_is_the_sum(q, s, words);
    lemma_hash_is_defined(q, s, words);
}

/// The input of a parent has 520 bits: ten of the level, then 255 of each node, each from the
/// lowest on.
pub proof fn lemma_input_bits(level: int, left: int, right: int, k: int)
    requires
        0 <= k < 520,
    ensures
        merkle_message(level, left, right).len() == 520,
        merkle_message(level, left, right)[k] == (input_bit(level, left, right, k) == 1),
{
}

/// A batch gives the parents that its pairs have one by one.
pub proof fn lemma_batches_of_parents(
    q: Pt,
    s: Seq<Pt>,
    level: int,
    pairs: Seq<(MerkleHashOrchard, MerkleHashOrchard)>,
    parents: Seq<MerkleHashOrchard>,
    i: int,
)
    requires
        on_curve::<Pallas>(q),
        s.len() == 1024,
        forall|j: int| 0 <= j < 1024 ==> on_curve::<Pallas>(#[trigger] s[j]),
        are_parents(q, s, level, pairs, parents),
        0 <= i < pairs.len(),
    ensures
        parents.len() == pairs.len(),
        parents[i]@ == parent(q, s, level, pairs[i].0@, pairs[i].1@),
{
    lemma_lawful_domains(q, s);
}

} // verus!

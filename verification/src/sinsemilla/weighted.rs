//! Sinsemilla for messages of a fixed number of words, with position-weighted generators.
//!
//! The powers of two of the recurrence `A_(i+1) = 2 A_i + S[m_i]` are moved into a table: the
//! accumulators `B_i = 2^(N-i) A_i` satisfy `B_(i+1) = B_i + 2^(N-i-1) S[m_i]`.
use crate::curve::affine::Affine;
use crate::curve::batch::{
    affine_add, are_apart, batch_invert_nonzero, batch_normalize, is_affine_of, lemma_affine_of,
    lemma_apart_residues,
};
use crate::curve::combination::all_on_curve;
use crate::curve::law::{
    lemma_closed, lemma_smul_add, lemma_smul_injective, lemma_smul_mul, lemma_smul_small,
    lemma_smul_sum, on_curve, order, plus, smul, Pt,
};
use crate::curve::point::Point;
use crate::curve::Pallas;
use crate::field::primes::is_inverse;
use crate::field::{Fe, Fp, Modulus, PallasBase};
use crate::sinsemilla::domain::{
    are_words, checked_hash, complete_hash, extract, extracted, lemma_checked_is_complete,
    lemma_complete_closed, message_words,
    word_count, words_of, HashDomain, C, GENERATOR_COUNT,
};
use vstd::arithmetic::div_mod::lemma_small_mod;
use vstd::arithmetic::power2::{
    lemma2_to64, lemma2_to64_rest, lemma_pow2_adds, lemma_pow2_pos, lemma_pow2_strictly_increases,
    pow2,
};
use vstd::prelude::*;

verus! {

/// First words with combined entries for the first two words.
pub const FUSED_FIRST_WORDS: usize = 8;

/// Batches of at least this many messages use affine accumulators.
pub const BATCH_AFFINE_MIN_MESSAGES: usize = 32;

/// The size of an affine point in bytes.
pub const AFFINE_BYTES: usize = 64;

/// The initial point and the generators are on the curve.
pub open spec fn is_lawful(q: Pt, s: Seq<Pt>) -> bool {
    on_curve::<Pallas>(q) && all_on_curve::<Pallas>(s) && s.len() == GENERATOR_COUNT
}

/// A point after a number of doublings.
pub open spec fn doubled(p: Pt, count: nat) -> Pt
    decreases count,
{
    if count == 0 {
        p
    } else {
        let half = doubled(p, (count - 1) as nat);
        plus::<Pallas>(half, half)
    }
}

/// The generator of a word, weighted for the position that has `e` words behind it.
pub open spec fn weighted_point(s: Seq<Pt>, e: int, j: int) -> Pt {
    doubled(s[j], e as nat)
}

/// The accumulator after the first word.
pub open spec fn first_point(q: Pt, s: Seq<Pt>, n: int, j: int) -> Pt {
    plus::<Pallas>(doubled(q, n as nat), weighted_point(s, n - 1, j))
}

/// The weighted accumulator after the first `i` of `n` words.
pub open spec fn accumulator(q: Pt, s: Seq<Pt>, n: int, words: Seq<int>, i: int) -> Pt
    decreases i,
{
    if i <= 0 {
        doubled(q, n as nat)
    } else {
        plus::<Pallas>(
            accumulator(q, s, n, words, i - 1),
            weighted_point(s, n - i, words[i - 1]),
        )
    }
}

/// The hash of words by position-weighted generators.
pub open spec fn weighted_hash(q: Pt, s: Seq<Pt>, words: Seq<int>) -> Pt {
    accumulator(q, s, words.len() as int, words, words.len() as int)
}

/// The domain can be used for messages of `n` words: neither the initial point nor a weighted
/// generator nor an accumulator after the first word is the neutral element.
pub open spec fn is_usable(q: Pt, s: Seq<Pt>, n: int) -> bool {
    &&& q != Pt::Infinity
    &&& forall|e: int, j: int|
        0 <= e < n && 0 <= j < s.len() ==> #[trigger] weighted_point(s, e, j) != Pt::Infinity
    &&& forall|j: int| 0 <= j < s.len() ==> #[trigger] first_point(q, s, n, j) != Pt::Infinity
}

/// The words as integers.
pub open spec fn word_ints(words: Seq<u16>) -> Seq<int> {
    Seq::new(words.len(), |i: int| words[i] as int)
}

/// Every word has a generator.
pub open spec fn are_valid(words: Seq<u16>) -> bool {
    forall|i: int| 0 <= i < words.len() ==> #[trigger] words[i] < GENERATOR_COUNT
}

/// Every word of every message has a generator.
pub open spec fn all_valid<const N: usize>(messages: Seq<[u16; N]>) -> bool {
    forall|k: int| 0 <= k < messages.len() ==> are_valid((#[trigger] messages[k])@)
}

/// The hashes of a batch: the first coordinates of the weighted evaluations.
pub open spec fn are_hashes<const N: usize>(
    q: Pt,
    s: Seq<Pt>,
    messages: Seq<[u16; N]>,
    hashes: Seq<Fp>,
) -> bool {
    &&& hashes.len() == messages.len()
    &&& is_lawful(q, s) ==> forall|k: int|
        0 <= k < messages.len() ==> (#[trigger] hashes[k])@ == extracted(
            weighted_hash(q, s, word_ints(messages[k]@)),
        )
}

/// The number of words that the tables cover for a batch: two where all messages begin with a
/// word that has a row of fused accumulators, one otherwise.
pub open spec fn covered<const N: usize>(messages: Seq<[u16; N]>) -> int {
    if N > 1 && messages.len() > 0 && messages[0]@[0] < FUSED_FIRST_WORDS && (forall|k: int|
        0 <= k < messages.len() ==> (#[trigger] messages[k])@[0] == messages[0]@[0]) {
        2
    } else {
        1
    }
}

/// The accumulator after `i` words and the weighted generator of the next word have different
/// first coordinates.
pub open spec fn meets_no_exception(q: Pt, s: Seq<Pt>, words: Seq<int>, i: int) -> bool {
    are_apart(
        accumulator(q, s, words.len() as int, words, i),
        weighted_point(s, words.len() - i - 1, words[i]),
    )
}

/// The accumulator after `start` words is not the neutral element, and chords lead from it to the
/// accumulator after `end` words.
pub open spec fn has_chords(q: Pt, s: Seq<Pt>, words: Seq<int>, start: int, end: int) -> bool {
    &&& accumulator(q, s, words.len() as int, words, start) != Pt::Infinity
    &&& forall|i: int| start <= i < end ==> #[trigger] meets_no_exception(q, s, words, i)
}

/// The point of a lane, where it is not the neutral element.
pub open spec fn lane_point(xs: Seq<Fp>, ys: Seq<Fp>, k: int) -> Pt {
    Pt::At { x: xs[k]@, y: ys[k]@ }
}

/// The coordinates of the weighted evaluations of a batch.
pub open spec fn are_points<const N: usize>(
    q: Pt,
    s: Seq<Pt>,
    messages: Seq<[u16; N]>,
    xs: Seq<Fp>,
    ys: Seq<Fp>,
) -> bool {
    &&& xs.len() == messages.len()
    &&& ys.len() == messages.len()
    &&& is_lawful(q, s) ==> forall|k: int|
        0 <= k < messages.len() ==> #[trigger] lane_point(xs, ys, k) == weighted_hash(
            q,
            s,
            word_ints(messages[k]@),
        )
}

/// A batch on affine accumulators agrees with the evaluation of its messages one by one: both
/// coordinates of every lane are those of the point of its message, whatever the storage held
/// before.
pub proof fn lemma_batch_agrees<const N: usize>(
    q: Pt,
    s: Seq<Pt>,
    messages: Seq<[u16; N]>,
    workspace: BatchHashWorkspace,
    k: int,
    point: Point<Pallas>,
)
    requires
        is_lawful(q, s),
        are_points(q, s, messages, workspace.hashes_view(), workspace.seconds_view()),
        0 <= k < messages.len(),
        point@ == weighted_hash(q, s, word_ints(messages[k]@)),
    ensures
        workspace.hashes_view().len() == messages.len(),
        workspace.seconds_view().len() == messages.len(),
        point@ == (Pt::At {
            x: workspace.hashes_view()[k]@,
            y: workspace.seconds_view()[k]@,
        }),
{
    assert(lane_point(workspace.hashes_view(), workspace.seconds_view(), k) == point@);
}

/// Two columns agree from a lane on.
spec fn same_tail(a: Seq<Fp>, b: Seq<Fp>, start: int) -> bool {
    forall|j: int| start <= j < b.len() ==> #[trigger] a[j] == b[j]
}

/// Setting a lane leaves the lanes behind it.
proof fn lemma_same_tail(a: Seq<Fp>, b: Seq<Fp>, k: int, v: Fp)
    requires
        0 <= k < a.len(),
        a.len() == b.len(),
        same_tail(a, b, k),
    ensures
        same_tail(a.update(k, v), b, k + 1),
{
}

/// The words of a valid message as integers.
proof fn lemma_word_ints(words: Seq<u16>)
    requires
        are_valid(words),
    ensures
        are_words(word_ints(words)),
{
    let ints = word_ints(words);
    assert forall|i: int| 0 <= i < ints.len() implies 0 <= #[trigger] ints[i]
        < GENERATOR_COUNT by {
        assert(words[i] < GENERATOR_COUNT);
    }
}

/// Powers of two with exponents up to the number of words are nonzero scalars.
proof fn lemma_small_power(e: nat)
    requires
        e <= 253,
    ensures
        0 < pow2(e) < order::<Pallas>(),
        pow2(e) as int % order::<Pallas>() != 0,
{
    lemma2_to64();
    lemma2_to64_rest();
    lemma_pow2_adds(64, 64);
    lemma_pow2_adds(128, 64);
    lemma_pow2_adds(192, 62);
    assert(pow2(254) == 0x4000000000000000000000000000000000000000000000000000000000000000int);
    lemma_pow2_pos(e);
    lemma_pow2_strictly_increases(e, 254);
    crate::field::VestaBase::lemma_modulus();
    lemma_small_mod(pow2(e), order::<Pallas>() as nat);
}

/// Doublings stay on the curve.
proof fn lemma_doubled_closed(p: Pt, count: nat)
    requires
        on_curve::<Pallas>(p),
    ensures
        on_curve::<Pallas>(doubled(p, count)),
    decreases count,
{
    if count > 0 {
        let half = doubled(p, (count - 1) as nat);
        lemma_doubled_closed(p, (count - 1) as nat);
        lemma_closed::<Pallas>(half, half);
    }
}

/// Doublings multiply with a power of two.
pub proof fn lemma_doubled(p: Pt, count: nat)
    requires
        on_curve::<Pallas>(p),
    ensures
        doubled(p, count) == smul::<Pallas>(pow2(count) as int, p),
    decreases count,
{
    lemma2_to64();
    if count == 0 {
        lemma_smul_small::<Pallas>(p);
    } else {
        let c = (count - 1) as nat;
        lemma_doubled(p, c);
        lemma_smul_add::<Pallas>(pow2(c) as int, pow2(c) as int, p);
        lemma_pow2_adds(1, c);
    }
}

/// In a group of prime order no weighted generator vanishes, so the domain can be used wherever
/// no accumulator after the first word vanishes.
pub proof fn lemma_usable(q: Pt, s: Seq<Pt>, n: int)
    requires
        is_lawful(q, s),
        0 < n <= C,
        q != Pt::Infinity,
        forall|j: int| 0 <= j < s.len() ==> #[trigger] s[j] != Pt::Infinity,
        forall|j: int| 0 <= j < s.len() ==> #[trigger] first_point(q, s, n, j) != Pt::Infinity,
    ensures
        is_usable(q, s, n),
{
    assert forall|e: int, j: int| 0 <= e < n && 0 <= j < s.len() implies #[trigger] weighted_point(
        s,
        e,
        j,
    ) != Pt::Infinity by {
        assert(on_curve::<Pallas>(s[j]) && s[j] != Pt::Infinity);
        lemma_doubled(s[j], e as nat);
        lemma_small_power(e as nat);
        lemma_smul_small::<Pallas>(s[j]);
        lemma_small_mod(0, order::<Pallas>() as nat);
        if weighted_point(s, e, j) == Pt::Infinity {
            lemma_smul_injective::<Pallas>(pow2(e as nat) as int, 0, s[j]);
        }
    }
}

/// A weighted generator is on the curve.
proof fn lemma_weighted(q: Pt, s: Seq<Pt>, e: int, j: int)
    requires
        is_lawful(q, s),
        0 <= j < GENERATOR_COUNT,
    ensures
        on_curve::<Pallas>(weighted_point(s, e, j)),
{
    assert(on_curve::<Pallas>(s[j]));
    lemma_doubled_closed(s[j], e as nat);
}

/// The accumulator after the first word is on the curve.
proof fn lemma_first(q: Pt, s: Seq<Pt>, n: int, j: int)
    requires
        is_lawful(q, s),
        0 <= j < GENERATOR_COUNT,
    ensures
        on_curve::<Pallas>(first_point(q, s, n, j)),
{
    lemma_weighted(q, s, n - 1, j);
    lemma_doubled_closed(q, n as nat);
    lemma_closed::<Pallas>(doubled(q, n as nat), weighted_point(s, n - 1, j));
}

/// The accumulator after the first words is the multiple of the recurrence by the power of two of
/// the words that are left.
proof fn lemma_accumulator_multiple(q: Pt, s: Seq<Pt>, words: Seq<int>, i: nat)
    requires
        is_lawful(q, s),
        are_words(words),
        i <= words.len(),
    ensures
        accumulator(q, s, words.len() as int, words, i as int) == smul::<Pallas>(
            pow2((words.len() - i) as nat) as int,
            complete_hash(q, s, words.take(i as int)),
        ),
    decreases i,
{
    let n = words.len() as int;
    if i == 0 {
        assert(words.take(0) =~= Seq::empty());
        lemma_doubled(q, n as nat);
    } else {
        let k = (i - 1) as nat;
        lemma_accumulator_multiple(q, s, words, k);
        let (front, next) = (words.take(k as int), words.take(i as int));
        assert(next.drop_last() =~= front);
        lemma_take_words(words, k as int);
        lemma_complete_closed(q, s, front);
        assert(0 <= words[k as int] < GENERATOR_COUNT);
        let a = complete_hash(q, s, front);
        let g = s[words[k as int]];
        let m = (n - i) as nat;
        let e = pow2(m) as int;
        assert(on_curve::<Pallas>(g));
        lemma_doubled(g, m);
        lemma_closed::<Pallas>(a, a);
        lemma_smul_sum::<Pallas>(e, plus::<Pallas>(a, a), g);
        lemma_smul_small::<Pallas>(a);
        lemma_smul_add::<Pallas>(1, 1, a);
        lemma_smul_mul::<Pallas>(e, 2, a);
        lemma2_to64();
        lemma_pow2_adds(1, m);
        assert(e * 2 == pow2((n - k) as nat));
    }
}

/// The prefix of valid words is valid.
pub proof fn lemma_take_words(words: Seq<int>, i: int)
    requires
        are_words(words),
        0 <= i <= words.len(),
    ensures
        are_words(words.take(i)),
{
    assert forall|k: int| 0 <= k < i implies 0 <= #[trigger] words.take(i)[k] < GENERATOR_COUNT by {
        assert(0 <= words[k] < GENERATOR_COUNT);
    }
}

/// The accumulators are on the curve.
pub proof fn lemma_accumulator_closed(q: Pt, s: Seq<Pt>, n: int, words: Seq<int>, i: int)
    requires
        is_lawful(q, s),
        are_words(words),
        i <= words.len(),
    ensures
        on_curve::<Pallas>(accumulator(q, s, n, words, i)),
    decreases i,
{
    if i <= 0 {
        lemma_doubled_closed(q, n as nat);
    } else {
        lemma_accumulator_closed(q, s, n, words, i - 1);
        assert(0 <= words[i - 1] < GENERATOR_COUNT);
        lemma_weighted(q, s, n - i, words[i - 1]);
        lemma_closed::<Pallas>(
            accumulator(q, s, n, words, i - 1),
            weighted_point(s, n - i, words[i - 1]),
        );
    }
}

/// The accumulators form a chain of additions on the curve.
proof fn lemma_accumulator(q: Pt, s: Seq<Pt>, n: int, words: Seq<int>, i: int)
    requires
        is_lawful(q, s),
        are_words(words),
        0 <= i < words.len(),
    ensures
        accumulator(q, s, n, words, i + 1) == plus::<Pallas>(
            accumulator(q, s, n, words, i),
            weighted_point(s, n - i - 1, words[i]),
        ),
        on_curve::<Pallas>(accumulator(q, s, n, words, i)),
        on_curve::<Pallas>(accumulator(q, s, n, words, i + 1)),
        0 <= words[i] < GENERATOR_COUNT,
{
    lemma_accumulator_closed(q, s, n, words, i);
    lemma_accumulator_closed(q, s, n, words, i + 1);
    assert(0 <= words[i] < GENERATOR_COUNT);
    assert(n - (i + 1) == n - i - 1);
}

/// The accumulator after the first word.
proof fn lemma_accumulator_first(q: Pt, s: Seq<Pt>, n: int, words: Seq<int>)
    requires
        words.len() > 0,
    ensures
        accumulator(q, s, n, words, 1) == first_point(q, s, n, words[0]),
{
    assert(accumulator(q, s, n, words, 0) == doubled(q, n as nat));
}

/// In a group the weighted evaluation is the recurrence that doubles and adds: moving the powers
/// of two into the generators does not change the hash.
pub proof fn lemma_weighted_is_complete(q: Pt, s: Seq<Pt>, words: Seq<int>)
    requires
        is_lawful(q, s),
        are_words(words),
    ensures
        weighted_hash(q, s, words) == complete_hash(q, s, words),
{
    lemma_accumulator_multiple(q, s, words, words.len());
    assert(words.take(words.len() as int) =~= words);
    lemma2_to64();
    lemma_complete_closed(q, s, words);
    lemma_smul_small::<Pallas>(complete_hash(q, s, words));
}

/// Where the hash with incomplete additions is defined, the weighted evaluation gives it.
pub proof fn lemma_weighted_is_checked(q: Pt, s: Seq<Pt>, words: Seq<int>)
    requires
        is_lawful(q, s),
        are_words(words),
    ensures
        checked_hash(q, s, words) matches Some(p) ==> p == weighted_hash(q, s, words),
{
    lemma_weighted_is_complete(q, s, words);
    lemma_checked_is_complete(q, s, words);
}

/// A fixed-length domain with position-weighted generators, which omits the checks of the
/// incomplete additions.
pub struct UncheckedFixedLengthHashDomain<const N: usize> {
    weighted_generators: Vec<Affine<Pallas>>,
    fused_first_two: Vec<Affine<Pallas>>,
    q: Ghost<Pt>,
    s: Ghost<Seq<Pt>>,
}

/// The storage of batched evaluations.
#[derive(Debug)]
pub struct BatchHashWorkspace {
    points: Vec<Point<Pallas>>,
    xs: Vec<Fp>,
    ys: Vec<Fp>,
    table_xs: Vec<Fp>,
    table_ys: Vec<Fp>,
    denominators: Vec<Fp>,
    inversion_scratch: Vec<Fp>,
}

impl Default for BatchHashWorkspace {
    fn default() -> (r: Self)
        ensures
            r.hashes_view() == Seq::<Fp>::empty(),
    {
        BatchHashWorkspace {
            points: Vec::new(),
            xs: Vec::new(),
            ys: Vec::new(),
            table_xs: Vec::new(),
            table_ys: Vec::new(),
            denominators: Vec::new(),
            inversion_scratch: Vec::new(),
        }
    }
}

impl BatchHashWorkspace {
    /// The hashes of the last batch.
    pub closed spec fn hashes_view(self) -> Seq<Fp> {
        self.xs@
    }

    /// The second coordinates of the last batch on affine accumulators.
    pub closed spec fn seconds_view(self) -> Seq<Fp> {
        self.ys@
    }

    /// The second coordinates of the last batch on affine accumulators.
    pub fn seconds(&self) -> (r: &Vec<Fp>)
        ensures
            r@ == self.seconds_view(),
    {
        &self.ys
    }

    /// The hashes of the last batch.
    pub fn hashes(&self) -> (r: &Vec<Fp>)
        ensures
            r@ == self.hashes_view(),
    {
        &self.xs
    }
}

/// A row of the table: the generators weighted with a power of two.
spec fn is_row(row: Seq<Affine<Pallas>>, start: int, q: Pt, s: Seq<Pt>, e: int) -> bool {
    is_lawful(q, s) ==> forall|j: int|
        0 <= j < GENERATOR_COUNT ==> (#[trigger] row[start + j])@ == weighted_point(s, e, j)
}

/// The row of the accumulators after the first word.
spec fn is_first_row(row: Seq<Affine<Pallas>>, start: int, q: Pt, s: Seq<Pt>, n: int) -> bool {
    is_lawful(q, s) ==> forall|j: int|
        0 <= j < GENERATOR_COUNT ==> (#[trigger] row[start + j])@ == first_point(q, s, n, j)
}

/// A row of the accumulators after the first two words.
spec fn is_fused_row(
    row: Seq<Affine<Pallas>>,
    start: int,
    q: Pt,
    s: Seq<Pt>,
    n: int,
    first: int,
) -> bool {
    is_lawful(q, s) ==> forall|j: int|
        0 <= j < GENERATOR_COUNT ==> (#[trigger] row[start + j])@ == plus::<Pallas>(
            first_point(q, s, n, first),
            weighted_point(s, n - 2, j),
        )
}

/// The points after one more doubling.
fn double_row(points: &Vec<Point<Pallas>>, Ghost(q): Ghost<Pt>, Ghost(s): Ghost<Seq<Pt>>, Ghost(
    e,
): Ghost<int>) -> (r: Vec<Point<Pallas>>)
    requires
        0 <= e,
        points@.len() == GENERATOR_COUNT,
        is_lawful(q, s) ==> forall|j: int|
            0 <= j < GENERATOR_COUNT ==> (#[trigger] points@[j])@ == weighted_point(s, e, j),
    ensures
        r@.len() == GENERATOR_COUNT,
        is_lawful(q, s) ==> forall|j: int|
            0 <= j < GENERATOR_COUNT ==> (#[trigger] r@[j])@ == weighted_point(s, e + 1, j),
{
    let mut r: Vec<Point<Pallas>> = Vec::new();
    let mut j: usize = 0;
    while j < GENERATOR_COUNT
        invariant
            j <= GENERATOR_COUNT,
            0 <= e,
            points@.len() == GENERATOR_COUNT,
            r@.len() == j,
            is_lawful(q, s) ==> forall|k: int|
                0 <= k < GENERATOR_COUNT ==> (#[trigger] points@[k])@ == weighted_point(s, e, k),
            is_lawful(q, s) ==> forall|k: int|
                0 <= k < j ==> (#[trigger] r@[k])@ == weighted_point(s, e + 1, k),
        decreases GENERATOR_COUNT - j,
    {
        r.push(points[j].double());
        proof {
            assert((e + 1 - 1) as nat == e as nat);
        }
        j += 1;
    }
    r
}

/// The affine row of weighted generators.
fn normalize_row(
    points: &Vec<Point<Pallas>>,
    Ghost(q): Ghost<Pt>,
    Ghost(s): Ghost<Seq<Pt>>,
    Ghost(e): Ghost<int>,
) -> (r: Vec<Affine<Pallas>>)
    requires
        0 <= e <= 253,
        points@.len() == GENERATOR_COUNT,
        is_lawful(q, s) ==> forall|j: int|
            0 <= j < GENERATOR_COUNT ==> (#[trigger] points@[j])@ == weighted_point(s, e, j),
    ensures
        r@.len() == GENERATOR_COUNT,
        is_row(r@, 0, q, s, e),
{
    let r = batch_normalize(points);
    proof {
        if is_lawful(q, s) {
            assert forall|j: int| 0 <= j < GENERATOR_COUNT implies (#[trigger] r@[0 + j])@
                == weighted_point(s, e, j) by {
                lemma_weighted(q, s, e, j);
                assert(is_affine_of(r@[j], points@[j]@));
                lemma_affine_of::<Pallas>(r@[j], points@[j]@);
            }
        }
    }
    r
}

/// The sums of a point and the entries of a row, in affine coordinates.
fn add_row(point: Point<Pallas>, row: &Vec<Affine<Pallas>>, start: usize) -> (r: Vec<
    Affine<Pallas>,
>)
    requires
        start + GENERATOR_COUNT <= row@.len(),
    ensures
        r@.len() == GENERATOR_COUNT,
        forall|j: int|
            0 <= j < GENERATOR_COUNT ==> is_affine_of(
                #[trigger] r@[j],
                plus::<Pallas>(point@, row@[start + j]@),
            ),
{
    let size = row.len();
    let mut points: Vec<Point<Pallas>> = Vec::new();
    let mut j: usize = 0;
    while j < GENERATOR_COUNT
        invariant
            j <= GENERATOR_COUNT,
            size == row@.len(),
            start + GENERATOR_COUNT <= size,
            points@.len() == j,
            forall|k: int|
                0 <= k < j ==> (#[trigger] points@[k])@ == plus::<Pallas>(
                    point@,
                    row@[start + k]@,
                ),
        decreases GENERATOR_COUNT - j,
    {
        points.push(point.add_affine(row[start + j]));
        j += 1;
    }
    batch_normalize(&points)
}

impl<const N: usize> UncheckedFixedLengthHashDomain<N> {
    #[verifier::type_invariant]
    spec fn holds(self) -> bool {
        let (q, s, n) = (self.q@, self.s@, N as int);
        &&& 0 < n <= C
        &&& self.weighted_generators@.len() == n * GENERATOR_COUNT
        &&& self.fused_first_two@.len() == if n > 1 {
            FUSED_FIRST_WORDS * GENERATOR_COUNT
        } else {
            0
        }
        &&& is_usable(q, s, n)
        &&& s.len() == GENERATOR_COUNT
        &&& forall|e: int|
            0 <= e < n - 1 ==> is_row(
                self.weighted_generators@,
                #[trigger] (e * GENERATOR_COUNT),
                q,
                s,
                e,
            )
        &&& is_first_row(self.weighted_generators@, (n - 1) * GENERATOR_COUNT, q, s, n)
        &&& n > 1 ==> forall|a: int|
            0 <= a < FUSED_FIRST_WORDS ==> is_fused_row(
                self.fused_first_two@,
                #[trigger] (a * GENERATOR_COUNT),
                q,
                s,
                n,
                a,
            )
    }

    /// The initial point of the domain.
    pub closed spec fn initial(self) -> Pt {
        self.q@
    }

    /// The generators of the domain.
    pub closed spec fn bases(self) -> Seq<Pt> {
        self.s@
    }

    /// The table of a domain.
    pub fn new(domain: &HashDomain) -> (r: Self)
        requires
            0 < N <= C,
            is_usable(domain.initial(), domain.bases(), N as int),
        ensures
            r.initial() == domain.initial(),
            r.bases() == domain.bases(),
    {
        let ghost (q, s, n) = (domain.initial(), domain.bases(), N as int);
        // The rows of weighted generators.
        let mut projective: Vec<Point<Pallas>> = Vec::new();
        let mut j: usize = 0;
        proof {
            lemma2_to64();
        }
        let first_generator = domain.generator(0);
        while j < GENERATOR_COUNT
            invariant
                j <= GENERATOR_COUNT,
                s == domain.bases(),
                q == domain.initial(),
                projective@.len() == j,
                is_lawful(q, s) ==> forall|k: int|
                    0 <= k < j ==> (#[trigger] projective@[k])@ == weighted_point(s, 0, k),
            decreases GENERATOR_COUNT - j,
        {
            projective.push(Point::from_affine(domain.generator(j)));
            proof {
                assert(doubled(s[j as int], 0) == s[j as int]);
            }
            j += 1;
        }
        let mut table: Vec<Affine<Pallas>> = Vec::new();
        let mut e: usize = 0;
        assert(0 * GENERATOR_COUNT == 0);
        while e + 1 < N
            invariant
                0 < N <= C,
                n == N,
                0 <= e < n,
                projective@.len() == GENERATOR_COUNT,
                is_lawful(q, s) ==> forall|k: int|
                    0 <= k < GENERATOR_COUNT ==> (#[trigger] projective@[k])@ == weighted_point(
                        s,
                        e as int,
                        k,
                    ),
                table@.len() == e * GENERATOR_COUNT,
                forall|d: int|
                    0 <= d < e ==> is_row(table@, #[trigger] (d * GENERATOR_COUNT), q, s, d),
            decreases N - e,
        {
            let mut row = normalize_row(&projective, Ghost(q), Ghost(s), Ghost(e as int));
            let ghost (t0, r0) = (table@, row@);
            table.append(&mut row);
            proof {
                assert forall|d: int| 0 <= d < e + 1 implies is_row(
                    table@,
                    #[trigger] (d * GENERATOR_COUNT),
                    q,
                    s,
                    d,
                ) by {
                    if is_lawful(q, s) {
                        let at = d * GENERATOR_COUNT;
                        assert forall|k: int| 0 <= k < GENERATOR_COUNT implies (
                        #[trigger] table@[at + k])@ == weighted_point(s, d, k) by {
                            if d < e {
                                assert(is_row(t0, at, q, s, d));
                                assert(table@[at + k] == t0[at + k]);
                            } else {
                                assert(table@[at + k] == r0[0 + k]);
                            }
                        }
                    }
                }
            }
            projective = double_row(&projective, Ghost(q), Ghost(s), Ghost(e as int));
            e += 1;
        }
        let last = normalize_row(&projective, Ghost(q), Ghost(s), Ghost(e as int));
        // The accumulators after the first word.
        let mut initial = domain.q();
        let mut i: usize = 0;
        while i < N
            invariant
                i <= N,
                initial@ == doubled(q, i as nat),
            decreases N - i,
        {
            assert((i + 1 - 1) as nat == i as nat);
            initial = initial.double();
            i += 1;
        }
        let first = add_row(initial, &last, 0);
        let ghost (f0, t0) = (first@, table@);
        proof {
            if is_lawful(q, s) {
                assert forall|k: int| 0 <= k < GENERATOR_COUNT implies (#[trigger] f0[k])@
                    == first_point(q, s, n, k) by {
                    assert(last@[0 + k]@ == weighted_point(s, n - 1, k));
                    lemma_first(q, s, n, k);
                    assert(is_affine_of(f0[k], plus::<Pallas>(initial@, last@[0 + k]@)));
                    lemma_affine_of::<Pallas>(f0[k], first_point(q, s, n, k));
                }
            }
        }
        // The accumulators after the first two words.
        let mut fused: Vec<Affine<Pallas>> = Vec::new();
        if N > 1 {
            let second_start = (N - 2) * GENERATOR_COUNT;
            let mut a: usize = 0;
            while a < FUSED_FIRST_WORDS
                invariant
                    a <= FUSED_FIRST_WORDS,
                    1 < N <= C,
                    n == N,
                    table@ == t0,
                    first@ == f0,
                    f0.len() == GENERATOR_COUNT,
                    second_start == (n - 2) * GENERATOR_COUNT,
                    table@.len() == (n - 1) * GENERATOR_COUNT,
                    forall|d: int|
                        0 <= d < n - 1 ==> is_row(t0, #[trigger] (d * GENERATOR_COUNT), q, s, d),
                    is_lawful(q, s) ==> forall|k: int|
                        0 <= k < GENERATOR_COUNT ==> (#[trigger] f0[k])@ == first_point(q, s, n, k),
                    fused@.len() == a * GENERATOR_COUNT,
                    forall|b: int|
                        0 <= b < a ==> is_fused_row(
                            fused@,
                            #[trigger] (b * GENERATOR_COUNT),
                            q,
                            s,
                            n,
                            b,
                        ),
                decreases FUSED_FIRST_WORDS - a,
            {
                let mut row = add_row(Point::from_affine(first[a]), &table, second_start);
                let ghost (x0, r0) = (fused@, row@);
                fused.append(&mut row);
                proof {
                    assert forall|b: int| 0 <= b < a + 1 implies is_fused_row(
                        fused@,
                        #[trigger] (b * GENERATOR_COUNT),
                        q,
                        s,
                        n,
                        b,
                    ) by {
                        if is_lawful(q, s) {
                            let at = b * GENERATOR_COUNT;
                            let p = first_point(q, s, n, b);
                            assert forall|k: int| 0 <= k < GENERATOR_COUNT implies (
                            #[trigger] fused@[at + k])@ == plus::<Pallas>(
                                p,
                                weighted_point(s, n - 2, k),
                            ) by {
                                if b < a {
                                    assert(is_fused_row(x0, at, q, s, n, b));
                                    assert(fused@[at + k] == x0[at + k]);
                                } else {
                                    assert(fused@[at + k] == r0[k]);
                                    assert(is_row(t0, (n - 2) * GENERATOR_COUNT, q, s, n - 2));
                                    assert(t0[second_start + k]@ == weighted_point(s, n - 2, k));
                                    lemma_first(q, s, n, b);
                                    lemma_weighted(q, s, n - 2, k);
                                    lemma_closed::<Pallas>(p, weighted_point(s, n - 2, k));
                                    assert(f0[b]@ == p);
                                    lemma_affine_of::<Pallas>(
                                        r0[k],
                                        plus::<Pallas>(p, weighted_point(s, n - 2, k)),
                                    );
                                }
                            }
                        }
                    }
                }
                a += 1;
            }
        }
        let mut first = first;
        table.append(&mut first);
        proof {
            assert forall|d: int| 0 <= d < n - 1 implies is_row(
                table@,
                #[trigger] (d * GENERATOR_COUNT),
                q,
                s,
                d,
            ) by {
                if is_lawful(q, s) {
                    let at = d * GENERATOR_COUNT;
                    assert(is_row(t0, at, q, s, d));
                    assert forall|k: int| 0 <= k < GENERATOR_COUNT implies (#[trigger] table@[at
                        + k])@ == weighted_point(s, d, k) by {
                        assert(table@[at + k] == t0[at + k]);
                    }
                }
            }
            assert(is_first_row(table@, (n - 1) * GENERATOR_COUNT, q, s, n)) by {
                if is_lawful(q, s) {
                    let at = (n - 1) * GENERATOR_COUNT;
                    assert forall|k: int| 0 <= k < GENERATOR_COUNT implies (#[trigger] table@[at
                        + k])@ == first_point(q, s, n, k) by {
                        assert(table@[at + k] == f0[k]);
                    }
                }
            }
        }
        UncheckedFixedLengthHashDomain {
            weighted_generators: table,
            fused_first_two: fused,
            q: Ghost(q),
            s: Ghost(s),
        }
    }

    /// The generator of a word, weighted for its position.
    pub fn weighted_generator(&self, exponent: usize, generator: usize) -> (r: Affine<Pallas>)
        requires
            exponent + 1 < N,
            generator < GENERATOR_COUNT,
        ensures
            is_lawful(self.initial(), self.bases()) ==> r@ == weighted_point(
                self.bases(),
                exponent as int,
                generator as int,
            ) && r@ != Pt::Infinity,
    {
        proof {
            use_type_invariant(self);
            assert(is_row(
                self.weighted_generators@,
                exponent * GENERATOR_COUNT,
                self.q@,
                self.s@,
                exponent as int,
            ));
            assert(weighted_point(self.s@, exponent as int, generator as int) != Pt::Infinity);
        }
        self.weighted_generators[exponent * GENERATOR_COUNT + generator]
    }

    /// The accumulator after the first word.
    pub fn first_accumulator(&self, generator: usize) -> (r: Affine<Pallas>)
        requires
            generator < GENERATOR_COUNT,
        ensures
            is_lawful(self.initial(), self.bases()) ==> r@ == first_point(
                self.initial(),
                self.bases(),
                N as int,
                generator as int,
            ) && r@ != Pt::Infinity,
    {
        proof {
            use_type_invariant(self);
            assert(first_point(self.q@, self.s@, N as int, generator as int) != Pt::Infinity);
        }
        self.weighted_generators[(N - 1) * GENERATOR_COUNT + generator]
    }

    /// The accumulator after the first two words.
    pub fn fused_first_two(&self, first: usize, second: usize) -> (r: Affine<Pallas>)
        requires
            N > 1,
            first < FUSED_FIRST_WORDS,
            second < GENERATOR_COUNT,
        ensures
            is_lawful(self.initial(), self.bases()) ==> r@ == plus::<Pallas>(
                first_point(self.initial(), self.bases(), N as int, first as int),
                weighted_point(self.bases(), N - 2, second as int),
            ),
    {
        proof {
            use_type_invariant(self);
            assert(is_fused_row(
                self.fused_first_two@,
                first * GENERATOR_COUNT,
                self.q@,
                self.s@,
                N as int,
                first as int,
            ));
        }
        self.fused_first_two[first * GENERATOR_COUNT + second]
    }

    /// The size of the tables in bytes.
    pub fn table_bytes(&self) -> (r: usize)
        ensures
            r == (N + (if N > 1 {
                FUSED_FIRST_WORDS as int
            } else {
                0
            })) * GENERATOR_COUNT * AFFINE_BYTES,
            N > 1 ==> r == (N + 8) * 0x1_0000,
            N <= 1 ==> r == N * 0x1_0000,
    {
        proof {
            use_type_invariant(self);
        }
        (self.weighted_generators.len() + self.fused_first_two.len()) * AFFINE_BYTES
    }

    /// The weighted evaluation of words.
    fn evaluate(&self, words: &[u16]) -> (r: Point<Pallas>)
        requires
            words@.len() == N,
            are_valid(words@),
        ensures
            is_lawful(self.initial(), self.bases()) ==> r@ == weighted_hash(
                self.initial(),
                self.bases(),
                word_ints(words@),
            ),
    {
        let ghost (q, s, n) = (self.initial(), self.bases(), N as int);
        let ghost ints = word_ints(words@);
        let ghost lawful = is_lawful(q, s);
        proof {
            use_type_invariant(self);
            lemma_word_ints(words@);
            if lawful {
                lemma_accumulator_first(q, s, n, ints);
            }
            assert(words@[0] < GENERATOR_COUNT);
        }
        let first = words[0] as usize;
        let mut i: usize = 1;
        let mut point = if N > 1 && first < FUSED_FIRST_WORDS {
            proof {
                assert(words@[1] < GENERATOR_COUNT);
                if lawful {
                    lemma_accumulator(q, s, n, ints, 1);
                }
            }
            i = 2;
            Point::from_affine(self.fused_first_two(first, words[1] as usize))
        } else {
            Point::from_affine(self.first_accumulator(first))
        };
        while i < N
            invariant
                1 <= i <= N,
                n == N,
                n <= C,
                words@.len() == N,
                are_valid(words@),
                q == self.initial(),
                s == self.bases(),
                ints == word_ints(words@),
                are_words(ints),
                lawful == is_lawful(q, s),
                lawful ==> point@ == accumulator(q, s, n, ints, i as int),
            decreases N - i,
        {
            assert(words@[i as int] < GENERATOR_COUNT);
            let entry = self.weighted_generator(N - i - 1, words[i] as usize);
            proof {
                if lawful {
                    lemma_accumulator(q, s, n, ints, i as int);
                }
            }
            point = point.add_affine(entry);
            i += 1;
        }
        point
    }

    /// The hash of words as a point.
    pub fn hash_words_to_point(&self, words: &[u16; N]) -> (r: Point<Pallas>)
        requires
            are_valid(words@),
        ensures
            is_lawful(self.initial(), self.bases()) ==> r@ == weighted_hash(
                self.initial(),
                self.bases(),
                word_ints(words@),
            ),
    {
        self.evaluate(words.as_slice())
    }

    /// The hash of words.
    pub fn hash_words(&self, words: &[u16; N]) -> (r: Fp)
        requires
            are_valid(words@),
        ensures
            is_lawful(self.initial(), self.bases()) ==> r@ == extracted(
                weighted_hash(self.initial(), self.bases(), word_ints(words@)),
            ),
    {
        extract(self.hash_words_to_point(words))
    }

    /// The hash of a message as a point, where the message has the number of words of the domain.
    pub fn hash_to_point(&self, msg: &Vec<bool>) -> (r: Point<Pallas>)
        requires
            word_count(msg@) == N,
        ensures
            is_lawful(self.initial(), self.bases()) ==> r@ == weighted_hash(
                self.initial(),
                self.bases(),
                words_of(msg@),
            ),
    {
        let words = message_words(msg);
        proof {
            assert(word_ints(words@) =~= words_of(msg@));
        }
        self.evaluate(words.as_slice())
    }

    /// The hash of a message, where the message has the number of words of the domain.
    pub fn hash(&self, msg: &Vec<bool>) -> (r: Fp)
        requires
            word_count(msg@) == N,
        ensures
            is_lawful(self.initial(), self.bases()) ==> r@ == extracted(
                weighted_hash(self.initial(), self.bases(), words_of(msg@)),
            ),
    {
        extract(self.hash_to_point(msg))
    }

    /// The accumulators of a batch after the words that the tables cover, and the number of
    /// these words.
    fn first_points(&self, messages: &[[u16; N]]) -> (r: (Vec<Affine<Pallas>>, usize))
        requires
            all_valid(messages@),
        ensures
            1 <= r.1 <= N,
            r.1 == covered(messages@),
            r.0@.len() == messages@.len(),
            is_lawful(self.initial(), self.bases()) ==> forall|k: int|
                0 <= k < messages@.len() ==> (#[trigger] r.0@[k])@ == accumulator(
                    self.initial(),
                    self.bases(),
                    N as int,
                    word_ints(messages@[k]@),
                    r.1 as int,
                ),
    {
        let ghost (q, s, n) = (self.initial(), self.bases(), N as int);
        let ghost lawful = is_lawful(q, s);
        proof {
            use_type_invariant(self);
        }
        let count = messages.len();
        let mut points: Vec<Affine<Pallas>> = Vec::new();
        if count == 0 {
            return (points, 1);
        }
        assert(are_valid(messages@[0]@));
        let first_word = messages[0][0];
        let mut shared_first = true;
        let mut k: usize = 1;
        while k < count
            invariant
                1 <= k <= count,
                count == messages@.len(),
                0 < N,
                shared_first <==> forall|j: int|
                    0 <= j < k ==> (#[trigger] messages@[j])@[0] == first_word,
            decreases count - k,
        {
            if messages[k][0] != first_word {
                assert(messages@[k as int]@[0] != first_word);
                shared_first = false;
            }
            k += 1;
        }
        let first = first_word as usize;
        assert(messages@[0]@[0] < GENERATOR_COUNT);
        let fused = N > 1 && shared_first && first < FUSED_FIRST_WORDS;
        let start: usize = if fused {
            2
        } else {
            1
        };
        assert(start == covered(messages@));
        k = 0;
        while k < count
            invariant
                k <= count,
                count == messages@.len(),
                n == N,
                0 < n <= C,
                q == self.initial(),
                s == self.bases(),
                lawful == is_lawful(q, s),
                all_valid(messages@),
                fused == (N > 1 && shared_first && first < FUSED_FIRST_WORDS),
                first == first_word,
                shared_first ==> forall|j: int|
                    0 <= j < count ==> (#[trigger] messages@[j])@[0] == first_word,
                start == if fused {
                    2int
                } else {
                    1
                },
                start == covered(messages@),
                points@.len() == k,
                lawful ==> forall|j: int|
                    0 <= j < k ==> (#[trigger] points@[j])@ == accumulator(
                        q,
                        s,
                        n,
                        word_ints(messages@[j]@),
                        start as int,
                    ),
            decreases count - k,
        {
            let ghost ints = word_ints(messages@[k as int]@);
            proof {
                assert(are_valid(messages@[k as int]@));
                lemma_word_ints(messages@[k as int]@);
                if lawful {
                    lemma_accumulator_first(q, s, n, ints);
                    if fused {
                        lemma_accumulator(q, s, n, ints, 1);
                    }
                }
                assert(messages@[k as int]@[0] < GENERATOR_COUNT);
                assert(fused ==> messages@[k as int]@[1] < GENERATOR_COUNT);
            }
            if fused {
                points.push(self.fused_first_two(first, messages[k][1] as usize));
            } else {
                points.push(self.first_accumulator(messages[k][0] as usize));
            }
            k += 1;
        }
        (points, start)
    }

    /// The weighted evaluation of a batch on affine accumulators, in lockstep: every column of
    /// additions shares one inversion. It fails where an accumulator meets a table point with
    /// the same first coordinate or the neutral element, which the chord does not cover.
    pub fn evaluate_batch_affine(
        &self,
        messages: &[[u16; N]],
        workspace: &mut BatchHashWorkspace,
    ) -> (r: bool)
        requires
            all_valid(messages@),
        ensures
            is_lawful(self.initial(), self.bases()) ==> (r <==> forall|k: int|
                0 <= k < messages@.len() ==> has_chords(
                    self.initial(),
                    self.bases(),
                    word_ints((#[trigger] messages@[k])@),
                    covered(messages@),
                    N as int,
                )),
            r ==> are_hashes(
                self.initial(),
                self.bases(),
                messages@,
                final(workspace).hashes_view(),
            ),
            r ==> are_points(
                self.initial(),
                self.bases(),
                messages@,
                final(workspace).hashes_view(),
                final(workspace).seconds_view(),
            ),
    {
        let ghost (q, s, n) = (self.initial(), self.bases(), N as int);
        let ghost lawful = is_lawful(q, s);
        proof {
            use_type_invariant(self);
        }
        let count = messages.len();
        let (first, start) = self.first_points(messages);
        workspace.xs.clear();
        workspace.ys.clear();
        let mut k: usize = 0;
        while k < count
            invariant
                k <= count,
                count == messages@.len(),
                n == N,
                q == self.initial(),
                s == self.bases(),
                lawful == is_lawful(q, s),
                start == covered(messages@),
                first@.len() == count,
                lawful ==> forall|j: int|
                    0 <= j < count ==> (#[trigger] first@[j])@ == accumulator(
                        q,
                        s,
                        n,
                        word_ints(messages@[j]@),
                        start as int,
                    ),
                workspace.xs@.len() == k,
                workspace.ys@.len() == k,
                forall|j: int|
                    0 <= j < k ==> (#[trigger] first@[j])@ == lane_point(
                        workspace.xs@,
                        workspace.ys@,
                        j,
                    ),
            decreases count - k,
        {
            let point = first[k];
            if point.is_identity() {
                proof {
                    assert(first@[k as int]@ == Pt::Infinity);
                    assert(lawful ==> !has_chords(
                        q,
                        s,
                        word_ints(messages@[k as int]@),
                        start as int,
                        n,
                    ));
                }
                return false;
            }
            workspace.xs.push(point.x);
            workspace.ys.push(point.y);
            k += 1;
        }
        proof {
            if lawful {
                assert forall|j: int| 0 <= j < count implies #[trigger] lane_point(
                    workspace.xs@,
                    workspace.ys@,
                    j,
                ) == accumulator(q, s, n, word_ints(messages@[j]@), start as int) by {
                    assert(first@[j]@ == lane_point(workspace.xs@, workspace.ys@, j));
                }
                assert forall|j: int| 0 <= j < count implies has_chords(
                    q,
                    s,
                    word_ints((#[trigger] messages@[j])@),
                    start as int,
                    start as int,
                ) by {
                    assert(lane_point(workspace.xs@, workspace.ys@, j) == accumulator(
                        q,
                        s,
                        n,
                        word_ints(messages@[j]@),
                        start as int,
                    ));
                }
            }
        }
        workspace.table_xs.resize(count, Fe::zero());
        workspace.table_ys.resize(count, Fe::zero());
        workspace.denominators.resize(count, Fe::zero());
        workspace.inversion_scratch.resize(count, Fe::zero());
        let mut i = start;
        while i < N
            invariant
                1 <= start <= i <= N,
                start == covered(messages@),
                lawful ==> forall|j: int|
                    0 <= j < count ==> has_chords(
                        q,
                        s,
                        word_ints((#[trigger] messages@[j])@),
                        start as int,
                        i as int,
                    ),
                count == messages@.len(),
                n == N,
                0 < n <= C,
                q == self.initial(),
                s == self.bases(),
                lawful == is_lawful(q, s),
                all_valid(messages@),
                workspace.xs@.len() == count,
                workspace.ys@.len() == count,
                workspace.table_xs@.len() == count,
                workspace.table_ys@.len() == count,
                workspace.denominators@.len() == count,
                workspace.inversion_scratch@.len() == count,
                lawful ==> forall|j: int|
                    0 <= j < count ==> #[trigger] lane_point(workspace.xs@, workspace.ys@, j)
                        == accumulator(q, s, n, word_ints(messages@[j]@), i as int),
            decreases N - i,
        {
            let exponent = N - i - 1;
            let ghost (xs, ys) = (workspace.xs@, workspace.ys@);
            k = 0;
            while k < count
                invariant
                    k <= count,
                    1 <= i < N,
                    exponent == n - i - 1,
                    count == messages@.len(),
                    n == N,
                    q == self.initial(),
                    s == self.bases(),
                    lawful == is_lawful(q, s),
                    all_valid(messages@),
                    workspace.xs@ == xs,
                    workspace.ys@ == ys,
                    xs.len() == count,
                    ys.len() == count,
                    workspace.table_xs@.len() == count,
                    workspace.table_ys@.len() == count,
                    workspace.denominators@.len() == count,
                    workspace.inversion_scratch@.len() == count,
                    forall|j: int|
                        0 <= j < k ==> (#[trigger] workspace.denominators@[j])@ == (
                        workspace.table_xs@[j]@ - xs[j]@) % PallasBase::p(),
                    lawful ==> forall|j: int|
                        0 <= j < k ==> #[trigger] lane_point(
                            workspace.table_xs@,
                            workspace.table_ys@,
                            j,
                        ) == weighted_point(s, n - i - 1, messages@[j]@[i as int] as int),
                decreases count - k,
            {
                proof {
                    assert(are_valid(messages@[k as int]@));
                    assert(messages@[k as int]@[i as int] < GENERATOR_COUNT);
                }
                let entry = self.weighted_generator(exponent, messages[k][i] as usize);
                let ghost (t0, u0) = (workspace.table_xs@, workspace.table_ys@);
                let difference = entry.x.sub(workspace.xs[k]);
                workspace.table_xs.set(k, entry.x);
                workspace.table_ys.set(k, entry.y);
                workspace.denominators.set(k, difference);
                proof {
                    if lawful {
                        assert forall|j: int| 0 <= j < k + 1 implies #[trigger] lane_point(
                            workspace.table_xs@,
                            workspace.table_ys@,
                            j,
                        ) == weighted_point(s, n - i - 1, messages@[j]@[i as int] as int) by {
                            if j < k {
                                assert(lane_point(t0, u0, j) == lane_point(
                                    workspace.table_xs@,
                                    workspace.table_ys@,
                                    j,
                                ));
                            }
                        }
                    }
                }
                k += 1;
            }
            let ghost (txs, tys) = (workspace.table_xs@, workspace.table_ys@);
            let ghost dens = workspace.denominators@;
            let ok = batch_invert_nonzero(
                &mut workspace.denominators,
                &mut workspace.inversion_scratch,
            );
            proof {
                assert forall|j: int| 0 <= j < count implies ((#[trigger] dens[j])@ == 0
                    <==> txs[j]@ == xs[j]@) by {
                    lemma_apart_residues(txs[j], xs[j]);
                }
                if lawful {
                    assert forall|j: int| 0 <= j < count implies (meets_no_exception(
                        q,
                        s,
                        word_ints(#[trigger] messages@[j]@),
                        i as int,
                    ) <==> dens[j]@ != 0) by {
                        assert(lane_point(txs, tys, j) == weighted_point(
                            s,
                            n - i - 1,
                            messages@[j]@[i as int] as int,
                        ));
                        assert(lane_point(xs, ys, j) == accumulator(
                            q,
                            s,
                            n,
                            word_ints(messages@[j]@),
                            i as int,
                        ));
                    }
                }
            }
            if !ok {
                proof {
                    let j = choose|j: int| 0 <= j < count && (#[trigger] dens[j])@ == 0;
                    assert(lawful ==> !meets_no_exception(
                        q,
                        s,
                        word_ints(messages@[j]@),
                        i as int,
                    ));
                    assert(lawful ==> !has_chords(
                        q,
                        s,
                        word_ints(messages@[j]@),
                        start as int,
                        n,
                    ));
                }
                return false;
            }
            proof {
                if lawful {
                    assert forall|j: int| 0 <= j < count implies has_chords(
                        q,
                        s,
                        word_ints((#[trigger] messages@[j])@),
                        start as int,
                        i + 1,
                    ) by {
                        assert(dens[j]@ != 0);
                        assert(has_chords(
                            q,
                            s,
                            word_ints(messages@[j]@),
                            start as int,
                            i as int,
                        ));
                    }
                }
            }
            k = 0;
            while k < count
                invariant
                    k <= count,
                    1 <= i < N,
                    count == messages@.len(),
                    n == N,
                    n <= C,
                    lawful == is_lawful(q, s),
                    all_valid(messages@),
                    xs.len() == count,
                    ys.len() == count,
                    dens.len() == count,
                    workspace.xs@.len() == count,
                    workspace.ys@.len() == count,
                    workspace.table_xs@ == txs,
                    workspace.table_ys@ == tys,
                    txs.len() == count,
                    tys.len() == count,
                    workspace.denominators@.len() == count,
                    workspace.inversion_scratch@.len() == count,
                    forall|j: int|
                        0 <= j < count ==> (#[trigger] dens[j])@ == (txs[j]@ - xs[j]@)
                            % PallasBase::p(),
                    forall|j: int|
                        0 <= j < count ==> is_inverse(
                            dens[j]@,
                            (#[trigger] workspace.denominators@[j])@,
                            PallasBase::p(),
                        ),
                    lawful ==> forall|j: int|
                        0 <= j < count ==> #[trigger] lane_point(txs, tys, j) == weighted_point(
                            s,
                            n - i - 1,
                            messages@[j]@[i as int] as int,
                        ),
                    lawful ==> forall|j: int|
                        0 <= j < count ==> #[trigger] lane_point(xs, ys, j) == accumulator(
                            q,
                            s,
                            n,
                            word_ints(messages@[j]@),
                            i as int,
                        ),
                    same_tail(workspace.xs@, xs, k as int),
                    same_tail(workspace.ys@, ys, k as int),
                    lawful ==> forall|j: int|
                        0 <= j < k ==> #[trigger] lane_point(workspace.xs@, workspace.ys@, j)
                            == accumulator(q, s, n, word_ints(messages@[j]@), i + 1),
                decreases count - k,
            {
                let ghost (x0, y0) = (workspace.xs@, workspace.ys@);
                proof {
                    assert(workspace.xs@[k as int] == xs[k as int]);
                    assert(dens[k as int]@ == (txs[k as int]@ - xs[k as int]@) % PallasBase::p());
                }
                let (x3, y3) = affine_add::<Pallas>(
                    workspace.xs[k],
                    workspace.ys[k],
                    workspace.table_xs[k],
                    workspace.table_ys[k],
                    workspace.denominators[k],
                );
                workspace.xs.set(k, x3);
                workspace.ys.set(k, y3);
                proof {
                    lemma_same_tail(x0, xs, k as int, x3);
                    lemma_same_tail(y0, ys, k as int, y3);
                    if lawful {
                        let ints = word_ints(messages@[k as int]@);
                        assert(are_valid(messages@[k as int]@));
                        lemma_word_ints(messages@[k as int]@);
                        lemma_accumulator(q, s, n, ints, i as int);
                        assert(lane_point(txs, tys, k as int) == weighted_point(
                            s,
                            n - i - 1,
                            ints[i as int],
                        ));
                        assert(lane_point(xs, ys, k as int) == accumulator(
                            q,
                            s,
                            n,
                            ints,
                            i as int,
                        ));
                        assert forall|j: int| 0 <= j < k + 1 implies #[trigger] lane_point(
                            workspace.xs@,
                            workspace.ys@,
                            j,
                        ) == accumulator(q, s, n, word_ints(messages@[j]@), i + 1) by {
                            if j < k {
                                assert(lane_point(x0, y0, j) == lane_point(
                                    workspace.xs@,
                                    workspace.ys@,
                                    j,
                                ));
                            }
                        }
                    }
                }
                k += 1;
            }
            i += 1;
        }
        proof {
            if lawful {
                assert forall|j: int| 0 <= j < count implies #[trigger] lane_point(
                    workspace.xs@,
                    workspace.ys@,
                    j,
                ) == weighted_hash(q, s, word_ints(messages@[j]@)) by {}
                assert forall|j: int| 0 <= j < count implies (#[trigger] workspace.xs@[j])@
                    == extracted(weighted_hash(q, s, word_ints(messages@[j]@))) by {
                    assert(are_valid(messages@[j]@));
                    lemma_word_ints(messages@[j]@);
                    lemma_accumulator_first(q, s, n, word_ints(messages@[j]@));
                    assert(lane_point(workspace.xs@, workspace.ys@, j) == accumulator(
                        q,
                        s,
                        n,
                        word_ints(messages@[j]@),
                        n,
                    ));
                }
            }
        }
        true
    }

    /// The weighted evaluation of a batch, position by position.
    fn evaluate_batch(&self, messages: &[[u16; N]], points: &mut Vec<Point<Pallas>>)
        requires
            all_valid(messages@),
        ensures
            final(points)@.len() == messages@.len(),
            is_lawful(self.initial(), self.bases()) ==> forall|k: int|
                0 <= k < messages@.len() ==> (#[trigger] final(points)@[k])@ == weighted_hash(
                    self.initial(),
                    self.bases(),
                    word_ints(messages@[k]@),
                ),
    {
        let ghost (q, s, n) = (self.initial(), self.bases(), N as int);
        let ghost lawful = is_lawful(q, s);
        proof {
            use_type_invariant(self);
        }
        let count = messages.len();
        let (first, start) = self.first_points(messages);
        points.clear();
        let mut k: usize = 0;
        while k < count
            invariant
                k <= count,
                first@.len() == count,
                points@.len() == k,
                forall|j: int| 0 <= j < k ==> (#[trigger] points@[j])@ == first@[j]@,
            decreases count - k,
        {
            points.push(Point::from_affine(first[k]));
            k += 1;
        }
        let mut i = start;
        while i < N
            invariant
                1 <= i <= N,
                count == messages@.len(),
                n == N,
                0 < n <= C,
                q == self.initial(),
                s == self.bases(),
                lawful == is_lawful(q, s),
                all_valid(messages@),
                points@.len() == count,
                lawful ==> forall|j: int|
                    0 <= j < count ==> (#[trigger] points@[j])@ == accumulator(
                        q,
                        s,
                        n,
                        word_ints(messages@[j]@),
                        i as int,
                    ),
            decreases N - i,
        {
            let exponent = N - i - 1;
            k = 0;
            while k < count
                invariant
                    k <= count,
                    1 <= i < N,
                    exponent == n - i - 1,
                    count == messages@.len(),
                    n == N,
                    n <= C,
                    q == self.initial(),
                    s == self.bases(),
                    lawful == is_lawful(q, s),
                    all_valid(messages@),
                    points@.len() == count,
                    lawful ==> forall|j: int|
                        0 <= j < count ==> (#[trigger] points@[j])@ == accumulator(
                            q,
                            s,
                            n,
                            word_ints(messages@[j]@),
                            if j < k {
                                i + 1
                            } else {
                                i as int
                            },
                        ),
                decreases count - k,
            {
                proof {
                    let words = messages@[k as int]@;
                    assert(are_valid(words));
                    assert(words[i as int] < GENERATOR_COUNT);
                    lemma_word_ints(words);
                    if lawful {
                        lemma_accumulator(q, s, n, word_ints(words), i as int);
                    }
                }
                let entry = self.weighted_generator(exponent, messages[k][i] as usize);
                let sum = points[k].add_affine(entry);
                points.set(k, sum);
                k += 1;
            }
            i += 1;
        }
        proof {
            if lawful {
                assert forall|j: int| 0 <= j < count implies (#[trigger] points@[j])@
                    == weighted_hash(q, s, word_ints(messages@[j]@)) by {
                    assert(are_valid(messages@[j]@));
                    lemma_word_ints(messages@[j]@);
                    lemma_accumulator_first(q, s, n, word_ints(messages@[j]@));
                }
            }
        }
    }

    /// The hashes of a batch of messages, kept in the storage.
    pub fn hash_words_batch_with_workspace<'a>(
        &self,
        messages: &[[u16; N]],
        workspace: &'a mut BatchHashWorkspace,
    ) -> (r: &'a [Fp])
        requires
            all_valid(messages@),
        ensures
            are_hashes(
                self.initial(),
                self.bases(),
                messages@,
                final(workspace).hashes_view(),
            ),
            r@ == final(workspace).hashes_view(),
    {
        if messages.len() >= BATCH_AFFINE_MIN_MESSAGES {
            if self.evaluate_batch_affine(messages, workspace) {
                return workspace.xs.as_slice();
            }
        }
        self.evaluate_batch(messages, &mut workspace.points);
        let ghost points = workspace.points@;
        let affine = batch_normalize(&workspace.points);
        workspace.xs.clear();
        let mut k: usize = 0;
        let ghost (q, s) = (self.initial(), self.bases());
        while k < affine.len()
            invariant
                k <= affine@.len(),
                affine@.len() == messages@.len(),
                points.len() == messages@.len(),
                forall|j: int| 0 <= j < points.len() ==> is_affine_of(#[trigger] affine@[j], points[j]@),
                is_lawful(q, s) ==> forall|j: int|
                    0 <= j < messages@.len() ==> (#[trigger] points[j])@ == weighted_hash(
                        q,
                        s,
                        word_ints(messages@[j]@),
                    ),
                workspace.xs@.len() == k,
                is_lawful(q, s) ==> forall|j: int|
                    0 <= j < k ==> (#[trigger] workspace.xs@[j])@ == extracted(
                        weighted_hash(q, s, word_ints(messages@[j]@)),
                    ),
            decreases affine@.len() - k,
        {
            let point = affine[k];
            if point.is_identity() {
                workspace.xs.push(Fe::zero());
            } else {
                workspace.xs.push(point.x);
            }
            proof {
                assert(is_affine_of(affine@[k as int], points[k as int]@));
                assert(is_lawful(q, s) ==> points[k as int]@ == weighted_hash(
                    q,
                    s,
                    word_ints(messages@[k as int]@),
                ));
            }
            k += 1;
        }
        workspace.xs.as_slice()
    }

    /// The hashes of a batch of messages.
    pub fn hash_words_batch(&self, messages: &[[u16; N]]) -> (r: Vec<Fp>)
        requires
            all_valid(messages@),
        ensures
            are_hashes(self.initial(), self.bases(), messages@, r@),
    {
        let mut workspace = BatchHashWorkspace::default();
        self.hash_words_batch_with_workspace(messages, &mut workspace);
        workspace.xs
    }
}

} // verus!

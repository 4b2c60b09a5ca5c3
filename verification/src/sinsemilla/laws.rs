//! What the hash of a message is: the bits that its words hold, and the sum of the generators that
//! they select.
use crate::curve::batch::are_apart;
use crate::curve::law::{
    ec_add, lemma_associative, lemma_closed, lemma_product, lemma_smul_closed, minus, on_curve, plus,
    smul, Pt,
};
use crate::curve::Pallas;
use crate::field::congruence::{congruent, lemma_congruent_difference, lemma_congruent_small};
use crate::field::{Fp, Modulus, PallasBase};
use crate::sinsemilla::domain::{
    are_words, bit_at, checked_hash, complete_hash, extracted, incomplete,
    lemma_checked_is_complete, lemma_complete_closed, partial_word, word_count, words_of,
    GENERATOR_COUNT,
};
use crate::sinsemilla::weighted::{
    accumulator, all_valid, are_hashes, are_valid, covered, first_point, has_chords, is_lawful,
    lemma_accumulator_closed, lemma_doubled, lemma_take_words, lemma_weighted_is_complete,
    meets_no_exception, weighted_hash, weighted_point, word_ints,
};
use vstd::arithmetic::div_mod::lemma_hoist_over_denominator;
use vstd::arithmetic::power2::{lemma2_to64, lemma_pow2_adds, lemma_pow2_pos, pow2};
use vstd::prelude::*;

verus! {

/// The digits of a partial word are the bits that it sums up.
proof fn lemma_partial_digits(bits: Seq<bool>, start: int, count: nat, b: nat)
    requires
        b < count,
    ensures
        0 <= partial_word(bits, start, count) < pow2(count),
        (partial_word(bits, start, count) / pow2(b) as int) % 2 == bit_at(bits, start + b),
    decreases count,
{
    lemma2_to64();
    let c = (count - 1) as nat;
    let (low, bit, w) = (
        partial_word(bits, start, c),
        bit_at(bits, start + c),
        pow2(c) as int,
    );
    lemma_pow2_adds(1, c);
    lemma_pow2_pos(c);
    lemma_pow2_pos(b);
    assert(0 * w == 0 && 1 * w == w);
    if c == 0 {
        assert(low == 0 && w == 1);
        assert(partial_word(bits, start, count) == bit);
        assert(bit / 1 == bit);
    } else if b < c {
        lemma_partial_digits(bits, start, c, b);
        let (d, e) = (pow2(b) as int, (c - b - 1) as nat);
        lemma_pow2_adds(b, (c - b) as nat);
        lemma_pow2_adds(1, e);
        let m = 2 * pow2(e) as int;
        assert(w == m * d) by (nonlinear_arith)
            requires
                w == d * m,
        ;
        assert(bit * w == (bit * m) * d) by (nonlinear_arith)
            requires
                w == m * d,
        ;
        lemma_hoist_over_denominator(low, bit * m, d as nat);
        let (k, h) = (bit * pow2(e) as int, pow2(e) as int);
        assert(bit * m == 2 * k) by (nonlinear_arith)
            requires
                m == 2 * h,
                k == bit * h,
        ;
        assert(partial_word(bits, start, count) / d == low / d + 2 * k);
    } else {
        lemma_partial_digits(bits, start, c, 0);
        lemma_hoist_over_denominator(low, bit, w as nat);
        vstd::arithmetic::div_mod::lemma_basic_div(low, w);
    }
}

/// The words of a message hold its bits: bit `b` of word `i` is bit `10 i + b` of the message,
/// and zero behind its end. There are as many words as it takes, and each has ten bits.
pub proof fn lemma_words_hold_the_bits(bits: Seq<bool>, i: int, b: nat)
    requires
        0 <= i < words_of(bits).len(),
        b < 10,
    ensures
        10 * words_of(bits).len() - 10 < bits.len() <= 10 * words_of(bits).len(),
        0 <= words_of(bits)[i] < 1024,
        (words_of(bits)[i] / pow2(b) as int) % 2 == if 10 * i + b < bits.len() && bits[10 * i + b] {
            1int
        } else {
            0
        },
{
    lemma2_to64();
    lemma_partial_digits(bits, 10 * i, 10, b);
}

/// The words of a message are as many as it takes to hold its bits.
pub proof fn lemma_words_suffice(bits: Seq<bool>)
    ensures
        bits.len() <= 10 * words_of(bits).len() < bits.len() + 10,
        are_words(words_of(bits)),
{
    let words = words_of(bits);
    assert forall|i: int| 0 <= i < words.len() implies 0 <= #[trigger] words[i]
        < GENERATOR_COUNT by {
        lemma_words_hold_the_bits(bits, i, 0);
    }
}

/// Partial words of messages with the same bits are equal.
proof fn lemma_partial_equal(a: Seq<bool>, b: Seq<bool>, start: int, count: nat)
    requires
        forall|i: int| start <= i < start + count ==> #[trigger] bit_at(a, i) == bit_at(b, i),
    ensures
        partial_word(a, start, count) == partial_word(b, start, count),
    decreases count,
{
    if count > 0 {
        lemma_partial_equal(a, b, start, (count - 1) as nat);
        assert(bit_at(a, start + count - 1) == bit_at(b, start + count - 1));
    }
}

/// A message is hashed like the message with false bits appended up to a multiple of ten: it has
/// the same words, and so the same hash, with incomplete additions and by weighted generators.
pub proof fn lemma_padding(q: Pt, s: Seq<Pt>, bits: Seq<bool>, padded: Seq<bool>)
    requires
        padded.len() % 10 == 0,
        bits.len() <= padded.len() < bits.len() + 10,
        forall|i: int| 0 <= i < bits.len() ==> #[trigger] padded[i] == bits[i],
        forall|i: int| bits.len() <= i < padded.len() ==> !(#[trigger] padded[i]),
    ensures
        words_of(bits) == words_of(padded),
        checked_hash(q, s, words_of(bits)) == checked_hash(q, s, words_of(padded)),
        weighted_hash(q, s, words_of(bits)) == weighted_hash(q, s, words_of(padded)),
{
    assert(word_count(bits) == word_count(padded));
    assert forall|i: int| 0 <= i < word_count(bits) implies words_of(bits)[i] == words_of(
        padded,
    )[i] by {
        assert forall|k: int| 10 * i <= k < 10 * i + 10 implies #[trigger] bit_at(bits, k)
            == bit_at(padded, k) by {}
        lemma_partial_equal(bits, padded, 10 * i, 10);
    }
    assert(words_of(bits) =~= words_of(padded));
}

/// Messages of one length with different bits have different words.
pub proof fn lemma_words_differ(a: Seq<bool>, b: Seq<bool>)
    requires
        a.len() == b.len(),
        words_of(a) == words_of(b),
    ensures
        a == b,
{
    assert forall|k: int| 0 <= k < a.len() implies a[k] == b[k] by {
        let (i, d) = (k / 10, (k % 10) as nat);
        lemma_words_suffice(a);
        lemma_words_hold_the_bits(a, i, d);
        lemma_words_hold_the_bits(b, i, d);
        assert(10 * i + d == k);
    }
    assert(a =~= b);
}

/// The words of two messages, the first of which fills its words, are those of the first and then
/// those of the second.
pub proof fn lemma_words_join(a: Seq<bool>, b: Seq<bool>)
    requires
        a.len() % 10 == 0,
    ensures
        words_of(a + b) == words_of(a) + words_of(b),
{
    let all = a + b;
    let n = a.len() as int / 10;
    assert(word_count(all) == n + word_count(b));
    assert forall|i: int| 0 <= i < word_count(all) implies words_of(all)[i] == (words_of(a)
        + words_of(b))[i] by {
        if i < n {
            assert forall|k: int| 10 * i <= k < 10 * i + 10 implies #[trigger] bit_at(all, k)
                == bit_at(a, k) by {}
            lemma_partial_equal(all, a, 10 * i, 10);
        } else {
            lemma_partial_shift(a, b, 10 * (i - n), 10);
            assert(a.len() + 10 * (i - n) == 10 * i);
        }
    }
    assert(words_of(all) =~= words_of(a) + words_of(b));
}

/// A partial word behind a message.
proof fn lemma_partial_shift(a: Seq<bool>, b: Seq<bool>, start: int, count: nat)
    requires
        start >= 0,
    ensures
        partial_word(a + b, a.len() + start, count) == partial_word(b, start, count),
    decreases count,
{
    if count > 0 {
        lemma_partial_shift(a, b, start, (count - 1) as nat);
        assert(bit_at(a + b, a.len() + start + count - 1) == bit_at(b, start + count - 1));
    }
}

/// The sum of the generators of the first `i` words, each with the power of two of the number of
/// words behind it.
pub open spec fn selected_sum(s: Seq<Pt>, words: Seq<int>, i: nat) -> Pt
    decreases i,
{
    if i == 0 {
        Pt::Infinity
    } else {
        plus::<Pallas>(
            selected_sum(s, words, (i - 1) as nat),
            smul::<Pallas>(pow2((words.len() - i) as nat) as int, s[words[i - 1]]),
        )
    }
}

/// The sums of selected generators are on the curve.
proof fn lemma_selected_closed(q: Pt, s: Seq<Pt>, words: Seq<int>, i: nat)
    requires
        is_lawful(q, s),
        are_words(words),
        i <= words.len(),
    ensures
        on_curve::<Pallas>(selected_sum(s, words, i)),
    decreases i,
{
    if i > 0 {
        lemma_selected_closed(q, s, words, (i - 1) as nat);
        assert(0 <= words[i - 1] < GENERATOR_COUNT);
        let k = pow2((words.len() - i) as nat) as int;
        lemma_smul_closed::<Pallas>(k, s[words[i - 1]]);
        lemma_closed::<Pallas>(
            selected_sum(s, words, (i - 1) as nat),
            smul::<Pallas>(k, s[words[i - 1]]),
        );
    }
}

/// The accumulators of the weighted evaluation are sums of selected generators.
proof fn lemma_accumulator_sum(q: Pt, s: Seq<Pt>, words: Seq<int>, i: nat)
    requires
        is_lawful(q, s),
        are_words(words),
        i <= words.len(),
    ensures
        accumulator(q, s, words.len() as int, words, i as int) == plus::<Pallas>(
            smul::<Pallas>(pow2(words.len()) as int, q),
            selected_sum(s, words, i),
        ),
    decreases i,
{
    let n = words.len();
    let start = smul::<Pallas>(pow2(n) as int, q);
    lemma_doubled(q, n);
    lemma_smul_closed::<Pallas>(pow2(n) as int, q);
    if i == 0 {
        reveal(ec_add);
    } else {
        let j = (i - 1) as nat;
        lemma_accumulator_sum(q, s, words, j);
        lemma_selected_closed(q, s, words, j);
        assert(0 <= words[j as int] < GENERATOR_COUNT);
        let e = (n - i) as nat;
        lemma_doubled(s[words[j as int]], e);
        lemma_smul_closed::<Pallas>(pow2(e) as int, s[words[j as int]]);
        lemma_associative::<Pallas>(
            start,
            selected_sum(s, words, j),
            smul::<Pallas>(pow2(e) as int, s[words[j as int]]),
        );
    }
}

/// The hash of words is `2^n Q + 2^(n-1) S[w_0] + ... + S[w_(n-1)]`: by weighted generators, by
/// doubling and adding, and with incomplete additions wherever these are defined.
pub proof fn lemma_hash_is_the_sum(q: Pt, s: Seq<Pt>, words: Seq<int>)
    requires
        is_lawful(q, s),
        are_words(words),
    ensures
        weighted_hash(q, s, words) == plus::<Pallas>(
            smul::<Pallas>(pow2(words.len()) as int, q),
            selected_sum(s, words, words.len()),
        ),
        complete_hash(q, s, words) == weighted_hash(q, s, words),
        checked_hash(q, s, words) matches Some(p) ==> p == weighted_hash(q, s, words),
{
    lemma_accumulator_sum(q, s, words, words.len());
    lemma_weighted_is_complete(q, s, words);
    lemma_checked_is_complete(q, s, words);
}

/// Points of the curve with one first coordinate are equal or opposite.
proof fn lemma_same_first(a: Pt, b: Pt)
    requires
        on_curve::<Pallas>(a),
        on_curve::<Pallas>(b),
        a is At,
        b is At,
        a->x == b->x,
    ensures
        a == b || a == minus::<Pallas>(b),
{
    let p = PallasBase::p();
    PallasBase::lemma_modulus();
    let (x, y1, y2) = (a->x, a->y, b->y);
    // (y1 - y2) (y1 + y2) = 0
    assert(congruent(y1 * y1, y2 * y2, p));
    lemma_congruent_difference(y1 * y1, y2 * y2, p);
    assert(y1 * y1 - y2 * y2 == (y1 - y2) * (y1 - (-y2))) by (nonlinear_arith);
    lemma_product::<PallasBase>(y1 - y2, y1 - (-y2));
    if (y1 - y2) % p == 0 {
        lemma_congruent_difference(y1, y2, p);
        lemma_congruent_small(y1, y2, p);
    } else {
        lemma_congruent_difference(y1, -y2, p);
        crate::field::congruence::lemma_congruent_mod(-y2, p);
        lemma_congruent_small(y1, (-y2) % p, p);
    }
}

/// An incomplete addition is defined exactly for points that are not neutral, equal or opposite,
/// and gives their sum.
pub proof fn lemma_incomplete(a: Pt, b: Pt)
    requires
        on_curve::<Pallas>(a),
        on_curve::<Pallas>(b),
    ensures
        incomplete(a, b) is Some <==> a != Pt::Infinity && b != Pt::Infinity && a != b && a
            != minus::<Pallas>(b),
        incomplete(a, b) matches Some(p) ==> p == plus::<Pallas>(a, b),
{
    if a is At && b is At && a->x == b->x {
        lemma_same_first(a, b);
    }
}

/// The hash with incomplete additions is defined exactly if no step adds points that are neutral,
/// equal or opposite: with `a` the hash of the words before, `S` is added to `a`, and `a` to the
/// sum.
pub proof fn lemma_hash_is_defined(q: Pt, s: Seq<Pt>, words: Seq<int>)
    requires
        is_lawful(q, s),
        are_words(words),
    ensures
        checked_hash(q, s, words) is Some <==> forall|i: int|
            0 <= i < words.len() ==> is_regular_step(
                weighted_hash(q, s, #[trigger] words.take(i)),
                s[words[i]],
            ),
    decreases words.len(),
{
    if words.len() > 0 {
        let n = words.len() - 1;
        let front = words.drop_last();
        assert(front =~= words.take(n));
        lemma_take_words(words, n);
        lemma_hash_is_defined(q, s, front);
        lemma_hash_is_the_sum(q, s, front);
        lemma_complete_closed(q, s, front);
        assert(0 <= words[n] < GENERATOR_COUNT);
        let (a, g) = (weighted_hash(q, s, front), s[words[n]]);
        lemma_incomplete(a, g);
        lemma_closed::<Pallas>(a, g);
        lemma_incomplete(plus::<Pallas>(a, g), a);
        assert forall|i: int| 0 <= i < front.len() implies #[trigger] front.take(i) == words.take(
            i,
        ) && front[i] == words[i] by {
            assert(front.take(i) =~= words.take(i));
        }
        if checked_hash(q, s, words) is Some {
            assert(checked_hash(q, s, front) is Some);
            assert forall|i: int| 0 <= i < words.len() implies is_regular_step(
                weighted_hash(q, s, #[trigger] words.take(i)),
                s[words[i]],
            ) by {
                if i < n {
                    assert(is_regular_step(weighted_hash(q, s, front.take(i)), s[front[i]]));
                }
            }
        }
        if forall|i: int|
            0 <= i < words.len() ==> is_regular_step(
                weighted_hash(q, s, #[trigger] words.take(i)),
                s[words[i]],
            ) {
            assert forall|i: int| 0 <= i < front.len() implies is_regular_step(
                weighted_hash(q, s, #[trigger] front.take(i)),
                s[front[i]],
            ) by {
                assert(is_regular_step(weighted_hash(q, s, words.take(i)), s[words[i]]));
            }
            assert(is_regular_step(weighted_hash(q, s, words.take(n)), s[words[n]]));
        }
    }
}

/// Neither addition of a step of the hash is exceptional.
pub open spec fn is_regular_step(a: Pt, g: Pt) -> bool {
    &&& a != Pt::Infinity
    &&& g != Pt::Infinity
    &&& a != g
    &&& a != minus::<Pallas>(g)
    &&& plus::<Pallas>(a, g) != a
    &&& plus::<Pallas>(a, g) != minus::<Pallas>(a)
    &&& plus::<Pallas>(a, g) != Pt::Infinity
}

/// Every list of words below 1024 can be hashed, alone and in a batch.
pub proof fn lemma_valid_words<const N: usize>(messages: Seq<[u16; N]>)
    ensures
        all_valid(messages) <==> forall|k: int, i: int|
            0 <= k < messages.len() && 0 <= i < N ==> #[trigger] messages[k]@[i] < 1024,
        forall|words: Seq<u16>| #[trigger]
            are_valid(words) <==> forall|i: int| 0 <= i < words.len() ==> #[trigger] words[i] < 1024,
{
    if all_valid(messages) {
        assert forall|k: int, i: int| 0 <= k < messages.len() && 0 <= i < N implies #[trigger]
            messages[k]@[i] < 1024 by {
            assert(are_valid(messages[k]@));
        }
    }
    if forall|k: int, i: int|
        0 <= k < messages.len() && 0 <= i < N ==> #[trigger] messages[k]@[i] < 1024 {
        assert forall|k: int| 0 <= k < messages.len() implies are_valid((#[trigger] messages[k])@) by {
            assert forall|i: int| 0 <= i < N implies #[trigger] messages[k]@[i] < GENERATOR_COUNT by {}
        }
    }
}

/// A weighted generator is its multiple by two to the number of words behind it, and the
/// accumulator after the first of `n` words adds it to two to the `n` times the initial point.
pub proof fn lemma_weighted_points(q: Pt, s: Seq<Pt>, n: int, e: int, j: int)
    requires
        is_lawful(q, s),
        0 <= e,
        1 <= n,
        0 <= j < 1024,
    ensures
        weighted_point(s, e, j) == smul::<Pallas>(pow2(e as nat) as int, s[j]),
        first_point(q, s, n, j) == plus::<Pallas>(
            smul::<Pallas>(pow2(n as nat) as int, q),
            smul::<Pallas>(pow2((n - 1) as nat) as int, s[j]),
        ),
{
    assert(on_curve::<Pallas>(s[j]));
    lemma_doubled(s[j], e as nat);
    lemma_doubled(s[j], (n - 1) as nat);
    lemma_doubled(q, n as nat);
}

/// Points of the curve have different first coordinates exactly if neither is neutral and they
/// are neither equal nor opposite.
pub proof fn lemma_points_apart(a: Pt, b: Pt)
    requires
        on_curve::<Pallas>(a),
        on_curve::<Pallas>(b),
    ensures
        are_apart(a, b) <==> a != Pt::Infinity && b != Pt::Infinity && a != b && a
            != minus::<Pallas>(b),
{
    if a is At && b is At && a->x == b->x {
        lemma_same_first(a, b);
    }
}

/// Chords lead from one accumulator to another exactly where the first is not neutral and each
/// step adds a weighted generator that is not neutral and neither equal nor opposite to the
/// accumulator before it.
pub proof fn lemma_chords(q: Pt, s: Seq<Pt>, words: Seq<int>, start: int, end: int)
    requires
        is_lawful(q, s),
        are_words(words),
        0 <= start <= end <= words.len(),
    ensures
        has_chords(q, s, words, start, end) <==> accumulator(
            q,
            s,
            words.len() as int,
            words,
            start,
        ) != Pt::Infinity && forall|i: int|
            start <= i < end ==> {
                let a = #[trigger] accumulator(q, s, words.len() as int, words, i);
                let g = smul::<Pallas>(pow2((words.len() - i - 1) as nat) as int, s[words[i]]);
                a != Pt::Infinity && g != Pt::Infinity && a != g && a != minus::<Pallas>(g)
            },
{
    assert forall|i: int| start <= i < end implies (#[trigger] meets_no_exception(q, s, words, i)
        <==> {
        let a = accumulator(q, s, words.len() as int, words, i);
        let g = smul::<Pallas>(pow2((words.len() - i - 1) as nat) as int, s[words[i]]);
        a != Pt::Infinity && g != Pt::Infinity && a != g && a != minus::<Pallas>(g)
    }) by {
        let n = words.len() as int;
        assert(0 <= words[i] < GENERATOR_COUNT);
        lemma_weighted_points(q, s, 1, n - i - 1, words[i]);
        lemma_smul_closed::<Pallas>(pow2((n - i - 1) as nat) as int, s[words[i]]);
        lemma_accumulator_closed(q, s, n, words, i);
        lemma_points_apart(accumulator(q, s, n, words, i), weighted_point(s, n - i - 1, words[i]));
    }
    if has_chords(q, s, words, start, end) {
        assert forall|i: int| start <= i < end implies {
            let a = #[trigger] accumulator(q, s, words.len() as int, words, i);
            let g = smul::<Pallas>(pow2((words.len() - i - 1) as nat) as int, s[words[i]]);
            a != Pt::Infinity && g != Pt::Infinity && a != g && a != minus::<Pallas>(g)
        } by {
            assert(meets_no_exception(q, s, words, i));
        }
    }
}

/// All messages begin with the word.
pub open spec fn begin_with<const N: usize>(messages: Seq<[u16; N]>, word: u16) -> bool {
    forall|k: int| 0 <= k < messages.len() ==> (#[trigger] messages[k])@[0] == word
}

/// The tables cover two words of a batch exactly where all messages begin with the same one of
/// the words zero to seven and have a second word, and one word otherwise.
pub proof fn lemma_covered_words<const N: usize>(messages: Seq<[u16; N]>)
    requires
        N >= 1,
        messages.len() > 0,
    ensures
        covered(messages) == 1 || covered(messages) == 2,
        covered(messages) == 2 <==> N >= 2 && exists|word: u16|
            word <= 7 && #[trigger] begin_with(messages, word),
{
    if covered(messages) == 2 {
        assert(begin_with(messages, messages[0]@[0]));
    }
    if N >= 2 && exists|word: u16| word <= 7 && #[trigger] begin_with(messages, word) {
        let word = choose|word: u16| word <= 7 && #[trigger] begin_with(messages, word);
        assert(messages[0]@[0] == word);
    }
}

/// The words of a message are numbers of ten bits.
pub proof fn lemma_words_bound(bits: Seq<bool>, i: int)
    requires
        0 <= i < words_of(bits).len(),
    ensures
        0 <= words_of(bits)[i] < 1024,
{
    lemma2_to64();
    lemma_partial_digits(bits, 10 * i, 10, 0);
}

/// The coordinate that is extracted from a point other than the neutral element is its first
/// one; such points share it exactly with their negatives.
pub proof fn lemma_extraction(a: Pt, b: Pt)
    requires
        on_curve::<Pallas>(a),
        on_curve::<Pallas>(b),
        a != Pt::Infinity,
        b != Pt::Infinity,
    ensures
        a matches Pt::At { x, y } && x == extracted(a),
        extracted(Pt::Infinity) == 0,
        extracted(a) == extracted(b) <==> b == a || b == minus::<Pallas>(a),
{
    if extracted(a) == extracted(b) {
        lemma_same_first(b, a);
    }
}

/// A domain is lawful exactly where its initial point and its 1024 generators are on the curve.
pub proof fn lemma_lawful_domains(q: Pt, s: Seq<Pt>)
    ensures
        is_lawful(q, s) <==> on_curve::<Pallas>(q) && s.len() == 1024 && forall|i: int|
            0 <= i < 1024 ==> on_curve::<Pallas>(#[trigger] s[i]),
{
}

/// Words select a generator exactly where they are below 1024.
pub proof fn lemma_selecting_words(words: Seq<int>)
    ensures
        are_words(words) <==> forall|i: int|
            0 <= i < words.len() ==> 0 <= #[trigger] words[i] < 1024,
{
}

/// A message takes as many words of ten bits as hold all of its bits.
pub proof fn lemma_word_count(bits: Seq<bool>)
    ensures
        word_count(bits) == words_of(bits).len(),
        10 * word_count(bits) >= bits.len() > 10 * (word_count(bits) - 1),
{
}

/// A batch gives the first coordinates of the sums that its messages have one by one.
pub proof fn lemma_batches_of_hashes<const N: usize>(
    q: Pt,
    s: Seq<Pt>,
    messages: Seq<[u16; N]>,
    hashes: Seq<Fp>,
    k: int,
)
    requires
        is_lawful(q, s),
        are_hashes(q, s, messages, hashes),
        0 <= k < messages.len(),
        forall|i: int| 0 <= i < N ==> #[trigger] messages[k]@[i] < 1024,
    ensures
        hashes.len() == messages.len(),
        hashes[k]@ == match plus::<Pallas>(
            smul::<Pallas>(pow2(N as nat) as int, q),
            selected_sum(s, Seq::new(N as nat, |i: int| messages[k]@[i] as int), N as nat),
        ) {
            Pt::Infinity => 0,
            Pt::At { x, y } => x,
        },
{
    let words = Seq::new(N as nat, |i: int| messages[k]@[i] as int);
    assert(word_ints(messages[k]@) =~= words);
    assert(are_words(words));
    lemma_hash_is_the_sum(q, s, words);
}

} // verus!

//! The chunks and segments of a message.
use crate::field::congruence::{congruent, lemma_congruent_mod, lemma_congruent_ops};
use crate::pedersen::edwards::{
    are_generators, ed_add, in_subgroup, lemma_ed_associative, lemma_ed_closed,
    lemma_neutral_on_curve, lemma_zmul_add, lemma_zmul_closed, neutral, on_edwards, subgroup_order,
    zmul,
};
use crate::pedersen::points::{
    scalar_double, scalar_one, scalar_opposite, scalar_sum, scalar_value, scalar_zero,
};
use crate::sinsemilla::domain::bit_at;
use vstd::arithmetic::power2::{lemma2_to64, lemma_pow2_adds, pow2};
use vstd::prelude::*;

verus! {

/// The number of chunks of a segment: every segment has a generator.
pub const PEDERSEN_HASH_CHUNKS_PER_GENERATOR: usize = 63;

/// The number of chunks of a message: three bits each, with zeros behind the end.
pub open spec fn chunk_count(bits: Seq<bool>) -> int {
    (bits.len() + 2) as int / 3
}

/// The number of segments of a message.
pub open spec fn segment_count(bits: Seq<bool>) -> int {
    (chunk_count(bits) + 62) / 63
}

/// The number of chunks of a segment of a message.
pub open spec fn segment_len(bits: Seq<bool>, g: int) -> int {
    if chunk_count(bits) - 63 * g < 63 {
        chunk_count(bits) - 63 * g
    } else {
        63
    }
}

/// The coefficient of a chunk: one to four by its first two bits, with the sign of its third.
pub open spec fn coefficient(bits: Seq<bool>, c: int) -> int {
    (1 - 2 * bit_at(bits, 3 * c + 2)) * (1 + bit_at(bits, 3 * c) + 2 * bit_at(bits, 3 * c + 1))
}

/// The sum of the coefficients of chunks with the powers of sixteen.
pub open spec fn partial_segment(bits: Seq<bool>, start: int, count: nat) -> int
    decreases count,
{
    if count == 0 {
        0
    } else {
        let j = (count - 1) as nat;
        partial_segment(bits, start, j) + coefficient(bits, start + j) * pow2(4 * j)
    }
}

/// The factor of the generator of a segment.
pub open spec fn segment_value(bits: Seq<bool>, g: int) -> int {
    partial_segment(bits, 63 * g, segment_len(bits, g) as nat)
}

/// The sum of the first segments.
pub open spec fn segment_sum(bits: Seq<bool>, gens: Seq<(int, int)>, k: nat) -> (int, int)
    decreases k,
{
    if k == 0 {
        neutral()
    } else {
        let g = (k - 1) as nat;
        ed_add(segment_sum(bits, gens, g), zmul(segment_value(bits, g as int), gens[g as int]))
    }
}

/// The Pedersen hash of a message: the sum of the generators with the factors of their segments.
pub open spec fn pedersen_point(bits: Seq<bool>, gens: Seq<(int, int)>) -> (int, int) {
    segment_sum(bits, gens, segment_count(bits) as nat)
}

/// A false bit behind the end leaves every bit as it is.
proof fn lemma_false_bit(bits: Seq<bool>, i: int)
    ensures
        bit_at(bits.push(false), i) == bit_at(bits, i),
{
}

/// Chunks of one message and of the message with a false bit have one coefficient.
proof fn lemma_false_partial(bits: Seq<bool>, start: int, count: nat)
    ensures
        partial_segment(bits.push(false), start, count) == partial_segment(bits, start, count),
    decreases count,
{
    if count > 0 {
        let j = (count - 1) as nat;
        lemma_false_partial(bits, start, j);
        lemma_false_bit(bits, 3 * (start + j));
        lemma_false_bit(bits, 3 * (start + j) + 1);
        lemma_false_bit(bits, 3 * (start + j) + 2);
    }
}

/// The sums of the segments that a false bit leaves as long as they are.
proof fn lemma_false_sum(bits: Seq<bool>, gens: Seq<(int, int)>, k: nat)
    requires
        forall|g: int|
            0 <= g < k ==> segment_len(bits.push(false), g) == #[trigger] segment_len(bits, g),
    ensures
        segment_sum(bits.push(false), gens, k) == segment_sum(bits, gens, k),
    decreases k,
{
    if k > 0 {
        let g = (k - 1) as nat;
        lemma_false_sum(bits, gens, g);
        assert(segment_len(bits.push(false), g as int) == segment_len(bits, g as int));
        lemma_false_partial(bits, 63 * g as int, segment_len(bits, g as int) as nat);
    }
}

/// Sums of segments are on the curve.
proof fn lemma_sum_closed(bits: Seq<bool>, gens: Seq<(int, int)>, k: nat)
    requires
        are_generators(gens),
        k <= gens.len(),
    ensures
        on_edwards(segment_sum(bits, gens, k)),
    decreases k,
{
    if k == 0 {
        lemma_neutral_on_curve();
    } else {
        let g = (k - 1) as nat;
        lemma_sum_closed(bits, gens, g);
        assert(in_subgroup(gens[g as int]));
        lemma_zmul_closed(segment_value(bits, g as int), gens[g as int]);
        lemma_ed_closed(
            segment_sum(bits, gens, g),
            zmul(segment_value(bits, g as int), gens[g as int]),
        );
    }
}

/// What one more false bit does to a hash: inside a chunk it changes nothing, since chunks are
/// filled up with zeros, and behind a full chunk it opens a new one, whose weight of its generator
/// is added.
pub proof fn lemma_one_more_false_bit(bits: Seq<bool>, gens: Seq<(int, int)>)
    requires
        are_generators(gens),
        segment_count(bits.push(false)) <= gens.len(),
    ensures
        bits.len() % 3 != 0 ==> pedersen_point(bits.push(false), gens) == pedersen_point(bits, gens),
        bits.len() % 3 == 0 ==> {
            let t = bits.len() as int / 3;
            pedersen_point(bits.push(false), gens) == ed_add(
                pedersen_point(bits, gens),
                zmul(pow2((4 * (t % 63)) as nat) as int, gens[t / 63]),
            )
        },
{
    let more = bits.push(false);
    if bits.len() % 3 != 0 {
        assert(chunk_count(more) == chunk_count(bits));
        assert forall|g: int| 0 <= g < segment_count(bits) implies segment_len(more, g)
            == #[trigger] segment_len(bits, g) by {}
        lemma_false_sum(bits, gens, segment_count(bits) as nat);
    } else {
        let t = bits.len() as int / 3;
        let (g, j) = (t / 63, t % 63);
        assert(chunk_count(bits) == t && chunk_count(more) == t + 1);
        assert(segment_count(more) == g + 1);
        assert forall|h: int| 0 <= h < g implies segment_len(more, h)
            == #[trigger] segment_len(bits, h) by {}
        lemma_false_sum(bits, gens, g as nat);
        lemma_false_partial(bits, 63 * g, j as nat);
        assert(segment_len(more, g) == j + 1);
        let (b0, b1, b2) = (bit_at(more, 3 * t), bit_at(more, 3 * t + 1), bit_at(more, 3 * t + 2));
        assert((1 - 2 * b2) * (1 + b0 + 2 * b1) == 1) by (nonlinear_arith)
            requires
                b0 == 0,
                b1 == 0,
                b2 == 0,
        ;
        assert(coefficient(more, t) == 1);
        let (x, w) = (partial_segment(bits, 63 * g, j as nat), pow2((4 * j) as nat) as int);
        assert(63 * g + j == t);
        assert(4 * (j as nat) == (4 * j) as nat);
        assert(segment_value(more, g) == x + 1 * w);
        let (sum, gen) = (segment_sum(bits, gens, g as nat), gens[g]);
        assert(pedersen_point(more, gens) == ed_add(sum, zmul(x + w, gen)));
        assert(in_subgroup(gens[g]));
        if j == 0 {
            assert(segment_count(bits) == g);
            assert(x == 0);
        } else {
            assert(segment_count(bits) == g + 1);
            assert(segment_len(bits, g) == j);
            lemma_zmul_add(x, w, gen);
            lemma_sum_closed(bits, gens, g as nat);
            lemma_ed_associative(sum, zmul(x, gen), zmul(w, gen));
        }
    }
}

/// A chunk within a message does not depend on what is behind it.
proof fn lemma_inner_partial(bits: Seq<bool>, tail: Seq<bool>, start: int, count: nat)
    requires
        bits.len() % 3 == 0,
        0 <= start,
        3 * (start + count) <= bits.len(),
    ensures
        partial_segment(bits + tail, start, count) == partial_segment(bits, start, count),
    decreases count,
{
    if count > 0 {
        let j = (count - 1) as nat;
        lemma_inner_partial(bits, tail, start, j);
        let c = 3 * (start + j);
        assert(bit_at(bits + tail, c) == bit_at(bits, c));
        assert(bit_at(bits + tail, c + 1) == bit_at(bits, c + 1));
        assert(bit_at(bits + tail, c + 2) == bit_at(bits, c + 2));
    }
}

/// Full segments within a message do not depend on what is behind them.
proof fn lemma_inner_sum(bits: Seq<bool>, tail: Seq<bool>, gens: Seq<(int, int)>, k: nat)
    requires
        bits.len() % 3 == 0,
        189 * k <= bits.len(),
    ensures
        segment_sum(bits + tail, gens, k) == segment_sum(bits, gens, k),
    decreases k,
{
    if k > 0 {
        let g = (k - 1) as nat;
        lemma_inner_sum(bits, tail, gens, g);
        assert(segment_len(bits + tail, g as int) == 63);
        assert(segment_len(bits, g as int) == 63);
        lemma_inner_partial(bits, tail, 63 * g as int, 63);
    }
}

/// The hash of no bits is neutral, and every chunk of three bits adds its multiple of the generator
/// of its segment: the first two bits count from one to four, the third gives the sign, and the
/// weights of the 63 chunks of a segment are the powers of sixteen.
pub proof fn lemma_chunk_is_added(bits: Seq<bool>, a: bool, b: bool, c: bool, gens: Seq<(int, int)>)
    requires
        bits.len() % 3 == 0,
        are_generators(gens),
        bits.len() + 3 <= 189 * gens.len(),
    ensures
        pedersen_point(Seq::empty(), gens) == (0int, 1int),
        ({
            let t = bits.len() as int / 3;
            let magnitude = 1 + (if a {
                1int
            } else {
                0
            }) + (if b {
                2int
            } else {
                0
            });
            let factor = if c {
                -magnitude
            } else {
                magnitude
            };
            pedersen_point(bits + seq![a, b, c], gens) == ed_add(
                pedersen_point(bits, gens),
                zmul(factor * pow2((4 * (t % 63)) as nat), gens[t / 63]),
            )
        }),
{
    let none = Seq::<bool>::empty();
    assert(chunk_count(none) == 0 && segment_count(none) == 0);
    let tail = seq![a, b, c];
    let more = bits + tail;
    let t = bits.len() as int / 3;
    let (g, j) = (t / 63, t % 63);
    let magnitude = 1 + (if a {
        1int
    } else {
        0
    }) + (if b {
        2int
    } else {
        0
    });
    let factor = if c {
        -magnitude
    } else {
        magnitude
    };
    assert(chunk_count(bits) == t && chunk_count(more) == t + 1);
    assert(segment_count(more) == g + 1);
    lemma_inner_sum(bits, tail, gens, g as nat);
    lemma_inner_partial(bits, tail, 63 * g, j as nat);
    assert(segment_len(more, g) == j + 1);
    let (b0, b1, b2) = (bit_at(more, 3 * t), bit_at(more, 3 * t + 1), bit_at(more, 3 * t + 2));
    assert(more[3 * t] == a && more[3 * t + 1] == b && more[3 * t + 2] == c);
    assert((1 - 2 * b2) * (1 + b0 + 2 * b1) == factor) by (nonlinear_arith)
        requires
            b2 == 0 || b2 == 1,
            b2 == 0 ==> factor == 1 + b0 + 2 * b1,
            b2 == 1 ==> factor == -(1 + b0 + 2 * b1),
    ;
    assert(coefficient(more, t) == factor);
    let (x, w) = (partial_segment(bits, 63 * g, j as nat), pow2((4 * j) as nat) as int);
    assert(63 * g + j == t);
    assert(4 * (j as nat) == (4 * j) as nat);
    let v = factor * w;
    assert(segment_value(more, g) == x + v);
    let (sum, gen) = (segment_sum(bits, gens, g as nat), gens[g]);
    assert(pedersen_point(more, gens) == ed_add(sum, zmul(x + v, gen)));
    assert(in_subgroup(gens[g]));
    if j == 0 {
        assert(segment_count(bits) == g);
        assert(x == 0);
    } else {
        assert(segment_count(bits) == g + 1);
        assert(segment_len(bits, g) == j);
        lemma_zmul_add(x, v, gen);
        lemma_sum_closed(bits, gens, g as nat);
        lemma_ed_associative(sum, zmul(x, gen), zmul(v, gen));
    }
}

/// The bit at a position, or no bit behind the end.
pub(crate) fn bit_or_zero(bits: &Vec<bool>, i: usize) -> (r: bool)
    ensures
        bit_at(bits@, i as int) == if r {
            1int
        } else {
            0
        },
{
    i < bits.len() && bits[i]
}

/// The value of a chunk is congruent to its coefficient times its weight.
proof fn lemma_chunk(p: int, x: int, a: int, b: int, c: int, cur: int, t1: int, t2: int, t3: int)
    requires
        p > 0,
        congruent(cur, x, p),
        0 <= a <= 1,
        0 <= b <= 1,
        0 <= c <= 1,
        t1 == if a == 1 {
            (cur + cur) % p
        } else {
            cur
        },
        t2 == if b == 1 {
            (t1 + (2 * cur) % p) % p
        } else {
            t1
        },
        t3 == if c == 1 {
            (0 - t2) % p
        } else {
            t2
        },
    ensures
        congruent(t3, ((1 - 2 * c) * (1 + a + 2 * b)) * x, p),
{
    lemma_congruent_mod(cur + cur, p);
    lemma_congruent_ops(cur, x, cur, x, p);
    let d = (2 * cur) % p;
    lemma_congruent_mod(2 * cur, p);
    assert(congruent(d, 2 * x, p));
    let y1 = (1 + a) * x;
    assert(congruent(t1, y1, p)) by {
        assert((1 + 0) * x == x && (1 + 1) * x == x + x);
    }
    lemma_congruent_mod(t1 + d, p);
    lemma_congruent_ops(t1, y1, d, 2 * x, p);
    let y2 = (1 + a + 2 * b) * x;
    assert(congruent(t2, y2, p)) by {
        assert((1 + a + 2 * 0) * x == (1 + a) * x);
        assert((1 + a + 2 * 1) * x == (1 + a) * x + 2 * x) by (nonlinear_arith);
    }
    lemma_congruent_mod(0 - t2, p);
    lemma_congruent_ops(0, 0, t2, y2, p);
    let y3 = ((1 - 2 * c) * (1 + a + 2 * b)) * x;
    assert(y3 == if c == 1 {
        0 - y2
    } else {
        y2
    }) by (nonlinear_arith)
        requires
            y2 == (1 + a + 2 * b) * x,
            y3 == ((1 - 2 * c) * (1 + a + 2 * b)) * x,
            c == 0 || c == 1,
    ;
}

/// The factor of a segment as a scalar.
pub fn segment_scalar(bits: &Vec<bool>, start: usize, count: usize) -> (r: jubjub::Fr)
    requires
        0 < count <= 63,
        start + count <= chunk_count(bits@),
    ensures
        scalar_value(r) == partial_segment(bits@, start as int, count as nat) % subgroup_order(),
{
    let n = bits.len();
    let ghost p = subgroup_order();
    let mut acc = scalar_zero();
    let mut cur = scalar_one();
    let mut j: usize = 0;
    proof {
        lemma2_to64();
        vstd::arithmetic::div_mod::lemma_small_mod(0, p as nat);
        vstd::arithmetic::div_mod::lemma_small_mod(1, p as nat);
    }
    while j < count
        invariant
            j <= count,
            count <= 63,
            n == bits@.len(),
            start + count <= chunk_count(bits@),
            p == subgroup_order(),
            scalar_value(acc) == partial_segment(bits@, start as int, j as nat) % p,
            congruent(scalar_value(cur), pow2(4 * j as nat) as int, p),
        decreases count - j,
    {
        let base = 3 * (start + j);
        let a = bits[base];
        let b = bit_or_zero(bits, base + 1);
        let c = bit_or_zero(bits, base + 2);
        let ghost c0 = scalar_value(cur);
        let mut tmp = cur;
        if a {
            tmp = scalar_sum(&tmp, &cur);
        }
        let ghost t1 = scalar_value(tmp);
        cur = scalar_double(&cur);
        let ghost c1 = scalar_value(cur);
        if b {
            tmp = scalar_sum(&tmp, &cur);
        }
        let ghost t2 = scalar_value(tmp);
        if c {
            tmp = scalar_opposite(&tmp);
        }
        let ghost a0 = scalar_value(acc);
        acc = scalar_sum(&acc, &tmp);
        proof {
            let x = pow2(4 * j as nat) as int;
            let (va, vb, vc) = (
                bit_at(bits@, base as int),
                bit_at(bits@, base + 1),
                bit_at(bits@, base + 2),
            );
            lemma_chunk(p, x, va, vb, vc, c0, t1, t2, scalar_value(tmp));
            let before = partial_segment(bits@, start as int, j as nat);
            lemma_congruent_mod(before, p);
            let term = coefficient(bits@, start + j) * x;
            lemma_congruent_ops(a0, before, scalar_value(tmp), term, p);
            lemma_congruent_mod(a0 + scalar_value(tmp), p);
            assert(partial_segment(bits@, start as int, (j + 1) as nat) == before + term);
            lemma_congruent_mod(2 * c0, p);
            assert(congruent(c1, 2 * x, p)) by {
                lemma_congruent_ops(c0, x, c0, x, p);
            }
        }
        j += 1;
        if j < count {
            let ghost c1 = scalar_value(cur);
            cur = scalar_double(&cur);
            let ghost c2 = scalar_value(cur);
            cur = scalar_double(&cur);
            let ghost c3 = scalar_value(cur);
            cur = scalar_double(&cur);
            proof {
                let x = pow2(4 * (j - 1) as nat) as int;
                lemma_congruent_ops(c1, 2 * x, c1, 2 * x, p);
                lemma_congruent_mod(2 * c1, p);
                lemma_congruent_ops(c2, 4 * x, c2, 4 * x, p);
                lemma_congruent_mod(2 * c2, p);
                lemma_congruent_ops(c3, 8 * x, c3, 8 * x, p);
                lemma_congruent_mod(2 * c3, p);
                lemma_pow2_adds(4 * (j - 1) as nat, 4);
                lemma2_to64();
                assert(4 * (j - 1) as nat + 4 == 4 * j as nat);
            }
        } else {
            return acc;
        }
    }
    acc
}

} // verus!

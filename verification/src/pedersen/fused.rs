//! The Pedersen hash by tables of chunks and of blocks of chunks.
use crate::pedersen::chunks::{
    bit_or_zero, chunk_count, coefficient, partial_segment, pedersen_point, segment_count,
    segment_sum, PEDERSEN_HASH_CHUNKS_PER_GENERATOR,
};
use crate::pedersen::edwards::{
    are_generators, ed_add, in_subgroup, lemma_ed_associative, lemma_ed_closed,
    lemma_ed_neutral, lemma_neutral_on_curve, lemma_zmul_add, lemma_zmul_closed, lemma_zmul_neg,
    lemma_zmul_small, on_edwards, zmul,
};
use crate::pedersen::points::{coordinates, point_identity, point_opposite, point_sum};
use crate::pedersen::windowed::all_coordinates;
use crate::sinsemilla::domain::bit_at;
use vstd::arithmetic::power2::{lemma2_to64, lemma_pow2_adds, pow2};
use vstd::prelude::*;

verus! {

/// The number of chunks of a block.
pub const PEDERSEN_HASH_CHUNKS_PER_BLOCK: usize = 2;

/// The number of blocks of a segment; one chunk of the segment is left.
pub const BLOCK_COUNT: usize = 31;

/// The coefficient of the three bits of a chunk.
pub open spec fn raw_coefficient(raw: int) -> int {
    let magnitude = 1 + raw % 2 + 2 * (raw / 2 % 2);
    if raw / 4 % 2 == 1 {
        0 - magnitude
    } else {
        magnitude
    }
}

/// The entries of a chunk: the multiples of the weighted generator.
spec fn is_chunk_row(row: Seq<jubjub::ExtendedPoint>, generator: (int, int), j: int) -> bool {
    &&& row.len() == 8
    &&& in_subgroup(generator) ==> forall|raw: int|
        0 <= raw < 8 ==> coordinates(#[trigger] row[raw]) == zmul(
            raw_coefficient(raw) * pow2((4 * j) as nat),
            generator,
        )
}

/// The entries of a block: the sums of the entries of its two chunks.
spec fn is_block_row(row: Seq<jubjub::ExtendedPoint>, generator: (int, int), b: int) -> bool {
    &&& row.len() == 64
    &&& in_subgroup(generator) ==> forall|raw: int|
        0 <= raw < 64 ==> coordinates(#[trigger] row[raw]) == zmul(
            raw_coefficient(raw % 8) * pow2((8 * b) as nat) + raw_coefficient(raw / 8) * pow2(
                (8 * b + 4) as nat,
            ),
            generator,
        )
}

/// The entries of all chunks of a segment.
spec fn is_single_table(table: Seq<Vec<jubjub::ExtendedPoint>>, generator: (int, int)) -> bool {
    &&& table.len() == PEDERSEN_HASH_CHUNKS_PER_GENERATOR
    &&& forall|j: int|
        0 <= j < PEDERSEN_HASH_CHUNKS_PER_GENERATOR ==> is_chunk_row(
            (#[trigger] table[j])@,
            generator,
            j,
        )
}

/// The entries of all blocks of a segment.
spec fn is_block_table(table: Seq<Vec<jubjub::ExtendedPoint>>, generator: (int, int)) -> bool {
    &&& table.len() == BLOCK_COUNT
    &&& forall|b: int|
        0 <= b < BLOCK_COUNT ==> is_block_row((#[trigger] table[b])@, generator, b)
}

/// The tables of the generators.
pub struct FusedTables {
    singles: Vec<Vec<Vec<jubjub::ExtendedPoint>>>,
    blocks: Vec<Vec<Vec<jubjub::ExtendedPoint>>>,
    gens: Ghost<Seq<(int, int)>>,
}

/// The coefficients of all chunks.
proof fn lemma_raw_coefficients(x: int)
    ensures
        raw_coefficient(0) * x == x,
        raw_coefficient(1) * x == x + x,
        raw_coefficient(2) * x == x + x + x,
        raw_coefficient(3) * x == x + x + x + x,
        raw_coefficient(4) * x == 0 - x,
        raw_coefficient(5) * x == 0 - (x + x),
        raw_coefficient(6) * x == 0 - (x + x + x),
        raw_coefficient(7) * x == 0 - (x + x + x + x),
{
    assert(1 * x == x && 2 * x == x + x && 3 * x == x + x + x && 4 * x == x + x + x + x);
    assert((-1) * x == 0 - x && (-2) * x == 0 - (x + x) && (-3) * x == 0 - (x + x + x) && (-4) * x
        == 0 - (x + x + x + x));
    assert(raw_coefficient(0) == 1 && raw_coefficient(1) == 2);
    assert(raw_coefficient(2) == 3 && raw_coefficient(3) == 4);
    assert(raw_coefficient(4) == -1 && raw_coefficient(5) == -2);
    assert(raw_coefficient(6) == -3 && raw_coefficient(7) == -4);
}

/// The entries of a chunk with a weighted generator.
fn chunk_row(base: &jubjub::ExtendedPoint, Ghost(g): Ghost<(int, int)>, Ghost(j): Ghost<int>) -> (r:
    Vec<jubjub::ExtendedPoint>)
    requires
        0 <= j,
        in_subgroup(g) ==> coordinates(*base) == zmul(
            pow2((4 * j) as nat) as int,
            g,
        ),
    ensures
        is_chunk_row(r@, g, j),
{
    let ghost lawful = in_subgroup(g);
    let ghost x = pow2((4 * j) as nat) as int;
    let two = point_sum(base, base);
    proof {
        if lawful {
            lemma_zmul_add(x, x, g);
        }
    }
    let three = point_sum(&two, base);
    proof {
        if lawful {
            lemma_zmul_add(x + x, x, g);
        }
    }
    let four = point_sum(&three, base);
    proof {
        if lawful {
            lemma_zmul_add(x + x + x, x, g);
            lemma_zmul_closed(x + x + x + x, g);
            lemma_zmul_neg(x, g);
            lemma_zmul_neg(x + x, g);
            lemma_zmul_neg(x + x + x, g);
            lemma_zmul_neg(x + x + x + x, g);
        }
    }
    let mut r: Vec<jubjub::ExtendedPoint> = Vec::new();
    r.push(*base);
    r.push(two);
    r.push(three);
    r.push(four);
    r.push(point_opposite(base));
    r.push(point_opposite(&two));
    r.push(point_opposite(&three));
    r.push(point_opposite(&four));
    proof {
        lemma_raw_coefficients(x);
        if lawful {
            assert forall|raw: int| 0 <= raw < 8 implies coordinates(#[trigger] r@[raw]) == zmul(
                raw_coefficient(raw) * pow2((4 * j) as nat),
                g,
            ) by {
                if raw == 0 {
                    assert(raw_coefficient(raw) * x == x);
                } else if raw == 1 {
                    assert(raw_coefficient(raw) * x == x + x);
                } else if raw == 2 {
                    assert(raw_coefficient(raw) * x == x + x + x);
                } else if raw == 3 {
                    assert(raw_coefficient(raw) * x == x + x + x + x);
                } else if raw == 4 {
                    assert(raw_coefficient(raw) * x == 0 - x);
                } else if raw == 5 {
                    assert(raw_coefficient(raw) * x == 0 - (x + x));
                } else if raw == 6 {
                    assert(raw_coefficient(raw) * x == 0 - (x + x + x));
                } else {
                    assert(raw_coefficient(raw) * x == 0 - (x + x + x + x));
                }
            }
        }
    }
    r
}

/// The entries of all chunks of a segment.
fn single_table(generator: &jubjub::ExtendedPoint) -> (r: Vec<Vec<jubjub::ExtendedPoint>>)
    ensures
        is_single_table(r@, coordinates(*generator)),
{
    let ghost g = coordinates(*generator);
    let ghost lawful = in_subgroup(g);
    let mut base = *generator;
    let mut table: Vec<Vec<jubjub::ExtendedPoint>> = Vec::new();
    let mut j: usize = 0;
    proof {
        lemma2_to64();
        if lawful {
            lemma_zmul_small(g);
        }
    }
    while j < PEDERSEN_HASH_CHUNKS_PER_GENERATOR
        invariant
            j <= PEDERSEN_HASH_CHUNKS_PER_GENERATOR,
            lawful == in_subgroup(g),
            lawful ==> coordinates(base) == zmul(pow2((4 * j) as nat) as int, g),
            table@.len() == j,
            forall|k: int| 0 <= k < j ==> is_chunk_row((#[trigger] table@[k])@, g, k),
        decreases PEDERSEN_HASH_CHUNKS_PER_GENERATOR - j,
    {
        table.push(chunk_row(&base, Ghost(g), Ghost(j as int)));
        let ghost x = pow2((4 * j) as nat) as int;
        let double = point_sum(&base, &base);
        proof {
            if lawful {
                lemma_zmul_add(x, x, g);
                lemma_zmul_add(2 * x, 2 * x, g);
                lemma_zmul_add(4 * x, 4 * x, g);
                lemma_zmul_add(8 * x, 8 * x, g);
            }
            lemma2_to64();
            lemma_pow2_adds((4 * j) as nat, 4);
            assert((4 * j) as nat + 4 == (4 * (j + 1)) as nat);
        }
        let quadruple = point_sum(&double, &double);
        let octuple = point_sum(&quadruple, &quadruple);
        base = point_sum(&octuple, &octuple);
        j += 1;
    }
    table
}

/// The entries of all blocks of a segment, from the entries of its chunks.
fn block_table(singles: &Vec<Vec<jubjub::ExtendedPoint>>, Ghost(g): Ghost<(int, int)>) -> (r: Vec<
    Vec<jubjub::ExtendedPoint>,
>)
    requires
        is_single_table(singles@, g),
    ensures
        is_block_table(r@, g),
{
    let ghost lawful = in_subgroup(g);
    let mut table: Vec<Vec<jubjub::ExtendedPoint>> = Vec::new();
    let mut b: usize = 0;
    while b < BLOCK_COUNT
        invariant
            b <= BLOCK_COUNT,
            is_single_table(singles@, g),
            lawful == in_subgroup(g),
            table@.len() == b,
            forall|k: int| 0 <= k < b ==> is_block_row((#[trigger] table@[k])@, g, k),
        decreases BLOCK_COUNT - b,
    {
        let low = &singles[2 * b];
        let high = &singles[2 * b + 1];
        assert(is_chunk_row(low@, g, 2 * b));
        assert(is_chunk_row(high@, g, 2 * b + 1));
        let mut row: Vec<jubjub::ExtendedPoint> = Vec::new();
        let mut raw: usize = 0;
        while raw < 64
            invariant
                raw <= 64,
                b < BLOCK_COUNT,
                lawful == in_subgroup(g),
                is_chunk_row(low@, g, 2 * b),
                is_chunk_row(high@, g, 2 * b + 1),
                row@.len() == raw,
                lawful ==> forall|k: int|
                    0 <= k < raw ==> coordinates(#[trigger] row@[k]) == zmul(
                        raw_coefficient(k % 8) * pow2((8 * b) as nat) + raw_coefficient(k / 8)
                            * pow2((8 * b + 4) as nat),
                        g,
                    ),
            decreases 64 - raw,
        {
            proof {
                if lawful {
                    let (x, y) = (
                        raw_coefficient(raw as int % 8) * pow2((8 * b) as nat),
                        raw_coefficient(raw as int / 8) * pow2((8 * b + 4) as nat),
                    );
                    lemma_zmul_add(x, y, g);
                    assert(coordinates(low@[raw as int % 8]) == zmul(x, g)) by {
                        assert(4 * (2 * b) == 8 * b);
                    }
                    assert(coordinates(high@[raw as int / 8]) == zmul(y, g)) by {
                        assert(4 * (2 * b + 1) == 8 * b + 4);
                    }
                }
            }
            row.push(point_sum(&low[raw % 8], &high[raw / 8]));
            raw += 1;
        }
        table.push(row);
        b += 1;
    }
    table
}

/// The three bits of a chunk.
fn raw_chunk(bits: &Vec<bool>, chunk: usize) -> (r: usize)
    requires
        chunk < chunk_count(bits@),
    ensures
        r < 8,
        raw_coefficient(r as int) == coefficient(bits@, chunk as int),
{
    let n = bits.len();
    let base = 3 * chunk;
    let mut r: usize = 0;
    if bit_or_zero(bits, base) {
        r += 1;
    }
    if bit_or_zero(bits, base + 1) {
        r += 2;
    }
    if bit_or_zero(bits, base + 2) {
        r += 4;
    }
    proof {
        let (a, b, c) = (
            bit_at(bits@, base as int),
            bit_at(bits@, base + 1),
            bit_at(bits@, base + 2),
        );
        assert(r == a + 2 * b + 4 * c);
        assert(r as int % 2 == a && (r as int / 2) % 2 == b && (r as int / 4) % 2 == c);
        let m = 1 + a + 2 * b;
        assert((1 - 2 * 0) * m == m && (1 - 2 * 1) * m == 0 - m);
    }
    r
}

/// A term joins the sum of a segment.
proof fn lemma_extend(prior: (int, int), g: (int, int), x: int, y: int)
    requires
        in_subgroup(g),
        on_edwards(prior),
    ensures
        ed_add(ed_add(prior, zmul(x, g)), zmul(y, g)) == ed_add(prior, zmul(x + y, g)),
        on_edwards(ed_add(prior, zmul(x, g))),
        on_edwards(zmul(y, g)),
{
    lemma_zmul_add(x, y, g);
    lemma_ed_associative(prior, zmul(x, g), zmul(y, g));
    lemma_ed_closed(prior, zmul(x, g));
}

impl FusedTables {
    #[verifier::type_invariant]
    spec fn holds(self) -> bool {
        &&& self.singles@.len() == self.gens@.len()
        &&& self.blocks@.len() == self.gens@.len()
        &&& forall|g: int|
            0 <= g < self.gens@.len() ==> is_single_table(
                (#[trigger] self.singles@[g])@,
                self.gens@[g],
            )
        &&& forall|g: int|
            0 <= g < self.gens@.len() ==> is_block_table(
                (#[trigger] self.blocks@[g])@,
                self.gens@[g],
            )
    }

    /// The coordinates of the generators.
    pub closed spec fn generators(self) -> Seq<(int, int)> {
        self.gens@
    }

    /// The tables of generators.
    pub fn new(generators: &Vec<jubjub::ExtendedPoint>) -> (r: Self)
        ensures
            r.generators() == all_coordinates(generators@),
    {
        let ghost gens = all_coordinates(generators@);
        let mut singles: Vec<Vec<Vec<jubjub::ExtendedPoint>>> = Vec::new();
        let mut blocks: Vec<Vec<Vec<jubjub::ExtendedPoint>>> = Vec::new();
        let mut g: usize = 0;
        while g < generators.len()
            invariant
                g <= generators@.len(),
                gens == all_coordinates(generators@),
                singles@.len() == g,
                blocks@.len() == g,
                forall|k: int| 0 <= k < g ==> is_single_table((#[trigger] singles@[k])@, gens[k]),
                forall|k: int| 0 <= k < g ==> is_block_table((#[trigger] blocks@[k])@, gens[k]),
            decreases generators@.len() - g,
        {
            let single = single_table(&generators[g]);
            let block = block_table(&single, Ghost(gens[g as int]));
            singles.push(single);
            blocks.push(block);
            g += 1;
        }
        FusedTables { singles, blocks, gens: Ghost(gens) }
    }

    /// The number of generators.
    pub fn len(&self) -> (r: usize)
        ensures
            r == self.generators().len(),
    {
        proof {
            use_type_invariant(self);
        }
        self.singles.len()
    }

    /// A point with the terms of a segment added.
    fn add_segment(&self, prior: &jubjub::ExtendedPoint, bits: &Vec<bool>, g: usize, count: usize)
        -> (r: jubjub::ExtendedPoint)
        requires
            0 < count <= 63,
            63 * g + count <= chunk_count(bits@),
            g < self.generators().len(),
        ensures
            are_generators(self.generators()) && on_edwards(coordinates(*prior)) ==> coordinates(r)
                == ed_add(
                coordinates(*prior),
                zmul(
                    partial_segment(bits@, 63 * g, count as nat),
                    self.generators()[g as int],
                ),
            ) && on_edwards(coordinates(r)),
    {
        let n = bits.len();
        let ghost gens = self.generators();
        let ghost gen = gens[g as int];
        let ghost lawful = are_generators(gens) && on_edwards(coordinates(*prior));
        let ghost at = coordinates(*prior);
        proof {
            use_type_invariant(self);
            assert(is_single_table(self.singles@[g as int]@, gen));
            assert(is_block_table(self.blocks@[g as int]@, gen));
            if lawful {
                assert(in_subgroup(gen));
                lemma_zmul_small(gen);
                lemma_ed_neutral(at);
            }
        }
        let single = &self.singles[g];
        let block = &self.blocks[g];
        let start = PEDERSEN_HASH_CHUNKS_PER_GENERATOR * g;
        let mut result = *prior;
        let mut position: usize = 0;
        while count - position >= PEDERSEN_HASH_CHUNKS_PER_BLOCK
            invariant
                position <= count,
                position % 2 == 0,
                count <= 63,
                n == bits@.len(),
                start == 63 * g,
                start + count <= chunk_count(bits@),
                is_block_table(block@, gen),
                lawful ==> in_subgroup(gen) && on_edwards(at),
                lawful ==> coordinates(result) == ed_add(
                    at,
                    zmul(partial_segment(bits@, start as int, position as nat), gen),
                ),
            decreases count - position,
        {
            let low = raw_chunk(bits, start + position);
            let high = raw_chunk(bits, start + position + 1);
            let raw = low + 8 * high;
            let b = position / PEDERSEN_HASH_CHUNKS_PER_BLOCK;
            proof {
                let x = partial_segment(bits@, start as int, position as nat);
                let y0 = coefficient(bits@, start + position) * pow2((4 * position) as nat);
                let y1 = coefficient(bits@, start + position + 1) * pow2(
                    (4 * (position + 1)) as nat,
                );
                assert(raw as int % 8 == low && raw as int / 8 == high);
                assert(is_block_row(block@[b as int]@, gen, b as int));
                assert(8 * b == 4 * position && 8 * b + 4 == 4 * (position + 1));
                assert(partial_segment(bits@, start as int, (position + 1) as nat) == x + y0);
                assert(partial_segment(bits@, start as int, (position + 2) as nat) == x + y0 + y1);
                if lawful {
                    assert(coordinates(block@[b as int]@[raw as int]) == zmul(y0 + y1, gen));
                    lemma_extend(at, gen, x, y0 + y1);
                    assert(x + (y0 + y1) == x + y0 + y1);
                }
            }
            result = point_sum(&result, &block[b][raw]);
            position += PEDERSEN_HASH_CHUNKS_PER_BLOCK;
        }
        while position < count
            invariant
                position <= count,
                count <= 63,
                n == bits@.len(),
                start == 63 * g,
                start + count <= chunk_count(bits@),
                is_single_table(single@, gen),
                lawful ==> in_subgroup(gen) && on_edwards(at),
                lawful ==> coordinates(result) == ed_add(
                    at,
                    zmul(partial_segment(bits@, start as int, position as nat), gen),
                ),
            decreases count - position,
        {
            let raw = raw_chunk(bits, start + position);
            proof {
                let x = partial_segment(bits@, start as int, position as nat);
                let y = coefficient(bits@, start + position) * pow2((4 * position) as nat);
                assert(is_chunk_row(single@[position as int]@, gen, position as int));
                assert(partial_segment(bits@, start as int, (position + 1) as nat) == x + y);
                if lawful {
                    assert(coordinates(single@[position as int]@[raw as int]) == zmul(y, gen));
                    lemma_extend(at, gen, x, y);
                }
            }
            result = point_sum(&result, &single[position][raw]);
            position += 1;
        }
        proof {
            if lawful {
                lemma_extend(at, gen, partial_segment(bits@, start as int, count as nat), 0);
            }
        }
        result
    }

    /// The Pedersen hash of bits.
    pub fn fused_pedersen_hash(&self, bits: &Vec<bool>) -> (r: jubjub::ExtendedPoint)
        requires
            segment_count(bits@) <= self.generators().len(),
        ensures
            are_generators(self.generators()) ==> coordinates(r) == pedersen_point(
                bits@,
                self.generators(),
            ),
    {
        let ghost gens = self.generators();
        let ghost lawful = are_generators(gens);
        let n = bits.len();
        let chunks = if n % 3 == 0 {
            n / 3
        } else {
            n / 3 + 1
        };
        let mut result = point_identity();
        let mut start: usize = 0;
        let mut g: usize = 0;
        proof {
            lemma_neutral_on_curve();
        }
        while start < chunks
            invariant
                n == bits@.len(),
                chunks == chunk_count(bits@),
                segment_count(bits@) <= gens.len(),
                gens == self.generators(),
                lawful == are_generators(gens),
                start <= chunks,
                g <= segment_count(bits@),
                start == if 63 * g < chunks {
                    63 * g
                } else {
                    chunks as int
                },
                start == chunks ==> g == segment_count(bits@),
                lawful ==> coordinates(result) == segment_sum(bits@, gens, g as nat),
                lawful ==> on_edwards(coordinates(result)),
            decreases chunks - start,
        {
            let count = if chunks - start < PEDERSEN_HASH_CHUNKS_PER_GENERATOR {
                chunks - start
            } else {
                PEDERSEN_HASH_CHUNKS_PER_GENERATOR
            };
            result = self.add_segment(&result, bits, g, count);
            start += count;
            g += 1;
        }
        result
    }
}

} // verus!

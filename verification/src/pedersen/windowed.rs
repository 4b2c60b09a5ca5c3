//! The Pedersen hash by tables of windows of a scalar.
use crate::field::repr::{bits_at, bytes_value, lemma_bytes_bound};
use crate::pedersen::chunks::{
    chunk_count, pedersen_point, segment_count, segment_scalar, segment_sum, segment_value,
    PEDERSEN_HASH_CHUNKS_PER_GENERATOR,
};
use crate::pedersen::edwards::{
    are_generators, in_subgroup, lemma_ed_closed, lemma_neutral_on_curve,
    lemma_zmul_add, lemma_zmul_closed, lemma_zmul_mod, lemma_zmul_small, on_edwards, zmul,
};
use crate::pedersen::points::{
    coordinates, point_identity, point_sum, scalar_bytes, scalar_value,
};
use vstd::arithmetic::div_mod::{lemma_mod_breakdown, lemma_small_mod};
use vstd::arithmetic::power2::{lemma2_to64, lemma_pow2_adds, lemma_pow2_pos, pow2};
use vstd::prelude::*;

verus! {

/// The number of bits of a window.
pub const PEDERSEN_HASH_EXP_WINDOW_SIZE: usize = 8;

/// The number of windows of a scalar.
pub const WINDOW_COUNT: usize = 32;

/// The number of entries of a window.
pub const WINDOW_ENTRIES: usize = 256;

/// The coordinates of points.
pub open spec fn all_coordinates(points: Seq<jubjub::ExtendedPoint>) -> Seq<(int, int)> {
    Seq::new(points.len(), |i: int| coordinates(points[i]))
}

/// The row of a window: the multiples of the weighted generator.
spec fn is_window(row: Seq<jubjub::ExtendedPoint>, generator: (int, int), w: int) -> bool {
    &&& row.len() == WINDOW_ENTRIES
    &&& in_subgroup(generator) ==> forall|i: int|
        0 <= i < WINDOW_ENTRIES ==> coordinates(#[trigger] row[i]) == zmul(
            i * pow2((8 * w) as nat),
            generator,
        )
}

/// The windows of a generator.
spec fn is_table(table: Seq<Vec<jubjub::ExtendedPoint>>, generator: (int, int)) -> bool {
    &&& table.len() == WINDOW_COUNT
    &&& forall|w: int| 0 <= w < WINDOW_COUNT ==> is_window((#[trigger] table[w])@, generator, w)
}

/// The tables of the generators.
pub struct ExpTables {
    tables: Vec<Vec<Vec<jubjub::ExtendedPoint>>>,
    gens: Ghost<Seq<(int, int)>>,
}

/// The table of a generator.
fn generator_table(generator: &jubjub::ExtendedPoint) -> (r: Vec<Vec<jubjub::ExtendedPoint>>)
    ensures
        is_table(r@, coordinates(*generator)),
{
    let ghost g = coordinates(*generator);
    let ghost lawful = in_subgroup(g);
    let mut base = *generator;
    let mut table: Vec<Vec<jubjub::ExtendedPoint>> = Vec::new();
    let mut w: usize = 0;
    proof {
        lemma2_to64();
        if lawful {
            lemma_zmul_small(g);
        }
    }
    while w < WINDOW_COUNT
        invariant
            w <= WINDOW_COUNT,
            lawful == in_subgroup(g),
            lawful ==> coordinates(base) == zmul(pow2((8 * w) as nat) as int, g),
            table@.len() == w,
            forall|k: int| 0 <= k < w ==> is_window((#[trigger] table@[k])@, g, k),
        decreases WINDOW_COUNT - w,
    {
        let ghost weight = pow2((8 * w) as nat) as int;
        let mut row: Vec<jubjub::ExtendedPoint> = Vec::new();
        let mut cur = point_identity();
        let mut i: usize = 0;
        proof {
            assert(0 * weight == 0);
            if lawful {
                lemma_zmul_small(g);
            }
        }
        while i < WINDOW_ENTRIES
            invariant
                i <= WINDOW_ENTRIES,
                lawful == in_subgroup(g),
                weight == pow2((8 * w) as nat),
                lawful ==> coordinates(base) == zmul(weight, g),
                lawful ==> coordinates(cur) == zmul(i * weight, g),
                row@.len() == i,
                lawful ==> forall|k: int|
                    0 <= k < i ==> coordinates(#[trigger] row@[k]) == zmul(
                        k * pow2((8 * w) as nat),
                        g,
                    ),
            decreases WINDOW_ENTRIES - i,
        {
            row.push(cur);
            proof {
                if lawful {
                    lemma_zmul_add(i * weight, weight, g);
                    assert((i + 1) * weight == i * weight + weight) by (nonlinear_arith);
                }
            }
            cur = point_sum(&cur, &base);
            i += 1;
        }
        base = cur;
        proof {
            lemma_pow2_adds(8, (8 * w) as nat);
            lemma2_to64();
            assert(8 + (8 * w) as nat == (8 * (w + 1)) as nat);
        }
        table.push(row);
        w += 1;
    }
    table
}

/// The multiple of a generator by a scalar, one addition for each window.
fn windowed_multiple(
    table: &Vec<Vec<jubjub::ExtendedPoint>>,
    scalar: &jubjub::Fr,
    Ghost(g): Ghost<(int, int)>,
) -> (r: jubjub::ExtendedPoint)
    requires
        is_table(table@, g),
    ensures
        in_subgroup(g) ==> coordinates(r) == zmul(
            scalar_value(*scalar),
            g,
        ),
{
    let ghost lawful = in_subgroup(g);
    let ghost v = scalar_value(*scalar);
    let bytes = scalar_bytes(scalar);
    let mut tmp = point_identity();
    let mut w: usize = 0;
    proof {
        lemma2_to64();
        lemma_bytes_bound(bytes@);
        assert(v % 1 == 0);
        if lawful {
            lemma_zmul_small(g);
        }
    }
    while w < WINDOW_COUNT
        invariant
            w <= WINDOW_COUNT,
            lawful == in_subgroup(g),
            is_table(table@, g),
            v == bytes_value(bytes@),
            0 <= v,
            lawful ==> coordinates(tmp) == zmul(v % pow2((8 * w) as nat) as int, g),
        decreases WINDOW_COUNT - w,
    {
        let digit = bits_at(&bytes, PEDERSEN_HASH_EXP_WINDOW_SIZE * w, 8);
        let ghost weight = pow2((8 * w) as nat) as int;
        proof {
            lemma2_to64();
            assert(is_window(table@[w as int]@, g, w as int));
            lemma_pow2_pos((8 * w) as nat);
            lemma_pow2_adds((8 * w) as nat, 8);
            assert((8 * w) as nat + 8 == (8 * (w + 1)) as nat);
            lemma_mod_breakdown(v, weight, 256);
            assert(weight * digit == digit * weight) by (nonlinear_arith);
            if lawful {
                lemma_zmul_add(v % weight, digit * weight, g);
                assert(coordinates(table@[w as int]@[digit as int]) == zmul(digit * weight, g));
            }
        }
        tmp = point_sum(&tmp, &table[w][digit as usize]);
        w += 1;
    }
    proof {
        lemma_bytes_bound(bytes@);
        lemma_small_mod(v as nat, pow2(256));
    }
    tmp
}

impl ExpTables {
    #[verifier::type_invariant]
    spec fn holds(self) -> bool {
        &&& self.tables@.len() == self.gens@.len()
        &&& forall|g: int|
            0 <= g < self.tables@.len() ==> is_table((#[trigger] self.tables@[g])@, self.gens@[g])
    }

    /// The coordinates of the generators.
    pub closed spec fn generators(self) -> Seq<(int, int)> {
        self.gens@
    }

    /// The tables of generators.
    pub fn new(generators: &Vec<jubjub::ExtendedPoint>) -> (r: Self)
        ensures
            r.generators() == all_coordinates(generators@),
    {
        let ghost gens = all_coordinates(generators@);
        let mut tables: Vec<Vec<Vec<jubjub::ExtendedPoint>>> = Vec::new();
        let mut g: usize = 0;
        while g < generators.len()
            invariant
                g <= generators@.len(),
                gens == all_coordinates(generators@),
                tables@.len() == g,
                forall|k: int| 0 <= k < g ==> is_table((#[trigger] tables@[k])@, gens[k]),
            decreases generators@.len() - g,
        {
            tables.push(generator_table(&generators[g]));
            g += 1;
        }
        ExpTables { tables, gens: Ghost(gens) }
    }

    /// The number of generators.
    pub fn len(&self) -> (r: usize)
        ensures
            r == self.generators().len(),
    {
        proof {
            use_type_invariant(self);
        }
        self.tables.len()
    }

    /// The Pedersen hash of bits.
    pub fn windowed_pedersen_hash(&self, bits: &Vec<bool>) -> (r: jubjub::ExtendedPoint)
        requires
            segment_count(bits@) <= self.generators().len(),
        ensures
            are_generators(self.generators()) ==> coordinates(r) == pedersen_point(
                bits@,
                self.generators(),
            ),
    {
        let ghost gens = self.generators();
        let ghost lawful = are_generators(gens);
        let n = bits.len();
        let chunks = if n % 3 == 0 {
            n / 3
        } else {
            n / 3 + 1
        };
        let mut result = point_identity();
        let mut start: usize = 0;
        let mut g: usize = 0;
        proof {
            use_type_invariant(self);
            lemma_neutral_on_curve();
        }
        while start < chunks
            invariant
                n == bits@.len(),
                chunks == chunk_count(bits@),
                segment_count(bits@) <= gens.len(),
                gens == self.generators(),
                gens == self.gens@,
                self.tables@.len() == gens.len(),
                forall|k: int|
                    0 <= k < self.tables@.len() ==> is_table(
                        (#[trigger] self.tables@[k])@,
                        self.gens@[k],
                    ),
                lawful == are_generators(gens),
                start <= chunks,
                g <= segment_count(bits@),
                start == if 63 * g < chunks {
                    63 * g
                } else {
                    chunks as int
                },
                start == chunks ==> g == segment_count(bits@),
                lawful ==> coordinates(result) == segment_sum(bits@, gens, g as nat),
                lawful ==> on_edwards(coordinates(result)),
            decreases chunks - start,
        {
            let count = if chunks - start < PEDERSEN_HASH_CHUNKS_PER_GENERATOR {
                chunks - start
            } else {
                PEDERSEN_HASH_CHUNKS_PER_GENERATOR
            };
            let scalar = segment_scalar(bits, start, count);
            assert(is_table(self.tables@[g as int]@, gens[g as int]));
            let tmp = windowed_multiple(&self.tables[g], &scalar, Ghost(gens[g as int]));
            proof {
                let value = segment_value(bits@, g as int);
                if lawful {
                    assert(in_subgroup(gens[g as int]));
                    lemma_zmul_mod(value, gens[g as int]);
                    lemma_zmul_closed(value, gens[g as int]);
                    lemma_ed_closed(coordinates(result), coordinates(tmp));
                }
            }
            result = point_sum(&result, &tmp);
            start += count;
            g += 1;
        }
        result
    }
}

} // verus!

//! Personalized Pedersen hashes.
use crate::field::repr::bit_of;
use crate::pedersen::chunks::{lemma_one_more_false_bit, pedersen_point, segment_count};
use crate::pedersen::edwards::{are_generators, ed_add, zmul};
use crate::pedersen::fused::FusedTables;
use crate::pedersen::points::coordinates;
use crate::pedersen::windowed::ExpTables;
use vstd::arithmetic::div_mod::lemma_div_denominator;
use vstd::arithmetic::power2::{lemma2_to64, lemma_pow2_adds, lemma_pow2_pos, pow2};
use vstd::prelude::*;

verus! {

/// The number of bits that a generator takes.
pub const BITS_PER_GENERATOR: usize = 189;

/// What a hash is for.
#[derive(Copy, Clone, Debug)]
pub enum Personalization {
    /// The commitment to a note.
    NoteCommitment,
    /// A node of the commitment tree at a level.
    MerkleTree(usize),
}

/// The bits that a personalization puts before the message.
pub open spec fn personal_bits(p: Personalization) -> Seq<bool> {
    match p {
        Personalization::NoteCommitment => Seq::new(6, |i: int| true),
        Personalization::MerkleTree(num) => Seq::new(6, |i: int| bit_of(num as int, i)),
    }
}

/// The personalization is in range.
pub open spec fn is_personalization(p: Personalization) -> bool {
    p matches Personalization::MerkleTree(num) ==> num < 63
}

/// The level of a tree is in range exactly where it is below 63, and notes always are.
pub proof fn lemma_personalizations(level: usize)
    ensures
        is_personalization(Personalization::NoteCommitment),
        is_personalization(Personalization::MerkleTree(level)) <==> level <= 62,
{
}

/// The value of six bits, the first of which is the lowest.
pub open spec fn six_bit_value(bits: Seq<bool>) -> int {
    (if bits[0] {
        1int
    } else {
        0
    }) + (if bits[1] {
        2int
    } else {
        0
    }) + (if bits[2] {
        4int
    } else {
        0
    }) + (if bits[3] {
        8int
    } else {
        0
    }) + (if bits[4] {
        16int
    } else {
        0
    }) + (if bits[5] {
        32int
    } else {
        0
    })
}

/// The six bits of a level of the tree are its binary digits from the lowest, and those of a note
/// commitment are the digits of 63, which is no level.
pub proof fn lemma_personal_digits(p: Personalization)
    requires
        is_personalization(p),
    ensures
        personal_bits(p).len() == 6,
        p matches Personalization::MerkleTree(num) ==> six_bit_value(personal_bits(p)) == num,
        p is NoteCommitment ==> six_bit_value(personal_bits(p)) == 63,
{
    if let Personalization::MerkleTree(num) = p {
        lemma_six_bits(num as int);
    }
}

/// Distinct personalizations have distinct bits.
pub proof fn lemma_personalizations_differ(p: Personalization, q: Personalization)
    requires
        is_personalization(p),
        is_personalization(q),
        personal_bits(p) == personal_bits(q),
    ensures
        p == q,
{
    lemma2_to64();
    let (a, b) = (personal_bits(p), personal_bits(q));
    assert(a[0] == b[0] && a[1] == b[1] && a[2] == b[2] && a[3] == b[3] && a[4] == b[4] && a[5]
        == b[5]);
    if let Personalization::MerkleTree(m) = p {
        lemma_six_bits(m as int);
    }
    if let Personalization::MerkleTree(m) = q {
        lemma_six_bits(m as int);
    }
}

/// Six bits determine a number.
proof fn lemma_six_bits(m: int)
    requires
        0 <= m < 64,
    ensures
        m == (if bit_of(m, 0) {
            1int
        } else {
            0
        }) + (if bit_of(m, 1) {
            2int
        } else {
            0
        }) + (if bit_of(m, 2) {
            4int
        } else {
            0
        }) + (if bit_of(m, 3) {
            8int
        } else {
            0
        }) + (if bit_of(m, 4) {
            16int
        } else {
            0
        }) + (if bit_of(m, 5) {
            32int
        } else {
            0
        }),
{
    lemma2_to64();
    let (m1, m2, m3, m4, m5) = (m / 2, m / 4, m / 8, m / 16, m / 32);
    assert(m / 1 == m);
    assert(m1 / 2 == m2 && m2 / 2 == m3 && m3 / 2 == m4 && m4 / 2 == m5);
    assert(m == m % 2 + 2 * m1 && m1 == m1 % 2 + 2 * m2 && m2 == m2 % 2 + 2 * m3);
    assert(m3 == m3 % 2 + 2 * m4 && m4 == m4 % 2 + 2 * m5);
    assert(m5 == m5 % 2);
}

impl Personalization {
    /// The six bits that stand before the message.
    pub fn get_bits(&self) -> (r: Vec<bool>)
        requires
            is_personalization(*self),
        ensures
            r@ == personal_bits(*self),
            r@.len() == 6,
            *self matches Personalization::MerkleTree(num) ==> six_bit_value(r@) == num,
            *self is NoteCommitment ==> six_bit_value(r@) == 63,
    {
        proof {
            lemma_personal_digits(*self);
        }
        let mut r: Vec<bool> = Vec::new();
        match *self {
            Personalization::NoteCommitment => {
                let mut i: usize = 0;
                while i < 6
                    invariant
                        i <= 6,
                        r@.len() == i,
                        forall|k: int| 0 <= k < i ==> #[trigger] r@[k],
                    decreases 6 - i,
                {
                    r.push(true);
                    i += 1;
                }
            },
            Personalization::MerkleTree(num) => {
                let mut rest = num;
                let mut i: usize = 0;
                proof {
                    lemma2_to64();
                }
                while i < 6
                    invariant
                        i <= 6,
                        rest == num as int / pow2(i as nat) as int,
                        r@.len() == i,
                        forall|k: int| 0 <= k < i ==> #[trigger] r@[k] == bit_of(num as int, k),
                    decreases 6 - i,
                {
                    r.push(rest % 2 == 1);
                    proof {
                        lemma2_to64();
                        lemma_pow2_adds(i as nat, 1);
                        lemma_pow2_pos(i as nat);
                        lemma_div_denominator(num as int, pow2(i as nat) as int, 2);
                    }
                    rest = rest / 2;
                    i += 1;
                }
            },
        }
        assert(r@ =~= personal_bits(*self));
        r
    }
}

/// The bits of a personalization and a message; `None` where the generators do not suffice.
pub fn collect_bounded_bits(
    personalization: Personalization,
    bits: &Vec<bool>,
    generators: usize,
) -> (r: Option<Vec<bool>>)
    requires
        is_personalization(personalization),
    ensures
        r is Some <==> 6 + bits@.len() <= BITS_PER_GENERATOR * generators,
        r is Some <==> 6 + bits@.len() <= 189 * generators,
        r matches Some(v) ==> v@ == personal_bits(personalization) + bits@ && segment_count(v@)
            <= generators,
{
    let n = bits.len();
    // The number of generators that the bits take, without a product that could overflow.
    let needed = if n < BITS_PER_GENERATOR - 6 {
        1
    } else {
        let rest = n - (BITS_PER_GENERATOR - 6);
        if rest % BITS_PER_GENERATOR == 0 {
            1 + rest / BITS_PER_GENERATOR
        } else {
            2 + rest / BITS_PER_GENERATOR
        }
    };
    if needed > generators {
        return None;
    }
    let mut r = personalization.get_bits();
    let mut i: usize = 0;
    while i < n
        invariant
            i <= n,
            n == bits@.len(),
            r@ == personal_bits(personalization) + bits@.take(i as int),
        decreases n - i,
    {
        r.push(bits[i]);
        proof {
            assert(bits@.take(i + 1) =~= bits@.take(i as int).push(bits@[i as int]));
            assert(r@ =~= personal_bits(personalization) + bits@.take(i + 1));
        }
        i += 1;
    }
    assert(bits@.take(n as int) =~= bits@);
    Some(r)
}

/// The hash of a message with one more false bit: it is the hash of the message where the last
/// chunk has room for the bit, and otherwise that hash with the weight of the next chunk added.
/// Chunks beyond the message are never added.
pub proof fn lemma_hash_of_one_more_false_bit(
    personalization: Personalization,
    bits: Seq<bool>,
    gens: Seq<(int, int)>,
)
    requires
        are_generators(gens),
        6 + bits.len() + 1 <= BITS_PER_GENERATOR * gens.len(),
    ensures
        bits.len() % 3 != 0 ==> pedersen_point(
            personal_bits(personalization) + bits.push(false),
            gens,
        ) == pedersen_point(personal_bits(personalization) + bits, gens),
        bits.len() % 3 == 0 ==> {
            let t = (bits.len() as int + 6) / 3;
            pedersen_point(personal_bits(personalization) + bits.push(false), gens) == ed_add(
                pedersen_point(personal_bits(personalization) + bits, gens),
                zmul(pow2((4 * (t % 63)) as nat) as int, gens[t / 63]),
            )
        },
{
    let all = personal_bits(personalization) + bits;
    assert(all.push(false) =~= personal_bits(personalization) + bits.push(false));
    lemma_one_more_false_bit(all, gens);
}

/// The Pedersen hash of bits under a personalization, by windows of scalars.
pub fn pedersen_hash(
    tables: &ExpTables,
    personalization: Personalization,
    bits: &Vec<bool>,
) -> (r: jubjub::ExtendedPoint)
    requires
        is_personalization(personalization),
        6 + bits@.len() <= BITS_PER_GENERATOR * tables.generators().len(),
    ensures
        are_generators(tables.generators()) ==> coordinates(r) == pedersen_point(
            personal_bits(personalization) + bits@,
            tables.generators(),
        ),
{
    let all = collect_bounded_bits(personalization, bits, tables.len()).unwrap();
    tables.windowed_pedersen_hash(&all)
}

/// The Pedersen hash of bits under a personalization, by blocks of chunks: the same point.
pub fn pedersen_hash_fused(
    tables: &FusedTables,
    personalization: Personalization,
    bits: &Vec<bool>,
) -> (r: jubjub::ExtendedPoint)
    requires
        is_personalization(personalization),
        6 + bits@.len() <= BITS_PER_GENERATOR * tables.generators().len(),
    ensures
        are_generators(tables.generators()) ==> coordinates(r) == pedersen_point(
            personal_bits(personalization) + bits@,
            tables.generators(),
        ),
{
    let all = collect_bounded_bits(personalization, bits, tables.len()).unwrap();
    tables.fused_pedersen_hash(&all)
}

} // verus!

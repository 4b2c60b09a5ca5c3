//! Sinsemilla hash domains.
use crate::curve::affine::Affine;
use crate::curve::combination::all_on_curve;
use crate::curve::law::{
    lemma_associative, lemma_closed, lemma_commutative, on_curve, plus, Pt,
};
use crate::curve::point::Point;
use crate::curve::Pallas;
use crate::field::{Fp, Modulus};
use vstd::arithmetic::power2::{lemma2_to64, lemma_pow2_adds, pow2};
use vstd::prelude::*;

verus! {

/// The number of bits of a word.
pub const K: usize = 10;

/// The largest number of words of a message.
pub const C: usize = 253;

/// The number of generators: one for each word.
pub const GENERATOR_COUNT: usize = 1024;

/// The coordinate that is extracted from a point: zero for the neutral element.
pub open spec fn extracted(p: Pt) -> int {
    match p {
        Pt::Infinity => 0,
        Pt::At { x, y } => x,
    }
}

/// The first coordinate of a point, or zero for the neutral element.
pub fn extract(point: Point<Pallas>) -> (r: Fp)
    ensures
        r@ == extracted(point@),
{
    point.x_or_zero()
}

/// The bit at a position, or zero behind the end.
pub open spec fn bit_at(bits: Seq<bool>, i: int) -> int {
    if 0 <= i < bits.len() && bits[i] {
        1
    } else {
        0
    }
}

/// The number of words of a message.
pub open spec fn word_count(bits: Seq<bool>) -> int {
    (bits.len() + 9) as int / 10
}

/// The sum of the first bits of a word.
pub open spec fn partial_word(bits: Seq<bool>, start: int, count: nat) -> int
    decreases count,
{
    if count == 0 {
        0
    } else {
        partial_word(bits, start, (count - 1) as nat) + bit_at(bits, start + count - 1) * pow2(
            (count - 1) as nat,
        )
    }
}

/// The words of a message: ten bits each, lowest bit first, with zeros behind the end.
pub open spec fn words_of(bits: Seq<bool>) -> Seq<int> {
    Seq::new(word_count(bits) as nat, |i: int| partial_word(bits, 10 * i, 10))
}

/// A partial word is below a power of two.
proof fn lemma_partial_word(bits: Seq<bool>, start: int, count: nat)
    ensures
        0 <= partial_word(bits, start, count) < pow2(count),
    decreases count,
{
    lemma2_to64();
    if count > 0 {
        lemma_partial_word(bits, start, (count - 1) as nat);
        lemma_pow2_adds(1, (count - 1) as nat);
        let p = pow2((count - 1) as nat) as int;
        assert(0 * p == 0 && 1 * p == p);
    }
}

/// The words of a message.
pub fn message_words(bits: &Vec<bool>) -> (r: Vec<u16>)
    ensures
        r@.len() == word_count(bits@),
        forall|i: int|
            0 <= i < r@.len() ==> (#[trigger] r@[i]) as int == words_of(bits@)[i] && r@[i]
                < GENERATOR_COUNT,
{
    let n = bits.len();
    let count = if n % 10 == 0 {
        n / 10
    } else {
        n / 10 + 1
    };
    let mut r: Vec<u16> = Vec::new();
    let mut i: usize = 0;
    while i < count
        invariant
            i <= count,
            n == bits@.len(),
            count == word_count(bits@),
            r@.len() == i,
            forall|k: int|
                0 <= k < i ==> (#[trigger] r@[k]) as int == words_of(bits@)[k] && r@[k]
                    < GENERATOR_COUNT,
        decreases count - i,
    {
        let mut word: u16 = 0;
        let mut weight: u16 = 1;
        let mut b: usize = 0;
        proof {
            lemma2_to64();
        }
        while b < 10
            invariant
                b <= 10,
                i < count,
                n == bits@.len(),
                count == word_count(bits@),
                word == partial_word(bits@, 10 * i, b as nat),
                weight == pow2(b as nat),
            decreases 10 - b,
        {
            proof {
                lemma2_to64();
                lemma_partial_word(bits@, 10 * i, b as nat);
                lemma_pow2_adds(1, b as nat);
                assert(pow2(b as nat) <= 512) by {
                    if b < 9 {
                        vstd::arithmetic::power2::lemma_pow2_strictly_increases(b as nat, 9);
                    }
                }
                assert(0 * pow2(b as nat) == 0 && 1 * pow2(b as nat) == pow2(b as nat));
            }
            if i * 10 < n && b < n - i * 10 && bits[i * 10 + b] {
                word = word + weight;
            }
            weight = weight * 2;
            b += 1;
        }
        proof {
            lemma2_to64();
            lemma_partial_word(bits@, 10 * i, 10);
        }
        r.push(word);
        i += 1;
    }
    r
}

/// The sum of two points that are not neutral and have different first coordinates.
pub open spec fn incomplete(a: Pt, b: Pt) -> Option<Pt> {
    match (a, b) {
        (Pt::At { x: x1, y: y1 }, Pt::At { x: x2, y: y2 }) => if x1 == x2 {
            None
        } else {
            Some(plus::<Pallas>(a, b))
        },
        _ => None,
    }
}

/// One step of the hash with incomplete additions.
pub open spec fn incomplete_step(a: Pt, s: Pt) -> Option<Pt> {
    match incomplete(a, s) {
        None => None,
        Some(t) => incomplete(t, a),
    }
}

/// The hash of words with incomplete additions.
pub open spec fn checked_hash(q: Pt, s: Seq<Pt>, words: Seq<int>) -> Option<Pt>
    decreases words.len(),
{
    if words.len() == 0 {
        Some(q)
    } else {
        match checked_hash(q, s, words.drop_last()) {
            None => None,
            Some(a) => incomplete_step(a, s[words.last()]),
        }
    }
}

/// The hash of words with complete additions: every step doubles the accumulator and adds the
/// generator of the word.
pub open spec fn complete_hash(q: Pt, s: Seq<Pt>, words: Seq<int>) -> Pt
    decreases words.len(),
{
    if words.len() == 0 {
        q
    } else {
        let a = complete_hash(q, s, words.drop_last());
        plus::<Pallas>(plus::<Pallas>(a, a), s[words.last()])
    }
}

/// Every word has a generator.
pub open spec fn are_words(words: Seq<int>) -> bool {
    forall|i: int| 0 <= i < words.len() ==> 0 <= #[trigger] words[i] < GENERATOR_COUNT
}

/// The hash of words is on the curve.
pub proof fn lemma_complete_closed(q: Pt, s: Seq<Pt>, words: Seq<int>)
    requires
        on_curve::<Pallas>(q),
        all_on_curve::<Pallas>(s),
        s.len() == GENERATOR_COUNT,
        are_words(words),
    ensures
        on_curve::<Pallas>(complete_hash(q, s, words)),
    decreases words.len(),
{
    if words.len() > 0 {
        let front = words.drop_last();
        assert(are_words(front)) by {
            assert forall|i: int| 0 <= i < front.len() implies 0 <= #[trigger] front[i]
                < GENERATOR_COUNT by {
                assert(0 <= words[i] < GENERATOR_COUNT);
            }
        }
        lemma_complete_closed(q, s, front);
        let a = complete_hash(q, s, front);
        lemma_closed::<Pallas>(a, a);
        assert(0 <= words[words.len() - 1] < GENERATOR_COUNT);
        lemma_closed::<Pallas>(plus::<Pallas>(a, a), s[words.last()]);
    }
}

/// Where the hash with incomplete additions is defined, it is the hash with complete additions.
pub proof fn lemma_checked_is_complete(q: Pt, s: Seq<Pt>, words: Seq<int>)
    requires
        on_curve::<Pallas>(q),
        all_on_curve::<Pallas>(s),
        s.len() == GENERATOR_COUNT,
        are_words(words),
    ensures
        checked_hash(q, s, words) matches Some(p) ==> p == complete_hash(q, s, words),
    decreases words.len(),
{
    if words.len() > 0 {
        let front = words.drop_last();
        assert(are_words(front)) by {
            assert forall|i: int| 0 <= i < front.len() implies 0 <= #[trigger] front[i]
                < GENERATOR_COUNT by {
                assert(0 <= words[i] < GENERATOR_COUNT);
            }
        }
        lemma_checked_is_complete(q, s, front);
        lemma_complete_closed(q, s, front);
        let a = complete_hash(q, s, front);
        assert(0 <= words[words.len() - 1] < GENERATOR_COUNT);
        let g = s[words.last()];
        // (a + g) + a == (a + a) + g
        lemma_closed::<Pallas>(a, g);
        lemma_commutative::<Pallas>(plus::<Pallas>(a, g), a);
        lemma_associative::<Pallas>(a, a, g);
    }
}

/// A hash domain: an initial point and the generators of the words.
#[derive(Debug)]
pub struct HashDomain {
    q: Point<Pallas>,
    generators: Vec<Affine<Pallas>>,
}

/// The points of a list.
pub open spec fn views(points: Seq<Affine<Pallas>>) -> Seq<Pt> {
    Seq::new(points.len(), |i: int| points[i]@)
}

impl HashDomain {
    #[verifier::type_invariant]
    spec fn complete(self) -> bool {
        self.generators@.len() == GENERATOR_COUNT
    }

    /// The initial point.
    pub closed spec fn initial(self) -> Pt {
        self.q@
    }

    /// The generators of the words.
    pub closed spec fn bases(self) -> Seq<Pt> {
        views(self.generators@)
    }

    /// The domain with the given initial point and generators.
    #[allow(non_snake_case)]
    pub fn from_Q(q: Point<Pallas>, generators: Vec<Affine<Pallas>>) -> (r: Self)
        requires
            generators@.len() == GENERATOR_COUNT,
        ensures
            r.initial() == q@,
            r.bases() == views(generators@),
    {
        HashDomain { q, generators }
    }

    /// The initial point.
    pub fn q(&self) -> (r: Point<Pallas>)
        ensures
            r@ == self.initial(),
    {
        self.q
    }

    /// The generator of a word.
    pub fn generator(&self, word: usize) -> (r: Affine<Pallas>)
        requires
            word < GENERATOR_COUNT,
        ensures
            r@ == self.bases()[word as int],
            self.bases().len() == GENERATOR_COUNT,
    {
        proof {
            use_type_invariant(self);
        }
        self.generators[word]
    }

    /// The hash of a message as a point; `None` where an incomplete addition is not defined.
    pub fn hash_to_point(&self, msg: &Vec<bool>) -> (r: Option<Point<Pallas>>)
        ensures
            r is None <==> checked_hash(self.initial(), self.bases(), words_of(msg@)) is None,
            r matches Some(p) ==> checked_hash(self.initial(), self.bases(), words_of(msg@))
                == Some(p@),
    {
        let words = message_words(msg);
        let ghost all = words_of(msg@);
        let mut acc = self.q;
        let mut i: usize = 0;
        assert(all.take(0) =~= Seq::empty());
        while i < words.len()
            invariant
                i <= words@.len(),
                all == words_of(msg@),
                words@.len() == all.len(),
                forall|k: int|
                    0 <= k < words@.len() ==> (#[trigger] words@[k]) as int == all[k] && words@[k]
                        < GENERATOR_COUNT,
                checked_hash(self.initial(), self.bases(), all.take(i as int)) == Some(acc@),
            decreases words@.len() - i,
        {
            let word = words[i] as usize;
            let generator = Point::from_affine(self.generator(word));
            proof {
                assert(all.take(i + 1).drop_last() =~= all.take(i as int));
                assert(all.take(i + 1).last() == words@[i as int]);
                if checked_hash(self.initial(), self.bases(), all.take(i + 1)) is None {
                    lemma_checked_prefix(self.initial(), self.bases(), all, i + 1);
                }
            }
            let sum = match add_incomplete(acc, generator) {
                Some(sum) => sum,
                None => {
                    return None;
                },
            };
            acc = match add_incomplete(sum, acc) {
                Some(next) => next,
                None => {
                    return None;
                },
            };
            i += 1;
        }
        assert(all.take(i as int) =~= all);
        Some(acc)
    }

    /// The hash of a message; `None` where an incomplete addition is not defined.
    pub fn hash(&self, msg: &Vec<bool>) -> (r: Option<Fp>)
        ensures
            r is None <==> checked_hash(self.initial(), self.bases(), words_of(msg@)) is None,
            r matches Some(v) ==> (checked_hash(self.initial(), self.bases(), words_of(msg@)) matches Some(
                p,
            ) && v@ == extracted(p)),
    {
        match self.hash_to_point(msg) {
            Some(point) => Some(extract(point)),
            None => None,
        }
    }
}

/// Once a step is not defined, the hash is not.
proof fn lemma_checked_prefix(q: Pt, s: Seq<Pt>, words: Seq<int>, i: int)
    requires
        0 <= i <= words.len(),
        checked_hash(q, s, words.take(i)) is None,
    ensures
        checked_hash(q, s, words) is None,
    decreases words.len() - i,
{
    if i == words.len() {
        assert(words.take(i) =~= words);
    } else {
        assert(words.take(i + 1).drop_last() =~= words.take(i));
        lemma_checked_prefix(q, s, words, i + 1);
    }
}

/// The incomplete sum of two points.
fn add_incomplete(a: Point<Pallas>, b: Point<Pallas>) -> (r: Option<Point<Pallas>>)
    ensures
        r is None <==> incomplete(a@, b@) is None,
        r matches Some(p) ==> incomplete(a@, b@) == Some(p@),
{
    if a.is_identity() || b.is_identity() || a.same_x(b) {
        None
    } else {
        Some(a.add(b))
    }
}

} // verus!

//! Joint recoding of the halves of a scalar as digits over the Eisenstein integers.
//!
//! A digit is zero or a unit times one of eight representatives `a + b * omega`, where
//! `omega` is a cube root of one.
use crate::field::congruence::{congruent, lemma_congruent_mod, lemma_congruent_ops};
use crate::field::{Fe, Modulus};
use crate::glv::params::two127;
use vstd::arithmetic::power2::{lemma2_to64, lemma2_to64_rest, lemma_pow2_adds, lemma_pow2_pos, pow2};
use vstd::prelude::*;

verus! {

/// The largest number of digits of a recoding.
pub const MAX_JOINT_DIGITS: usize = 132;

/// The coefficients of the representative of an orbit.
pub open spec fn delta(orbit: int) -> (int, int) {
    if orbit == 0 {
        (1, 0)
    } else if orbit == 1 {
        (1, -1)
    } else if orbit == 2 {
        (2, -1)
    } else if orbit == 3 {
        (1, -2)
    } else if orbit == 4 {
        (3, 0)
    } else if orbit == 5 {
        (3, -1)
    } else if orbit == 6 {
        (1, -3)
    } else {
        (2, -3)
    }
}

/// Multiplication with `omega`.
pub open spec fn rotate(c: (int, int)) -> (int, int) {
    (-c.1, c.0 - c.1)
}

/// The orbit of a nonzero digit.
pub open spec fn orbit_of(code: int) -> int {
    (code - 1) / 6
}

/// The number of rotations of a nonzero digit.
pub open spec fn rotation_of(code: int) -> int {
    ((code - 1) % 6) / 2
}

/// Whether a nonzero digit is negated.
pub open spec fn is_negated(code: int) -> bool {
    ((code - 1) % 6) % 2 == 1
}

/// The coefficients of a digit.
#[verifier::opaque]
pub open spec fn coeffs(code: int) -> (int, int) {
    if code == 0 {
        (0, 0)
    } else {
        let d = delta(orbit_of(code));
        let e = rotation_of(code);
        let r = if e == 0 {
            d
        } else if e == 1 {
            rotate(d)
        } else {
            rotate(rotate(d))
        };
        if is_negated(code) {
            (-r.0, -r.1)
        } else {
            r
        }
    }
}

/// The digits come in orbits of six: a representative, its multiples by `omega` and by the square
/// of `omega`, each followed by its negative.
pub proof fn lemma_digit_orbits(orbit: int)
    requires
        0 <= orbit < 8,
    ensures
        coeffs(0) == (0int, 0int),
        ({
            let (a, b) = coeffs(6 * orbit + 1);
            &&& coeffs(6 * orbit + 2) == (-a, -b)
            &&& coeffs(6 * orbit + 3) == (-b, a - b)
            &&& coeffs(6 * orbit + 4) == (b, b - a)
            &&& coeffs(6 * orbit + 5) == (b - a, -a)
            &&& coeffs(6 * orbit + 6) == (a - b, a)
        }),
        coeffs(1) == (1int, 0int),
        coeffs(7) == (1int, -1int),
        coeffs(13) == (2int, -1int),
        coeffs(19) == (1int, -2int),
        coeffs(25) == (3int, 0int),
        coeffs(31) == (3int, -1int),
        coeffs(37) == (1int, -3int),
        coeffs(43) == (2int, -3int),
{
    reveal(coeffs);
}

/// The value of a digit, with `z` in the place of `omega`.
pub open spec fn digit_value(code: int, z: int) -> int {
    coeffs(code).0 + coeffs(code).1 * z
}

/// The value of digits, lowest position first.
pub open spec fn digits_value(digits: Seq<u8>, z: int) -> int
    decreases digits.len(),
{
    if digits.len() == 0 {
        0
    } else {
        digit_value(digits[0] as int, z) + 2 * digits_value(digits.drop_first(), z)
    }
}

/// A digit at a new highest position adds its multiple of a power of two.
proof fn lemma_digits_push(digits: Seq<u8>, code: u8, z: int)
    ensures
        digits_value(digits.push(code), z) == digits_value(digits, z) + pow2(digits.len())
            * digit_value(code as int, z),
    decreases digits.len(),
{
    lemma2_to64();
    let v = digit_value(code as int, z);
    if digits.len() == 0 {
        let one = digits.push(code);
        assert(one.drop_first() =~= Seq::empty());
        assert(digits_value(one.drop_first(), z) == 0);
        assert(digits_value(one, z) == digit_value(code as int, z) + 2 * 0);
        assert(digits_value(digits, z) == 0);
        assert(1 * v == v);
    } else {
        let tail = digits.drop_first();
        lemma_digits_push(tail, code, z);
        assert(digits.push(code).drop_first() =~= tail.push(code));
        lemma_pow2_adds(1, tail.len());
        let p = pow2(tail.len());
        assert(pow2(digits.len()) == 2 * p);
        assert(2 * (p * v) == (2 * p) * v) by (nonlinear_arith);
    }
}

/// The representative of an orbit.
fn representative(orbit: usize) -> (r: (i8, i8))
    requires
        orbit < 8,
    ensures
        (r.0 as int, r.1 as int) == delta(orbit as int),
{
    match orbit {
        0 => (1, 0),
        1 => (1, -1),
        2 => (2, -1),
        3 => (1, -2),
        4 => (3, 0),
        5 => (3, -1),
        6 => (1, -3),
        _ => (2, -3),
    }
}

/// The orbit, the rotation and the sign of a nonzero digit.
pub fn decode_digit(code: u8) -> (r: (usize, usize, bool))
    requires
        1 <= code <= 48,
    ensures
        r.0 == orbit_of(code as int),
        r.1 == rotation_of(code as int),
        r.2 == is_negated(code as int),
        r.0 < 8,
        r.1 < 3,
{
    let v = (code - 1) as usize;
    (v / 6, (v % 6) / 2, (v % 6) % 2 == 1)
}

/// The coefficients of a nonzero digit.
pub fn digit_coeffs(code: u8) -> (r: (i8, i8))
    requires
        1 <= code <= 48,
    ensures
        (r.0 as int, r.1 as int) == coeffs(code as int),
        -5 <= r.0 <= 5,
        -5 <= r.1 <= 5,
{
    proof {
        reveal(coeffs);
    }
    let (orbit, e, negate) = decode_digit(code);
    let (a, b) = representative(orbit);
    let (a, b) = if e == 0 {
        (a, b)
    } else if e == 1 {
        (-b, a - b)
    } else {
        (b - a, -a)
    };
    if negate {
        (-a, -b)
    } else {
        (a, b)
    }
}

/// The residue of a small integer.
fn small_scalar<M: Modulus>(v: i8) -> (r: Fe<M>)
    requires
        -5 <= v <= 5,
    ensures
        congruent(r@, v as int, M::p()),
{
    proof {
        M::lemma_modulus();
        if v < 0 {
            lemma_congruent_mod(v as int, M::p());
        }
    }
    if v < 0 {
        Fe::from_u64((-v) as u64).neg()
    } else {
        Fe::from_u64(v as u64)
    }
}

/// The scalar that a nonzero digit multiplies with.
pub fn digit_scalar<M: Modulus>(code: u8) -> (r: Fe<M>)
    requires
        1 <= code <= 48,
    ensures
        r@ == digit_value(code as int, M::cube_root()) % M::p(),
{
    let (a, b) = digit_coeffs(code);
    let (x, y, z) = (small_scalar::<M>(a), small_scalar::<M>(b), Fe::<M>::zeta());
    proof {
        M::lemma_modulus();
        lemma_congruent_mod(y@ * z@, M::p());
        lemma_congruent_ops(y@, b as int, z@, z@, M::p());
        lemma_congruent_ops(x@, a as int, (y@ * z@) % M::p(), b * z@, M::p());
    }
    x.add(y.mul(z))
}

/// The digit for residues modulo eight: zero where both are even, and the nonzero digit with
/// these residues elsewhere.
fn joint_digit(index: u8) -> (r: (i8, i8, u8))
    requires
        index < 64,
    ensures
        r.2 <= 48,
        (r.0 as int, r.1 as int) == coeffs(r.2 as int),
        -5 <= r.0 <= 5,
        -5 <= r.1 <= 5,
        r.2 == 0 <==> (index / 8) % 2 == 0 && index % 2 == 0,
        r.2 != 0 ==> (r.0 - index / 8) % 8 == 0 && (r.1 - index % 8) % 8 == 0,
{
    proof {
        reveal(coeffs);
    }
    match index {
        0 => (0, 0, 0),
        1 => (0, 1, 3),
        2 => (0, 0, 0),
        3 => (0, 3, 27),
        4 => (0, 0, 0),
        5 => (0, -3, 28),
        6 => (0, 0, 0),
        7 => (0, -1, 4),
        8 => (1, 0, 1),
        9 => (1, 1, 6),
        10 => (1, 2, 9),
        11 => (1, 3, 15),
        12 => (1, 4, 33),
        13 => (1, -3, 37),
        14 => (1, -2, 19),
        15 => (1, -1, 7),
        16 => (0, 0, 0),
        17 => (2, 1, 12),
        18 => (0, 0, 0),
        19 => (2, 3, 21),
        20 => (0, 0, 0),
        21 => (2, -3, 43),
        22 => (0, 0, 0),
        23 => (2, -1, 13),
        24 => (3, 0, 25),
        25 => (3, 1, 24),
        26 => (3, 2, 18),
        27 => (3, 3, 30),
        28 => (3, 4, 39),
        29 => (3, 5, 45),
        30 => (-5, -2, 47),
        31 => (3, -1, 31),
        32 => (0, 0, 0),
        33 => (4, 1, 42),
        34 => (0, 0, 0),
        35 => (4, 3, 36),
        36 => (0, 0, 0),
        37 => (-4, -3, 35),
        38 => (0, 0, 0),
        39 => (-4, -1, 41),
        40 => (-3, 0, 26),
        41 => (-3, 1, 32),
        42 => (5, 2, 48),
        43 => (-3, -5, 46),
        44 => (-3, -4, 40),
        45 => (-3, -3, 29),
        46 => (-3, -2, 17),
        47 => (-3, -1, 23),
        48 => (0, 0, 0),
        49 => (-2, 1, 14),
        50 => (0, 0, 0),
        51 => (-2, 3, 44),
        52 => (0, 0, 0),
        53 => (-2, -3, 22),
        54 => (0, 0, 0),
        55 => (-2, -1, 11),
        56 => (-1, 0, 2),
        57 => (-1, 1, 8),
        58 => (-1, 2, 20),
        59 => (-1, 3, 38),
        60 => (-1, -4, 34),
        61 => (-1, -3, 16),
        62 => (-1, -2, 10),
        _ => (-1, -1, 5),
    }
}

/// The residue modulo eight.
fn low_bits(a: i128) -> (r: u8)
    requires
        -two127() < a < two127(),
    ensures
        r == a % 8,
        r < 8,
{
    if a >= 0 {
        ((a as u128) % 8) as u8
    } else {
        let m = (((-a) as u128) % 8) as u8;
        if m == 0 {
            0
        } else {
            8 - m
        }
    }
}

/// The half, rounded down.
fn half(a: i128) -> (r: i128)
    requires
        -two127() < a < two127(),
    ensures
        r == a as int / 2,
{
    if a >= 0 {
        ((a as u128) / 2) as i128
    } else {
        -((((-(a + 1)) as u128) / 2) as i128) - 1
    }
}

spec fn within(a: int, b: int, bound: int) -> bool {
    -bound <= a <= bound && -bound <= b <= bound
}

/// A bound on the number of digits of small coefficients.
spec fn remaining(a: int, b: int) -> int {
    if a == 0 && b == 0 {
        0
    } else if within(a, b, 2) && (a % 2 != 0 || b % 2 != 0) {
        1
    } else if within(a, b, 2) {
        2
    } else if a % 2 == 0 && b % 2 == 0 {
        3
    } else {
        4
    }
}

/// The coefficients that are left after `n` digits are small enough.
spec fn bounded(a: int, b: int, n: nat) -> bool {
    &&& n < 127 ==> within(a, b, 4 + pow2((127 - n) as nat) as int)
    &&& n >= 127 ==> within(a, b, 5) && n + remaining(a, b) <= 131
}

/// A digit brings the coefficients closer to zero.
proof fn lemma_bounded(pa: int, pb: int, da: int, db: int, a: int, b: int, n: nat)
    requires
        pa == da + 2 * a,
        pb == db + 2 * b,
        within(da, db, 5),
        pa % 2 == 0 && pb % 2 == 0 ==> da == 0 && db == 0,
        pa % 2 != 0 || pb % 2 != 0 ==> a % 4 == 0 && b % 4 == 0,
        pa != 0 || pb != 0,
        bounded(pa, pb, n),
    ensures
        bounded(a, b, n + 1),
        n < 131,
{
    if n < 127 {
        lemma_pow2_adds(1, (126 - n) as nat);
        lemma2_to64();
        lemma_pow2_pos((126 - n) as nat);
        assert(pow2((127 - n) as nat) == 2 * pow2((126 - n) as nat));
        if n == 126 {
            assert(pow2(0) == 1);
        }
    }
}

/// Every nonzero digit is followed by two zeros.
pub open spec fn is_sparse(digits: Seq<u8>) -> bool {
    forall|i: int, j: int|
        0 <= i < j < digits.len() && j <= i + 2 && #[trigger] digits[i] != 0
            ==> #[trigger] digits[j] == 0
}

/// The index of a pair of residues.
proof fn lemma_index(la: int, lb: int)
    requires
        0 <= la < 8,
        0 <= lb < 8,
    ensures
        (la * 8 + lb) / 8 == la,
        (la * 8 + lb) % 8 == lb,
        (la * 8 + lb) % 2 == lb % 2,
{
}

/// The coefficient of a digit has the parity of the number, and a nonzero digit leaves a multiple
/// of eight.
proof fn lemma_residues(a: int, d: int, la: int, lb: int, nonzero: bool)
    requires
        la == a % 8,
        nonzero ==> (d - la) % 8 == 0,
        !nonzero ==> d == 0 && la % 2 == 0,
    ensures
        a - d == 2 * (a / 2 - d / 2),
        nonzero ==> (a / 2 - d / 2) % 4 == 0,
        a % 2 == la % 2,
{
}

pub(crate) proof fn lemma_zero_digit()
    ensures
        coeffs(0) == (0int, 0int),
{
    reveal(coeffs);
}

/// The next digit, and the coefficients that are left.
fn joint_step(a: i128, b: i128) -> (r: (i128, i128, u8))
    requires
        -two127() < a < two127(),
        -two127() < b < two127(),
    ensures
        r.2 <= 48,
        r.2 == 0 <==> a % 2 == 0 && b % 2 == 0,
        coeffs(r.2 as int) == (a - 2 * r.0, b - 2 * r.1),
        within(a - 2 * r.0, b - 2 * r.1, 5),
        r.2 == 0 ==> a == 2 * r.0 && b == 2 * r.1,
        r.2 != 0 ==> r.0 % 4 == 0 && r.1 % 4 == 0,
{
    let (la, lb) = (low_bits(a), low_bits(b));
    let (da, db, code) = joint_digit(la * 8 + lb);
    proof {
        lemma_zero_digit();
        lemma_residues(a as int, da as int, la as int, lb as int, code != 0);
        lemma_residues(b as int, db as int, lb as int, la as int, code != 0);
        lemma_index(la as int, lb as int);
    }
    let (a1, b1) = (half(a) - half(da as i128), half(b) - half(db as i128));
    (a1, b1, code)
}

/// The recoding of `a + b * omega`, lowest position first.
pub fn joint_digits(a: i128, b: i128) -> (digits: Vec<u8>)
    requires
        -two127() < a < two127(),
        -two127() < b < two127(),
    ensures
        digits@.len() <= MAX_JOINT_DIGITS,
        forall|z: int| #[trigger] digits_value(digits@, z) == a + b * z,
        forall|i: int| 0 <= i < digits@.len() ==> #[trigger] digits@[i] <= 48,
        digits@.len() > 0 ==> digits@.last() != 0,
        is_sparse(digits@),
{
    let (a0, b0) = (a, b);
    let (mut a, mut b) = (a, b);
    let mut digits: Vec<u8> = Vec::new();
    proof {
        lemma2_to64();
        lemma2_to64_rest();
        lemma_pow2_adds(64, 63);
        assert forall|z: int| #[trigger] digits_value(digits@, z) + pow2(0) * (a + b * z) == a0 + b0
            * z by {
            assert(1 * (a + b * z) == a + b * z);
        }
    }
    while a != 0 || b != 0
        invariant
            bounded(a as int, b as int, digits@.len()),
            -two127() < a < two127(),
            -two127() < b < two127(),
            forall|z: int|
                #[trigger] digits_value(digits@, z) + pow2(digits@.len()) * (a + b * z) == a0 + b0
                    * z,
            forall|i: int| 0 <= i < digits@.len() ==> #[trigger] digits@[i] <= 48,
            digits@.len() > 0 && a == 0 && b == 0 ==> digits@.last() != 0,
            is_sparse(digits@),
            digits@.len() > 0 && digits@[digits@.len() - 1] != 0 ==> a % 4 == 0 && b % 4 == 0,
            digits@.len() > 1 && digits@[digits@.len() - 2] != 0 ==> a % 2 == 0 && b % 2 == 0,
        decreases 132 - digits@.len(),
    {
        let (a1, b1, code) = joint_step(a, b);
        let ghost (pa, pb, before) = (a as int, b as int, digits@);
        let ghost (da, db) = (pa - 2 * a1, pb - 2 * b1);
        digits.push(code);
        a = a1;
        b = b1;
        proof {
            let n = before.len();
            assert forall|z: int| #[trigger] digits_value(digits@, z) + pow2(n + 1) * (a + b * z)
                == a0 + b0 * z by {
                lemma_digits_push(before, code, z);
                assert(digits_value(before, z) + pow2(n) * (pa + pb * z) == a0 + b0 * z);
                lemma_pow2_adds(1, n);
                lemma2_to64();
                let (p, v, w) = (pow2(n) as int, da + db * z, a + b * z);
                assert(pow2(n + 1) == 2 * p);
                assert(pb * z == db * z + 2 * (b * z)) by (nonlinear_arith)
                    requires
                        pb == db + 2 * b,
                ;
                assert(p * (v + 2 * w) == p * v + (2 * p) * w) by (nonlinear_arith);
            }
            lemma_bounded(pa, pb, da, db, a as int, b as int, n);
            assert(is_sparse(digits@)) by {
                assert forall|i: int, j: int|
                    0 <= i < j < digits@.len() && j <= i + 2 && #[trigger] digits@[i]
                        != 0 implies #[trigger] digits@[j] == 0 by {
                    if j < n {
                        assert(before[i] != 0 && before[j] == 0);
                    } else {
                        assert(before[i] != 0);
                    }
                }
            }
        }
    }
    proof {
        assert forall|z: int| #[trigger] digits_value(digits@, z) == a0 + b0 * z by {
            assert(0 * z == 0);
            assert(pow2(digits@.len()) * 0 == 0) by (nonlinear_arith);
        }
    }
    digits
}

} // verus!

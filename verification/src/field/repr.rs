//! Byte and bit encodings of field elements.
use crate::field::limbs::{limbs_value, sub_limbs, Limbs};
use crate::field::{Fe, Modulus};
use vstd::arithmetic::div_mod::{
    lemma_div_denominator, lemma_hoist_over_denominator, lemma_mod_multiples_vanish,
    lemma_small_mod,
};
use vstd::arithmetic::power2::{lemma2_to64, lemma2_to64_rest, lemma_pow2_adds, lemma_pow2_pos, pow2};
use vstd::prelude::*;

verus! {

/// The number of bytes of an encoding.
pub const REPR_BYTES: usize = 32;

/// The value of bytes, lowest byte first.
pub open spec fn bytes_value(bytes: Seq<u8>) -> int
    decreases bytes.len(),
{
    if bytes.len() == 0 {
        0
    } else {
        bytes[0] + 256 * bytes_value(bytes.drop_first())
    }
}

/// The bit of a value at a position.
pub open spec fn bit_of(value: int, i: int) -> bool {
    (value / pow2(i as nat) as int) % 2 == 1
}

/// Bytes have a value below the power of 256 of their number.
pub proof fn lemma_bytes_bound(bytes: Seq<u8>)
    ensures
        0 <= bytes_value(bytes) < pow2(8 * bytes.len()),
    decreases bytes.len(),
{
    lemma2_to64();
    if bytes.len() > 0 {
        lemma_bytes_bound(bytes.drop_first());
        lemma_pow2_adds(8, 8 * (bytes.len() - 1) as nat);
        assert(8 + 8 * (bytes.len() - 1) as nat == 8 * bytes.len());
    }
}

/// Distinct byte strings of one length have distinct values: an encoding is unique.
pub proof fn lemma_bytes_unique(a: Seq<u8>, b: Seq<u8>)
    requires
        a.len() == b.len(),
        bytes_value(a) == bytes_value(b),
    ensures
        a == b,
    decreases a.len(),
{
    if a.len() > 0 {
        lemma_bytes_unique(a.drop_first(), b.drop_first());
        assert forall|i: int| 0 <= i < a.len() implies a[i] == b[i] by {
            if i > 0 {
                assert(a.drop_first()[i - 1] == b.drop_first()[i - 1]);
            }
        }
    }
    assert(a =~= b);
}

/// The value of joined byte strings.
proof fn lemma_concat(a: Seq<u8>, b: Seq<u8>)
    ensures
        bytes_value(a + b) == bytes_value(a) + pow2(8 * a.len()) * bytes_value(b),
    decreases a.len(),
{
    lemma2_to64();
    if a.len() == 0 {
        assert(a + b =~= b);
        assert(1 * bytes_value(b) == bytes_value(b));
    } else {
        assert((a + b).drop_first() =~= a.drop_first() + b);
        lemma_concat(a.drop_first(), b);
        lemma_pow2_adds(8, 8 * (a.len() - 1) as nat);
        assert(8 + 8 * (a.len() - 1) as nat == 8 * a.len());
        let (p, v) = (pow2(8 * (a.len() - 1) as nat) as int, bytes_value(b));
        assert(256 * (p * v) == (256 * p) * v) by (nonlinear_arith);
    }
}

/// Byte `i` of an encoding holds the eight bits of the value from position `8 * i` on.
pub proof fn lemma_bytes_are_digits(bytes: Seq<u8>, i: nat)
    requires
        i < bytes.len(),
    ensures
        (bytes_value(bytes) / pow2(8 * i) as int) % 256 == bytes[i as int],
{
    lemma_shift_bytes(bytes, i);
    let rest = bytes.skip(i as int);
    assert(rest[0] == bytes[i as int]);
    let high = bytes_value(rest.drop_first());
    assert(bytes_value(rest) == rest[0] + 256 * high);
}

/// The sum of the powers of two at the first `n` bits that are set.
pub open spec fn sum_of_bits(value: int, n: nat) -> int
    decreases n,
{
    if n == 0 {
        0
    } else {
        sum_of_bits(value, (n - 1) as nat) + if bit_of(value, n - 1) {
            pow2((n - 1) as nat) as int
        } else {
            0
        }
    }
}

/// The bits of a value add up to it: the first `n` bits to its remainder modulo two to the `n`.
pub proof fn lemma_bits_add_up(value: int, n: nat)
    requires
        0 <= value,
    ensures
        sum_of_bits(value, n) == value % pow2(n) as int,
    decreases n,
{
    lemma2_to64();
    if n == 0 {
        assert(value % 1 == 0);
    } else {
        let m = (n - 1) as nat;
        lemma_bits_add_up(value, m);
        lemma_pow2_pos(m);
        lemma_pow2_adds(m, 1);
        let p = pow2(m) as int;
        let (q, r) = (value / p, value % p);
        vstd::arithmetic::div_mod::lemma_fundamental_div_mod(value, p);
        vstd::arithmetic::div_mod::lemma_mod_bound(value, p);
        let (h, b) = (q / 2, q % 2);
        assert(value == (2 * p) * h + (p * b + r)) by (nonlinear_arith)
            requires
                value == p * q + r,
                q == 2 * h + b,
        ;
        assert(p * b == if b == 1 {
            p
        } else {
            0
        }) by (nonlinear_arith)
            requires
                b == 0 || b == 1,
        ;
        vstd::arithmetic::div_mod::lemma_fundamental_div_mod_converse(
            value,
            2 * p,
            h,
            p * b + r,
        );
    }
}

/// Shifting out whole bytes leaves the bytes behind them.
pub proof fn lemma_shift_bytes(bytes: Seq<u8>, o: nat)
    requires
        o <= bytes.len(),
    ensures
        bytes_value(bytes) / pow2(8 * o) as int == bytes_value(bytes.skip(o as int)),
    decreases o,
{
    lemma2_to64();
    if o == 0 {
        assert(bytes.skip(0) =~= bytes);
        assert(8 * o == 0 && bytes_value(bytes) / 1 == bytes_value(bytes));
    } else {
        let q = (o - 1) as nat;
        lemma_shift_bytes(bytes, q);
        lemma_pow2_adds(8 * q, 8);
        lemma_pow2_pos(8 * q);
        lemma_bytes_bound(bytes);
        lemma_div_denominator(bytes_value(bytes), pow2(8 * q) as int, 256);
        let rest = bytes.skip(q as int);
        assert(rest.drop_first() =~= bytes.skip(o as int));
        assert(8 * q + 8 == 8 * o);
        lemma_bytes_bound(rest.drop_first());
    }
}

/// The low bits of a shifted value do not depend on its high part.
pub proof fn lemma_low_bits(low: int, high: int, m: nat, s: nat, c: nat)
    requires
        0 <= low,
        s + c <= m,
    ensures
        ((low + pow2(m) * high) / pow2(s) as int) % pow2(c) as int == (low / pow2(s) as int)
            % pow2(c) as int,
{
    let (r, t) = ((m - s - c) as nat, (m - s) as nat);
    lemma_pow2_pos(s);
    lemma_pow2_pos(c);
    lemma_pow2_adds(s, t);
    lemma_pow2_adds(c, r);
    let (ps, pt, pc, pr) = (pow2(s) as int, pow2(t) as int, pow2(c) as int, pow2(r) as int);
    lemma_hoist_over_denominator(low, pt * high, pow2(s));
    assert((pt * high) * ps == (ps * pt) * high) by (nonlinear_arith);
    lemma_mod_multiples_vanish(pr * high, low / ps, pc);
    assert(pc * (pr * high) == (pc * pr) * high) by (nonlinear_arith);
}

/// The bytes of a limb.
fn limb_bytes(limb: u64, out: &mut Vec<u8>)
    requires
        old(out)@.len() <= 24,
    ensures
        final(out)@.len() == old(out)@.len() + 8,
        bytes_value(final(out)@) == bytes_value(old(out)@) + pow2(8 * old(out)@.len()) * limb,
{
    let ghost start = out@;
    let ghost base = pow2(8 * start.len()) as int;
    let mut rest: u64 = limb;
    let mut k: usize = 0;
    proof {
        lemma2_to64();
        assert(base * (1 * limb as int) == base * limb);
    }
    while k < 8
        invariant
            k <= 8,
            out@.len() == start.len() + k,
            base == pow2(8 * start.len()),
            bytes_value(out@) + pow2(8 * out@.len()) * rest == bytes_value(start) + base * limb,
            (rest as int) < pow2((64 - 8 * k) as nat),
        decreases 8 - k,
    {
        let byte = (rest % 256) as u8;
        let ghost before = out@;
        proof {
            lemma_concat(before, seq![byte]);
            assert(seq![byte].drop_first() =~= Seq::<u8>::empty());
            assert(bytes_value(seq![byte]) == byte) by {
                reveal_with_fuel(bytes_value, 2);
            }
            assert(before + seq![byte] =~= before.push(byte));
            lemma_pow2_adds(8 * before.len(), 8);
            lemma2_to64();
            lemma_pow2_adds(8, (56 - 8 * k) as nat);
            let (p, q) = (pow2(8 * before.len()) as int, (rest / 256) as int);
            assert(p * byte + (p * 256) * q == p * (byte + 256 * q)) by (nonlinear_arith);
            assert(8 * before.len() + 8 == 8 * (before.len() + 1));
        }
        out.push(byte);
        rest = rest / 256;
        k += 1;
    }
    proof {
        lemma2_to64();
        assert(rest == 0);
        assert(pow2(8 * out@.len()) * 0 == 0);
    }
}

/// The limb of eight bytes.
fn bytes_limb(bytes: &[u8; 32], start: usize) -> (r: u64)
    requires
        start <= 24,
    ensures
        r == bytes_value(bytes@.subrange(start as int, start + 8)),
{
    let mut r: u64 = 0;
    let mut k: usize = 8;
    let ghost end = start + 8;
    proof {
        assert(bytes@.subrange(end, end) =~= Seq::empty());
    }
    while k > 0
        invariant
            k <= 8,
            start <= 24,
            end == start + 8,
            r == bytes_value(bytes@.subrange(start + k, end)),
        decreases k,
    {
        k -= 1;
        proof {
            let s = bytes@.subrange(start + k, end);
            assert(s.drop_first() =~= bytes@.subrange(start + k + 1, end));
            lemma_bytes_bound(s);
            lemma_bytes_bound(s.drop_first());
            lemma2_to64_rest();
            lemma2_to64();
            assert(bytes_value(s) < pow2(64)) by {
                vstd::arithmetic::power2::lemma_pow2_strictly_increases(8 * s.len(), 65);
                if k > 0 {
                    vstd::arithmetic::power2::lemma_pow2_strictly_increases(8 * s.len(), 64);
                }
            }
        }
        r = r * 256 + bytes[start + k] as u64;
    }
    r
}

impl<M: Modulus> Fe<M> {
    /// The canonical encoding: the bytes of the residue, lowest byte first.
    pub fn to_repr(self) -> (r: [u8; 32])
        ensures
            bytes_value(r@) == self@,
    {
        let limbs = self.to_limbs();
        let mut out: Vec<u8> = Vec::new();
        limb_bytes(limbs[0], &mut out);
        limb_bytes(limbs[1], &mut out);
        limb_bytes(limbs[2], &mut out);
        limb_bytes(limbs[3], &mut out);
        proof {
            lemma2_to64();
            lemma2_to64_rest();
            lemma_pow2_adds(64, 64);
            lemma_pow2_adds(128, 64);
            assert(8 * 0nat == 0 && 8 * 8nat == 64 && 8 * 16nat == 128 && 8 * 24nat == 192);
            lemma_limb_order(limbs);
            assert(1 * limbs[0] as int == limbs[0]);
            let (l1, l2, l3) = (limbs[1] as int, limbs[2] as int, limbs[3] as int);
            let (p, q, t) = (pow2(64) as int, pow2(128) as int, pow2(192) as int);
            assert(p * l1 + q * l2 + t * l3 == 0x1_0000_0000_0000_0000 * (l1
                + 0x1_0000_0000_0000_0000 * (l2 + 0x1_0000_0000_0000_0000 * l3)))
                by (nonlinear_arith)
                requires
                    p == 0x1_0000_0000_0000_0000,
                    q == p * p,
                    t == q * p,
            ;
        }
        let mut r: [u8; 32] = [0; 32];
        let mut i: usize = 0;
        while i < 32
            invariant
                i <= 32,
                out@.len() == 32,
                bytes_value(out@) == self@,
                forall|k: int| 0 <= k < i ==> #[trigger] r@[k] == out@[k],
            decreases 32 - i,
        {
            r[i] = out[i];
            i += 1;
        }
        assert(r@ =~= out@);
        r
    }

    /// The element of a canonical encoding; a value that is not below the modulus is refused.
    pub fn from_repr(bytes: [u8; 32]) -> (r: Option<Self>)
        ensures
            r is Some <==> bytes_value(bytes@) < M::p(),
            r matches Some(v) ==> v@ == bytes_value(bytes@),
    {
        let limbs: Limbs = [
            bytes_limb(&bytes, 0),
            bytes_limb(&bytes, 8),
            bytes_limb(&bytes, 16),
            bytes_limb(&bytes, 24),
        ];
        proof {
            let b = bytes@;
            let (b0, b1, b2, b3) = (
                b.subrange(0, 8),
                b.subrange(8, 16),
                b.subrange(16, 24),
                b.subrange(24, 32),
            );
            assert(b =~= b0 + (b1 + (b2 + b3)));
            lemma_concat(b0, b1 + (b2 + b3));
            lemma_concat(b1, b2 + b3);
            lemma_concat(b2, b3);
            lemma2_to64_rest();
            lemma_limb_order(limbs);
            lemma_bytes_bound(b);
        }
        let (difference, below) = sub_limbs(&limbs, &M::limbs());
        if below {
            let v = Fe::from_raw(limbs);
            proof {
                lemma_small_mod(limbs_value(limbs) as nat, M::p() as nat);
            }
            Some(v)
        } else {
            None
        }
    }

    /// The 256 bits of the residue, lowest bit first.
    pub fn to_le_bits(self) -> (r: Vec<bool>)
        ensures
            r@.len() == 256,
            forall|i: int| 0 <= i < 256 ==> #[trigger] r@[i] == bit_of(self@, i),
    {
        let bytes = self.to_repr();
        let mut r: Vec<bool> = Vec::new();
        let mut i: usize = 0;
        while i < 256
            invariant
                i <= 256,
                bytes_value(bytes@) == self@,
                r@.len() == i,
                forall|k: int| 0 <= k < i ==> #[trigger] r@[k] == bit_of(self@, k),
            decreases 256 - i,
        {
            let bit = bits_at(&bytes, i, 1);
            proof {
                lemma2_to64();
            }
            r.push(bit == 1);
            i += 1;
        }
        r
    }
}

/// The value of limbs, nested.
proof fn lemma_limb_order(limbs: Limbs)
    ensures
        limbs_value(limbs) == limbs[0] + 0x1_0000_0000_0000_0000 * (limbs[1]
            + 0x1_0000_0000_0000_0000 * (limbs[2] + 0x1_0000_0000_0000_0000 * limbs[3])),
{
}

/// Up to ten bits of an encoding from a position on.
pub fn bits_at(bytes: &[u8; 32], offset: usize, count: u32) -> (r: u16)
    requires
        1 <= count <= 10,
        offset + count <= 256,
    ensures
        r == (bytes_value(bytes@) / pow2(offset as nat) as int) % pow2(count as nat) as int,
        r < 1024,
{
    let o = offset / 8;
    let s = (offset % 8) as u32;
    let mut window: u32 = bytes[o] as u32;
    let ghost v = bytes_value(bytes@);
    let ghost rest = bytes@.skip(o as int);
    let ghost mut width: nat = 8;
    let ghost mut high: int = bytes_value(rest.drop_first());
    proof {
        lemma2_to64();
        lemma_shift_bytes(bytes@, o as nat);
        assert(rest[0] == bytes@[o as int]);
        assert(bytes_value(rest) == window + pow2(8) * high);
    }
    if s + count > 8 {
        proof {
            let r1 = rest.drop_first();
            assert(r1[0] == bytes@[o + 1]);
            high = bytes_value(r1.drop_first());
            width = 16;
        }
        window = window + 256 * bytes[o + 1] as u32;
        assert(bytes_value(rest) == window + pow2(16) * high);
        if s + count > 16 {
            proof {
                let r2 = rest.drop_first().drop_first();
                assert(r2[0] == bytes@[o + 2]);
                high = bytes_value(r2.drop_first());
                width = 24;
            }
            window = window + 65536 * bytes[o + 2] as u32;
            assert(bytes_value(rest) == window + pow2(24) * high);
        }
    }
    let shifted = window >> s;
    let mask: u32 = low_mask(count);
    let r = shifted % mask;
    proof {
        vstd::bits::lemma_u32_shr_is_div(window, s);
        lemma_low_bits(window as int, high, width, s as nat, count as nat);
        lemma_pow2_adds(8 * o as nat, s as nat);
        lemma_pow2_pos(8 * o as nat);
        lemma_pow2_pos(s as nat);
        lemma_bytes_bound(bytes@);
        lemma_div_denominator(v, pow2(8 * o as nat) as int, pow2(s as nat) as int);
        assert(8 * o as nat + s as nat == offset as nat);
    }
    r as u16
}

/// Two to the number of bits.
fn low_mask(count: u32) -> (r: u32)
    requires
        1 <= count <= 10,
    ensures
        r == pow2(count as nat),
        2 <= r <= 1024,
{
    proof {
        lemma2_to64();
    }
    let mut r: u32 = 2;
    let mut k: u32 = 1;
    while k < count
        invariant
            1 <= k <= count,
            count <= 10,
            r == pow2(k as nat),
            2 <= r,
            r * 1024 <= 1024 * pow2(count as nat),
            pow2(count as nat) <= 1024,
        decreases count - k,
    {
        proof {
            lemma_pow2_adds(k as nat, 1);
            lemma2_to64();
            if k + 1 < count {
                vstd::arithmetic::power2::lemma_pow2_strictly_increases((k + 1) as nat, count as nat);
            }
        }
        r = r * 2;
        k += 1;
    }
    r
}

} // verus!

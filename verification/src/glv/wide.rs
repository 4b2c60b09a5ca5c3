//! Products of multi-limb integers.
use crate::field::limbs::{base64, mac};
use vstd::arithmetic::power::{lemma_pow0, lemma_pow1, lemma_pow_adds, pow};
use vstd::prelude::*;

verus! {

/// The integer with the given little-endian limbs.
pub open spec fn wide_value(limbs: Seq<u64>) -> int
    decreases limbs.len(),
{
    if limbs.len() == 0 {
        0
    } else {
        wide_value(limbs.drop_last()) + limbs.last() * pow(base64(), (limbs.len() - 1) as nat)
    }
}

/// One more limb adds its multiple of a power of the base.
pub proof fn lemma_wide_take(limbs: Seq<u64>, i: int)
    requires
        0 <= i < limbs.len(),
    ensures
        wide_value(limbs.take(i + 1)) == wide_value(limbs.take(i)) + limbs[i] * pow(
            base64(),
            i as nat,
        ),
{
    assert(limbs.take(i + 1).drop_last() =~= limbs.take(i));
}

/// A changed limb changes the value by its multiple of a power of the base.
proof fn lemma_wide_update(limbs: Seq<u64>, i: int, v: u64)
    requires
        0 <= i < limbs.len(),
    ensures
        wide_value(limbs.update(i, v)) == wide_value(limbs) + (v - limbs[i]) * pow(
            base64(),
            i as nat,
        ),
    decreases limbs.len(),
{
    let n = limbs.len() as int;
    let p = pow(base64(), (n - 1) as nat);
    if i == n - 1 {
        assert(limbs.update(i, v).drop_last() =~= limbs.drop_last());
        let o = limbs[i];
        assert(v * p == o * p + (v - o) * p) by (nonlinear_arith);
    } else {
        lemma_wide_update(limbs.drop_last(), i, v);
        assert(limbs.update(i, v).drop_last() =~= limbs.drop_last().update(i, v));
    }
}

/// Zero limbs have the value zero.
proof fn lemma_wide_zero(limbs: Seq<u64>)
    requires
        forall|i: int| 0 <= i < limbs.len() ==> limbs[i] == 0,
    ensures
        wide_value(limbs) == 0,
    decreases limbs.len(),
{
    if limbs.len() > 0 {
        lemma_wide_zero(limbs.drop_last());
        assert(0 * pow(base64(), (limbs.len() - 1) as nat) == 0);
    }
}

/// The powers of the base.
pub proof fn lemma_powers()
    ensures
        pow(base64(), 0) == 1,
        pow(base64(), 1) == 0x1_0000_0000_0000_0000int,
        pow(base64(), 2) == 0x1_0000_0000_0000_0000_0000_0000_0000_0000int,
        pow(base64(), 3) == 0x1_0000_0000_0000_0000_0000_0000_0000_0000_0000_0000_0000_0000int,
        pow(base64(), 4) == 0x1_0000_0000_0000_0000_0000_0000_0000_0000_0000_0000_0000_0000_0000_0000_0000_0000int,
        pow(base64(), 5) == 0x1_0000_0000_0000_0000_0000_0000_0000_0000_0000_0000_0000_0000_0000_0000_0000_0000_0000_0000_0000_0000int,
        pow(base64(), 6) == 0x1_0000_0000_0000_0000_0000_0000_0000_0000_0000_0000_0000_0000_0000_0000_0000_0000_0000_0000_0000_0000_0000_0000_0000_0000int,
        pow(base64(), 7) == 0x1_0000_0000_0000_0000_0000_0000_0000_0000_0000_0000_0000_0000_0000_0000_0000_0000_0000_0000_0000_0000_0000_0000_0000_0000_0000_0000_0000_0000int,
        pow(base64(), 8) == 0x1_0000_0000_0000_0000_0000_0000_0000_0000_0000_0000_0000_0000_0000_0000_0000_0000_0000_0000_0000_0000_0000_0000_0000_0000_0000_0000_0000_0000_0000_0000_0000_0000int,
{
    reveal(pow);
    lemma_pow0(base64());
    lemma_pow1(base64());
    assert(pow(base64(), 2) == base64() * pow(base64(), 1));
    assert(pow(base64(), 3) == base64() * pow(base64(), 2));
    assert(pow(base64(), 4) == base64() * pow(base64(), 3));
    assert(pow(base64(), 5) == base64() * pow(base64(), 4));
    assert(pow(base64(), 6) == base64() * pow(base64(), 5));
    assert(pow(base64(), 7) == base64() * pow(base64(), 6));
    assert(pow(base64(), 8) == base64() * pow(base64(), 7));
}

/// The product of two integers, by the schoolbook method.
pub fn schoolbook_mul(a: &[u64], b: &[u64]) -> (prod: Vec<u64>)
    requires
        a@.len() + b@.len() <= usize::MAX,
    ensures
        prod@.len() == a@.len() + b@.len(),
        wide_value(prod@) == wide_value(a@) * wide_value(b@),
{
    let (m, n) = (a.len(), b.len());
    let mut prod: Vec<u64> = vec![0u64; m + n];
    let ghost bv = wide_value(b@);
    proof {
        lemma_wide_zero(prod@);
        assert(a@.take(0) =~= Seq::empty());
        assert(0 * bv == 0);
    }
    let mut i: usize = 0;
    while i < m
        invariant
            i <= m,
            m == a@.len(),
            n == b@.len(),
            bv == wide_value(b@),
            m + n <= usize::MAX,
            prod@.len() == m + n,
            wide_value(prod@) == wide_value(a@.take(i as int)) * bv,
            forall|k: int| i + n <= k < m + n ==> prod@[k] == 0,
        decreases m - i,
    {
        let ai = a[i];
        let mut carry: u64 = 0;
        let mut j: usize = 0;
        let ghost before = wide_value(prod@);
        let ghost pi = pow(base64(), i as nat);
        proof {
            assert(b@.take(0) =~= Seq::empty());
            assert(0 * pow(base64(), i as nat) == 0);
            assert((ai * 0) * pi == 0) by (nonlinear_arith);
        }
        while j < n
            invariant
                i < m,
                j <= n,
                m == a@.len(),
                n == b@.len(),
                m + n <= usize::MAX,
                prod@.len() == m + n,
                pi == pow(base64(), i as nat),
                ai == a@[i as int],
                wide_value(prod@) + carry * pow(base64(), (i + j) as nat) == before + (ai
                    * wide_value(b@.take(j as int))) * pi,
                forall|k: int| i + n <= k < m + n ==> prod@[k] == 0,
            decreases n - j,
        {
            let ghost prod0 = prod@;
            let ghost carry0 = carry;
            let old_limb = prod[i + j];
            let bj = b[j];
            let (limb, c) = mac(old_limb, ai, bj, carry);
            prod.set(i + j, limb);
            carry = c;
            proof {
                let (e, be) = ((i + j) as nat, base64());
                let pe = pow(be, e);
                let pj = pow(be, j as nat);
                lemma_wide_update(prod0, i + j, limb);
                lemma_wide_take(b@, j as int);
                lemma_pow_adds(be, i as nat, j as nat);
                lemma_pow_adds(be, e, 1);
                lemma_pow1(be);
                let w = wide_value(b@.take(j as int));
                assert((limb - old_limb) * pe + c * (pe * be) == (ai * bj) * pe + carry0 * pe)
                    by (nonlinear_arith)
                    requires
                        limb + c * be == old_limb + ai * bj + carry0,
                ;
                assert((ai * (w + bj * pj)) * pi == (ai * w) * pi + (ai * bj) * (pi * pj))
                    by (nonlinear_arith);
                assert((i + j) as nat + 1 == (i + (j + 1)) as nat);
            }
            j += 1;
        }
        let ghost prod1 = prod@;
        prod.set(i + n, carry);
        proof {
            assert(b@.take(j as int) =~= b@);
            lemma_wide_update(prod1, i + n, carry);
            lemma_wide_take(a@, i as int);
            let w = wide_value(a@.take(i as int));
            assert((w + ai * pi) * bv == w * bv + (ai * bv) * pi) by (nonlinear_arith);
        }
        i += 1;
    }
    proof {
        assert(a@.take(i as int) =~= a@);
    }
    prod
}

} // verus!

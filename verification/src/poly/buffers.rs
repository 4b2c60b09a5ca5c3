//! Row buffers and the operations on them.
use crate::field::congruence::{congruent, lemma_congruent_mod, lemma_congruent_ops};
use crate::field::{Accumulator, Fe, Modulus};
use crate::poly::basis::RotatedChunk;
use vstd::prelude::*;

verus! {

/// Every buffer holds `n` rows.
pub open spec fn all_sized<M: Modulus>(buffers: Seq<Vec<Fe<M>>>, n: nat) -> bool {
    forall|s: int| 0 <= s < buffers.len() ==> (#[trigger] buffers[s])@.len() == n
}

/// The pool holds at least the buffers it held before, and no more where `need` buffers were
/// enough.
pub open spec fn is_kept<M: Modulus>(
    before: Seq<Vec<Fe<M>>>,
    after: Seq<Vec<Fe<M>>>,
    n: nat,
    need: nat,
) -> bool {
    &&& all_sized(after, n)
    &&& after.len() >= before.len()
    &&& before.len() >= need ==> after.len() == before.len()
}

/// Takes a buffer out of the pool, or a new one where the pool is empty.
pub(crate) fn take_buffer<M: Modulus>(pool: &mut Vec<Vec<Fe<M>>>, n: usize) -> (r: Vec<Fe<M>>)
    requires
        all_sized(old(pool)@, n as nat),
    ensures
        r@.len() == n,
        all_sized(final(pool)@, n as nat),
        final(pool)@.len() == if old(pool)@.len() == 0 {
            0
        } else {
            (old(pool)@.len() - 1) as nat
        },
{
    match pool.pop() {
        Some(buffer) => buffer,
        None => {
            let zero = Fe::<M>::zero();
            vec![zero; n]
        },
    }
}

pub(crate) fn copy_into<M: Modulus>(output: &mut Vec<Fe<M>>, values: &RotatedChunk<M>)
    requires
        old(output)@.len() == values@.len(),
    ensures
        final(output)@ == values@,
{
    let n = output.len();
    let mut i: usize = 0;
    while i < n
        invariant
            i <= n,
            n == output@.len(),
            n == values@.len(),
            forall|k: int| 0 <= k < i ==> output@[k] == values@[k],
        decreases n - i,
    {
        output.set(i, values.get(i));
        i += 1;
    }
    assert(output@ =~= values@);
}

pub(crate) fn add_into<M: Modulus>(output: &mut Vec<Fe<M>>, values: &RotatedChunk<M>)
    requires
        old(output)@.len() == values@.len(),
    ensures
        final(output)@.len() == old(output)@.len(),
        forall|i: int|
            0 <= i < final(output)@.len() ==> (#[trigger] final(output)@[i])@ == (old(output)@[i]@
                + values@[i]@) % M::p(),
{
    let ghost before = output@;
    let n = output.len();
    let mut i: usize = 0;
    while i < n
        invariant
            i <= n,
            n == output@.len(),
            n == values@.len(),
            n == before.len(),
            forall|k: int| i <= k < n ==> output@[k] == before[k],
            forall|k: int|
                0 <= k < i ==> (#[trigger] output@[k])@ == (before[k]@ + values@[k]@) % M::p(),
        decreases n - i,
    {
        output.set(i, output[i].add(values.get(i)));
        i += 1;
    }
}

pub(crate) fn sub_into<M: Modulus>(output: &mut Vec<Fe<M>>, values: &RotatedChunk<M>)
    requires
        old(output)@.len() == values@.len(),
    ensures
        final(output)@.len() == old(output)@.len(),
        forall|i: int|
            0 <= i < final(output)@.len() ==> (#[trigger] final(output)@[i])@ == (old(output)@[i]@
                - values@[i]@) % M::p(),
{
    let ghost before = output@;
    let n = output.len();
    let mut i: usize = 0;
    while i < n
        invariant
            i <= n,
            n == output@.len(),
            n == values@.len(),
            n == before.len(),
            forall|k: int| i <= k < n ==> output@[k] == before[k],
            forall|k: int|
                0 <= k < i ==> (#[trigger] output@[k])@ == (before[k]@ - values@[k]@) % M::p(),
        decreases n - i,
    {
        output.set(i, output[i].sub(values.get(i)));
        i += 1;
    }
}

pub(crate) fn mul_into<M: Modulus>(output: &mut Vec<Fe<M>>, values: &RotatedChunk<M>)
    requires
        old(output)@.len() == values@.len(),
    ensures
        final(output)@.len() == old(output)@.len(),
        forall|i: int|
            0 <= i < final(output)@.len() ==> (#[trigger] final(output)@[i])@ == (old(output)@[i]@
                * values@[i]@) % M::p(),
{
    let ghost before = output@;
    let n = output.len();
    let mut i: usize = 0;
    while i < n
        invariant
            i <= n,
            n == output@.len(),
            n == values@.len(),
            n == before.len(),
            forall|k: int| i <= k < n ==> output@[k] == before[k],
            forall|k: int|
                0 <= k < i ==> (#[trigger] output@[k])@ == (before[k]@ * values@[k]@) % M::p(),
        decreases n - i,
    {
        output.set(i, output[i].mul(values.get(i)));
        i += 1;
    }
}

pub(crate) fn scale_into<M: Modulus>(output: &mut Vec<Fe<M>>, scalar: Fe<M>)
    ensures
        final(output)@.len() == old(output)@.len(),
        forall|i: int|
            0 <= i < final(output)@.len() ==> (#[trigger] final(output)@[i])@ == (old(output)@[i]@
                * scalar@) % M::p(),
{
    let ghost before = output@;
    let n = output.len();
    let mut i: usize = 0;
    while i < n
        invariant
            i <= n,
            n == output@.len(),
            n == before.len(),
            forall|k: int| i <= k < n ==> output@[k] == before[k],
            forall|k: int|
                0 <= k < i ==> (#[trigger] output@[k])@ == (before[k]@ * scalar@) % M::p(),
        decreases n - i,
    {
        output.set(i, output[i].mul(scalar));
        i += 1;
    }
}

pub(crate) fn square_into<M: Modulus>(output: &mut Vec<Fe<M>>)
    ensures
        final(output)@.len() == old(output)@.len(),
        forall|i: int|
            0 <= i < final(output)@.len() ==> (#[trigger] final(output)@[i])@ == (old(output)@[i]@
                * old(output)@[i]@) % M::p(),
{
    let ghost before = output@;
    let n = output.len();
    let mut i: usize = 0;
    while i < n
        invariant
            i <= n,
            n == output@.len(),
            n == before.len(),
            forall|k: int| i <= k < n ==> output@[k] == before[k],
            forall|k: int|
                0 <= k < i ==> (#[trigger] output@[k])@ == (before[k]@ * before[k]@) % M::p(),
        decreases n - i,
    {
        output.set(i, output[i].square());
        i += 1;
    }
}

pub(crate) fn neg_into<M: Modulus>(output: &mut Vec<Fe<M>>)
    ensures
        final(output)@.len() == old(output)@.len(),
        forall|i: int|
            0 <= i < final(output)@.len() ==> (#[trigger] final(output)@[i])@ == (
            -old(output)@[i]@) % M::p(),
{
    let ghost before = output@;
    let n = output.len();
    let mut i: usize = 0;
    while i < n
        invariant
            i <= n,
            n == output@.len(),
            n == before.len(),
            forall|k: int| i <= k < n ==> output@[k] == before[k],
            forall|k: int| 0 <= k < i ==> (#[trigger] output@[k])@ == (-before[k]@) % M::p(),
        decreases n - i,
    {
        output.set(i, output[i].neg());
        i += 1;
    }
}

pub(crate) fn double_into<M: Modulus>(output: &mut Vec<Fe<M>>)
    ensures
        final(output)@.len() == old(output)@.len(),
        forall|i: int|
            0 <= i < final(output)@.len() ==> (#[trigger] final(output)@[i])@ == (2
                * old(output)@[i]@) % M::p(),
{
    let ghost before = output@;
    let n = output.len();
    let mut i: usize = 0;
    while i < n
        invariant
            i <= n,
            n == output@.len(),
            n == before.len(),
            forall|k: int| i <= k < n ==> output@[k] == before[k],
            forall|k: int| 0 <= k < i ==> (#[trigger] output@[k])@ == (2 * before[k]@) % M::p(),
        decreases n - i,
    {
        output.set(i, output[i].double());
        i += 1;
    }
}

/// A sum of weighted row buffers. Products are added up unreduced and reduced once at the end.
pub(crate) struct PowerFold<M: Modulus> {
    pub(crate) accumulators: Vec<Accumulator<M>>,
    pub(crate) addends: Option<Vec<Fe<M>>>,
    /// The rows that are added next.
    pub(crate) terms: Vec<Fe<M>>,
    /// The rows that the next terms are multiplied by.
    pub(crate) factors: Vec<Fe<M>>,
}

impl<M: Modulus> PowerFold<M> {
    /// All buffers hold `n` rows, and no accumulator holds more than `k` products.
    pub(crate) open spec fn sized(self, n: int, k: int) -> bool {
        &&& self.accumulators@.len() == n
        &&& self.terms@.len() == n
        &&& self.factors@.len() == n
        &&& self.addends matches Some(addends) ==> addends@.len() == n
        &&& forall|i: int| 0 <= i < n ==> (#[trigger] self.accumulators@[i]).holds(k)
    }

    /// The sum at a row.
    pub(crate) open spec fn total(self, i: int) -> int {
        self.accumulators@[i].residue() + match self.addends {
            Some(addends) => addends@[i]@,
            None => 0,
        }
    }

    pub(crate) fn new(n: usize) -> (r: Self)
        ensures
            r.sized(n as int, 0),
            r.terms@.len() == n,
            r.factors@.len() == n,
            forall|i: int| 0 <= i < n ==> #[trigger] r.total(i) == 0,
    {
        let mut accumulators: Vec<Accumulator<M>> = Vec::new();
        let mut i: usize = 0;
        while i < n
            invariant
                i <= n,
                accumulators@.len() == i,
                forall|k: int|
                    0 <= k < i ==> (#[trigger] accumulators@[k]).holds(0)
                        && accumulators@[k].residue() == 0,
            decreases n - i,
        {
            accumulators.push(Accumulator::new());
            i += 1;
        }
        let zero = Fe::<M>::zero();
        PowerFold { accumulators, addends: None, terms: vec![zero; n], factors: vec![zero; n] }
    }

    /// Adds the terms times a power.
    pub(crate) fn accumulate(&mut self, power: Fe<M>, Ghost(n): Ghost<int>, Ghost(k): Ghost<int>)
        requires
            old(self).sized(n, k),
            0 <= k <= u64::MAX,
        ensures
            final(self).sized(n, k + 1),
            final(self).terms@ == old(self).terms@,
            final(self).factors@ == old(self).factors@,
            forall|i: int|
                0 <= i < n ==> congruent(
                    #[trigger] final(self).total(i),
                    old(self).total(i) + old(self).terms@[i]@ * power@,
                    M::p(),
                ),
    {
        if power.same(Fe::one()) {
            self.accumulate_addends(Ghost(n), Ghost(k));
            proof {
                assert forall|i: int| 0 <= i < n implies congruent(
                    #[trigger] self.total(i),
                    old(self).total(i) + old(self).terms@[i]@ * power@,
                    M::p(),
                ) by {
                    assert(old(self).terms@[i]@ * 1 == old(self).terms@[i]@);
                }
            }
            return;
        }
        let mut products: Vec<Accumulator<M>> = Vec::new();
        std::mem::swap(&mut products, &mut self.accumulators);
        accumulate_deferred(&mut products, &self.terms, power, Ghost(k));
        self.accumulators = products;
        proof {
            M::lemma_modulus();
            assert forall|i: int| 0 <= i < n implies congruent(
                #[trigger] self.total(i),
                old(self).total(i) + old(self).terms@[i]@ * power@,
                M::p(),
            ) by {
                let (x, y, a) = (
                    old(self).accumulators@[i].residue(),
                    old(self).terms@[i]@ * power@,
                    old(self).total(i) - old(self).accumulators@[i].residue(),
                );
                assert(self.accumulators@[i].residue() == (x + y) % M::p());
                lemma_congruent_mod(x + y, M::p());
                lemma_congruent_ops((x + y) % M::p(), x + y, a, a, M::p());
            }
        }
    }

    /// Adds the terms.
    pub(crate) fn accumulate_addends(&mut self, Ghost(n): Ghost<int>, Ghost(k): Ghost<int>)
        requires
            old(self).sized(n, k),
            0 <= k,
        ensures
            final(self).sized(n, k + 1),
            final(self).terms@ == old(self).terms@,
            final(self).factors@ == old(self).factors@,
            forall|i: int|
                0 <= i < n ==> congruent(
                    #[trigger] final(self).total(i),
                    old(self).total(i) + old(self).terms@[i]@,
                    M::p(),
                ),
    {
        let rows = self.terms.len();
        let mut sum: Option<Vec<Fe<M>>> = None;
        std::mem::swap(&mut sum, &mut self.addends);
        let next = match sum {
            Some(addends) => {
                let mut addends = addends;
                add_into(&mut addends, &RotatedChunk::whole(self.terms.as_slice()));
                addends
            },
            None => {
                let mut addends: Vec<Fe<M>> = vec![Fe::zero(); rows];
                copy_into(&mut addends, &RotatedChunk::whole(self.terms.as_slice()));
                addends
            },
        };
        self.addends = Some(next);
        proof {
            M::lemma_modulus();
            assert forall|i: int| 0 <= i < n implies (#[trigger] self.accumulators@[i]).holds(
                k + 1,
            ) by {
                assert(old(self).accumulators@[i].holds(k));
                self.accumulators@[i].lemma_holds(k);
            }
            assert forall|i: int| 0 <= i < n implies congruent(
                #[trigger] self.total(i),
                old(self).total(i) + old(self).terms@[i]@,
                M::p(),
            ) by {
                let x = self.accumulators@[i].residue();
                let y = next@[i]@;
                let a = old(self).total(i) - x;
                let t = old(self).terms@[i]@;
                if old(self).addends is Some {
                    assert(y == (a + t) % M::p());
                    lemma_congruent_mod(a + t, M::p());
                    lemma_congruent_ops(x, x, (a + t) % M::p(), a + t, M::p());
                } else {
                    assert(y == t);
                }
            }
        }
    }

    /// Adds the terms times the factors.
    pub(crate) fn accumulate_products(&mut self, Ghost(n): Ghost<int>, Ghost(k): Ghost<int>)
        requires
            old(self).sized(n, k),
            0 <= k <= u64::MAX,
        ensures
            final(self).sized(n, k + 1),
            final(self).terms@ == old(self).terms@,
            final(self).factors@ == old(self).factors@,
            forall|i: int|
                0 <= i < n ==> congruent(
                    #[trigger] final(self).total(i),
                    old(self).total(i) + old(self).terms@[i]@ * old(self).factors@[i]@,
                    M::p(),
                ),
    {
        let mut products: Vec<Accumulator<M>> = Vec::new();
        std::mem::swap(&mut products, &mut self.accumulators);
        accumulate_deferred_products(&mut products, &self.terms, &self.factors, Ghost(k));
        self.accumulators = products;
        proof {
            M::lemma_modulus();
            assert forall|i: int| 0 <= i < n implies congruent(
                #[trigger] self.total(i),
                old(self).total(i) + old(self).terms@[i]@ * old(self).factors@[i]@,
                M::p(),
            ) by {
                let (x, y, a) = (
                    old(self).accumulators@[i].residue(),
                    old(self).terms@[i]@ * old(self).factors@[i]@,
                    old(self).total(i) - old(self).accumulators@[i].residue(),
                );
                assert(self.accumulators@[i].residue() == (x + y) % M::p());
                lemma_congruent_mod(x + y, M::p());
                lemma_congruent_ops((x + y) % M::p(), x + y, a, a, M::p());
            }
        }
    }

    /// Writes the sum.
    pub(crate) fn finish(self, output: &mut Vec<Fe<M>>, Ghost(n): Ghost<int>, Ghost(k): Ghost<int>)
        requires
            self.sized(n, k),
            old(output)@.len() == n,
        ensures
            final(output)@.len() == n,
            forall|i: int|
                0 <= i < n ==> (#[trigger] final(output)@[i])@ == self.total(i) % M::p(),
    {
        proof {
            M::lemma_modulus();
        }
        reduce_deferred(&self.accumulators, output);
        let ghost reduced = output@;
        match &self.addends {
            Some(addends) => {
                add_into(output, &RotatedChunk::whole(addends.as_slice()));
            },
            None => {
                proof {
                    assert forall|i: int| 0 <= i < n implies (#[trigger] output@[i])@ == self.total(
                        i,
                    ) % M::p() by {
                        reduced[i].lemma_view();
                        vstd::arithmetic::div_mod::lemma_small_mod(
                            reduced[i]@ as nat,
                            M::p() as nat,
                        );
                    }
                }
            },
        }
    }
}

/// Adds each term times the power to its accumulator.
fn accumulate_deferred<M: Modulus>(
    accumulators: &mut Vec<Accumulator<M>>,
    terms: &Vec<Fe<M>>,
    power: Fe<M>,
    Ghost(k): Ghost<int>,
)
    requires
        old(accumulators)@.len() == terms@.len(),
        0 <= k <= u64::MAX,
        forall|i: int|
            0 <= i < terms@.len() ==> (#[trigger] old(accumulators)@[i]).holds(k),
    ensures
        final(accumulators)@.len() == terms@.len(),
        forall|i: int|
            0 <= i < terms@.len() ==> (#[trigger] final(accumulators)@[i]).holds(k + 1)
                && final(accumulators)@[i].residue() == (old(accumulators)@[i].residue()
                + terms@[i]@ * power@) % M::p(),
{
    let ghost before = accumulators@;
    let n = terms.len();
    let mut sums: Vec<Accumulator<M>> = Vec::new();
    std::mem::swap(&mut sums, accumulators);
    let mut i: usize = 0;
    while i < n
        invariant
            i <= n,
            n == terms@.len(),
            n == before.len(),
            sums@.len() == n,
            0 <= k <= u64::MAX,
            forall|j: int| 0 <= j < n ==> (#[trigger] before[j]).holds(k),
            forall|j: int| i <= j < n ==> sums@[j] == before[j],
            forall|j: int|
                0 <= j < i ==> (#[trigger] sums@[j]).holds(k + 1) && sums@[j].residue() == (
                before[j].residue() + terms@[j]@ * power@) % M::p(),
        decreases n - i,
    {
        assert(before[i as int].holds(k));
        sums[i].mul_accumulate(terms[i], power, Ghost(k));
        i += 1;
    }
    *accumulators = sums;
}

/// Adds each product of a term and a factor to its accumulator.
fn accumulate_deferred_products<M: Modulus>(
    accumulators: &mut Vec<Accumulator<M>>,
    terms: &Vec<Fe<M>>,
    factors: &Vec<Fe<M>>,
    Ghost(k): Ghost<int>,
)
    requires
        old(accumulators)@.len() == terms@.len(),
        factors@.len() == terms@.len(),
        0 <= k <= u64::MAX,
        forall|i: int|
            0 <= i < terms@.len() ==> (#[trigger] old(accumulators)@[i]).holds(k),
    ensures
        final(accumulators)@.len() == terms@.len(),
        forall|i: int|
            0 <= i < terms@.len() ==> (#[trigger] final(accumulators)@[i]).holds(k + 1)
                && final(accumulators)@[i].residue() == (old(accumulators)@[i].residue()
                + terms@[i]@ * factors@[i]@) % M::p(),
{
    let ghost before = accumulators@;
    let n = terms.len();
    let mut sums: Vec<Accumulator<M>> = Vec::new();
    std::mem::swap(&mut sums, accumulators);
    let mut i: usize = 0;
    while i < n
        invariant
            i <= n,
            n == terms@.len(),
            n == factors@.len(),
            n == before.len(),
            sums@.len() == n,
            0 <= k <= u64::MAX,
            forall|j: int| 0 <= j < n ==> (#[trigger] before[j]).holds(k),
            forall|j: int| i <= j < n ==> sums@[j] == before[j],
            forall|j: int|
                0 <= j < i ==> (#[trigger] sums@[j]).holds(k + 1) && sums@[j].residue() == (
                before[j].residue() + terms@[j]@ * factors@[j]@) % M::p(),
        decreases n - i,
    {
        assert(before[i as int].holds(k));
        sums[i].mul_accumulate(terms[i], factors[i], Ghost(k));
        i += 1;
    }
    *accumulators = sums;
}

/// Reduces the accumulators.
fn reduce_deferred<M: Modulus>(accumulators: &Vec<Accumulator<M>>, output: &mut Vec<Fe<M>>)
    requires
        old(output)@.len() == accumulators@.len(),
    ensures
        final(output)@.len() == accumulators@.len(),
        forall|i: int|
            0 <= i < accumulators@.len() ==> (#[trigger] final(output)@[i])@
                == accumulators@[i].residue(),
{
    let n = output.len();
    let mut i: usize = 0;
    while i < n
        invariant
            i <= n,
            n == output@.len(),
            n == accumulators@.len(),
            forall|k: int| 0 <= k < i ==> (#[trigger] output@[k])@ == accumulators@[k].residue(),
        decreases n - i,
    {
        output.set(i, accumulators[i].reduce());
        i += 1;
    }
}

} // verus!

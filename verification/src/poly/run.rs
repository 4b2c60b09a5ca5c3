//! Running a plan on a chunk of rows.
use crate::field::congruence::{
    congruent, lemma_congruent_mod, lemma_congruent_multiple, lemma_congruent_ops,
};
use crate::field::{Fe, Modulus};
use crate::poly::ast::{AstLeaf, Row};
use crate::poly::basis::{
    fill_constant, fill_linear, readable_leaves, rotated_chunk, row_of, Basis, EvaluationDomain,
    RotatedChunk,
};
use crate::poly::buffers::{
    add_into, all_sized, copy_into, double_into, is_kept, mul_into, neg_into, scale_into,
    square_into, sub_into, take_buffer, PowerFold,
};
use crate::poly::family::{evaluate_family, lemma_family_column};
use crate::poly::plan::{
    family_value, polynomial_value, DistributionWork, EvaluationPlan, FactorBodyPlan,
    FactorBodyWork, SelectorFamilyRun, WeightedTerm,
};
use crate::poly::scratch::larger;
use vstd::arithmetic::div_mod::lemma_small_mod;
use vstd::prelude::*;

verus! {

/// What the rows of one chunk are evaluated against.
pub(crate) struct ChunkContext<'a, M: Modulus> {
    pub(crate) basis: Basis,
    pub(crate) domain: &'a EvaluationDomain<M>,
    pub(crate) polys: &'a Vec<Vec<Fe<M>>>,
    pub(crate) start: usize,
    pub(crate) minus_one: Fe<M>,
    pub(crate) two: Fe<M>,
}

/// The cached values of one row.
pub(crate) open spec fn column<M: Modulus>(cache: Seq<Vec<Fe<M>>>, i: int) -> Seq<int> {
    Seq::new(cache.len(), |s: int| cache[s]@[i]@)
}

/// The value and the cached values that running at one row gave.
pub(crate) open spec fn is_result(value: int, cached: Seq<int>, r: (int, Seq<int>), p: int) -> bool {
    value == r.0 % p && cached == r.1
}

/// Residues of sums, differences and products.
proof fn lemma_residues(x: int, a: int, y: int, b: int, p: int)
    requires
        p > 0,
        x == a % p,
        y == b % p,
    ensures
        (x + y) % p == (a + b) % p,
        (x - y) % p == (a - b) % p,
        (x * y) % p == (a * b) % p,
{
    lemma_congruent_mod(a, p);
    lemma_congruent_mod(b, p);
    lemma_congruent_ops(x, a, y, b, p);
}

impl<'a, M: Modulus> ChunkContext<'a, M> {
    /// The row at position `i` of the chunk.
    pub(crate) open spec fn row(self, i: int) -> Row {
        row_of(self.basis, *self.domain, self.polys@, self.start + i)
    }

    /// The polynomials have the length of the basis, and the chunk has `n` rows of it.
    pub(crate) open spec fn fits(self, n: nat) -> bool {
        &&& forall|k: int|
            0 <= k < self.polys@.len() ==> (#[trigger] self.polys@[k])@.len()
                == self.domain.basis_len(self.basis)
        &&& self.start + n <= self.domain.basis_len(self.basis)
        &&& self.minus_one@ == M::p() - 1
        &&& self.two@ == 2
    }

    /// The leaves that can be read.
    pub(crate) open spec fn readable(self) -> spec_fn(AstLeaf) -> bool {
        readable_leaves(self.basis, *self.domain, self.polys@.len())
    }

    pub(crate) open spec fn ran(
        self,
        n: nat,
        plan: EvaluationPlan<M>,
        output: Seq<Fe<M>>,
        before: Seq<Vec<Fe<M>>>,
        after: Seq<Vec<Fe<M>>>,
    ) -> bool {
        &&& output.len() == n
        &&& after.len() == before.len()
        &&& all_sized(after, n)
        &&& forall|i: int|
            0 <= i < n ==> is_result(
                (#[trigger] output[i])@,
                column(after, i),
                plan.run(self.row(i), column(before, i)),
                M::p(),
            )
    }

    spec fn ran_bodies(
        self,
        n: nat,
        plan: FactorBodyPlan<M>,
        base: int,
        output: Seq<Fe<M>>,
        before: Seq<Vec<Fe<M>>>,
        after: Seq<Vec<Fe<M>>>,
    ) -> bool {
        &&& output.len() == n
        &&& after.len() == before.len()
        &&& all_sized(after, n)
        &&& forall|i: int|
            0 <= i < n ==> is_result(
                (#[trigger] output[i])@,
                column(after, i),
                plan.run(base, self.row(i), column(before, i)),
                M::p(),
            )
    }

    spec fn ran_terms(
        self,
        n: nat,
        terms: Seq<WeightedTerm<M>>,
        output: Seq<Fe<M>>,
        before: Seq<Vec<Fe<M>>>,
        after: Seq<Vec<Fe<M>>>,
    ) -> bool {
        &&& output.len() == n
        &&& after.len() == before.len()
        &&& all_sized(after, n)
        &&& forall|i: int|
            0 <= i < n ==> is_result(
                (#[trigger] output[i])@,
                column(after, i),
                WeightedTerm::run_all(terms, self.row(i), column(before, i)),
                M::p(),
            )
    }

    /// The rows of a leaf.
    fn leaf_chunk(&self, leaf: AstLeaf, n: usize) -> (r: RotatedChunk<'a, M>)
        requires
            self.fits(n as nat),
            (self.readable())(leaf),
        ensures
            r@.len() == n,
            forall|i: int|
                0 <= i < n ==> (#[trigger] r@[i])@ == (self.row(i).leaf)(leaf) && r@[i]@ == (
                self.row(i).leaf)(leaf) % M::p(),
    {
        assert(self.polys@[leaf.index as int]@.len() == self.domain.basis_len(self.basis));
        let r = rotated_chunk(
            self.basis,
            self.domain,
            &self.polys[leaf.index],
            leaf.rotation,
            self.start,
            n,
        );
        proof {
            M::lemma_modulus();
            assert forall|i: int| 0 <= i < n implies (#[trigger] r@[i])@ == (self.row(i).leaf)(leaf)
                && r@[i]@ == (self.row(i).leaf)(leaf) % M::p() by {
                r@[i].lemma_view();
                lemma_small_mod(r@[i]@ as nat, M::p() as nat);
            }
        }
        r
    }

    /// Runs a plan.
    pub(crate) fn run_into(
        &self,
        plan: &EvaluationPlan<M>,
        output: &mut Vec<Fe<M>>,
        cache: &mut Vec<Vec<Fe<M>>>,
        scratch: &mut Vec<Vec<Fe<M>>>,
    )
        requires
            self.fits(old(output)@.len()),
            all_sized(old(cache)@, old(output)@.len()),
            all_sized(old(scratch)@, old(output)@.len()),
            plan.sound(self.readable(), old(cache)@.len()),
        ensures
            self.ran(old(output)@.len(), *plan, final(output)@, old(cache)@, final(cache)@),
            is_kept(old(scratch)@, final(scratch)@, old(output)@.len(), plan.scratch()),
        decreases plan, 1nat,
    {
        let n = output.len();
        let ghost before = cache@;
        proof {
            M::lemma_modulus();
        }
        match plan {
            EvaluationPlan::Poly(leaf) => {
                let chunk = self.leaf_chunk(*leaf, n);
                copy_into(output, &chunk);
            },
            EvaluationPlan::Add(a, b) => {
                self.run_add(plan, a, b, output, cache, scratch);
            },
            EvaluationPlan::Mul(a, b) => {
                self.run_mul(plan, a, b, output, cache, scratch);
            },
            EvaluationPlan::Square(inner) => {
                self.run_into(inner, output, cache, scratch);
                let ghost mid = output@;
                square_into(output);
                proof {
                    assert forall|i: int| 0 <= i < n implies is_result(
                        (#[trigger] output@[i])@,
                        column(cache@, i),
                        plan.run(self.row(i), column(before, i)),
                        M::p(),
                    ) by {
                        let (x, after) = inner.run(self.row(i), column(before, i));
                        assert(is_result(mid[i]@, column(cache@, i), (x, after), M::p()));
                        lemma_residues(mid[i]@, x, mid[i]@, x, M::p());
                    }
                }
            },
            EvaluationPlan::Scale(a, scalar) => {
                let done = self.run_small_scale(a, *scalar, output, cache, scratch);
                if !done {
                    let ghost pool = scratch@;
                    self.run_into(a, output, cache, scratch);
                    let ghost mid = output@;
                    scale_into(output, *scalar);
                    proof {
                        scalar.lemma_view();
                        lemma_small_mod(scalar@ as nat, M::p() as nat);
                        assert forall|i: int| 0 <= i < n implies is_result(
                            (#[trigger] output@[i])@,
                            column(cache@, i),
                            plan.run(self.row(i), column(before, i)),
                            M::p(),
                        ) by {
                            let (x, after) = a.run(self.row(i), column(before, i));
                            assert(is_result(mid[i]@, column(cache@, i), (x, after), M::p()));
                            lemma_residues(mid[i]@, x, scalar@, scalar@, M::p());
                        }
                    }
                } else {
                    proof {
                        assert forall|i: int| 0 <= i < n implies is_result(
                            (#[trigger] output@[i])@,
                            column(cache@, i),
                            plan.run(self.row(i), column(before, i)),
                            M::p(),
                        ) by {
                            let (x, after) = a.run(self.row(i), column(before, i));
                            assert(is_result(
                                output@[i]@,
                                column(cache@, i),
                                (x * scalar@, after),
                                M::p(),
                            ));
                        }
                    }
                }
            },
            EvaluationPlan::Horner { base, coefficients } => {
                self.run_horner(plan, base, coefficients, output, cache, scratch);
            },
            EvaluationPlan::DistributePowers { work, base } => {
                self.run_work(work, *base, output, cache, scratch);
                proof {
                    assert forall|i: int| 0 <= i < n implies is_result(
                        (#[trigger] output@[i])@,
                        column(cache@, i),
                        plan.run(self.row(i), column(before, i)),
                        M::p(),
                    ) by {
                        assert(is_result(
                            output@[i]@,
                            column(cache@, i),
                            DistributionWork::run_all(
                                work@,
                                base@,
                                self.row(i),
                                column(before, i),
                            ),
                            M::p(),
                        ));
                    }
                }
            },
            EvaluationPlan::CacheStore { slot, inner } => {
                self.run_into(inner, output, cache, scratch);
                let ghost mid = cache@;
                let mut copy: Vec<Fe<M>> = vec![Fe::zero(); n];
                copy_into(&mut copy, &RotatedChunk::whole(output.as_slice()));
                cache.set(*slot, copy);
                proof {
                    assert forall|i: int| 0 <= i < n implies is_result(
                        (#[trigger] output@[i])@,
                        column(cache@, i),
                        plan.run(self.row(i), column(before, i)),
                        M::p(),
                    ) by {
                        let (x, after) = inner.run(self.row(i), column(before, i));
                        assert(is_result(output@[i]@, column(mid, i), (x, after), M::p()));
                        assert(column(cache@, i) =~= column(mid, i).update(
                            *slot as int,
                            output@[i]@,
                        ));
                    }
                }
            },
            EvaluationPlan::CacheLoad { slot } => {
                copy_into(output, &RotatedChunk::whole(cache[*slot].as_slice()));
                proof {
                    assert forall|i: int| 0 <= i < n implies is_result(
                        (#[trigger] output@[i])@,
                        column(cache@, i),
                        plan.run(self.row(i), column(before, i)),
                        M::p(),
                    ) by {
                        let v = cache@[*slot as int]@[i];
                        v.lemma_view();
                        lemma_small_mod(v@ as nat, M::p() as nat);
                        assert(column(before, i)[*slot as int] == v@);
                    }
                }
            },
            EvaluationPlan::LinearTerm(scalar) => {
                fill_linear(
                    self.basis,
                    self.domain,
                    self.start,
                    *scalar,
                    output,
                    Ghost(self.polys@),
                );
            },
            EvaluationPlan::ConstantTerm(scalar) => {
                fill_constant(
                    self.basis,
                    self.start,
                    *scalar,
                    output,
                    Ghost(*self.domain),
                    Ghost(self.polys@),
                );
            },
        }
    }

    /// Runs a plan and multiplies by minus one, one or two, without a field multiplication;
    /// for other factors nothing happens.
    fn run_small_scale(
        &self,
        plan: &EvaluationPlan<M>,
        scalar: Fe<M>,
        output: &mut Vec<Fe<M>>,
        cache: &mut Vec<Vec<Fe<M>>>,
        scratch: &mut Vec<Vec<Fe<M>>>,
    ) -> (done: bool)
        requires
            self.fits(old(output)@.len()),
            all_sized(old(cache)@, old(output)@.len()),
            all_sized(old(scratch)@, old(output)@.len()),
            plan.sound(self.readable(), old(cache)@.len()),
        ensures
            done == (scalar@ == M::p() - 1 || scalar@ == 1 || scalar@ == 2),
            !done ==> final(output)@ == old(output)@ && final(cache)@ == old(cache)@
                && final(scratch)@ == old(scratch)@,
            done ==> {
                &&& final(output)@.len() == old(output)@.len()
                &&& final(cache)@.len() == old(cache)@.len()
                &&& all_sized(final(cache)@, old(output)@.len())
                &&& forall|i: int|
                    0 <= i < old(output)@.len() ==> is_result(
                        (#[trigger] final(output)@[i])@,
                        column(final(cache)@, i),
                        (
                            plan.run(self.row(i), column(old(cache)@, i)).0 * scalar@,
                            plan.run(self.row(i), column(old(cache)@, i)).1,
                        ),
                        M::p(),
                    )
                &&& is_kept(old(scratch)@, final(scratch)@, old(output)@.len(), plan.scratch())
            },
        decreases plan, 2nat,
    {
        let n = output.len();
        let ghost before = cache@;
        proof {
            M::lemma_modulus();
        }
        let negative = scalar.same(self.minus_one);
        let one = scalar.same(Fe::one());
        let double = scalar.same(self.two);
        if !negative && !one && !double {
            return false;
        }
        self.run_into(plan, output, cache, scratch);
        let ghost mid = output@;
        if negative {
            neg_into(output);
        } else if !one {
            double_into(output);
        }
        proof {
            assert forall|i: int| 0 <= i < n implies is_result(
                (#[trigger] output@[i])@,
                column(cache@, i),
                (
                    plan.run(self.row(i), column(before, i)).0 * scalar@,
                    plan.run(self.row(i), column(before, i)).1,
                ),
                M::p(),
            ) by {
                let (x, after) = plan.run(self.row(i), column(before, i));
                let p = M::p();
                assert(is_result(mid[i]@, column(cache@, i), (x, after), p));
                lemma_congruent_mod(x, p);
                if negative {
                    lemma_small_mod(0, p as nat);
                    lemma_congruent_ops(0, 0, mid[i]@, x, p);
                    assert(-mid[i]@ == 0 - mid[i]@);
                    assert(x * (p - 1) == -x + x * p) by (nonlinear_arith);
                    lemma_congruent_multiple(x * (p - 1), -x, x, p);
                } else if one {
                    assert(x * 1 == x);
                } else {
                    lemma_congruent_ops(2, 2, mid[i]@, x, p);
                    assert(x * 2 == 2 * x);
                }
            }
        }
        true
    }

    fn run_add(
        &self,
        plan: &EvaluationPlan<M>,
        a: &EvaluationPlan<M>,
        b: &EvaluationPlan<M>,
        output: &mut Vec<Fe<M>>,
        cache: &mut Vec<Vec<Fe<M>>>,
        scratch: &mut Vec<Vec<Fe<M>>>,
    )
        requires
            *plan matches EvaluationPlan::Add(x, y) && *x == *a && *y == *b,
            self.fits(old(output)@.len()),
            all_sized(old(cache)@, old(output)@.len()),
            all_sized(old(scratch)@, old(output)@.len()),
            plan.sound(self.readable(), old(cache)@.len()),
        ensures
            self.ran(old(output)@.len(), *plan, final(output)@, old(cache)@, final(cache)@),
            is_kept(old(scratch)@, final(scratch)@, old(output)@.len(), plan.scratch()),
        decreases plan, 0nat,
    {
        let n = output.len();
        let ghost before = cache@;
        proof {
            M::lemma_modulus();
            assert(a.sound(self.readable(), before.len()));
            assert(b.sound(self.readable(), before.len()));
        }
        self.run_into(a, output, cache, scratch);
        let ghost (mid, kept) = (output@, cache@);
        if let EvaluationPlan::Scale(negated, scalar) = b {
            if scalar.same(self.minus_one) {
                assert(negated.sound(self.readable(), before.len()));
                assert(b.scratch() == negated.scratch());
                if let EvaluationPlan::Poly(leaf) = &**negated {
                    let chunk = self.leaf_chunk(*leaf, n);
                    sub_into(output, &chunk);
                    proof {
                        assert forall|i: int| 0 <= i < n implies is_result(
                            (#[trigger] output@[i])@,
                            column(cache@, i),
                            plan.run(self.row(i), column(before, i)),
                            M::p(),
                        ) by {
                            let (x, c) = a.run(self.row(i), column(before, i));
                            assert(is_result(mid[i]@, column(kept, i), (x, c), M::p()));
                            let v = chunk@[i]@;
                            lemma_residues(mid[i]@, x, v, v, M::p());
                            lemma_minus(x, v, M::p());
                            assert(b.run(self.row(i), c) == (v * scalar@, c)) by {
                                assert(negated.run(self.row(i), c) == (v, c));
                            }
                        }
                    }
                    return;
                }
                let mut values = take_buffer(scratch, n);
                self.run_into(negated, &mut values, cache, scratch);
                sub_into(output, &RotatedChunk::whole(values.as_slice()));
                proof {
                    assert forall|i: int| 0 <= i < n implies is_result(
                        (#[trigger] output@[i])@,
                        column(cache@, i),
                        plan.run(self.row(i), column(before, i)),
                        M::p(),
                    ) by {
                        let (x, c) = a.run(self.row(i), column(before, i));
                        assert(is_result(mid[i]@, column(kept, i), (x, c), M::p()));
                        let (y, d) = negated.run(self.row(i), c);
                        assert(is_result(values@[i]@, column(cache@, i), (y, d), M::p()));
                        lemma_residues(mid[i]@, x, values@[i]@, y, M::p());
                        lemma_minus(x, y, M::p());
                        assert(b.run(self.row(i), c) == (y * scalar@, d));
                    }
                }
                scratch.push(values);
                return;
            }
        }
        if let EvaluationPlan::Poly(leaf) = b {
            let chunk = self.leaf_chunk(*leaf, n);
            add_into(output, &chunk);
            proof {
                assert forall|i: int| 0 <= i < n implies is_result(
                    (#[trigger] output@[i])@,
                    column(cache@, i),
                    plan.run(self.row(i), column(before, i)),
                    M::p(),
                ) by {
                    let (x, c) = a.run(self.row(i), column(before, i));
                    assert(is_result(mid[i]@, column(kept, i), (x, c), M::p()));
                    let v = chunk@[i]@;
                    lemma_residues(mid[i]@, x, v, v, M::p());
                    assert(b.run(self.row(i), c) == (v, c));
                }
            }
            return;
        }
        let mut values = take_buffer(scratch, n);
        self.run_into(b, &mut values, cache, scratch);
        add_into(output, &RotatedChunk::whole(values.as_slice()));
        proof {
            assert forall|i: int| 0 <= i < n implies is_result(
                (#[trigger] output@[i])@,
                column(cache@, i),
                plan.run(self.row(i), column(before, i)),
                M::p(),
            ) by {
                let (x, c) = a.run(self.row(i), column(before, i));
                assert(is_result(mid[i]@, column(kept, i), (x, c), M::p()));
                let (y, d) = b.run(self.row(i), c);
                assert(is_result(values@[i]@, column(cache@, i), (y, d), M::p()));
                lemma_residues(mid[i]@, x, values@[i]@, y, M::p());
            }
        }
        scratch.push(values);
    }

    fn run_mul(
        &self,
        plan: &EvaluationPlan<M>,
        a: &EvaluationPlan<M>,
        b: &EvaluationPlan<M>,
        output: &mut Vec<Fe<M>>,
        cache: &mut Vec<Vec<Fe<M>>>,
        scratch: &mut Vec<Vec<Fe<M>>>,
    )
        requires
            *plan matches EvaluationPlan::Mul(x, y) && *x == *a && *y == *b,
            self.fits(old(output)@.len()),
            all_sized(old(cache)@, old(output)@.len()),
            all_sized(old(scratch)@, old(output)@.len()),
            plan.sound(self.readable(), old(cache)@.len()),
        ensures
            self.ran(old(output)@.len(), *plan, final(output)@, old(cache)@, final(cache)@),
            is_kept(old(scratch)@, final(scratch)@, old(output)@.len(), plan.scratch()),
        decreases plan, 0nat,
    {
        let n = output.len();
        let ghost before = cache@;
        proof {
            M::lemma_modulus();
            assert(a.sound(self.readable(), before.len()));
            assert(b.sound(self.readable(), before.len()));
        }
        // Constants with cheap field operations need no constant rows; in the standard basis a
        // constant is no factor.
        if self.basis != Basis::Coeff {
            if let EvaluationPlan::ConstantTerm(scalar) = a {
                if self.run_small_scale(b, *scalar, output, cache, scratch) {
                    proof {
                        assert forall|i: int| 0 <= i < n implies is_result(
                            (#[trigger] output@[i])@,
                            column(cache@, i),
                            plan.run(self.row(i), column(before, i)),
                            M::p(),
                        ) by {
                            let (y, d) = b.run(self.row(i), column(before, i));
                            assert(is_result(
                                output@[i]@,
                                column(cache@, i),
                                (y * scalar@, d),
                                M::p(),
                            ));
                            assert(a.run(self.row(i), column(before, i)) == (
                                scalar@,
                                column(before, i),
                            ));
                            assert(scalar@ * y == y * scalar@) by (nonlinear_arith);
                        }
                    }
                    return;
                }
            }
            if let EvaluationPlan::ConstantTerm(scalar) = b {
                if self.run_small_scale(a, *scalar, output, cache, scratch) {
                    proof {
                        assert forall|i: int| 0 <= i < n implies is_result(
                            (#[trigger] output@[i])@,
                            column(cache@, i),
                            plan.run(self.row(i), column(before, i)),
                            M::p(),
                        ) by {
                            let (x, c) = a.run(self.row(i), column(before, i));
                            assert(is_result(
                                output@[i]@,
                                column(cache@, i),
                                (x * scalar@, c),
                                M::p(),
                            ));
                            assert(b.run(self.row(i), c) == (scalar@, c));
                        }
                    }
                    return;
                }
            }
        }
        if let EvaluationPlan::Poly(leaf) = b {
            self.run_into(a, output, cache, scratch);
            let ghost mid = output@;
            let chunk = self.leaf_chunk(*leaf, n);
            mul_into(output, &chunk);
            proof {
                assert forall|i: int| 0 <= i < n implies is_result(
                    (#[trigger] output@[i])@,
                    column(cache@, i),
                    plan.run(self.row(i), column(before, i)),
                    M::p(),
                ) by {
                    let (x, c) = a.run(self.row(i), column(before, i));
                    assert(is_result(mid[i]@, column(cache@, i), (x, c), M::p()));
                    let v = chunk@[i]@;
                    lemma_residues(mid[i]@, x, v, v, M::p());
                    assert(b.run(self.row(i), c) == (v, c));
                }
            }
            return;
        }
        if let EvaluationPlan::Poly(leaf) = a {
            self.run_into(b, output, cache, scratch);
            let ghost mid = output@;
            let chunk = self.leaf_chunk(*leaf, n);
            mul_into(output, &chunk);
            proof {
                assert forall|i: int| 0 <= i < n implies is_result(
                    (#[trigger] output@[i])@,
                    column(cache@, i),
                    plan.run(self.row(i), column(before, i)),
                    M::p(),
                ) by {
                    let v = chunk@[i]@;
                    assert(a.run(self.row(i), column(before, i)) == (v, column(before, i)));
                    let (y, d) = b.run(self.row(i), column(before, i));
                    assert(is_result(mid[i]@, column(cache@, i), (y, d), M::p()));
                    lemma_residues(mid[i]@, y, v, v, M::p());
                    assert(y * v == v * y) by (nonlinear_arith);
                }
            }
            return;
        }
        self.run_into(a, output, cache, scratch);
        let ghost (mid, kept) = (output@, cache@);
        let mut values = take_buffer(scratch, n);
        self.run_into(b, &mut values, cache, scratch);
        mul_into(output, &RotatedChunk::whole(values.as_slice()));
        proof {
            assert forall|i: int| 0 <= i < n implies is_result(
                (#[trigger] output@[i])@,
                column(cache@, i),
                plan.run(self.row(i), column(before, i)),
                M::p(),
            ) by {
                let (x, c) = a.run(self.row(i), column(before, i));
                assert(is_result(mid[i]@, column(kept, i), (x, c), M::p()));
                let (y, d) = b.run(self.row(i), c);
                assert(is_result(values@[i]@, column(cache@, i), (y, d), M::p()));
                lemma_residues(mid[i]@, x, values@[i]@, y, M::p());
            }
        }
        scratch.push(values);
    }

    fn run_horner(
        &self,
        plan: &EvaluationPlan<M>,
        base: &EvaluationPlan<M>,
        coefficients: &Vec<AstLeaf>,
        output: &mut Vec<Fe<M>>,
        cache: &mut Vec<Vec<Fe<M>>>,
        scratch: &mut Vec<Vec<Fe<M>>>,
    )
        requires
            *plan matches EvaluationPlan::Horner { base: x, coefficients: c } && *x == *base && c@
                == coefficients@,
            self.fits(old(output)@.len()),
            all_sized(old(cache)@, old(output)@.len()),
            all_sized(old(scratch)@, old(output)@.len()),
            plan.sound(self.readable(), old(cache)@.len()),
        ensures
            self.ran(old(output)@.len(), *plan, final(output)@, old(cache)@, final(cache)@),
            is_kept(old(scratch)@, final(scratch)@, old(output)@.len(), plan.scratch()),
        decreases plan, 0nat,
    {
        let n = output.len();
        let ghost before = cache@;
        let ghost all = coefficients@;
        proof {
            M::lemma_modulus();
        }
        let last = coefficients.len() - 1;
        let chunk = self.leaf_chunk(coefficients[last], n);
        copy_into(output, &chunk);
        let mut values = take_buffer(scratch, n);
        self.run_into(base, &mut values, cache, scratch);
        let mut k: usize = last;
        proof {
            assert forall|i: int| 0 <= i < n implies (#[trigger] output@[i])@ == polynomial_value(
                all.skip(k as int),
                base.run(self.row(i), column(before, i)).0,
                self.row(i),
            ) % M::p() by {
                let x = base.run(self.row(i), column(before, i)).0;
                let tail = all.skip(k as int);
                assert(tail.len() == 1);
                assert(tail.first() == all[last as int]);
                assert(polynomial_value(tail.drop_first(), x, self.row(i)) == 0);
                assert(x * 0 == 0);
                assert(output@[i] == chunk@[i]);
            }
        }
        while k > 0
            invariant
                k <= last,
                M::p() > 1,
                self.fits(n as nat),
                all == coefficients@,
                coefficients@.len() == last + 1,
                forall|j: int| 0 <= j < all.len() ==> (self.readable())(#[trigger] all[j]),
                output@.len() == n,
                values@.len() == n,
                forall|i: int|
                    0 <= i < n ==> (#[trigger] values@[i])@ == base.run(
                        self.row(i),
                        column(before, i),
                    ).0 % M::p(),
                forall|i: int|
                    0 <= i < n ==> (#[trigger] output@[i])@ == polynomial_value(
                        all.skip(k as int),
                        base.run(self.row(i), column(before, i)).0,
                        self.row(i),
                    ) % M::p(),
            decreases k,
        {
            let ghost start = output@;
            mul_into(output, &RotatedChunk::whole(values.as_slice()));
            let ghost mid = output@;
            let chunk = self.leaf_chunk(coefficients[k - 1], n);
            add_into(output, &chunk);
            proof {
                assert forall|i: int| 0 <= i < n implies (
                #[trigger] output@[i])@ == polynomial_value(
                    all.skip(k - 1),
                    base.run(self.row(i), column(before, i)).0,
                    self.row(i),
                ) % M::p() by {
                    let x = base.run(self.row(i), column(before, i)).0;
                    let h = polynomial_value(all.skip(k as int), x, self.row(i));
                    let tail = all.skip(k - 1);
                    assert(tail.drop_first() =~= all.skip(k as int));
                    assert(tail.first() == all[k - 1]);
                    assert(values@[i]@ == x % M::p());
                    lemma_residues(start[i]@, h, values@[i]@, x, M::p());
                    assert(mid[i]@ == (h * x) % M::p());
                    let v = chunk@[i]@;
                    lemma_residues(mid[i]@, h * x, v, v, M::p());
                    assert(h * x + v == v + x * h) by (nonlinear_arith);
                }
            }
            k -= 1;
        }
        proof {
            assert(all.skip(0) =~= all);
            assert forall|i: int| 0 <= i < n implies is_result(
                (#[trigger] output@[i])@,
                column(cache@, i),
                plan.run(self.row(i), column(before, i)),
                M::p(),
            ) by {
                let (x, c) = base.run(self.row(i), column(before, i));
                assert(is_result(values@[i]@, column(cache@, i), (x, c), M::p()));
            }
        }
        scratch.push(values);
    }

    /// Runs the pieces of work of a linear combination.
    fn run_work(
        &self,
        work: &Vec<DistributionWork<M>>,
        base: Fe<M>,
        output: &mut Vec<Fe<M>>,
        cache: &mut Vec<Vec<Fe<M>>>,
        scratch: &mut Vec<Vec<Fe<M>>>,
    )
        requires
            self.fits(old(output)@.len()),
            all_sized(old(cache)@, old(output)@.len()),
            all_sized(old(scratch)@, old(output)@.len()),
            forall|k: int|
                0 <= k < work@.len() ==> (#[trigger] work@[k]).sound(
                    self.readable(),
                    old(cache)@.len(),
                ),
        ensures
            final(output)@.len() == old(output)@.len(),
            final(cache)@.len() == old(cache)@.len(),
            all_sized(final(cache)@, old(output)@.len()),
            forall|i: int|
                0 <= i < old(output)@.len() ==> is_result(
                    (#[trigger] final(output)@[i])@,
                    column(final(cache)@, i),
                    DistributionWork::run_all(
                        work@,
                        base@,
                        self.row(i),
                        column(old(cache)@, i),
                    ),
                    M::p(),
                ),
            is_kept(
                old(scratch)@,
                final(scratch)@,
                old(output)@.len(),
                DistributionWork::max_scratch(work@),
            ),
        decreases work@, 0nat,
    {
        let n = output.len();
        let ghost before = cache@;
        let ghost pool = scratch@;
        proof {
            M::lemma_modulus();
        }
        let mut fold = PowerFold::<M>::new(n);
        let mut k: usize = 0;
        assert(work@.take(0) =~= Seq::empty());
        while k < work.len()
            invariant
                k <= work@.len(),
                M::p() > 1,
                self.fits(n as nat),
                cache@.len() == before.len(),
                all_sized(cache@, n as nat),
                is_kept(
                    pool,
                    scratch@,
                    n as nat,
                    DistributionWork::max_scratch(work@.take(k as int)),
                ),
                forall|k: int|
                    0 <= k < work@.len() ==> (#[trigger] work@[k]).sound(
                        self.readable(),
                        before.len(),
                    ),
                fold.sized(n as int, k as int),
                forall|i: int|
                    0 <= i < n ==> is_partial(
                        #[trigger] fold.total(i),
                        column(cache@, i),
                        DistributionWork::run_all(
                            work@.take(k as int),
                            base@,
                            self.row(i),
                            column(before, i),
                        ),
                        M::p(),
                    ),
            decreases work@.len() - k,
        {
            let ghost (fold0, cache0, pool0) = (fold, cache@, scratch@);
            let ghost item = work@[k as int];
            proof {
                assert(work@.take(k + 1).drop_last() =~= work@.take(k as int));
                assert(item.sound(self.readable(), before.len()));
                assert(k <= u64::MAX);
            }
            match &work[k] {
                DistributionWork::Term { term, power } => {
                    assert(item.scratch() == term.scratch());
                    self.run_into(term, &mut fold.terms, cache, scratch);
                    let ghost mid = fold;
                    fold.accumulate(*power, Ghost(n as int), Ghost(k as int));
                    proof {
                        assert forall|i: int| 0 <= i < n implies is_partial(
                            #[trigger] fold.total(i),
                            column(cache@, i),
                            DistributionWork::run_all(
                                work@.take(k + 1),
                                base@,
                                self.row(i),
                                column(before, i),
                            ),
                            M::p(),
                        ) by {
                            let (x, c) = DistributionWork::run_all(
                                work@.take(k as int),
                                base@,
                                self.row(i),
                                column(before, i),
                            );
                            assert(is_partial(fold0.total(i), column(cache0, i), (x, c), M::p()));
                            assert(mid.total(i) == fold0.total(i));
                            let (y, d) = term.run(self.row(i), c);
                            assert(is_result(
                                mid.terms@[i]@,
                                column(cache@, i),
                                (y, d),
                                M::p(),
                            ));
                            assert(item.run(base@, self.row(i), c) == (y * power@, d));
                            lemma_fold(
                                fold0.total(i),
                                x,
                                mid.terms@[i]@,
                                y,
                                power@,
                                fold.total(i),
                                M::p(),
                            );
                        }
                    }
                },
                DistributionWork::SharedFactor { factor, bodies, power } => {
                    assert(item.scratch() == 1 + larger(factor.scratch(), bodies.scratch()));
                    let mut values = take_buffer(scratch, n);
                    self.run_into(factor, &mut values, cache, scratch);
                    let ghost cache1 = cache@;
                    self.run_bodies(bodies, base, &mut fold.terms, cache, scratch);
                    let ghost bodies_rows = fold.terms@;
                    mul_into(&mut fold.terms, &RotatedChunk::whole(values.as_slice()));
                    let ghost mid = fold;
                    fold.accumulate(*power, Ghost(n as int), Ghost(k as int));
                    proof {
                        assert forall|i: int| 0 <= i < n implies is_partial(
                            #[trigger] fold.total(i),
                            column(cache@, i),
                            DistributionWork::run_all(
                                work@.take(k + 1),
                                base@,
                                self.row(i),
                                column(before, i),
                            ),
                            M::p(),
                        ) by {
                            let (x, c) = DistributionWork::run_all(
                                work@.take(k as int),
                                base@,
                                self.row(i),
                                column(before, i),
                            );
                            assert(is_partial(fold0.total(i), column(cache0, i), (x, c), M::p()));
                            assert(mid.total(i) == fold0.total(i));
                            let (g, c1) = factor.run(self.row(i), c);
                            assert(is_result(values@[i]@, column(cache1, i), (g, c1), M::p()));
                            let (y, d) = bodies.run(base@, self.row(i), c1);
                            assert(is_result(
                                bodies_rows[i]@,
                                column(cache@, i),
                                (y, d),
                                M::p(),
                            ));
                            lemma_residues(bodies_rows[i]@, y, values@[i]@, g, M::p());
                            assert(item.run(base@, self.row(i), c) == (y * g * power@, d));
                            lemma_fold(
                                fold0.total(i),
                                x,
                                mid.terms@[i]@,
                                y * g,
                                power@,
                                fold.total(i),
                                M::p(),
                            );
                        }
                    }
                    scratch.push(values);
                },
                DistributionWork::SelectorFamily { query, runs } => {
                    assert(runs@.take(runs@.len() as int) =~= runs@);
                    assert(item.scratch() == runs@.len() + 1 + SelectorFamilyRun::max_scratch(
                        runs@,
                    ));
                    let mut tree = self.run_family(runs, runs.len(), base, n, cache, scratch);
                    let ghost bodies = tree@;
                    let extra = take_buffer(scratch, n);
                    tree.push(extra);
                    let chunk = self.leaf_chunk(*query, n);
                    evaluate_family(&mut tree, runs.len(), &chunk, &mut fold.terms, Ghost(bodies));
                    let ghost mid = fold;
                    fold.accumulate_addends(Ghost(n as int), Ghost(k as int));
                    let ghost held = scratch@;
                    return_buffers(scratch, tree, n);
                    proof {
                        assert forall|i: int| 0 <= i < n implies is_partial(
                            #[trigger] fold.total(i),
                            column(cache@, i),
                            DistributionWork::run_all(
                                work@.take(k + 1),
                                base@,
                                self.row(i),
                                column(before, i),
                            ),
                            M::p(),
                        ) by {
                            let p = M::p();
                            let (x, c) = DistributionWork::run_all(
                                work@.take(k as int),
                                base@,
                                self.row(i),
                                column(before, i),
                            );
                            assert(is_partial(fold0.total(i), column(cache0, i), (x, c), p));
                            assert(mid.total(i) == fold0.total(i));
                            let (ys, d) = SelectorFamilyRun::run_all(
                                runs@,
                                base@,
                                self.row(i),
                                c,
                            );
                            let q = (self.row(i).leaf)(*query);
                            assert(chunk@[i]@ == q);
                            assert(is_family_result(bodies, i, column(cache@, i), (ys, d), p));
                            lemma_family_column(bodies, ys, i, q, p);
                            let v = family_value(ys, q, p);
                            assert(item.run(base@, self.row(i), c) == (v, d));
                            assert(mid.terms@[i]@ == v % p);
                            assert(v * 1 == v);
                            assert(mid.terms@[i]@ * 1 == mid.terms@[i]@);
                            lemma_fold(
                                fold0.total(i),
                                x,
                                mid.terms@[i]@,
                                v,
                                1,
                                fold.total(i),
                                p,
                            );
                        }
                    }
                },
            }
            k += 1;
        }
        assert(work@.take(k as int) =~= work@);
        let ghost total = fold;
        fold.finish(output, Ghost(n as int), Ghost(k as int));
        proof {
            assert forall|i: int| 0 <= i < n implies is_result(
                (#[trigger] output@[i])@,
                column(cache@, i),
                DistributionWork::run_all(work@, base@, self.row(i), column(before, i)),
                M::p(),
            ) by {
                assert(output@[i]@ == total.total(i) % M::p());
            }
        }
    }

    /// The weighted rows of the first `k` runs of a family, run from the last to the first.
    fn run_family(
        &self,
        runs: &Vec<SelectorFamilyRun<M>>,
        k: usize,
        base: Fe<M>,
        n: usize,
        cache: &mut Vec<Vec<Fe<M>>>,
        scratch: &mut Vec<Vec<Fe<M>>>,
    ) -> (r: Vec<Vec<Fe<M>>>)
        requires
            k <= runs@.len(),
            self.fits(n as nat),
            all_sized(old(cache)@, n as nat),
            all_sized(old(scratch)@, n as nat),
            forall|j: int|
                0 <= j < runs@.len() ==> (#[trigger] runs@[j]).bodies.sound(
                    self.readable(),
                    old(cache)@.len(),
                ),
        ensures
            r@.len() == k,
            all_sized(r@, n as nat),
            final(cache)@.len() == old(cache)@.len(),
            all_sized(final(cache)@, n as nat),
            forall|i: int|
                0 <= i < n ==> #[trigger] is_family_result(
                    r@,
                    i,
                    column(final(cache)@, i),
                    SelectorFamilyRun::run_all(
                        runs@.take(k as int),
                        base@,
                        self.row(i),
                        column(old(cache)@, i),
                    ),
                    M::p(),
                ),
            all_sized(final(scratch)@, n as nat),
            final(scratch)@.len() + k >= old(scratch)@.len(),
            old(scratch)@.len() >= k + SelectorFamilyRun::max_scratch(runs@.take(k as int))
                ==> final(scratch)@.len() + k == old(scratch)@.len(),
        decreases runs@, k as nat,
    {
        let ghost before = cache@;
        proof {
            M::lemma_modulus();
        }
        if k == 0 {
            let r: Vec<Vec<Fe<M>>> = Vec::new();
            proof {
                assert(runs@.take(0) =~= Seq::empty());
            }
            return r;
        }
        let ghost list = runs@.take(k as int);
        proof {
            assert(list.drop_last() =~= runs@.take(k - 1));
            assert(runs@[k - 1].bodies.sound(self.readable(), before.len()));
        }
        let mut rows = take_buffer(scratch, n);
        self.run_bodies(&runs[k - 1].bodies, base, &mut rows, cache, scratch);
        let ghost (mid, cache1) = (rows@, cache@);
        let power = runs[k - 1].power;
        scale_into(&mut rows, power);
        let mut r = self.run_family(runs, k - 1, base, n, cache, scratch);
        let ghost front = r@;
        r.push(rows);
        proof {
            assert forall|i: int| 0 <= i < n implies #[trigger] is_family_result(
                r@,
                i,
                column(cache@, i),
                SelectorFamilyRun::run_all(list, base@, self.row(i), column(before, i)),
                M::p(),
            ) by {
                let p = M::p();
                let (x, c) = list.last().bodies.run(base@, self.row(i), column(before, i));
                assert(is_result(mid[i]@, column(cache1, i), (x, c), p));
                let (xs, d) = SelectorFamilyRun::run_all(
                    list.drop_last(),
                    base@,
                    self.row(i),
                    c,
                );
                assert(is_family_result(front, i, column(cache@, i), (xs, d), p));
                power.lemma_view();
                lemma_small_mod(power@ as nat, p as nat);
                lemma_residues(mid[i]@, x, power@, power@, p);
                assert(SelectorFamilyRun::run_all(list, base@, self.row(i), column(before, i)) == (
                    xs.push(x * power@),
                    d,
                ));
                let ys = xs.push(x * power@);
                assert forall|s: int| 0 <= s < ys.len() implies #[trigger] r@[s]@[i]@ == ys[s]
                    % p by {
                    if s < xs.len() {
                        assert(front[s]@[i]@ == xs[s] % p);
                    }
                }
            }
        }
        r
    }

    /// Runs the bodies of a run.
    fn run_bodies(
        &self,
        plan: &FactorBodyPlan<M>,
        base: Fe<M>,
        output: &mut Vec<Fe<M>>,
        cache: &mut Vec<Vec<Fe<M>>>,
        scratch: &mut Vec<Vec<Fe<M>>>,
    )
        requires
            self.fits(old(output)@.len()),
            all_sized(old(cache)@, old(output)@.len()),
            all_sized(old(scratch)@, old(output)@.len()),
            plan.sound(self.readable(), old(cache)@.len()),
        ensures
            self.ran_bodies(
                old(output)@.len(),
                *plan,
                base@,
                final(output)@,
                old(cache)@,
                final(cache)@,
            ),
            is_kept(old(scratch)@, final(scratch)@, old(output)@.len(), plan.scratch()),
        decreases plan, 0nat,
    {
        let n = output.len();
        let ghost before = cache@;
        match plan {
            FactorBodyPlan::Sequential(bodies) => {
                self.run_sequence(bodies, base, output, cache, scratch);
                proof {
                    assert forall|i: int| 0 <= i < n implies is_result(
                        (#[trigger] output@[i])@,
                        column(cache@, i),
                        plan.run(base@, self.row(i), column(before, i)),
                        M::p(),
                    ) by {
                        assert(is_result(
                            output@[i]@,
                            column(cache@, i),
                            EvaluationPlan::run_sequence(
                                bodies@,
                                base@,
                                self.row(i),
                                column(before, i),
                            ),
                            M::p(),
                        ));
                    }
                }
            },
            FactorBodyPlan::Factored(work) => {
                self.run_body_work(work, output, cache, scratch);
                proof {
                    assert forall|i: int| 0 <= i < n implies is_result(
                        (#[trigger] output@[i])@,
                        column(cache@, i),
                        plan.run(base@, self.row(i), column(before, i)),
                        M::p(),
                    ) by {
                        assert(is_result(
                            output@[i]@,
                            column(cache@, i),
                            FactorBodyWork::run_all(work@, self.row(i), column(before, i)),
                            M::p(),
                        ));
                    }
                }
            },
        }
    }

    fn run_sequence(
        &self,
        bodies: &Vec<EvaluationPlan<M>>,
        base: Fe<M>,
        output: &mut Vec<Fe<M>>,
        cache: &mut Vec<Vec<Fe<M>>>,
        scratch: &mut Vec<Vec<Fe<M>>>,
    )
        requires
            bodies@.len() > 0,
            self.fits(old(output)@.len()),
            all_sized(old(cache)@, old(output)@.len()),
            all_sized(old(scratch)@, old(output)@.len()),
            forall|k: int|
                0 <= k < bodies@.len() ==> (#[trigger] bodies@[k]).sound(
                    self.readable(),
                    old(cache)@.len(),
                ),
        ensures
            final(output)@.len() == old(output)@.len(),
            final(cache)@.len() == old(cache)@.len(),
            all_sized(final(cache)@, old(output)@.len()),
            forall|i: int|
                0 <= i < old(output)@.len() ==> is_result(
                    (#[trigger] final(output)@[i])@,
                    column(final(cache)@, i),
                    EvaluationPlan::run_sequence(
                        bodies@,
                        base@,
                        self.row(i),
                        column(old(cache)@, i),
                    ),
                    M::p(),
                ),
            is_kept(
                old(scratch)@,
                final(scratch)@,
                old(output)@.len(),
                1 + EvaluationPlan::max_scratch(bodies@),
            ),
        decreases bodies@, 0nat,
    {
        let n = output.len();
        let ghost before = cache@;
        let ghost pool = scratch@;
        proof {
            M::lemma_modulus();
            assert(bodies@.take(1).drop_last() =~= bodies@.take(0));
            assert(bodies@.take(0) =~= Seq::empty());
            assert(bodies@[0].sound(self.readable(), before.len()));
        }
        self.run_into(&bodies[0], output, cache, scratch);
        proof {
            assert forall|i: int| 0 <= i < n implies is_result(
                (#[trigger] output@[i])@,
                column(cache@, i),
                EvaluationPlan::run_sequence(
                    bodies@.take(1),
                    base@,
                    self.row(i),
                    column(before, i),
                ),
                M::p(),
            ) by {
                let (y, d) = bodies@[0].run(self.row(i), column(before, i));
                assert(is_result(output@[i]@, column(cache@, i), (y, d), M::p()));
                assert(0 * base@ == 0);
                assert(EvaluationPlan::run_sequence(
                    bodies@.take(0),
                    base@,
                    self.row(i),
                    column(before, i),
                ) == (0int, column(before, i)));
            }
        }
        let mut k: usize = 1;
        while k < bodies.len()
            invariant
                1 <= k <= bodies@.len(),
                M::p() > 1,
                self.fits(n as nat),
                output@.len() == n,
                cache@.len() == before.len(),
                all_sized(cache@, n as nat),
                is_kept(
                    pool,
                    scratch@,
                    n as nat,
                    1 + EvaluationPlan::max_scratch(bodies@.take(k as int)),
                ),
                forall|k: int|
                    0 <= k < bodies@.len() ==> (#[trigger] bodies@[k]).sound(
                        self.readable(),
                        before.len(),
                    ),
                forall|i: int|
                    0 <= i < n ==> is_result(
                        (#[trigger] output@[i])@,
                        column(cache@, i),
                        EvaluationPlan::run_sequence(
                            bodies@.take(k as int),
                            base@,
                            self.row(i),
                            column(before, i),
                        ),
                        M::p(),
                    ),
            decreases bodies@.len() - k,
        {
            let ghost (out0, cache0) = (output@, cache@);
            proof {
                assert(bodies@.take(k + 1).drop_last() =~= bodies@.take(k as int));
                assert(bodies@[k as int].sound(self.readable(), before.len()));
            }
            let mut values = take_buffer(scratch, n);
            self.run_into(&bodies[k], &mut values, cache, scratch);
            scale_into(output, base);
            let ghost out1 = output@;
            add_into(output, &RotatedChunk::whole(values.as_slice()));
            proof {
                assert forall|i: int| 0 <= i < n implies is_result(
                    (#[trigger] output@[i])@,
                    column(cache@, i),
                    EvaluationPlan::run_sequence(
                        bodies@.take(k + 1),
                        base@,
                        self.row(i),
                        column(before, i),
                    ),
                    M::p(),
                ) by {
                    let p = M::p();
                    let (x, c) = EvaluationPlan::run_sequence(
                        bodies@.take(k as int),
                        base@,
                        self.row(i),
                        column(before, i),
                    );
                    assert(is_result(out0[i]@, column(cache0, i), (x, c), p));
                    let (y, d) = bodies@[k as int].run(self.row(i), c);
                    assert(is_result(values@[i]@, column(cache@, i), (y, d), p));
                    base.lemma_view();
                    lemma_small_mod(base@ as nat, p as nat);
                    lemma_residues(out0[i]@, x, base@, base@, p);
                    lemma_residues(out1[i]@, x * base@, values@[i]@, y, p);
                }
            }
            scratch.push(values);
            k += 1;
        }
        assert(bodies@.take(k as int) =~= bodies@);
    }

    fn run_body_work(
        &self,
        work: &Vec<FactorBodyWork<M>>,
        output: &mut Vec<Fe<M>>,
        cache: &mut Vec<Vec<Fe<M>>>,
        scratch: &mut Vec<Vec<Fe<M>>>,
    )
        requires
            self.fits(old(output)@.len()),
            all_sized(old(cache)@, old(output)@.len()),
            all_sized(old(scratch)@, old(output)@.len()),
            forall|k: int|
                0 <= k < work@.len() ==> (#[trigger] work@[k]).sound(
                    self.readable(),
                    old(cache)@.len(),
                ),
        ensures
            final(output)@.len() == old(output)@.len(),
            final(cache)@.len() == old(cache)@.len(),
            all_sized(final(cache)@, old(output)@.len()),
            forall|i: int|
                0 <= i < old(output)@.len() ==> is_result(
                    (#[trigger] final(output)@[i])@,
                    column(final(cache)@, i),
                    FactorBodyWork::run_all(work@, self.row(i), column(old(cache)@, i)),
                    M::p(),
                ),
            is_kept(
                old(scratch)@,
                final(scratch)@,
                old(output)@.len(),
                FactorBodyWork::max_scratch(work@),
            ),
        decreases work@, 0nat,
    {
        let n = output.len();
        let ghost before = cache@;
        let ghost pool = scratch@;
        proof {
            M::lemma_modulus();
        }
        let mut fold = PowerFold::<M>::new(n);
        let mut k: usize = 0;
        assert(work@.take(0) =~= Seq::empty());
        while k < work.len()
            invariant
                k <= work@.len(),
                M::p() > 1,
                self.fits(n as nat),
                cache@.len() == before.len(),
                all_sized(cache@, n as nat),
                is_kept(
                    pool,
                    scratch@,
                    n as nat,
                    FactorBodyWork::max_scratch(work@.take(k as int)),
                ),
                forall|k: int|
                    0 <= k < work@.len() ==> (#[trigger] work@[k]).sound(
                        self.readable(),
                        before.len(),
                    ),
                fold.sized(n as int, k as int),
                forall|i: int|
                    0 <= i < n ==> is_partial(
                        #[trigger] fold.total(i),
                        column(cache@, i),
                        FactorBodyWork::run_all(
                            work@.take(k as int),
                            self.row(i),
                            column(before, i),
                        ),
                        M::p(),
                    ),
            decreases work@.len() - k,
        {
            let ghost (fold0, cache0) = (fold, cache@);
            let ghost item = work@[k as int];
            proof {
                assert(work@.take(k + 1).drop_last() =~= work@.take(k as int));
                assert(item.sound(self.readable(), before.len()));
            }
            match &work[k] {
                FactorBodyWork::Term(term) => {
                    assert(item.scratch() == term.term.scratch());
                    self.run_into(&term.term, &mut fold.terms, cache, scratch);
                    let ghost mid = fold;
                    fold.accumulate(term.power, Ghost(n as int), Ghost(k as int));
                    proof {
                        assert forall|i: int| 0 <= i < n implies is_partial(
                            #[trigger] fold.total(i),
                            column(cache@, i),
                            FactorBodyWork::run_all(
                                work@.take(k + 1),
                                self.row(i),
                                column(before, i),
                            ),
                            M::p(),
                        ) by {
                            let (x, c) = FactorBodyWork::run_all(
                                work@.take(k as int),
                                self.row(i),
                                column(before, i),
                            );
                            assert(is_partial(fold0.total(i), column(cache0, i), (x, c), M::p()));
                            assert(mid.total(i) == fold0.total(i));
                            let (y, d) = term.term.run(self.row(i), c);
                            assert(is_result(
                                mid.terms@[i]@,
                                column(cache@, i),
                                (y, d),
                                M::p(),
                            ));
                            assert(item.run(self.row(i), c) == (y * term.power@, d));
                            lemma_fold(
                                fold0.total(i),
                                x,
                                mid.terms@[i]@,
                                y,
                                term.power@,
                                fold.total(i),
                                M::p(),
                            );
                        }
                    }
                },
                FactorBodyWork::SharedFactor { factor, terms } => {
                    assert(item.scratch() == larger(
                        factor.scratch(),
                        WeightedTerm::max_scratch(terms@),
                    ));
                    self.run_into(factor, &mut fold.factors, cache, scratch);
                    let ghost cache1 = cache@;
                    self.run_terms(terms, &mut fold.terms, cache, scratch);
                    let ghost mid = fold;
                    fold.accumulate_products(Ghost(n as int), Ghost(k as int));
                    proof {
                        assert forall|i: int| 0 <= i < n implies is_partial(
                            #[trigger] fold.total(i),
                            column(cache@, i),
                            FactorBodyWork::run_all(
                                work@.take(k + 1),
                                self.row(i),
                                column(before, i),
                            ),
                            M::p(),
                        ) by {
                            let (x, c) = FactorBodyWork::run_all(
                                work@.take(k as int),
                                self.row(i),
                                column(before, i),
                            );
                            assert(is_partial(fold0.total(i), column(cache0, i), (x, c), M::p()));
                            assert(mid.total(i) == fold0.total(i));
                            let (g, c1) = factor.run(self.row(i), c);
                            assert(is_result(
                                mid.factors@[i]@,
                                column(cache1, i),
                                (g, c1),
                                M::p(),
                            ));
                            let (y, d) = WeightedTerm::run_all(terms@, self.row(i), c1);
                            assert(is_result(
                                mid.terms@[i]@,
                                column(cache@, i),
                                (y, d),
                                M::p(),
                            ));
                            assert(item.run(self.row(i), c) == (y * g, d));
                            lemma_congruent_mod(g, M::p());
                            lemma_fold_product(
                                fold0.total(i),
                                x,
                                mid.terms@[i]@,
                                y,
                                mid.factors@[i]@,
                                g,
                                fold.total(i),
                                M::p(),
                            );
                        }
                    }
                },
            }
            k += 1;
        }
        assert(work@.take(k as int) =~= work@);
        let ghost total = fold;
        fold.finish(output, Ghost(n as int), Ghost(k as int));
        proof {
            assert forall|i: int| 0 <= i < n implies is_result(
                (#[trigger] output@[i])@,
                column(cache@, i),
                FactorBodyWork::run_all(work@, self.row(i), column(before, i)),
                M::p(),
            ) by {
                assert(output@[i]@ == total.total(i) % M::p());
            }
        }
    }

    /// Runs weighted terms.
    fn run_terms(
        &self,
        terms: &Vec<WeightedTerm<M>>,
        output: &mut Vec<Fe<M>>,
        cache: &mut Vec<Vec<Fe<M>>>,
        scratch: &mut Vec<Vec<Fe<M>>>,
    )
        requires
            self.fits(old(output)@.len()),
            all_sized(old(cache)@, old(output)@.len()),
            all_sized(old(scratch)@, old(output)@.len()),
            forall|k: int|
                0 <= k < terms@.len() ==> (#[trigger] terms@[k]).term.sound(
                    self.readable(),
                    old(cache)@.len(),
                ),
        ensures
            self.ran_terms(
                old(output)@.len(),
                terms@,
                final(output)@,
                old(cache)@,
                final(cache)@,
            ),
            is_kept(
                old(scratch)@,
                final(scratch)@,
                old(output)@.len(),
                WeightedTerm::max_scratch(terms@),
            ),
        decreases terms@, 0nat,
    {
        let n = output.len();
        let ghost before = cache@;
        let ghost pool = scratch@;
        proof {
            M::lemma_modulus();
        }
        let mut fold = PowerFold::<M>::new(n);
        let mut k: usize = 0;
        assert(terms@.take(0) =~= Seq::empty());
        while k < terms.len()
            invariant
                k <= terms@.len(),
                M::p() > 1,
                self.fits(n as nat),
                cache@.len() == before.len(),
                all_sized(cache@, n as nat),
                is_kept(
                    pool,
                    scratch@,
                    n as nat,
                    WeightedTerm::max_scratch(terms@.take(k as int)),
                ),
                forall|k: int|
                    0 <= k < terms@.len() ==> (#[trigger] terms@[k]).term.sound(
                        self.readable(),
                        before.len(),
                    ),
                fold.sized(n as int, k as int),
                forall|i: int|
                    0 <= i < n ==> is_partial(
                        #[trigger] fold.total(i),
                        column(cache@, i),
                        WeightedTerm::run_all(
                            terms@.take(k as int),
                            self.row(i),
                            column(before, i),
                        ),
                        M::p(),
                    ),
            decreases terms@.len() - k,
        {
            let ghost (fold0, cache0) = (fold, cache@);
            proof {
                assert(terms@.take(k + 1).drop_last() =~= terms@.take(k as int));
                assert(terms@[k as int].term.sound(self.readable(), before.len()));
            }
            self.run_into(&terms[k].term, &mut fold.terms, cache, scratch);
            let ghost mid = fold;
            let power = terms[k].power;
            fold.accumulate(power, Ghost(n as int), Ghost(k as int));
            proof {
                assert forall|i: int| 0 <= i < n implies is_partial(
                    #[trigger] fold.total(i),
                    column(cache@, i),
                    WeightedTerm::run_all(terms@.take(k + 1), self.row(i), column(before, i)),
                    M::p(),
                ) by {
                    let (x, c) = WeightedTerm::run_all(
                        terms@.take(k as int),
                        self.row(i),
                        column(before, i),
                    );
                    assert(is_partial(fold0.total(i), column(cache0, i), (x, c), M::p()));
                    assert(mid.total(i) == fold0.total(i));
                    let (y, d) = terms@[k as int].term.run(self.row(i), c);
                    assert(is_result(mid.terms@[i]@, column(cache@, i), (y, d), M::p()));
                    lemma_fold(
                        fold0.total(i),
                        x,
                        mid.terms@[i]@,
                        y,
                        power@,
                        fold.total(i),
                        M::p(),
                    );
                }
            }
            k += 1;
        }
        assert(terms@.take(k as int) =~= terms@);
        let ghost total = fold;
        fold.finish(output, Ghost(n as int), Ghost(k as int));
        proof {
            assert forall|i: int| 0 <= i < n implies is_result(
                (#[trigger] output@[i])@,
                column(cache@, i),
                WeightedTerm::run_all(terms@, self.row(i), column(before, i)),
                M::p(),
            ) by {
                assert(output@[i]@ == total.total(i) % M::p());
            }
        }
    }
}

/// The partial sum and the cached values that running at one row gave.
spec fn is_partial(total: int, cached: Seq<int>, r: (int, Seq<int>), p: int) -> bool {
    congruent(total, r.0, p) && cached == r.1
}

/// The rows of the bodies and the cached values that running a family at one row gave.
spec fn is_family_result<M: Modulus>(
    rows: Seq<Vec<Fe<M>>>,
    i: int,
    cached: Seq<int>,
    r: (Seq<int>, Seq<int>),
    p: int,
) -> bool {
    &&& rows.len() == r.0.len()
    &&& forall|s: int| 0 <= s < rows.len() ==> #[trigger] rows[s]@[i]@ == r.0[s] % p
    &&& cached == r.1
}

/// `x - y` as a sum with a multiple by minus one.
proof fn lemma_minus(x: int, y: int, p: int)
    requires
        p > 0,
    ensures
        (x - y) % p == (x + y * (p - 1)) % p,
{
    assert(x + y * (p - 1) == x - y + y * p) by (nonlinear_arith);
    lemma_congruent_multiple(x + y * (p - 1), x - y, y, p);
}

proof fn lemma_fold(total: int, x: int, term: int, y: int, power: int, after: int, p: int)
    requires
        p > 0,
        congruent(total, x, p),
        term == y % p,
        congruent(after, total + term * power, p),
    ensures
        congruent(after, x + y * power, p),
{
    lemma_congruent_mod(y, p);
    lemma_congruent_ops(term, y, power, power, p);
    lemma_congruent_ops(total, x, term * power, y * power, p);
}

proof fn lemma_fold_product(
    total: int,
    x: int,
    term: int,
    y: int,
    factor: int,
    g: int,
    after: int,
    p: int,
)
    requires
        p > 0,
        congruent(total, x, p),
        term == y % p,
        factor == g % p,
        congruent(after, total + term * factor, p),
    ensures
        congruent(after, x + y * g, p),
{
    lemma_congruent_mod(y, p);
    lemma_congruent_mod(g, p);
    lemma_congruent_ops(term, y, factor, g, p);
    lemma_congruent_ops(total, x, term * factor, y * g, p);
}

fn return_buffers<M: Modulus>(pool: &mut Vec<Vec<Fe<M>>>, buffers: Vec<Vec<Fe<M>>>, n: usize)
    requires
        all_sized(old(pool)@, n as nat),
        all_sized(buffers@, n as nat),
    ensures
        all_sized(final(pool)@, n as nat),
        final(pool)@.len() == old(pool)@.len() + buffers@.len(),
{
    let mut buffers = buffers;
    pool.append(&mut buffers);
}

} // verus!

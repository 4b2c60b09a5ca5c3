//! Transforms of eight and sixteen points for many blocks at once.
//!
//! The blocks are processed in step: a register file holds one column per intermediate result,
//! with one entry per block, so that every stage shares its inversions among all blocks.
use crate::curve::affine::Affine;
use crate::curve::batch::are_apart;
use crate::curve::combination::all_on_curve;
use crate::curve::law::{
    lemma_closed, lemma_inverse_point, lemma_smul_closed, lemma_smul_congruent,
    lemma_smul_injective, lemma_smul_small, minus, on_curve, order, plus, smul, Pt,
};
use crate::curve::point::Point;
use crate::curve::Group;
use crate::field::congruence::{
    congruent, lemma_congruent_difference, lemma_congruent_mod, lemma_congruent_ops,
};
use crate::field::{Fe, Modulus};
use crate::glv::butterfly::{
    affine_add_sub_pairs, are_proper, difference, is_butterfly, AffineTwiddleScratch,
};
use crate::glv::dft::{dft8, dft_at, evens, is_root8, lemma_dft8, odds};
use crate::glv::dft16::{dft16, folded_differences, folded_sums, lemma_dft16, odd4};
use crate::glv::params::GlvParams;
use crate::glv::scalar::Decomposed;
use crate::glv::table::Table;
use vstd::arithmetic::power::{lemma_pow1, lemma_pow_adds, lemma_pow_multiplies, pow};
use vstd::prelude::*;

verus! {

/// A register of a block.
spec fn cell<C: Group>(regs: Seq<Vec<Affine<C>>>, k: int, b: int) -> Pt {
    regs[k]@[b]@
}

/// Every column has one entry per block.
spec fn is_file<C: Group>(regs: Seq<Vec<Affine<C>>>, blocks: int) -> bool {
    forall|k: int| 0 <= k < regs.len() ==> (#[trigger] regs[k])@.len() == blocks
}

/// The file continues another one.
spec fn continues<C: Group>(before: Seq<Vec<Affine<C>>>, after: Seq<Vec<Affine<C>>>) -> bool {
    before.len() <= after.len() && forall|k: int|
        0 <= k < before.len() ==> #[trigger] after[k] == before[k]
}

proof fn lemma_continues<C: Group>(
    a: Seq<Vec<Affine<C>>>,
    b: Seq<Vec<Affine<C>>>,
    c: Seq<Vec<Affine<C>>>,
)
    requires
        continues(a, b),
        continues(b, c),
    ensures
        continues(a, c),
{
    assert forall|k: int| 0 <= k < a.len() implies #[trigger] c[k] == a[k] by {
        assert(b[k] == a[k]);
    }
}

/// Operation `m` of a stage adds and subtracts two registers of block `b`.
spec fn is_sum_step<C: Group>(
    before: Seq<Vec<Affine<C>>>,
    after: Seq<Vec<Affine<C>>>,
    ops: Seq<(usize, usize)>,
    m: int,
    b: int,
    free: bool,
) -> bool {
    is_butterfly::<C>(
        cell(before, ops[m].0 as int, b),
        cell(before, ops[m].1 as int, b),
        cell(after, before.len() + 2 * m, b),
        cell(after, before.len() + 2 * m + 1, b),
        free,
    )
}

/// The first coordinates of the registers that operation `m` of a stage adds and subtracts differ
/// in block `b`.
spec fn is_apart_step<C: Group>(
    before: Seq<Vec<Affine<C>>>,
    ops: Seq<(usize, usize)>,
    m: int,
    b: int,
) -> bool {
    before[ops[m].0 as int]@[b].x@ != before[ops[m].1 as int]@[b].x@
}

/// The first coordinates differ in all operations of a stage on block `b`.
spec fn apart_block<C: Group>(
    before: Seq<Vec<Affine<C>>>,
    ops: Seq<(usize, usize)>,
    b: int,
) -> bool {
    forall|m: int| 0 <= m < ops.len() ==> #[trigger] is_apart_step(before, ops, m, b)
}

/// The first coordinates differ in all operations of a stage on block `b` exactly if the block is
/// regular.
spec fn are_apart_at<C: Group>(
    before: Seq<Vec<Affine<C>>>,
    ops: Seq<(usize, usize)>,
    b: int,
    regular: bool,
) -> bool {
    apart_block(before, ops, b) <==> regular
}

proof fn lemma_all_apart<C: Group>(
    before: Seq<Vec<Affine<C>>>,
    ops: Seq<(usize, usize)>,
    blocks: int,
)
    requires
        forall|b: int| 0 <= b < blocks ==> #[trigger] apart_block(before, ops, b),
    ensures
        forall|m: int, b: int|
            0 <= m < ops.len() && 0 <= b < blocks ==> #[trigger] is_apart_step(before, ops, m, b),
{
    assert forall|m: int, b: int| 0 <= m < ops.len() && 0 <= b < blocks implies #[trigger] is_apart_step(
        before,
        ops,
        m,
        b,
    ) by {
        assert(apart_block(before, ops, b));
    }
}

/// The results of operation `m` in block `b` are not neutral where its operands are on the curve
/// and not neutral.
spec fn is_finite_step<C: Group>(
    before: Seq<Vec<Affine<C>>>,
    after: Seq<Vec<Affine<C>>>,
    ops: Seq<(usize, usize)>,
    m: int,
    b: int,
) -> bool {
    are_proper::<C>(
        cell(before, ops[m].0 as int, b),
        cell(before, ops[m].1 as int, b),
        true,
    ) ==> cell(after, before.len() + 2 * m, b) != Pt::Infinity && cell(
        after,
        before.len() + 2 * m + 1,
        b,
    ) != Pt::Infinity
}

/// A stage of sums and differences, with the claims before and after it that no register is
/// neutral: the claim is kept exactly if all first coordinates differ.
spec fn is_sum_stage<C: Group>(
    before: Seq<Vec<Affine<C>>>,
    after: Seq<Vec<Affine<C>>>,
    ops: Seq<(usize, usize)>,
    blocks: int,
    free: bool,
    kept: bool,
) -> bool {
    &&& continues(before, after)
    &&& after.len() == before.len() + 2 * ops.len()
    &&& forall|m: int, b: int|
        0 <= m < ops.len() && 0 <= b < blocks ==> #[trigger] is_sum_step(
            before,
            after,
            ops,
            m,
            b,
            free,
        )
    &&& kept <==> free && forall|m: int, b: int|
        0 <= m < ops.len() && 0 <= b < blocks ==> #[trigger] is_apart_step(before, ops, m, b)
    &&& kept ==> forall|m: int, b: int|
        0 <= m < ops.len() && 0 <= b < blocks ==> #[trigger] is_finite_step(
            before,
            after,
            ops,
            m,
            b,
        )
}

/// Operation `m` of a stage multiplies a register of block `b`.
spec fn is_product_step<C: Group>(
    before: Seq<Vec<Affine<C>>>,
    after: Seq<Vec<Affine<C>>>,
    sources: Seq<usize>,
    k: int,
    m: int,
    b: int,
) -> bool {
    on_curve::<C>(cell(before, sources[m] as int, b)) ==> cell(
        after,
        before.len() + m,
        b,
    ) == smul::<C>(k, cell(before, sources[m] as int, b))
}

/// A stage of products with one scalar.
spec fn is_product_stage<C: Group>(
    before: Seq<Vec<Affine<C>>>,
    after: Seq<Vec<Affine<C>>>,
    sources: Seq<usize>,
    k: int,
    blocks: int,
) -> bool {
    &&& continues(before, after)
    &&& after.len() == before.len() + sources.len()
    &&& forall|m: int, b: int|
        0 <= m < sources.len() && 0 <= b < blocks ==> #[trigger] is_product_step(
            before,
            after,
            sources,
            k,
            m,
            b,
        )
}

/// The entries of some columns, one column after the other.
fn gather<C: Group>(regs: &Vec<Vec<Affine<C>>>, columns: &Vec<usize>, blocks: usize) -> (r: Vec<
    Affine<C>,
>)
    requires
        is_file(regs@, blocks as int),
        forall|m: int| 0 <= m < columns@.len() ==> #[trigger] columns@[m] < regs@.len(),
    ensures
        r@.len() == columns@.len() * blocks,
        forall|m: int, b: int|
            0 <= m < columns@.len() && 0 <= b < blocks ==> #[trigger] r@[m * blocks + b]
                == regs@[columns@[m] as int]@[b],
{
    let mut r: Vec<Affine<C>> = Vec::new();
    let mut m: usize = 0;
    assert(0 * blocks == 0);
    while m < columns.len()
        invariant
            m <= columns@.len(),
            is_file(regs@, blocks as int),
            forall|i: int| 0 <= i < columns@.len() ==> #[trigger] columns@[i] < regs@.len(),
            r@.len() == m * blocks,
            forall|i: int, b: int|
                0 <= i < m && 0 <= b < blocks ==> #[trigger] r@[i * blocks + b]
                    == regs@[columns@[i] as int]@[b],
        decreases columns@.len() - m,
    {
        assert(columns@[m as int] < regs@.len());
        let column = &regs[columns[m]];
        assert(column@.len() == blocks);
        let ghost before = r@;
        let mut b: usize = 0;
        while b < blocks
            invariant
                b <= blocks,
                column@.len() == blocks,
                r@.len() == m * blocks + b,
                before.len() == m * blocks,
                forall|i: int| 0 <= i < before.len() ==> #[trigger] r@[i] == before[i],
                forall|i: int| 0 <= i < b ==> r@[m * blocks + i] == #[trigger] column@[i],
            decreases blocks - b,
        {
            r.push(column[b]);
            b += 1;
        }
        proof {
            assert forall|i: int, b: int| 0 <= i < m + 1 && 0 <= b < blocks implies #[trigger] r@[i
                * blocks + b] == regs@[columns@[i] as int]@[b] by {
                if i < m {
                    lemma_cell_order(i, m as int, b, blocks as int);
                    assert(before[i * blocks + b] == regs@[columns@[i] as int]@[b]);
                } else {
                    assert(r@[m * blocks + b] == column@[b]);
                }
            }
            assert((m + 1) * blocks == m * blocks + blocks) by (nonlinear_arith);
        }
        m += 1;
    }
    r
}

proof fn lemma_cell_order(i: int, m: int, b: int, blocks: int)
    requires
        0 <= i < m,
        0 <= b < blocks,
    ensures
        0 <= i * blocks + b < m * blocks,
{
    assert(0 <= i * blocks && i * blocks + blocks <= m * blocks) by (nonlinear_arith)
        requires
            0 <= i < m,
            blocks > 0,
    ;
}

/// One column of gathered entries.
fn column_of<C: Group>(entries: &Vec<Affine<C>>, m: usize, blocks: usize) -> (r: Vec<Affine<C>>)
    requires
        (m + 1) * blocks <= entries@.len(),
    ensures
        r@.len() == blocks,
        forall|b: int| 0 <= b < blocks ==> #[trigger] r@[b] == entries@[m * blocks + b],
{
    assert((m + 1) * blocks == m * blocks + blocks && m * blocks >= 0) by (nonlinear_arith);
    let size = entries.len();
    let start = m * blocks;
    let mut r: Vec<Affine<C>> = Vec::new();
    let mut b: usize = 0;
    while b < blocks
        invariant
            b <= blocks,
            size == entries@.len(),
            start + blocks <= size,
            start == m * blocks,
            r@.len() == b,
            forall|i: int| 0 <= i < b ==> #[trigger] r@[i] == entries@[m * blocks + i],
        decreases blocks - b,
    {
        r.push(entries[start + b]);
        b += 1;
    }
    r
}

/// Adds and subtracts pairs of registers in all blocks.
fn add_sub_stage<C: Group>(
    regs: &mut Vec<Vec<Affine<C>>>,
    ops: &Vec<(usize, usize)>,
    blocks: usize,
    scratch: &mut AffineTwiddleScratch<C>,
    identity_free: bool,
) -> (r: bool)
    requires
        is_file(old(regs)@, blocks as int),
        forall|m: int|
            0 <= m < ops@.len() ==> (#[trigger] ops@[m]).0 < old(regs)@.len() && ops@[m].1 < old(
                regs,
            )@.len(),
    ensures
        is_file(final(regs)@, blocks as int),
        is_sum_stage(old(regs)@, final(regs)@, ops@, blocks as int, identity_free, r),
{
    let ghost before = regs@;
    let mut first: Vec<usize> = Vec::new();
    let mut second: Vec<usize> = Vec::new();
    let mut m: usize = 0;
    while m < ops.len()
        invariant
            m <= ops@.len(),
            first@.len() == m,
            second@.len() == m,
            forall|i: int| 0 <= i < m ==> #[trigger] first@[i] == ops@[i].0,
            forall|i: int| 0 <= i < m ==> #[trigger] second@[i] == ops@[i].1,
        decreases ops@.len() - m,
    {
        first.push(ops[m].0);
        second.push(ops[m].1);
        m += 1;
    }
    proof {
        assert forall|i: int| 0 <= i < first@.len() implies #[trigger] first@[i] < before.len() by {
            assert(ops@[i].0 < before.len());
        }
        assert forall|i: int| 0 <= i < second@.len() implies #[trigger] second@[i] < before.len() by {
            assert(ops@[i].1 < before.len());
        }
    }
    let left = gather(regs, &first, blocks);
    let right = gather(regs, &second, blocks);
    let (sums, differences, kept) = affine_add_sub_pairs(&left, &right, scratch, identity_free);
    let count = ops.len();
    let mut m: usize = 0;
    while m < count
        invariant
            m <= count,
            count == ops@.len(),
            sums@.len() == count * blocks,
            differences@.len() == count * blocks,
            regs@.len() == before.len() + 2 * m,
            is_file(regs@, blocks as int),
            continues(before, regs@),
            forall|i: int, b: int|
                0 <= i < m && 0 <= b < blocks ==> cell(regs@, before.len() + 2 * i, b)
                    == (#[trigger] sums@[i * blocks + b])@ && cell(
                    regs@,
                    before.len() + 2 * i + 1,
                    b,
                ) == differences@[i * blocks + b]@,
        decreases count - m,
    {
        let ghost r0 = regs@;
        assert((m + 1) * blocks <= count * blocks) by (nonlinear_arith)
            requires
                m + 1 <= count,
                blocks >= 0,
        ;
        regs.push(column_of(&sums, m, blocks));
        regs.push(column_of(&differences, m, blocks));
        proof {
            assert forall|k: int| 0 <= k < regs@.len() implies (#[trigger] regs@[k])@.len()
                == blocks by {
                if k < r0.len() {
                    assert(regs@[k] == r0[k]);
                }
            }
            assert forall|k: int| 0 <= k < before.len() implies #[trigger] regs@[k] == before[k] by {
                assert(regs@[k] == r0[k]);
            }
            assert forall|i: int, b: int| 0 <= i < m + 1 && 0 <= b < blocks implies cell(
                regs@,
                before.len() + 2 * i,
                b,
            ) == (#[trigger] sums@[i * blocks + b])@ && cell(regs@, before.len() + 2 * i + 1, b)
                == differences@[i * blocks + b]@ by {
                if i < m {
                    assert(regs@[before.len() + 2 * i] == r0[before.len() + 2 * i]);
                    assert(regs@[before.len() + 2 * i + 1] == r0[before.len() + 2 * i + 1]);
                    assert(cell(r0, before.len() + 2 * i, b) == sums@[i * blocks + b]@);
                }
            }
        }
        m += 1;
    }
    proof {
        assert forall|i: int, b: int| 0 <= i < ops@.len() && 0 <= b < blocks implies #[trigger] is_sum_step(
            before,
            regs@,
            ops@,
            i,
            b,
            identity_free,
        ) && (kept ==> is_apart_step(before, ops@, i, b) && is_finite_step(
            before,
            regs@,
            ops@,
            i,
            b,
        )) by {
            lemma_cell_order(i, count as int, b, blocks as int);
            assert(left@[i * blocks + b] == before[first@[i] as int]@[b]);
            assert(right@[i * blocks + b] == before[second@[i] as int]@[b]);
            assert(cell(regs@, before.len() + 2 * i, b) == sums@[i * blocks + b]@);
        }
        if kept {
            assert forall|i: int, b: int|
                0 <= i < ops@.len() && 0 <= b < blocks implies #[trigger] is_apart_step(
                before,
                ops@,
                i,
                b,
            ) by {
                assert(is_sum_step(before, regs@, ops@, i, b, identity_free));
            }
            assert forall|i: int, b: int|
                0 <= i < ops@.len() && 0 <= b < blocks implies #[trigger] is_finite_step(
                before,
                regs@,
                ops@,
                i,
                b,
            ) by {
                assert(is_sum_step(before, regs@, ops@, i, b, identity_free));
            }
        } else if identity_free {
            let t = choose|t: int| 0 <= t < left@.len() && (#[trigger] left@[t]).x@ == right@[t].x@;
            lemma_cell_at(t, count as int, blocks as int);
            let (i, b) = (t / blocks as int, t % blocks as int);
            assert(left@[i * blocks + b] == before[first@[i] as int]@[b]);
            assert(right@[i * blocks + b] == before[second@[i] as int]@[b]);
            assert(!is_apart_step(before, ops@, i, b));
        }
    }
    kept
}

/// The operation and the block of an entry.
proof fn lemma_cell_at(t: int, count: int, blocks: int)
    requires
        0 <= t < count * blocks,
        0 <= blocks,
    ensures
        blocks > 0,
        0 <= t / blocks < count,
        0 <= t % blocks < blocks,
        (t / blocks) * blocks + t % blocks == t,
{
    assert(blocks > 0) by (nonlinear_arith)
        requires
            0 <= t < count * blocks,
            0 <= blocks,
    ;
    vstd::arithmetic::div_mod::lemma_fundamental_div_mod(t, blocks);
    vstd::arithmetic::div_mod::lemma_mod_bound(t, blocks);
    vstd::arithmetic::div_mod::lemma_div_pos_is_pos(t, blocks);
    let q = t / blocks;
    assert(q * blocks + t % blocks == t) by (nonlinear_arith)
        requires
            t == blocks * q + t % blocks,
    ;
    assert(q < count) by (nonlinear_arith)
        requires
            q * blocks <= t,
            t < count * blocks,
            blocks > 0,
    ;
}

/// Multiplies registers with one scalar in all blocks.
fn product_stage<C: Group>(
    regs: &mut Vec<Vec<Affine<C>>>,
    sources: &Vec<usize>,
    scalar: &Decomposed<C>,
    blocks: usize,
)
    requires
        is_file(old(regs)@, blocks as int),
        forall|m: int| 0 <= m < sources@.len() ==> #[trigger] sources@[m] < old(regs)@.len(),
        sources@.len() * blocks * 8 <= usize::MAX,
    ensures
        is_file(final(regs)@, blocks as int),
        is_product_stage(old(regs)@, final(regs)@, sources@, scalar.value(), blocks as int),
{
    let ghost before = regs@;
    let inputs = gather(regs, sources, blocks);
    let mut points: Vec<Point<C>> = Vec::new();
    let mut i: usize = 0;
    while i < inputs.len()
        invariant
            i <= inputs@.len(),
            points@.len() == i,
            forall|k: int| 0 <= k < i ==> (#[trigger] points@[k])@ == inputs@[k]@,
        decreases inputs@.len() - i,
    {
        points.push(Point::from_affine(inputs[i]));
        i += 1;
    }
    let products = Table::mul_decomposed_same_scalar_affine(&points, scalar);
    let count = sources.len();
    let mut m: usize = 0;
    while m < count
        invariant
            m <= count,
            count == sources@.len(),
            products@.len() == count * blocks,
            regs@.len() == before.len() + m,
            is_file(regs@, blocks as int),
            continues(before, regs@),
            forall|i: int, b: int|
                0 <= i < m && 0 <= b < blocks ==> cell(regs@, before.len() + i, b)
                    == (#[trigger] products@[i * blocks + b])@,
        decreases count - m,
    {
        let ghost r0 = regs@;
        assert((m + 1) * blocks <= count * blocks) by (nonlinear_arith)
            requires
                m + 1 <= count,
                blocks >= 0,
        ;
        regs.push(column_of(&products, m, blocks));
        proof {
            assert forall|k: int| 0 <= k < regs@.len() implies (#[trigger] regs@[k])@.len()
                == blocks by {
                if k < r0.len() {
                    assert(regs@[k] == r0[k]);
                }
            }
            assert forall|k: int| 0 <= k < before.len() implies #[trigger] regs@[k] == before[k] by {
                assert(regs@[k] == r0[k]);
            }
            assert forall|i: int, b: int| 0 <= i < m + 1 && 0 <= b < blocks implies cell(
                regs@,
                before.len() + i,
                b,
            ) == (#[trigger] products@[i * blocks + b])@ by {
                if i < m {
                    assert(regs@[before.len() + i] == r0[before.len() + i]);
                    assert(cell(r0, before.len() + i, b) == products@[i * blocks + b]@);
                }
            }
        }
        m += 1;
    }
    proof {
        assert forall|i: int, b: int| 0 <= i < sources@.len() && 0 <= b < blocks implies #[trigger] is_product_step(
            before,
            regs@,
            sources@,
            scalar.value(),
            i,
            b,
        ) by {
            lemma_cell_order(i, count as int, b, blocks as int);
            assert(inputs@[i * blocks + b] == before[sources@[i] as int]@[b]);
            assert(points@[i * blocks + b]@ == inputs@[i * blocks + b]@);
            assert(cell(regs@, before.len() + i, b) == products@[i * blocks + b]@);
        }
    }
}

proof fn lemma_size(len: int, count: int, blocks: int)
    requires
        len == count,
    ensures
        len * blocks * 8 == count * blocks * 8,
{
}

/// The registers that operation `m` of a stage of sums fills.
proof fn lemma_sum<C: Group>(
    before: Seq<Vec<Affine<C>>>,
    after: Seq<Vec<Affine<C>>>,
    fin: Seq<Vec<Affine<C>>>,
    ops: Seq<(usize, usize)>,
    blocks: int,
    m: int,
    b: int,
    l: int,
    r: int,
    o: int,
    free: bool,
    kept: bool,
)
    requires
        is_sum_stage(before, after, ops, blocks, free, kept),
        is_clean::<C>(column(before, b), free),
        continues(after, fin),
        0 <= m < ops.len(),
        0 <= b < blocks,
        ops[m].0 == l,
        ops[m].1 == r,
        l < before.len(),
        r < before.len(),
        o == before.len() + 2 * m,
    ensures
        cell(fin, o, b) == plus::<C>(cell(fin, l, b), cell(fin, r, b)),
        cell(fin, o + 1, b) == difference::<C>(cell(fin, l, b), cell(fin, r, b)),
{
    assert(is_sum_step(before, after, ops, m, b, free));
    assert(after[l] == before[l] && after[r] == before[r]);
    assert(fin[l] == after[l] && fin[r] == after[r] && fin[o] == after[o] && fin[o + 1] == after[o
        + 1]);
    assert(column(before, b)[l] == cell(fin, l, b) && column(before, b)[r] == cell(fin, r, b));
}

/// The registers of a block.
spec fn column<C: Group>(regs: Seq<Vec<Affine<C>>>, b: int) -> Seq<Pt> {
    Seq::new(regs.len(), |k: int| cell(regs, k, b))
}

/// The points are on the curve, and none is neutral where that is claimed.
pub open spec fn is_clean<C: Group>(points: Seq<Pt>, identity_free: bool) -> bool {
    forall|i: int|
        0 <= i < points.len() ==> on_curve::<C>(#[trigger] points[i]) && (identity_free ==> points[i]
            != Pt::Infinity)
}

/// The registers with the sums and differences of pairs of them added.
pub open spec fn with_sums<C: Group>(regs: Seq<Pt>, ops: Seq<(usize, usize)>) -> Seq<Pt> {
    regs + Seq::new(
        2 * ops.len(),
        |t: int|
            if t % 2 == 0 {
                plus::<C>(regs[ops[t / 2].0 as int], regs[ops[t / 2].1 as int])
            } else {
                difference::<C>(regs[ops[t / 2].0 as int], regs[ops[t / 2].1 as int])
            },
    )
}

/// The registers with the multiples of some of them added.
pub open spec fn with_products<C: Group>(regs: Seq<Pt>, sources: Seq<usize>, k: int) -> Seq<Pt> {
    regs + Seq::new(sources.len(), |t: int| smul::<C>(k, regs[sources[t] as int]))
}

/// The first coordinates of all pairs of registers differ.
pub open spec fn are_regular(regs: Seq<Pt>, ops: Seq<(usize, usize)>) -> bool {
    forall|m: int|
        0 <= m < ops.len() ==> are_apart(
            regs[(#[trigger] ops[m]).0 as int],
            regs[ops[m].1 as int],
        )
}

/// The operations are on registers of the file.
spec fn fits(ops: Seq<(usize, usize)>, len: nat) -> bool {
    forall|m: int| 0 <= m < ops.len() ==> (#[trigger] ops[m]).0 < len && ops[m].1 < len
}

/// A stage of sums on the registers of one block.
proof fn lemma_sum_column<C: Group>(
    before: Seq<Vec<Affine<C>>>,
    after: Seq<Vec<Affine<C>>>,
    ops: Seq<(usize, usize)>,
    blocks: int,
    b: int,
    free: bool,
    kept: bool,
)
    requires
        is_sum_stage(before, after, ops, blocks, free, kept),
        is_clean::<C>(column(before, b), free),
        fits(ops, before.len()),
        0 <= b < blocks,
    ensures
        is_clean::<C>(column(after, b), kept),
        column(after, b) == with_sums::<C>(column(before, b), ops),
        free ==> are_apart_at(before, ops, b, are_regular(column(before, b), ops)),
{
    let (x, y, n) = (column(before, b), column(after, b), before.len() as int);
    assert forall|k: int| 0 <= k < y.len() implies #[trigger] y[k] == with_sums::<C>(x, ops)[k]
        && on_curve::<C>(y[k]) && (kept ==> y[k] != Pt::Infinity) by {
        if k < n {
            assert(after[k] == before[k]);
            assert(on_curve::<C>(x[k]));
        } else {
            let m = (k - n) / 2;
            assert(ops[m].0 < before.len() && ops[m].1 < before.len());
            let (l, r) = (x[ops[m].0 as int], x[ops[m].1 as int]);
            assert(is_sum_step(before, after, ops, m, b, free));
            if kept {
                assert(is_finite_step(before, after, ops, m, b));
            }
            lemma_closed::<C>(l, r);
            lemma_inverse_point::<C>(r);
            lemma_closed::<C>(l, minus::<C>(r));
            assert(k == n + 2 * m || k == n + 2 * m + 1);
        }
    }
    assert(y =~= with_sums::<C>(x, ops));
    if free {
        assert forall|m: int| 0 <= m < ops.len() implies (#[trigger] is_apart_step(before, ops, m, b)
            <==> are_apart(x[ops[m].0 as int], x[ops[m].1 as int])) by {
            assert(ops[m].0 < before.len() && ops[m].1 < before.len());
            assert(x[ops[m].0 as int] != Pt::Infinity && x[ops[m].1 as int] != Pt::Infinity);
        }
        if are_regular(x, ops) {
            assert forall|m: int| 0 <= m < ops.len() implies #[trigger] is_apart_step(
                before,
                ops,
                m,
                b,
            ) by {
                assert(are_apart(x[ops[m].0 as int], x[ops[m].1 as int]));
            }
        }
        if forall|m: int| 0 <= m < ops.len() ==> #[trigger] is_apart_step(before, ops, m, b) {
            assert forall|m: int| 0 <= m < ops.len() implies are_apart(
                x[(#[trigger] ops[m]).0 as int],
                x[ops[m].1 as int],
            ) by {
                assert(is_apart_step(before, ops, m, b));
            }
        }
    }
}

/// A stage of products on the registers of one block.
proof fn lemma_product_column<C: Group>(
    before: Seq<Vec<Affine<C>>>,
    after: Seq<Vec<Affine<C>>>,
    sources: Seq<usize>,
    k: int,
    blocks: int,
    b: int,
    free: bool,
    w: int,
)
    requires
        is_product_stage(before, after, sources, k, blocks),
        is_clean::<C>(column(before, b), free),
        forall|m: int| 0 <= m < sources.len() ==> #[trigger] sources[m] < before.len(),
        0 <= b < blocks,
        congruent(k, w, order::<C>()),
        free ==> k % order::<C>() != 0,
    ensures
        is_clean::<C>(column(after, b), free),
        column(after, b) == with_products::<C>(column(before, b), sources, w),
{
    let (x, y, n) = (column(before, b), column(after, b), before.len() as int);
    <C::Scalar as Modulus>::lemma_modulus();
    vstd::arithmetic::div_mod::lemma_small_mod(0, order::<C>() as nat);
    assert forall|t: int| 0 <= t < y.len() implies #[trigger] y[t] == with_products::<C>(
        x,
        sources,
        w,
    )[t] && on_curve::<C>(y[t]) && (free ==> y[t] != Pt::Infinity) by {
        if t < n {
            assert(after[t] == before[t]);
            assert(on_curve::<C>(x[t]));
        } else {
            let m = t - n;
            assert(sources[m] < before.len());
            let a = x[sources[m] as int];
            assert(is_product_step(before, after, sources, k, m, b));
            lemma_smul_closed::<C>(k, a);
            lemma_smul_congruent::<C>(k, w, a);
            if free && smul::<C>(k, a) == Pt::Infinity {
                lemma_smul_small::<C>(a);
                lemma_smul_injective::<C>(k, 0, a);
            }
        }
    }
    assert(y =~= with_products::<C>(x, sources, w));
}

/// The register that operation `m` of a stage of products fills.
proof fn lemma_product_cell<C: Group>(
    before: Seq<Vec<Affine<C>>>,
    after: Seq<Vec<Affine<C>>>,
    fin: Seq<Vec<Affine<C>>>,
    sources: Seq<usize>,
    k: int,
    blocks: int,
    m: int,
    b: int,
    l: int,
    o: int,
    free: bool,
)
    requires
        is_product_stage(before, after, sources, k, blocks),
        continues(after, fin),
        0 <= m < sources.len(),
        0 <= b < blocks,
        sources[m] == l,
        l < before.len(),
        o == before.len() + m,
        is_clean::<C>(column(before, b), free),
    ensures
        cell(fin, o, b) == smul::<C>(k, cell(fin, l, b)),
{
    assert(is_product_step(before, after, sources, k, m, b));
    assert(after[l] == before[l]);
    assert(fin[l] == after[l] && fin[o] == after[o]);
    assert(column(before, b)[l] == cell(fin, l, b));
}

/// The points of a block.
pub open spec fn block_points<C: Group>(points: Seq<Affine<C>>, size: int, b: int) -> Seq<Pt> {
    Seq::new(size as nat, |k: int| points[size * b + k]@)
}

/// The columns of the points at each position of the blocks.
fn load_blocks<C: Group>(points: &Vec<Affine<C>>, size: usize, blocks: usize) -> (r: Vec<
    Vec<Affine<C>>,
>)
    requires
        points@.len() == size * blocks,
    ensures
        r@.len() == size,
        is_file(r@, blocks as int),
        forall|k: int, b: int|
            0 <= k < size && 0 <= b < blocks ==> #[trigger] cell(r@, k, b) == points@[size * b + k]@,
{
    let total = points.len();
    let mut r: Vec<Vec<Affine<C>>> = Vec::new();
    let mut k: usize = 0;
    while k < size
        invariant
            k <= size,
            total == points@.len(),
            total == size * blocks,
            r@.len() == k,
            is_file(r@, blocks as int),
            forall|i: int, b: int|
                0 <= i < k && 0 <= b < blocks ==> #[trigger] cell(r@, i, b) == points@[size * b + i]@,
        decreases size - k,
    {
        let mut column: Vec<Affine<C>> = Vec::new();
        let mut b: usize = 0;
        while b < blocks
            invariant
                b <= blocks,
                k < size,
                total == points@.len(),
                total == size * blocks,
                column@.len() == b,
                forall|i: int| 0 <= i < b ==> #[trigger] column@[i] == points@[size * i + k],
            decreases blocks - b,
        {
            assert(size * b + k < total && size * b >= 0) by (nonlinear_arith)
                requires
                    0 <= b < blocks,
                    0 <= k < size,
                    total == size * blocks,
            ;
            column.push(points[size * b + k]);
            b += 1;
        }
        let ghost before = r@;
        r.push(column);
        proof {
            assert forall|i: int, b: int| 0 <= i < k + 1 && 0 <= b < blocks implies #[trigger] cell(
                r@,
                i,
                b,
            ) == points@[size * b + i]@ by {
                if i < k {
                    assert(cell(before, i, b) == points@[size * b + i]@);
                    assert(r@[i] == before[i]);
                }
            }
        }
        k += 1;
    }
    r
}

/// Writes columns back to the positions of the blocks.
fn store_blocks<C: Group>(
    regs: &Vec<Vec<Affine<C>>>,
    order: &Vec<usize>,
    blocks: usize,
    total: usize,
) -> (r: Vec<Affine<C>>)
    requires
        is_file(regs@, blocks as int),
        total == order@.len() * blocks,
        forall|k: int| 0 <= k < order@.len() ==> #[trigger] order@[k] < regs@.len(),
    ensures
        r@.len() == total,
        forall|b: int, k: int|
            0 <= k < order@.len() && 0 <= b < blocks ==> (#[trigger] r@[order@.len() * b + k])@
                == cell(regs@, order@[k] as int, b),
{
    let size = order.len();
    let mut r: Vec<Affine<C>> = Vec::new();
    let mut b: usize = 0;
    assert(size * 0 == 0);
    while b < blocks
        invariant
            b <= blocks,
            size == order@.len(),
            is_file(regs@, blocks as int),
            forall|k: int| 0 <= k < order@.len() ==> #[trigger] order@[k] < regs@.len(),
            r@.len() == size * b,
            forall|c: int, k: int|
                0 <= k < size && 0 <= c < b ==> (#[trigger] r@[size * c + k])@ == cell(
                    regs@,
                    order@[k] as int,
                    c,
                ),
        decreases blocks - b,
    {
        let ghost before = r@;
        let mut k: usize = 0;
        while k < size
            invariant
                k <= size,
                b < blocks,
                size == order@.len(),
                is_file(regs@, blocks as int),
                forall|i: int| 0 <= i < order@.len() ==> #[trigger] order@[i] < regs@.len(),
                r@.len() == size * b + k,
                before.len() == size * b,
                forall|i: int| 0 <= i < before.len() ==> #[trigger] r@[i] == before[i],
                forall|i: int|
                    0 <= i < k ==> r@[size * b + i]@ == cell(
                        regs@,
                        #[trigger] order@[i] as int,
                        b as int,
                    ),
            decreases size - k,
        {
            assert(order@[k as int] < regs@.len());
            let column = &regs[order[k]];
            assert(column@.len() == blocks);
            r.push(column[b]);
            k += 1;
        }
        proof {
            assert forall|c: int, i: int| 0 <= i < size && 0 <= c < b + 1 implies (
            #[trigger] r@[size * c + i])@ == cell(regs@, order@[i] as int, c) by {
                if c < b {
                    lemma_cell_order(c, b as int, i, size as int);
                    assert(c * size == size * c && b * size == size * b) by (nonlinear_arith);
                    assert(r@[size * c + i] == before[size * c + i]);
                } else {
                    assert(order@[i] < regs@.len());
                }
            }
            assert(size * (b + 1) == size * b + size) by (nonlinear_arith);
        }
        b += 1;
    }
    assert(size * blocks == order@.len() * blocks);
    r
}

/// Half of the sum of a root and its cube.
pub open spec fn half_sum<C: Group>(x: int) -> int {
    (x + x * x * x) * ((order::<C>() + 1) / 2)
}

/// Half of the difference of a root and its cube.
pub open spec fn half_difference<C: Group>(x: int) -> int {
    (x - x * x * x) * ((order::<C>() + 1) / 2)
}

/// The constants of the eight-point transform.
fn root8_scalars<C: GlvParams>(root8: Fe<C::Scalar>) -> (r: (
    Decomposed<C>,
    Decomposed<C>,
    Decomposed<C>,
))
    ensures
        congruent(r.0.value(), root8@ * root8@, order::<C>()),
        congruent(r.1.value() + r.2.value(), root8@, order::<C>()),
        congruent(r.1.value() - r.2.value(), root8@ * root8@ * root8@, order::<C>()),
        congruent(r.1.value(), half_sum::<C>(root8@), order::<C>()),
        congruent(r.2.value(), half_difference::<C>(root8@), order::<C>()),
{
    let squared = root8.square();
    let cubed = squared.mul(root8);
    let half = Fe::<C::Scalar>::two_inv();
    let sum = root8.add(cubed);
    let diff = root8.sub(cubed);
    let c = sum.mul(half);
    let d = diff.mul(half);
    let r = (Decomposed::new(squared), Decomposed::new(c), Decomposed::new(d));
    proof {
        <C::Scalar as Modulus>::lemma_modulus();
        let n = order::<C>();
        let (x, h) = (root8@, half@);
        let (x2, x3) = (x * x, x * x * x);
        lemma_congruent_mod(x2, n);
        lemma_congruent_mod(squared@ * x, n);
        lemma_congruent_ops(squared@, x2, x, x, n);
        lemma_congruent_mod(x + cubed@, n);
        lemma_congruent_mod(x - cubed@, n);
        lemma_congruent_ops(x, x, cubed@, x3, n);
        lemma_congruent_mod(sum@ * h, n);
        lemma_congruent_mod(diff@ * h, n);
        lemma_congruent_ops(sum@, x + x3, h, h, n);
        lemma_congruent_ops(diff@, x - x3, h, h, n);
        let (s, t) = ((x + x3) * h, (x - x3) * h);
        lemma_congruent_ops(c@, s, d@, t, n);
        lemma_congruent_ops(r.1.value(), s, r.2.value(), t, n);
        assert(s + t == x * (2 * h) && s - t == x3 * (2 * h)) by (nonlinear_arith)
            requires
                s == (x + x3) * h,
                t == (x - x3) * h,
        ;
        vstd::arithmetic::div_mod::lemma_small_mod(1, n as nat);
        lemma_congruent_ops(x, x, 2 * h, 1, n);
        lemma_congruent_ops(x3, x3, 2 * h, 1, n);
        assert(x * 1 == x && x3 * 1 == x3);
    }
    r
}

/// The constants make an eighth root of one.
proof fn lemma_root8<C: Group>(x: int, i: int, c: int, d: int)
    requires
        congruent(i, x * x, order::<C>()),
        congruent(c + d, x, order::<C>()),
        congruent(c - d, x * x * x, order::<C>()),
        congruent(pow(x, 4), -1, order::<C>()),
    ensures
        is_root8(x, i, c, d, order::<C>()),
{
    <C::Scalar as Modulus>::lemma_modulus();
    let n = order::<C>();
    lemma_congruent_ops(i, x * x, i, x * x, n);
    lemma_congruent_ops(i, x * x, x, x, n);
    lemma_pow1(x);
    lemma_pow_adds(x, 1, 1);
    lemma_pow_adds(x, 2, 2);
}

/// The points of a block of eight in natural order, where the block is in bit-reversed order.
pub open spec fn natural8(v: Seq<Pt>) -> Seq<Pt> {
    seq![v[0], v[4], v[2], v[6], v[1], v[5], v[3], v[7]]
}

/// The pairs of registers of a block of eight that are added and subtracted together.
pub open spec fn sums8(stage: int) -> Seq<(usize, usize)> {
    if stage == 0 {
        seq![(0, 1), (2, 3), (4, 5), (6, 7)]
    } else if stage == 1 {
        seq![(8, 10), (12, 14), (13, 15)]
    } else if stage == 2 {
        seq![(16, 18), (17, 22), (9, 23), (24, 25)]
    } else {
        seq![(30, 32), (31, 33)]
    }
}

/// The registers of a block of eight up to the last sums, for the root `x`.
pub open spec fn registers8<C: Group>(v: Seq<Pt>, x: int, stage: int) -> Seq<Pt> {
    let r1 = with_sums::<C>(v, sums8(0));
    let r2 = with_sums::<C>(r1, sums8(1));
    let r3 = with_products::<C>(r2, seq![19, 11], x * x);
    let r4 = with_products::<C>(r3, seq![20], half_sum::<C>(x));
    let r5 = with_products::<C>(r4, seq![21], half_difference::<C>(x));
    if stage == 0 {
        v
    } else if stage == 1 {
        r1
    } else if stage == 2 {
        r5
    } else {
        with_sums::<C>(r5, sums8(2))
    }
}

/// No two points with one first coordinate meet in the transform of a block of eight.
pub open spec fn is_regular8<C: Group>(v: Seq<Pt>, x: int) -> bool {
    forall|stage: int|
        0 <= stage < 4 ==> are_regular(
            registers8::<C>(v, x, stage),
            #[trigger] sums8(stage),
        )
}

/// The stages of the transform of eight points, with the claims between them.
spec fn ran8<C: Group>(
    g: Seq<Seq<Vec<Affine<C>>>>,
    f: Seq<bool>,
    blocks: int,
    i: int,
    c: int,
    d: int,
) -> bool {
    &&& g[0].len() == 8
    &&& is_sum_stage(g[0], g[1], sums8(0), blocks, f[0], f[1])
    &&& is_sum_stage(g[1], g[2], sums8(1), blocks, f[1], f[2])
    &&& is_product_stage(g[2], g[3], seq![19, 11], i, blocks)
    &&& is_product_stage(g[3], g[4], seq![20], c, blocks)
    &&& is_product_stage(g[4], g[5], seq![21], d, blocks)
    &&& is_sum_stage(g[5], g[6], sums8(2), blocks, f[2], f[3])
    &&& is_sum_stage(g[6], g[7], sums8(3), blocks, f[3], f[4])
}

/// The constants are not zero.
proof fn lemma_root8_units<C: Group>(x: int, i: int, c: int, d: int)
    requires
        is_root8(x, i, c, d, order::<C>()),
    ensures
        i % order::<C>() != 0,
        c % order::<C>() != 0,
        d % order::<C>() != 0,
{
    <C::Scalar as Modulus>::lemma_modulus();
    let n = order::<C>();
    vstd::arithmetic::div_mod::lemma_small_mod(0, n as nat);
    vstd::arithmetic::div_mod::lemma_small_mod(1, n as nat);
    vstd::arithmetic::div_mod::lemma_small_mod(2, n as nat);
    lemma_congruent_difference(0, -1, n);
    lemma_congruent_difference(1, -1, n);
    if i % n == 0 {
        lemma_congruent_ops(i, 0, i, 0, n);
    }
    // With a zero constant `i` or its opposite is one.
    lemma_congruent_ops(c + d, x, i, i, n);
    let (u, t) = (x * x, i * x * x);
    lemma_congruent_ops(i, u, i, i, n);
    lemma_congruent_ops(x, x, x, x, n);
    assert(i * x * x == i * (x * x)) by (nonlinear_arith);
    lemma_congruent_ops(i, i, i, u, n);
    if c % n == 0 {
        // d = x and -d = i x.
        lemma_congruent_ops(c, 0, d, d, n);
        assert(congruent(d, x, n));
        assert(congruent(-d, i * x, n));
        lemma_congruent_ops(d, x, -d, i * x, n);
        lemma_congruent_ops(x + i * x, d - d, x, x, n);
        assert((x + i * x) * x == x * x + i * x * x) by (nonlinear_arith);
        assert(0 * x == 0);
        lemma_congruent_ops(x * x, i, i * x * x, -1, n);
        assert(congruent(i - 1, 0, n));
        lemma_congruent_ops(i - 1, 0, 1, 1, n);
        lemma_congruent_ops(i, 1, i, 1, n);
    }
    if d % n == 0 {
        lemma_congruent_ops(d, 0, c, c, n);
        lemma_congruent_ops(c, c, d, 0, n);
        assert(congruent(c, x, n));
        assert(congruent(c, i * x, n));
        lemma_congruent_ops(x, i * x, x, x, n);
        assert((i * x) * x == i * x * x);
        assert(congruent(i, -1, n));
        lemma_congruent_ops(i, -1, i, -1, n);
    }
}

/// What the stages of the transform of eight points do to one block.
#[verifier::spinoff_prover]
proof fn lemma_block8<C: Group>(
    g: Seq<Seq<Vec<Affine<C>>>>,
    f: Seq<bool>,
    blocks: int,
    b: int,
    x: int,
    i: int,
    c: int,
    d: int,
)
    requires
        ran8(g, f, blocks, i, c, d),
        0 <= b < blocks,
        is_clean::<C>(column(g[0], b), f[0]),
        is_root8(x, i, c, d, order::<C>()),
        congruent(c, half_sum::<C>(x), order::<C>()),
        congruent(d, half_difference::<C>(x), order::<C>()),
    ensures
        is_clean::<C>(column(g[1], b), f[1]),
        is_clean::<C>(column(g[2], b), f[2]),
        is_clean::<C>(column(g[3], b), f[2]),
        is_clean::<C>(column(g[4], b), f[2]),
        is_clean::<C>(column(g[5], b), f[2]),
        is_clean::<C>(column(g[6], b), f[3]),
        is_clean::<C>(column(g[7], b), f[4]),
        f[0] ==> are_apart_at(g[0], sums8(0), b, are_regular(
            registers8::<C>(column(g[0], b), x, 0),
            sums8(0),
        )),
        f[1] ==> are_apart_at(g[1], sums8(1), b, are_regular(
            registers8::<C>(column(g[0], b), x, 1),
            sums8(1),
        )),
        f[2] ==> are_apart_at(g[5], sums8(2), b, are_regular(
            registers8::<C>(column(g[0], b), x, 2),
            sums8(2),
        )),
        f[3] ==> are_apart_at(g[6], sums8(3), b, are_regular(
            registers8::<C>(column(g[0], b), x, 3),
            sums8(3),
        )),
{
    lemma_root8_units::<C>(x, i, c, d);
    lemma_sum_column(g[0], g[1], sums8(0), blocks, b, f[0], f[1]);
    lemma_sum_column(g[1], g[2], sums8(1), blocks, b, f[1], f[2]);
    lemma_product_column(g[2], g[3], seq![19, 11], i, blocks, b, f[2], x * x);
    lemma_product_column(g[3], g[4], seq![20], c, blocks, b, f[2], half_sum::<C>(x));
    lemma_product_column(g[4], g[5], seq![21], d, blocks, b, f[2], half_difference::<C>(x));
    lemma_sum_column(g[5], g[6], sums8(2), blocks, b, f[2], f[3]);
    lemma_sum_column(g[6], g[7], sums8(3), blocks, b, f[3], f[4]);
}

/// The claim is kept exactly if the transforms of all blocks are regular.
proof fn lemma_kept8<C: Group>(
    g: Seq<Seq<Vec<Affine<C>>>>,
    f: Seq<bool>,
    blocks: int,
    x: int,
    i: int,
    c: int,
    d: int,
)
    requires
        ran8(g, f, blocks, i, c, d),
        forall|b: int| 0 <= b < blocks ==> is_clean::<C>(#[trigger] column(g[0], b), f[0]),
        is_root8(x, i, c, d, order::<C>()),
        congruent(c, half_sum::<C>(x), order::<C>()),
        congruent(d, half_difference::<C>(x), order::<C>()),
    ensures
        f[4] <==> f[0] && forall|b: int|
            0 <= b < blocks ==> is_regular8::<C>(#[trigger] column(g[0], b), x),
{
    if f[4] {
        assert forall|b: int| 0 <= b < blocks implies is_regular8::<C>(
            #[trigger] column(g[0], b),
            x,
        ) by {
            lemma_block8(g, f, blocks, b, x, i, c, d);
        }
    }
    if f[0] && forall|b: int|
        0 <= b < blocks ==> is_regular8::<C>(#[trigger] column(g[0], b), x) {
        assert forall|b: int| 0 <= b < blocks implies #[trigger] apart_block(g[0], sums8(0), b) && (
        f[1] ==> apart_block(g[1], sums8(1), b)) && (f[2] ==> apart_block(g[5], sums8(2), b)) && (
        f[3] ==> apart_block(g[6], sums8(3), b)) by {
            assert(is_regular8::<C>(column(g[0], b), x));
            lemma_block8(g, f, blocks, b, x, i, c, d);
        }
        lemma_all_apart(g[0], sums8(0), blocks);
        assert(f[1]);
        assert forall|b: int| 0 <= b < blocks implies #[trigger] apart_block(g[1], sums8(1), b) by {
            assert(apart_block(g[0], sums8(0), b));
        }
        lemma_all_apart(g[1], sums8(1), blocks);
        assert(f[2]);
        assert forall|b: int| 0 <= b < blocks implies #[trigger] apart_block(g[5], sums8(2), b) by {
            assert(apart_block(g[0], sums8(0), b));
        }
        lemma_all_apart(g[5], sums8(2), blocks);
        assert(f[3]);
        assert forall|b: int| 0 <= b < blocks implies #[trigger] apart_block(g[6], sums8(3), b) by {
            assert(apart_block(g[0], sums8(0), b));
        }
        lemma_all_apart(g[6], sums8(3), blocks);
    }
}

/// The transforms of all blocks of eight points with four multiplications each; `root8` is the
/// root of the transform. `identity_free` claims that no point is neutral, and the result claims it
/// of the transforms: it is kept exactly if no two points with one first coordinate meet.
#[verifier::rlimit(60)]
pub fn fft8_multiplication_minimal_layer<C: GlvParams>(
    points: &mut Vec<Affine<C>>,
    root8: Fe<C::Scalar>,
    identity_free: bool,
) -> (r: bool)
    requires
        old(points)@.len() % 8 == 0,
        old(points)@.len() * 8 <= usize::MAX,
    ensures
        final(points)@.len() == old(points)@.len(),
        forall|b: int, k: int|
            0 <= b < old(points)@.len() / 8 && 0 <= k < 8
                && is_clean::<C>(block_points(old(points)@, 8, b), identity_free) && congruent(
                pow(root8@, 4),
                -1,
                order::<C>(),
            ) ==> (#[trigger] final(points)@[8 * b + k])@ == dft_at::<C>(
                natural8(block_points(old(points)@, 8, b)),
                root8@,
                k,
            ) && (r ==> final(points)@[8 * b + k]@ != Pt::Infinity),
        r ==> identity_free,
        congruent(pow(root8@, 4), -1, order::<C>()) && (forall|b: int|
            0 <= b < old(points)@.len() / 8 ==> is_clean::<C>(
                #[trigger] block_points(old(points)@, 8, b),
                identity_free,
            )) ==> (r <==> identity_free && forall|b: int|
            0 <= b < old(points)@.len() / 8 ==> is_regular8::<C>(
                #[trigger] block_points(old(points)@, 8, b),
                root8@,
            )),
{
    let total = points.len();
    let blocks = total / 8;
    let ghost n = blocks as int;
    let ghost pts = points@;
    let (squared, c, d) = root8_scalars::<C>(root8);
    let mut scratch = AffineTwiddleScratch::<C>::new();
    let mut regs = load_blocks(points, 8, blocks);
    let ghost g0 = regs@;
    let ops1: Vec<(usize, usize)> = vec![(0, 1), (2, 3), (4, 5), (6, 7)];
    let free1 = add_sub_stage(&mut regs, &ops1, blocks, &mut scratch, identity_free);
    let ghost g1 = regs@;
    let ops2: Vec<(usize, usize)> = vec![(8, 10), (12, 14), (13, 15)];
    let free2 = add_sub_stage(&mut regs, &ops2, blocks, &mut scratch, free1);
    let ghost g2 = regs@;
    let sources3: Vec<usize> = vec![19, 11];
    proof {
        assert(sources3@.len() == 2);
        lemma_size(sources3@.len() as int, 2, blocks as int);
    }
    product_stage(&mut regs, &sources3, &squared, blocks);
    let ghost g3 = regs@;
    let sources4: Vec<usize> = vec![20];
    proof {
        assert(sources4@.len() == 1);
        lemma_size(sources4@.len() as int, 1, blocks as int);
    }
    product_stage(&mut regs, &sources4, &c, blocks);
    let ghost g4 = regs@;
    let sources5: Vec<usize> = vec![21];
    proof {
        assert(sources5@.len() == 1);
        lemma_size(sources5@.len() as int, 1, blocks as int);
    }
    product_stage(&mut regs, &sources5, &d, blocks);
    let ghost g5 = regs@;
    let ops6: Vec<(usize, usize)> = vec![(16, 18), (17, 22), (9, 23), (24, 25)];
    let free6 = add_sub_stage(&mut regs, &ops6, blocks, &mut scratch, free2);
    let ghost g6 = regs@;
    let ops7: Vec<(usize, usize)> = vec![(30, 32), (31, 33)];
    let free7 = add_sub_stage(&mut regs, &ops7, blocks, &mut scratch, free6);
    let ghost g7 = regs@;
    let outputs: Vec<usize> = vec![26, 34, 28, 36, 27, 35, 29, 37];
    *points = store_blocks(&regs, &outputs, blocks, total);
    proof {
        let fin = g7;
        let (i, cv, dv) = (squared.value(), c.value(), d.value());
        let g = seq![g0, g1, g2, g3, g4, g5, g6, g7];
        let f = seq![identity_free, free1, free2, free6, free7];
        assert(ops1@ =~= sums8(0));
        assert(ops2@ =~= sums8(1));
        assert(sources3@ =~= seq![19, 11]);
        assert(sources4@ =~= seq![20]);
        assert(sources5@ =~= seq![21]);
        assert(ops6@ =~= sums8(2));
        assert(ops7@ =~= sums8(3));
        assert(ran8(g, f, n, i, cv, dv));
        assert forall|b: int| 0 <= b < n implies #[trigger] column(g0, b) == block_points(
            pts,
            8,
            b,
        ) by {
            assert forall|j: int| 0 <= j < 8 implies cell(g0, j, b) == pts[8 * b + j]@ by {}
            assert(column(g0, b) =~= block_points(pts, 8, b));
        }
        if congruent(pow(root8@, 4), -1, order::<C>()) {
            lemma_root8::<C>(root8@, i, cv, dv);
            if forall|b: int|
                0 <= b < n ==> is_clean::<C>(#[trigger] block_points(pts, 8, b), identity_free) {
                assert forall|b: int| 0 <= b < n implies is_clean::<C>(
                    #[trigger] column(g[0], b),
                    f[0],
                ) by {
                    assert(is_clean::<C>(block_points(pts, 8, b), identity_free));
                }
                lemma_kept8(g, f, n, root8@, i, cv, dv);
                if free7 {
                    assert forall|b: int| 0 <= b < n implies is_regular8::<C>(
                        #[trigger] block_points(pts, 8, b),
                        root8@,
                    ) by {
                        assert(is_regular8::<C>(column(g[0], b), root8@));
                    }
                }
                if identity_free && forall|b: int|
                    0 <= b < n ==> is_regular8::<C>(#[trigger] block_points(pts, 8, b), root8@) {
                    assert forall|b: int| 0 <= b < n implies is_regular8::<C>(
                        #[trigger] column(g[0], b),
                        root8@,
                    ) by {
                        assert(is_regular8::<C>(block_points(pts, 8, b), root8@));
                    }
                }
            }
        }
        lemma_continues::<C>(g5, g6, fin);
        lemma_continues::<C>(g4, g5, fin);
        lemma_continues::<C>(g3, g4, fin);
        lemma_continues::<C>(g2, g3, fin);
        lemma_continues::<C>(g1, g2, fin);
        lemma_continues::<C>(g0, g1, fin);
        assert forall|b: int, k: int|
            0 <= b < n && 0 <= k < 8 && is_clean::<C>(
                block_points(pts, 8, b),
                identity_free,
            ) && congruent(pow(root8@, 4), -1, order::<C>()) implies (
        #[trigger] points@[8 * b + k])@ == dft_at::<C>(
            natural8(block_points(pts, 8, b)),
            root8@,
            k,
        ) && (free7 ==> points@[8 * b + k]@ != Pt::Infinity) by {
            assert(column(g0, b) == block_points(pts, 8, b));
            lemma_block8(g, f, n, b, root8@, i, cv, dv);
            let v = block_points(pts, 8, b);
            let q = natural8(v);
            assert forall|j: int| 0 <= j < 8 implies cell(fin, j, b) == #[trigger] v[j]
                && on_curve::<C>(v[j]) by {
                assert(cell(g0, j, b) == pts[8 * b + j]@);
                assert(fin[j] == g0[j]);
                assert(on_curve::<C>(v[j]));
            }
            assert(cell(fin, 0, b) == v[0] && on_curve::<C>(v[0]));
            assert(cell(fin, 1, b) == v[1] && on_curve::<C>(v[1]));
            assert(cell(fin, 2, b) == v[2] && on_curve::<C>(v[2]));
            assert(cell(fin, 3, b) == v[3] && on_curve::<C>(v[3]));
            assert(cell(fin, 4, b) == v[4] && on_curve::<C>(v[4]));
            assert(cell(fin, 5, b) == v[5] && on_curve::<C>(v[5]));
            assert(cell(fin, 6, b) == v[6] && on_curve::<C>(v[6]));
            assert(cell(fin, 7, b) == v[7] && on_curve::<C>(v[7]));
            lemma_sum::<C>(g0, g1, fin, ops1@, n, 0, b, 0, 1, 8, identity_free, free1);
            lemma_sum::<C>(g0, g1, fin, ops1@, n, 1, b, 2, 3, 10, identity_free, free1);
            lemma_sum::<C>(g0, g1, fin, ops1@, n, 2, b, 4, 5, 12, identity_free, free1);
            lemma_sum::<C>(g0, g1, fin, ops1@, n, 3, b, 6, 7, 14, identity_free, free1);
            lemma_sum::<C>(g1, g2, fin, ops2@, n, 0, b, 8, 10, 16, free1, free2);
            lemma_sum::<C>(g1, g2, fin, ops2@, n, 1, b, 12, 14, 18, free1, free2);
            lemma_sum::<C>(g1, g2, fin, ops2@, n, 2, b, 13, 15, 20, free1, free2);
            lemma_product_cell::<C>(g2, g3, fin, sources3@, squared.value(), n, 0, b, 19, 22, free2);
            lemma_product_cell::<C>(g2, g3, fin, sources3@, squared.value(), n, 1, b, 11, 23, free2);
            lemma_product_cell::<C>(g3, g4, fin, sources4@, c.value(), n, 0, b, 20, 24, free2);
            lemma_product_cell::<C>(g4, g5, fin, sources5@, d.value(), n, 0, b, 21, 25, free2);
            lemma_sum::<C>(g5, g6, fin, ops6@, n, 0, b, 16, 18, 26, free2, free6);
            lemma_sum::<C>(g5, g6, fin, ops6@, n, 1, b, 17, 22, 28, free2, free6);
            lemma_sum::<C>(g5, g6, fin, ops6@, n, 2, b, 9, 23, 30, free2, free6);
            lemma_sum::<C>(g5, g6, fin, ops6@, n, 3, b, 24, 25, 32, free2, free6);
            lemma_sum::<C>(g6, g7, fin, ops7@, n, 0, b, 30, 32, 34, free6, free7);
            lemma_sum::<C>(g6, g7, fin, ops7@, n, 1, b, 31, 33, 36, free6, free7);
            assert(all_on_curve::<C>(q)) by {
                assert forall|j: int| 0 <= j < 8 implies on_curve::<C>(#[trigger] q[j]) by {}
            }
            lemma_dft8::<C>(q, root8@, i, cv, dv);
            let out = dft8::<C>(q, i, cv, dv);
            assert(out[0] == cell(fin, 26, b));
            assert(out[1] == cell(fin, 34, b));
            assert(out[2] == cell(fin, 28, b));
            assert(out[3] == cell(fin, 36, b));
            assert(out[4] == cell(fin, 27, b));
            assert(out[5] == cell(fin, 35, b));
            assert(out[6] == cell(fin, 29, b));
            assert(out[7] == cell(fin, 37, b));
            assert(out[k] == cell(fin, outputs@[k] as int, b));
            assert(points@[8 * b + k]@ == cell(fin, outputs@[k] as int, b));
            assert(column(fin, b)[outputs@[k] as int] == cell(fin, outputs@[k] as int, b));
        }
    }
    free7
}

/// The powers of the root for the sixteen-point transform.
proof fn lemma_root16<C: Group>(
    r: int,
    r2: int,
    r3: int,
    r5: int,
    r7: int,
    i: int,
    c: int,
    d: int,
    w: Seq<int>,
)
    requires
        r2 == (r * r) % order::<C>(),
        r3 == (r * r2) % order::<C>(),
        r5 == (r3 * r2) % order::<C>(),
        r7 == (r5 * r2) % order::<C>(),
        congruent(i, r2 * r2, order::<C>()),
        congruent(c + d, r2, order::<C>()),
        congruent(c - d, r2 * r2 * r2, order::<C>()),
        congruent(pow(r, 8), -1, order::<C>()),
        w.len() == 4,
        congruent(w[0], r, order::<C>()),
        congruent(w[1], r3, order::<C>()),
        congruent(w[2], r5, order::<C>()),
        congruent(w[3], r7, order::<C>()),
    ensures
        is_root8(r * r, i, c, d, order::<C>()),
        forall|k: int|
            0 <= k < 4 ==> congruent(
                #[trigger] w[k],
                pow(r, (2 * k + 1) as nat),
                order::<C>(),
            ),
{
    <C::Scalar as Modulus>::lemma_modulus();
    let n = order::<C>();
    let s = r * r;
    lemma_pow1(r);
    lemma_pow_adds(r, 1, 1);
    lemma_pow_adds(r, 1, 2);
    lemma_pow_adds(r, 3, 2);
    lemma_pow_adds(r, 5, 2);
    lemma_congruent_mod(s, n);
    lemma_congruent_mod(r * r2, n);
    lemma_congruent_mod(r3 * r2, n);
    lemma_congruent_mod(r5 * r2, n);
    lemma_congruent_ops(r, r, r2, s, n);
    lemma_congruent_ops(r3, pow(r, 3), r2, s, n);
    lemma_congruent_ops(r5, pow(r, 5), r2, s, n);
    lemma_congruent_ops(r2, s, r2, s, n);
    lemma_congruent_ops(r2 * r2, s * s, r2, s, n);
    lemma_pow_multiplies(r, 2, 4);
    lemma_root8::<C>(s, i, c, d);
    assert(congruent(w[0], pow(r, 1), n));
    assert(congruent(w[1], pow(r, 3), n));
    assert(congruent(w[2], pow(r, 5), n));
    assert(congruent(w[3], pow(r, 7), n));
    assert forall|k: int| 0 <= k < 4 implies congruent(
        #[trigger] w[k],
        pow(r, (2 * k + 1) as nat),
        n,
    ) by {
        assert(k == 0 || k == 1 || k == 2 || k == 3);
    }
}

/// The registers of a block hold the outputs of the sixteen-point transform.
proof fn lemma_outputs16<C: Group>(
    q: Seq<Pt>,
    fin: Seq<Vec<Affine<C>>>,
    b: int,
    i: int,
    c: int,
    d: int,
    w: Seq<int>,
)
    requires
        q.len() == 16,
        q[0] == cell(fin, 0, b),
        q[8] == cell(fin, 1, b),
        q[4] == cell(fin, 2, b),
        q[12] == cell(fin, 3, b),
        q[2] == cell(fin, 4, b),
        q[10] == cell(fin, 5, b),
        q[6] == cell(fin, 6, b),
        q[14] == cell(fin, 7, b),
        q[1] == cell(fin, 8, b),
        q[9] == cell(fin, 9, b),
        q[5] == cell(fin, 10, b),
        q[13] == cell(fin, 11, b),
        q[3] == cell(fin, 12, b),
        q[11] == cell(fin, 13, b),
        q[7] == cell(fin, 14, b),
        q[15] == cell(fin, 15, b),
        cell(fin, 16, b) == plus::<C>(cell(fin, 0, b), cell(fin, 1, b)),
        cell(fin, 17, b) == difference::<C>(cell(fin, 0, b), cell(fin, 1, b)),
        cell(fin, 18, b) == plus::<C>(cell(fin, 2, b), cell(fin, 3, b)),
        cell(fin, 19, b) == difference::<C>(cell(fin, 2, b), cell(fin, 3, b)),
        cell(fin, 20, b) == plus::<C>(cell(fin, 4, b), cell(fin, 5, b)),
        cell(fin, 21, b) == difference::<C>(cell(fin, 4, b), cell(fin, 5, b)),
        cell(fin, 22, b) == plus::<C>(cell(fin, 6, b), cell(fin, 7, b)),
        cell(fin, 23, b) == difference::<C>(cell(fin, 6, b), cell(fin, 7, b)),
        cell(fin, 24, b) == plus::<C>(cell(fin, 8, b), cell(fin, 9, b)),
        cell(fin, 25, b) == difference::<C>(cell(fin, 8, b), cell(fin, 9, b)),
        cell(fin, 26, b) == plus::<C>(cell(fin, 10, b), cell(fin, 11, b)),
        cell(fin, 27, b) == difference::<C>(cell(fin, 10, b), cell(fin, 11, b)),
        cell(fin, 28, b) == plus::<C>(cell(fin, 12, b), cell(fin, 13, b)),
        cell(fin, 29, b) == difference::<C>(cell(fin, 12, b), cell(fin, 13, b)),
        cell(fin, 30, b) == plus::<C>(cell(fin, 14, b), cell(fin, 15, b)),
        cell(fin, 31, b) == difference::<C>(cell(fin, 14, b), cell(fin, 15, b)),
        cell(fin, 32, b) == plus::<C>(cell(fin, 16, b), cell(fin, 18, b)),
        cell(fin, 33, b) == difference::<C>(cell(fin, 16, b), cell(fin, 18, b)),
        cell(fin, 34, b) == plus::<C>(cell(fin, 20, b), cell(fin, 22, b)),
        cell(fin, 35, b) == difference::<C>(cell(fin, 20, b), cell(fin, 22, b)),
        cell(fin, 36, b) == plus::<C>(cell(fin, 24, b), cell(fin, 26, b)),
        cell(fin, 37, b) == difference::<C>(cell(fin, 24, b), cell(fin, 26, b)),
        cell(fin, 38, b) == plus::<C>(cell(fin, 28, b), cell(fin, 30, b)),
        cell(fin, 39, b) == difference::<C>(cell(fin, 28, b), cell(fin, 30, b)),
        cell(fin, 40, b) == plus::<C>(cell(fin, 21, b), cell(fin, 23, b)),
        cell(fin, 41, b) == difference::<C>(cell(fin, 21, b), cell(fin, 23, b)),
        cell(fin, 42, b) == plus::<C>(cell(fin, 29, b), cell(fin, 31, b)),
        cell(fin, 43, b) == difference::<C>(cell(fin, 29, b), cell(fin, 31, b)),
        cell(fin, 44, b) == plus::<C>(cell(fin, 32, b), cell(fin, 34, b)),
        cell(fin, 45, b) == difference::<C>(cell(fin, 32, b), cell(fin, 34, b)),
        cell(fin, 46, b) == plus::<C>(cell(fin, 36, b), cell(fin, 38, b)),
        cell(fin, 47, b) == difference::<C>(cell(fin, 36, b), cell(fin, 38, b)),
        cell(fin, 48, b) == plus::<C>(cell(fin, 37, b), cell(fin, 39, b)),
        cell(fin, 49, b) == difference::<C>(cell(fin, 37, b), cell(fin, 39, b)),
        cell(fin, 50, b) == smul::<C>(i, cell(fin, 47, b)),
        cell(fin, 51, b) == smul::<C>(i, cell(fin, 35, b)),
        cell(fin, 52, b) == smul::<C>(i, cell(fin, 19, b)),
        cell(fin, 53, b) == smul::<C>(i, cell(fin, 27, b)),
        cell(fin, 54, b) == smul::<C>(c, cell(fin, 48, b)),
        cell(fin, 55, b) == smul::<C>(c, cell(fin, 40, b)),
        cell(fin, 56, b) == smul::<C>(c, cell(fin, 42, b)),
        cell(fin, 57, b) == smul::<C>(d, cell(fin, 49, b)),
        cell(fin, 58, b) == smul::<C>(d, cell(fin, 41, b)),
        cell(fin, 59, b) == smul::<C>(d, cell(fin, 43, b)),
        cell(fin, 60, b) == plus::<C>(cell(fin, 44, b), cell(fin, 46, b)),
        cell(fin, 61, b) == difference::<C>(cell(fin, 44, b), cell(fin, 46, b)),
        cell(fin, 62, b) == plus::<C>(cell(fin, 45, b), cell(fin, 50, b)),
        cell(fin, 63, b) == difference::<C>(cell(fin, 45, b), cell(fin, 50, b)),
        cell(fin, 64, b) == plus::<C>(cell(fin, 33, b), cell(fin, 51, b)),
        cell(fin, 65, b) == difference::<C>(cell(fin, 33, b), cell(fin, 51, b)),
        cell(fin, 66, b) == plus::<C>(cell(fin, 54, b), cell(fin, 57, b)),
        cell(fin, 67, b) == difference::<C>(cell(fin, 54, b), cell(fin, 57, b)),
        cell(fin, 68, b) == plus::<C>(cell(fin, 17, b), cell(fin, 52, b)),
        cell(fin, 69, b) == difference::<C>(cell(fin, 17, b), cell(fin, 52, b)),
        cell(fin, 70, b) == plus::<C>(cell(fin, 55, b), cell(fin, 58, b)),
        cell(fin, 71, b) == difference::<C>(cell(fin, 55, b), cell(fin, 58, b)),
        cell(fin, 72, b) == plus::<C>(cell(fin, 25, b), cell(fin, 53, b)),
        cell(fin, 73, b) == difference::<C>(cell(fin, 25, b), cell(fin, 53, b)),
        cell(fin, 74, b) == plus::<C>(cell(fin, 56, b), cell(fin, 59, b)),
        cell(fin, 75, b) == difference::<C>(cell(fin, 56, b), cell(fin, 59, b)),
        cell(fin, 76, b) == plus::<C>(cell(fin, 64, b), cell(fin, 66, b)),
        cell(fin, 77, b) == difference::<C>(cell(fin, 64, b), cell(fin, 66, b)),
        cell(fin, 78, b) == plus::<C>(cell(fin, 65, b), cell(fin, 67, b)),
        cell(fin, 79, b) == difference::<C>(cell(fin, 65, b), cell(fin, 67, b)),
        cell(fin, 80, b) == plus::<C>(cell(fin, 68, b), cell(fin, 70, b)),
        cell(fin, 81, b) == difference::<C>(cell(fin, 68, b), cell(fin, 70, b)),
        cell(fin, 82, b) == plus::<C>(cell(fin, 69, b), cell(fin, 71, b)),
        cell(fin, 83, b) == difference::<C>(cell(fin, 69, b), cell(fin, 71, b)),
        cell(fin, 84, b) == plus::<C>(cell(fin, 72, b), cell(fin, 74, b)),
        cell(fin, 85, b) == difference::<C>(cell(fin, 72, b), cell(fin, 74, b)),
        cell(fin, 86, b) == plus::<C>(cell(fin, 73, b), cell(fin, 75, b)),
        cell(fin, 87, b) == difference::<C>(cell(fin, 73, b), cell(fin, 75, b)),
        cell(fin, 88, b) == smul::<C>(w[0], cell(fin, 84, b)),
        cell(fin, 89, b) == smul::<C>(w[1], cell(fin, 86, b)),
        cell(fin, 90, b) == smul::<C>(w[2], cell(fin, 85, b)),
        cell(fin, 91, b) == smul::<C>(w[3], cell(fin, 87, b)),
        cell(fin, 92, b) == plus::<C>(cell(fin, 80, b), cell(fin, 88, b)),
        cell(fin, 93, b) == difference::<C>(cell(fin, 80, b), cell(fin, 88, b)),
        cell(fin, 94, b) == plus::<C>(cell(fin, 82, b), cell(fin, 89, b)),
        cell(fin, 95, b) == difference::<C>(cell(fin, 82, b), cell(fin, 89, b)),
        cell(fin, 96, b) == plus::<C>(cell(fin, 81, b), cell(fin, 90, b)),
        cell(fin, 97, b) == difference::<C>(cell(fin, 81, b), cell(fin, 90, b)),
        cell(fin, 98, b) == plus::<C>(cell(fin, 83, b), cell(fin, 91, b)),
        cell(fin, 99, b) == difference::<C>(cell(fin, 83, b), cell(fin, 91, b)),
    ensures
        ({
            let out = dft16::<C>(q, i, c, d, w);
            &&& out[0] == cell(fin, 60, b)
            &&& out[1] == cell(fin, 92, b)
            &&& out[2] == cell(fin, 76, b)
            &&& out[3] == cell(fin, 94, b)
            &&& out[4] == cell(fin, 62, b)
            &&& out[5] == cell(fin, 96, b)
            &&& out[6] == cell(fin, 78, b)
            &&& out[7] == cell(fin, 98, b)
            &&& out[8] == cell(fin, 61, b)
            &&& out[9] == cell(fin, 93, b)
            &&& out[10] == cell(fin, 77, b)
            &&& out[11] == cell(fin, 95, b)
            &&& out[12] == cell(fin, 63, b)
            &&& out[13] == cell(fin, 97, b)
            &&& out[14] == cell(fin, 79, b)
            &&& out[15] == cell(fin, 99, b)
        }),
{
    let (s, f) = (folded_sums::<C>(q, 8), folded_differences::<C>(q, 8));
    assert(s[0] == cell(fin, 16, b) && f[0] == cell(fin, 17, b));
    assert(s[1] == cell(fin, 24, b) && f[1] == cell(fin, 25, b));
    assert(s[2] == cell(fin, 20, b) && f[2] == cell(fin, 21, b));
    assert(s[3] == cell(fin, 28, b) && f[3] == cell(fin, 29, b));
    assert(s[4] == cell(fin, 18, b) && f[4] == cell(fin, 19, b));
    assert(s[5] == cell(fin, 26, b) && f[5] == cell(fin, 27, b));
    assert(s[6] == cell(fin, 22, b) && f[6] == cell(fin, 23, b));
    assert(s[7] == cell(fin, 30, b) && f[7] == cell(fin, 31, b));
    let (fe, fo) = (evens(f), odds(f));
    assert(fe =~= seq![f[0], f[2], f[4], f[6]]);
    assert(fo =~= seq![f[1], f[3], f[5], f[7]]);
    let e8 = dft8::<C>(s, i, c, d);
    assert(e8[0] == cell(fin, 60, b));
    assert(e8[1] == cell(fin, 76, b));
    assert(e8[2] == cell(fin, 62, b));
    assert(e8[3] == cell(fin, 78, b));
    assert(e8[4] == cell(fin, 61, b));
    assert(e8[5] == cell(fin, 77, b));
    assert(e8[6] == cell(fin, 63, b));
    assert(e8[7] == cell(fin, 79, b));
    let (a, o) = (odd4::<C>(fe, i, c, d), odd4::<C>(fo, i, c, d));
    assert(a[0] == cell(fin, 80, b) && a[1] == cell(fin, 82, b) && a[2] == cell(fin, 81, b) && a[3]
        == cell(fin, 83, b));
    assert(o[0] == cell(fin, 84, b) && o[1] == cell(fin, 86, b) && o[2] == cell(fin, 85, b) && o[3]
        == cell(fin, 87, b));
}

/// The points of a block of sixteen in natural order, where the block is in bit-reversed order.
pub open spec fn natural16(v: Seq<Pt>) -> Seq<Pt> {
    seq![v[0], v[8], v[4], v[12], v[2], v[10], v[6], v[14], v[1], v[9], v[5], v[13], v[3], v[11], v[7], v[15]]
}

/// The pairs of registers of a block of sixteen that are added and subtracted together.
pub open spec fn sums16(stage: int) -> Seq<(usize, usize)> {
    if stage == 0 {
        seq![(0, 1), (2, 3), (4, 5), (6, 7), (8, 9), (10, 11), (12, 13), (14, 15)]
    } else if stage == 1 {
        seq![(16, 18), (20, 22), (24, 26), (28, 30), (21, 23), (29, 31)]
    } else if stage == 2 {
        seq![(32, 34), (36, 38), (37, 39)]
    } else if stage == 3 {
        seq![(44, 46), (45, 50), (33, 51), (54, 57), (17, 52), (55, 58), (25, 53), (56, 59)]
    } else if stage == 4 {
        seq![(64, 66), (65, 67), (68, 70), (69, 71), (72, 74), (73, 75)]
    } else {
        seq![(80, 88), (82, 89), (81, 90), (83, 91)]
    }
}

/// The registers of a block of sixteen that are multiplied together.
pub open spec fn products16(stage: int) -> Seq<usize> {
    if stage == 0 {
        seq![47, 35, 19, 27]
    } else if stage == 1 {
        seq![48, 40, 42]
    } else if stage == 2 {
        seq![49, 41, 43]
    } else if stage == 3 {
        seq![84]
    } else if stage == 4 {
        seq![86]
    } else if stage == 5 {
        seq![85]
    } else {
        seq![87]
    }
}

/// The registers of a block of sixteen before each stage of sums, for the root `w`.
pub open spec fn registers16<C: Group>(v: Seq<Pt>, w: int, stage: int) -> Seq<Pt> {
    let x = (w * w) % order::<C>();
    let r1 = with_sums::<C>(v, sums16(0));
    let r2 = with_sums::<C>(r1, sums16(1));
    let r3 = with_sums::<C>(r2, sums16(2));
    let r4 = with_products::<C>(r3, products16(0), x * x);
    let r5 = with_products::<C>(r4, products16(1), half_sum::<C>(x));
    let r6 = with_products::<C>(r5, products16(2), half_difference::<C>(x));
    let r7 = with_sums::<C>(r6, sums16(3));
    let r8 = with_sums::<C>(r7, sums16(4));
    let r9 = with_products::<C>(r8, products16(3), w);
    let r10 = with_products::<C>(r9, products16(4), pow(w, 3));
    let r11 = with_products::<C>(r10, products16(5), pow(w, 5));
    let r12 = with_products::<C>(r11, products16(6), pow(w, 7));
    if stage == 0 {
        v
    } else if stage == 1 {
        r1
    } else if stage == 2 {
        r2
    } else if stage == 3 {
        r6
    } else if stage == 4 {
        r7
    } else {
        r12
    }
}

/// No two points with one first coordinate meet in the transform of a block of sixteen.
pub open spec fn is_regular16<C: Group>(v: Seq<Pt>, w: int) -> bool {
    forall|stage: int|
        0 <= stage < 6 ==> are_regular(
            registers16::<C>(v, w, stage),
            #[trigger] sums16(stage),
        )
}

/// The stages of the transform of sixteen points, with the claims between them.
spec fn ran16<C: Group>(
    g: Seq<Seq<Vec<Affine<C>>>>,
    f: Seq<bool>,
    blocks: int,
    i: int,
    c: int,
    d: int,
    w: Seq<int>,
) -> bool {
    &&& g[0].len() == 16
    &&& is_sum_stage(g[0], g[1], sums16(0), blocks, f[0], f[1])
    &&& is_sum_stage(g[1], g[2], sums16(1), blocks, f[1], f[2])
    &&& is_sum_stage(g[2], g[3], sums16(2), blocks, f[2], f[3])
    &&& is_product_stage(g[3], g[4], products16(0), i, blocks)
    &&& is_product_stage(g[4], g[5], products16(1), c, blocks)
    &&& is_product_stage(g[5], g[6], products16(2), d, blocks)
    &&& is_sum_stage(g[6], g[7], sums16(3), blocks, f[3], f[4])
    &&& is_sum_stage(g[7], g[8], sums16(4), blocks, f[4], f[5])
    &&& is_product_stage(g[8], g[9], products16(3), w[0], blocks)
    &&& is_product_stage(g[9], g[10], products16(4), w[1], blocks)
    &&& is_product_stage(g[10], g[11], products16(5), w[2], blocks)
    &&& is_product_stage(g[11], g[12], products16(6), w[3], blocks)
    &&& is_sum_stage(g[12], g[13], sums16(5), blocks, f[5], f[6])
}

/// The constants are those of the root `r`.
spec fn are_constants16<C: Group>(r: int, i: int, c: int, d: int, w: Seq<int>) -> bool {
    let (x, n) = ((r * r) % order::<C>(), order::<C>());
    &&& is_root8(x, i, c, d, n)
    &&& congruent(c, half_sum::<C>(x), n)
    &&& congruent(d, half_difference::<C>(x), n)
    &&& congruent(w[0], r, n)
    &&& congruent(w[1], pow(r, 3), n)
    &&& congruent(w[2], pow(r, 5), n)
    &&& congruent(w[3], pow(r, 7), n)
    &&& congruent(pow(r, 8), -1, n)
}

/// A power of the root is not zero.
proof fn lemma_root16_unit<C: Group>(r: int, w: int, e: nat)
    requires
        e <= 8,
        congruent(w, pow(r, e), order::<C>()),
        congruent(pow(r, 8), -1, order::<C>()),
    ensures
        w % order::<C>() != 0,
{
    <C::Scalar as Modulus>::lemma_modulus();
    let n = order::<C>();
    vstd::arithmetic::div_mod::lemma_small_mod(0, n as nat);
    vstd::arithmetic::div_mod::lemma_small_mod(1, n as nat);
    lemma_congruent_difference(0, -1, n);
    lemma_pow_adds(r, e, (8 - e) as nat);
    if w % n == 0 {
        let t = pow(r, (8 - e) as nat);
        lemma_congruent_ops(pow(r, e), 0, t, t, n);
        assert(0 * t == 0);
    }
}

/// What the stages of the transform of sixteen points do to one block.
#[verifier::spinoff_prover]
#[verifier::rlimit(40)]
proof fn lemma_block16<C: Group>(
    g: Seq<Seq<Vec<Affine<C>>>>,
    f: Seq<bool>,
    blocks: int,
    b: int,
    r: int,
    i: int,
    c: int,
    d: int,
    w: Seq<int>,
)
    requires
        ran16(g, f, blocks, i, c, d, w),
        0 <= b < blocks,
        is_clean::<C>(column(g[0], b), f[0]),
        are_constants16::<C>(r, i, c, d, w),
    ensures
        is_clean::<C>(column(g[1], b), f[1]),
        is_clean::<C>(column(g[2], b), f[2]),
        is_clean::<C>(column(g[3], b), f[3]),
        is_clean::<C>(column(g[4], b), f[3]),
        is_clean::<C>(column(g[5], b), f[3]),
        is_clean::<C>(column(g[6], b), f[3]),
        is_clean::<C>(column(g[7], b), f[4]),
        is_clean::<C>(column(g[8], b), f[5]),
        is_clean::<C>(column(g[9], b), f[5]),
        is_clean::<C>(column(g[10], b), f[5]),
        is_clean::<C>(column(g[11], b), f[5]),
        is_clean::<C>(column(g[12], b), f[5]),
        is_clean::<C>(column(g[13], b), f[6]),
        f[0] ==> are_apart_at(g[0], sums16(0), b, are_regular(
            registers16::<C>(column(g[0], b), r, 0),
            sums16(0),
        )),
        f[1] ==> are_apart_at(g[1], sums16(1), b, are_regular(
            registers16::<C>(column(g[0], b), r, 1),
            sums16(1),
        )),
        f[2] ==> are_apart_at(g[2], sums16(2), b, are_regular(
            registers16::<C>(column(g[0], b), r, 2),
            sums16(2),
        )),
        f[3] ==> are_apart_at(g[6], sums16(3), b, are_regular(
            registers16::<C>(column(g[0], b), r, 3),
            sums16(3),
        )),
        f[4] ==> are_apart_at(g[7], sums16(4), b, are_regular(
            registers16::<C>(column(g[0], b), r, 4),
            sums16(4),
        )),
        f[5] ==> are_apart_at(g[12], sums16(5), b, are_regular(
            registers16::<C>(column(g[0], b), r, 5),
            sums16(5),
        )),
{
    let x = (r * r) % order::<C>();
    lemma_pow1(r);
    lemma_root8_units::<C>(x, i, c, d);
    lemma_root16_unit::<C>(r, w[0], 1);
    lemma_root16_unit::<C>(r, w[1], 3);
    lemma_root16_unit::<C>(r, w[2], 5);
    lemma_root16_unit::<C>(r, w[3], 7);
    lemma_sum_column(g[0], g[1], sums16(0), blocks, b, f[0], f[1]);
    lemma_sum_column(g[1], g[2], sums16(1), blocks, b, f[1], f[2]);
    lemma_sum_column(g[2], g[3], sums16(2), blocks, b, f[2], f[3]);
    lemma_product_column(g[3], g[4], products16(0), i, blocks, b, f[3], x * x);
    lemma_product_column(g[4], g[5], products16(1), c, blocks, b, f[3], half_sum::<C>(x));
    lemma_product_column(g[5], g[6], products16(2), d, blocks, b, f[3], half_difference::<C>(x));
    lemma_sum_column(g[6], g[7], sums16(3), blocks, b, f[3], f[4]);
    lemma_sum_column(g[7], g[8], sums16(4), blocks, b, f[4], f[5]);
    lemma_product_column(g[8], g[9], products16(3), w[0], blocks, b, f[5], r);
    lemma_product_column(g[9], g[10], products16(4), w[1], blocks, b, f[5], pow(r, 3));
    lemma_product_column(g[10], g[11], products16(5), w[2], blocks, b, f[5], pow(r, 5));
    lemma_product_column(g[11], g[12], products16(6), w[3], blocks, b, f[5], pow(r, 7));
    lemma_sum_column(g[12], g[13], sums16(5), blocks, b, f[5], f[6]);
}

/// The claim is kept exactly if the transforms of all blocks are regular.
proof fn lemma_kept16<C: Group>(
    g: Seq<Seq<Vec<Affine<C>>>>,
    f: Seq<bool>,
    blocks: int,
    r: int,
    i: int,
    c: int,
    d: int,
    w: Seq<int>,
)
    requires
        ran16(g, f, blocks, i, c, d, w),
        forall|b: int| 0 <= b < blocks ==> is_clean::<C>(#[trigger] column(g[0], b), f[0]),
        are_constants16::<C>(r, i, c, d, w),
    ensures
        f[6] <==> f[0] && forall|b: int|
            0 <= b < blocks ==> is_regular16::<C>(#[trigger] column(g[0], b), r),
{
    if f[6] {
        assert forall|b: int| 0 <= b < blocks implies is_regular16::<C>(
            #[trigger] column(g[0], b),
            r,
        ) by {
            lemma_block16(g, f, blocks, b, r, i, c, d, w);
        }
    }
    if f[0] && forall|b: int|
        0 <= b < blocks ==> is_regular16::<C>(#[trigger] column(g[0], b), r) {
        assert forall|b: int| 0 <= b < blocks implies #[trigger] apart_block(g[0], sums16(0), b) && (
        f[1] ==> apart_block(g[1], sums16(1), b)) && (f[2] ==> apart_block(g[2], sums16(2), b)) && (
        f[3] ==> apart_block(g[6], sums16(3), b)) && (f[4] ==> apart_block(g[7], sums16(4), b)) && (
        f[5] ==> apart_block(g[12], sums16(5), b)) by {
            assert(is_regular16::<C>(column(g[0], b), r));
            lemma_block16(g, f, blocks, b, r, i, c, d, w);
        }
        lemma_all_apart(g[0], sums16(0), blocks);
        assert(f[1]);
        assert forall|b: int| 0 <= b < blocks implies #[trigger] apart_block(
            g[1],
            sums16(1),
            b,
        ) by {
            assert(apart_block(g[0], sums16(0), b));
        }
        lemma_all_apart(g[1], sums16(1), blocks);
        assert(f[2]);
        assert forall|b: int| 0 <= b < blocks implies #[trigger] apart_block(
            g[2],
            sums16(2),
            b,
        ) by {
            assert(apart_block(g[0], sums16(0), b));
        }
        lemma_all_apart(g[2], sums16(2), blocks);
        assert(f[3]);
        assert forall|b: int| 0 <= b < blocks implies #[trigger] apart_block(
            g[6],
            sums16(3),
            b,
        ) by {
            assert(apart_block(g[0], sums16(0), b));
        }
        lemma_all_apart(g[6], sums16(3), blocks);
        assert(f[4]);
        assert forall|b: int| 0 <= b < blocks implies #[trigger] apart_block(
            g[7],
            sums16(4),
            b,
        ) by {
            assert(apart_block(g[0], sums16(0), b));
        }
        lemma_all_apart(g[7], sums16(4), blocks);
        assert(f[5]);
        assert forall|b: int| 0 <= b < blocks implies #[trigger] apart_block(
            g[12],
            sums16(5),
            b,
        ) by {
            assert(apart_block(g[0], sums16(0), b));
        }
        lemma_all_apart(g[12], sums16(5), blocks);
    }
}

/// The transforms of all blocks of sixteen points with fourteen multiplications each; `root16` is
/// the root of the transform. `identity_free` claims that no point is neutral, and the result
/// claims it of the transforms: it is kept exactly if no two points with one first coordinate meet.
#[verifier::rlimit(60)]
pub fn fft16_low_multiplication_layer<C: GlvParams>(
    points: &mut Vec<Affine<C>>,
    root16: Fe<C::Scalar>,
    identity_free: bool,
) -> (r: bool)
    requires
        old(points)@.len() % 16 == 0,
        old(points)@.len() * 8 <= usize::MAX,
    ensures
        final(points)@.len() == old(points)@.len(),
        forall|b: int, k: int|
            0 <= b < old(points)@.len() / 16 && 0 <= k < 16
                && is_clean::<C>(block_points(old(points)@, 16, b), identity_free) && congruent(
                pow(root16@, 8),
                -1,
                order::<C>(),
            ) ==> (#[trigger] final(points)@[16 * b + k])@ == dft_at::<C>(
                natural16(block_points(old(points)@, 16, b)),
                root16@,
                k,
            ) && (r ==> final(points)@[16 * b + k]@ != Pt::Infinity),
        r ==> identity_free,
        congruent(pow(root16@, 8), -1, order::<C>()) && (forall|b: int|
            0 <= b < old(points)@.len() / 16 ==> is_clean::<C>(
                #[trigger] block_points(old(points)@, 16, b),
                identity_free,
            )) ==> (r <==> identity_free && forall|b: int|
            0 <= b < old(points)@.len() / 16 ==> is_regular16::<C>(
                #[trigger] block_points(old(points)@, 16, b),
                root16@,
            )),
{
    let total = points.len();
    let blocks = total / 16;
    let ghost n = blocks as int;
    let ghost pts = points@;
    let root8 = root16.square();
    let (squared, c, d) = root8_scalars::<C>(root8);
    let odd3 = root16.mul(root8);
    let odd5 = odd3.mul(root8);
    let odd7 = odd5.mul(root8);
    let w0 = Decomposed::<C>::new(root16);
    let w1 = Decomposed::<C>::new(odd3);
    let w2 = Decomposed::<C>::new(odd5);
    let w3 = Decomposed::<C>::new(odd7);
    let mut scratch = AffineTwiddleScratch::<C>::new();
    let mut regs = load_blocks(points, 16, blocks);
    let ghost g0 = regs@;
    let ops1: Vec<(usize, usize)> = vec![(0, 1), (2, 3), (4, 5), (6, 7), (8, 9), (10, 11), (12, 13), (14, 15)];
    let free1 = add_sub_stage(&mut regs, &ops1, blocks, &mut scratch, identity_free);
    let ghost g1 = regs@;
    let ops2: Vec<(usize, usize)> = vec![(16, 18), (20, 22), (24, 26), (28, 30), (21, 23), (29, 31)];
    let free2 = add_sub_stage(&mut regs, &ops2, blocks, &mut scratch, free1);
    let ghost g2 = regs@;
    let ops3: Vec<(usize, usize)> = vec![(32, 34), (36, 38), (37, 39)];
    let free3 = add_sub_stage(&mut regs, &ops3, blocks, &mut scratch, free2);
    let ghost g3 = regs@;
    let sources4: Vec<usize> = vec![47, 35, 19, 27];
    proof {
        assert(sources4@.len() == 4);
        lemma_size(sources4@.len() as int, 4, blocks as int);
    }
    product_stage(&mut regs, &sources4, &squared, blocks);
    let ghost g4 = regs@;
    let sources5: Vec<usize> = vec![48, 40, 42];
    proof {
        assert(sources5@.len() == 3);
        lemma_size(sources5@.len() as int, 3, blocks as int);
    }
    product_stage(&mut regs, &sources5, &c, blocks);
    let ghost g5 = regs@;
    let sources6: Vec<usize> = vec![49, 41, 43];
    proof {
        assert(sources6@.len() == 3);
        lemma_size(sources6@.len() as int, 3, blocks as int);
    }
    product_stage(&mut regs, &sources6, &d, blocks);
    let ghost g6 = regs@;
    let ops7: Vec<(usize, usize)> = vec![(44, 46), (45, 50), (33, 51), (54, 57), (17, 52), (55, 58), (25, 53), (56, 59)];
    let free7 = add_sub_stage(&mut regs, &ops7, blocks, &mut scratch, free3);
    let ghost g7 = regs@;
    let ops8: Vec<(usize, usize)> = vec![(64, 66), (65, 67), (68, 70), (69, 71), (72, 74), (73, 75)];
    let free8 = add_sub_stage(&mut regs, &ops8, blocks, &mut scratch, free7);
    let ghost g8 = regs@;
    let sources9: Vec<usize> = vec![84];
    proof {
        assert(sources9@.len() == 1);
        lemma_size(sources9@.len() as int, 1, blocks as int);
    }
    product_stage(&mut regs, &sources9, &w0, blocks);
    let ghost g9 = regs@;
    let sources10: Vec<usize> = vec![86];
    proof {
        assert(sources10@.len() == 1);
        lemma_size(sources10@.len() as int, 1, blocks as int);
    }
    product_stage(&mut regs, &sources10, &w1, blocks);
    let ghost g10 = regs@;
    let sources11: Vec<usize> = vec![85];
    proof {
        assert(sources11@.len() == 1);
        lemma_size(sources11@.len() as int, 1, blocks as int);
    }
    product_stage(&mut regs, &sources11, &w2, blocks);
    let ghost g11 = regs@;
    let sources12: Vec<usize> = vec![87];
    proof {
        assert(sources12@.len() == 1);
        lemma_size(sources12@.len() as int, 1, blocks as int);
    }
    product_stage(&mut regs, &sources12, &w3, blocks);
    let ghost g12 = regs@;
    let ops13: Vec<(usize, usize)> = vec![(80, 88), (82, 89), (81, 90), (83, 91)];
    let free13 = add_sub_stage(&mut regs, &ops13, blocks, &mut scratch, free8);
    let ghost g13 = regs@;
    let outputs: Vec<usize> = vec![60, 92, 76, 94, 62, 96, 78, 98, 61, 93, 77, 95, 63, 97, 79, 99];
    *points = store_blocks(&regs, &outputs, blocks, total);
    proof {
        let fin = g13;
        let (i, cv, dv) = (squared.value(), c.value(), d.value());
        let w = seq![w0.value(), w1.value(), w2.value(), w3.value()];
        let g = seq![g0, g1, g2, g3, g4, g5, g6, g7, g8, g9, g10, g11, g12, g13];
        let f = seq![identity_free, free1, free2, free3, free7, free8, free13];
        assert(ops1@ =~= sums16(0));
        assert(ops2@ =~= sums16(1));
        assert(ops3@ =~= sums16(2));
        assert(sources4@ =~= products16(0));
        assert(sources5@ =~= products16(1));
        assert(sources6@ =~= products16(2));
        assert(ops7@ =~= sums16(3));
        assert(ops8@ =~= sums16(4));
        assert(sources9@ =~= products16(3));
        assert(sources10@ =~= products16(4));
        assert(sources11@ =~= products16(5));
        assert(sources12@ =~= products16(6));
        assert(ops13@ =~= sums16(5));
        assert(ran16(g, f, n, i, cv, dv, w));
        assert forall|b: int| 0 <= b < n implies #[trigger] column(g0, b) == block_points(
            pts,
            16,
            b,
        ) by {
            assert forall|j: int| 0 <= j < 16 implies cell(g0, j, b) == pts[16 * b + j]@ by {}
            assert(column(g0, b) =~= block_points(pts, 16, b));
        }
        if congruent(pow(root16@, 8), -1, order::<C>()) {
            lemma_root16::<C>(root16@, root8@, odd3@, odd5@, odd7@, i, cv, dv, w);
            assert(are_constants16::<C>(root16@, i, cv, dv, w)) by {
                <C::Scalar as Modulus>::lemma_modulus();
                let (t, m) = (root16@ * root16@, order::<C>());
                lemma_congruent_mod(t, m);
                lemma_congruent_ops(t, root8@, t, root8@, m);
                lemma_congruent_ops(i, i, t, root8@, m);
                lemma_pow1(root16@);
                assert(congruent(w[0], pow(root16@, 1), m));
                assert(congruent(w[1], pow(root16@, 3), m));
                assert(congruent(w[2], pow(root16@, 5), m));
                assert(congruent(w[3], pow(root16@, 7), m));
            }
            if forall|b: int|
                0 <= b < n ==> is_clean::<C>(#[trigger] block_points(pts, 16, b), identity_free) {
                assert forall|b: int| 0 <= b < n implies is_clean::<C>(
                    #[trigger] column(g[0], b),
                    f[0],
                ) by {
                    assert(is_clean::<C>(block_points(pts, 16, b), identity_free));
                }
                lemma_kept16(g, f, n, root16@, i, cv, dv, w);
                if free13 {
                    assert forall|b: int| 0 <= b < n implies is_regular16::<C>(
                        #[trigger] block_points(pts, 16, b),
                        root16@,
                    ) by {
                        assert(is_regular16::<C>(column(g[0], b), root16@));
                    }
                }
                if identity_free && forall|b: int|
                    0 <= b < n ==> is_regular16::<C>(#[trigger] block_points(pts, 16, b), root16@) {
                    assert forall|b: int| 0 <= b < n implies is_regular16::<C>(
                        #[trigger] column(g[0], b),
                        root16@,
                    ) by {
                        assert(is_regular16::<C>(block_points(pts, 16, b), root16@));
                    }
                }
            }
        }
        lemma_continues::<C>(g11, g12, fin);
        lemma_continues::<C>(g10, g11, fin);
        lemma_continues::<C>(g9, g10, fin);
        lemma_continues::<C>(g8, g9, fin);
        lemma_continues::<C>(g7, g8, fin);
        lemma_continues::<C>(g6, g7, fin);
        lemma_continues::<C>(g5, g6, fin);
        lemma_continues::<C>(g4, g5, fin);
        lemma_continues::<C>(g3, g4, fin);
        lemma_continues::<C>(g2, g3, fin);
        lemma_continues::<C>(g1, g2, fin);
        lemma_continues::<C>(g0, g1, fin);
        assert forall|b: int, k: int|
            0 <= b < n && 0 <= k < 16 && is_clean::<C>(
                block_points(pts, 16, b),
                identity_free,
            ) && congruent(pow(root16@, 8), -1, order::<C>()) implies (
        #[trigger] points@[16 * b + k])@ == dft_at::<C>(
            natural16(block_points(pts, 16, b)),
            root16@,
            k,
        ) && (free13 ==> points@[16 * b + k]@ != Pt::Infinity) by {
            assert(column(g0, b) == block_points(pts, 16, b));
            lemma_block16(g, f, n, b, root16@, i, cv, dv, w);
            let v = block_points(pts, 16, b);
            let q = natural16(v);
            assert forall|j: int| 0 <= j < 16 implies cell(fin, j, b) == #[trigger] v[j]
                && on_curve::<C>(v[j]) by {
                assert(cell(g0, j, b) == pts[16 * b + j]@);
                assert(fin[j] == g0[j]);
                assert(on_curve::<C>(v[j]));
            }
            assert(cell(fin, 0, b) == v[0] && on_curve::<C>(v[0]));
            assert(cell(fin, 1, b) == v[1] && on_curve::<C>(v[1]));
            assert(cell(fin, 2, b) == v[2] && on_curve::<C>(v[2]));
            assert(cell(fin, 3, b) == v[3] && on_curve::<C>(v[3]));
            assert(cell(fin, 4, b) == v[4] && on_curve::<C>(v[4]));
            assert(cell(fin, 5, b) == v[5] && on_curve::<C>(v[5]));
            assert(cell(fin, 6, b) == v[6] && on_curve::<C>(v[6]));
            assert(cell(fin, 7, b) == v[7] && on_curve::<C>(v[7]));
            assert(cell(fin, 8, b) == v[8] && on_curve::<C>(v[8]));
            assert(cell(fin, 9, b) == v[9] && on_curve::<C>(v[9]));
            assert(cell(fin, 10, b) == v[10] && on_curve::<C>(v[10]));
            assert(cell(fin, 11, b) == v[11] && on_curve::<C>(v[11]));
            assert(cell(fin, 12, b) == v[12] && on_curve::<C>(v[12]));
            assert(cell(fin, 13, b) == v[13] && on_curve::<C>(v[13]));
            assert(cell(fin, 14, b) == v[14] && on_curve::<C>(v[14]));
            assert(cell(fin, 15, b) == v[15] && on_curve::<C>(v[15]));
            lemma_sum::<C>(g0, g1, fin, ops1@, n, 0, b, 0, 1, 16, identity_free, free1);
            lemma_sum::<C>(g0, g1, fin, ops1@, n, 1, b, 2, 3, 18, identity_free, free1);
            lemma_sum::<C>(g0, g1, fin, ops1@, n, 2, b, 4, 5, 20, identity_free, free1);
            lemma_sum::<C>(g0, g1, fin, ops1@, n, 3, b, 6, 7, 22, identity_free, free1);
            lemma_sum::<C>(g0, g1, fin, ops1@, n, 4, b, 8, 9, 24, identity_free, free1);
            lemma_sum::<C>(g0, g1, fin, ops1@, n, 5, b, 10, 11, 26, identity_free, free1);
            lemma_sum::<C>(g0, g1, fin, ops1@, n, 6, b, 12, 13, 28, identity_free, free1);
            lemma_sum::<C>(g0, g1, fin, ops1@, n, 7, b, 14, 15, 30, identity_free, free1);
            lemma_sum::<C>(g1, g2, fin, ops2@, n, 0, b, 16, 18, 32, free1, free2);
            lemma_sum::<C>(g1, g2, fin, ops2@, n, 1, b, 20, 22, 34, free1, free2);
            lemma_sum::<C>(g1, g2, fin, ops2@, n, 2, b, 24, 26, 36, free1, free2);
            lemma_sum::<C>(g1, g2, fin, ops2@, n, 3, b, 28, 30, 38, free1, free2);
            lemma_sum::<C>(g1, g2, fin, ops2@, n, 4, b, 21, 23, 40, free1, free2);
            lemma_sum::<C>(g1, g2, fin, ops2@, n, 5, b, 29, 31, 42, free1, free2);
            lemma_sum::<C>(g2, g3, fin, ops3@, n, 0, b, 32, 34, 44, free2, free3);
            lemma_sum::<C>(g2, g3, fin, ops3@, n, 1, b, 36, 38, 46, free2, free3);
            lemma_sum::<C>(g2, g3, fin, ops3@, n, 2, b, 37, 39, 48, free2, free3);
            lemma_product_cell::<C>(g3, g4, fin, sources4@, squared.value(), n, 0, b, 47, 50, free3);
            lemma_product_cell::<C>(g3, g4, fin, sources4@, squared.value(), n, 1, b, 35, 51, free3);
            lemma_product_cell::<C>(g3, g4, fin, sources4@, squared.value(), n, 2, b, 19, 52, free3);
            lemma_product_cell::<C>(g3, g4, fin, sources4@, squared.value(), n, 3, b, 27, 53, free3);
            lemma_product_cell::<C>(g4, g5, fin, sources5@, c.value(), n, 0, b, 48, 54, free3);
            lemma_product_cell::<C>(g4, g5, fin, sources5@, c.value(), n, 1, b, 40, 55, free3);
            lemma_product_cell::<C>(g4, g5, fin, sources5@, c.value(), n, 2, b, 42, 56, free3);
            lemma_product_cell::<C>(g5, g6, fin, sources6@, d.value(), n, 0, b, 49, 57, free3);
            lemma_product_cell::<C>(g5, g6, fin, sources6@, d.value(), n, 1, b, 41, 58, free3);
            lemma_product_cell::<C>(g5, g6, fin, sources6@, d.value(), n, 2, b, 43, 59, free3);
            lemma_sum::<C>(g6, g7, fin, ops7@, n, 0, b, 44, 46, 60, free3, free7);
            lemma_sum::<C>(g6, g7, fin, ops7@, n, 1, b, 45, 50, 62, free3, free7);
            lemma_sum::<C>(g6, g7, fin, ops7@, n, 2, b, 33, 51, 64, free3, free7);
            lemma_sum::<C>(g6, g7, fin, ops7@, n, 3, b, 54, 57, 66, free3, free7);
            lemma_sum::<C>(g6, g7, fin, ops7@, n, 4, b, 17, 52, 68, free3, free7);
            lemma_sum::<C>(g6, g7, fin, ops7@, n, 5, b, 55, 58, 70, free3, free7);
            lemma_sum::<C>(g6, g7, fin, ops7@, n, 6, b, 25, 53, 72, free3, free7);
            lemma_sum::<C>(g6, g7, fin, ops7@, n, 7, b, 56, 59, 74, free3, free7);
            lemma_sum::<C>(g7, g8, fin, ops8@, n, 0, b, 64, 66, 76, free7, free8);
            lemma_sum::<C>(g7, g8, fin, ops8@, n, 1, b, 65, 67, 78, free7, free8);
            lemma_sum::<C>(g7, g8, fin, ops8@, n, 2, b, 68, 70, 80, free7, free8);
            lemma_sum::<C>(g7, g8, fin, ops8@, n, 3, b, 69, 71, 82, free7, free8);
            lemma_sum::<C>(g7, g8, fin, ops8@, n, 4, b, 72, 74, 84, free7, free8);
            lemma_sum::<C>(g7, g8, fin, ops8@, n, 5, b, 73, 75, 86, free7, free8);
            lemma_product_cell::<C>(g8, g9, fin, sources9@, w0.value(), n, 0, b, 84, 88, free8);
            lemma_product_cell::<C>(g9, g10, fin, sources10@, w1.value(), n, 0, b, 86, 89, free8);
            lemma_product_cell::<C>(g10, g11, fin, sources11@, w2.value(), n, 0, b, 85, 90, free8);
            lemma_product_cell::<C>(g11, g12, fin, sources12@, w3.value(), n, 0, b, 87, 91, free8);
            lemma_sum::<C>(g12, g13, fin, ops13@, n, 0, b, 80, 88, 92, free8, free13);
            lemma_sum::<C>(g12, g13, fin, ops13@, n, 1, b, 82, 89, 94, free8, free13);
            lemma_sum::<C>(g12, g13, fin, ops13@, n, 2, b, 81, 90, 96, free8, free13);
            lemma_sum::<C>(g12, g13, fin, ops13@, n, 3, b, 83, 91, 98, free8, free13);
            assert(all_on_curve::<C>(q)) by {
                assert forall|j: int| 0 <= j < 16 implies on_curve::<C>(#[trigger] q[j]) by {}
            }
            lemma_dft16::<C>(q, root16@, i, cv, dv, w);
            lemma_outputs16::<C>(q, fin, b, i, cv, dv, w);
            let out = dft16::<C>(q, i, cv, dv, w);
            assert(out[0] == cell(fin, 60, b));
            assert(out[1] == cell(fin, 92, b));
            assert(out[2] == cell(fin, 76, b));
            assert(out[3] == cell(fin, 94, b));
            assert(out[4] == cell(fin, 62, b));
            assert(out[5] == cell(fin, 96, b));
            assert(out[6] == cell(fin, 78, b));
            assert(out[7] == cell(fin, 98, b));
            assert(out[8] == cell(fin, 61, b));
            assert(out[9] == cell(fin, 93, b));
            assert(out[10] == cell(fin, 77, b));
            assert(out[11] == cell(fin, 95, b));
            assert(out[12] == cell(fin, 63, b));
            assert(out[13] == cell(fin, 97, b));
            assert(out[14] == cell(fin, 79, b));
            assert(out[15] == cell(fin, 99, b));
            assert(out[k] == cell(fin, outputs@[k] as int, b));
            assert(points@[16 * b + k]@ == cell(fin, outputs@[k] as int, b));
            assert(column(fin, b)[outputs@[k] as int] == cell(fin, outputs@[k] as int, b));
        }
    }
    free13
}

} // verus!

//! The product tree of a selector family.
use crate::field::congruence::{
    congruent, lemma_congruent_mod, lemma_congruent_multiple, lemma_congruent_ops,
};
use crate::field::{Fe, Modulus};
use crate::poly::basis::RotatedChunk;
use crate::poly::buffers::all_sized;
use crate::poly::plan::{family_value, selector_factor, selector_product, selector_sum};
use crate::poly::replay::lemma_family_congruent;
use vstd::prelude::*;

verus! {

/// The bodies at one row.
pub(crate) open spec fn bodies_at<M: Modulus>(bodies: Seq<Vec<Fe<M>>>, i: int) -> Seq<int> {
    Seq::new(bodies.len(), |s: int| bodies[s]@[i]@)
}

/// Bodies that are residues of the given values have the same family value.
pub(crate) proof fn lemma_family_column<M: Modulus>(
    bodies: Seq<Vec<Fe<M>>>,
    values: Seq<int>,
    i: int,
    query: int,
    p: int,
)
    requires
        p > 0,
        bodies.len() == values.len(),
        forall|s: int| 0 <= s < bodies.len() ==> #[trigger] bodies[s]@[i]@ == values[s] % p,
    ensures
        congruent(
            family_value(bodies_at(bodies, i), query, p),
            family_value(values, query, p),
            p,
        ),
{
    let column = bodies_at(bodies, i);
    let n = values.len() as int;
    assert forall|s: int| 0 <= s < column.len() implies congruent(
        #[trigger] column[s],
        values[s],
        p,
    ) by {
        lemma_congruent_mod(values[s], p);
        assert(bodies[s]@[i]@ == values[s] % p);
    }
    lemma_family_congruent(column, values, n, query, p);
    lemma_congruent_ops(
        selector_sum(column, 0, n, query, p),
        selector_sum(values, 0, n, query, p),
        query,
        query,
        p,
    );
}

/// A range of roots splits into two.
proof fn lemma_split(bodies: Seq<int>, lo: int, mid: int, hi: int, query: int, p: int)
    requires
        lo <= mid <= hi,
    ensures
        selector_product(lo, hi, query, p) == selector_product(lo, mid, query, p)
            * selector_product(mid, hi, query, p),
        selector_sum(bodies, lo, hi, query, p) == selector_sum(bodies, lo, mid, query, p)
            * selector_product(mid, hi, query, p) + selector_sum(bodies, mid, hi, query, p)
            * selector_product(lo, mid, query, p),
    decreases hi - mid,
{
    let (a, s) = (selector_product(lo, mid, query, p), selector_sum(bodies, lo, mid, query, p));
    if mid == hi {
        assert(a * 1 == a);
        assert(s * 1 + 0 * a == s);
    } else {
        lemma_split(bodies, lo, mid, hi - 1, query, p);
        let (b, t) = (
            selector_product(mid, hi - 1, query, p),
            selector_sum(bodies, mid, hi - 1, query, p),
        );
        let (f, v) = (selector_factor(hi, query, p), bodies[hi - 1]);
        assert((a * b) * f == a * (b * f)) by (nonlinear_arith);
        assert((s * b + t * a) * f + v * (a * b) == s * (b * f) + (t * f + v * b) * a)
            by (nonlinear_arith);
    }
}

/// The range of roots of a node whose level covers `width` roots each.
spec fn node_end(j: int, width: int, n: int) -> int {
    if (j + 1) * width < n {
        (j + 1) * width
    } else {
        n
    }
}

/// A node of the tree holds the product and the sum of its range at one row.
spec fn is_node_at<M: Modulus>(
    tree: Seq<Vec<Fe<M>>>,
    j: int,
    bodies: Seq<int>,
    lo: int,
    hi: int,
    query: int,
    i: int,
) -> bool {
    &&& tree[2 * j]@[i]@ == selector_product(lo, hi, query, M::p()) % M::p()
    &&& tree[2 * j + 1]@[i]@ == selector_sum(bodies, lo, hi, query, M::p()) % M::p()
}

spec fn is_node<M: Modulus>(
    tree: Seq<Vec<Fe<M>>>,
    j: int,
    bodies: Seq<Vec<Fe<M>>>,
    lo: int,
    hi: int,
    query: Seq<Fe<M>>,
) -> bool {
    forall|i: int|
        0 <= i < query.len() ==> is_node_at(
            tree,
            j,
            bodies_at(bodies, i),
            lo,
            hi,
            (#[trigger] query[i])@,
            i,
        )
}

/// The first `active` nodes cover the roots in order, `width` each.
spec fn is_level<M: Modulus>(
    tree: Seq<Vec<Fe<M>>>,
    active: int,
    width: int,
    bodies: Seq<Vec<Fe<M>>>,
    query: Seq<Fe<M>>,
) -> bool {
    let n = bodies.len() as int;
    &&& 2 * active <= tree.len()
    &&& (active - 1) * width < n <= active * width
    &&& forall|j: int|
        0 <= j < active ==> #[trigger] is_node(
            tree,
            j,
            bodies,
            j * width,
            node_end(j, width, n),
            query,
        )
}

proof fn lemma_residue_factor(root: int, query: int, r: int, p: int)
    requires
        p > 0,
        r == (root - query) % p,
    ensures
        congruent(r, selector_factor(root, query, p), p),
{
    lemma_congruent_mod(root - query, p);
    assert(root + query * (p - 1) == root - query + query * p) by (nonlinear_arith);
    lemma_congruent_multiple(root + query * (p - 1), root - query, query, p);
}

/// Replaces the bodies of two neighbouring roots by the product and the sum of their node.
fn pair_leaves<M: Modulus>(
    left: &Vec<Fe<M>>,
    right: &Vec<Fe<M>>,
    left_root: Fe<M>,
    right_root: Fe<M>,
    query: &RotatedChunk<M>,
) -> (r: (Vec<Fe<M>>, Vec<Fe<M>>))
    requires
        left@.len() == query@.len(),
        right@.len() == query@.len(),
    ensures
        r.0@.len() == query@.len(),
        r.1@.len() == query@.len(),
        forall|i: int|
            0 <= i < query@.len() ==> #[trigger] is_pair(
                r.0@[i]@,
                r.1@[i]@,
                left@[i]@,
                right@[i]@,
                left_root@,
                right_root@,
                query@[i]@,
                M::p(),
            ),
{
    let n = left.len();
    let mut product: Vec<Fe<M>> = Vec::new();
    let mut sum: Vec<Fe<M>> = Vec::new();
    let mut i: usize = 0;
    proof {
        M::lemma_modulus();
    }
    while i < n
        invariant
            i <= n,
            M::p() > 1,
            n == left@.len(),
            n == right@.len(),
            n == query@.len(),
            product@.len() == i,
            sum@.len() == i,
            forall|k: int|
                0 <= k < i ==> #[trigger] is_pair(
                    product@[k]@,
                    sum@[k]@,
                    left@[k]@,
                    right@[k]@,
                    left_root@,
                    right_root@,
                    query@[k]@,
                    M::p(),
                ),
        decreases n - i,
    {
        let ghost (product0, sum0) = (product@, sum@);
        let q = query.get(i);
        let left_factor = left_root.sub(q);
        let right_factor = right_root.sub(q);
        let u = left[i].mul(right_factor);
        let v = right[i].mul(left_factor);
        product.push(left_factor.mul(right_factor));
        sum.push(u.add(v));
        proof {
            let p = M::p();
            let (f, g) = (
                selector_factor(left_root@, q@, p),
                selector_factor(right_root@, q@, p),
            );
            lemma_residue_factor(left_root@, q@, left_factor@, p);
            lemma_residue_factor(right_root@, q@, right_factor@, p);
            lemma_congruent_ops(left_factor@, f, right_factor@, g, p);
            let (a, b) = (left@[i as int]@, right@[i as int]@);
            lemma_congruent_ops(a, a, right_factor@, g, p);
            lemma_congruent_ops(b, b, left_factor@, f, p);
            lemma_congruent_mod(a * right_factor@, p);
            lemma_congruent_mod(b * left_factor@, p);
            lemma_congruent_ops(u@, a * g, v@, b * f, p);
            assert forall|k: int| 0 <= k < i + 1 implies #[trigger] is_pair(
                product@[k]@,
                sum@[k]@,
                left@[k]@,
                right@[k]@,
                left_root@,
                right_root@,
                query@[k]@,
                p,
            ) by {
                if k < i {
                    assert(is_pair(
                        product0[k]@,
                        sum0[k]@,
                        left@[k]@,
                        right@[k]@,
                        left_root@,
                        right_root@,
                        query@[k]@,
                        p,
                    ));
                }
            }
        }
        i += 1;
    }
    (product, sum)
}

spec fn is_pair(
    product: int,
    sum: int,
    left: int,
    right: int,
    left_root: int,
    right_root: int,
    query: int,
    p: int,
) -> bool {
    let (f, g) = (selector_factor(left_root, query, p), selector_factor(right_root, query, p));
    &&& product == (f * g) % p
    &&& sum == (left * g + right * f) % p
}

spec fn is_join(product: int, sum: int, a: int, s: int, b: int, t: int, p: int) -> bool {
    product == (a * b) % p && sum == (s * b + t * a) % p
}

/// The product and the sum of two neighbouring nodes.
fn join_nodes<M: Modulus>(
    left_product: &Vec<Fe<M>>,
    left_sum: &Vec<Fe<M>>,
    right_product: &Vec<Fe<M>>,
    right_sum: &Vec<Fe<M>>,
    n: usize,
) -> (r: (Vec<Fe<M>>, Vec<Fe<M>>))
    requires
        left_product@.len() == n,
        left_sum@.len() == n,
        right_product@.len() == n,
        right_sum@.len() == n,
    ensures
        r.0@.len() == n,
        r.1@.len() == n,
        forall|i: int|
            0 <= i < n ==> #[trigger] is_join(
                r.0@[i]@,
                r.1@[i]@,
                left_product@[i]@,
                left_sum@[i]@,
                right_product@[i]@,
                right_sum@[i]@,
                M::p(),
            ),
{
    let mut product: Vec<Fe<M>> = Vec::new();
    let mut sum: Vec<Fe<M>> = Vec::new();
    let mut i: usize = 0;
    proof {
        M::lemma_modulus();
    }
    while i < n
        invariant
            i <= n,
            M::p() > 1,
            left_product@.len() == n,
            left_sum@.len() == n,
            right_product@.len() == n,
            right_sum@.len() == n,
            product@.len() == i,
            sum@.len() == i,
            forall|k: int|
                0 <= k < i ==> #[trigger] is_join(
                    product@[k]@,
                    sum@[k]@,
                    left_product@[k]@,
                    left_sum@[k]@,
                    right_product@[k]@,
                    right_sum@[k]@,
                    M::p(),
                ),
        decreases n - i,
    {
        let ghost (product0, sum0) = (product@, sum@);
        let u = left_sum[i].mul(right_product[i]);
        let v = right_sum[i].mul(left_product[i]);
        product.push(left_product[i].mul(right_product[i]));
        sum.push(u.add(v));
        proof {
            let p = M::p();
            let (a, s, b, t) = (
                left_product@[i as int]@,
                left_sum@[i as int]@,
                right_product@[i as int]@,
                right_sum@[i as int]@,
            );
            lemma_congruent_mod(s * b, p);
            lemma_congruent_mod(t * a, p);
            lemma_congruent_ops(u@, s * b, v@, t * a, p);
            assert forall|k: int| 0 <= k < i + 1 implies #[trigger] is_join(
                product@[k]@,
                sum@[k]@,
                left_product@[k]@,
                left_sum@[k]@,
                right_product@[k]@,
                right_sum@[k]@,
                p,
            ) by {
                if k < i {
                    assert(is_join(
                        product0[k]@,
                        sum0[k]@,
                        left_product@[k]@,
                        left_sum@[k]@,
                        right_product@[k]@,
                        right_sum@[k]@,
                        p,
                    ));
                }
            }
        }
        i += 1;
    }
    (product, sum)
}

proof fn lemma_pair_node(
    bodies: Seq<int>,
    lo: int,
    product: int,
    sum: int,
    query: int,
    p: int,
)
    requires
        p > 0,
        is_pair(product, sum, bodies[lo], bodies[lo + 1], lo + 1, lo + 2, query, p),
    ensures
        product == selector_product(lo, lo + 2, query, p) % p,
        sum == selector_sum(bodies, lo, lo + 2, query, p) % p,
{
    let (f, g) = (selector_factor(lo + 1, query, p), selector_factor(lo + 2, query, p));
    reveal_with_fuel(selector_product, 3);
    reveal_with_fuel(selector_sum, 3);
    assert(selector_product(lo, lo + 1, query, p) == 1 * f);
    assert(1 * f == f);
    assert(selector_sum(bodies, lo, lo + 1, query, p) == 0 * f + bodies[lo] * 1);
    assert(0 * f + bodies[lo] * 1 == bodies[lo]);
    assert(selector_sum(bodies, lo, lo + 2, query, p) == bodies[lo] * g + bodies[lo + 1] * f);
}

proof fn lemma_join_node(
    bodies: Seq<int>,
    lo: int,
    mid: int,
    hi: int,
    product: int,
    sum: int,
    left: (int, int),
    right: (int, int),
    query: int,
    p: int,
)
    requires
        p > 0,
        lo <= mid <= hi,
        is_join(product, sum, left.0, left.1, right.0, right.1, p),
        left.0 == selector_product(lo, mid, query, p) % p,
        left.1 == selector_sum(bodies, lo, mid, query, p) % p,
        right.0 == selector_product(mid, hi, query, p) % p,
        right.1 == selector_sum(bodies, mid, hi, query, p) % p,
    ensures
        product == selector_product(lo, hi, query, p) % p,
        sum == selector_sum(bodies, lo, hi, query, p) % p,
{
    let (a, s) = (selector_product(lo, mid, query, p), selector_sum(bodies, lo, mid, query, p));
    let (b, t) = (selector_product(mid, hi, query, p), selector_sum(bodies, mid, hi, query, p));
    lemma_split(bodies, lo, mid, hi, query, p);
    lemma_congruent_mod(a, p);
    lemma_congruent_mod(s, p);
    lemma_congruent_mod(b, p);
    lemma_congruent_mod(t, p);
    lemma_congruent_ops(left.0, a, right.0, b, p);
    lemma_congruent_ops(left.1, s, right.0, b, p);
    lemma_congruent_ops(right.1, t, left.0, a, p);
    lemma_congruent_ops(left.1 * right.0, s * b, right.1 * left.0, t * a, p);
}

fn swap_buffers<M: Modulus>(buffers: &mut Vec<Vec<Fe<M>>>, a: usize, b: usize)
    requires
        a < old(buffers)@.len(),
        b < old(buffers)@.len(),
        a != b,
    ensures
        final(buffers)@ == old(buffers)@.update(a as int, old(buffers)@[b as int]).update(
            b as int,
            old(buffers)@[a as int],
        ),
{
    let mut held: Vec<Fe<M>> = Vec::new();
    std::mem::swap(&mut held, &mut buffers[a]);
    std::mem::swap(&mut held, &mut buffers[b]);
    std::mem::swap(&mut held, &mut buffers[a]);
}

/// Turns the bodies into the lowest level of the tree.
fn build_leaves<M: Modulus>(
    tree: &mut Vec<Vec<Fe<M>>>,
    runs: usize,
    query: &RotatedChunk<M>,
    Ghost(bodies): Ghost<Seq<Vec<Fe<M>>>>,
) -> (active: usize)
    requires
        runs >= 2,
        old(tree)@.len() == runs + 1,
        bodies.len() == runs,
        forall|s: int| 0 <= s < runs ==> old(tree)@[s] == bodies[s],
        all_sized(old(tree)@, query@.len()),
    ensures
        final(tree)@.len() == runs + 1,
        all_sized(final(tree)@, query@.len()),
        is_level(final(tree)@, active as int, 2, bodies, query@),
        active >= 1,
{
    let ghost n = query@.len();
    proof {
        M::lemma_modulus();
    }
    let pairs = runs / 2;
    let mut j: usize = 0;
    while j < pairs
        invariant
            j <= pairs,
            M::p() > 1,
            pairs == runs / 2,
            runs >= 2,
            tree@.len() == runs + 1,
            bodies.len() == runs,
            all_sized(tree@, n),
            n == query@.len(),
            forall|s: int| 2 * j <= s < runs ==> tree@[s] == bodies[s],
            forall|k: int|
                0 <= k < j ==> #[trigger] is_node(
                    tree@,
                    k,
                    bodies,
                    k * 2,
                    node_end(k, 2, runs as int),
                    query@,
                ),
        decreases pairs - j,
    {
        let (left, right) = (2 * j, 2 * j + 1);
        let ghost before = tree@;
        assert(before[left as int]@.len() == n && before[right as int]@.len() == n);
        let left_root = Fe::<M>::from_u64((left + 1) as u64);
        let right_root = Fe::<M>::from_u64((right + 1) as u64);
        let (product, sum) = pair_leaves(&tree[left], &tree[right], left_root, right_root, query);
        tree.set(left, product);
        tree.set(right, sum);
        proof {
            assert forall|k: int| 0 <= k < j + 1 implies #[trigger] is_node(
                tree@,
                k,
                bodies,
                k * 2,
                node_end(k, 2, runs as int),
                query@,
            ) by {
                if k < j {
                    assert(is_node(
                        before,
                        k,
                        bodies,
                        k * 2,
                        node_end(k, 2, runs as int),
                        query@,
                    ));
                    assert forall|i: int| 0 <= i < query@.len() implies is_node_at(
                        tree@,
                        k,
                        bodies_at(bodies, i),
                        k * 2,
                        node_end(k, 2, runs as int),
                        (#[trigger] query@[i])@,
                        i,
                    ) by {
                        assert(is_node_at(
                            before,
                            k,
                            bodies_at(bodies, i),
                            k * 2,
                            node_end(k, 2, runs as int),
                            query@[i]@,
                            i,
                        ));
                    }
                } else {
                    assert forall|i: int| 0 <= i < query@.len() implies is_node_at(
                        tree@,
                        k,
                        bodies_at(bodies, i),
                        k * 2,
                        node_end(k, 2, runs as int),
                        (#[trigger] query@[i])@,
                        i,
                    ) by {
                        assert(is_pair(
                            product@[i]@,
                            sum@[i]@,
                            before[left as int]@[i]@,
                            before[right as int]@[i]@,
                            left_root@,
                            right_root@,
                            query@[i]@,
                            M::p(),
                        ));
                        lemma_pair_node(
                            bodies_at(bodies, i),
                            left as int,
                            product@[i]@,
                            sum@[i]@,
                            query@[i]@,
                            M::p(),
                        );
                    }
                }
            }
        }
        j += 1;
    }
    if runs % 2 == 0 {
        return pairs;
    }
    let (leaf, extra) = (runs - 1, runs);
    let ghost before = tree@;
    let root = Fe::<M>::from_u64(runs as u64);
    let mut product: Vec<Fe<M>> = Vec::new();
    let rows = tree[leaf].len();
    let mut i: usize = 0;
    assert(before[leaf as int]@.len() == n);
    while i < rows
        invariant
            i <= rows,
            rows == n,
            n == query@.len(),
            product@.len() == i,
            forall|k: int|
                0 <= k < i ==> (#[trigger] product@[k])@ == (root@ - query@[k]@) % M::p(),
        decreases rows - i,
    {
        product.push(root.sub(query.get(i)));
        i += 1;
    }
    swap_buffers(tree, leaf, extra);
    tree.set(leaf, product);
    proof {
        assert forall|k: int| 0 <= k < pairs + 1 implies #[trigger] is_node(
            tree@,
            k,
            bodies,
            k * 2,
            node_end(k, 2, runs as int),
            query@,
        ) by {
            if k < pairs {
                assert(is_node(before, k, bodies, k * 2, node_end(k, 2, runs as int), query@));
                assert forall|i: int| 0 <= i < query@.len() implies is_node_at(
                    tree@,
                    k,
                    bodies_at(bodies, i),
                    k * 2,
                    node_end(k, 2, runs as int),
                    (#[trigger] query@[i])@,
                    i,
                ) by {
                    assert(is_node_at(
                        before,
                        k,
                        bodies_at(bodies, i),
                        k * 2,
                        node_end(k, 2, runs as int),
                        query@[i]@,
                        i,
                    ));
                }
            } else {
                assert forall|i: int| 0 <= i < query@.len() implies is_node_at(
                    tree@,
                    k,
                    bodies_at(bodies, i),
                    k * 2,
                    node_end(k, 2, runs as int),
                    (#[trigger] query@[i])@,
                    i,
                ) by {
                    let p = M::p();
                    let q = query@[i]@;
                    let lo = runs - 1;
                    let column = bodies_at(bodies, i);
                    let f = selector_factor(runs as int, q, p);
                    lemma_residue_factor(root@, q, product@[i]@, p);
                    reveal_with_fuel(selector_product, 2);
                    reveal_with_fuel(selector_sum, 2);
                    assert(selector_product(lo, lo + 1, q, p) == 1 * f);
                    assert(1 * f == f);
                    assert(selector_sum(column, lo, lo + 1, q, p) == 0 * f + column[lo] * 1);
                    assert(0 * f + column[lo] * 1 == column[lo]);
                    lemma_congruent_mod(root@ - q, p);
                    vstd::arithmetic::div_mod::lemma_small_mod(product@[i]@ as nat, p as nat);
                    bodies[lo]@[i].lemma_view();
                    vstd::arithmetic::div_mod::lemma_small_mod(column[lo] as nat, p as nat);
                }
            }
        }
    }
    pairs + 1
}

/// Joins the nodes of a level in pairs; a node without a partner moves up as it is.
fn join_level<M: Modulus>(
    tree: &mut Vec<Vec<Fe<M>>>,
    active: usize,
    rows: usize,
    Ghost(width): Ghost<int>,
    Ghost(bodies): Ghost<Seq<Vec<Fe<M>>>>,
    Ghost(query): Ghost<Seq<Fe<M>>>,
) -> (next: usize)
    requires
        active >= 2,
        width >= 1,
        rows == query.len(),
        all_sized(old(tree)@, query.len()),
        is_level(old(tree)@, active as int, width, bodies, query),
    ensures
        final(tree)@.len() == old(tree)@.len(),
        all_sized(final(tree)@, query.len()),
        is_level(final(tree)@, next as int, 2 * width, bodies, query),
        1 <= next < active,
{
    let ghost n = bodies.len() as int;
    let ghost level = tree@;
    proof {
        M::lemma_modulus();
    }
    let pairs = active / 2;
    let size = tree.len();
    let mut j: usize = 0;
    while j < pairs
        invariant
            j <= pairs,
            M::p() > 1,
            size == level.len(),
            width >= 1,
            pairs == active / 2,
            active >= 2,
            rows == query.len(),
            n == bodies.len(),
            tree@.len() == level.len(),
            is_level(level, active as int, width, bodies, query),
            all_sized(tree@, query.len()),
            forall|s: int| 4 * j <= s < level.len() ==> tree@[s] == level[s],
            forall|k: int|
                0 <= k < j ==> #[trigger] is_node(
                    tree@,
                    k,
                    bodies,
                    k * (2 * width),
                    node_end(k, 2 * width, n),
                    query,
                ),
        decreases pairs - j,
    {
        let ghost before = tree@;
        proof {
            assert(before[4 * j as int]@.len() == rows);
            assert(before[4 * j + 1]@.len() == rows);
            assert(before[4 * j + 2]@.len() == rows);
            assert(before[4 * j + 3]@.len() == rows);
        }
        let (product, sum) = join_nodes(
            &tree[4 * j],
            &tree[4 * j + 1],
            &tree[4 * j + 2],
            &tree[4 * j + 3],
            rows,
        );
        tree.set(2 * j, product);
        tree.set(2 * j + 1, sum);
        proof {
            assert forall|k: int| 0 <= k < j + 1 implies #[trigger] is_node(
                tree@,
                k,
                bodies,
                k * (2 * width),
                node_end(k, 2 * width, n),
                query,
            ) by {
                if k < j {
                    assert(is_node(
                        before,
                        k,
                        bodies,
                        k * (2 * width),
                        node_end(k, 2 * width, n),
                        query,
                    ));
                    lemma_node_kept(
                        before,
                        tree@,
                        k,
                        bodies,
                        k * (2 * width),
                        node_end(k, 2 * width, n),
                        query,
                    );
                } else {
                    lemma_level_ends(j as int, width, n, active as int);
                    assert(is_node(
                        level,
                        2 * j as int,
                        bodies,
                        (2 * j) * width,
                        node_end(2 * j as int, width, n),
                        query,
                    ));
                    assert(is_node(
                        level,
                        2 * j + 1,
                        bodies,
                        (2 * j + 1) * width,
                        node_end(2 * j + 1, width, n),
                        query,
                    ));
                    assert forall|i: int| 0 <= i < query.len() implies is_node_at(
                        tree@,
                        k,
                        bodies_at(bodies, i),
                        k * (2 * width),
                        node_end(k, 2 * width, n),
                        (#[trigger] query[i])@,
                        i,
                    ) by {
                        let column = bodies_at(bodies, i);
                        assert(is_join(
                            product@[i]@,
                            sum@[i]@,
                            level[4 * j as int]@[i]@,
                            level[4 * j + 1]@[i]@,
                            level[4 * j + 2]@[i]@,
                            level[4 * j + 3]@[i]@,
                            M::p(),
                        ));
                        lemma_join_node(
                            column,
                            (2 * j) * width,
                            (2 * j + 1) * width,
                            node_end(2 * j + 1, width, n),
                            product@[i]@,
                            sum@[i]@,
                            (level[4 * j as int]@[i]@, level[4 * j + 1]@[i]@),
                            (level[4 * j + 2]@[i]@, level[4 * j + 3]@[i]@),
                            query[i]@,
                            M::p(),
                        );
                    }
                }
            }
        }
        j += 1;
    }
    if active % 2 == 0 {
        proof {
            lemma_level_even(active as int, width, n);
        }
        return pairs;
    }
    let ghost before = tree@;
    let (from, to) = (2 * (active - 1), 2 * pairs);
    swap_buffers(tree, to, from);
    swap_buffers(tree, to + 1, from + 1);
    proof {
        lemma_level_odd(active as int, width, n);
        assert forall|k: int| 0 <= k < pairs + 1 implies #[trigger] is_node(
            tree@,
            k,
            bodies,
            k * (2 * width),
            node_end(k, 2 * width, n),
            query,
        ) by {
            if k < pairs {
                assert(is_node(
                    before,
                    k,
                    bodies,
                    k * (2 * width),
                    node_end(k, 2 * width, n),
                    query,
                ));
                lemma_node_kept(
                    before,
                    tree@,
                    k,
                    bodies,
                    k * (2 * width),
                    node_end(k, 2 * width, n),
                    query,
                );
            } else {
                let last = active - 1;
                assert(is_node(
                    level,
                    last,
                    bodies,
                    last * width,
                    node_end(last, width, n),
                    query,
                ));
                assert forall|i: int| 0 <= i < query.len() implies is_node_at(
                    tree@,
                    k,
                    bodies_at(bodies, i),
                    k * (2 * width),
                    node_end(k, 2 * width, n),
                    (#[trigger] query[i])@,
                    i,
                ) by {
                    assert(is_node_at(
                        level,
                        last,
                        bodies_at(bodies, i),
                        last * width,
                        node_end(last, width, n),
                        query[i]@,
                        i,
                    ));
                }
            }
        }
    }
    pairs + 1
}

/// A node whose buffers did not change is still a node.
proof fn lemma_node_kept<M: Modulus>(
    before: Seq<Vec<Fe<M>>>,
    after: Seq<Vec<Fe<M>>>,
    k: int,
    bodies: Seq<Vec<Fe<M>>>,
    lo: int,
    hi: int,
    query: Seq<Fe<M>>,
)
    requires
        is_node(before, k, bodies, lo, hi, query),
        before[2 * k] == after[2 * k],
        before[2 * k + 1] == after[2 * k + 1],
    ensures
        is_node(after, k, bodies, lo, hi, query),
{
    assert forall|i: int| 0 <= i < query.len() implies is_node_at(
        after,
        k,
        bodies_at(bodies, i),
        lo,
        hi,
        (#[trigger] query[i])@,
        i,
    ) by {
        assert(is_node_at(before, k, bodies_at(bodies, i), lo, hi, query[i]@, i));
    }
}

proof fn lemma_level_ends(j: int, width: int, n: int, active: int)
    requires
        width >= 1,
        0 <= j,
        2 * j + 1 < active,
        (active - 1) * width < n <= active * width,
    ensures
        node_end(2 * j, width, n) == (2 * j + 1) * width,
        node_end(2 * j + 1, width, n) == node_end(j, 2 * width, n),
        (2 * j) * width == j * (2 * width),
        (2 * j) * width <= (2 * j + 1) * width <= node_end(2 * j + 1, width, n),
{
    assert((2 * j) * width <= (2 * j + 1) * width) by (nonlinear_arith)
        requires
            width >= 1,
    ;
    assert((2 * j) * width == j * (2 * width)) by (nonlinear_arith);
    assert((2 * j + 2) * width == (j + 1) * (2 * width)) by (nonlinear_arith);
    assert((2 * j + 1) * width <= (active - 1) * width) by (nonlinear_arith)
        requires
            2 * j + 1 <= active - 1,
            width >= 1,
    ;
    assert((2 * j + 2) * width == (2 * j + 1) * width + width) by (nonlinear_arith);
}

proof fn lemma_level_even(active: int, width: int, n: int)
    requires
        width >= 1,
        active >= 2,
        active % 2 == 0,
        (active - 1) * width < n <= active * width,
    ensures
        (active / 2 - 1) * (2 * width) < n <= (active / 2) * (2 * width),
{
    let h = active / 2;
    assert((h - 1) * (2 * width) <= (active - 1) * width) by (nonlinear_arith)
        requires
            active == 2 * h,
            width >= 1,
    ;
    assert(h * (2 * width) == active * width) by (nonlinear_arith)
        requires
            active == 2 * h,
    ;
}

proof fn lemma_level_odd(active: int, width: int, n: int)
    requires
        width >= 1,
        active >= 2,
        active % 2 == 1,
        (active - 1) * width < n <= active * width,
    ensures
        (active / 2) * (2 * width) < n <= (active / 2 + 1) * (2 * width),
        (active - 1) * width == (active / 2) * (2 * width),
        node_end(active - 1, width, n) == n,
        node_end(active / 2, 2 * width, n) == n,
{
    let h = active / 2;
    assert(h * (2 * width) == (active - 1) * width) by (nonlinear_arith)
        requires
            active == 2 * h + 1,
    ;
    assert(active * width <= (h + 1) * (2 * width)) by (nonlinear_arith)
        requires
            active == 2 * h + 1,
            width >= 1,
    ;
}

/// The value of a selector family: the sum over all roots of the bodies, each times the selector
/// factors of the other roots, times the query.
///
/// The first `runs` buffers of the tree hold the bodies.
pub(crate) fn evaluate_family<M: Modulus>(
    tree: &mut Vec<Vec<Fe<M>>>,
    runs: usize,
    query: &RotatedChunk<M>,
    output: &mut Vec<Fe<M>>,
    Ghost(bodies): Ghost<Seq<Vec<Fe<M>>>>,
)
    requires
        runs >= 2,
        old(tree)@.len() == runs + 1,
        bodies.len() == runs,
        forall|s: int| 0 <= s < runs ==> old(tree)@[s] == bodies[s],
        all_sized(old(tree)@, query@.len()),
        old(output)@.len() == query@.len(),
    ensures
        final(tree)@.len() == runs + 1,
        all_sized(final(tree)@, query@.len()),
        final(output)@.len() == query@.len(),
        forall|i: int|
            0 <= i < query@.len() ==> (#[trigger] final(output)@[i])@ == family_value(
                bodies_at(bodies, i),
                query@[i]@,
                M::p(),
            ) % M::p(),
{
    proof {
        M::lemma_modulus();
    }
    let rows = output.len();
    let mut active = build_leaves(tree, runs, query, Ghost(bodies));
    let ghost mut width: int = 2;
    while active > 1
        invariant
            1 <= active,
            width >= 1,
            rows == query@.len(),
            tree@.len() == runs + 1,
            all_sized(tree@, query@.len()),
            is_level(tree@, active as int, width, bodies, query@),
        decreases active,
    {
        active = join_level(tree, active, rows, Ghost(width), Ghost(bodies), Ghost(query@));
        proof {
            width = 2 * width;
        }
    }
    proof {
        assert(is_node(tree@, 0, bodies, 0 * width, node_end(0, width, runs as int), query@));
        assert(0 * width == 0);
        assert(node_end(0, width, runs as int) == runs);
        assert(tree@[1]@.len() == rows);
    }
    let mut i: usize = 0;
    while i < rows
        invariant
            i <= rows,
            M::p() > 1,
            rows == query@.len(),
            output@.len() == rows,
            tree@.len() >= 2,
            tree@[1]@.len() == rows,
            bodies.len() == runs,
            is_node(tree@, 0, bodies, 0, runs as int, query@),
            forall|k: int|
                0 <= k < i ==> (#[trigger] output@[k])@ == family_value(
                    bodies_at(bodies, k),
                    query@[k]@,
                    M::p(),
                ) % M::p(),
        decreases rows - i,
    {
        let q = query.get(i);
        let sum = tree[1][i];
        output.set(i, sum.mul(q));
        proof {
            let p = M::p();
            assert(is_node_at(
                tree@,
                0,
                bodies_at(bodies, i as int),
                0,
                runs as int,
                query@[i as int]@,
                i as int,
            ));
            let s = selector_sum(bodies_at(bodies, i as int), 0, runs as int, q@, p);
            lemma_congruent_mod(s, p);
            lemma_congruent_ops(sum@, s, q@, q@, p);
        }
        i += 1;
    }
}

} // verus!

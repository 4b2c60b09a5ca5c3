//! The choice of the subexpressions that are cached.
use crate::field::congruence::congruent;
use crate::field::Modulus;
use crate::poly::assemble::plain;
use crate::poly::ast::{AstLeaf, Row};
use crate::poly::cache::{
    all_live, capped, collect_plan_occurrences, fresh, is_listed_at, is_order, is_renumbering, is_stored,
    key_le, listed, plan_cost, reuse_cache_slots, same_but_slots, same_plan, sorted_order, PlanOccurrence,
};
use crate::poly::caching::{
    is_load, is_nested_at, is_source, is_store, lemma_nested, nested, CacheAction, Caching,
};
use crate::poly::compile::fill_claimed;
use crate::poly::plan::EvaluationPlan;
use crate::poly::replay::apply_cache_actions;
use crate::poly::rewritten::rewritten;
use vstd::prelude::*;

verus! {

/// The fewest multiplications that caching a subexpression has to save.
pub const MIN_CSE_SAVED_MULTIPLICATIONS: usize = 1;

/// Two parts are built alike and take a multiplication.
pub open spec fn is_repeat<M: Modulus>(nodes: Seq<EvaluationPlan<M>>, i: int, j: int) -> bool {
    0 <= i < j < nodes.len() && nodes[i].same(nodes[j]) && nodes[i].cost().0
        >= MIN_CSE_SAVED_MULTIPLICATIONS
}

/// Some part that takes a multiplication occurs more than once.
pub open spec fn repeats<M: Modulus>(nodes: Seq<EvaluationPlan<M>>) -> bool {
    exists|i: int, j: int| is_repeat(nodes, i, j)
}

/// The positions from `leader` up to `i` of the parts that are built like the one at `leader`.
pub open spec fn members<M: Modulus>(nodes: Seq<EvaluationPlan<M>>, leader: int, i: int) -> Seq<int>
    decreases i - leader,
{
    if i <= leader {
        Seq::empty()
    } else if nodes[leader].same(nodes[i - 1]) {
        members(nodes, leader, i - 1).push(i - 1)
    } else {
        members(nodes, leader, i - 1)
    }
}

/// The part is the first of at least two that are built alike.
pub open spec fn is_leader<M: Modulus>(nodes: Seq<EvaluationPlan<M>>, i: int) -> bool {
    &&& 0 <= i < nodes.len()
    &&& members(nodes, i, nodes.len() as int).len() >= 2
    &&& forall|j: int| 0 <= j < i ==> !(#[trigger] nodes[j]).same(nodes[i])
}

/// What caching a repeated part saves, as a key that puts the largest savings of multiplications
/// first, then the largest savings of visits, then the earliest part.
pub open spec fn savings_key<M: Modulus>(nodes: Seq<EvaluationPlan<M>>, leader: int) -> (
    usize,
    usize,
    usize,
) {
    let extra = (members(nodes, leader, nodes.len() as int).len() - 1) as nat;
    let cost = nodes[leader].cost();
    (
        (usize::MAX - capped(extra * capped(cost.0) as nat)) as usize,
        (usize::MAX - capped(extra * capped(cost.1) as nat)) as usize,
        leader as usize,
    )
}

/// The repeated parts by their savings.
pub open spec fn are_leaders<M: Modulus>(
    nodes: Seq<EvaluationPlan<M>>,
    leaders: Seq<int>,
) -> bool {
    &&& forall|a: int| 0 <= a < leaders.len() ==> is_leader(nodes, #[trigger] leaders[a])
    &&& forall|a: int, b: int|
        0 <= a < b < leaders.len() ==> (#[trigger] leaders[a]) != (#[trigger] leaders[b])
            && key_le(savings_key(nodes, leaders[a]), savings_key(nodes, leaders[b]))
    &&& forall|i: int| #[trigger] is_leader(nodes, i) ==> leaders.contains(i)
}

/// The part at `j` does not overlap with any action.
pub open spec fn is_free<M: Modulus>(
    nodes: Seq<EvaluationPlan<M>>,
    actions: Seq<Option<CacheAction>>,
    j: int,
) -> bool {
    &&& 0 <= j < nodes.len()
    &&& actions[j] is None
    &&& forall|k: int|
        0 <= k < actions.len() && (#[trigger] actions[k]) is Some ==> if k < j {
            actions[k].unwrap().end <= j
        } else {
            j + nodes[j].nodes().len() <= k
        }
}

/// The free ones of the first `k` positions.
pub open spec fn free_of<M: Modulus>(
    nodes: Seq<EvaluationPlan<M>>,
    actions: Seq<Option<CacheAction>>,
    positions: Seq<int>,
    k: int,
) -> Seq<int>
    decreases k,
{
    if k <= 0 {
        Seq::empty()
    } else if is_free(nodes, actions, positions[k - 1]) {
        free_of(nodes, actions, positions, k - 1).push(positions[k - 1])
    } else {
        free_of(nodes, actions, positions, k - 1)
    }
}

/// The actions with a store at the first of the positions and loads at the others up to the `k`th.
pub open spec fn with_actions<M: Modulus>(
    nodes: Seq<EvaluationPlan<M>>,
    actions: Seq<Option<CacheAction>>,
    positions: Seq<int>,
    slot: usize,
    k: int,
) -> Seq<Option<CacheAction>>
    decreases k,
{
    if k <= 0 {
        actions
    } else {
        let j = positions[k - 1];
        with_actions(nodes, actions, positions, slot, k - 1).update(
            j,
            Some(
                CacheAction { slot, store: k == 1, end: (j + nodes[j].nodes().len()) as usize },
            ),
        )
    }
}

/// The actions and the number of slots after the first `k` repeated parts: a part is cached where
/// at least two of its occurrences are free and it takes a multiplication.
pub open spec fn chosen<M: Modulus>(
    nodes: Seq<EvaluationPlan<M>>,
    leaders: Seq<int>,
    k: int,
) -> (Seq<Option<CacheAction>>, nat)
    decreases k,
{
    if k <= 0 {
        (Seq::new(nodes.len(), |i: int| None), 0)
    } else {
        let (actions, slots) = chosen(nodes, leaders, k - 1);
        let all = members(nodes, leaders[k - 1], nodes.len() as int);
        let free = free_of(nodes, actions, all, all.len() as int);
        if free.len() >= 2 && nodes[leaders[k - 1]].cost().0 >= MIN_CSE_SAVED_MULTIPLICATIONS {
            (
                with_actions(nodes, actions, free, slots as usize, free.len() as int),
                slots + 1,
            )
        } else {
            (actions, slots)
        }
    }
}

/// The positions as integers.
spec fn ints(positions: Seq<usize>) -> Seq<int> {
    Seq::new(positions.len(), |a: int| positions[a] as int)
}

/// A part that occurs more than once.
struct RepeatShape {
    saved_multiplications: usize,
    saved_visits: usize,
    first_occurrence: usize,
    occurrences: Vec<usize>,
}

/// The positions go up, and the parts there are built alike.
spec fn are_alike<M: Modulus>(nodes: Seq<EvaluationPlan<M>>, positions: Seq<usize>) -> bool {
    &&& forall|a: int| 0 <= a < positions.len() ==> (#[trigger] positions[a]) < nodes.len()
    &&& forall|a: int, b: int|
        0 <= a < b < positions.len() ==> (#[trigger] positions[a]) < (#[trigger] positions[b])
            && nodes[positions[a] as int].same(nodes[positions[b] as int])
}

spec fn is_shape<M: Modulus>(nodes: Seq<EvaluationPlan<M>>, shape: RepeatShape) -> bool {
    &&& are_alike(nodes, shape.occurrences@)
    &&& shape.occurrences@.len() >= 2
    &&& shape.first_occurrence == shape.occurrences@[0]
    &&& shape.saved_multiplications >= 1 <==> nodes[shape.first_occurrence as int].cost().0 >= 1
    &&& is_leader(nodes, shape.first_occurrence as int)
    &&& ints(shape.occurrences@) == members(
        nodes,
        shape.first_occurrence as int,
        nodes.len() as int,
    )
    &&& savings_key(nodes, shape.first_occurrence as int) == (
        (usize::MAX - shape.saved_multiplications) as usize,
        (usize::MAX - shape.saved_visits) as usize,
        shape.first_occurrence,
    )
}

/// The product, or the largest machine integer where it exceeds that.
fn capped_product(count: usize, cost: usize) -> (r: usize)
    ensures
        r == capped((count * cost) as nat),
        count >= 1 ==> (r >= 1 <==> cost >= 1),
{
    proof {
        if count >= 1 && cost >= 1 {
            assert(count * cost >= 1) by (nonlinear_arith)
                requires
                    count >= 1,
                    cost >= 1,
            ;
        }
        assert(count * 0 == 0);
    }
    match count.checked_mul(cost) {
        Some(product) => product,
        None => usize::MAX,
    }
}

/// The positions from `index` on of the parts that are built like the one there and belong to no
/// shape yet.
fn matching_parts<M: Modulus>(
    occurrences: &Vec<PlanOccurrence<M>>,
    grouped: &Vec<bool>,
    index: usize,
    Ghost(nodes): Ghost<Seq<EvaluationPlan<M>>>,
) -> (r: Vec<usize>)
    requires
        index < occurrences@.len(),
        grouped@.len() == occurrences@.len(),
        nodes.len() == occurrences@.len(),
        listed(occurrences@, 0, nodes),
    ensures
        (forall|j: int|
            index <= j < nodes.len() && nodes[index as int].same(#[trigger] nodes[j])
                ==> !grouped@[j]) ==> ints(r@) == members(nodes, index as int, nodes.len() as int),
        are_alike(nodes, r@),
        forall|a: int| 0 <= a < r@.len() ==> index <= #[trigger] r@[a],
        forall|a: int|
            0 <= a < r@.len() ==> nodes[index as int].same(nodes[#[trigger] r@[a] as int]),
        forall|j: int|
            index <= j < nodes.len() && !grouped@[j] && nodes[index as int].same(
                #[trigger] nodes[j],
            ) ==> r@.contains(j as usize),
{
    let mut r: Vec<usize> = Vec::new();
    let mut j: usize = index;
    assert(ints(r@) =~= members(nodes, index as int, index as int));
    while j < occurrences.len()
        invariant
            index <= j <= occurrences@.len(),
            index < occurrences@.len(),
            grouped@.len() == occurrences@.len(),
            nodes.len() == occurrences@.len(),
            listed(occurrences@, 0, nodes),
            (forall|k: int|
                index <= k < nodes.len() && nodes[index as int].same(#[trigger] nodes[k])
                    ==> !grouped@[k]) ==> ints(r@) == members(nodes, index as int, j as int),
            are_alike(nodes, r@),
            forall|a: int| 0 <= a < r@.len() ==> index <= #[trigger] r@[a] < j,
            forall|a: int|
                0 <= a < r@.len() ==> nodes[index as int].same(nodes[#[trigger] r@[a] as int]),
            forall|k: int|
                index <= k < j && !grouped@[k] && nodes[index as int].same(#[trigger] nodes[k])
                    ==> r@.contains(k as usize),
        decreases occurrences@.len() - j,
    {
        assert(is_listed_at(occurrences@, 0, nodes[j as int], j as int));
        assert(is_listed_at(occurrences@, 0, nodes[index as int], index as int));
        let ghost before = r@;
        if !grouped[j] && same_plan(occurrences[index].plan, occurrences[j].plan) {
            r.push(j);
            proof {
                assert(r@[before.len() as int] == j);
                assert(ints(r@) =~= ints(before).push(j as int));
                assert forall|a: int, b: int| 0 <= a < b < r@.len() implies (#[trigger] r@[a]) < (
                #[trigger] r@[b]) && nodes[r@[a] as int].same(nodes[r@[b] as int]) by {
                    if b == before.len() {
                        assert(r@[a] == before[a]);
                        nodes[index as int].lemma_same(nodes[r@[a] as int]);
                        nodes[r@[a] as int].lemma_same_transitive(
                            nodes[index as int],
                            nodes[j as int],
                        );
                    } else {
                        assert(r@[a] == before[a] && r@[b] == before[b]);
                    }
                }
                assert forall|k: int|
                    index <= k < j + 1 && !grouped@[k] && nodes[index as int].same(
                        #[trigger] nodes[k],
                    ) implies r@.contains(k as usize) by {
                    if k < j {
                        assert(before.contains(k as usize));
                        let a = choose|a: int| 0 <= a < before.len() && before[a] == k as usize;
                        assert(r@[a] == k as usize);
                    }
                }
            }
        }
        j += 1;
    }
    r
}

/// The parts that occur more than once.
fn repeat_shapes<M: Modulus>(
    occurrences: &Vec<PlanOccurrence<M>>,
    Ghost(nodes): Ghost<Seq<EvaluationPlan<M>>>,
) -> (r: Vec<RepeatShape>)
    requires
        nodes.len() == occurrences@.len(),
        listed(occurrences@, 0, nodes),
    ensures
        forall|s: int| 0 <= s < r@.len() ==> is_shape(nodes, #[trigger] r@[s]),
        forall|s: int, t: int|
            0 <= s < t < r@.len() ==> (#[trigger] r@[s]).first_occurrence != (
            #[trigger] r@[t]).first_occurrence,
        forall|i: int| #[trigger]
            is_leader(nodes, i) ==> exists|s: int|
                0 <= s < r@.len() && (#[trigger] r@[s]).first_occurrence == i,
        repeats(nodes) ==> exists|s: int|
            0 <= s < r@.len() && (#[trigger] r@[s]).saved_multiplications >= 1,
{
    let n = occurrences.len();
    let mut grouped: Vec<bool> = vec![false; n];
    let mut shapes: Vec<RepeatShape> = Vec::new();
    let mut index: usize = 0;
    while index < n
        invariant
            index <= n,
            n == occurrences@.len(),
            n == nodes.len(),
            grouped@.len() == n,
            listed(occurrences@, 0, nodes),
            forall|s: int| 0 <= s < shapes@.len() ==> is_shape(nodes, #[trigger] shapes@[s]),
            forall|i: int|
                0 <= i < n && #[trigger] grouped@[i] ==> is_grouped(nodes, shapes@, i),
            forall|i: int, j: int| #[trigger]
                is_repeat(nodes, i, j) && i < index ==> has_useful(shapes@),
            forall|s: int|
                0 <= s < shapes@.len() ==> (#[trigger] shapes@[s]).first_occurrence < index,
            forall|s: int, t: int|
                0 <= s < t < shapes@.len() ==> (#[trigger] shapes@[s]).first_occurrence < (
                #[trigger] shapes@[t]).first_occurrence,
            forall|i: int, j: int|
                0 <= i < index && i < j < n && (#[trigger] nodes[i]).same(#[trigger] nodes[j])
                    ==> grouped@[j],
            forall|i: int| #[trigger]
                is_leader(nodes, i) && i < index ==> exists|s: int|
                    0 <= s < shapes@.len() && (#[trigger] shapes@[s]).first_occurrence == i,
        decreases n - index,
    {
        if !grouped[index] {
            let matching = matching_parts(occurrences, &grouped, index, Ghost(nodes));
            proof {
                lemma_class(nodes, shapes@, grouped@, index as int);
                lemma_members(nodes, index as int, n as int);
                lemma_repeat_matches(nodes, shapes@, grouped@, index as int, matching@);
            }
            if matching.len() > 1 {
                assert(is_listed_at(occurrences@, 0, nodes[index as int], index as int));
                let cost = plan_cost(occurrences[index].plan);
                let ghost (shapes0, grouped0) = (shapes@, grouped@);
                mark_positions(&mut grouped, &matching);
                let shape = RepeatShape {
                    saved_multiplications: capped_product(matching.len() - 1, cost.0),
                    saved_visits: capped_product(matching.len() - 1, cost.1),
                    first_occurrence: matching[0],
                    occurrences: matching,
                };
                proof {
                    let first = matching@[0] as int;
                    assert(nodes[index as int].same(nodes[matching@[0] as int]));
                    nodes[index as int].lemma_same(nodes[first]);
                    assert(ints(matching@).len() == matching@.len());
                    assert(members(nodes, index as int, n as int).contains(index as int));
                    let a = choose|a: int|
                        0 <= a < matching@.len() && ints(matching@)[a] == index;
                    assert(matching@[a] == index);
                    if a > 0 {
                        assert(matching@[0] < matching@[a]);
                    }
                    assert(first == index);
                    assert(is_leader(nodes, index as int));
                    assert(is_shape(nodes, shape));
                }
                shapes.push(shape);
                proof {
                    assert forall|i: int, j: int|
                        0 <= i < index + 1 && i < j < n && (#[trigger] nodes[i]).same(
                            #[trigger] nodes[j],
                        ) implies grouped@[j] by {
                        if i == index {
                            assert(members(nodes, index as int, n as int).contains(j));
                            let a = choose|a: int|
                                0 <= a < matching@.len() && ints(matching@)[a] == j;
                            assert(matching@[a] == j as usize);
                            assert(matching@.contains(j as usize));
                        } else {
                            assert(grouped0[j]);
                        }
                    }
                    assert forall|i: int| #[trigger]
                        is_leader(nodes, i) && i < index + 1 implies exists|s: int|
                        0 <= s < shapes@.len() && (#[trigger] shapes@[s]).first_occurrence == i by {
                        if i == index {
                            assert(shapes@[shapes0.len() as int].first_occurrence == i);
                        } else {
                            let s = choose|s: int|
                                0 <= s < shapes0.len() && (
                                #[trigger] shapes0[s]).first_occurrence == i;
                            assert(shapes@[s].first_occurrence == i);
                        }
                    }
                    assert forall|i: int| 0 <= i < n && #[trigger] grouped@[i] implies is_grouped(
                        nodes,
                        shapes@,
                        i,
                    ) by {
                        if grouped0[i] {
                            assert(is_grouped(nodes, shapes0, i));
                            let s = choose|s: int|
                                0 <= s < shapes0.len() && nodes[(
                                #[trigger] shapes0[s]).first_occurrence as int].same(nodes[i]);
                            assert(shapes@[s] == shapes0[s]);
                        } else {
                            assert(matching@.contains(i as usize));
                            let a = choose|a: int|
                                0 <= a < matching@.len() && matching@[a] == i as usize;
                            if a == 0 {
                                assert(nodes[index as int].same(nodes[i]));
                                nodes[index as int].lemma_same(nodes[i]);
                                nodes[i].lemma_same_transitive(nodes[index as int], nodes[i]);
                            } else {
                                assert(nodes[matching@[0] as int].same(nodes[matching@[a] as int]));
                            }
                            assert(nodes[shapes@[shapes0.len() as int].first_occurrence as int].same(
                                nodes[i],
                            ));
                        }
                    }
                    assert forall|i: int, j: int| #[trigger]
                        is_repeat(nodes, i, j) && i < index + 1 implies has_useful(shapes@) by {
                        if has_useful(shapes0) {
                            let s = choose|s: int|
                                0 <= s < shapes0.len() && (
                                #[trigger] shapes0[s]).saved_multiplications >= 1;
                            assert(shapes@[s].saved_multiplications >= 1);
                        } else {
                            assert(i == index);
                            let k = shapes0.len() as int;
                            assert(nodes[index as int].same(nodes[matching@[0] as int]));
                            nodes[index as int].lemma_same(nodes[matching@[0] as int]);
                            assert(shapes@[k].saved_multiplications >= 1);
                        }
                    }
                }
            } else {
                proof {
                    assert(ints(matching@).len() == matching@.len());
                    assert forall|i: int, j: int|
                        0 <= i < index + 1 && i < j < n && (#[trigger] nodes[i]).same(
                            #[trigger] nodes[j],
                        ) implies grouped@[j] by {
                        if i == index {
                            nodes[i].lemma_same(nodes[j]);
                            let all = members(nodes, index as int, n as int);
                            assert(all.contains(i) && all.contains(j));
                            let a = choose|a: int| 0 <= a < all.len() && all[a] == i;
                            let b = choose|b: int| 0 <= b < all.len() && all[b] == j;
                            assert(a != b);
                        }
                    }
                }
            }
        } else {
            proof {
                assert forall|i: int, j: int|
                    0 <= i < index + 1 && i < j < n && (#[trigger] nodes[i]).same(
                        #[trigger] nodes[j],
                    ) implies grouped@[j] by {
                    if i == index {
                        lemma_grouped_class(nodes, shapes@, i, j);
                    }
                }
                assert(!is_leader(nodes, index as int)) by {
                    let s = choose|s: int|
                        0 <= s < shapes@.len() && nodes[(
                        #[trigger] shapes@[s]).first_occurrence as int].same(nodes[index as int]);
                    assert(shapes@[s].first_occurrence < index);
                }
                assert forall|i: int, j: int| #[trigger]
                    is_repeat(nodes, i, j) && i < index + 1 implies has_useful(shapes@) by {
                    if i == index {
                        lemma_grouped_useful(nodes, shapes@, i);
                    }
                }
            }
        }
        index += 1;
    }
    proof {
        if repeats(nodes) {
            let (i, j) = choose|i: int, j: int| is_repeat(nodes, i, j);
            assert(is_repeat(nodes, i, j));
            assert(has_useful(shapes@));
        }
    }
    shapes
}

/// The positions of a class go up, and they are those of the parts that are built alike.
proof fn lemma_members<M: Modulus>(nodes: Seq<EvaluationPlan<M>>, leader: int, i: int)
    requires
        0 <= leader,
    ensures
        forall|j: int|
            #![trigger members(nodes, leader, i).contains(j)]
            members(nodes, leader, i).contains(j) <==> leader <= j < i && nodes[leader].same(
                nodes[j],
            ),
    decreases i - leader,
{
    if i > leader {
        lemma_members(nodes, leader, i - 1);
        let (front, all) = (members(nodes, leader, i - 1), members(nodes, leader, i));
        assert forall|j: int|
            #![trigger all.contains(j)]
            all.contains(j) <==> leader <= j < i && nodes[leader].same(nodes[j]) by {
            if nodes[leader].same(nodes[i - 1]) {
                assert(all[front.len() as int] == i - 1);
                if front.contains(j) {
                    let a = choose|a: int| 0 <= a < front.len() && front[a] == j;
                    assert(all[a] == j);
                }
                if all.contains(j) && j != i - 1 {
                    let a = choose|a: int| 0 <= a < all.len() && all[a] == j;
                    assert(front[a] == j);
                }
            } else {
                assert(all.contains(j) == front.contains(j));
            }
        }
    }
}

/// A part that belongs to no shape is the first of its class, and no part of its class belongs to
/// one.
proof fn lemma_class<M: Modulus>(
    nodes: Seq<EvaluationPlan<M>>,
    shapes: Seq<RepeatShape>,
    grouped: Seq<bool>,
    index: int,
)
    requires
        0 <= index < nodes.len() <= usize::MAX,
        grouped.len() == nodes.len(),
        !grouped[index],
        forall|i: int|
            0 <= i < nodes.len() && #[trigger] grouped[i] ==> is_grouped(nodes, shapes, i),
        forall|s: int| 0 <= s < shapes.len() ==> (#[trigger] shapes[s]).first_occurrence < index,
        forall|i: int, j: int|
            0 <= i < index && i < j < nodes.len() && (#[trigger] nodes[i]).same(
                #[trigger] nodes[j],
            ) ==> grouped[j],
    ensures
        forall|j: int| 0 <= j < index ==> !(#[trigger] nodes[j]).same(nodes[index]),
        forall|j: int|
            index <= j < nodes.len() && nodes[index].same(#[trigger] nodes[j]) ==> !grouped[j],
{
    assert forall|j: int|
        index <= j < nodes.len() && nodes[index].same(#[trigger] nodes[j]) implies !grouped[j] by {
        if grouped[j] {
            assert(is_grouped(nodes, shapes, j));
            let s = choose|s: int|
                0 <= s < shapes.len() && nodes[(
                #[trigger] shapes[s]).first_occurrence as int].same(nodes[j]);
            let first = shapes[s].first_occurrence as int;
            nodes[index].lemma_same(nodes[j]);
            nodes[first].lemma_same_transitive(nodes[j], nodes[index]);
        }
    }
}

/// A part like one that belongs to a shape comes after the first of that shape.
proof fn lemma_grouped_class<M: Modulus>(
    nodes: Seq<EvaluationPlan<M>>,
    shapes: Seq<RepeatShape>,
    i: int,
    j: int,
)
    requires
        0 <= i < j < nodes.len(),
        nodes[i].same(nodes[j]),
        is_grouped(nodes, shapes, i),
        forall|s: int| 0 <= s < shapes.len() ==> (#[trigger] shapes[s]).first_occurrence < i,
    ensures
        exists|k: int| 0 <= k < i && (#[trigger] nodes[k]).same(nodes[j]),
{
    let s = choose|s: int|
        0 <= s < shapes.len() && nodes[(#[trigger] shapes[s]).first_occurrence as int].same(
            nodes[i],
        );
    let first = shapes[s].first_occurrence as int;
    nodes[first].lemma_same_transitive(nodes[i], nodes[j]);
}

/// Some shape saves a multiplication.
spec fn has_useful(shapes: Seq<RepeatShape>) -> bool {
    exists|s: int| 0 <= s < shapes.len() && (#[trigger] shapes[s]).saved_multiplications >= 1
}

/// The part belongs to one of the shapes.
spec fn is_grouped<M: Modulus>(
    nodes: Seq<EvaluationPlan<M>>,
    shapes: Seq<RepeatShape>,
    i: int,
) -> bool {
    exists|s: int|
        0 <= s < shapes.len() && nodes[(#[trigger] shapes[s]).first_occurrence as int].same(nodes[i])
}

proof fn lemma_grouped_useful<M: Modulus>(
    nodes: Seq<EvaluationPlan<M>>,
    shapes: Seq<RepeatShape>,
    i: int,
)
    requires
        forall|s: int| 0 <= s < shapes.len() ==> is_shape(nodes, #[trigger] shapes[s]),
        is_grouped(nodes, shapes, i),
        nodes[i].cost().0 >= 1,
    ensures
        has_useful(shapes),
{
    let s = choose|s: int|
        0 <= s < shapes.len() && nodes[(#[trigger] shapes[s]).first_occurrence as int].same(
            nodes[i],
        );
    nodes[shapes[s].first_occurrence as int].lemma_same(nodes[i]);
    assert(is_shape(nodes, shapes[s]));
    assert(shapes[s].saved_multiplications >= 1);
}

/// A repeat of an ungrouped part shows up among the matching parts, unless its partner already
/// belongs to a shape.
proof fn lemma_repeat_matches<M: Modulus>(
    nodes: Seq<EvaluationPlan<M>>,
    shapes: Seq<RepeatShape>,
    grouped: Seq<bool>,
    index: int,
    matching: Seq<usize>,
)
    requires
        0 <= index < nodes.len() <= usize::MAX,
        grouped.len() == nodes.len(),
        !grouped[index],
        forall|s: int| 0 <= s < shapes.len() ==> is_shape(nodes, #[trigger] shapes[s]),
        forall|i: int|
            0 <= i < nodes.len() && #[trigger] grouped[i] ==> is_grouped(nodes, shapes, i),
        forall|j: int|
            index <= j < nodes.len() && !grouped[j] && nodes[index].same(#[trigger] nodes[j])
                ==> matching.contains(j as usize),
    ensures
        forall|j: int| #[trigger]
            is_repeat(nodes, index, j) ==> has_useful(shapes) || matching.len() > 1,
{
    assert forall|j: int| #[trigger] is_repeat(nodes, index, j) implies has_useful(shapes)
        || matching.len() > 1 by {
        nodes[index].lemma_same(nodes[j]);
        if grouped[j] {
            lemma_grouped_useful(nodes, shapes, j);
        } else {
            assert(matching.contains(index as usize));
            assert(matching.contains(j as usize));
            let a = choose|a: int| 0 <= a < matching.len() && matching[a] == index as usize;
            let b = choose|b: int| 0 <= b < matching.len() && matching[b] == j as usize;
            assert(a != b);
        }
    }
}

fn mark_positions(marks: &mut Vec<bool>, positions: &Vec<usize>)
    requires
        forall|a: int| 0 <= a < positions@.len() ==> (#[trigger] positions@[a]) < old(marks)@.len(),
    ensures
        final(marks)@.len() == old(marks)@.len(),
        forall|i: int|
            0 <= i < old(marks)@.len() ==> #[trigger] final(marks)@[i] == (old(marks)@[i]
                || positions@.contains(i as usize)),
{
    let ghost before = marks@;
    let mut a: usize = 0;
    while a < positions.len()
        invariant
            a <= positions@.len(),
            marks@.len() == before.len(),
            forall|k: int| 0 <= k < positions@.len() ==> (#[trigger] positions@[k]) < before.len(),
            forall|i: int|
                0 <= i < before.len() ==> #[trigger] marks@[i] == (before[i] || exists|b: int|
                    0 <= b < a && #[trigger] positions@[b] == i),
        decreases positions@.len() - a,
    {
        let ghost mid = marks@;
        marks.set(positions[a], true);
        proof {
            assert forall|i: int| 0 <= i < before.len() implies #[trigger] marks@[i] == (before[i]
                || exists|b: int| 0 <= b < a + 1 && #[trigger] positions@[b] == i) by {
                if i == positions@[a as int] {
                    assert(positions@[a as int] == i);
                } else {
                    assert(mid[i] == (before[i] || exists|b: int|
                        0 <= b < a && #[trigger] positions@[b] == i));
                }
            }
        }
        a += 1;
    }
    proof {
        assert(before.len() == marks.len());
        assert forall|i: int| 0 <= i < before.len() implies #[trigger] marks@[i] == (before[i]
            || positions@.contains(i as usize)) by {
            if positions@.contains(i as usize) {
                let b = choose|b: int| 0 <= b < positions@.len() && positions@[b] == i as usize;
                assert(positions@[b] == i);
            }
        }
    }
}

/// The actions cover disjoint parts, each slot is stored to once, and loads read the values of
/// parts that are built alike.
spec fn is_choice<M: Modulus>(
    nodes: Seq<EvaluationPlan<M>>,
    actions: Seq<Option<CacheAction>>,
    slots: int,
) -> bool {
    &&& actions.len() == nodes.len()
    &&& fresh(actions, slots)
    &&& forall|i: int|
        0 <= i < actions.len() && (#[trigger] actions[i]) is Some ==> actions[i].unwrap().end == i
            + nodes[i].nodes().len()
    &&& forall|i: int, k: int|
        0 <= i < k < actions.len() && (#[trigger] actions[i]) is Some && (
        #[trigger] actions[k]) is Some ==> actions[i].unwrap().end <= k
    &&& forall|i: int, j: int| #[trigger] is_source(actions, i, j) ==> nodes[i].same(nodes[j])
}

proof fn lemma_add_store<M: Modulus>(
    nodes: Seq<EvaluationPlan<M>>,
    actions: Seq<Option<CacheAction>>,
    slots: int,
    j: int,
    action: CacheAction,
)
    requires
        is_choice(nodes, actions, slots),
        is_free(nodes, actions, j),
        action.store,
        action.slot == slots,
        0 <= slots,
        action.end == j + nodes[j].nodes().len(),
    ensures
        is_choice(nodes, actions.update(j, Some(action)), slots + 1),
        is_store(actions.update(j, Some(action)), j),
{
    let after = actions.update(j, Some(action));
    assert forall|i: int| 0 <= i < after.len() && i != j implies #[trigger] after[i]
        == actions[i] by {}
    assert forall|i: int, k: int|
        0 <= i < k < after.len() && #[trigger] is_store(after, i) && #[trigger] is_store(
            after,
            k,
        ) implies after[i].unwrap().slot != after[k].unwrap().slot by {
        if i != j && k != j {
            assert(is_store(actions, i) && is_store(actions, k));
        } else if i != j {
            assert(actions[i] is Some);
        } else {
            assert(actions[k] is Some);
        }
    }
    assert forall|i: int, l: int| #[trigger] is_source(after, i, l) implies is_source(
        actions,
        i,
        l,
    ) by {
        assert(l != j);
        assert(actions[l] is Some);
        if i == j {
            assert(actions[l].unwrap().slot < slots);
        }
        assert forall|k: int| i < k < l && #[trigger] is_store(actions, k) implies actions[k].unwrap().slot
            != actions[l].unwrap().slot by {
            assert(is_store(after, k));
        }
    }
    assert forall|l: int| 0 <= l < after.len() && #[trigger] is_load(after, l) implies exists|
        i: int,
    | is_source(after, i, l) by {
        assert(l != j);
        assert(is_load(actions, l));
        let i = choose|i: int| is_source(actions, i, l);
        assert(actions[l] is Some);
        assert forall|k: int| i < k < l && #[trigger] is_store(after, k) implies after[k].unwrap().slot
            != after[l].unwrap().slot by {
            if k != j {
                assert(is_store(actions, k));
            }
        }
        assert(is_store(after, i));
        assert(is_source(after, i, l));
    }
    assert forall|s: int| 0 <= s < slots + 1 implies #[trigger] is_stored(after, s) by {
        if s == slots {
            assert(is_store(after, j));
        } else {
            assert(is_stored(actions, s));
            let i = choose|i: int|
                0 <= i < actions.len() && #[trigger] is_store(actions, i)
                    && actions[i].unwrap().slot == s;
            assert(is_store(after, i));
        }
    }
}

proof fn lemma_add_load<M: Modulus>(
    nodes: Seq<EvaluationPlan<M>>,
    actions: Seq<Option<CacheAction>>,
    slots: int,
    i: int,
    j: int,
    action: CacheAction,
)
    requires
        is_choice(nodes, actions, slots),
        is_free(nodes, actions, j),
        !action.store,
        0 <= i < j,
        is_store(actions, i),
        action.slot == actions[i].unwrap().slot,
        nodes[i].same(nodes[j]),
        action.end == j + nodes[j].nodes().len(),
    ensures
        is_choice(nodes, actions.update(j, Some(action)), slots),
        is_store(actions.update(j, Some(action)), i),
        actions.update(j, Some(action))[i] == actions[i],
{
    let after = actions.update(j, Some(action));
    assert(actions[i] is Some);
    assert forall|k: int| 0 <= k < after.len() implies #[trigger] is_store(after, k) == is_store(
        actions,
        k,
    ) by {}
    assert forall|a: int, k: int|
        0 <= a < k < after.len() && #[trigger] is_store(after, a) && #[trigger] is_store(
            after,
            k,
        ) implies after[a].unwrap().slot != after[k].unwrap().slot by {
        assert(is_store(actions, a) && is_store(actions, k));
    }
    assert(is_source(after, i, j)) by {
        assert(is_store(after, i));
        assert forall|k: int| i < k < j && #[trigger] is_store(after, k) implies after[k].unwrap().slot
            != after[j].unwrap().slot by {
            assert(is_store(actions, k) && is_store(actions, i));
        }
    }
    assert forall|a: int, l: int| #[trigger] is_source(after, a, l) implies nodes[a].same(
        nodes[l],
    ) by {
        assert(is_store(actions, a));
        if l == j {
            assert(a == i) by {
                if a != i {
                    assert(is_store(actions, a) && is_store(actions, i));
                }
            }
        } else {
            assert forall|k: int| a < k < l && #[trigger] is_store(actions, k) implies actions[k].unwrap().slot
                != actions[l].unwrap().slot by {
                assert(is_store(after, k));
            }
            assert(is_source(actions, a, l));
        }
    }
    assert forall|l: int| 0 <= l < after.len() && #[trigger] is_load(after, l) implies exists|
        a: int,
    | is_source(after, a, l) by {
        if l != j {
            assert(is_load(actions, l));
            let a = choose|a: int| is_source(actions, a, l);
            assert(is_store(after, a));
            assert forall|k: int| a < k < l && #[trigger] is_store(after, k) implies after[k].unwrap().slot
                != after[l].unwrap().slot by {
                assert(is_store(actions, k));
            }
            assert(is_source(after, a, l));
        }
    }
    assert forall|s: int| 0 <= s < slots implies #[trigger] is_stored(after, s) by {
        assert(is_stored(actions, s));
        let a = choose|a: int|
            0 <= a < actions.len() && #[trigger] is_store(actions, a) && actions[a].unwrap().slot
                == s;
        assert(is_store(after, a));
    }
}

/// Parts that are built alike do not overlap.
proof fn lemma_no_overlap<M: Modulus>(nodes: Seq<EvaluationPlan<M>>, i: int, j: int)
    requires
        nested(nodes),
        0 <= i < j < nodes.len(),
        nodes[i].same(nodes[j]),
    ensures
        i + nodes[i].nodes().len() <= j,
{
    nodes[i].lemma_same(nodes[j]);
    let len = nodes[i].nodes().len() as int;
    assert(is_nested_at(nodes, i));
    if j < i + len {
        let inner = nodes[i].nodes();
        assert(nodes.subrange(i, i + len)[j - i] == nodes[j]);
        lemma_nested(nodes[i]);
        assert(is_nested_at(inner, j - i));
    }
}

/// The covered positions are all parts of the actions.
spec fn is_cover(actions: Seq<Option<CacheAction>>, covered: Seq<bool>) -> bool {
    &&& forall|i: int, x: int|
        0 <= i < actions.len() && (#[trigger] actions[i]) is Some && i <= x
            < actions[i].unwrap().end && x < covered.len() ==> #[trigger] covered[x]
    &&& forall|x: int|
        0 <= x < covered.len() && #[trigger] covered[x] ==> exists|i: int|
            0 <= i <= x && i < actions.len() && (#[trigger] actions[i]) is Some && x
                < actions[i].unwrap().end
}

/// The positions of a shape whose parts are not covered.
fn uncovered_positions<M: Modulus>(
    occurrences: &Vec<PlanOccurrence<M>>,
    covered: &Vec<bool>,
    positions: &Vec<usize>,
    Ghost(nodes): Ghost<Seq<EvaluationPlan<M>>>,
    Ghost(actions): Ghost<Seq<Option<CacheAction>>>,
) -> (r: Vec<usize>)
    requires
        nodes.len() == occurrences@.len(),
        listed(occurrences@, 0, nodes),
        nested(nodes),
        covered@.len() == nodes.len(),
        actions.len() == nodes.len(),
        is_cover(actions, covered@),
        forall|i: int|
            0 <= i < actions.len() && (#[trigger] actions[i]) is Some ==> actions[i].unwrap().end
                == i + nodes[i].nodes().len(),
        are_alike(nodes, positions@),
    ensures
        ints(r@) == free_of(nodes, actions, ints(positions@), positions@.len() as int),
        are_alike(nodes, r@),
        forall|a: int| 0 <= a < r@.len() ==> is_free(nodes, actions, #[trigger] r@[a] as int),
        (forall|x: int| 0 <= x < covered@.len() ==> !#[trigger] covered@[x]) ==> r@ == positions@,
        forall|a: int| 0 <= a < r@.len() ==> positions@.contains(#[trigger] r@[a]),
{
    let mut r: Vec<usize> = Vec::new();
    let mut a: usize = 0;
    assert(ints(r@) =~= free_of(nodes, actions, ints(positions@), 0));
    while a < positions.len()
        invariant
            a <= positions@.len(),
            nodes.len() == occurrences@.len(),
            listed(occurrences@, 0, nodes),
            nested(nodes),
            covered@.len() == nodes.len(),
            actions.len() == nodes.len(),
            is_cover(actions, covered@),
            forall|i: int|
                0 <= i < actions.len() && (#[trigger] actions[i]) is Some
                    ==> actions[i].unwrap().end == i + nodes[i].nodes().len(),
            are_alike(nodes, positions@),
            are_alike(nodes, r@),
            ints(r@) == free_of(nodes, actions, ints(positions@), a as int),
            forall|b: int|
                0 <= b < r@.len() ==> is_free(nodes, actions, #[trigger] r@[b] as int),
            forall|b: int|
                0 <= b < r@.len() ==> exists|c: int|
                    0 <= c < a && #[trigger] positions@[c] == #[trigger] r@[b],
            (forall|x: int| 0 <= x < covered@.len() ==> !#[trigger] covered@[x]) ==> r@
                == positions@.take(a as int),
        decreases positions@.len() - a,
    {
        let position = positions[a];
        proof {
            assert(positions@[a as int] < nodes.len());
            assert(is_listed_at(occurrences@, 0, nodes[position as int], position as int));
            assert(is_nested_at(nodes, position as int));
            assert(positions@.take(a + 1) =~= positions@.take(a as int).push(position));
        }
        let end = occurrences[position].end;
        let ghost before = r@;
        proof {
            lemma_free_uncovered(nodes, actions, covered@, position as int);
            assert(ints(positions@)[a as int] == position);
        }
        if none_covered(covered, position, end) {
            r.push(position);
            proof {
                assert(ints(r@) =~= ints(before).push(position as int));
                lemma_uncovered_free(nodes, actions, covered@, position as int);
                assert forall|b: int, c: int| 0 <= b < c < r@.len() implies (#[trigger] r@[b]) < (
                #[trigger] r@[c]) && nodes[r@[b] as int].same(nodes[r@[c] as int]) by {
                    if c == before.len() {
                        let d = choose|d: int|
                            0 <= d < a && #[trigger] positions@[d] == before[b];
                        assert(r@[b] == before[b]);
                        assert(positions@[d] < positions@[a as int]);
                    } else {
                        assert(before[b] < before[c]);
                    }
                }
                assert forall|b: int| 0 <= b < r@.len() implies exists|c: int|
                    0 <= c < a + 1 && #[trigger] positions@[c] == #[trigger] r@[b] by {
                    if b < before.len() {
                        let d = choose|d: int| 0 <= d < a && #[trigger] positions@[d] == before[b];
                        assert(positions@[d] == r@[b]);
                    } else {
                        assert(positions@[a as int] == r@[b]);
                    }
                }
            }
        } else {
            assert forall|b: int| 0 <= b < r@.len() implies exists|c: int|
                0 <= c < a + 1 && #[trigger] positions@[c] == #[trigger] r@[b] by {
                let d = choose|d: int| 0 <= d < a && #[trigger] positions@[d] == before[b];
                assert(positions@[d] == r@[b]);
            }
        }
        a += 1;
    }
    assert(positions@.take(a as int) =~= positions@);
    r
}

/// No part of a free part is covered.
proof fn lemma_free_uncovered<M: Modulus>(
    nodes: Seq<EvaluationPlan<M>>,
    actions: Seq<Option<CacheAction>>,
    covered: Seq<bool>,
    j: int,
)
    requires
        nested(nodes),
        covered.len() == nodes.len(),
        actions.len() == nodes.len(),
        0 <= j < nodes.len(),
        is_cover(actions, covered),
    ensures
        is_free(nodes, actions, j) ==> forall|x: int|
            j <= x < j + nodes[j].nodes().len() ==> !#[trigger] covered[x],
{
    assert(is_nested_at(nodes, j));
    if is_free(nodes, actions, j) {
        assert forall|x: int| j <= x < j + nodes[j].nodes().len() implies !#[trigger] covered[x] by {
            if covered[x] {
                let i = choose|i: int|
                    0 <= i <= x && i < actions.len() && (#[trigger] actions[i]) is Some && x
                        < actions[i].unwrap().end;
                assert(actions[i] is Some);
            }
        }
    }
}

proof fn lemma_uncovered_free<M: Modulus>(
    nodes: Seq<EvaluationPlan<M>>,
    actions: Seq<Option<CacheAction>>,
    covered: Seq<bool>,
    j: int,
)
    requires
        nested(nodes),
        covered.len() == nodes.len(),
        actions.len() == nodes.len(),
        0 <= j < nodes.len(),
        is_cover(actions, covered),
        forall|i: int|
            0 <= i < actions.len() && (#[trigger] actions[i]) is Some ==> actions[i].unwrap().end
                == i + nodes[i].nodes().len(),
        forall|x: int| j <= x < j + nodes[j].nodes().len() ==> !#[trigger] covered[x],
    ensures
        is_free(nodes, actions, j),
{
    assert(is_nested_at(nodes, j));
    assert(!covered[j]);
    if actions[j] is Some {
        assert(covered[j]);
    }
    assert forall|k: int| 0 <= k < actions.len() && (#[trigger] actions[k]) is Some implies if k < j {
        actions[k].unwrap().end <= j
    } else {
        j + nodes[j].nodes().len() <= k
    } by {
        assert(is_nested_at(nodes, k));
        if k < j {
            if actions[k].unwrap().end > j {
                assert(covered[j]);
            }
        } else if k < j + nodes[j].nodes().len() {
            assert(covered[k]);
        }
    }
}

fn none_covered(covered: &Vec<bool>, start: usize, end: usize) -> (r: bool)
    requires
        start <= end <= covered@.len(),
    ensures
        r == forall|x: int| start <= x < end ==> !#[trigger] covered@[x],
{
    let mut x: usize = start;
    while x < end
        invariant
            start <= x <= end <= covered@.len(),
            forall|y: int| start <= y < x ==> !#[trigger] covered@[y],
        decreases end - x,
    {
        if covered[x] {
            return false;
        }
        x += 1;
    }
    true
}

/// Adds the actions for the given positions of one shape.
fn add_actions<M: Modulus>(
    occurrences: &Vec<PlanOccurrence<M>>,
    positions: &Vec<usize>,
    actions: &mut Vec<Option<CacheAction>>,
    covered: &mut Vec<bool>,
    slot: usize,
    Ghost(nodes): Ghost<Seq<EvaluationPlan<M>>>,
)
    requires
        nodes.len() == occurrences@.len(),
        listed(occurrences@, 0, nodes),
        nested(nodes),
        old(covered)@.len() == nodes.len(),
        slot < usize::MAX,
        is_choice(nodes, old(actions)@, slot as int),
        is_cover(old(actions)@, old(covered)@),
        are_alike(nodes, positions@),
        positions@.len() >= 1,
        forall|a: int|
            0 <= a < positions@.len() ==> is_free(
                nodes,
                old(actions)@,
                #[trigger] positions@[a] as int,
            ),
    ensures
        final(actions)@ == with_actions(
            nodes,
            old(actions)@,
            ints(positions@),
            slot,
            positions@.len() as int,
        ),
        is_choice(nodes, final(actions)@, slot + 1),
        is_cover(final(actions)@, final(covered)@),
        final(covered)@.len() == nodes.len(),
{
    let ghost before = actions@;
    let mut a: usize = 0;
    while a < positions.len()
        invariant
            a <= positions@.len(),
            actions@ == with_actions(nodes, before, ints(positions@), slot, a as int),
            nodes.len() == occurrences@.len(),
            listed(occurrences@, 0, nodes),
            nested(nodes),
            covered@.len() == nodes.len(),
            before.len() == nodes.len(),
            slot < usize::MAX,
            is_choice(
                nodes,
                actions@,
                if a == 0 {
                    slot as int
                } else {
                    slot + 1
                },
            ),
            is_cover(actions@, covered@),
            are_alike(nodes, positions@),
            forall|b: int|
                0 <= b < positions@.len() ==> is_free(
                    nodes,
                    before,
                    #[trigger] positions@[b] as int,
                ),
            forall|i: int|
                0 <= i < nodes.len() && (#[trigger] actions@[i]) is Some ==> before[i] == actions@[i]
                    || exists|b: int| 0 <= b < a && #[trigger] positions@[b] == i,
            a > 0 ==> is_store(actions@, positions@[0] as int)
                && actions@[positions@[0] as int].unwrap().slot == slot,
        decreases positions@.len() - a,
    {
        let position = positions[a];
        proof {
            assert(positions@[a as int] < nodes.len());
            assert(is_listed_at(occurrences@, 0, nodes[position as int], position as int));
            assert(is_nested_at(nodes, position as int));
        }
        let end = occurrences[position].end;
        let action = CacheAction { slot, store: a == 0, end };
        let ghost (mid, covered0) = (actions@, covered@);
        proof {
            lemma_still_free(nodes, before, mid, positions@, a as int);
            if a == 0 {
                lemma_add_store(nodes, mid, slot as int, position as int, action);
            } else {
                assert(positions@[0] < positions@[a as int]);
                lemma_add_load(
                    nodes,
                    mid,
                    slot + 1,
                    positions@[0] as int,
                    position as int,
                    action,
                );
            }
        }
        assert(ints(positions@)[a as int] == position);
        actions.set(position, Some(action));
        fill_claimed(covered, position, end);
        proof {
            assert forall|x: int| 0 <= x < covered@.len() && #[trigger] covered@[x] implies exists|
                i: int,
            |
                0 <= i <= x && i < actions@.len() && (#[trigger] actions@[i]) is Some && x
                    < actions@[i].unwrap().end by {
                if position <= x < end {
                    assert(actions@[position as int] is Some);
                } else {
                    assert(covered0[x]);
                    let i = choose|i: int|
                        0 <= i <= x && i < mid.len() && (#[trigger] mid[i]) is Some && x
                            < mid[i].unwrap().end;
                    assert(actions@[i] == mid[i]);
                }
            }
            assert forall|i: int, x: int|
                0 <= i < actions@.len() && (#[trigger] actions@[i]) is Some && i <= x
                    < actions@[i].unwrap().end && x < covered@.len() implies #[trigger] covered@[x] by {
                if i != position {
                    assert(mid[i] is Some);
                    assert(covered0[x]);
                }
            }
            assert forall|i: int|
                0 <= i < nodes.len() && (#[trigger] actions@[i]) is Some implies before[i]
                == actions@[i] || exists|b: int| 0 <= b < a + 1 && #[trigger] positions@[b] == i by {
                if i == position {
                    assert(positions@[a as int] == i);
                } else {
                    assert(mid[i] == actions@[i]);
                    if before[i] != mid[i] {
                        let b = choose|b: int| 0 <= b < a && #[trigger] positions@[b] == i;
                        assert(positions@[b] == i);
                    }
                }
            }
        }
        a += 1;
    }
}

proof fn lemma_still_free<M: Modulus>(
    nodes: Seq<EvaluationPlan<M>>,
    before: Seq<Option<CacheAction>>,
    actions: Seq<Option<CacheAction>>,
    positions: Seq<usize>,
    a: int,
)
    requires
        nested(nodes),
        before.len() == nodes.len(),
        actions.len() == nodes.len(),
        are_alike(nodes, positions),
        0 <= a < positions.len(),
        is_free(nodes, before, positions[a] as int),
        forall|i: int|
            0 <= i < nodes.len() && (#[trigger] actions[i]) is Some ==> before[i] == actions[i]
                || exists|b: int| 0 <= b < a && #[trigger] positions[b] == i,
        forall|i: int|
            0 <= i < actions.len() && (#[trigger] actions[i]) is Some ==> actions[i].unwrap().end
                == i + nodes[i].nodes().len(),
    ensures
        is_free(nodes, actions, positions[a] as int),
{
    let j = positions[a] as int;
    if actions[j] is Some {
        let b = choose|b: int| 0 <= b < a && #[trigger] positions[b] == j;
        assert(positions[b] < positions[a]);
    }
    assert forall|k: int| 0 <= k < actions.len() && (#[trigger] actions[k]) is Some implies if k < j {
        actions[k].unwrap().end <= j
    } else {
        j + nodes[j].nodes().len() <= k
    } by {
        if before[k] == actions[k] {
            assert(before[k] is Some);
        } else {
            let b = choose|b: int| 0 <= b < a && #[trigger] positions[b] == k;
            assert(positions[b] < positions[a]);
            lemma_no_overlap(nodes, k, j);
        }
    }
}

/// Chooses what is cached, the largest savings first.
fn choose_actions<M: Modulus>(
    occurrences: &Vec<PlanOccurrence<M>>,
    Ghost(nodes): Ghost<Seq<EvaluationPlan<M>>>,
) -> (r: (Vec<Option<CacheAction>>, usize))
    requires
        nodes.len() == occurrences@.len(),
        listed(occurrences@, 0, nodes),
        nested(nodes),
    ensures
        is_choice(nodes, r.0@, r.1 as int),
        exists|leaders: Seq<int>| #[trigger]
            are_leaders(nodes, leaders) && chosen(nodes, leaders, leaders.len() as int) == (
                r.0@,
                r.1 as nat,
            ),
        r.1 > 0 <==> repeats(nodes),
{
    let n = occurrences.len();
    let shapes = repeat_shapes(occurrences, Ghost(nodes));
    let mut keys: Vec<(usize, usize, usize)> = Vec::new();
    let mut s: usize = 0;
    while s < shapes.len()
        invariant
            s <= shapes@.len(),
            keys@.len() == s,
            forall|k: int|
                0 <= k < s ==> (#[trigger] keys@[k]) == (
                    (usize::MAX - shapes@[k].saved_multiplications) as usize,
                    (usize::MAX - shapes@[k].saved_visits) as usize,
                    shapes@[k].first_occurrence,
                ),
        decreases shapes@.len() - s,
    {
        keys.push(
            (
                usize::MAX - shapes[s].saved_multiplications,
                usize::MAX - shapes[s].saved_visits,
                shapes[s].first_occurrence,
            ),
        );
        s += 1;
    }
    let order = sorted_order(&keys);
    let mut actions: Vec<Option<CacheAction>> = vec![None; n];
    let mut covered: Vec<bool> = vec![false; n];
    let mut cache_slots: usize = 0;
    let ghost leaders = Seq::new(
        order@.len(),
        |o: int| shapes@[order@[o] as int].first_occurrence as int,
    );
    assert(actions@ =~= chosen(nodes, leaders, 0).0);
    let mut o: usize = 0;
    while o < order.len()
        invariant
            o <= order@.len(),
            cache_slots <= o,
            n == occurrences@.len(),
            n == nodes.len(),
            listed(occurrences@, 0, nodes),
            nested(nodes),
            is_order(order@, keys@),
            keys@.len() == shapes@.len(),
            forall|s: int| 0 <= s < shapes@.len() ==> is_shape(nodes, #[trigger] shapes@[s]),
            is_choice(nodes, actions@, cache_slots as int),
            leaders.len() == order@.len(),
            forall|a: int|
                0 <= a < order@.len() ==> #[trigger] leaders[a]
                    == shapes@[order@[a] as int].first_occurrence,
            chosen(nodes, leaders, o as int) == (actions@, cache_slots as nat),
            is_cover(actions@, covered@),
            covered@.len() == n,
            o == 0 ==> forall|x: int| 0 <= x < n ==> !#[trigger] covered@[x],
            o > 0 && shapes@[order@[0] as int].saved_multiplications >= 1 ==> cache_slots > 0,
            cache_slots > 0 ==> repeats(nodes),
        decreases order@.len() - o,
    {
        assert(order@[o as int] < keys@.len());
        let shape = &shapes[order[o]];
        assert(is_shape(nodes, *shape));
        let positions = uncovered_positions(
            occurrences,
            &covered,
            &shape.occurrences,
            Ghost(nodes),
            Ghost(actions@),
        );
        let ghost all = members(nodes, leaders[o as int], n as int);
        proof {
            assert(leaders[o as int] == shape.first_occurrence);
            assert(ints(positions@) == free_of(nodes, actions@, all, all.len() as int));
        }
        if positions.len() >= 2 {
            let first = positions[0];
            proof {
                assert(shape.occurrences@.contains(positions@[0]));
                let a = choose|a: int|
                    0 <= a < shape.occurrences@.len() && shape.occurrences@[a] == positions@[0];
                if a > 0 {
                    assert(nodes[shape.occurrences@[0] as int].same(nodes[first as int]));
                    nodes[shape.first_occurrence as int].lemma_same(nodes[first as int]);
                }
                assert(positions@[0] < nodes.len());
                assert(is_listed_at(occurrences@, 0, nodes[first as int], first as int));
            }
            let cost = plan_cost(occurrences[first].plan);
            if capped_product(positions.len() - 1, cost.0) >= MIN_CSE_SAVED_MULTIPLICATIONS {
                proof {
                    assert(positions@[0] < positions@[1]);
                    assert(is_repeat(nodes, positions@[0] as int, positions@[1] as int));
                    assert(order.len() == order@.len());
                }
                add_actions(
                    occurrences,
                    &positions,
                    &mut actions,
                    &mut covered,
                    cache_slots,
                    Ghost(nodes),
                );
                cache_slots += 1;
            }
        }
        o += 1;
    }
    proof {
        lemma_leaders(nodes, shapes@, keys@, order@, leaders);
        if repeats(nodes) {
            let s = choose|s: int|
                0 <= s < shapes@.len() && (#[trigger] shapes@[s]).saved_multiplications >= 1;
            assert(order@.contains(s as usize));
            let a = choose|a: int| 0 <= a < order@.len() && order@[a] == s as usize;
            if a > 0 {
                assert(key_le(keys@[order@[0] as int], keys@[order@[a] as int]));
            }
            assert(order@[0] < keys@.len());
            assert(shapes@[order@[0] as int].saved_multiplications >= 1);
        }
    }
    (actions, cache_slots)
}

/// The first parts of the shapes in the order of their keys are the repeated parts by their
/// savings.
proof fn lemma_leaders<M: Modulus>(
    nodes: Seq<EvaluationPlan<M>>,
    shapes: Seq<RepeatShape>,
    keys: Seq<(usize, usize, usize)>,
    order: Seq<usize>,
    leaders: Seq<int>,
)
    requires
        shapes.len() <= usize::MAX,
        keys.len() == shapes.len(),
        is_order(order, keys),
        leaders.len() == order.len(),
        forall|s: int| 0 <= s < shapes.len() ==> is_shape(nodes, #[trigger] shapes[s]),
        forall|s: int, t: int|
            0 <= s < t < shapes.len() ==> (#[trigger] shapes[s]).first_occurrence != (
            #[trigger] shapes[t]).first_occurrence,
        forall|i: int| #[trigger]
            is_leader(nodes, i) ==> exists|s: int|
                0 <= s < shapes.len() && (#[trigger] shapes[s]).first_occurrence == i,
        forall|k: int|
            0 <= k < keys.len() ==> (#[trigger] keys[k]) == (
                (usize::MAX - shapes[k].saved_multiplications) as usize,
                (usize::MAX - shapes[k].saved_visits) as usize,
                shapes[k].first_occurrence,
            ),
        forall|a: int|
            0 <= a < order.len() ==> #[trigger] leaders[a]
                == shapes[order[a] as int].first_occurrence,
    ensures
        are_leaders(nodes, leaders),
{
    assert forall|a: int| 0 <= a < leaders.len() implies is_leader(nodes, #[trigger] leaders[a])
        && savings_key(nodes, leaders[a]) == keys[order[a] as int] by {
        assert(order[a] < keys.len());
        assert(is_shape(nodes, shapes[order[a] as int]));
    }
    assert forall|a: int, b: int| 0 <= a < b < leaders.len() implies (#[trigger] leaders[a]) != (
    #[trigger] leaders[b]) && key_le(
        savings_key(nodes, leaders[a]),
        savings_key(nodes, leaders[b]),
    ) by {
        let (s, t) = (order[a] as int, order[b] as int);
        assert(order[a] != order[b]);
        assert(order[a] < keys.len() && order[b] < keys.len());
        if s < t {
            assert(shapes[s].first_occurrence != shapes[t].first_occurrence);
        } else {
            assert(shapes[t].first_occurrence != shapes[s].first_occurrence);
        }
    }
    assert forall|i: int| #[trigger] is_leader(nodes, i) implies leaders.contains(i) by {
        let s = choose|s: int| 0 <= s < shapes.len() && (#[trigger] shapes[s]).first_occurrence == i;
        assert(order.contains(s as usize));
        let a = choose|a: int| 0 <= a < order.len() && order[a] == s as usize;
        assert(leaders[a] == i);
    }
}

/// The positions go up.
pub open spec fn is_ascending(positions: Seq<int>) -> bool {
    forall|a: int, b: int|
        0 <= a < b < positions.len() ==> (#[trigger] positions[a]) < (#[trigger] positions[b])
}

proof fn lemma_members_ascend<M: Modulus>(nodes: Seq<EvaluationPlan<M>>, leader: int, i: int)
    requires
        0 <= leader,
    ensures
        is_ascending(members(nodes, leader, i)),
        forall|a: int|
            0 <= a < members(nodes, leader, i).len() ==> leader <= #[trigger] members(
                nodes,
                leader,
                i,
            )[a] < i,
    decreases i - leader,
{
    if i > leader {
        lemma_members_ascend(nodes, leader, i - 1);
    }
}

/// The free positions go up, and they are exactly the free ones of the positions.
proof fn lemma_free_of<M: Modulus>(
    nodes: Seq<EvaluationPlan<M>>,
    actions: Seq<Option<CacheAction>>,
    positions: Seq<int>,
    k: int,
)
    requires
        0 <= k <= positions.len(),
        is_ascending(positions),
    ensures
        is_ascending(free_of(nodes, actions, positions, k)),
        forall|a: int|
            0 <= a < free_of(nodes, actions, positions, k).len() ==> is_free(
                nodes,
                actions,
                #[trigger] free_of(nodes, actions, positions, k)[a],
            ),
        forall|a: int|
            0 <= a < free_of(nodes, actions, positions, k).len() ==> exists|b: int|
                0 <= b < k && #[trigger] positions[b] == #[trigger] free_of(
                    nodes,
                    actions,
                    positions,
                    k,
                )[a],
        forall|b: int|
            0 <= b < k && is_free(nodes, actions, #[trigger] positions[b]) ==> free_of(
                nodes,
                actions,
                positions,
                k,
            ).contains(positions[b]),
    decreases k,
{
    if k > 0 {
        lemma_free_of(nodes, actions, positions, k - 1);
        let (front, all) = (
            free_of(nodes, actions, positions, k - 1),
            free_of(nodes, actions, positions, k),
        );
        assert forall|a: int, b: int| 0 <= a < b < all.len() implies (#[trigger] all[a]) < (
        #[trigger] all[b]) by {
            assert(all[a] == front[a]);
            if b == front.len() {
                let c = choose|c: int| 0 <= c < k - 1 && #[trigger] positions[c] == front[a];
                assert(positions[c] < positions[k - 1]);
            } else {
                assert(front[a] < front[b]);
            }
        }
        assert forall|a: int| 0 <= a < all.len() implies exists|b: int|
            0 <= b < k && #[trigger] positions[b] == #[trigger] all[a] by {
            if a < front.len() {
                let c = choose|c: int| 0 <= c < k - 1 && #[trigger] positions[c] == front[a];
                assert(positions[c] == all[a]);
            } else {
                assert(positions[k - 1] == all[a]);
            }
        }
        assert forall|b: int|
            0 <= b < k && is_free(nodes, actions, #[trigger] positions[b]) implies all.contains(
            positions[b],
        ) by {
            if b < k - 1 {
                let a = choose|a: int| 0 <= a < front.len() && front[a] == positions[b];
                assert(all[a] == positions[b]);
            } else {
                assert(all[front.len() as int] == positions[b]);
            }
        }
    }
}

/// What is free after actions were added was free before, and has no new action.
proof fn lemma_with_actions<M: Modulus>(
    nodes: Seq<EvaluationPlan<M>>,
    actions: Seq<Option<CacheAction>>,
    positions: Seq<int>,
    slot: usize,
    k: int,
)
    requires
        actions.len() == nodes.len(),
        0 <= k <= positions.len(),
        is_ascending(positions),
        forall|a: int|
            0 <= a < positions.len() ==> is_free(nodes, actions, #[trigger] positions[a]),
    ensures
        with_actions(nodes, actions, positions, slot, k).len() == nodes.len(),
        forall|x: int|
            0 <= x < nodes.len() && (forall|a: int| 0 <= a < k ==> #[trigger] positions[a] != x)
                ==> #[trigger] with_actions(nodes, actions, positions, slot, k)[x] == actions[x],
        forall|x: int| #[trigger]
            is_free(nodes, with_actions(nodes, actions, positions, slot, k), x) ==> is_free(
                nodes,
                actions,
                x,
            ) && forall|a: int| 0 <= a < k ==> #[trigger] positions[a] != x,
    decreases k,
{
    if k > 0 {
        lemma_with_actions(nodes, actions, positions, slot, k - 1);
        let (front, all) = (
            with_actions(nodes, actions, positions, slot, k - 1),
            with_actions(nodes, actions, positions, slot, k),
        );
        let j = positions[k - 1];
        assert(is_free(nodes, actions, j));
        assert(front[j] == actions[j]) by {
            assert forall|a: int| 0 <= a < k - 1 implies #[trigger] positions[a] != j by {
                assert(positions[a] < positions[k - 1]);
            }
        }
        assert forall|x: int|
            0 <= x < nodes.len() && (forall|a: int|
                0 <= a < k ==> #[trigger] positions[a] != x) implies #[trigger] all[x]
            == actions[x] by {
            assert(positions[k - 1] != x);
            assert(front[x] == actions[x]);
        }
        assert forall|x: int| #[trigger] is_free(nodes, all, x) implies is_free(nodes, actions, x)
            && forall|a: int| 0 <= a < k ==> #[trigger] positions[a] != x by {
            assert(all[j] is Some);
            assert forall|i: int| 0 <= i < front.len() && (#[trigger] front[i]) is Some implies if i
                < x {
                front[i].unwrap().end <= x
            } else {
                x + nodes[x].nodes().len() <= i
            } by {
                assert(all[i] == front[i]);
            }
            assert(is_free(nodes, front, x));
        }
    }
}

/// Of every repeated part that takes a multiplication, at most one occurrence is left without an
/// action on it, on a part of it or on a part around it.
pub proof fn lemma_no_repeat_left<M: Modulus>(
    nodes: Seq<EvaluationPlan<M>>,
    leaders: Seq<int>,
    i: int,
    j: int,
)
    requires
        are_leaders(nodes, leaders),
        is_repeat(nodes, i, j),
    ensures
        !is_free(nodes, chosen(nodes, leaders, leaders.len() as int).0, i) || !is_free(
            nodes,
            chosen(nodes, leaders, leaders.len() as int).0,
            j,
        ),
{
    nodes[i].lemma_same(nodes[j]);
    let l = lemma_leader_of(nodes, i, j, i);
    let a = choose|a: int| 0 <= a < leaders.len() && leaders[a] == l;
    lemma_members(nodes, l, nodes.len() as int);
    nodes[l].lemma_same(nodes[i]);
    nodes[l].lemma_same_transitive(nodes[i], nodes[j]);
    assert(members(nodes, l, nodes.len() as int).contains(i));
    assert(members(nodes, l, nodes.len() as int).contains(j));
    lemma_left(nodes, leaders, leaders.len() as int, a, i, j);
}

/// The first part that is built like the repeated one.
proof fn lemma_leader_of<M: Modulus>(
    nodes: Seq<EvaluationPlan<M>>,
    i: int,
    j: int,
    k: int,
) -> (l: int)
    requires
        0 <= k <= i < j < nodes.len(),
        nodes[k].same(nodes[i]),
        nodes[i].same(nodes[j]),
    ensures
        is_leader(nodes, l),
        nodes[l].same(nodes[i]),
        l <= i,
    decreases k,
{
    if exists|m: int| 0 <= m < k && (#[trigger] nodes[m]).same(nodes[k]) {
        let m = choose|m: int| 0 <= m < k && (#[trigger] nodes[m]).same(nodes[k]);
        nodes[m].lemma_same_transitive(nodes[k], nodes[i]);
        lemma_leader_of(nodes, i, j, m)
    } else {
        let n = nodes.len() as int;
        lemma_members(nodes, k, n);
        nodes[k].lemma_same(nodes[i]);
        nodes[k].lemma_same_transitive(nodes[i], nodes[j]);
        let all = members(nodes, k, n);
        assert(all.contains(k) && all.contains(j));
        let a = choose|a: int| 0 <= a < all.len() && all[a] == k;
        let b = choose|b: int| 0 <= b < all.len() && all[b] == j;
        assert(a != b);
        k
    }
}

proof fn lemma_left<M: Modulus>(
    nodes: Seq<EvaluationPlan<M>>,
    leaders: Seq<int>,
    k: int,
    a: int,
    i: int,
    j: int,
)
    requires
        are_leaders(nodes, leaders),
        0 <= a < k <= leaders.len(),
        i != j,
        members(nodes, leaders[a], nodes.len() as int).contains(i),
        members(nodes, leaders[a], nodes.len() as int).contains(j),
        nodes[leaders[a]].cost().0 >= 1,
    ensures
        !is_free(nodes, chosen(nodes, leaders, k).0, i) || !is_free(
            nodes,
            chosen(nodes, leaders, k).0,
            j,
        ),
    decreases k,
{
    let n = nodes.len() as int;
    let (before, slots) = chosen(nodes, leaders, k - 1);
    lemma_chosen_len(nodes, leaders, k - 1);
    assert(is_leader(nodes, leaders[k - 1]));
    lemma_members_ascend(nodes, leaders[k - 1], n);
    let all = members(nodes, leaders[k - 1], n);
    lemma_free_of(nodes, before, all, all.len() as int);
    let free = free_of(nodes, before, all, all.len() as int);
    lemma_with_actions(nodes, before, free, slots as usize, free.len() as int);
    let after = chosen(nodes, leaders, k).0;
    if is_free(nodes, after, i) && is_free(nodes, after, j) {
        assert(is_free(nodes, before, i) && is_free(nodes, before, j));
        if a == k - 1 {
            let x = choose|x: int| 0 <= x < all.len() && all[x] == i;
            let y = choose|y: int| 0 <= y < all.len() && all[y] == j;
            assert(is_free(nodes, before, all[x]) && is_free(nodes, before, all[y]));
            assert(free.contains(i) && free.contains(j));
            let u = choose|u: int| 0 <= u < free.len() && free[u] == i;
            let v = choose|v: int| 0 <= v < free.len() && free[v] == j;
            assert(u != v);
            assert(free[u] == i);
        } else {
            lemma_left(nodes, leaders, k - 1, a, i, j);
        }
    }
}

proof fn lemma_chosen_len<M: Modulus>(nodes: Seq<EvaluationPlan<M>>, leaders: Seq<int>, k: int)
    requires
        are_leaders(nodes, leaders),
        k <= leaders.len(),
    ensures
        chosen(nodes, leaders, k).0.len() == nodes.len(),
    decreases k,
{
    if k > 0 {
        lemma_chosen_len(nodes, leaders, k - 1);
        let (before, slots) = chosen(nodes, leaders, k - 1);
        assert(is_leader(nodes, leaders[k - 1]));
        lemma_members_ascend(nodes, leaders[k - 1], nodes.len() as int);
        let all = members(nodes, leaders[k - 1], nodes.len() as int);
        lemma_free_of(nodes, before, all, all.len() as int);
        let free = free_of(nodes, before, all, all.len() as int);
        lemma_with_actions(nodes, before, free, slots as usize, free.len() as int);
    }
}

/// The actions are the chosen ones with their slots numbered anew, so that values that are not
/// needed at the same time share a slot: every load reads the value that was chosen for it,
/// and all slots are needed at one part.
pub open spec fn caches<M: Modulus>(
    c: Caching<M>,
    nodes: Seq<EvaluationPlan<M>>,
    leaders: Seq<int>,
    slots: nat,
) -> bool {
    let (actions, count) = chosen(nodes, leaders, leaders.len() as int);
    &&& c.valid()
    &&& c.nodes == nodes
    &&& c.slots == slots
    &&& are_leaders(nodes, leaders)
    &&& is_renumbering(actions, c.actions, count, slots)
    &&& same_but_slots(actions, c.actions)
    &&& forall|i: int, j: int| #[trigger]
        is_source(c.actions, i, j) <==> is_source(actions, i, j)
    &&& slots > 0 ==> exists|t: int|
        #![trigger all_live(c.actions, slots as int, t)]
        all_live(c.actions, slots as int, t)
}

/// The new plan is the old one with its most costly repeated parts stored once and loaded
/// wherever they are repeated.
pub open spec fn is_cached<M: Modulus>(
    new: EvaluationPlan<M>,
    old: EvaluationPlan<M>,
    slots: nat,
) -> bool {
    exists|c: Caching<M>, leaders: Seq<int>| #[trigger]
        caches(c, old.nodes(), leaders, slots) && rewritten(new, old, c.actions, 0)
}

/// The rewritten plan has the value of the plan, for any contents of the cache.
pub open spec fn computes<M: Modulus>(
    new: EvaluationPlan<M>,
    old: EvaluationPlan<M>,
    slots: nat,
) -> bool {
    &&& forall|row: Row, cache: Seq<int>|
        cache.len() == slots ==> congruent(
            (#[trigger] new.run(row, cache)).0,
            old.value(row),
            M::p(),
        ) && new.run(row, cache).1.len() == slots
    &&& forall|f: spec_fn(AstLeaf) -> bool|
        old.sound(f, 0) ==> #[trigger] new.sound(f, slots)
}

impl<M: Modulus> EvaluationPlan<M> {
    /// Caches the values of parts that occur more than once; returns the number of cache slots.
    ///
    /// Slots are used exactly if a part that takes a multiplication is repeated.
    pub fn cache_common_subexpressions(&mut self) -> (slots: usize)
        requires
            old(self).cache_free(),
        ensures
            computes(*final(self), *old(self), slots as nat),
            is_cached(*final(self), *old(self), slots as nat),
            slots > 0 <==> repeats(old(self).nodes()),
    {
        let (new, slots) = Self::with_cached_subexpressions(self);
        *self = new;
        slots
    }

    fn with_cached_subexpressions(plan: &Self) -> (r: (Self, usize))
        requires
            plan.cache_free(),
        ensures
            computes(r.0, *plan, r.1 as nat),
            is_cached(r.0, *plan, r.1 as nat),
            r.1 > 0 <==> repeats(plan.nodes()),
    {
        let ghost nodes = plan.nodes();
        let mut occurrences: Vec<PlanOccurrence<M>> = Vec::new();
        collect_plan_occurrences(plan, &mut occurrences);
        proof {
            lemma_nested(*plan);
        }
        let (mut actions, cache_slots) = choose_actions(&occurrences, Ghost(nodes));
        let ghost before = actions@;
        let ghost leaders = choose|leaders: Seq<int>| #[trigger]
            are_leaders(nodes, leaders) && chosen(nodes, leaders, leaders.len() as int) == (
                actions@,
                cache_slots as nat,
            );
        let slots = reuse_cache_slots(&mut actions, cache_slots);
        let ghost c = Caching { nodes, actions: actions@, slots: slots as nat };
        proof {
            lemma_choice_valid(c, before, cache_slots as int);
            assert(nodes.subrange(0, nodes.len() as int) =~= nodes);
            assert(plain(nodes));
        }
        let mut occurrence: usize = 0;
        let new = apply_cache_actions(plan, &actions, &mut occurrence, Ghost(c));
        proof {
            assert(caches(c, nodes, leaders, slots as nat));
            assert forall|row: Row, cache: Seq<int>| cache.len() == slots implies congruent(
                (#[trigger] new.run(row, cache)).0,
                plan.value(row),
                M::p(),
            ) && new.run(row, cache).1.len() == slots by {
                let (x, after) = new.run(row, cache);
                assert(c.flow(
                    0,
                    nodes.len() as int,
                    row,
                    cache,
                    after,
                    congruent(x, plan.value(row), M::p()),
                ));
                assert(c.clear(0));
                assert(c.ready(0, cache, row)) by {
                    assert forall|i: int, j: int| #[trigger]
                        is_source(c.actions, i, j) && c.actions[i].unwrap().end <= 0
                            <= j implies congruent(
                        cache[c.actions[j].unwrap().slot as int],
                        c.nodes[j].value(row),
                        M::p(),
                    ) by {
                        assert(c.actions[i] is Some);
                        assert(is_nested_at(nodes, i));
                    }
                }
            }
            assert forall|f: spec_fn(AstLeaf) -> bool| plan.sound(f, 0) implies #[trigger] new.sound(
                f,
                slots as nat,
            ) by {
                assert(new.sound(f, c.slots));
            }
        }
        (new, slots)
    }
}

proof fn lemma_choice_valid<M: Modulus>(
    c: Caching<M>,
    chosen: Seq<Option<CacheAction>>,
    chosen_slots: int,
)
    requires
        is_choice(c.nodes, chosen, chosen_slots),
        nested(c.nodes),
        same_but_slots(chosen, c.actions),
        forall|i: int|
            0 <= i < c.actions.len() && (#[trigger] c.actions[i]) is Some
                ==> c.actions[i].unwrap().slot < c.slots,
        forall|i: int, j: int| #[trigger]
            is_source(c.actions, i, j) <==> is_source(chosen, i, j),
    ensures
        c.valid(),
{
    assert forall|i: int|
        0 <= i < c.actions.len() && (#[trigger] c.actions[i]) is Some implies c.actions[i].unwrap().slot
        < c.slots && c.actions[i].unwrap().end == i + c.nodes[i].nodes().len() by {
        assert(chosen[i] is Some);
    }
    assert forall|i: int, k: int|
        0 <= i < k < c.actions.len() && (#[trigger] c.actions[i]) is Some && (
        #[trigger] c.actions[k]) is Some implies c.actions[i].unwrap().end <= k by {
        assert(chosen[i] is Some && chosen[k] is Some);
    }
    assert forall|j: int| 0 <= j < c.actions.len() && #[trigger] is_load(c.actions, j) implies exists|
        i: int,
    | is_source(c.actions, i, j) by {
        assert(chosen[j] is Some);
        assert(is_load(chosen, j));
        let i = choose|i: int| is_source(chosen, i, j);
        assert(is_source(c.actions, i, j));
    }
}

} // verus!

//! Caching leaves nothing to save: no repeated part that takes a multiplication has two copies that
//! could still be cached, and the numbers of slots that have ended are free again.
use crate::field::Modulus;
use crate::poly::cache::{retired, swap_removed};
use crate::poly::caching::CacheAction;
use crate::poly::cse::{chosen, free_of, is_free, members, with_actions};
use crate::poly::plan::EvaluationPlan;
use vstd::prelude::*;

verus! {

/// Every action of `a` is one of `b`.
spec fn keeps(a: Seq<Option<CacheAction>>, b: Seq<Option<CacheAction>>) -> bool {
    &&& a.len() == b.len()
    &&& forall|m: int| 0 <= m < a.len() && (#[trigger] a[m]) is Some ==> b[m] == a[m]
}

/// With more actions fewer parts are free.
proof fn lemma_fewer_free<M: Modulus>(
    nodes: Seq<EvaluationPlan<M>>,
    a: Seq<Option<CacheAction>>,
    b: Seq<Option<CacheAction>>,
    j: int,
)
    requires
        keeps(a, b),
        nodes.len() == a.len(),
        is_free(nodes, b, j),
    ensures
        is_free(nodes, a, j),
{
    assert(a[j] is None) by {
        if a[j] is Some {
            assert(b[j] == a[j]);
        }
    }
    assert forall|k: int| 0 <= k < a.len() && (#[trigger] a[k]) is Some implies if k < j {
        a[k].unwrap().end <= j
    } else {
        j + nodes[j].nodes().len() <= k
    } by {
        assert(b[k] == a[k]);
    }
}

proof fn lemma_fewer_free_of<M: Modulus>(
    nodes: Seq<EvaluationPlan<M>>,
    a: Seq<Option<CacheAction>>,
    b: Seq<Option<CacheAction>>,
    positions: Seq<int>,
    k: int,
)
    requires
        keeps(a, b),
        nodes.len() == a.len(),
        k <= positions.len(),
    ensures
        free_of(nodes, b, positions, k).len() <= free_of(nodes, a, positions, k).len(),
    decreases k,
{
    if k > 0 {
        lemma_fewer_free_of(nodes, a, b, positions, k - 1);
        if is_free(nodes, b, positions[k - 1]) {
            lemma_fewer_free(nodes, a, b, positions[k - 1]);
        }
    }
}

/// The free positions are free, and they hold every free one.
proof fn lemma_free_positions<M: Modulus>(
    nodes: Seq<EvaluationPlan<M>>,
    a: Seq<Option<CacheAction>>,
    positions: Seq<int>,
    k: int,
)
    requires
        k <= positions.len(),
    ensures
        forall|m: int|
            0 <= m < free_of(nodes, a, positions, k).len() ==> is_free(
                nodes,
                a,
                #[trigger] free_of(nodes, a, positions, k)[m],
            ),
        forall|m: int|
            0 <= m < k && is_free(nodes, a, #[trigger] positions[m]) ==> free_of(
                nodes,
                a,
                positions,
                k,
            ).contains(positions[m]),
    decreases k,
{
    if k > 0 {
        lemma_free_positions(nodes, a, positions, k - 1);
        let (before, now) = (free_of(nodes, a, positions, k - 1), free_of(nodes, a, positions, k));
        assert forall|m: int|
            0 <= m < k && is_free(nodes, a, #[trigger] positions[m]) implies now.contains(
            positions[m],
        ) by {
            if m < k - 1 {
                assert(before.contains(positions[m]));
                let i = choose|i: int| 0 <= i < before.len() && before[i] == positions[m];
                assert(now[i] == positions[m]);
            } else {
                assert(now[before.len() as int] == positions[m]);
            }
        }
    }
}

/// New actions are at the given positions, where there were none.
proof fn lemma_added<M: Modulus>(
    nodes: Seq<EvaluationPlan<M>>,
    a: Seq<Option<CacheAction>>,
    positions: Seq<int>,
    slot: usize,
    k: int,
)
    requires
        0 <= k <= positions.len(),
        nodes.len() == a.len(),
        forall|m: int|
            0 <= m < positions.len() ==> 0 <= #[trigger] positions[m] < a.len()
                && a[positions[m]] is None,
    ensures
        keeps(a, with_actions(nodes, a, positions, slot, k)),
        forall|m: int|
            0 <= m < k ==> with_actions(nodes, a, positions, slot, k)[#[trigger] positions[m]] is Some,
    decreases k,
{
    if k > 0 {
        lemma_added(nodes, a, positions, slot, k - 1);
        let (before, now) = (
            with_actions(nodes, a, positions, slot, k - 1),
            with_actions(nodes, a, positions, slot, k),
        );
        assert(a[positions[k - 1]] is None);
        assert forall|m: int| 0 <= m < k implies now[#[trigger] positions[m]] is Some by {
            if m < k - 1 {
                assert(before[positions[m]] is Some);
            }
        }
    }
}

/// The choice for one more part keeps the choices before it, and leaves less than two free copies
/// of the part where it takes a multiplication.
proof fn lemma_one_choice<M: Modulus>(nodes: Seq<EvaluationPlan<M>>, leaders: Seq<int>, k: int)
    requires
        0 <= k < leaders.len(),
    ensures
        chosen(nodes, leaders, k).0.len() == nodes.len(),
        keeps(chosen(nodes, leaders, k).0, chosen(nodes, leaders, k + 1).0),
        nodes[leaders[k]].cost().0 >= 1 ==> free_of(
            nodes,
            chosen(nodes, leaders, k + 1).0,
            members(nodes, leaders[k], nodes.len() as int),
            members(nodes, leaders[k], nodes.len() as int).len() as int,
        ).len() < 2,
    decreases k,
{
    if k > 0 {
        lemma_one_choice(nodes, leaders, k - 1);
    }
    let (a, slots) = chosen(nodes, leaders, k);
    let b = chosen(nodes, leaders, k + 1).0;
    let all = members(nodes, leaders[k], nodes.len() as int);
    let n = all.len() as int;
    let free = free_of(nodes, a, all, n);
    lemma_free_positions(nodes, a, all, n);
    if free.len() >= 2 && nodes[leaders[k]].cost().0 >= 1 {
        assert forall|m: int| 0 <= m < free.len() implies 0 <= #[trigger] free[m] < a.len()
            && a[free[m]] is None by {
            assert(is_free(nodes, a, free[m]));
        }
        lemma_added(nodes, a, free, slots as usize, free.len() as int);
        lemma_free_positions(nodes, b, all, n);
        let left = free_of(nodes, b, all, n);
        if left.len() > 0 {
            let j = left[0];
            assert(is_free(nodes, b, left[0]));
            lemma_fewer_free(nodes, a, b, j);
            lemma_free_members(nodes, b, all, n, 0);
            let m = choose|m: int| 0 <= m < n && all[m] == j;
            assert(free.contains(all[m]));
            let i = choose|i: int| 0 <= i < free.len() && free[i] == j;
            assert(b[free[i]] is Some);
        }
    }
}

/// The free positions are among the positions.
proof fn lemma_free_members<M: Modulus>(
    nodes: Seq<EvaluationPlan<M>>,
    a: Seq<Option<CacheAction>>,
    positions: Seq<int>,
    k: int,
    i: int,
)
    requires
        k <= positions.len(),
        0 <= i < free_of(nodes, a, positions, k).len(),
    ensures
        exists|m: int| 0 <= m < k && positions[m] == free_of(nodes, a, positions, k)[i],
    decreases k,
{
    if k > 0 {
        let before = free_of(nodes, a, positions, k - 1);
        if i < before.len() {
            lemma_free_members(nodes, a, positions, k - 1, i);
            let m = choose|m: int| 0 <= m < k - 1 && positions[m] == before[i];
            assert(positions[m] == free_of(nodes, a, positions, k)[i]);
        } else {
            assert(positions[k - 1] == free_of(nodes, a, positions, k)[i]);
        }
    }
}

proof fn lemma_later_choices<M: Modulus>(
    nodes: Seq<EvaluationPlan<M>>,
    leaders: Seq<int>,
    k: int,
    end: int,
)
    requires
        0 <= k < end <= leaders.len(),
    ensures
        chosen(nodes, leaders, k + 1).0.len() == nodes.len(),
        keeps(chosen(nodes, leaders, k + 1).0, chosen(nodes, leaders, end).0),
    decreases end,
{
    lemma_one_choice(nodes, leaders, k);
    if k + 1 < end {
        lemma_later_choices(nodes, leaders, k, end - 1);
        lemma_one_choice(nodes, leaders, end - 1);
        let (a, b, c) = (
            chosen(nodes, leaders, k + 1).0,
            chosen(nodes, leaders, end - 1).0,
            chosen(nodes, leaders, end).0,
        );
        assert forall|m: int| 0 <= m < a.len() && (#[trigger] a[m]) is Some implies c[m]
            == a[m] by {
            assert(b[m] == a[m]);
        }
    }
}

/// After all choices, no repeated part that takes a multiplication has two copies that overlap
/// with nothing that is cached.
pub proof fn lemma_nothing_left_to_cache<M: Modulus>(
    nodes: Seq<EvaluationPlan<M>>,
    leaders: Seq<int>,
    k: int,
)
    requires
        0 <= k < leaders.len(),
        nodes[leaders[k]].cost().0 >= 1,
    ensures
        free_of(
            nodes,
            chosen(nodes, leaders, leaders.len() as int).0,
            members(nodes, leaders[k], nodes.len() as int),
            members(nodes, leaders[k], nodes.len() as int).len() as int,
        ).len() < 2,
{
    let all = members(nodes, leaders[k], nodes.len() as int);
    lemma_one_choice(nodes, leaders, k);
    lemma_later_choices(nodes, leaders, k, leaders.len() as int);
    lemma_fewer_free_of(
        nodes,
        chosen(nodes, leaders, k + 1).0,
        chosen(nodes, leaders, leaders.len() as int).0,
        all,
        all.len() as int,
    );
}

/// Where a slot begins, exactly the numbers whose slots have ended become free: what stays in use
/// ends at or after the beginning, what becomes free ended before it, the numbers that were free
/// stay so, and none is lost.
pub proof fn lemma_ended_slots_are_retired(
    active: Seq<(usize, usize)>,
    free: Seq<usize>,
    start: usize,
    index: int,
)
    requires
        0 <= index <= active.len(),
        forall|k: int| 0 <= k < index ==> (#[trigger] active[k]).0 >= start,
    ensures
        ({
            let (a, f) = retired(active, free, start, index);
            &&& a.len() + f.len() == active.len() + free.len()
            &&& free.len() <= f.len()
            &&& f.take(free.len() as int) == free
            &&& forall|k: int| 0 <= k < a.len() ==> (#[trigger] a[k]).0 >= start && active.contains(a[k])
            &&& forall|k: int|
                free.len() <= k < f.len() ==> has_ended(active, start, #[trigger] f[k])
        }),
    decreases active.len() - index,
{
    let (a, f) = retired(active, free, start, index);
    if index == active.len() {
        assert(f.take(free.len() as int) =~= free);
        assert forall|k: int| 0 <= k < a.len() implies (#[trigger] a[k]).0 >= start
            && active.contains(a[k]) by {
            assert(active[k] == a[k]);
        }
    } else if active[index].0 < start {
        let less = swap_removed(active, index);
        let more = free.push(active[index].1);
        assert forall|k: int| 0 <= k < index implies (#[trigger] less[k]).0 >= start by {
            assert(less[k] == active[k]);
        }
        lemma_ended_slots_are_retired(less, more, start, index);
        assert(f.take(free.len() as int) =~= f.take(more.len() as int).take(free.len() as int));
        assert(more.take(free.len() as int) =~= free);
        assert forall|k: int| 0 <= k < a.len() implies (#[trigger] a[k]).0 >= start
            && active.contains(a[k]) by {
            assert(less.contains(a[k]));
            let m = choose|m: int| 0 <= m < less.len() && less[m] == a[k];
            assert(active[if m == index {
                active.len() - 1
            } else {
                m
            }] == a[k]);
        }
        assert forall|k: int| free.len() <= k < f.len() implies has_ended(
            active,
            start,
            #[trigger] f[k],
        ) by {
            if k == free.len() {
                assert(f.take(more.len() as int)[k] == more[k]);
                assert(is_ended_at(active, start, f[k], index));
            } else {
                assert(has_ended(less, start, f[k]));
                let m = choose|m: int| is_ended_at(less, start, f[k], m);
                assert(is_ended_at(
                    active,
                    start,
                    f[k],
                    if m == index {
                        active.len() - 1
                    } else {
                        m
                    },
                ));
            }
        }
    } else {
        lemma_ended_slots_are_retired(active, free, start, index + 1);
    }
}

/// The slot with the number ended before `start`.
pub open spec fn has_ended(active: Seq<(usize, usize)>, start: usize, number: usize) -> bool {
    exists|m: int| is_ended_at(active, start, number, m)
}

/// The slot at a position has the number and ended before `start`.
pub open spec fn is_ended_at(
    active: Seq<(usize, usize)>,
    start: usize,
    number: usize,
    m: int,
) -> bool {
    0 <= m < active.len() && active[m].0 < start && active[m].1 == number
}

} // verus!

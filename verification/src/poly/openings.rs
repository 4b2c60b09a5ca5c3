//! What grouping queries keeps: every query is found again, in the order in which commitments and
//! points were first asked for.
use crate::field::{Fe, Modulus};
use crate::poly::multiopen::{
    commitments_of, distinct, evals_of, has_duplicate, has_entry, indices_of, is_data,
    is_duplicate, is_entry, is_grouping, lemma_distinct, lemma_distinct_push, lemma_ordered_agree, lemma_ordered_members,
    lemma_own_point, lemma_own_query, lemma_position, lemma_position_at, points_of, position,
    queries_of, CommitmentData, CommitmentReference, Query,
};
use vstd::prelude::*;

verus! {

/// The query's point stands in the point set of its commitment, and its value at the same place.
pub open spec fn is_opening<M: Modulus, E: Copy>(
    data: Seq<CommitmentData<E>>,
    point_sets: Seq<Vec<Fe<M>>>,
    query: Query<M, E>,
    c: int,
    t: int,
) -> bool {
    &&& 0 <= c < data.len()
    &&& data[c].commitment == query.commitment
    &&& data[c].set_index < point_sets.len()
    &&& point_sets[data[c].set_index as int]@.len() == data[c].evals@.len()
    &&& 0 <= t < data[c].evals@.len()
    &&& point_sets[data[c].set_index as int]@[t]@ == query.point@
    &&& data[c].evals@[t] == query.eval
}

/// The commitment is asked for at the point.
pub open spec fn is_asked<M: Modulus, E: Copy>(
    queries: Seq<Query<M, E>>,
    commitment: CommitmentReference,
    point: int,
) -> bool {
    exists|i: int|
        0 <= i < queries.len() && (#[trigger] queries[i]).commitment == commitment
            && queries[i].point@ == point
}

/// No earlier query asks for the same commitment.
pub open spec fn asks_first<M: Modulus, E: Copy>(queries: Seq<Query<M, E>>, i: int) -> bool {
    &&& 0 <= i < queries.len()
    &&& forall|h: int| 0 <= h < i ==> (#[trigger] queries[h]).commitment != queries[i].commitment
}

/// No earlier query is at the same point.
pub open spec fn is_first_at<M: Modulus, E: Copy>(queries: Seq<Query<M, E>>, i: int) -> bool {
    &&& 0 <= i < queries.len()
    &&& forall|h: int| 0 <= h < i ==> (#[trigger] queries[h]).point@ != queries[i].point@
}

/// Queries repeat exactly where two of them ask for one commitment at one point.
pub proof fn lemma_repeated_queries<M: Modulus, E: Copy>(queries: Seq<Query<M, E>>)
    ensures
        has_duplicate(queries) <==> exists|g: int, h: int|
            0 <= g < h < queries.len() && (#[trigger] queries[g]).commitment == (
            #[trigger] queries[h]).commitment && queries[g].point@ == queries[h].point@,
{
    if has_duplicate(queries) {
        let (g, h) = choose|g: int, h: int| is_duplicate(queries, g, h);
        assert(queries[g].commitment == queries[h].commitment);
    }
    if exists|g: int, h: int|
        0 <= g < h < queries.len() && (#[trigger] queries[g]).commitment == (
        #[trigger] queries[h]).commitment && queries[g].point@ == queries[h].point@ {
        let (g, h) = choose|g: int, h: int|
            0 <= g < h < queries.len() && (#[trigger] queries[g]).commitment == (
            #[trigger] queries[h]).commitment && queries[g].point@ == queries[h].point@;
        assert(is_duplicate(queries, g, h));
    }
}

/// The number of different points of the first `n` queries.
pub open spec fn points_seen<M: Modulus, E: Copy>(queries: Seq<Query<M, E>>, n: nat) -> nat
    decreases n,
{
    if n == 0 {
        0
    } else {
        points_seen(queries, (n - 1) as nat) + if is_first_at(queries, n - 1) {
            1nat
        } else {
            0
        }
    }
}

/// The number of queries for a commitment among the first `n` queries.
pub open spec fn times_asked<M: Modulus, E: Copy>(
    queries: Seq<Query<M, E>>,
    commitment: CommitmentReference,
    n: nat,
) -> nat
    decreases n,
{
    if n == 0 {
        0
    } else {
        times_asked(queries, commitment, (n - 1) as nat) + if queries[n - 1].commitment
            == commitment {
            1nat
        } else {
            0
        }
    }
}

/// A value that occurs for the first time is numbered by the different values before it.
proof fn lemma_first_position<A>(values: Seq<A>, i: int)
    requires
        0 <= i < values.len(),
        forall|h: int| 0 <= h < i ==> values[h] != values[i],
    ensures
        position(distinct(values), values[i]) == distinct(values.take(i)).len(),
        position(distinct(values), values[i]) < distinct(values).len(),
        distinct(values)[position(distinct(values), values[i])] == values[i],
    decreases values.len(),
{
    let front = values.drop_last();
    let last = values.last();
    assert(front.push(last) =~= values);
    lemma_distinct(front);
    lemma_distinct(values);
    if i == front.len() {
        assert(front =~= values.take(i));
        if distinct(front).contains(last) {
            let k = choose|k: int| 0 <= k < distinct(front).len() && distinct(front)[k] == last;
            assert(front.contains(distinct(front)[k]));
            let h = choose|h: int| 0 <= h < front.len() && front[h] == last;
            assert(values[h] != values[i]);
        }
        let n = distinct(front).len() as int;
        assert(distinct(values)[n] == last);
        lemma_position_at(distinct(values), n);
    } else {
        assert forall|h: int| 0 <= h < i implies front[h] != front[i] by {
            assert(values[h] != values[i]);
        }
        lemma_first_position(front, i);
        assert(front.take(i) =~= values.take(i));
        assert(distinct(front).contains(front[i]));
        lemma_distinct_push(front, last, front[i]);
        lemma_position(distinct(values), values[i]);
        assert(distinct(values).contains(values[i]));
    }
}

/// More values hold no fewer different ones.
proof fn lemma_distinct_grows<A>(values: Seq<A>, i: int, j: int)
    requires
        0 <= i <= j <= values.len(),
    ensures
        distinct(values.take(i)).len() <= distinct(values.take(j)).len(),
    decreases j,
{
    if i < j {
        lemma_distinct_grows(values, i, j - 1);
        assert(values.take(j).drop_last() =~= values.take(j - 1));
    }
}

/// Values are numbered in the order in which they first occur.
proof fn lemma_first_order<A>(values: Seq<A>, i: int, j: int)
    requires
        0 <= i < j < values.len(),
        forall|h: int| 0 <= h < i ==> values[h] != values[i],
        forall|h: int| 0 <= h < j ==> values[h] != values[j],
    ensures
        position(distinct(values), values[i]) < position(distinct(values), values[j]),
{
    lemma_first_position(values, i);
    lemma_first_position(values, j);
    lemma_distinct_grows(values, i + 1, j);
    let some = values.take(i + 1);
    assert(some.drop_last() =~= values.take(i));
    lemma_distinct(values.take(i));
    if distinct(values.take(i)).contains(values[i]) {
        let front = values.take(i);
        let k = choose|k: int| 0 <= k < distinct(front).len() && distinct(front)[k] == values[i];
        assert(front.contains(distinct(front)[k]));
        let h = choose|h: int| 0 <= h < front.len() && front[h] == values[i];
        assert(values[h] != values[i]);
    }
}

/// The data that a commitment's queries are kept in.
proof fn lemma_data_of<M: Modulus, E: Copy>(
    queries: Seq<Query<M, E>>,
    data: Seq<CommitmentData<E>>,
    point_sets: Seq<Vec<Fe<M>>>,
    sets: Seq<Seq<usize>>,
    i: int,
) -> (c: int)
    requires
        is_grouping(queries, data, point_sets, sets),
        0 <= i < queries.len(),
    ensures
        0 <= c < data.len(),
        data[c].commitment == queries[i].commitment,
        c == position(distinct(commitments_of(queries)), queries[i].commitment),
{
    let all = commitments_of(queries);
    lemma_distinct(all);
    assert(all[i] == queries[i].commitment);
    assert(distinct(all).contains(all[i]));
    lemma_position(distinct(all), all[i]);
    position(distinct(all), all[i])
}

/// The point set of a commitment has its points, by their positions.
proof fn lemma_set_of<M: Modulus, E: Copy>(
    queries: Seq<Query<M, E>>,
    data: Seq<CommitmentData<E>>,
    point_sets: Seq<Vec<Fe<M>>>,
    sets: Seq<Seq<usize>>,
    c: int,
)
    requires
        is_grouping(queries, data, point_sets, sets),
        0 <= c < data.len(),
    ensures
        is_data(queries, data[c], sets[c]),
        data[c].set_index < point_sets.len(),
        distinct(sets)[data[c].set_index as int] == sets[c],
        point_sets[data[c].set_index as int]@.len() == data[c].evals@.len() == sets[c].len(),
        forall|t: int|
            0 <= t < sets[c].len() ==> (#[trigger] sets[c][t]) < distinct(points_of(queries)).len()
                && point_sets[data[c].set_index as int]@[t]@ == distinct(
                points_of(queries),
            )[sets[c][t] as int],
{
    assert(data[c].set_index == position(distinct(sets), sets[c]));
    lemma_distinct(sets);
    assert(distinct(sets).contains(sets[c]));
    lemma_position(distinct(sets), sets[c]);
    let s = data[c].set_index as int;
    assert forall|t: int| 0 <= t < sets[c].len() implies (#[trigger] sets[c][t]) < distinct(
        points_of(queries),
    ).len() && point_sets[s]@[t]@ == distinct(points_of(queries))[sets[c][t] as int] by {
        let values = point_sets[s]@;
        assert(values[t]@ == distinct(points_of(queries))[sets[c][t] as int]);
    }
}

/// Every query is found again: its point in the point set of its commitment, its value at the
/// same place.
pub proof fn lemma_queries_are_kept<M: Modulus, E: Copy>(
    queries: Seq<Query<M, E>>,
    data: Seq<CommitmentData<E>>,
    point_sets: Seq<Vec<Fe<M>>>,
    sets: Seq<Seq<usize>>,
    i: int,
)
    requires
        is_grouping(queries, data, point_sets, sets),
        0 <= i < queries.len(),
        forall|g: int, h: int|
            0 <= g < h < queries.len() ==> (#[trigger] queries[g]).commitment != (
            #[trigger] queries[h]).commitment || queries[g].point@ != queries[h].point@,
    ensures
        exists|c: int, t: int| is_opening(data, point_sets, queries[i], c, t),
{
    let query = queries[i];
    let points = distinct(points_of(queries));
    let c = lemma_data_of(queries, data, point_sets, sets, i);
    lemma_set_of(queries, data, point_sets, sets, c);
    let k = lemma_own_query(queries, i);
    let own = queries_of(queries, query.commitment);
    let indices = data[c].point_indices@;
    assert(indices[k] as int == indices_of(queries, query.commitment)[k]);
    lemma_distinct(points_of(queries));
    assert(points_of(queries)[i] == query.point@);
    assert(points.contains(points_of(queries)[i]));
    lemma_position(points, query.point@);
    lemma_ordered_members(indices, evals_of(own), sets[c], data[c].evals@);
    assert(indices.contains(indices[k]));
    assert(sets[c].contains(indices[k]));
    let t = choose|t: int| 0 <= t < sets[c].len() && sets[c][t] == indices[k];
    assert(sets[c][t] == indices[k]);
    assert(has_entry(indices, evals_of(own), sets[c][t], data[c].evals@[t]));
    let j = choose|j: int| is_entry(indices, evals_of(own), j, sets[c][t], data[c].evals@[t]);
    // The value there is the one of a query at the same point, which is the query itself.
    assert(indices[j] as int == indices_of(queries, query.commitment)[j]);
    let g = lemma_own_point(queries, query.commitment, j);
    lemma_position(points, own[j].point@);
    assert(own[j].point@ == query.point@);
    assert(queries[g].commitment == queries[i].commitment && queries[g].point@ == queries[i].point@);
    assert(g == i);
    assert(is_opening(data, point_sets, query, c, t));
}

/// Nothing else is found: every value that is kept is the value of a query for the commitment at
/// the point of its place.
pub proof fn lemma_only_queries_are_kept<M: Modulus, E: Copy>(
    queries: Seq<Query<M, E>>,
    data: Seq<CommitmentData<E>>,
    point_sets: Seq<Vec<Fe<M>>>,
    sets: Seq<Seq<usize>>,
    c: int,
    t: int,
)
    requires
        is_grouping(queries, data, point_sets, sets),
        0 <= c < data.len(),
        0 <= t < data[c].evals@.len(),
    ensures
        exists|i: int|
            0 <= i < queries.len() && is_opening(data, point_sets, #[trigger] queries[i], c, t),
{
    let commitment = data[c].commitment;
    let points = distinct(points_of(queries));
    lemma_set_of(queries, data, point_sets, sets, c);
    let own = queries_of(queries, commitment);
    let indices = data[c].point_indices@;
    assert(sets[c][t] < points.len());
    assert(has_entry(indices, evals_of(own), sets[c][t], data[c].evals@[t]));
    let j = choose|j: int| is_entry(indices, evals_of(own), j, sets[c][t], data[c].evals@[t]);
    assert(indices[j] as int == indices_of(queries, commitment)[j]);
    let i = lemma_own_point(queries, commitment, j);
    lemma_position(points, own[j].point@);
    assert(is_opening(data, point_sets, queries[i], c, t));
}

/// The commitments stand in the order of their first queries, each once.
pub proof fn lemma_commitments_in_order<M: Modulus, E: Copy>(
    queries: Seq<Query<M, E>>,
    data: Seq<CommitmentData<E>>,
    point_sets: Seq<Vec<Fe<M>>>,
    sets: Seq<Seq<usize>>,
    c: int,
    d: int,
    i: int,
    j: int,
)
    requires
        is_grouping(queries, data, point_sets, sets),
        0 <= c < data.len(),
        0 <= d < data.len(),
        asks_first(queries, i),
        asks_first(queries, j),
        data[c].commitment == queries[i].commitment,
        data[d].commitment == queries[j].commitment,
    ensures
        c < d <==> i < j,
{
    let all = commitments_of(queries);
    lemma_distinct(all);
    assert(distinct(all)[c] == all[i] && distinct(all)[d] == all[j]);
    lemma_position_at(distinct(all), c);
    lemma_position_at(distinct(all), d);
    assert forall|h: int| 0 <= h < i implies all[h] != all[i] by {
        assert(queries[h].commitment != queries[i].commitment);
    }
    assert forall|h: int| 0 <= h < j implies all[h] != all[j] by {
        assert(queries[h].commitment != queries[j].commitment);
    }
    if i < j {
        lemma_first_order(all, i, j);
    } else if j < i {
        lemma_first_order(all, j, i);
    }
}

/// The points of a commitment's set stand in the order in which they were first asked for.
pub proof fn lemma_points_in_order<M: Modulus, E: Copy>(
    queries: Seq<Query<M, E>>,
    data: Seq<CommitmentData<E>>,
    point_sets: Seq<Vec<Fe<M>>>,
    sets: Seq<Seq<usize>>,
    c: int,
    a: int,
    b: int,
    i: int,
    j: int,
)
    requires
        is_grouping(queries, data, point_sets, sets),
        0 <= c < data.len(),
        0 <= a < data[c].evals@.len(),
        0 <= b < data[c].evals@.len(),
        is_first_at(queries, i),
        is_first_at(queries, j),
        point_sets[data[c].set_index as int]@[a]@ == queries[i].point@,
        point_sets[data[c].set_index as int]@[b]@ == queries[j].point@,
    ensures
        a < b <==> i < j,
{
    let all = points_of(queries);
    lemma_distinct(all);
    lemma_set_of(queries, data, point_sets, sets, c);
    let (x, y) = (sets[c][a] as int, sets[c][b] as int);
    assert(distinct(all)[x] == all[i] && distinct(all)[y] == all[j]);
    lemma_position_at(distinct(all), x);
    lemma_position_at(distinct(all), y);
    assert forall|h: int| 0 <= h < i implies all[h] != all[i] by {
        assert(queries[h].point@ != queries[i].point@);
    }
    assert forall|h: int| 0 <= h < j implies all[h] != all[j] by {
        assert(queries[h].point@ != queries[j].point@);
    }
    if i < j {
        lemma_first_order(all, i, j);
    } else if j < i {
        lemma_first_order(all, j, i);
    }
    if a < b {
        assert(sets[c][a] < sets[c][b]);
    } else if b < a {
        assert(sets[c][b] < sets[c][a]);
    }
}

/// A commitment is asked for at a point exactly if the position of the point is in its set.
proof fn lemma_asked_in_set<M: Modulus, E: Copy>(
    queries: Seq<Query<M, E>>,
    data: CommitmentData<E>,
    set: Seq<usize>,
    index: usize,
)
    requires
        is_data(queries, data, set),
        index < distinct(points_of(queries)).len(),
    ensures
        set.contains(index) <==> is_asked(
            queries,
            data.commitment,
            distinct(points_of(queries))[index as int],
        ),
{
    let commitment = data.commitment;
    let points = distinct(points_of(queries));
    let own = queries_of(queries, commitment);
    let indices = data.point_indices@;
    lemma_distinct(points_of(queries));
    lemma_ordered_members(indices, evals_of(own), set, data.evals@);
    lemma_position_at(points, index as int);
    if set.contains(index) {
        assert(indices.contains(index));
        let j = choose|j: int| 0 <= j < indices.len() && indices[j] == index;
        assert(indices[j] as int == indices_of(queries, commitment)[j]);
        let i = lemma_own_point(queries, commitment, j);
        lemma_position(points, own[j].point@);
        assert(queries[i].commitment == commitment);
    }
    if is_asked(queries, commitment, points[index as int]) {
        let i = choose|i: int|
            0 <= i < queries.len() && (#[trigger] queries[i]).commitment == commitment
                && queries[i].point@ == points[index as int];
        let k = lemma_own_query(queries, i);
        assert(indices[k] as int == indices_of(queries, commitment)[k]);
        assert(indices.contains(indices[k]));
    }
}

/// Two commitments share a point set exactly if they are asked for at the same points.
pub proof fn lemma_sets_are_shared<M: Modulus, E: Copy>(
    queries: Seq<Query<M, E>>,
    data: Seq<CommitmentData<E>>,
    point_sets: Seq<Vec<Fe<M>>>,
    sets: Seq<Seq<usize>>,
    c: int,
    d: int,
)
    requires
        is_grouping(queries, data, point_sets, sets),
        0 <= c < data.len(),
        0 <= d < data.len(),
    ensures
        data[c].set_index == data[d].set_index <==> (forall|x: int| #[trigger]
            is_asked(queries, data[c].commitment, x) == is_asked(queries, data[d].commitment, x)),
{
    let all = points_of(queries);
    let points = distinct(all);
    lemma_distinct(all);
    lemma_set_of(queries, data, point_sets, sets, c);
    lemma_set_of(queries, data, point_sets, sets, d);
    let (a, b) = (sets[c], sets[d]);
    if data[c].set_index == data[d].set_index {
        assert(a == b);
        assert forall|x: int| #[trigger]
            is_asked(queries, data[c].commitment, x) == is_asked(
                queries,
                data[d].commitment,
                x,
            ) by {
            if is_asked(queries, data[c].commitment, x) || is_asked(
                queries,
                data[d].commitment,
                x,
            ) {
                let i = choose|i: int| 0 <= i < queries.len() && queries[i].point@ == x;
                assert(all[i] == x);
                assert(points.contains(all[i]));
                lemma_position(points, x);
                let j = choose|j: int|
                    0 <= j < queries.len() && (#[trigger] queries[j]).point@ == x && (
                    queries[j].commitment == data[c].commitment || queries[j].commitment
                        == data[d].commitment);
                let k = lemma_own_query(queries, j);
                let e = if queries[j].commitment == data[c].commitment {
                    c
                } else {
                    d
                };
                assert(data[e].point_indices@[k] as int == indices_of(
                    queries,
                    data[e].commitment,
                )[k]);
                let index = data[e].point_indices@[k];
                lemma_asked_in_set(queries, data[c], a, index);
                lemma_asked_in_set(queries, data[d], b, index);
            }
        }
    }
    if forall|x: int| #[trigger]
        is_asked(queries, data[c].commitment, x) == is_asked(queries, data[d].commitment, x) {
        assert forall|index: usize| #[trigger] a.contains(index) <==> b.contains(index) by {
            if a.contains(index) || b.contains(index) {
                if a.contains(index) {
                    let t = choose|t: int| 0 <= t < a.len() && a[t] == index;
                    assert(sets[c][t] < points.len());
                } else {
                    let t = choose|t: int| 0 <= t < b.len() && b[t] == index;
                    assert(sets[d][t] < points.len());
                }
                lemma_asked_in_set(queries, data[c], a, index);
                lemma_asked_in_set(queries, data[d], b, index);
            }
        }
        a.unique_seq_to_set();
        b.unique_seq_to_set();
        assert(a.to_set() =~= b.to_set()) by {
            assert forall|index: usize| a.to_set().contains(index) == b.to_set().contains(
                index,
            ) by {
                assert(a.contains(index) <==> b.contains(index));
            }
        }
        assert forall|k: int| 0 <= k < a.len() implies a[k] == b[k] by {
            lemma_ordered_agree(a, b, k);
        }
        assert(a =~= b);
    }
}

/// Every point set belongs to a commitment, and before its first commitment only earlier sets
/// occur: the sets are numbered in the order in which they first occur.
pub proof fn lemma_sets_in_order<M: Modulus, E: Copy>(
    queries: Seq<Query<M, E>>,
    data: Seq<CommitmentData<E>>,
    point_sets: Seq<Vec<Fe<M>>>,
    sets: Seq<Seq<usize>>,
    s: int,
)
    requires
        is_grouping(queries, data, point_sets, sets),
        0 <= s < point_sets.len(),
    ensures
        exists|c: int|
            0 <= c < data.len() && (#[trigger] data[c]).set_index == s && forall|d: int|
                0 <= d < c ==> (#[trigger] data[d]).set_index < s,
{
    lemma_distinct(sets);
    let set = distinct(sets)[s];
    assert(sets.contains(set));
    lemma_position(sets, set);
    let c = position(sets, set);
    lemma_position_at(distinct(sets), s);
    assert(data[c].set_index == s);
    assert forall|d: int| 0 <= d < c implies (#[trigger] data[d]).set_index < s by {
        assert(data[d].set_index == position(distinct(sets), sets[d]));
        assert(sets.contains(sets[d]));
        lemma_position(sets, sets[d]);
        let e = position(sets, sets[d]);
        if e > d {
            assert(sets[d] != sets[d]);
        }
        lemma_first_order(sets, e, c);
    }
}

/// The different points among the first queries are counted by the points that are first asked
/// for there.
proof fn lemma_points_seen<M: Modulus, E: Copy>(queries: Seq<Query<M, E>>, n: nat)
    requires
        n <= queries.len(),
    ensures
        points_seen(queries, n) == distinct(points_of(queries).take(n as int)).len(),
    decreases n,
{
    let all = points_of(queries);
    if n > 0 {
        let m = (n - 1) as nat;
        lemma_points_seen(queries, m);
        let front = all.take(m as int);
        assert(all.take(n as int).drop_last() =~= front);
        assert(all.take(n as int).last() == queries[m as int].point@);
        lemma_distinct(front);
        let x = queries[m as int].point@;
        if is_first_at(queries, m as int) {
            if distinct(front).contains(x) {
                let k = choose|k: int| 0 <= k < distinct(front).len() && distinct(front)[k] == x;
                assert(front.contains(distinct(front)[k]));
                let h = choose|h: int| 0 <= h < front.len() && front[h] == x;
                assert(queries[h].point@ != x);
            }
        } else {
            let h = choose|h: int| 0 <= h < m && (#[trigger] queries[h]).point@ == x;
            assert(front[h] == x);
            assert(distinct(front).contains(front[h]));
        }
    }
}

/// A query stands among the queries of its commitment behind those that were made before.
proof fn lemma_times_asked<M: Modulus, E: Copy>(
    queries: Seq<Query<M, E>>,
    commitment: CommitmentReference,
    i: int,
    n: int,
)
    requires
        0 <= i < n <= queries.len(),
        queries[i].commitment == commitment,
    ensures
        times_asked(queries, commitment, i as nat) < queries_of(
            queries.take(n),
            commitment,
        ).len(),
        queries_of(queries.take(n), commitment)[times_asked(queries, commitment, i as nat) as int]
            == queries[i],
    decreases n,
{
    let some = queries.take(n);
    assert(some.drop_last() =~= queries.take(n - 1));
    if i < n - 1 {
        lemma_times_asked(queries, commitment, i, n - 1);
    } else {
        lemma_asked_len(queries, commitment, i as nat);
        assert(some.last() == queries[i]);
    }
}

proof fn lemma_asked_len<M: Modulus, E: Copy>(
    queries: Seq<Query<M, E>>,
    commitment: CommitmentReference,
    n: nat,
)
    requires
        n <= queries.len(),
    ensures
        times_asked(queries, commitment, n) == queries_of(
            queries.take(n as int),
            commitment,
        ).len(),
    decreases n,
{
    if n > 0 {
        lemma_asked_len(queries, commitment, (n - 1) as nat);
        assert(queries.take(n as int).drop_last() =~= queries.take(n - 1));
    }
}

/// The point index of the `k`-th query for a commitment is the number of different points that
/// were asked for before its point was.
pub proof fn lemma_point_indices<M: Modulus, E: Copy>(
    queries: Seq<Query<M, E>>,
    data: Seq<CommitmentData<E>>,
    point_sets: Seq<Vec<Fe<M>>>,
    sets: Seq<Seq<usize>>,
    c: int,
    i: int,
    j: int,
)
    requires
        is_grouping(queries, data, point_sets, sets),
        0 <= c < data.len(),
        0 <= i < queries.len(),
        data[c].commitment == queries[i].commitment,
        is_first_at(queries, j),
        queries[j].point@ == queries[i].point@,
    ensures
        data[c].point_indices@.len() == times_asked(
            queries,
            data[c].commitment,
            queries.len(),
        ),
        times_asked(queries, data[c].commitment, i as nat) < data[c].point_indices@.len(),
        data[c].point_indices@[times_asked(queries, data[c].commitment, i as nat) as int]
            == points_seen(queries, j as nat),
{
    let commitment = data[c].commitment;
    let all = points_of(queries);
    assert(is_data(queries, data[c], sets[c]));
    assert(queries.take(queries.len() as int) =~= queries);
    lemma_times_asked(queries, commitment, i, queries.len() as int);
    lemma_asked_len(queries, commitment, queries.len());
    let k = times_asked(queries, commitment, i as nat) as int;
    assert(data[c].point_indices@[k] as int == indices_of(queries, commitment)[k]);
    assert forall|h: int| 0 <= h < j implies all[h] != all[j] by {
        assert(queries[h].point@ != queries[j].point@);
    }
    lemma_first_position(all, j);
    lemma_points_seen(queries, j as nat);
}

} // verus!

//! Grouping of polynomial openings by the points they are opened at.
use crate::field::{Fe, Modulus};
use indexmap::IndexMap;
use vstd::prelude::*;

verus! {

/// The insertion-ordered map of the `indexmap` crate.
#[verifier::external_type_specification]
#[verifier::external_body]
#[verifier::reject_recursive_types(K)]
#[verifier::reject_recursive_types(V)]
#[verifier::reject_recursive_types(S)]
pub struct ExIndexMap<K, V, S>(IndexMap<K, V, S>);

/// The keys of a map in the order in which they were inserted.
pub uninterp spec fn map_keys(map: IndexMap<(usize, usize), ()>) -> Seq<(usize, usize)>;

/// `IndexMap::new`: the new map holds no keys.
#[verifier::external_body]
fn empty_map() -> (r: IndexMap<(usize, usize), ()>)
    ensures
        map_keys(r) == Seq::<(usize, usize)>::empty(),
{
    IndexMap::new()
}

/// `IndexMap::insert_full`: a key that is in the map keeps its position; a new key is inserted
/// last. The position of the key is returned.
#[verifier::external_body]
fn insert_key(map: &mut IndexMap<(usize, usize), ()>, key: (usize, usize)) -> (r: usize)
    ensures
        if map_keys(*old(map)).contains(key) {
            &&& map_keys(*final(map)) == map_keys(*old(map))
            &&& r < map_keys(*old(map)).len()
            &&& map_keys(*old(map))[r as int] == key
        } else {
            &&& map_keys(*final(map)) == map_keys(*old(map)).push(key)
            &&& r == map_keys(*old(map)).len()
        },
{
    map.insert_full(key, ()).0
}

/// What is opened: a commitment or a linear combination of commitments, told apart by the
/// identity of the object that holds it.
#[derive(Clone, Copy, Debug, PartialEq, Eq, Structural)]
pub enum CommitmentReference {
    /// A commitment.
    Commitment(usize),
    /// A linear combination of commitments.
    Msm(usize),
}

impl CommitmentReference {
    /// The reference as a pair of numbers.
    pub open spec fn key_of(self) -> (usize, usize) {
        match self {
            CommitmentReference::Commitment(id) => (0, id),
            CommitmentReference::Msm(id) => (1, id),
        }
    }

    fn key(self) -> (r: (usize, usize))
        ensures
            r == self.key_of(),
    {
        match self {
            CommitmentReference::Commitment(id) => (0, id),
            CommitmentReference::Msm(id) => (1, id),
        }
    }
}

/// A query for the value of a polynomial at a point.
#[derive(Clone, Copy, Debug)]
pub struct Query<M: Modulus, E: Copy> {
    /// What is opened.
    pub commitment: CommitmentReference,
    /// The point.
    pub point: Fe<M>,
    /// The claimed value.
    pub eval: E,
}

/// A query of the prover: the polynomial is known, so no value is claimed.
#[derive(Debug)]
pub struct ProverQuery<M: Modulus> {
    /// The point at which the polynomial is queried.
    pub point: Fe<M>,
    /// The identity of the polynomial.
    pub poly: usize,
    /// The blinding factor of the polynomial.
    pub blind: Fe<M>,
}

impl<M: Modulus> ProverQuery<M> {
    /// The query without a claimed value.
    pub fn query(&self) -> (r: Query<M, ()>)
        ensures
            r.commitment == CommitmentReference::Commitment(self.poly),
            r.point == self.point,
    {
        Query {
            commitment: CommitmentReference::Commitment(self.poly),
            point: self.point,
            eval: (),
        }
    }
}

/// A query of the verifier.
#[derive(Debug)]
pub struct VerifierQuery<M: Modulus> {
    point: Fe<M>,
    commitment: CommitmentReference,
    eval: Fe<M>,
}

impl<M: Modulus> VerifierQuery<M> {
    /// The query that the verifier makes.
    pub closed spec fn as_query(self) -> Query<M, Fe<M>> {
        Query { commitment: self.commitment, point: self.point, eval: self.eval }
    }

    /// A query for a commitment.
    pub fn new_commitment(commitment: usize, point: Fe<M>, eval: Fe<M>) -> (r: Self)
        ensures
            r.as_query() == (Query {
                commitment: CommitmentReference::Commitment(commitment),
                point,
                eval,
            }),
    {
        VerifierQuery { point, eval, commitment: CommitmentReference::Commitment(commitment) }
    }

    /// A query for a linear combination of commitments.
    pub fn new_msm(msm: usize, point: Fe<M>, eval: Fe<M>) -> (r: Self)
        ensures
            r.as_query() == (Query { commitment: CommitmentReference::Msm(msm), point, eval }),
    {
        VerifierQuery { point, eval, commitment: CommitmentReference::Msm(msm) }
    }

    /// The query that the verifier makes.
    pub fn query(&self) -> (r: Query<M, Fe<M>>)
        ensures
            r == self.as_query(),
    {
        Query { commitment: self.commitment, point: self.point, eval: self.eval }
    }
}

/// What is known of one commitment: the set of points it is opened at, its points in the order
/// of its queries, and its values in the order of the set.
#[derive(Debug)]
pub struct CommitmentData<E: Copy> {
    /// The commitment.
    pub commitment: CommitmentReference,
    /// The position of its point set.
    pub set_index: usize,
    /// The points in the order of the queries, by their positions.
    pub point_indices: Vec<usize>,
    /// The values in the order of the point set.
    pub evals: Vec<E>,
}

/// The position of a value among distinct values, or their number where it is missing.
pub open spec fn position<A>(values: Seq<A>, value: A) -> int
    decreases values.len(),
{
    if values.len() == 0 {
        0
    } else if values.first() == value {
        0
    } else {
        1 + position(values.drop_first(), value)
    }
}

/// The values without repetitions, in the order in which they first occur.
pub open spec fn distinct<A>(values: Seq<A>) -> Seq<A>
    decreases values.len(),
{
    if values.len() == 0 {
        values
    } else {
        let front = distinct(values.drop_last());
        if front.contains(values.last()) {
            front
        } else {
            front.push(values.last())
        }
    }
}

/// The points of the queries.
pub open spec fn points_of<M: Modulus, E: Copy>(queries: Seq<Query<M, E>>) -> Seq<int> {
    Seq::new(queries.len(), |i: int| queries[i].point@)
}

/// The commitments of the queries.
pub open spec fn commitments_of<M: Modulus, E: Copy>(queries: Seq<Query<M, E>>) -> Seq<
    CommitmentReference,
> {
    Seq::new(queries.len(), |i: int| queries[i].commitment)
}

/// The queries of one commitment.
pub open spec fn queries_of<M: Modulus, E: Copy>(
    queries: Seq<Query<M, E>>,
    commitment: CommitmentReference,
) -> Seq<Query<M, E>>
    decreases queries.len(),
{
    if queries.len() == 0 {
        queries
    } else {
        let front = queries_of(queries.drop_last(), commitment);
        if queries.last().commitment == commitment {
            front.push(queries.last())
        } else {
            front
        }
    }
}

/// The positions of the points of one commitment among all points, in the order of its queries.
pub open spec fn indices_of<M: Modulus, E: Copy>(
    queries: Seq<Query<M, E>>,
    commitment: CommitmentReference,
) -> Seq<int> {
    let own = queries_of(queries, commitment);
    Seq::new(own.len(), |k: int| position(distinct(points_of(queries)), own[k].point@))
}

/// Two queries ask for the same commitment at the same point.
pub open spec fn is_duplicate<M: Modulus, E: Copy>(
    queries: Seq<Query<M, E>>,
    i: int,
    j: int,
) -> bool {
    0 <= i < j < queries.len() && queries[i].commitment == queries[j].commitment
        && queries[i].point@ == queries[j].point@
}

/// Some commitment is queried twice at one point.
pub open spec fn has_duplicate<M: Modulus, E: Copy>(queries: Seq<Query<M, E>>) -> bool {
    exists|i: int, j: int| is_duplicate(queries, i, j)
}

/// The set holds the indices in ascending order, and the sorted values go with it.
pub open spec fn is_ordered<E>(
    indices: Seq<usize>,
    values: Seq<E>,
    set: Seq<usize>,
    sorted: Seq<E>,
) -> bool {
    &&& set.len() == indices.len()
    &&& sorted.len() == indices.len()
    &&& values.len() == indices.len()
    &&& forall|a: int, b: int| 0 <= a < b < set.len() ==> set[a] < set[b]
    &&& forall|k: int|
        0 <= k < set.len() ==> has_entry(indices, values, #[trigger] set[k], sorted[k])
}

/// The index and the value stand at the same position.
pub open spec fn has_entry<E>(
    indices: Seq<usize>,
    values: Seq<E>,
    index: usize,
    value: E,
) -> bool {
    exists|j: int| #[trigger] is_entry(indices, values, j, index, value)
}

/// The index and the value at a position.
pub open spec fn is_entry<E>(
    indices: Seq<usize>,
    values: Seq<E>,
    j: int,
    index: usize,
    value: E,
) -> bool {
    0 <= j < indices.len() && indices[j] == index && values[j] == value
}

/// The values that one commitment's queries claim, in the order of the queries.
pub open spec fn evals_of<M: Modulus, E: Copy>(own: Seq<Query<M, E>>) -> Seq<E> {
    Seq::new(own.len(), |k: int| own[k].eval)
}

/// The data of one commitment, given the ordered point set it is opened at.
pub open spec fn is_data<M: Modulus, E: Copy>(
    queries: Seq<Query<M, E>>,
    data: CommitmentData<E>,
    set: Seq<usize>,
) -> bool {
    let indices = indices_of(queries, data.commitment);
    &&& data.point_indices@.len() == indices.len()
    &&& forall|k: int|
        0 <= k < indices.len() ==> (#[trigger] data.point_indices@[k]) as int == indices[k]
    &&& is_ordered(
        data.point_indices@,
        evals_of(queries_of(queries, data.commitment)),
        set,
        data.evals@,
    )
}

/// The commitments in the order of their first queries, with their point sets in the order in
/// which these first occur.
pub open spec fn is_grouping<M: Modulus, E: Copy>(
    queries: Seq<Query<M, E>>,
    data: Seq<CommitmentData<E>>,
    point_sets: Seq<Vec<Fe<M>>>,
    sets: Seq<Seq<usize>>,
) -> bool {
    let commitments = distinct(commitments_of(queries));
    let points = distinct(points_of(queries));
    &&& data.len() == commitments.len()
    &&& sets.len() == data.len()
    &&& forall|c: int|
        0 <= c < data.len() ==> (#[trigger] data[c]).commitment == commitments[c] && is_data(
            queries,
            data[c],
            sets[c],
        ) && data[c].set_index == position(distinct(sets), sets[c])
    &&& point_sets.len() == distinct(sets).len()
    &&& forall|s: int|
        0 <= s < point_sets.len() ==> is_point_set(
            points,
            distinct(sets)[s],
            (#[trigger] point_sets[s])@,
        )
}

/// The points with the given positions.
pub open spec fn is_point_set<M: Modulus>(
    points: Seq<int>,
    set: Seq<usize>,
    values: Seq<Fe<M>>,
) -> bool {
    &&& values.len() == set.len()
    &&& forall|k: int|
        0 <= k < set.len() ==> set[k] < points.len() && (#[trigger] values[k])@ == points[set[k] as int]
}

/// The position of a value that occurs is a position of it.
pub proof fn lemma_position<A>(values: Seq<A>, value: A)
    ensures
        0 <= position(values, value) <= values.len(),
        values.contains(value) <==> position(values, value) < values.len(),
        position(values, value) < values.len() ==> values[position(values, value)] == value,
        forall|i: int| 0 <= i < position(values, value) ==> values[i] != value,
    decreases values.len(),
{
    if values.len() > 0 {
        if values.first() == value {
            assert(values[0] == value);
        } else {
            let tail = values.drop_first();
            lemma_position(tail, value);
            if values.contains(value) {
                let i = choose|i: int| 0 <= i < values.len() && values[i] == value;
                assert(tail[i - 1] == value);
            }
            let k = position(tail, value);
            if k < tail.len() {
                assert(values[k + 1] == tail[k]);
            }
            assert forall|i: int| 0 <= i < 1 + k implies values[i] != value by {
                if i > 0 {
                    assert(tail[i - 1] != value);
                }
            }
        }
    }
}

/// A value without an earlier occurrence stands at its position.
pub proof fn lemma_position_at<A>(values: Seq<A>, i: int)
    requires
        0 <= i < values.len(),
        forall|j: int| 0 <= j < i ==> values[j] != values[i],
    ensures
        position(values, values[i]) == i,
{
    lemma_position(values, values[i]);
    let k = position(values, values[i]);
    assert(values.contains(values[i]));
    if k > i {
        assert(values[i] != values[i]);
    }
}

/// Values without repetitions occur once.
pub proof fn lemma_distinct<A>(values: Seq<A>)
    ensures
        forall|i: int, j: int|
            0 <= i < j < distinct(values).len() ==> distinct(values)[i] != distinct(values)[j],
        forall|i: int| 0 <= i < values.len() ==> distinct(values).contains(#[trigger] values[i]),
        forall|k: int|
            0 <= k < distinct(values).len() ==> values.contains(#[trigger] distinct(values)[k]),
        distinct(values).len() <= values.len(),
        values.len() > 0 ==> distinct(values).len() > 0,
    decreases values.len(),
{
    if values.len() > 0 {
        let front = values.drop_last();
        lemma_distinct(front);
        let d = distinct(values);
        assert forall|i: int| 0 <= i < values.len() implies d.contains(#[trigger] values[i]) by {
            if i < front.len() {
                assert(distinct(front).contains(front[i]));
                let k = choose|k: int| 0 <= k < distinct(front).len() && distinct(front)[k] == front[i];
                assert(d[k] == values[i]);
            } else if !distinct(front).contains(values.last()) {
                assert(d[distinct(front).len() as int] == values[i]);
            }
        }
        assert forall|k: int| 0 <= k < d.len() implies values.contains(#[trigger] d[k]) by {
            if k < distinct(front).len() {
                assert(front.contains(distinct(front)[k]));
                let i = choose|i: int| 0 <= i < front.len() && front[i] == distinct(front)[k];
                assert(values[i] == d[k]);
            } else {
                assert(values[values.len() - 1] == d[k]);
            }
        }
    }
}

/// More values only add positions at the end.
pub proof fn lemma_distinct_push<A>(values: Seq<A>, value: A, x: A)
    requires
        distinct(values).contains(x),
    ensures
        distinct(values.push(value)).contains(x),
        position(distinct(values.push(value)), x) == position(distinct(values), x),
{
    assert(values.push(value).drop_last() =~= values);
    let (d, e) = (distinct(values), distinct(values.push(value)));
    lemma_position(d, x);
    lemma_distinct(values.push(value));
    let k = position(d, x);
    assert(e[k] == x);
    lemma_position_at(e, k);
}

fn find_point<M: Modulus>(points: &Vec<Fe<M>>, point: Fe<M>) -> (r: usize)
    ensures
        r == position(point_values(points@), point@),
{
    let ghost all = point_values(points@);
    let mut i: usize = 0;
    while i < points.len()
        invariant
            i <= points@.len(),
            all == point_values(points@),
            forall|k: int| 0 <= k < i ==> all[k] != point@,
        decreases points@.len() - i,
    {
        if points[i].same(point) {
            proof {
                assert(all[i as int] == point@);
                lemma_position_at(all, i as int);
            }
            return i;
        }
        i += 1;
    }
    proof {
        lemma_position(all, point@);
    }
    i
}

spec fn point_values<M: Modulus>(points: Seq<Fe<M>>) -> Seq<int> {
    Seq::new(points.len(), |i: int| points[i]@)
}

fn contains_index(indices: &Vec<usize>, index: usize) -> (r: bool)
    ensures
        r == indices@.contains(index),
{
    let mut i: usize = 0;
    while i < indices.len()
        invariant
            i <= indices@.len(),
            forall|k: int| 0 <= k < i ==> indices@[k] != index,
        decreases indices@.len() - i,
    {
        if indices[i] == index {
            return true;
        }
        i += 1;
    }
    false
}

/// The collected data of one commitment, before its point set is known.
struct Collected<E: Copy> {
    commitment: CommitmentReference,
    point_indices: Vec<usize>,
    evals: Vec<E>,
}

spec fn is_collected<M: Modulus, E: Copy>(
    queries: Seq<Query<M, E>>,
    item: Collected<E>,
) -> bool {
    let indices = indices_of(queries, item.commitment);
    &&& item.point_indices@.len() == indices.len()
    &&& forall|k: int|
        0 <= k < indices.len() ==> (#[trigger] item.point_indices@[k]) as int == indices[k]
    &&& item.evals@ == evals_of(queries_of(queries, item.commitment))
}

/// A further query leaves the positions of the queries before it as they are.
proof fn lemma_indices_push<M: Modulus, E: Copy>(
    queries: Seq<Query<M, E>>,
    query: Query<M, E>,
    commitment: CommitmentReference,
)
    ensures
        indices_of(queries.push(query), commitment) == if query.commitment == commitment {
            indices_of(queries, commitment).push(
                position(distinct(points_of(queries.push(query))), query.point@),
            )
        } else {
            indices_of(queries, commitment)
        },
        evals_of(queries_of(queries.push(query), commitment)) == if query.commitment
            == commitment {
            evals_of(queries_of(queries, commitment)).push(query.eval)
        } else {
            evals_of(queries_of(queries, commitment))
        },
{
    let after = queries.push(query);
    assert(after.drop_last() =~= queries);
    assert(points_of(after) =~= points_of(queries).push(query.point@));
    let (own, own_after) = (queries_of(queries, commitment), queries_of(after, commitment));
    let front = indices_of(queries, commitment);
    let all = indices_of(after, commitment);
    assert forall|k: int| 0 <= k < own.len() implies #[trigger] all[k] == front[k] by {
        lemma_own_point(queries, commitment, k);
        lemma_distinct(points_of(queries));
        lemma_distinct_push(points_of(queries), query.point@, own[k].point@);
    }
    if query.commitment == commitment {
        assert(all =~= front.push(position(distinct(points_of(after)), query.point@)));
        assert(evals_of(own_after) =~= evals_of(own).push(query.eval));
    } else {
        assert(all =~= front);
    }
}

/// A query of a commitment is one of the queries.
pub proof fn lemma_own_point<M: Modulus, E: Copy>(
    queries: Seq<Query<M, E>>,
    commitment: CommitmentReference,
    k: int,
) -> (i: int)
    requires
        0 <= k < queries_of(queries, commitment).len(),
    ensures
        0 <= i < queries.len(),
        queries[i] == queries_of(queries, commitment)[k],
        queries[i].commitment == commitment,
        distinct(points_of(queries)).contains(queries_of(queries, commitment)[k].point@),
    decreases queries.len(),
{
    lemma_distinct(points_of(queries));
    let front = queries.drop_last();
    let i = if k < queries_of(front, commitment).len() {
        lemma_own_point(front, commitment, k)
    } else {
        queries.len() - 1
    };
    assert(points_of(queries)[i] == queries[i].point@);
    i
}

/// Every query of a commitment is among its queries.
pub proof fn lemma_own_query<M: Modulus, E: Copy>(queries: Seq<Query<M, E>>, i: int) -> (k: int)
    requires
        0 <= i < queries.len(),
    ensures
        0 <= k < queries_of(queries, queries[i].commitment).len(),
        queries_of(queries, queries[i].commitment)[k] == queries[i],
    decreases queries.len(),
{
    let front = queries.drop_last();
    if i < front.len() {
        lemma_own_query(front, i)
    } else {
        queries_of(queries, queries[i].commitment).len() - 1
    }
}

/// Collects the queries of each commitment; `None` where one asks twice for the same point.
fn collect_queries<M: Modulus, E: Copy>(queries: &Vec<Query<M, E>>) -> (r: Option<
    (Vec<Collected<E>>, Vec<Fe<M>>),
>)
    ensures
        r is None <==> has_duplicate(queries@),
        r matches Some((items, points)) ==> {
            &&& point_values(points@) == distinct(points_of(queries@))
            &&& items@.len() == distinct(commitments_of(queries@)).len()
            &&& forall|c: int|
                0 <= c < items@.len() ==> (#[trigger] items@[c]).commitment == distinct(
                    commitments_of(queries@),
                )[c] && is_collected(queries@, items@[c])
        },
{
    let mut map = empty_map();
    let mut items: Vec<Collected<E>> = Vec::new();
    let mut points: Vec<Fe<M>> = Vec::new();
    let mut i: usize = 0;
    let ghost all = queries@;
    proof {
        assert(all.take(0) =~= Seq::empty());
        assert(points_of(all.take(0)) =~= Seq::empty());
        assert(commitments_of(all.take(0)) =~= Seq::empty());
        assert(point_values(points@) =~= Seq::empty());
    }
    while i < queries.len()
        invariant
            i <= all.len(),
            all == queries@,
            point_values(points@) == distinct(points_of(all.take(i as int))),
            items@.len() == distinct(commitments_of(all.take(i as int))).len(),
            map_keys(map).len() == items@.len(),
            forall|c: int|
                0 <= c < items@.len() ==> #[trigger] map_keys(map)[c]
                    == items@[c].commitment.key_of(),
            forall|c: int|
                0 <= c < items@.len() ==> (#[trigger] items@[c]).commitment == distinct(
                    commitments_of(all.take(i as int)),
                )[c] && is_collected(all.take(i as int), items@[c]),
            !has_duplicate(all.take(i as int)),
        decreases all.len() - i,
    {
        let query = queries[i];
        let ghost (prefix, next) = (all.take(i as int), all.take(i + 1));
        let ghost (items0, points0, keys0) = (items@, points@, map_keys(map));
        proof {
            assert(next =~= prefix.push(query));
            assert(points_of(next) =~= points_of(prefix).push(query.point@));
            assert(points_of(next).drop_last() =~= points_of(prefix));
            assert(commitments_of(next) =~= commitments_of(prefix).push(query.commitment));
            assert(commitments_of(next).drop_last() =~= commitments_of(prefix));
            lemma_distinct(points_of(prefix));
            lemma_distinct(commitments_of(prefix));
            lemma_position(distinct(points_of(prefix)), query.point@);
        }
        let index = find_point(&points, query.point);
        if index == points.len() {
            points.push(query.point);
        }
        proof {
            assert(point_values(points@) =~= distinct(points_of(next)));
            let d = distinct(points_of(next));
            lemma_distinct(points_of(next));
            assert(d[index as int] == query.point@);
            lemma_position_at(d, index as int);
            lemma_index_unused(prefix, query, index as int);
        }
        let slot = insert_key(&mut map, query.commitment.key());
        if slot == items.len() {
            proof {
                assert forall|c: int| 0 <= c < items@.len() implies items@[c].commitment
                    != query.commitment by {
                    assert(keys0[c] == items@[c].commitment.key_of());
                }
                if distinct(commitments_of(prefix)).contains(query.commitment) {
                    let c = choose|c: int|
                        0 <= c < distinct(commitments_of(prefix)).len() && distinct(
                            commitments_of(prefix),
                        )[c] == query.commitment;
                    assert(items@[c].commitment == query.commitment);
                }
                lemma_no_queries(prefix, query.commitment);
            }
            items.push(
                Collected {
                    commitment: query.commitment,
                    point_indices: Vec::new(),
                    evals: Vec::new(),
                },
            );
            proof {
                let item = items@[slot as int];
                assert(indices_of(prefix, item.commitment) =~= Seq::empty());
                assert(item.evals@ =~= evals_of(queries_of(prefix, item.commitment)));
                assert(is_collected(prefix, item));
            }
        } else {
            proof {
                assert(keys0[slot as int] == items@[slot as int].commitment.key_of());
                assert(items@[slot as int].commitment == query.commitment);
                assert(distinct(commitments_of(prefix))[slot as int] == query.commitment);
                assert(distinct(commitments_of(prefix)).contains(query.commitment));
            }
        }
        let ghost items1 = items@;
        assert(items1[slot as int].commitment == query.commitment && is_collected(
            prefix,
            items1[slot as int],
        ));
        if contains_index(&items[slot].point_indices, index) {
            proof {
                let own = items1[slot as int].point_indices@;
                let k = choose|k: int| 0 <= k < own.len() && own[k] == index;
                assert(indices_of(prefix, query.commitment)[k] == index);
                let j = lemma_own_point(prefix, query.commitment, k);
                lemma_index_used(prefix, query, k, index as int);
                assert(is_duplicate(all, j, i as int));
            }
            return None;
        }
        push_entry(&mut items, slot, index, query.eval);
        proof {
            assert forall|c: int| 0 <= c < items@.len() implies (#[trigger] items@[c]).commitment
                == distinct(commitments_of(next))[c] && is_collected(next, items@[c]) by {
                lemma_indices_push(prefix, query, items@[c].commitment);
                assert(is_collected(prefix, items1[c]));
                if c != slot {
                    assert(items1[c] == items0[c]);
                    assert(items@[c].commitment != query.commitment) by {
                        if slot == items0.len() {
                            assert(keys0[c] == items0[c].commitment.key_of());
                        } else {
                            let d = distinct(commitments_of(prefix));
                            assert(d[c] == items0[c].commitment && d[slot as int]
                                == query.commitment);
                            if c < slot {
                                assert(d[c] != d[slot as int]);
                            } else {
                                assert(d[slot as int] != d[c]);
                            }
                        }
                    }
                }
            }
            if has_duplicate(next) {
                let (a, b) = choose|a: int, b: int| is_duplicate(next, a, b);
                if b < i {
                    assert(is_duplicate(prefix, a, b));
                } else {
                    let k = lemma_own_query(prefix, a);
                    lemma_index_same(prefix, query, k, index as int);
                    assert(items1[slot as int].point_indices@[k] == index);
                }
            }
        }
        i += 1;
    }
    assert(all.take(i as int) =~= all);
    Some((items, points))
}

/// The position of a query's point is that of an earlier query of its commitment only if the
/// points agree.
proof fn lemma_index_used<M: Modulus, E: Copy>(
    prefix: Seq<Query<M, E>>,
    query: Query<M, E>,
    k: int,
    index: int,
)
    requires
        0 <= k < queries_of(prefix, query.commitment).len(),
        indices_of(prefix, query.commitment)[k] == index,
        index < distinct(points_of(prefix.push(query))).len(),
        distinct(points_of(prefix.push(query)))[index] == query.point@,
    ensures
        queries_of(prefix, query.commitment)[k].point@ == query.point@,
{
    let x = queries_of(prefix, query.commitment)[k].point@;
    let j = lemma_own_point(prefix, query.commitment, k);
    assert(points_of(prefix.push(query)) =~= points_of(prefix).push(query.point@));
    lemma_distinct_push(points_of(prefix), query.point@, x);
    lemma_position(distinct(points_of(prefix.push(query))), x);
}

/// Queries of one commitment at the same point have the same position.
proof fn lemma_index_same<M: Modulus, E: Copy>(
    prefix: Seq<Query<M, E>>,
    query: Query<M, E>,
    k: int,
    index: int,
)
    requires
        0 <= k < queries_of(prefix, query.commitment).len(),
        queries_of(prefix, query.commitment)[k].point@ == query.point@,
        index == position(distinct(points_of(prefix.push(query))), query.point@),
    ensures
        indices_of(prefix, query.commitment)[k] == index,
{
    let j = lemma_own_point(prefix, query.commitment, k);
    assert(points_of(prefix.push(query)) =~= points_of(prefix).push(query.point@));
    lemma_distinct_push(points_of(prefix), query.point@, query.point@);
}

proof fn lemma_index_unused<M: Modulus, E: Copy>(
    prefix: Seq<Query<M, E>>,
    query: Query<M, E>,
    index: int,
)
    requires
        index == position(distinct(points_of(prefix.push(query))), query.point@),
    ensures
        index < distinct(points_of(prefix.push(query))).len(),
{
    let all = points_of(prefix.push(query));
    lemma_distinct(all);
    assert(all[prefix.len() as int] == query.point@);
    lemma_position(distinct(all), query.point@);
}

/// A commitment that is not queried has no queries.
proof fn lemma_no_queries<M: Modulus, E: Copy>(
    queries: Seq<Query<M, E>>,
    commitment: CommitmentReference,
)
    requires
        !distinct(commitments_of(queries)).contains(commitment),
    ensures
        queries_of(queries, commitment).len() == 0,
{
    if queries_of(queries, commitment).len() > 0 {
        let i = lemma_own_point(queries, commitment, 0);
        lemma_distinct(commitments_of(queries));
        assert(commitments_of(queries)[i] == commitment);
    }
}

fn push_entry<E: Copy>(items: &mut Vec<Collected<E>>, slot: usize, index: usize, eval: E)
    requires
        slot < old(items)@.len(),
    ensures
        final(items)@.len() == old(items)@.len(),
        forall|c: int| 0 <= c < final(items)@.len() && c != slot ==> final(items)@[c] == old(items)@[c],
        final(items)@[slot as int].commitment == old(items)@[slot as int].commitment,
        final(items)@[slot as int].point_indices@ == old(
            items,
        )@[slot as int].point_indices@.push(index),
        final(items)@[slot as int].evals@ == old(items)@[slot as int].evals@.push(eval),
{
    items[slot].point_indices.push(index);
    items[slot].evals.push(eval);
}

/// Inserting the next index before all larger ones keeps the arrangement ascending.
proof fn lemma_insert<E>(
    indices: Seq<usize>,
    values: Seq<E>,
    i: int,
    set0: Seq<usize>,
    sorted0: Seq<E>,
    at: int,
)
    requires
        0 <= i < indices.len(),
        indices.len() == values.len(),
        forall|a: int, b: int| 0 <= a < b < indices.len() ==> indices[a] != indices[b],
        is_ordered(indices.take(i), values.take(i), set0, sorted0),
        0 <= at <= i,
        forall|b: int| at <= b < i ==> set0[b] > indices[i],
        at > 0 ==> set0[at - 1] <= indices[i],
    ensures
        is_ordered(
            indices.take(i + 1),
            values.take(i + 1),
            set0.insert(at, indices[i]),
            sorted0.insert(at, values[i]),
        ),
{
    let index = indices[i];
    let (set, sorted) = (set0.insert(at, index), sorted0.insert(at, values[i]));
    let (t0, v0) = (indices.take(i), values.take(i));
    let (t1, v1) = (indices.take(i + 1), values.take(i + 1));
    assert forall|b: int| 0 <= b < i implies set0[b] != index by {
        assert(has_entry(t0, v0, set0[b], sorted0[b]));
        let j = choose|j: int| is_entry(t0, v0, j, set0[b], sorted0[b]);
        assert(t0[j] == indices[j]);
    }
    assert forall|a: int, b: int| 0 <= a < b < set.len() implies set[a] < set[b] by {
        let (x, y) = (if a < at { a } else { a - 1 }, if b < at { b } else { b - 1 });
        if a == at {
            assert(set[b] == set0[y]);
        } else if b == at {
            assert(set[a] == set0[a]);
            if a < at - 1 {
                assert(set0[a] < set0[at - 1]);
            }
        } else {
            assert(set[a] == set0[x] && set[b] == set0[y]);
        }
    }
    assert forall|k: int| 0 <= k < set.len() implies has_entry(
        t1,
        v1,
        #[trigger] set[k],
        sorted[k],
    ) by {
        if k == at {
            assert(is_entry(t1, v1, i, set[k], sorted[k]));
        } else {
            let x = if k < at { k } else { k - 1 };
            assert(set[k] == set0[x] && sorted[k] == sorted0[x]);
            assert(has_entry(t0, v0, set0[x], sorted0[x]));
            let j = choose|j: int| is_entry(t0, v0, j, set0[x], sorted0[x]);
            assert(is_entry(t1, v1, j, set[k], sorted[k]));
        }
    }
}

/// Sorts values by their distinct indices.
fn sort_by_index<E: Copy>(indices: &Vec<usize>, values: &Vec<E>) -> (r: (Vec<usize>, Vec<E>))
    requires
        indices@.len() == values@.len(),
        forall|a: int, b: int| 0 <= a < b < indices@.len() ==> indices@[a] != indices@[b],
    ensures
        is_ordered(indices@, values@, r.0@, r.1@),
{
    let mut set: Vec<usize> = Vec::new();
    let mut sorted: Vec<E> = Vec::new();
    let mut i: usize = 0;
    while i < indices.len()
        invariant
            i <= indices@.len(),
            indices@.len() == values@.len(),
            forall|a: int, b: int| 0 <= a < b < indices@.len() ==> indices@[a] != indices@[b],
            is_ordered(indices@.take(i as int), values@.take(i as int), set@, sorted@),
        decreases indices@.len() - i,
    {
        let index = indices[i];
        let mut at: usize = i;
        while at > 0 && set[at - 1] > index
            invariant
                at <= i,
                set@.len() == i,
                forall|b: int| at <= b < i ==> set@[b] > index,
            decreases at,
        {
            at -= 1;
        }
        let ghost (set0, sorted0) = (set@, sorted@);
        set.insert(at, index);
        sorted.insert(at, values[i]);
        proof {
            lemma_insert(indices@, values@, i as int, set0, sorted0, at as int);
        }
        i += 1;
    }
    proof {
        assert(indices@.take(i as int) =~= indices@);
        assert(values@.take(i as int) =~= values@);
    }
    (set, sorted)
}

spec fn set_values(sets: Seq<Vec<usize>>) -> Seq<Seq<usize>> {
    Seq::new(sets.len(), |s: int| sets[s]@)
}

fn find_set(sets: &Vec<Vec<usize>>, set: &Vec<usize>) -> (r: usize)
    ensures
        r == position(set_values(sets@), set@),
{
    let ghost all = set_values(sets@);
    let mut i: usize = 0;
    while i < sets.len()
        invariant
            i <= sets@.len(),
            all == set_values(sets@),
            forall|k: int| 0 <= k < i ==> all[k] != set@,
        decreases sets@.len() - i,
    {
        if same_set(&sets[i], set) {
            proof {
                assert(all[i as int] == set@);
                lemma_position_at(all, i as int);
            }
            return i;
        }
        assert(all[i as int] != set@);
        i += 1;
    }
    proof {
        lemma_position(all, set@);
    }
    i
}

fn same_set(a: &Vec<usize>, b: &Vec<usize>) -> (r: bool)
    ensures
        r == (a@ == b@),
{
    if a.len() != b.len() {
        return false;
    }
    let mut i: usize = 0;
    while i < a.len()
        invariant
            i <= a@.len(),
            a@.len() == b@.len(),
            forall|k: int| 0 <= k < i ==> a@[k] == b@[k],
        decreases a@.len() - i,
    {
        if a[i] != b[i] {
            return false;
        }
        i += 1;
    }
    assert(a@ =~= b@);
    true
}

/// Groups the queries by commitment, and the commitments by the sets of points they are opened
/// at; `None` if there are no queries or one commitment is queried twice at the same point.
pub fn construct_intermediate_sets<M: Modulus, E: Copy>(queries: &Vec<Query<M, E>>) -> (r: Option<
    (Vec<CommitmentData<E>>, Vec<Vec<Fe<M>>>),
>)
    ensures
        r is None <==> queries@.len() == 0 || has_duplicate(queries@),
        r matches Some((data, point_sets)) ==> exists|sets: Seq<Seq<usize>>| #[trigger]
            is_grouping(queries@, data@, point_sets@, sets),
{
    let (items, points) = match collect_queries(queries) {
        Some(collected) => collected,
        None => {
            return None;
        },
    };
    proof {
        lemma_distinct(commitments_of(queries@));
        lemma_distinct(points_of(queries@));
        if queries@.len() == 0 && has_duplicate(queries@) {
            let (a, b) = choose|a: int, b: int| is_duplicate(queries@, a, b);
        }
    }
    if items.len() == 0 {
        return None;
    }
    let mut data: Vec<CommitmentData<E>> = Vec::new();
    let mut found: Vec<Vec<usize>> = Vec::new();
    let ghost mut sets: Seq<Seq<usize>> = Seq::empty();
    let mut c: usize = 0;
    assert(set_values(found@) =~= distinct(sets));
    while c < items.len()
        invariant
            c <= items@.len(),
            !has_duplicate(queries@),
            items@.len() == distinct(commitments_of(queries@)).len(),
            forall|k: int|
                0 <= k < items@.len() ==> (#[trigger] items@[k]).commitment == distinct(
                    commitments_of(queries@),
                )[k] && is_collected(queries@, items@[k]),
            data@.len() == c,
            sets.len() == c,
            set_values(found@) == distinct(sets),
            forall|k: int|
                0 <= k < c ==> (#[trigger] data@[k]).commitment == distinct(
                    commitments_of(queries@),
                )[k] && is_data(queries@, data@[k], sets[k]) && data@[k].set_index == position(
                    distinct(sets),
                    sets[k],
                ),
        decreases items@.len() - c,
    {
        let item = &items[c];
        proof {
            assert(is_collected(queries@, items@[c as int]));
            lemma_indices_differ(queries@, item.commitment);
            assert forall|a: int, b: int| 0 <= a < b < item.point_indices@.len() implies item.point_indices@[a]
                != item.point_indices@[b] by {
                let indices = indices_of(queries@, item.commitment);
                assert(item.point_indices@[a] as int == indices[a]);
                assert(item.point_indices@[b] as int == indices[b]);
            }
        }
        let (set, evals) = sort_by_index(&item.point_indices, &item.evals);
        let set_index = find_set(&found, &set);
        let point_indices = copy_indices(&item.point_indices);
        let ghost (sets0, data0) = (sets, data@);
        let entry = CommitmentData {
            commitment: item.commitment,
            set_index,
            point_indices,
            evals,
        };
        proof {
            let s = set@;
            sets = sets.push(s);
            assert(sets.drop_last() =~= sets0);
            lemma_distinct(sets0);
            lemma_position(distinct(sets0), s);
            assert(is_data(queries@, entry, s));
        }
        if set_index == found.len() {
            found.push(set);
        }
        data.push(entry);
        proof {
            assert(set_values(found@) =~= distinct(sets));
            lemma_distinct(sets);
            assert(distinct(sets)[set_index as int] == sets[c as int]);
            lemma_position_at(distinct(sets), set_index as int);
            assert forall|k: int| 0 <= k < c + 1 implies (#[trigger] data@[k]).commitment
                == distinct(commitments_of(queries@))[k] && is_data(queries@, data@[k], sets[k])
                && data@[k].set_index == position(distinct(sets), sets[k]) by {
                if k < c {
                    assert(data@[k] == data0[k]);
                    assert(distinct(sets0).contains(sets0[k]));
                    lemma_distinct_push(sets0, sets[c as int], sets0[k]);
                }
            }
        }
        c += 1;
    }
    let mut point_sets: Vec<Vec<Fe<M>>> = Vec::new();
    let mut s: usize = 0;
    while s < found.len()
        invariant
            s <= found@.len(),
            set_values(found@) == distinct(sets),
            point_values(points@) == distinct(points_of(queries@)),
            sets.len() == data@.len(),
            forall|k: int|
                0 <= k < data@.len() ==> is_data(queries@, #[trigger] data@[k], sets[k]),
            point_sets@.len() == s,
            forall|k: int|
                0 <= k < s ==> is_point_set(
                    distinct(points_of(queries@)),
                    distinct(sets)[k],
                    (#[trigger] point_sets@[k])@,
                ),
        decreases found@.len() - s,
    {
        proof {
            let set = distinct(sets)[s as int];
            assert(set == found@[s as int]@);
            lemma_distinct(sets);
            assert(sets.contains(set));
            let k = choose|k: int| 0 <= k < sets.len() && sets[k] == set;
            assert(is_data(queries@, data@[k], sets[k]));
            lemma_set_bound(queries@, data@[k], set);
        }
        let values = collect_points(&points, &found[s]);
        proof {
            let all = distinct(points_of(queries@));
            let set = distinct(sets)[s as int];
            assert forall|k: int| 0 <= k < set.len() implies set[k] < all.len() && (
            #[trigger] values@[k])@ == all[set[k] as int] by {
                assert(values@[k] == points@[found@[s as int]@[k] as int]);
                assert(point_values(points@)[set[k] as int] == points@[set[k] as int]@);
            }
        }
        point_sets.push(values);
        s += 1;
    }
    let ghost (d, p) = (data@, point_sets@);
    assert(is_grouping(queries@, d, p, sets));
    let r = Some((data, point_sets));
    assert(is_grouping(queries@, (r->0).0@, (r->0).1@, sets));
    r
}

/// Without duplicates the positions of one commitment's points differ.
pub proof fn lemma_indices_differ<M: Modulus, E: Copy>(
    queries: Seq<Query<M, E>>,
    commitment: CommitmentReference,
)
    requires
        !has_duplicate(queries),
    ensures
        forall|a: int, b: int|
            0 <= a < b < indices_of(queries, commitment).len() ==> indices_of(queries, commitment)[a]
                != indices_of(queries, commitment)[b],
    decreases queries.len(),
{
    if queries.len() > 0 {
        let front = queries.drop_last();
        let query = queries.last();
        assert(front.push(query) =~= queries);
        if has_duplicate(front) {
            let (a, b) = choose|a: int, b: int| is_duplicate(front, a, b);
            assert(is_duplicate(queries, a, b));
        }
        lemma_indices_differ(front, commitment);
        lemma_indices_push(front, query, commitment);
        let (x, y) = (indices_of(front, commitment), indices_of(queries, commitment));
        assert forall|a: int, b: int| 0 <= a < b < y.len() implies y[a] != y[b] by {
            if b < x.len() {
                assert(x[a] != x[b]);
            } else if y[a] == y[b] {
                let index = position(distinct(points_of(queries)), query.point@);
                lemma_index_unused(front, query, index);
                lemma_position(distinct(points_of(queries)), query.point@);
                lemma_index_used(front, query, a, index);
                let i = lemma_own_point(front, commitment, a);
                assert(is_duplicate(queries, i, front.len() as int));
            }
        }
    }
}

pub proof fn lemma_set_bound<M: Modulus, E: Copy>(
    queries: Seq<Query<M, E>>,
    data: CommitmentData<E>,
    set: Seq<usize>,
)
    requires
        is_data(queries, data, set),
    ensures
        forall|k: int|
            0 <= k < set.len() ==> (#[trigger] set[k]) < distinct(points_of(queries)).len(),
{
    let indices = indices_of(queries, data.commitment);
    assert forall|k: int| 0 <= k < set.len() implies (#[trigger] set[k]) < distinct(
        points_of(queries),
    ).len() by {
        assert(has_entry(
            data.point_indices@,
            evals_of(queries_of(queries, data.commitment)),
            set[k],
            data.evals@[k],
        ));
        let j = choose|j: int|
            is_entry(
                data.point_indices@,
                evals_of(queries_of(queries, data.commitment)),
                j,
                set[k],
                data.evals@[k],
            );
        assert(data.point_indices@[j] as int == indices[j]);
        let i = lemma_own_point(queries, data.commitment, j);
        lemma_position(
            distinct(points_of(queries)),
            queries_of(queries, data.commitment)[j].point@,
        );
    }
}

fn copy_indices(indices: &Vec<usize>) -> (r: Vec<usize>)
    ensures
        r@ == indices@,
{
    let mut r: Vec<usize> = Vec::new();
    let mut i: usize = 0;
    while i < indices.len()
        invariant
            i <= indices@.len(),
            r@ == indices@.take(i as int),
        decreases indices@.len() - i,
    {
        r.push(indices[i]);
        i += 1;
        assert(indices@.take(i as int) =~= indices@.take(i - 1).push(indices@[i - 1]));
    }
    assert(indices@.take(i as int) =~= indices@);
    r
}

fn collect_points<M: Modulus>(points: &Vec<Fe<M>>, set: &Vec<usize>) -> (r: Vec<Fe<M>>)
    requires
        forall|k: int| 0 <= k < set@.len() ==> (#[trigger] set@[k]) < points@.len(),
    ensures
        r@.len() == set@.len(),
        forall|k: int| 0 <= k < set@.len() ==> #[trigger] r@[k] == points@[set@[k] as int],
{
    let mut r: Vec<Fe<M>> = Vec::new();
    let mut i: usize = 0;
    while i < set.len()
        invariant
            i <= set@.len(),
            r@.len() == i,
            forall|k: int| 0 <= k < set@.len() ==> (#[trigger] set@[k]) < points@.len(),
            forall|k: int| 0 <= k < i ==> #[trigger] r@[k] == points@[set@[k] as int],
        decreases set@.len() - i,
    {
        assert(set@[i as int] < points@.len());
        r.push(points[set[i]]);
        i += 1;
    }
    r
}

/// The points of two lists of queries agree in the same places.
pub open spec fn same_pattern<M: Modulus, E: Copy>(
    a: Seq<Query<M, E>>,
    b: Seq<Query<M, E>>,
) -> bool {
    &&& a.len() == b.len()
    &&& forall|i: int| 0 <= i < a.len() ==> (#[trigger] a[i]).commitment == b[i].commitment
    &&& forall|i: int, j: int|
        0 <= i < j < a.len() ==> ((#[trigger] a[i]).point@ == (#[trigger] a[j]).point@ <==> b[i].point@
            == b[j].point@)
}

/// Positions among distinct values depend only on which values agree.
proof fn lemma_pattern_positions(a: Seq<int>, b: Seq<int>)
    requires
        a.len() == b.len(),
        forall|i: int, j: int| 0 <= i < j < a.len() ==> (a[i] == a[j] <==> b[i] == b[j]),
    ensures
        distinct(a).len() == distinct(b).len(),
        forall|i: int|
            0 <= i < a.len() ==> position(distinct(a), #[trigger] a[i]) == position(
                distinct(b),
                b[i],
            ),
    decreases a.len(),
{
    if a.len() > 0 {
        let (x, y) = (a.drop_last(), b.drop_last());
        lemma_pattern_positions(x, y);
        lemma_distinct(x);
        lemma_distinct(y);
        lemma_distinct(a);
        lemma_distinct(b);
        let (u, v) = (a.last(), b.last());
        assert(x.push(u) =~= a && y.push(v) =~= b);
        assert(distinct(x).contains(u) <==> distinct(y).contains(v)) by {
            if distinct(x).contains(u) {
                let k = choose|k: int| 0 <= k < distinct(x).len() && distinct(x)[k] == u;
                assert(x.contains(distinct(x)[k]));
                let i = choose|i: int| 0 <= i < x.len() && x[i] == u;
                assert(a[i] == a[a.len() - 1]);
                assert(y[i] == v);
                assert(distinct(y).contains(y[i]));
            }
            if distinct(y).contains(v) {
                let k = choose|k: int| 0 <= k < distinct(y).len() && distinct(y)[k] == v;
                assert(y.contains(distinct(y)[k]));
                let i = choose|i: int| 0 <= i < y.len() && y[i] == v;
                assert(b[i] == b[a.len() - 1]);
                assert(x[i] == u);
                assert(distinct(x).contains(x[i]));
            }
        }
        assert forall|i: int| 0 <= i < a.len() implies position(distinct(a), #[trigger] a[i])
            == position(distinct(b), b[i]) by {
            if i < x.len() {
                assert(distinct(x).contains(x[i]) && distinct(y).contains(y[i]));
                lemma_distinct_push(x, u, x[i]);
                lemma_distinct_push(y, v, y[i]);
                assert(position(distinct(x), x[i]) == position(distinct(y), y[i]));
            } else if distinct(x).contains(u) {
                let k = choose|k: int| 0 <= k < distinct(x).len() && distinct(x)[k] == u;
                assert(x.contains(distinct(x)[k]));
                let j = choose|j: int| 0 <= j < x.len() && x[j] == u;
                assert(a[j] == a[a.len() - 1]);
                assert(y[j] == v);
                assert(position(distinct(x), x[j]) == position(distinct(y), y[j]));
            } else {
                let n = distinct(x).len() as int;
                assert(distinct(a)[n] == u && distinct(b)[n] == v);
                lemma_position_at(distinct(a), n);
                lemma_position_at(distinct(b), n);
            }
        }
    }
}

/// The point indices of a commitment do not depend on the values of the points, but only on
/// which points agree.
pub proof fn lemma_indices_by_pattern<M: Modulus, E: Copy>(
    a: Seq<Query<M, E>>,
    b: Seq<Query<M, E>>,
    commitment: CommitmentReference,
)
    requires
        same_pattern(a, b),
    ensures
        indices_of(a, commitment) == indices_of(b, commitment),
    decreases a.len(),
{
    lemma_pattern_positions_of(a, b);
    if a.len() == 0 {
        assert(indices_of(a, commitment) =~= indices_of(b, commitment));
    } else {
        let (x, y) = (a.drop_last(), b.drop_last());
        assert(same_pattern(x, y)) by {
            assert forall|i: int| 0 <= i < x.len() implies (#[trigger] x[i]).commitment
                == y[i].commitment by {
                assert(a[i].commitment == b[i].commitment);
            }
            assert forall|i: int, j: int| 0 <= i < j < x.len() implies ((
            #[trigger] x[i]).point@ == (#[trigger] x[j]).point@ <==> y[i].point@ == y[j].point@) by {
                assert(a[i].point@ == a[j].point@ <==> b[i].point@ == b[j].point@);
            }
        }
        lemma_indices_by_pattern(x, y, commitment);
        assert(x.push(a.last()) =~= a && y.push(b.last()) =~= b);
        lemma_indices_push(x, a.last(), commitment);
        lemma_indices_push(y, b.last(), commitment);
        let n = a.len() - 1;
        assert(a[n].commitment == b[n].commitment);
        assert(points_of(a)[n] == a[n].point@ && points_of(b)[n] == b[n].point@);
    }
}

proof fn lemma_pattern_positions_of<M: Modulus, E: Copy>(
    a: Seq<Query<M, E>>,
    b: Seq<Query<M, E>>,
)
    requires
        same_pattern(a, b),
    ensures
        forall|i: int|
            0 <= i < a.len() ==> position(distinct(points_of(a)), #[trigger] points_of(a)[i])
                == position(distinct(points_of(b)), points_of(b)[i]),
{
    let (x, y) = (points_of(a), points_of(b));
    assert forall|i: int, j: int| 0 <= i < j < x.len() implies (x[i] == x[j] <==> y[i] == y[j]) by {
        assert(a[i].point@ == a[j].point@ <==> b[i].point@ == b[j].point@);
    }
    lemma_pattern_positions(x, y);
}

/// Neither the point indices nor the point sets' positions depend on the values of the points or
/// on the claimed values: lists of queries for the same commitments whose points agree in the
/// same places are grouped alike.
pub proof fn lemma_grouping_by_pattern<M: Modulus, E: Copy>(
    a: Seq<Query<M, E>>,
    b: Seq<Query<M, E>>,
    data_a: Seq<CommitmentData<E>>,
    data_b: Seq<CommitmentData<E>>,
    point_sets_a: Seq<Vec<Fe<M>>>,
    point_sets_b: Seq<Vec<Fe<M>>>,
    sets_a: Seq<Seq<usize>>,
    sets_b: Seq<Seq<usize>>,
)
    requires
        same_pattern(a, b),
        is_grouping(a, data_a, point_sets_a, sets_a),
        is_grouping(b, data_b, point_sets_b, sets_b),
    ensures
        data_a.len() == data_b.len(),
        forall|c: int|
            0 <= c < data_a.len() ==> (#[trigger] data_a[c]).set_index == data_b[c].set_index
                && data_a[c].point_indices@ == data_b[c].point_indices@,
{
    assert forall|i: int| 0 <= i < a.len() implies #[trigger] commitments_of(a)[i]
        == commitments_of(b)[i] by {
        assert(a[i].commitment == b[i].commitment);
    }
    assert(commitments_of(a) =~= commitments_of(b));
    assert forall|c: int| 0 <= c < data_a.len() implies (#[trigger] data_a[c]).commitment
        == data_b[c].commitment && data_a[c].point_indices@ == data_b[c].point_indices@ && sets_a[c]
        == sets_b[c] by {
        let commitment = data_a[c].commitment;
        assert(data_b[c].commitment == commitment);
        lemma_indices_by_pattern(a, b, commitment);
        let (x, y) = (data_a[c].point_indices@, data_b[c].point_indices@);
        let indices = indices_of(a, commitment);
        assert(x.len() == y.len());
        assert forall|k: int| 0 <= k < x.len() implies x[k] == y[k] by {
            assert(x[k] as int == indices[k] && y[k] as int == indices[k]);
        }
        assert(x =~= y);
        lemma_ordered_unique(
            x,
            evals_of(queries_of(a, commitment)),
            evals_of(queries_of(b, commitment)),
            sets_a[c],
            sets_b[c],
            data_a[c].evals@,
            data_b[c].evals@,
        );
    }
    assert forall|c: int| 0 <= c < sets_a.len() implies sets_a[c] == sets_b[c] by {
        assert(data_a[c].commitment == data_b[c].commitment);
    }
    assert(sets_a =~= sets_b);
    assert forall|c: int| 0 <= c < data_a.len() implies (#[trigger] data_a[c]).set_index
        == data_b[c].set_index && data_a[c].point_indices@ == data_b[c].point_indices@ by {
        assert(data_b[c].set_index == position(distinct(sets_b), sets_b[c]));
    }
}

/// The ascending arrangement of the same indices is unique.
proof fn lemma_ordered_unique<E>(
    indices: Seq<usize>,
    values_a: Seq<E>,
    values_b: Seq<E>,
    a: Seq<usize>,
    b: Seq<usize>,
    sorted_a: Seq<E>,
    sorted_b: Seq<E>,
)
    requires
        is_ordered(indices, values_a, a, sorted_a),
        is_ordered(indices, values_b, b, sorted_b),
    ensures
        a == b,
{
    lemma_ordered_members(indices, values_a, a, sorted_a);
    lemma_ordered_members(indices, values_b, b, sorted_b);
    assert forall|k: int| 0 <= k < a.len() implies a[k] == b[k] by {
        lemma_ordered_agree(a, b, k);
    }
    assert(a =~= b);
}

/// Every index occurs in the arrangement.
pub proof fn lemma_ordered_members<E>(
    indices: Seq<usize>,
    values: Seq<E>,
    set: Seq<usize>,
    sorted: Seq<E>,
)
    requires
        is_ordered(indices, values, set, sorted),
    ensures
        forall|x: usize| #[trigger] set.contains(x) <==> indices.contains(x),
{
    broadcast use vstd::seq_lib::group_to_multiset_ensures;

    assert forall|x: usize| #[trigger] set.contains(x) implies indices.contains(x) by {
        let k = choose|k: int| 0 <= k < set.len() && set[k] == x;
        assert(has_entry(indices, values, set[k], sorted[k]));
        let j = choose|j: int| is_entry(indices, values, j, set[k], sorted[k]);
        assert(indices[j] == x);
    }
    // The arrangement has no repetitions and as many entries as there are indices.
    set.unique_seq_to_set();
    let (s, t) = (set.to_set(), indices.to_set());
    assert(s.subset_of(t));
    indices.lemma_cardinality_of_set();
    vstd::set_lib::lemma_len_subset(s, t);
    vstd::set_lib::lemma_subset_equality(s, t);
    assert forall|x: usize| indices.contains(x) implies #[trigger] set.contains(x) by {
        assert(t.contains(x));
        assert(s.contains(x));
    }
}

pub proof fn lemma_ordered_agree(a: Seq<usize>, b: Seq<usize>, k: int)
    requires
        0 <= k < a.len(),
        a.len() == b.len(),
        forall|i: int, j: int| 0 <= i < j < a.len() ==> a[i] < a[j],
        forall|i: int, j: int| 0 <= i < j < b.len() ==> b[i] < b[j],
        forall|x: usize| #[trigger] a.contains(x) <==> b.contains(x),
    ensures
        a[k] == b[k],
    decreases k,
{
    assert forall|i: int| 0 <= i < k implies a[i] == b[i] by {
        lemma_ordered_agree(a, b, i);
    }
    assert(a.contains(a[k]) && b.contains(b[k]));
    assert(b.contains(a[k]) && a.contains(b[k]));
    let i = choose|i: int| 0 <= i < b.len() && b[i] == a[k];
    let j = choose|j: int| 0 <= j < a.len() && a[j] == b[k];
    if i < k {
        assert(a[i] == a[k]);
    }
    if j < k {
        assert(b[j] == b[k]);
    }
    if i > k && j > k {
        assert(b[k] < b[i]);
        assert(a[k] < a[j]);
    }
}

} // verus!

//! Grouping queries by commitments and point sets.
use zakura_arith::field::{Fe, Fp, PallasBase};
use zakura_arith::poly::multiopen::{
    construct_intermediate_sets, CommitmentReference, ProverQuery, Query, VerifierQuery,
};

fn fp(value: u64) -> Fp {
    Fe::from_u64(value)
}

fn query(point: u64, eval: u64, commitment: usize) -> Query<PallasBase, Fp> {
    Query {
        commitment: CommitmentReference::Commitment(commitment),
        point: fp(point),
        eval: fp(eval),
    }
}

#[test]
fn intermediate_sets_preserve_query_order_in_one_traversal() {
    let queries = vec![
        query(2, 72, 7),
        query(0, 30, 3),
        query(1, 111, 11),
        query(1, 71, 7),
        query(0, 90, 9),
        query(1, 31, 3),
        query(2, 112, 11),
    ];
    let (commitment_data, point_sets) =
        construct_intermediate_sets(&queries).expect("queries are distinct");

    assert_eq!(
        commitment_data
            .iter()
            .map(|data| data.commitment)
            .collect::<Vec<_>>(),
        vec![7, 3, 11, 9]
            .into_iter()
            .map(CommitmentReference::Commitment)
            .collect::<Vec<_>>()
    );
    assert_eq!(
        commitment_data
            .iter()
            .map(|data| data.set_index)
            .collect::<Vec<_>>(),
        vec![0, 1, 0, 2]
    );
    assert_eq!(commitment_data[0].point_indices, vec![0, 2]);
    assert_eq!(commitment_data[1].point_indices, vec![1, 2]);
    assert_eq!(commitment_data[2].point_indices, vec![2, 0]);
    assert_eq!(commitment_data[3].point_indices, vec![1]);
    assert_eq!(commitment_data[0].evals, vec![fp(72), fp(71)]);
    assert_eq!(commitment_data[1].evals, vec![fp(30), fp(31)]);
    assert_eq!(commitment_data[2].evals, vec![fp(112), fp(111)]);
    assert_eq!(commitment_data[3].evals, vec![fp(90)]);
    assert_eq!(
        point_sets,
        vec![vec![fp(2), fp(1)], vec![fp(0), fp(1)], vec![fp(0)]]
    );
}

#[test]
fn intermediate_sets_reject_duplicate_queries() {
    assert!(construct_intermediate_sets(&vec![query(1, 2, 3), query(1, 2, 3)]).is_none());
}

#[test]
fn intermediate_sets_reject_contradicting_queries() {
    // One commitment twice at one point, with two claimed values.
    let queries = vec![query(1, 5, 0), query(1, 6, 1), query(1, 7, 1), query(2, 8, 2)];
    assert!(construct_intermediate_sets(&queries).is_none());
}

#[test]
fn intermediate_sets_reject_empty_queries() {
    assert!(construct_intermediate_sets::<PallasBase, Fp>(&vec![]).is_none());
}

#[test]
fn commitments_and_combinations_are_told_apart() {
    let commitment = VerifierQuery::<PallasBase>::new_commitment(4, fp(1), fp(2)).query();
    let msm = VerifierQuery::<PallasBase>::new_msm(4, fp(1), fp(3)).query();
    assert_eq!(commitment.commitment, CommitmentReference::Commitment(4));
    assert_eq!(msm.commitment, CommitmentReference::Msm(4));
    assert_eq!(msm.point, fp(1));
    assert_eq!(msm.eval, fp(3));
    let (data, sets) =
        construct_intermediate_sets(&vec![commitment, msm]).expect("queries are distinct");
    assert_eq!(data.len(), 2);
    assert_eq!(data[0].set_index, data[1].set_index);
    assert_eq!(sets, vec![vec![fp(1)]]);
}

#[test]
fn prover_queries_name_their_polynomial() {
    let query = ProverQuery::<PallasBase> {
        point: fp(6),
        poly: 9,
        blind: fp(5),
    }
    .query();
    assert_eq!(query.commitment, CommitmentReference::Commitment(9));
    assert_eq!(query.point, fp(6));
}

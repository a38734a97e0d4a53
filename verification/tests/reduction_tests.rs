use binius_core::composition::CompositionPoly;
use binius_core::error::Error;
use binius_core::field::Felt;
use binius_core::multilinear::{MultilinearExtension, MultilinearQuery};
use binius_core::oracle::{
    CommittedId, CompositePolyOracle, MultilinearOracleSet, MultilinearPolyOracle,
    MultivariatePolyOracle, ProjectionVariant, TransparentPoly,
};
use binius_core::evalcheck::EvalcheckWitness;
use binius_core::prodcheck::{reduce_prodcheck_claim, ProdcheckClaim};
use binius_core::zerocheck::{reduce_zerocheck_claim, verify as zerocheck_verify, ZerocheckClaim, ZerocheckProof};

fn f(x: u128) -> Felt {
    Felt::new(x)
}

fn committed_oracle(batch_id: usize, index: usize, oracle_id: usize, n_vars: usize) -> MultilinearPolyOracle {
    MultilinearPolyOracle::Committed {
        id: CommittedId { batch_id, index },
        oracle_id,
        n_vars,
    }
}

#[test]
fn eq_ind_is_the_equality_indicator_on_the_hypercube() {
    let zero = Felt::zero();
    let one = Felt::one();
    let eq = TransparentPoly::eq_ind(2, vec![zero, one]).unwrap();
    assert_eq!(eq.evaluate(&vec![zero, one]).unwrap().value, 1);
    assert_eq!(eq.evaluate(&vec![one, one]).unwrap().value, 0);
    assert_eq!(eq.evaluate(&vec![zero, zero]).unwrap().value, 0);
    assert_eq!(eq.evaluate(&vec![one, zero]).unwrap().value, 0);
}

#[test]
fn eq_ind_rejects_a_wrong_challenge_count() {
    assert!(matches!(
        TransparentPoly::eq_ind(2, vec![Felt::zero()]),
        Err(Error::IncorrectQuerySize { expected: 2 })
    ));
}

#[test]
fn oracle_set_allocates_stable_ids() {
    let mut oracles = MultilinearOracleSet::new();
    let a = oracles
        .add_transparent(TransparentPoly::Constant { n_vars: 1, value: f(1) }, 0)
        .unwrap();
    let b = oracles
        .add_transparent(TransparentPoly::Constant { n_vars: 2, value: f(2) }, 0)
        .unwrap();
    assert_eq!(a, 0);
    assert_eq!(b, 1);
    assert_eq!(oracles.n_oracles(), 2);
    assert!(oracles.oracle(0).is_ok());
    assert!(oracles.oracle(1).is_ok());
    assert!(matches!(oracles.oracle(2), Err(Error::UnknownOracleId { oracle_id: 2 })));
}

#[test]
fn composite_oracle_validates_its_arity() {
    // the composition takes 2 inputs but only 1 inner oracle is given
    let r = CompositePolyOracle::new(
        1,
        vec![committed_oracle(0, 0, 0, 1)],
        CompositionPoly::Product { n_vars: 2 },
    );
    assert!(matches!(r, Err(Error::IncorrectQuerySize { .. })));
    // an inner oracle with the wrong variable count
    let r2 = CompositePolyOracle::new(
        2,
        vec![committed_oracle(0, 0, 0, 1), committed_oracle(0, 1, 1, 2)],
        CompositionPoly::Product { n_vars: 2 },
    );
    assert!(matches!(r2, Err(Error::IncorrectQuerySize { .. })));
}

#[test]
fn multilinear_extension_evaluates_by_tensor_query() {
    // one variable, table [a, b]: the extension at t is a + t * (b - a)
    let a = f(0x21);
    let b = f(0x34);
    let mle = MultilinearExtension::new(1, vec![a, b]).unwrap();
    let at_zero = MultilinearQuery::with_full_query(&vec![Felt::zero()]);
    assert_eq!(mle.evaluate(&at_zero).unwrap().value, a.value);
    let at_one = MultilinearQuery::with_full_query(&vec![Felt::one()]);
    assert_eq!(mle.evaluate(&at_one).unwrap().value, b.value);
    let t = f(7);
    let at_t = MultilinearQuery::with_full_query(&vec![t]);
    let expected = a.add(t.mul(b.add(a)));
    assert_eq!(mle.evaluate(&at_t).unwrap().value, expected.value);
}

#[test]
fn multilinear_extension_validates_its_table_and_query() {
    assert!(matches!(
        MultilinearExtension::new(2, vec![f(1), f(2)]),
        Err(Error::IncorrectQuerySize { .. })
    ));
    let mle = MultilinearExtension::new(1, vec![f(1), f(2)]).unwrap();
    let query = MultilinearQuery::with_full_query(&vec![f(1), f(2)]);
    assert_eq!(mle.evaluate(&query), Err(Error::IncorrectQuerySize { expected: 1 }));
}

#[test]
fn witness_registry_finds_by_oracle_and_merges() {
    let oracle_a = committed_oracle(0, 0, 0, 1);
    let oracle_b = committed_oracle(0, 1, 1, 1);
    let mle_a = MultilinearExtension::new(1, vec![f(1), f(2)]).unwrap();
    let mle_b = MultilinearExtension::new(1, vec![f(3), f(4)]).unwrap();
    let witness_a = EvalcheckWitness::new(vec![(oracle_a, mle_a)]);
    let witness_b = EvalcheckWitness::new(vec![(oracle_b, mle_b)]);
    let witness = witness_a.merge(witness_b);

    let probe = committed_oracle(0, 0, 0, 1);
    let found = witness.witness_for_oracle(&probe).unwrap();
    assert_eq!(found.evals[0].value, 1);

    let missing = committed_oracle(0, 7, 9, 1);
    assert!(matches!(
        witness.witness_for_oracle(&missing),
        Err(Error::InvalidWitness { oracle_id: 9 })
    ));

    let query = MultilinearQuery::with_full_query(&vec![Felt::one()]);
    let probe_b = committed_oracle(0, 1, 1, 1);
    assert_eq!(witness.evaluate(&probe_b, &query).unwrap().value, 4);
}

#[test]
fn witness_registry_matches_the_whole_oracle_not_just_its_id() {
    // a probe that differs from every stored oracle, even though it carries
    // a stored oracle's id, finds no witness
    let stored = committed_oracle(0, 0, 5, 1);
    let mle = MultilinearExtension::new(1, vec![f(1), f(2)]).unwrap();
    let witness = EvalcheckWitness::new(vec![(stored, mle)]);
    let same_id_different_position = committed_oracle(0, 3, 5, 1);
    assert!(matches!(
        witness.witness_for_oracle(&same_id_different_position),
        Err(Error::InvalidWitness { oracle_id: 5 })
    ));
    let query = MultilinearQuery::with_full_query(&vec![Felt::one()]);
    assert!(matches!(
        witness.evaluate(&same_id_different_position, &query),
        Err(Error::InvalidWitness { oracle_id: 5 })
    ));
}

fn two_column_zerocheck_claim() -> ZerocheckClaim {
    let composite = CompositePolyOracle::new(
        2,
        vec![committed_oracle(0, 0, 0, 2), committed_oracle(0, 1, 1, 2)],
        CompositionPoly::Product { n_vars: 2 },
    )
    .unwrap();
    ZerocheckClaim { poly: composite }
}

#[test]
fn zerocheck_rejects_a_wrong_challenge_length() {
    let mut oracles = MultilinearOracleSet::new();
    let claim = two_column_zerocheck_claim();
    let r = reduce_zerocheck_claim(&mut oracles, &claim, vec![f(1)]);
    assert!(matches!(r, Err(Error::ChallengeVectorMismatch)));
    assert_eq!(oracles.n_oracles(), 0);
}

#[test]
fn zerocheck_reduction_raises_arity_and_degree_by_one() {
    let mut oracles = MultilinearOracleSet::new();
    let claim = two_column_zerocheck_claim();
    let (sumcheck, eq_id) =
        reduce_zerocheck_claim(&mut oracles, &claim, vec![f(5), f(6)]).unwrap();
    assert_eq!(eq_id, 0);
    assert_eq!(oracles.n_oracles(), 1);
    // the target sum is the additive identity
    assert_eq!(sumcheck.sum.value, 0);
    // same variables, one more multiplicand, arity and degree up by one
    assert_eq!(sumcheck.poly.n_vars, 2);
    assert_eq!(sumcheck.poly.inner.len(), 3);
    assert_eq!(sumcheck.poly.composition.n_vars(), 3);
    assert_eq!(sumcheck.poly.composition.degree(), 3);
}

#[test]
fn zerocheck_verify_consumes_the_empty_proof() {
    let mut oracles = MultilinearOracleSet::new();
    let claim = two_column_zerocheck_claim();
    let sumcheck =
        zerocheck_verify(&mut oracles, &claim, ZerocheckProof {}, vec![f(5), f(6)]).unwrap();
    assert_eq!(sumcheck.sum.value, 0);
    assert_eq!(oracles.n_oracles(), 1);
}

#[test]
fn prodcheck_reduction_emits_tree_claims_and_a_root_claim() {
    let mut oracles = MultilinearOracleSet::new();
    let claim = ProdcheckClaim {
        t_oracle: committed_oracle(0, 0, 0, 1),
        u_oracle: committed_oracle(0, 1, 1, 1),
        n_vars: 1,
    };
    let tree_oracle = committed_oracle(1, 0, 2, 2);
    let reduced = reduce_prodcheck_claim(&mut oracles, &claim, tree_oracle).unwrap();
    // four projections of the tree oracle were registered
    assert_eq!(oracles.n_oracles(), 4);
    // both zerocheck claims are multiplication gates over the claim's variables
    assert_eq!(reduced.t_prime_claim.poly.n_vars, 1);
    assert_eq!(reduced.tree_claim.poly.n_vars, 1);
    assert!(matches!(reduced.t_prime_claim.poly.composition, CompositionPoly::MultGate));
    assert!(matches!(reduced.tree_claim.poly.composition, CompositionPoly::MultGate));
    assert_eq!(reduced.t_prime_claim.poly.inner.len(), 3);
    assert_eq!(reduced.tree_claim.poly.inner.len(), 3);
    // the root claim opens the tree at (1, ..., 1, 0) and expects one,
    // at a point the verifier did not pick at random
    let root = &reduced.grand_product_poly_claim;
    assert!(matches!(root.poly, MultivariatePolyOracle::Multilinear(_)));
    let values: Vec<u128> = root.eval_point.iter().map(|e| e.value).collect();
    assert_eq!(values, vec![1, 0]);
    assert_eq!(root.eval.value, 1);
    assert!(!root.is_random_point);
}

#[test]
fn prodcheck_projections_fix_one_variable_each() {
    let mut oracles = MultilinearOracleSet::new();
    let claim = ProdcheckClaim {
        t_oracle: committed_oracle(0, 0, 0, 1),
        u_oracle: committed_oracle(0, 1, 1, 1),
        n_vars: 1,
    };
    let tree_oracle = committed_oracle(1, 0, 2, 2);
    reduce_prodcheck_claim(&mut oracles, &claim, tree_oracle).unwrap();
    for id in 0..4 {
        let o = oracles.oracle(id).unwrap();
        match o {
            MultilinearPolyOracle::Projected { projected, .. } => {
                assert_eq!(projected.values.len(), 1);
                let first = matches!(projected.variant, ProjectionVariant::FirstVars);
                // registered in order: f(1, x), f(x, 0), f(x, 1), f(0, x)
                assert_eq!(first, id == 0 || id == 3);
            },
            _ => panic!("expected a projected oracle"),
        }
    }
}

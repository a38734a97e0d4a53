use binius_core::error::Error;
use binius_core::evalcheck::{
    BatchCommittedEvalClaims, CommittedEvalClaim, EvalcheckClaim, EvalcheckProof, PackedEvalClaim,
    ShiftedEvalClaim,
};
use binius_core::evalcheck_verify::verify;
use binius_core::field::{extrapolate_line, Felt};
use binius_core::composition::CompositionPoly;
use binius_core::oracle::{
    CommittedBatch, CommittedId, CompositePolyOracle, LinearCombination, MultilinearPolyOracle,
    MultivariatePolyOracle, Packed, Projected, ProjectionVariant, Shifted, TransparentPoly,
};

fn f(x: u128) -> Felt {
    Felt::new(x)
}

fn constant_oracle(id: usize, n_vars: usize, value: Felt) -> MultilinearPolyOracle {
    MultilinearPolyOracle::Transparent {
        id,
        poly: TransparentPoly::Constant { n_vars, value },
        tower_level: 0,
    }
}

fn committed_oracle(batch_id: usize, index: usize, oracle_id: usize, n_vars: usize) -> MultilinearPolyOracle {
    MultilinearPolyOracle::Committed {
        id: CommittedId { batch_id, index },
        oracle_id,
        n_vars,
    }
}

fn one_batch(n_polys: usize) -> BatchCommittedEvalClaims {
    BatchCommittedEvalClaims::new(&vec![CommittedBatch { n_polys }])
}

fn run(
    claim: EvalcheckClaim,
    proof: EvalcheckProof,
    batch: &mut BatchCommittedEvalClaims,
) -> Result<(), Error> {
    let mut shifted: Vec<ShiftedEvalClaim> = Vec::new();
    let mut packed: Vec<PackedEvalClaim> = Vec::new();
    verify(claim, proof, batch, &mut shifted, &mut packed)
}

#[test]
fn transparent_claim_with_correct_evaluation_succeeds() {
    let value = f(0x42);
    let claim = EvalcheckClaim {
        poly: MultivariatePolyOracle::Multilinear(constant_oracle(0, 2, value)),
        eval_point: vec![f(7), f(9)],
        eval: value,
        is_random_point: true,
    };
    let mut batch = one_batch(1);
    assert_eq!(run(claim, EvalcheckProof::Transparent, &mut batch), Ok(()));
}

#[test]
fn transparent_claim_with_wrong_evaluation_is_rejected() {
    let claim = EvalcheckClaim {
        poly: MultivariatePolyOracle::Multilinear(constant_oracle(0, 2, f(0x42))),
        eval_point: vec![f(7), f(9)],
        eval: f(0x43),
        is_random_point: true,
    };
    let mut batch = one_batch(1);
    assert_eq!(
        run(claim, EvalcheckProof::Transparent, &mut batch),
        Err(Error::IncorrectEvaluation)
    );
}

#[test]
fn committed_claim_lands_in_the_batch_accumulator() {
    let point = vec![f(3), f(4)];
    let claim = EvalcheckClaim {
        poly: MultivariatePolyOracle::Multilinear(committed_oracle(0, 0, 0, 2)),
        eval_point: point.clone(),
        eval: f(0x77),
        is_random_point: true,
    };
    let mut batch = one_batch(1);
    assert_eq!(run(claim, EvalcheckProof::Committed, &mut batch), Ok(()));
    let extracted = batch.try_extract_same_query_pcs_claim(0).unwrap().unwrap();
    assert_eq!(extracted.eval_point, point);
    assert_eq!(extracted.evals.len(), 1);
    assert_eq!(extracted.evals[0].value, 0x77);
}

#[test]
fn mismatched_proof_shape_is_a_structural_mismatch() {
    // a committed oracle with every other proof shape
    let shapes = [
        EvalcheckProof::Transparent,
        EvalcheckProof::Shifted,
        EvalcheckProof::Packed,
        EvalcheckProof::Repeating(Box::new(EvalcheckProof::Committed)),
        EvalcheckProof::Composite { subproofs: vec![] },
    ];
    for proof in shapes {
        let claim = EvalcheckClaim {
            poly: MultivariatePolyOracle::Multilinear(committed_oracle(0, 0, 0, 1)),
            eval_point: vec![f(1)],
            eval: f(2),
            is_random_point: true,
        };
        let mut batch = one_batch(1);
        assert_eq!(run(claim, proof, &mut batch), Err(Error::StructuralMismatch));
    }
}

#[test]
fn interleaved_oracle_always_fails_structurally() {
    let poly = MultilinearPolyOracle::Interleaved {
        id: 2,
        poly1: Box::new(constant_oracle(0, 1, f(1))),
        poly2: Box::new(constant_oracle(1, 1, f(2))),
    };
    let claim = EvalcheckClaim {
        poly: MultivariatePolyOracle::Multilinear(poly),
        eval_point: vec![f(1), f(2)],
        eval: f(3),
        is_random_point: true,
    };
    let mut batch = one_batch(1);
    assert_eq!(
        run(claim, EvalcheckProof::Committed, &mut batch),
        Err(Error::StructuralMismatch)
    );
}

fn merged_claim_and_proof(eval1: Felt, eval2: Felt, eval: Felt, t: Felt) -> (EvalcheckClaim, EvalcheckProof) {
    let merged = MultilinearPolyOracle::Merged {
        id: 2,
        poly1: Box::new(constant_oracle(0, 1, f(0xa))),
        poly2: Box::new(constant_oracle(1, 1, f(0xb))),
    };
    let claim = EvalcheckClaim {
        poly: MultivariatePolyOracle::Multilinear(merged),
        eval_point: vec![f(5), t],
        eval,
        is_random_point: true,
    };
    let proof = EvalcheckProof::Merged {
        eval1,
        eval2,
        subproof1: Box::new(EvalcheckProof::Transparent),
        subproof2: Box::new(EvalcheckProof::Transparent),
    };
    (claim, proof)
}

#[test]
fn merged_claim_accepts_exactly_the_extrapolation() {
    let t = f(7);
    let eval = extrapolate_line(f(0xa), f(0xb), t);
    let (claim, proof) = merged_claim_and_proof(f(0xa), f(0xb), eval, t);
    let mut batch = one_batch(1);
    assert_eq!(run(claim, proof, &mut batch), Ok(()));
}

#[test]
fn merged_claim_rejects_any_other_relation() {
    let t = f(7);
    let eval = extrapolate_line(f(0xa), f(0xb), t);
    let wrong = eval.add(Felt::one());
    let (claim, proof) = merged_claim_and_proof(f(0xa), f(0xb), wrong, t);
    let mut batch = one_batch(1);
    assert_eq!(run(claim, proof, &mut batch), Err(Error::IncorrectEvaluation));
}

#[test]
fn flipped_child_evaluation_fails_at_the_merged_parent() {
    // flipping eval1 changes the extrapolation, so the merged node itself
    // rejects, before either child is visited
    let t = f(7);
    let eval = extrapolate_line(f(0xa), f(0xb), t);
    let (claim, proof) = merged_claim_and_proof(f(0xa).add(Felt::one()), f(0xb), eval, t);
    let mut batch = one_batch(1);
    assert_eq!(run(claim, proof, &mut batch), Err(Error::IncorrectEvaluation));
}

#[test]
fn flipped_child_evaluation_can_cancel_at_the_parent_but_fails_below() {
    // at t = 1 the extrapolation is eval2 alone, so a flipped eval1 is
    // algebraically unobservable at the merged node; the child that
    // re-evaluates its transparent oracle still catches it
    let t = Felt::one();
    let eval = extrapolate_line(f(0xa), f(0xb), t);
    let (claim, proof) = merged_claim_and_proof(f(0xa).add(Felt::one()), f(0xb), eval, t);
    let mut batch = one_batch(1);
    assert_eq!(run(claim, proof, &mut batch), Err(Error::IncorrectEvaluation));
}

#[test]
fn repeating_oracle_truncates_the_point() {
    let poly = MultilinearPolyOracle::Repeating {
        id: 1,
        inner: Box::new(constant_oracle(0, 1, f(0xc))),
        log_count: 2,
    };
    let claim = EvalcheckClaim {
        poly: MultivariatePolyOracle::Multilinear(poly),
        eval_point: vec![f(1), f(2), f(3)],
        eval: f(0xc),
        is_random_point: true,
    };
    let mut batch = one_batch(1);
    assert_eq!(
        run(claim, EvalcheckProof::Repeating(Box::new(EvalcheckProof::Transparent)), &mut batch),
        Ok(())
    );
}

#[test]
fn projected_first_vars_prepends_the_fixed_values() {
    // the inner oracle has 3 variables; fixing 2 in front leaves 1
    let poly = MultilinearPolyOracle::Projected {
        id: 1,
        projected: Projected {
            inner: Box::new(constant_oracle(0, 3, f(0xd))),
            values: vec![f(8), f(9)],
            variant: ProjectionVariant::FirstVars,
        },
    };
    let claim = EvalcheckClaim {
        poly: MultivariatePolyOracle::Multilinear(poly),
        eval_point: vec![f(1)],
        eval: f(0xd),
        is_random_point: true,
    };
    let mut batch = one_batch(1);
    assert_eq!(run(claim, EvalcheckProof::Transparent, &mut batch), Ok(()));
}

#[test]
fn projected_last_vars_appends_the_fixed_values() {
    let poly = MultilinearPolyOracle::Projected {
        id: 1,
        projected: Projected {
            inner: Box::new(constant_oracle(0, 3, f(0xd))),
            values: vec![f(8), f(9)],
            variant: ProjectionVariant::LastVars,
        },
    };
    let claim = EvalcheckClaim {
        poly: MultivariatePolyOracle::Multilinear(poly),
        eval_point: vec![f(1)],
        eval: f(0xd),
        is_random_point: true,
    };
    let mut batch = one_batch(1);
    assert_eq!(run(claim, EvalcheckProof::Transparent, &mut batch), Ok(()));
}

#[test]
fn shifted_and_packed_leaves_append_side_claims() {
    let shifted_poly = MultilinearPolyOracle::Shifted {
        id: 1,
        shifted: Shifted { inner: Box::new(constant_oracle(0, 2, f(1))), shift_offset: 1, block_bits: 2 },
    };
    let packed_poly = MultilinearPolyOracle::Packed {
        id: 3,
        packed: Packed { inner: Box::new(constant_oracle(2, 2, f(1))), log_degree: 0 },
    };
    let mut batch = one_batch(1);
    let mut shifted_claims: Vec<ShiftedEvalClaim> = Vec::new();
    let mut packed_claims: Vec<PackedEvalClaim> = Vec::new();
    let claim1 = EvalcheckClaim {
        poly: MultivariatePolyOracle::Multilinear(shifted_poly),
        eval_point: vec![f(1), f(2)],
        eval: f(0x31),
        is_random_point: true,
    };
    assert_eq!(
        verify(claim1, EvalcheckProof::Shifted, &mut batch, &mut shifted_claims, &mut packed_claims),
        Ok(())
    );
    let claim2 = EvalcheckClaim {
        poly: MultivariatePolyOracle::Multilinear(packed_poly),
        eval_point: vec![f(3), f(4)],
        eval: f(0x32),
        is_random_point: false,
    };
    assert_eq!(
        verify(claim2, EvalcheckProof::Packed, &mut batch, &mut shifted_claims, &mut packed_claims),
        Ok(())
    );
    assert_eq!(shifted_claims.len(), 1);
    assert_eq!(shifted_claims[0].eval.value, 0x31);
    assert!(shifted_claims[0].is_random_point);
    assert_eq!(packed_claims.len(), 1);
    assert_eq!(packed_claims[0].eval.value, 0x32);
    assert!(!packed_claims[0].is_random_point);
}

#[test]
fn linear_combination_accepts_the_weighted_sum_and_collects_leaves() {
    let c0 = f(3);
    let c1 = f(5);
    let e0 = f(0x11);
    let e1 = f(0x12);
    let poly = MultilinearPolyOracle::LinearCombination {
        id: 2,
        lin_com: LinearCombination {
            n_vars: 1,
            polys: vec![committed_oracle(0, 0, 0, 1), committed_oracle(0, 1, 1, 1)],
            coefficients: vec![c0, c1],
        },
    };
    let eval = c0.mul(e0).add(c1.mul(e1));
    let claim = EvalcheckClaim {
        poly: MultivariatePolyOracle::Multilinear(poly),
        eval_point: vec![f(9)],
        eval,
        is_random_point: true,
    };
    let proof = EvalcheckProof::Composite {
        subproofs: vec![(e0, EvalcheckProof::Committed), (e1, EvalcheckProof::Committed)],
    };
    let mut batch = one_batch(2);
    assert_eq!(run(claim, proof, &mut batch), Ok(()));
    // one accumulator entry per committed leaf
    let extracted = batch.try_extract_same_query_pcs_claim(0).unwrap().unwrap();
    assert_eq!(extracted.evals.len(), 2);
    assert_eq!(extracted.evals[0].value, 0x11);
    assert_eq!(extracted.evals[1].value, 0x12);
}

#[test]
fn linear_combination_rejects_a_wrong_weighted_sum() {
    let poly = MultilinearPolyOracle::LinearCombination {
        id: 2,
        lin_com: LinearCombination {
            n_vars: 1,
            polys: vec![committed_oracle(0, 0, 0, 1)],
            coefficients: vec![f(3)],
        },
    };
    let claim = EvalcheckClaim {
        poly: MultivariatePolyOracle::Multilinear(poly),
        eval_point: vec![f(9)],
        eval: f(0xff),
        is_random_point: true,
    };
    let proof = EvalcheckProof::Composite { subproofs: vec![(f(1), EvalcheckProof::Committed)] };
    let mut batch = one_batch(1);
    assert_eq!(run(claim, proof, &mut batch), Err(Error::IncorrectEvaluation));
}

#[test]
fn linear_combination_rejects_a_wrong_subproof_count() {
    let poly = MultilinearPolyOracle::LinearCombination {
        id: 2,
        lin_com: LinearCombination {
            n_vars: 1,
            polys: vec![committed_oracle(0, 0, 0, 1)],
            coefficients: vec![f(3)],
        },
    };
    let claim = EvalcheckClaim {
        poly: MultivariatePolyOracle::Multilinear(poly),
        eval_point: vec![f(9)],
        eval: f(3),
        is_random_point: true,
    };
    let proof = EvalcheckProof::Composite { subproofs: vec![] };
    let mut batch = one_batch(1);
    assert_eq!(run(claim, proof, &mut batch), Err(Error::StructuralMismatch));
}

#[test]
fn composite_claim_recomputes_the_composition() {
    let e0 = f(3);
    let e1 = f(4);
    let composite = CompositePolyOracle::new(
        1,
        vec![committed_oracle(0, 0, 0, 1), committed_oracle(0, 1, 1, 1)],
        CompositionPoly::Product { n_vars: 2 },
    )
    .unwrap();
    let claim = EvalcheckClaim {
        poly: MultivariatePolyOracle::Composite(composite),
        eval_point: vec![f(9)],
        eval: e0.mul(e1),
        is_random_point: true,
    };
    let proof = EvalcheckProof::Composite {
        subproofs: vec![(e0, EvalcheckProof::Committed), (e1, EvalcheckProof::Committed)],
    };
    let mut batch = one_batch(2);
    assert_eq!(run(claim, proof, &mut batch), Ok(()));
}

#[test]
fn composite_claim_rejects_a_wrong_composition_value() {
    let composite = CompositePolyOracle::new(
        1,
        vec![committed_oracle(0, 0, 0, 1), committed_oracle(0, 1, 1, 1)],
        CompositionPoly::Product { n_vars: 2 },
    )
    .unwrap();
    let claim = EvalcheckClaim {
        poly: MultivariatePolyOracle::Composite(composite),
        eval_point: vec![f(9)],
        eval: f(3).mul(f(4)).add(Felt::one()),
        is_random_point: true,
    };
    let proof = EvalcheckProof::Composite {
        subproofs: vec![(f(3), EvalcheckProof::Committed), (f(4), EvalcheckProof::Committed)],
    };
    let mut batch = one_batch(2);
    assert_eq!(run(claim, proof, &mut batch), Err(Error::IncorrectEvaluation));
}

#[test]
fn batch_accumulator_follows_the_three_poly_scenario() {
    let p = vec![f(1), f(2)];
    let mut batch = one_batch(3);
    let mk = |index: usize, eval: Felt, point: &Vec<Felt>, random: bool| CommittedEvalClaim {
        id: CommittedId { batch_id: 0, index },
        eval_point: point.clone(),
        eval,
        is_random_point: random,
    };
    assert_eq!(batch.insert(mk(0, f(0xa), &p, true)), Ok(()));
    assert_eq!(batch.insert(mk(1, f(0xb), &p, true)), Ok(()));
    assert!(matches!(
        batch.try_extract_same_query_pcs_claim(0),
        Err(Error::MissingEvals { batch_id: 0 })
    ));
    assert_eq!(batch.insert(mk(2, f(0xc), &p, true)), Ok(()));
    let some = batch.try_extract_same_query_pcs_claim(0).unwrap().unwrap();
    assert_eq!(some.eval_point, p);
    assert_eq!(
        some.evals.iter().map(|e| e.value).collect::<Vec<u128>>(),
        vec![0xa, 0xb, 0xc]
    );
    // a second claim for index 0 with a different value conflicts
    assert_eq!(batch.insert(mk(0, f(0xd), &p, true)), Ok(()));
    assert!(matches!(
        batch.try_extract_same_query_pcs_claim(0),
        Err(Error::ConflictingEvals { batch_id: 0 })
    ));
    // a claim at a different point makes the batch non-uniform: no same-query claim
    let q = vec![f(1), f(3)];
    assert_eq!(batch.insert(mk(1, f(0xb), &q, true)), Ok(()));
    assert!(matches!(batch.try_extract_same_query_pcs_claim(0), Ok(None)));
}

#[test]
fn batch_accumulator_requires_random_points() {
    let p = vec![f(1)];
    let mut batch = one_batch(1);
    let claim = CommittedEvalClaim {
        id: CommittedId { batch_id: 0, index: 0 },
        eval_point: p,
        eval: f(0xa),
        is_random_point: false,
    };
    assert_eq!(batch.insert(claim), Ok(()));
    assert!(matches!(batch.try_extract_same_query_pcs_claim(0), Ok(None)));
}

#[test]
fn batch_accumulator_reports_unknown_and_empty_batches() {
    let mut batch = one_batch(1);
    assert!(matches!(
        batch.try_extract_same_query_pcs_claim(0),
        Err(Error::EmptyBatch { batch_id: 0 })
    ));
    assert!(matches!(
        batch.try_extract_same_query_pcs_claim(7),
        Err(Error::UnknownBatchId { batch_id: 7 })
    ));
    let claim = CommittedEvalClaim {
        id: CommittedId { batch_id: 5, index: 0 },
        eval_point: vec![f(1)],
        eval: f(2),
        is_random_point: true,
    };
    assert_eq!(batch.insert(claim), Err(Error::UnknownBatchId { batch_id: 5 }));
}

#[test]
fn take_claims_is_destructive() {
    let p = vec![f(1)];
    let mut batch = one_batch(1);
    let claim = CommittedEvalClaim {
        id: CommittedId { batch_id: 0, index: 0 },
        eval_point: p,
        eval: f(0xa),
        is_random_point: true,
    };
    assert_eq!(batch.insert(claim), Ok(()));
    let drained = batch.take_claims(0).unwrap();
    assert_eq!(drained.len(), 1);
    assert_eq!(drained[0].eval.value, 0xa);
    // drained claims are absent from subsequent extraction calls
    assert!(matches!(
        batch.try_extract_same_query_pcs_claim(0),
        Err(Error::EmptyBatch { batch_id: 0 })
    ));
    assert!(matches!(batch.take_claims(9), Err(Error::UnknownBatchId { batch_id: 9 })));
}

#[test]
fn n_batches_counts_the_declared_batches() {
    let batch = BatchCommittedEvalClaims::new(&vec![
        CommittedBatch { n_polys: 1 },
        CommittedBatch { n_polys: 2 },
    ]);
    assert_eq!(batch.n_batches(), 2);
}

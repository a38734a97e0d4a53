//! The recursive evaluation-claim verifier.
//!
//! `verify` reduces one evaluation claim together with its proof tree into
//! primitive claims, walking the oracle's structure: transparent leaves are
//! checked on the spot, committed leaves append to the batch accumulator,
//! shifted and packed leaves append to their side lists, and every inner
//! variant recomputes the claimed evaluation from the children's claimed
//! evaluations and recurses. Accumulator mutation is eager and is not rolled
//! back on failure: a caller that receives an error must discard the
//! accumulators.
//!
//! The whole reduction is mirrored by the spec function [`spec_verify`],
//! which pins down the returned result and the exact sequence of claims
//! appended to each accumulator, also on the failing runs.

use vstd::prelude::*;

use crate::error::Error;
use crate::evalcheck::{
    acc_wf, batches_models, cec_model, cec_models, BatchCommittedEvalClaims, CommittedClaimModel,
    CommittedEvalClaim, EvalcheckClaim, EvalcheckProof, PackedEvalClaim, ShiftedEvalClaim,
};
use crate::field::{spec_extrapolate, spec_inner_product, Felt};
use crate::composition::comp_eval;
use crate::oracle::{
    lemma_oracle_models_index as lemma_oracle_models_index_vl, mv_n_vars, mv_wf, oracle_model,
    oracle_models, oracle_n_vars, oracle_wf, packed_model, shifted_model, tp_eval,
    MultilinearPolyOracle, MultivariatePolyOracle, OracleModel, PackedModel, ProjectionVariant,
    ShiftedModel,
};

verus! {

/// Ghost record of one deferred shifted-oracle claim.
pub ghost struct ShiftedClaimModel {
    pub eval_point: Seq<Felt>,
    pub eval: Felt,
    pub is_random_point: bool,
    pub shifted: ShiftedModel,
}

/// Ghost record of one deferred packed-oracle claim.
pub ghost struct PackedClaimModel {
    pub eval_point: Seq<Felt>,
    pub eval: Felt,
    pub is_random_point: bool,
    pub packed: PackedModel,
}

/// Ghost mirror of a shifted-oracle claim.
pub open spec fn sec_model(c: ShiftedEvalClaim) -> ShiftedClaimModel {
    (ShiftedClaimModel {
        eval_point: c.eval_point@,
        eval: c.eval,
        is_random_point: c.is_random_point,
        shifted: shifted_model(c.shifted),
    })
}

/// Ghost mirrors of a list of shifted-oracle claims, in order.
pub open spec fn sec_models(s: Seq<ShiftedEvalClaim>) -> Seq<ShiftedClaimModel> {
    Seq::new(s.len(), |i: int| sec_model(s[i]))
}

/// Ghost mirror of a packed-oracle claim.
pub open spec fn pec_model(c: PackedEvalClaim) -> PackedClaimModel {
    (PackedClaimModel {
        eval_point: c.eval_point@,
        eval: c.eval,
        is_random_point: c.is_random_point,
        packed: packed_model(c.packed),
    })
}

/// Ghost mirrors of a list of packed-oracle claims, in order.
pub open spec fn pec_models(s: Seq<PackedEvalClaim>) -> Seq<PackedClaimModel> {
    Seq::new(s.len(), |i: int| pec_model(s[i]))
}

/// What one verification run does: its result, and the primitive claims it
/// appends to the three accumulators, in order — also on a failing run,
/// since accumulator mutation is not rolled back.
#[verifier::ext_equal]
pub ghost struct VerifyOutcome {
    pub result: Result<(), Error>,
    pub committed: Seq<CommittedClaimModel>,
    pub shifted: Seq<ShiftedClaimModel>,
    pub packed: Seq<PackedClaimModel>,
}

/// The outcome of a run that checks nothing and appends nothing.
pub open spec fn outcome_ok() -> VerifyOutcome {
    (VerifyOutcome {
        result: Ok(()),
        committed: Seq::empty(),
        shifted: Seq::empty(),
        packed: Seq::empty(),
    })
}

/// The outcome of a run that fails with `e` before appending anything.
pub open spec fn outcome_err(e: Error) -> VerifyOutcome {
    (VerifyOutcome {
        result: Err(e),
        committed: Seq::empty(),
        shifted: Seq::empty(),
        packed: Seq::empty(),
    })
}

/// A first run followed by a second: the appends concatenate, the second
/// run's result stands (meaningful when the first run succeeded).
pub open spec fn outcome_then(a: VerifyOutcome, b: VerifyOutcome) -> VerifyOutcome {
    (VerifyOutcome {
        result: b.result,
        committed: a.committed + b.committed,
        shifted: a.shifted + b.shifted,
        packed: a.packed + b.packed,
    })
}

/// Size of a proof tree, for termination of the reduction.
pub open spec fn psize(p: EvalcheckProof) -> nat
    decreases p,
{
    match p {
        EvalcheckProof::Transparent => 1,
        EvalcheckProof::Committed => 1,
        EvalcheckProof::Shifted => 1,
        EvalcheckProof::Packed => 1,
        EvalcheckProof::Repeating(sub) => 1 + psize(*sub),
        EvalcheckProof::Merged { subproof1, subproof2, .. } => 1 + psize(*subproof1) + psize(
            *subproof2,
        ),
        EvalcheckProof::Composite { subproofs } => 1 + plist_size(subproofs@),
    }
}

/// Total size of a list of sub-proofs.
pub open spec fn plist_size(s: Seq<(Felt, EvalcheckProof)>) -> nat
    decreases s,
{
    if s.len() == 0 {
        0
    } else {
        psize(s[0].1) + plist_size(s.drop_first())
    }
}

/// Size of an oracle tree, for termination of the reduction.
pub open spec fn osize(m: OracleModel) -> nat
    decreases m,
{
    match m {
        OracleModel::Transparent { .. } => 1,
        OracleModel::Committed { .. } => 1,
        OracleModel::Repeating { inner, .. } => 1 + osize(*inner),
        OracleModel::Interleaved { poly1, poly2, .. } => 1 + osize(*poly1) + osize(*poly2),
        OracleModel::Merged { poly1, poly2, .. } => 1 + osize(*poly1) + osize(*poly2),
        OracleModel::Projected { projected, .. } => 1 + osize(*projected.inner),
        OracleModel::Shifted { .. } => 1,
        OracleModel::Packed { .. } => 1,
        OracleModel::LinearCombination { lin_com, .. } => 1 + olist_size(lin_com.polys),
    }
}

/// Total size of a list of oracles.
pub open spec fn olist_size(s: Seq<OracleModel>) -> nat
    decreases s,
{
    if s.len() == 0 {
        0
    } else {
        osize(s[0]) + olist_size(s.drop_first())
    }
}

/// The children's claimed evaluations carried by a composite proof node.
pub open spec fn proof_evals(s: Seq<(Felt, EvalcheckProof)>) -> Seq<Felt> {
    Seq::new(s.len(), |i: int| s[i].0)
}

/// The point a projection node hands to its inner oracle: the fixed values
/// prepended or appended to the current point.
pub open spec fn projected_point(
    values: Seq<Felt>,
    variant: ProjectionVariant,
    point: Seq<Felt>,
) -> Seq<Felt> {
    match variant {
        ProjectionVariant::FirstVars => values + point,
        ProjectionVariant::LastVars => point + values,
    }
}

/// What verifying one multilinear-oracle claim does, mirroring the
/// executable reduction case by case: which proof shape each oracle variant
/// requires, which evaluations are recomputed and compared, which primitive
/// claims are appended, and where the run stops on the first error.
pub open spec fn spec_verify_ml(
    m: OracleModel,
    point: Seq<Felt>,
    eval: Felt,
    random: bool,
    pf: EvalcheckProof,
    n_batches: int,
) -> VerifyOutcome
    decreases psize(pf), osize(m),
{
    match m {
        OracleModel::Transparent { poly, .. } => {
            match pf {
            EvalcheckProof::Transparent => {
                if tp_eval(poly, point) == eval {
                    outcome_ok()
                } else {
                    outcome_err(Error::IncorrectEvaluation)
                }
            },
                _ => outcome_err(Error::StructuralMismatch),
            }
        },
        OracleModel::Committed { id, .. } => {
            match pf {
            EvalcheckProof::Committed => {
                if id.batch_id < n_batches {
                    (VerifyOutcome {
                        result: Ok(()),
                        committed: seq![
                            (CommittedClaimModel {
                                id,
                                eval_point: point,
                                eval,
                                is_random_point: random,
                            }),
                        ],
                        shifted: Seq::empty(),
                        packed: Seq::empty(),
                    })
                } else {
                    outcome_err(Error::UnknownBatchId { batch_id: id.batch_id })
                }
            },
                _ => outcome_err(Error::StructuralMismatch),
            }
        },
        OracleModel::Repeating { inner, .. } => {
            match pf {
            EvalcheckProof::Repeating(subproof) => spec_verify_ml(
                *inner,
                point.take(oracle_n_vars(*inner) as int),
                eval,
                random,
                *subproof,
                n_batches,
            ),
                _ => outcome_err(Error::StructuralMismatch),
            }
        },
        OracleModel::Interleaved { .. } => outcome_err(Error::StructuralMismatch),
        OracleModel::Merged { poly1, poly2, .. } => {
            match pf {
            EvalcheckProof::Merged { eval1, eval2, subproof1, subproof2 } => {
                let n1 = oracle_n_vars(*poly1) as int;
                let prefix = point.take(n1);
                if spec_extrapolate(eval1, eval2, point[n1]) != eval {
                    outcome_err(Error::IncorrectEvaluation)
                } else {
                    let o1 = spec_verify_ml(*poly1, prefix, eval1, random, *subproof1, n_batches);
                    if o1.result is Err {
                        o1
                    } else {
                        outcome_then(
                            o1,
                            spec_verify_ml(*poly2, prefix, eval2, random, *subproof2, n_batches),
                        )
                    }
                }
            },
                _ => outcome_err(Error::StructuralMismatch),
            }
        },
        OracleModel::Projected { projected, .. } => spec_verify_ml(
            *projected.inner,
            projected_point(projected.values, projected.variant, point),
            eval,
            random,
            pf,
            n_batches,
        ),
        OracleModel::Shifted { shifted, .. } => {
            match pf {
            EvalcheckProof::Shifted => (VerifyOutcome {
                result: Ok(()),
                committed: Seq::empty(),
                shifted: seq![
                    (ShiftedClaimModel { eval_point: point, eval, is_random_point: random, shifted }),
                ],
                packed: Seq::empty(),
            }),
                _ => outcome_err(Error::StructuralMismatch),
            }
        },
        OracleModel::Packed { packed, .. } => {
            match pf {
            EvalcheckProof::Packed => (VerifyOutcome {
                result: Ok(()),
                committed: Seq::empty(),
                shifted: Seq::empty(),
                packed: seq![
                    (PackedClaimModel { eval_point: point, eval, is_random_point: random, packed }),
                ],
            }),
                _ => outcome_err(Error::StructuralMismatch),
            }
        },
        OracleModel::LinearCombination { lin_com, .. } => {
            match pf {
            EvalcheckProof::Composite { subproofs } => {
                if subproofs@.len() != lin_com.polys.len() {
                    outcome_err(Error::StructuralMismatch)
                } else if spec_inner_product(proof_evals(subproofs@), lin_com.coefficients)
                    != eval {
                    outcome_err(Error::IncorrectEvaluation)
                } else {
                    spec_verify_list(lin_com.polys, point, random, subproofs@, n_batches)
                }
            },
                _ => outcome_err(Error::StructuralMismatch),
            }
        },
    }
}

/// Verifies one claim per child, each with the same point and its own
/// claimed evaluation and sub-proof, stopping at the first error and
/// concatenating the appended claims.
pub open spec fn spec_verify_list(
    polys: Seq<OracleModel>,
    point: Seq<Felt>,
    random: bool,
    subproofs: Seq<(Felt, EvalcheckProof)>,
    n_batches: int,
) -> VerifyOutcome
    decreases plist_size(subproofs), olist_size(polys) + 1,
    via spec_verify_list_decreases
{
    if subproofs.len() == 0 || polys.len() == 0 {
        outcome_ok()
    } else {
        let o1 = spec_verify_ml(
            polys[0],
            point,
            subproofs[0].0,
            random,
            subproofs[0].1,
            n_batches,
        );
        if o1.result is Err {
            o1
        } else {
            outcome_then(
                o1,
                spec_verify_list(
                    polys.drop_first(),
                    point,
                    random,
                    subproofs.drop_first(),
                    n_batches,
                ),
            )
        }
    }
}

/// Every proof tree has positive size.
pub proof fn lemma_psize_pos(p: EvalcheckProof)
    ensures
        psize(p) >= 1,
{
    match p {
        EvalcheckProof::Transparent => {},
        EvalcheckProof::Committed => {},
        EvalcheckProof::Shifted => {},
        EvalcheckProof::Packed => {},
        EvalcheckProof::Repeating(..) => {},
        EvalcheckProof::Merged { .. } => {},
        EvalcheckProof::Composite { .. } => {},
    }
}

#[via_fn]
proof fn spec_verify_list_decreases(
    polys: Seq<OracleModel>,
    point: Seq<Felt>,
    random: bool,
    subproofs: Seq<(Felt, EvalcheckProof)>,
    n_batches: int,
) {
    if subproofs.len() > 0 && polys.len() > 0 {
        lemma_psize_pos(subproofs[0].1);
    }
}

/// What verifying one multivariate-oracle claim does: a multilinear oracle
/// is reduced by [`spec_verify_ml`]; a composite oracle requires a composite
/// proof with one sub-proof per multilinear part, its composition is
/// recomputed over the children's claimed evaluations, and each child is
/// then verified with the same point.
pub open spec fn spec_verify(
    poly: MultivariatePolyOracle,
    point: Seq<Felt>,
    eval: Felt,
    random: bool,
    pf: EvalcheckProof,
    n_batches: int,
) -> VerifyOutcome {
    match poly {
        MultivariatePolyOracle::Multilinear(m) => spec_verify_ml(
            oracle_model(m),
            point,
            eval,
            random,
            pf,
            n_batches,
        ),
        MultivariatePolyOracle::Composite(c) => {
            match pf {
            EvalcheckProof::Composite { subproofs } => {
                if subproofs@.len() != c.inner@.len() {
                    outcome_err(Error::StructuralMismatch)
                } else if comp_eval(c.composition, proof_evals(subproofs@)) != eval {
                    outcome_err(Error::IncorrectEvaluation)
                } else {
                    spec_verify_list(oracle_models(c.inner@), point, random, subproofs@, n_batches)
                }
            },
                _ => outcome_err(Error::StructuralMismatch),
            }
        },
    }
}

/// Every committed leaf that names a batch the accumulator knows also fits
/// inside that batch's declared length. This is the accumulator-side claim
/// invariant, carried by the oracles a claim is verified against.
pub open spec fn committed_in_range(m: OracleModel, lengths: Seq<usize>) -> bool
    decreases m,
{
    match m {
        OracleModel::Transparent { .. } => true,
        OracleModel::Committed { id, .. } => id.batch_id < lengths.len() ==> id.index < lengths[
            id.batch_id as int
        ],
        OracleModel::Repeating { inner, .. } => committed_in_range(*inner, lengths),
        OracleModel::Interleaved { .. } => true,
        OracleModel::Merged { poly1, poly2, .. } => committed_in_range(*poly1, lengths)
            && committed_in_range(*poly2, lengths),
        OracleModel::Projected { projected, .. } => committed_in_range(*projected.inner, lengths),
        OracleModel::Shifted { .. } => true,
        OracleModel::Packed { .. } => true,
        OracleModel::LinearCombination { lin_com, .. } => forall|i: int|
            0 <= i < lin_com.polys.len() ==> committed_in_range(
                #[trigger] lin_com.polys[i],
                lengths,
            ),
    }
}

/// The claim invariant at the multivariate level.
pub open spec fn mv_committed_in_range(p: MultivariatePolyOracle, lengths: Seq<usize>) -> bool {
    match p {
        MultivariatePolyOracle::Multilinear(m) => committed_in_range(oracle_model(m), lengths),
        MultivariatePolyOracle::Composite(c) => forall|i: int|
            0 <= i < c.inner@.len() ==> committed_in_range(
                #[trigger] oracle_models(c.inner@)[i],
                lengths,
            ),
    }
}

/// Termination measure of a multivariate-oracle reduction.
pub open spec fn mvsize(p: MultivariatePolyOracle) -> nat {
    match p {
        MultivariatePolyOracle::Multilinear(m) => osize(oracle_model(m)),
        MultivariatePolyOracle::Composite(c) => olist_size(oracle_models(c.inner@)) + 1,
    }
}

/// The per-batch claim lists after appending each record, in order, to the
/// batch its id names.
pub open spec fn apply_committed(
    ms: Seq<Seq<CommittedClaimModel>>,
    recs: Seq<CommittedClaimModel>,
) -> Seq<Seq<CommittedClaimModel>>
    decreases recs.len(),
{
    if recs.len() == 0 {
        ms
    } else {
        let b = recs[0].id.batch_id as int;
        apply_committed(ms.update(b, ms[b].push(recs[0])), recs.drop_first())
    }
}

/// Appending two record sequences one after the other applies them one
/// after the other.
pub proof fn lemma_apply_committed_concat(
    ms: Seq<Seq<CommittedClaimModel>>,
    a: Seq<CommittedClaimModel>,
    b: Seq<CommittedClaimModel>,
)
    ensures
        apply_committed(ms, a + b) == apply_committed(apply_committed(ms, a), b),
    decreases a.len(),
{
    if a.len() == 0 {
        assert(a + b =~= b);
    } else {
        assert((a + b)[0] == a[0]);
        assert((a + b).drop_first() =~= a.drop_first() + b);
        let bi = a[0].id.batch_id as int;
        lemma_apply_committed_concat(ms.update(bi, ms[bi].push(a[0])), a.drop_first(), b);
    }
}

/// Appending one claim to one batch list, at the value level, appends its
/// model at the model level.
proof fn lemma_batches_models_push(
    oldc: Seq<Vec<CommittedEvalClaim>>,
    newc: Seq<Vec<CommittedEvalClaim>>,
    b: int,
    claim: CommittedEvalClaim,
)
    requires
        0 <= b < oldc.len(),
        newc.len() == oldc.len(),
        forall|j: int| 0 <= j < oldc.len() && j != b ==> newc[j] == oldc[j],
        newc[b]@ == oldc[b]@.push(claim),
    ensures
        batches_models(newc) == batches_models(oldc).update(
            b,
            batches_models(oldc)[b].push(cec_model(claim)),
        ),
{
    assert(cec_models(newc[b]@) =~= cec_models(oldc[b]@).push(cec_model(claim)));
    assert(batches_models(newc) =~~= batches_models(oldc).update(
        b,
        batches_models(oldc)[b].push(cec_model(claim)),
    ));
}

/// Pushing a shifted claim pushes its model.
proof fn lemma_sec_models_push(s: Seq<ShiftedEvalClaim>, c: ShiftedEvalClaim)
    ensures
        sec_models(s.push(c)) == sec_models(s).push(sec_model(c)),
{
    assert(sec_models(s.push(c)) =~= sec_models(s).push(sec_model(c)));
}

/// Pushing a packed claim pushes its model.
proof fn lemma_pec_models_push(s: Seq<PackedEvalClaim>, c: PackedEvalClaim)
    ensures
        pec_models(s.push(c)) == pec_models(s).push(pec_model(c)),
{
    assert(pec_models(s.push(c)) =~= pec_models(s).push(pec_model(c)));
}

/// Holds of the accumulators after a run described by `out`, starting from
/// the accumulators' old states.
pub open spec fn accumulators_extended(
    out: VerifyOutcome,
    batch_old: BatchCommittedEvalClaims,
    batch_new: BatchCommittedEvalClaims,
    shifted_old: Seq<ShiftedEvalClaim>,
    shifted_new: Seq<ShiftedEvalClaim>,
    packed_old: Seq<PackedEvalClaim>,
    packed_new: Seq<PackedEvalClaim>,
) -> bool {
    &&& batch_new.batch_lengths == batch_old.batch_lengths
    &&& batches_models(batch_new.claims_by_batch@) == apply_committed(
        batches_models(batch_old.claims_by_batch@),
        out.committed,
    )
    &&& sec_models(shifted_new) == sec_models(shifted_old) + out.shifted
    &&& pec_models(packed_new) == pec_models(packed_old) + out.packed
}

/// Verifies that a claimed evaluation of a multivariate polynomial oracle
/// follows from the evaluations its proof claims for the primitive oracles
/// underneath, appending one primitive claim per committed, shifted or
/// packed leaf to the accumulators. Fails with `StructuralMismatch` wherever
/// the proof's shape disagrees with the oracle, and with
/// `IncorrectEvaluation` wherever a recomputed value disagrees with a
/// claimed one; what is appended — also by a failing run, which is not
/// rolled back — is pinned down by [`spec_verify`].
pub fn verify(
    evalcheck_claim: EvalcheckClaim,
    evalcheck_proof: EvalcheckProof,
    batch_committed_eval_claims: &mut BatchCommittedEvalClaims,
    shifted_eval_claims: &mut Vec<ShiftedEvalClaim>,
    packed_eval_claims: &mut Vec<PackedEvalClaim>,
) -> (r: Result<(), Error>)
    requires
        mv_wf(evalcheck_claim.poly),
        evalcheck_claim.eval_point@.len() == mv_n_vars(evalcheck_claim.poly),
        acc_wf(*old(batch_committed_eval_claims)),
        mv_committed_in_range(
            evalcheck_claim.poly,
            old(batch_committed_eval_claims).batch_lengths@,
        ),
    ensures
        acc_wf(*final(batch_committed_eval_claims)),
        ({
            let out = spec_verify(
                evalcheck_claim.poly,
                evalcheck_claim.eval_point@,
                evalcheck_claim.eval,
                evalcheck_claim.is_random_point,
                evalcheck_proof,
                old(batch_committed_eval_claims).batch_lengths@.len() as int,
            );
            &&& r == out.result
            &&& accumulators_extended(
                out,
                *old(batch_committed_eval_claims),
                *final(batch_committed_eval_claims),
                old(shifted_eval_claims)@,
                final(shifted_eval_claims)@,
                old(packed_eval_claims)@,
                final(packed_eval_claims)@,
            )
        }),
{
    verify_inner(
        evalcheck_claim,
        evalcheck_proof,
        batch_committed_eval_claims,
        shifted_eval_claims,
        packed_eval_claims,
    )
}

/// The recursive worker behind [`verify`], with the same contract.
pub fn verify_inner(
    evalcheck_claim: EvalcheckClaim,
    evalcheck_proof: EvalcheckProof,
    batch_committed_eval_claims: &mut BatchCommittedEvalClaims,
    shifted_eval_claims: &mut Vec<ShiftedEvalClaim>,
    packed_eval_claims: &mut Vec<PackedEvalClaim>,
) -> (r: Result<(), Error>)
    requires
        mv_wf(evalcheck_claim.poly),
        evalcheck_claim.eval_point@.len() == mv_n_vars(evalcheck_claim.poly),
        acc_wf(*old(batch_committed_eval_claims)),
        mv_committed_in_range(
            evalcheck_claim.poly,
            old(batch_committed_eval_claims).batch_lengths@,
        ),
    ensures
        acc_wf(*final(batch_committed_eval_claims)),
        ({
            let out = spec_verify(
                evalcheck_claim.poly,
                evalcheck_claim.eval_point@,
                evalcheck_claim.eval,
                evalcheck_claim.is_random_point,
                evalcheck_proof,
                old(batch_committed_eval_claims).batch_lengths@.len() as int,
            );
            &&& r == out.result
            &&& accumulators_extended(
                out,
                *old(batch_committed_eval_claims),
                *final(batch_committed_eval_claims),
                old(shifted_eval_claims)@,
                final(shifted_eval_claims)@,
                old(packed_eval_claims)@,
                final(packed_eval_claims)@,
            )
        }),
    decreases psize(evalcheck_proof), mvsize(evalcheck_claim.poly),
{
    let ghost nb = old(batch_committed_eval_claims).batch_lengths@.len() as int;
    let EvalcheckClaim { poly, mut eval_point, eval, is_random_point } = evalcheck_claim;
    match poly {
        MultivariatePolyOracle::Multilinear(multilinear) => {
            let ghost ml0 = multilinear;
            match multilinear {
            MultilinearPolyOracle::Transparent { poly: transparent, .. } => {
                match evalcheck_proof {
                    EvalcheckProof::Transparent => {},
                    _ => {
                        return Err(Error::StructuralMismatch);
                    },
                };
                let actual_eval = match transparent.evaluate(&eval_point) {
                    Ok(v) => v,
                    Err(e) => {
                        proof {
                            assert(false);
                        }
                        return Err(e);
                    },
                };
                if !crate::field::felt_equal(actual_eval, eval) {
                    return Err(Error::IncorrectEvaluation);
                }
                Ok(())
            },
            MultilinearPolyOracle::Committed { id, .. } => {
                match evalcheck_proof {
                    EvalcheckProof::Committed => {},
                    _ => {
                        return Err(Error::StructuralMismatch);
                    },
                };
                let ghost bm0 = batches_models(
                    old(batch_committed_eval_claims).claims_by_batch@,
                );
                let subclaim = CommittedEvalClaim { id, eval_point, eval, is_random_point };
                let ghost rec = cec_model(subclaim);
                match batch_committed_eval_claims.insert(subclaim) {
                    Ok(()) => {
                        proof {
                            lemma_batches_models_push(
                                old(batch_committed_eval_claims).claims_by_batch@,
                                batch_committed_eval_claims.claims_by_batch@,
                                id.batch_id as int,
                                subclaim,
                            );
                            assert(seq![rec].drop_first() =~= Seq::<
                                CommittedClaimModel,
                            >::empty());
                            assert(seq![rec][0] == rec);
                            let updated = bm0.update(
                                id.batch_id as int,
                                bm0[id.batch_id as int].push(rec),
                            );
                            assert(apply_committed(updated, Seq::empty()) == updated);
                            assert(apply_committed(bm0, seq![rec]) == apply_committed(
                                updated,
                                seq![rec].drop_first(),
                            ));
                            assert(batches_models(batch_committed_eval_claims.claims_by_batch@)
                                == apply_committed(bm0, seq![rec]));
                        }
                        Ok(())
                    },
                    Err(e) => Err(e),
                }
            },
            MultilinearPolyOracle::Repeating { inner, .. } => {
                let subproof = match evalcheck_proof {
                    EvalcheckProof::Repeating(subproof) => subproof,
                    _ => {
                        return Err(Error::StructuralMismatch);
                    },
                };
                let n_vars = inner.n_vars();
                eval_point.truncate(n_vars);
                proof {
                    assert(eval_point@ =~= evalcheck_claim.eval_point@.take(n_vars as int));
                }
                let subclaim = EvalcheckClaim {
                    poly: MultivariatePolyOracle::Multilinear(*inner),
                    eval_point,
                    eval,
                    is_random_point,
                };
                verify_inner(
                    subclaim,
                    *subproof,
                    batch_committed_eval_claims,
                    shifted_eval_claims,
                    packed_eval_claims,
                )
            },
            MultilinearPolyOracle::Interleaved { .. } => {
                // no reduction is defined for interleaved oracles: checking
                // one is an explicit failure
                Err(Error::StructuralMismatch)
            },
            MultilinearPolyOracle::Merged { poly1, poly2, .. } => {
                let (eval1, eval2, subproof1, subproof2) = match evalcheck_proof {
                    EvalcheckProof::Merged { eval1, eval2, subproof1, subproof2 } => (
                        eval1,
                        eval2,
                        subproof1,
                        subproof2,
                    ),
                    _ => {
                        return Err(Error::StructuralMismatch);
                    },
                };
                // check the claimed evaluation against the extrapolation of
                // the children's claimed evaluations over the last coordinate
                let n_vars = poly1.n_vars();
                let t = eval_point[n_vars];
                let actual_eval = crate::field::extrapolate_line(eval1, eval2, t);
                if !crate::field::felt_equal(actual_eval, eval) {
                    return Err(Error::IncorrectEvaluation);
                }
                let mut prefix2 = crate::oracle::copy_scalars(&eval_point);
                eval_point.truncate(n_vars);
                prefix2.truncate(n_vars);
                proof {
                    assert(eval_point@ =~= evalcheck_claim.eval_point@.take(n_vars as int));
                    assert(prefix2@ =~= evalcheck_claim.eval_point@.take(n_vars as int));
                }
                let claim1 = EvalcheckClaim {
                    poly: MultivariatePolyOracle::Multilinear(*poly1),
                    eval_point,
                    eval: eval1,
                    is_random_point,
                };
                let ghost mid_batch = *batch_committed_eval_claims;
                let ghost mid_shifted = shifted_eval_claims@;
                let ghost mid_packed = packed_eval_claims@;
                match verify_inner(
                    claim1,
                    *subproof1,
                    batch_committed_eval_claims,
                    shifted_eval_claims,
                    packed_eval_claims,
                ) {
                    Ok(()) => {},
                    Err(e) => {
                        return Err(e);
                    },
                }
                let ghost o1 = spec_verify_ml(
                    oracle_model(*poly1),
                    evalcheck_claim.eval_point@.take(n_vars as int),
                    eval1,
                    is_random_point,
                    *subproof1,
                    nb,
                );
                let ghost mid2_batch = *batch_committed_eval_claims;
                let ghost mid2_shifted = shifted_eval_claims@;
                let ghost mid2_packed = packed_eval_claims@;
                let claim2 = EvalcheckClaim {
                    poly: MultivariatePolyOracle::Multilinear(*poly2),
                    eval_point: prefix2,
                    eval: eval2,
                    is_random_point,
                };
                let r2 = verify_inner(
                    claim2,
                    *subproof2,
                    batch_committed_eval_claims,
                    shifted_eval_claims,
                    packed_eval_claims,
                );
                proof {
                    let o2 = spec_verify_ml(
                        oracle_model(*poly2),
                        evalcheck_claim.eval_point@.take(n_vars as int),
                        eval2,
                        is_random_point,
                        *subproof2,
                        nb,
                    );
                    lemma_apply_committed_concat(
                        batches_models(old(batch_committed_eval_claims).claims_by_batch@),
                        o1.committed,
                        o2.committed,
                    );
                    assert(sec_models(shifted_eval_claims@) =~= sec_models(
                        old(shifted_eval_claims)@,
                    ) + (o1.shifted + o2.shifted));
                    assert(pec_models(packed_eval_claims@) =~= pec_models(
                        old(packed_eval_claims)@,
                    ) + (o1.packed + o2.packed));
                }
                r2
            },
            MultilinearPolyOracle::Projected { projected, .. } => {
                let crate::oracle::Projected { inner, values, variant } = projected;
                let mut values = values;
                let extended = match variant {
                    ProjectionVariant::LastVars => {
                        eval_point.append(&mut values);
                        eval_point
                    },
                    ProjectionVariant::FirstVars => {
                        values.append(&mut eval_point);
                        values
                    },
                };
                let new_claim = EvalcheckClaim {
                    poly: MultivariatePolyOracle::Multilinear(*inner),
                    eval_point: extended,
                    eval,
                    is_random_point,
                };
                verify_inner(
                    new_claim,
                    evalcheck_proof,
                    batch_committed_eval_claims,
                    shifted_eval_claims,
                    packed_eval_claims,
                )
            },
            MultilinearPolyOracle::Shifted { shifted, .. } => {
                match evalcheck_proof {
                    EvalcheckProof::Shifted => {},
                    _ => {
                        return Err(Error::StructuralMismatch);
                    },
                };
                let subclaim = ShiftedEvalClaim { eval_point, eval, is_random_point, shifted };
                proof {
                    lemma_sec_models_push(shifted_eval_claims@, subclaim);
                }
                shifted_eval_claims.push(subclaim);
                proof {
                    assert(sec_models(shifted_eval_claims@) =~= sec_models(
                        old(shifted_eval_claims)@,
                    ) + seq![sec_model(subclaim)]);
                }
                Ok(())
            },
            MultilinearPolyOracle::Packed { packed, .. } => {
                match evalcheck_proof {
                    EvalcheckProof::Packed => {},
                    _ => {
                        return Err(Error::StructuralMismatch);
                    },
                };
                let subclaim = PackedEvalClaim { eval_point, eval, is_random_point, packed };
                proof {
                    lemma_pec_models_push(packed_eval_claims@, subclaim);
                }
                packed_eval_claims.push(subclaim);
                proof {
                    assert(pec_models(packed_eval_claims@) =~= pec_models(
                        old(packed_eval_claims)@,
                    ) + seq![pec_model(subclaim)]);
                }
                Ok(())
            },
            MultilinearPolyOracle::LinearCombination { lin_com, .. } => {
                let subproofs = match evalcheck_proof {
                    EvalcheckProof::Composite { subproofs } => subproofs,
                    _ => {
                        return Err(Error::StructuralMismatch);
                    },
                };
                let ghost lc0 = lin_com;
                let crate::oracle::LinearCombination { n_vars: _, polys, coefficients } = lin_com;
                proof {
                    lemma_oracle_models_index_vl(polys@);
                }
                if subproofs.len() != polys.len() {
                    return Err(Error::StructuralMismatch);
                }
                proof {
                    let m0 = oracle_model(ml0);
                    assert(oracle_wf(m0));
                    assert(oracle_models(polys@) == m0->LinearCombination_lin_com.polys);
                    assert(oracle_n_vars(m0) == lc0.n_vars as nat);
                    assert(committed_in_range(
                        m0,
                        old(batch_committed_eval_claims).batch_lengths@,
                    ));
                    assert forall|i: int| 0 <= i < polys@.len() implies oracle_wf(
                        #[trigger] oracle_models(polys@)[i],
                    ) && oracle_n_vars(oracle_models(polys@)[i]) == eval_point@.len()
                        && committed_in_range(
                        oracle_models(polys@)[i],
                        old(batch_committed_eval_claims).batch_lengths@,
                    ) by {
                        assert(m0->LinearCombination_lin_com.polys[i] == oracle_models(
                            polys@,
                        )[i]);
                    }
                }
                // recompute the claimed evaluation as the linear combination
                // of the children's claimed evaluations
                let evals = subproof_evals(&subproofs);
                proof {
                    assert(evals@ =~= proof_evals(subproofs@));
                }
                let actual_eval = crate::field::inner_product(&evals, &coefficients);
                if !crate::field::felt_equal(actual_eval, eval) {
                    return Err(Error::IncorrectEvaluation);
                }
                verify_list(
                    polys,
                    &eval_point,
                    is_random_point,
                    subproofs,
                    batch_committed_eval_claims,
                    shifted_eval_claims,
                    packed_eval_claims,
                )
            },
            }
        },
        MultivariatePolyOracle::Composite(composite) => {
            let subproofs = match evalcheck_proof {
                EvalcheckProof::Composite { subproofs } => subproofs,
                _ => {
                    return Err(Error::StructuralMismatch);
                },
            };
            let ghost c0 = composite;
            let crate::oracle::CompositePolyOracle { n_vars: _, inner, composition } = composite;
            proof {
                lemma_oracle_models_index_vl(inner@);
            }
            if subproofs.len() != inner.len() {
                return Err(Error::StructuralMismatch);
            }
            proof {
                assert(evalcheck_claim.poly == MultivariatePolyOracle::Composite(c0));
                assert(crate::oracle::cpo_wf(c0));
                assert(oracle_models(inner@) == oracle_models(c0.inner@));
                assert(eval_point@.len() == c0.n_vars as nat);
                assert forall|i: int| 0 <= i < inner@.len() implies oracle_wf(
                    #[trigger] oracle_models(inner@)[i],
                ) && oracle_n_vars(oracle_models(inner@)[i]) == eval_point@.len()
                    && committed_in_range(
                    oracle_models(inner@)[i],
                    old(batch_committed_eval_claims).batch_lengths@,
                ) by {
                    assert(crate::oracle::all_wf_with_n_vars(
                        oracle_models(c0.inner@),
                        c0.n_vars as nat,
                    ));
                    assert(oracle_wf(oracle_models(c0.inner@)[i]));
                    assert(oracle_n_vars(oracle_models(c0.inner@)[i]) == c0.n_vars as nat);
                    assert(committed_in_range(
                        oracle_models(c0.inner@)[i],
                        old(batch_committed_eval_claims).batch_lengths@,
                    ));
                }
            }
            // recompute the claimed evaluation as the composition of the
            // children's claimed evaluations
            let evals = subproof_evals(&subproofs);
            proof {
                assert(evals@ =~= proof_evals(subproofs@));
            }
            let actual_eval = match composition.evaluate(&evals) {
                Ok(v) => v,
                Err(e) => {
                    proof {
                        assert(false);
                    }
                    return Err(e);
                },
            };
            if !crate::field::felt_equal(actual_eval, eval) {
                return Err(Error::IncorrectEvaluation);
            }
            verify_list(
                inner,
                &eval_point,
                is_random_point,
                subproofs,
                batch_committed_eval_claims,
                shifted_eval_claims,
                packed_eval_claims,
            )
        },
    }
}

/// The children's claimed evaluations, extracted from a composite proof
/// node's sub-proofs in order.
fn subproof_evals(subproofs: &Vec<(Felt, EvalcheckProof)>) -> (r: Vec<Felt>)
    ensures
        r@.len() == subproofs@.len(),
        forall|i: int| 0 <= i < subproofs@.len() ==> r@[i] == (#[trigger] subproofs@[i]).0,
{
    let mut r: Vec<Felt> = Vec::new();
    let mut i: usize = 0;
    while i < subproofs.len()
        invariant
            i <= subproofs@.len(),
            r@.len() == i,
            forall|j: int| 0 <= j < i ==> r@[j] == (#[trigger] subproofs@[j]).0,
        decreases subproofs@.len() - i,
    {
        r.push(subproofs[i].0);
        i = i + 1;
    }
    r
}

/// Verifies one claim per child oracle of a composite or linear-combination
/// node, each with the same evaluation point and its own claimed evaluation
/// and sub-proof, stopping at the first error.
fn verify_list(
    polys: Vec<MultilinearPolyOracle>,
    point: &Vec<Felt>,
    is_random_point: bool,
    subproofs: Vec<(Felt, EvalcheckProof)>,
    batch_committed_eval_claims: &mut BatchCommittedEvalClaims,
    shifted_eval_claims: &mut Vec<ShiftedEvalClaim>,
    packed_eval_claims: &mut Vec<PackedEvalClaim>,
) -> (r: Result<(), Error>)
    requires
        polys@.len() == subproofs@.len(),
        forall|i: int|
            0 <= i < polys@.len() ==> oracle_wf(#[trigger] oracle_models(polys@)[i])
                && oracle_n_vars(oracle_models(polys@)[i]) == point@.len(),
        forall|i: int|
            0 <= i < polys@.len() ==> committed_in_range(
                #[trigger] oracle_models(polys@)[i],
                old(batch_committed_eval_claims).batch_lengths@,
            ),
        acc_wf(*old(batch_committed_eval_claims)),
    ensures
        acc_wf(*final(batch_committed_eval_claims)),
        ({
            let out = spec_verify_list(
                oracle_models(polys@),
                point@,
                is_random_point,
                subproofs@,
                old(batch_committed_eval_claims).batch_lengths@.len() as int,
            );
            &&& r == out.result
            &&& accumulators_extended(
                out,
                *old(batch_committed_eval_claims),
                *final(batch_committed_eval_claims),
                old(shifted_eval_claims)@,
                final(shifted_eval_claims)@,
                old(packed_eval_claims)@,
                final(packed_eval_claims)@,
            )
        }),
    decreases plist_size(subproofs@), olist_size(oracle_models(polys@)) + 1,
{
    let ghost nb = old(batch_committed_eval_claims).batch_lengths@.len() as int;
    let ghost polys0 = polys@;
    let ghost subs0 = subproofs@;
    let mut polys = polys;
    let mut subproofs = subproofs;
    if subproofs.len() == 0 {
        proof {
            assert(batches_models(batch_committed_eval_claims.claims_by_batch@)
                =~~= apply_committed(
                batches_models(old(batch_committed_eval_claims).claims_by_batch@),
                Seq::empty(),
            ));
            assert(sec_models(shifted_eval_claims@) =~= sec_models(old(shifted_eval_claims)@)
                + Seq::<ShiftedClaimModel>::empty());
            assert(pec_models(packed_eval_claims@) =~= pec_models(old(packed_eval_claims)@)
                + Seq::<PackedClaimModel>::empty());
        }
        return Ok(());
    }
    let (sub_eval, subproof) = subproofs.remove(0);
    let suboracle = polys.remove(0);
    proof {
        lemma_oracle_models_index_vl(polys0);
        assert(subs0.remove(0) =~= subs0.drop_first());
        assert(polys0.remove(0) =~= polys0.drop_first());
        lemma_oracle_models_drop_first(polys0);
        assert(oracle_models(polys0)[0] == oracle_model(suboracle));
        lemma_psize_pos(subproof);
    }
    let point_copy = crate::oracle::copy_scalars(point);
    let subclaim = EvalcheckClaim {
        poly: MultivariatePolyOracle::Multilinear(suboracle),
        eval_point: point_copy,
        eval: sub_eval,
        is_random_point,
    };
    match verify_inner(
        subclaim,
        subproof,
        batch_committed_eval_claims,
        shifted_eval_claims,
        packed_eval_claims,
    ) {
        Ok(()) => {},
        Err(e) => {
            return Err(e);
        },
    }
    let ghost o1 = spec_verify_ml(
        oracle_models(polys0)[0],
        point@,
        subs0[0].0,
        is_random_point,
        subs0[0].1,
        nb,
    );
    let r2 = verify_list(
        polys,
        point,
        is_random_point,
        subproofs,
        batch_committed_eval_claims,
        shifted_eval_claims,
        packed_eval_claims,
    );
    proof {
        let o2 = spec_verify_list(
            oracle_models(polys0).drop_first(),
            point@,
            is_random_point,
            subs0.drop_first(),
            nb,
        );
        lemma_apply_committed_concat(
            batches_models(old(batch_committed_eval_claims).claims_by_batch@),
            o1.committed,
            o2.committed,
        );
        assert(sec_models(shifted_eval_claims@) =~= sec_models(old(shifted_eval_claims)@) + (
        o1.shifted + o2.shifted));
        assert(pec_models(packed_eval_claims@) =~= pec_models(old(packed_eval_claims)@) + (
        o1.packed + o2.packed));
    }
    r2
}

/// How many primitive claims of each kind one verification of an oracle
/// appends when it succeeds: one per committed, shifted or packed leaf the
/// reduction visits.
pub ghost struct LeafCounts {
    pub committed: nat,
    pub shifted: nat,
    pub packed: nat,
}

/// The number of committed, shifted and packed leaves a successful
/// verification of the oracle visits.
pub open spec fn leaf_counts(m: OracleModel) -> LeafCounts
    decreases m,
{
    match m {
        OracleModel::Transparent { .. } => (LeafCounts { committed: 0, shifted: 0, packed: 0 }),
        OracleModel::Committed { .. } => (LeafCounts { committed: 1, shifted: 0, packed: 0 }),
        OracleModel::Repeating { inner, .. } => leaf_counts(*inner),
        OracleModel::Interleaved { .. } => (LeafCounts { committed: 0, shifted: 0, packed: 0 }),
        OracleModel::Merged { poly1, poly2, .. } => counts_add(
            leaf_counts(*poly1),
            leaf_counts(*poly2),
        ),
        OracleModel::Projected { projected, .. } => leaf_counts(*projected.inner),
        OracleModel::Shifted { .. } => (LeafCounts { committed: 0, shifted: 1, packed: 0 }),
        OracleModel::Packed { .. } => (LeafCounts { committed: 0, shifted: 0, packed: 1 }),
        OracleModel::LinearCombination { lin_com, .. } => leaf_counts_list(lin_com.polys),
    }
}

/// Componentwise sum of two leaf counts.
pub open spec fn counts_add(a: LeafCounts, b: LeafCounts) -> LeafCounts {
    (LeafCounts {
        committed: a.committed + b.committed,
        shifted: a.shifted + b.shifted,
        packed: a.packed + b.packed,
    })
}

/// Total leaf counts of a list of oracles.
pub open spec fn leaf_counts_list(polys: Seq<OracleModel>) -> LeafCounts
    decreases polys,
{
    if polys.len() == 0 {
        (LeafCounts { committed: 0, shifted: 0, packed: 0 })
    } else {
        counts_add(leaf_counts(polys[0]), leaf_counts_list(polys.drop_first()))
    }
}

/// A successful verification appends exactly one claim per committed,
/// shifted or packed leaf of the oracle it checked: no claim is lost and
/// none is invented.
pub proof fn lemma_ok_run_appends_one_claim_per_leaf(
    m: OracleModel,
    point: Seq<Felt>,
    eval: Felt,
    random: bool,
    pf: EvalcheckProof,
    n_batches: int,
)
    requires
        spec_verify_ml(m, point, eval, random, pf, n_batches).result is Ok,
    ensures
        spec_verify_ml(m, point, eval, random, pf, n_batches).committed.len() == leaf_counts(
            m,
        ).committed,
        spec_verify_ml(m, point, eval, random, pf, n_batches).shifted.len() == leaf_counts(
            m,
        ).shifted,
        spec_verify_ml(m, point, eval, random, pf, n_batches).packed.len() == leaf_counts(
            m,
        ).packed,
    decreases psize(pf), osize(m),
{
    match m {
        OracleModel::Transparent { .. } => {},
        OracleModel::Committed { .. } => {},
        OracleModel::Repeating { inner, .. } => {
            if pf is Repeating {
                lemma_ok_run_appends_one_claim_per_leaf(
                    *inner,
                    point.take(oracle_n_vars(*inner) as int),
                    eval,
                    random,
                    *pf->Repeating_0,
                    n_batches,
                );
            }
        },
        OracleModel::Interleaved { .. } => {},
        OracleModel::Merged { poly1, poly2, .. } => {
            if pf is Merged {
                let n1 = oracle_n_vars(*poly1) as int;
                let prefix = point.take(n1);
                lemma_ok_run_appends_one_claim_per_leaf(
                    *poly1,
                    prefix,
                    pf->Merged_eval1,
                    random,
                    *pf->Merged_subproof1,
                    n_batches,
                );
                lemma_ok_run_appends_one_claim_per_leaf(
                    *poly2,
                    prefix,
                    pf->Merged_eval2,
                    random,
                    *pf->Merged_subproof2,
                    n_batches,
                );
            }
        },
        OracleModel::Projected { projected, .. } => {
            lemma_ok_run_appends_one_claim_per_leaf(
                *projected.inner,
                projected_point(projected.values, projected.variant, point),
                eval,
                random,
                pf,
                n_batches,
            );
        },
        OracleModel::Shifted { .. } => {},
        OracleModel::Packed { .. } => {},
        OracleModel::LinearCombination { lin_com, .. } => {
            if pf is Composite {
                lemma_ok_list_appends_one_claim_per_leaf(
                    lin_com.polys,
                    point,
                    random,
                    pf->Composite_subproofs@,
                    n_batches,
                );
            }
        },
    }
}

/// List form of the one-claim-per-leaf law.
pub proof fn lemma_ok_list_appends_one_claim_per_leaf(
    polys: Seq<OracleModel>,
    point: Seq<Felt>,
    random: bool,
    subproofs: Seq<(Felt, EvalcheckProof)>,
    n_batches: int,
)
    requires
        spec_verify_list(polys, point, random, subproofs, n_batches).result is Ok,
        polys.len() == subproofs.len(),
    ensures
        spec_verify_list(polys, point, random, subproofs, n_batches).committed.len()
            == leaf_counts_list(polys).committed,
        spec_verify_list(polys, point, random, subproofs, n_batches).shifted.len()
            == leaf_counts_list(polys).shifted,
        spec_verify_list(polys, point, random, subproofs, n_batches).packed.len()
            == leaf_counts_list(polys).packed,
    decreases plist_size(subproofs), olist_size(polys) + 1,
{
    if subproofs.len() > 0 && polys.len() > 0 {
        let o1 = spec_verify_ml(polys[0], point, subproofs[0].0, random, subproofs[0].1, n_batches);
        if o1.result is Ok {
            lemma_ok_run_appends_one_claim_per_leaf(
                polys[0],
                point,
                subproofs[0].0,
                random,
                subproofs[0].1,
                n_batches,
            );
            lemma_psize_pos(subproofs[0].1);
            lemma_ok_list_appends_one_claim_per_leaf(
                polys.drop_first(),
                point,
                random,
                subproofs.drop_first(),
                n_batches,
            );
        }
    }
}

/// What a correct prover produces: a proof whose shape mirrors the oracle at
/// every node, whose claimed child evaluations satisfy every recomputation
/// identity on the way down, and whose committed leaves name batches the
/// accumulator knows. Defined independently of the verifier's run.
pub open spec fn consistent_ml(
    m: OracleModel,
    point: Seq<Felt>,
    eval: Felt,
    pf: EvalcheckProof,
    n_batches: int,
) -> bool
    decreases psize(pf), osize(m),
{
    match m {
        OracleModel::Transparent { poly, .. } => pf is Transparent && tp_eval(poly, point)
            == eval,
        OracleModel::Committed { id, .. } => pf is Committed && id.batch_id < n_batches,
        OracleModel::Repeating { inner, .. } => pf is Repeating && consistent_ml(
            *inner,
            point.take(oracle_n_vars(*inner) as int),
            eval,
            *pf->Repeating_0,
            n_batches,
        ),
        OracleModel::Interleaved { .. } => false,
        OracleModel::Merged { poly1, poly2, .. } => pf is Merged && ({
            let n1 = oracle_n_vars(*poly1) as int;
            let prefix = point.take(n1);
            &&& eval == spec_extrapolate(pf->Merged_eval1, pf->Merged_eval2, point[n1])
            &&& consistent_ml(*poly1, prefix, pf->Merged_eval1, *pf->Merged_subproof1, n_batches)
            &&& consistent_ml(*poly2, prefix, pf->Merged_eval2, *pf->Merged_subproof2, n_batches)
        }),
        OracleModel::Projected { projected, .. } => consistent_ml(
            *projected.inner,
            projected_point(projected.values, projected.variant, point),
            eval,
            pf,
            n_batches,
        ),
        OracleModel::Shifted { .. } => pf is Shifted,
        OracleModel::Packed { .. } => pf is Packed,
        OracleModel::LinearCombination { lin_com, .. } => pf is Composite && ({
            let subproofs = pf->Composite_subproofs@;
            &&& subproofs.len() == lin_com.polys.len()
            &&& spec_inner_product(proof_evals(subproofs), lin_com.coefficients) == eval
            &&& consistent_list(lin_com.polys, point, subproofs, n_batches)
        }),
    }
}

/// List form of prover consistency: each child's claimed evaluation and
/// sub-proof is consistent with its oracle.
pub open spec fn consistent_list(
    polys: Seq<OracleModel>,
    point: Seq<Felt>,
    subproofs: Seq<(Felt, EvalcheckProof)>,
    n_batches: int,
) -> bool
    decreases plist_size(subproofs), olist_size(polys) + 1,
    via consistent_list_decreases
{
    if subproofs.len() == 0 || polys.len() == 0 {
        true
    } else {
        consistent_ml(polys[0], point, subproofs[0].0, subproofs[0].1, n_batches)
            && consistent_list(polys.drop_first(), point, subproofs.drop_first(), n_batches)
    }
}

#[via_fn]
proof fn consistent_list_decreases(
    polys: Seq<OracleModel>,
    point: Seq<Felt>,
    subproofs: Seq<(Felt, EvalcheckProof)>,
    n_batches: int,
) {
    if subproofs.len() > 0 && polys.len() > 0 {
        lemma_psize_pos(subproofs[0].1);
    }
}

/// The verifier accepts exactly the claim/proof pairs a correct prover
/// produces: a run succeeds if and only if the pair is consistent.
pub proof fn lemma_verify_accepts_exactly_consistent_pairs(
    m: OracleModel,
    point: Seq<Felt>,
    eval: Felt,
    random: bool,
    pf: EvalcheckProof,
    n_batches: int,
)
    ensures
        spec_verify_ml(m, point, eval, random, pf, n_batches).result is Ok <==> consistent_ml(
            m,
            point,
            eval,
            pf,
            n_batches,
        ),
    decreases psize(pf), osize(m),
{
    match m {
        OracleModel::Transparent { .. } => {},
        OracleModel::Committed { .. } => {},
        OracleModel::Repeating { inner, .. } => {
            if pf is Repeating {
                lemma_verify_accepts_exactly_consistent_pairs(
                    *inner,
                    point.take(oracle_n_vars(*inner) as int),
                    eval,
                    random,
                    *pf->Repeating_0,
                    n_batches,
                );
            }
        },
        OracleModel::Interleaved { .. } => {},
        OracleModel::Merged { poly1, poly2, .. } => {
            if pf is Merged {
                let n1 = oracle_n_vars(*poly1) as int;
                let prefix = point.take(n1);
                lemma_verify_accepts_exactly_consistent_pairs(
                    *poly1,
                    prefix,
                    pf->Merged_eval1,
                    random,
                    *pf->Merged_subproof1,
                    n_batches,
                );
                lemma_verify_accepts_exactly_consistent_pairs(
                    *poly2,
                    prefix,
                    pf->Merged_eval2,
                    random,
                    *pf->Merged_subproof2,
                    n_batches,
                );
            }
        },
        OracleModel::Projected { projected, .. } => {
            lemma_verify_accepts_exactly_consistent_pairs(
                *projected.inner,
                projected_point(projected.values, projected.variant, point),
                eval,
                random,
                pf,
                n_batches,
            );
        },
        OracleModel::Shifted { .. } => {},
        OracleModel::Packed { .. } => {},
        OracleModel::LinearCombination { lin_com, .. } => {
            if pf is Composite {
                lemma_verify_list_accepts_exactly_consistent_pairs(
                    lin_com.polys,
                    point,
                    random,
                    pf->Composite_subproofs@,
                    n_batches,
                );
            }
        },
    }
}

/// List form of the acceptance characterization.
pub proof fn lemma_verify_list_accepts_exactly_consistent_pairs(
    polys: Seq<OracleModel>,
    point: Seq<Felt>,
    random: bool,
    subproofs: Seq<(Felt, EvalcheckProof)>,
    n_batches: int,
)
    ensures
        spec_verify_list(polys, point, random, subproofs, n_batches).result is Ok
            <==> consistent_list(polys, point, subproofs, n_batches),
    decreases plist_size(subproofs), olist_size(polys) + 1,
{
    if subproofs.len() > 0 && polys.len() > 0 {
        lemma_verify_accepts_exactly_consistent_pairs(
            polys[0],
            point,
            subproofs[0].0,
            random,
            subproofs[0].1,
            n_batches,
        );
        lemma_psize_pos(subproofs[0].1);
        lemma_verify_list_accepts_exactly_consistent_pairs(
            polys.drop_first(),
            point,
            random,
            subproofs.drop_first(),
            n_batches,
        );
    }
}

/// Prover consistency at the multivariate level: for a composite oracle, a
/// composite proof with one sub-proof per part whose claimed evaluations
/// compose to the claimed value, each part consistent in turn.
pub open spec fn consistent(
    poly: MultivariatePolyOracle,
    point: Seq<Felt>,
    eval: Felt,
    pf: EvalcheckProof,
    n_batches: int,
) -> bool {
    match poly {
        MultivariatePolyOracle::Multilinear(m) => consistent_ml(
            oracle_model(m),
            point,
            eval,
            pf,
            n_batches,
        ),
        MultivariatePolyOracle::Composite(c) => pf is Composite && ({
            let subproofs = pf->Composite_subproofs@;
            &&& subproofs.len() == c.inner@.len()
            &&& comp_eval(c.composition, proof_evals(subproofs)) == eval
            &&& consistent_list(oracle_models(c.inner@), point, subproofs, n_batches)
        }),
    }
}

/// The verifier accepts exactly the claim/proof pairs a correct prover
/// produces, for any multivariate oracle.
pub proof fn lemma_verify_accepts_exactly_consistent(
    poly: MultivariatePolyOracle,
    point: Seq<Felt>,
    eval: Felt,
    random: bool,
    pf: EvalcheckProof,
    n_batches: int,
)
    ensures
        spec_verify(poly, point, eval, random, pf, n_batches).result is Ok <==> consistent(
            poly,
            point,
            eval,
            pf,
            n_batches,
        ),
{
    match poly {
        MultivariatePolyOracle::Multilinear(m) => {
            lemma_verify_accepts_exactly_consistent_pairs(
                oracle_model(m),
                point,
                eval,
                random,
                pf,
                n_batches,
            );
        },
        MultivariatePolyOracle::Composite(c) => {
            if pf is Composite {
                lemma_verify_list_accepts_exactly_consistent_pairs(
                    oracle_models(c.inner@),
                    point,
                    random,
                    pf->Composite_subproofs@,
                    n_batches,
                );
            }
        },
    }
}

/// Leaf counts at the multivariate level.
pub open spec fn mv_leaf_counts(poly: MultivariatePolyOracle) -> LeafCounts {
    match poly {
        MultivariatePolyOracle::Multilinear(m) => leaf_counts(oracle_model(m)),
        MultivariatePolyOracle::Composite(c) => leaf_counts_list(oracle_models(c.inner@)),
    }
}

/// A successful run appends to the accumulators exactly one claim per
/// committed, shifted or packed leaf of the oracle it checked.
pub proof fn lemma_ok_run_counts(
    poly: MultivariatePolyOracle,
    point: Seq<Felt>,
    eval: Felt,
    random: bool,
    pf: EvalcheckProof,
    n_batches: int,
)
    requires
        spec_verify(poly, point, eval, random, pf, n_batches).result is Ok,
    ensures
        spec_verify(poly, point, eval, random, pf, n_batches).committed.len() == mv_leaf_counts(
            poly,
        ).committed,
        spec_verify(poly, point, eval, random, pf, n_batches).shifted.len() == mv_leaf_counts(
            poly,
        ).shifted,
        spec_verify(poly, point, eval, random, pf, n_batches).packed.len() == mv_leaf_counts(
            poly,
        ).packed,
{
    match poly {
        MultivariatePolyOracle::Multilinear(m) => {
            lemma_ok_run_appends_one_claim_per_leaf(
                oracle_model(m),
                point,
                eval,
                random,
                pf,
                n_batches,
            );
        },
        MultivariatePolyOracle::Composite(c) => {
            lemma_oracle_models_index_vl(c.inner@);
            lemma_ok_list_appends_one_claim_per_leaf(
                oracle_models(c.inner@),
                point,
                random,
                pf->Composite_subproofs@,
                n_batches,
            );
        },
    }
}

/// The proof shape each oracle variant requires at its root, looking through
/// projection nodes, which consume no proof of their own. No shape matches
/// an interleaved oracle: no reduction is defined for it.
pub open spec fn shape_matches(m: OracleModel, pf: EvalcheckProof) -> bool
    decreases m,
{
    match m {
        OracleModel::Transparent { .. } => pf is Transparent,
        OracleModel::Committed { .. } => pf is Committed,
        OracleModel::Repeating { .. } => pf is Repeating,
        OracleModel::Interleaved { .. } => false,
        OracleModel::Merged { .. } => pf is Merged,
        OracleModel::Projected { projected, .. } => shape_matches(*projected.inner, pf),
        OracleModel::Shifted { .. } => pf is Shifted,
        OracleModel::Packed { .. } => pf is Packed,
        OracleModel::LinearCombination { .. } => pf is Composite,
    }
}

/// A proof whose root shape disagrees with the oracle variant being checked
/// always fails with a structural mismatch — never with a wrong-value error
/// and never by visiting any leaf: nothing is appended.
pub proof fn lemma_shape_mismatch_is_structural(
    m: OracleModel,
    point: Seq<Felt>,
    eval: Felt,
    random: bool,
    pf: EvalcheckProof,
    n_batches: int,
)
    requires
        !shape_matches(m, pf),
    ensures
        spec_verify_ml(m, point, eval, random, pf, n_batches) == outcome_err(
            Error::StructuralMismatch,
        ),
    decreases m,
{
    match m {
        OracleModel::Projected { projected, .. } => {
            lemma_shape_mismatch_is_structural(
                *projected.inner,
                projected_point(projected.values, projected.variant, point),
                eval,
                random,
                pf,
                n_batches,
            );
        },
        _ => {},
    }
}

/// The proof shape a multivariate oracle requires at its root.
pub open spec fn mv_shape_matches(poly: MultivariatePolyOracle, pf: EvalcheckProof) -> bool {
    match poly {
        MultivariatePolyOracle::Multilinear(m) => shape_matches(oracle_model(m), pf),
        MultivariatePolyOracle::Composite(..) => pf is Composite,
    }
}

/// At the multivariate level too, a mismatched proof shape always fails
/// structurally, for every pairing of oracle variant and proof variant,
/// appending nothing.
pub proof fn lemma_mv_shape_mismatch_is_structural(
    poly: MultivariatePolyOracle,
    point: Seq<Felt>,
    eval: Felt,
    random: bool,
    pf: EvalcheckProof,
    n_batches: int,
)
    requires
        !mv_shape_matches(poly, pf),
    ensures
        spec_verify(poly, point, eval, random, pf, n_batches) == outcome_err(
            Error::StructuralMismatch,
        ),
{
    match poly {
        MultivariatePolyOracle::Multilinear(m) => {
            lemma_shape_mismatch_is_structural(
                oracle_model(m),
                point,
                eval,
                random,
                pf,
                n_batches,
            );
        },
        MultivariatePolyOracle::Composite(..) => {},
    }
}

/// A merged node accepts exactly the extrapolation of the two claimed child
/// evaluations through the last coordinate of the point: a run on a merged
/// oracle with a merged proof succeeds only when
/// `eval == eval1 + t * (eval2 - eval1)`, and rejects any other claimed
/// value as an incorrect evaluation before visiting any leaf.
pub proof fn lemma_merged_acceptance(
    m: OracleModel,
    point: Seq<Felt>,
    eval: Felt,
    random: bool,
    pf: EvalcheckProof,
    n_batches: int,
)
    requires
        m is Merged,
        pf is Merged,
    ensures
        spec_verify_ml(m, point, eval, random, pf, n_batches).result is Ok ==> eval
            == spec_extrapolate(
            pf->Merged_eval1,
            pf->Merged_eval2,
            point[oracle_n_vars(*m->Merged_poly1) as int],
        ),
        eval != spec_extrapolate(
            pf->Merged_eval1,
            pf->Merged_eval2,
            point[oracle_n_vars(*m->Merged_poly1) as int],
        ) ==> spec_verify_ml(m, point, eval, random, pf, n_batches) == outcome_err(
            Error::IncorrectEvaluation,
        ),
{
}

/// A linear-combination node accepts exactly the weighted sum of the
/// children's claimed evaluations: flipping any child evaluation in the
/// sub-proof list is caught here, as an incorrect evaluation and before any
/// leaf is visited, unless the flip leaves the weighted sum unchanged.
pub proof fn lemma_linear_combination_acceptance(
    m: OracleModel,
    point: Seq<Felt>,
    eval: Felt,
    random: bool,
    pf: EvalcheckProof,
    n_batches: int,
)
    requires
        m is LinearCombination,
        pf is Composite,
        pf->Composite_subproofs@.len() == m->LinearCombination_lin_com.polys.len(),
    ensures
        spec_verify_ml(m, point, eval, random, pf, n_batches).result is Ok ==> eval
            == spec_inner_product(
            proof_evals(pf->Composite_subproofs@),
            m->LinearCombination_lin_com.coefficients,
        ),
        eval != spec_inner_product(
            proof_evals(pf->Composite_subproofs@),
            m->LinearCombination_lin_com.coefficients,
        ) ==> spec_verify_ml(m, point, eval, random, pf, n_batches) == outcome_err(
            Error::IncorrectEvaluation,
        ),
{
}

/// A composite node accepts exactly the composition of the children's
/// claimed evaluations: flipping any child evaluation in the sub-proof list
/// is caught here, as an incorrect evaluation and before any leaf is
/// visited, unless the flip leaves the composed value unchanged.
pub proof fn lemma_composite_acceptance(
    poly: MultivariatePolyOracle,
    point: Seq<Felt>,
    eval: Felt,
    random: bool,
    pf: EvalcheckProof,
    n_batches: int,
)
    requires
        poly is Composite,
        pf is Composite,
        pf->Composite_subproofs@.len() == poly->Composite_0.inner@.len(),
    ensures
        spec_verify(poly, point, eval, random, pf, n_batches).result is Ok ==> eval == comp_eval(
            poly->Composite_0.composition,
            proof_evals(pf->Composite_subproofs@),
        ),
        eval != comp_eval(poly->Composite_0.composition, proof_evals(pf->Composite_subproofs@))
            ==> spec_verify(poly, point, eval, random, pf, n_batches) == outcome_err(
            Error::IncorrectEvaluation,
        ),
{
}

/// A projection node fixes variables at one end of the point — prepending
/// its values for a front projection, appending them for a back projection —
/// and the extended point it hands to the inner oracle always has exactly
/// the inner oracle's number of variables.
pub proof fn lemma_projected_point_shape(m: OracleModel, point: Seq<Felt>)
    requires
        m is Projected,
        oracle_wf(m),
        point.len() == oracle_n_vars(m),
    ensures
        (m->Projected_projected.variant is FirstVars ==> projected_point(
            m->Projected_projected.values,
            m->Projected_projected.variant,
            point,
        ) == m->Projected_projected.values + point),
        (m->Projected_projected.variant is LastVars ==> projected_point(
            m->Projected_projected.values,
            m->Projected_projected.variant,
            point,
        ) == point + m->Projected_projected.values),
        projected_point(m->Projected_projected.values, m->Projected_projected.variant, point).len()
            == oracle_n_vars(*m->Projected_projected.inner),
{
}

/// The models of a sequence's tail are the tail of its models.
proof fn lemma_oracle_models_drop_first(s: Seq<MultilinearPolyOracle>)
    requires
        s.len() > 0,
    ensures
        oracle_models(s.drop_first()) == oracle_models(s).drop_first(),
{
    lemma_oracle_models_index_vl(s);
    lemma_oracle_models_index_vl(s.drop_first());
    assert(oracle_models(s.drop_first()) =~= oracle_models(s).drop_first());
}

} // verus!

//! The zerocheck claim reduction.
//!
//! A zerocheck claim says a composite polynomial vanishes at every point of
//! the boolean hypercube. The reduction restates it as a sumcheck claim: for
//! a verifier-chosen random vector `r`, the sum over the hypercube of
//! `P(x) * eq(x, r)` must be the additive identity. If `P` were not
//! identically zero on the hypercube, the weighting by the equality
//! indicator at a random `r`, drawn only after the claim is fixed, would
//! make the weighted sum nonzero with overwhelming probability.

use vstd::prelude::*;

use crate::composition::{comp_degree, comp_n_vars, comp_wf, CompositionPoly, ProductComposition};
use crate::error::Error;
use crate::field::{spec_zero, Felt, TOWER_LEVEL};
use crate::oracle::{
    cpo_wf, lemma_oracle_models_index, lemma_oracle_models_push, oracle_model, oracle_models,
    oracle_n_vars, oracle_wf, set_wf, tp_model, tp_wf, CompositePolyOracle,
    MultilinearOracleSet, MultilinearPolyOracle, OracleId, OracleModel, TransparentModel,
    TransparentPoly,
};

verus! {

/// The zerocheck reduction consumes no prover message: the proof is empty.
#[derive(Debug)]
pub struct ZerocheckProof;

/// A claim that a composite polynomial oracle evaluates to the additive
/// identity at every point of the boolean hypercube.
#[derive(Debug)]
pub struct ZerocheckClaim {
    /// Virtual polynomial oracle of the function claimed to be zero on the
    /// hypercube.
    pub poly: CompositePolyOracle,
}

/// A claim that the sum of a composite polynomial oracle's values over the
/// whole boolean hypercube equals `sum`, consumed by a downstream sumcheck
/// verifier.
#[derive(Debug)]
pub struct SumcheckClaim {
    pub poly: CompositePolyOracle,
    pub sum: Felt,
}

/// The model of the equality-indicator oracle the reduction registers.
pub open spec fn eq_ind_oracle_model(id: OracleId, n_vars: usize, challenge: Seq<Felt>) -> OracleModel {
    (OracleModel::Transparent {
        id,
        poly: (TransparentModel::EqInd { n_vars, challenges: challenge }),
        tower_level: TOWER_LEVEL,
    })
}

/// Restates a zerocheck claim as a sumcheck claim, against a verifier-chosen
/// challenge vector of exactly the claim's variable count. Registers the
/// equality indicator partially evaluated at the challenge as a new
/// transparent oracle — never invalidating existing handles — and returns
/// the sumcheck claim over the original multilinears extended by that
/// oracle, with the composition multiplied by one extra variable and the
/// target sum the additive identity.
pub fn reduce_zerocheck_claim(
    oracles: &mut MultilinearOracleSet,
    claim: &ZerocheckClaim,
    challenge: Vec<Felt>,
) -> (r: Result<(SumcheckClaim, OracleId), Error>)
    requires
        cpo_wf(claim.poly),
        set_wf(*old(oracles)),
        claim.poly.inner@.len() < usize::MAX,
        comp_degree(claim.poly.composition) < usize::MAX,
    ensures
        set_wf(*final(oracles)),
        challenge@.len() != claim.poly.n_vars ==> r == Err::<(SumcheckClaim, OracleId), Error>(
            Error::ChallengeVectorMismatch,
        ) && *final(oracles) == *old(oracles),
        challenge@.len() == claim.poly.n_vars ==> ({
            let eq_model = eq_ind_oracle_model(
                old(oracles).oracles@.len() as usize,
                claim.poly.n_vars,
                challenge@,
            );
            &&& r matches Ok((sc, id)) && ({
                &&& id == old(oracles).oracles@.len()
                &&& final(oracles).oracles@.len() == old(oracles).oracles@.len() + 1
                &&& oracle_models(final(oracles).oracles@) == oracle_models(
                    old(oracles).oracles@,
                ).push(eq_model)
                &&& sc.sum == spec_zero()
                &&& sc.poly.n_vars == claim.poly.n_vars
                &&& sc.poly.composition == (CompositionPoly::Augmented(
                    ProductComposition { inner: Box::new(claim.poly.composition) },
                ))
                &&& comp_n_vars(sc.poly.composition) == comp_n_vars(claim.poly.composition) + 1
                &&& comp_degree(sc.poly.composition) == comp_degree(claim.poly.composition) + 1
                &&& oracle_models(sc.poly.inner@) == oracle_models(claim.poly.inner@).push(
                    eq_model,
                )
                &&& cpo_wf(sc.poly)
            })
        }),
{
    let ghost ch0 = challenge@;
    let n_vars = claim.poly.n_vars();
    if n_vars != challenge.len() {
        return Err(Error::ChallengeVectorMismatch);
    }
    let eq_r_poly = match TransparentPoly::eq_ind(n_vars, challenge) {
        Ok(t) => t,
        Err(e) => {
            proof {
                assert(false);
            }
            return Err(e);
        },
    };
    let eq_r_oracle_id = match oracles.add_transparent(eq_r_poly, TOWER_LEVEL) {
        Ok(id) => id,
        Err(e) => {
            proof {
                assert(false);
            }
            return Err(e);
        },
    };
    let eq_oracle = match oracles.oracle(eq_r_oracle_id) {
        Ok(o) => o,
        Err(e) => {
            proof {
                assert(false);
            }
            return Err(e);
        },
    };
    let ghost eqm = eq_ind_oracle_model(eq_r_oracle_id, claim.poly.n_vars, ch0);
    let mut inners = claim.poly.inner_polys();
    let ghost inners0 = inners@;
    inners.push(eq_oracle);
    let new_composition = CompositionPoly::Augmented(ProductComposition::new(
        claim.poly.composition(),
    ));
    proof {
        lemma_oracle_models_index(old(oracles).oracles@);
        assert(ch0.len() == n_vars);
        assert(tp_model(eq_r_poly) == (TransparentModel::EqInd { n_vars, challenges: ch0 }));
        assert(tp_wf(tp_model(eq_r_poly)));
        assert(oracles.oracles@ == old(oracles).oracles@.push(
            MultilinearPolyOracle::Transparent {
                id: old(oracles).oracles@.len() as usize,
                poly: eq_r_poly,
                tower_level: TOWER_LEVEL,
            },
        ));
        assert(eq_r_oracle_id == old(oracles).oracles@.len());
        assert(oracles.oracles@[eq_r_oracle_id as int] == oracles.oracles@.last());
        assert(oracle_model(eq_oracle) == eqm);
        assert(oracle_wf(eqm));
        assert(oracle_n_vars(eqm) == claim.poly.n_vars as nat);
        lemma_oracle_models_push(inners0, eq_oracle);
        lemma_oracle_models_index(inners0);
        lemma_oracle_models_index(inners@);
        lemma_oracle_models_index(claim.poly.inner@);
        assert(oracle_models(inners@) =~= oracle_models(claim.poly.inner@).push(eqm));
        lemma_oracle_models_push(old(oracles).oracles@, oracles.oracles@.last());
        assert(oracle_models(oracles.oracles@) =~= oracle_models(old(oracles).oracles@).push(
            eqm,
        ));
        assert forall|i: int| 0 <= i < inners@.len() implies oracle_wf(
            #[trigger] oracle_models(inners@)[i],
        ) && oracle_n_vars(oracle_models(inners@)[i]) == claim.poly.n_vars as nat by {
            if i < inners@.len() - 1 {
                assert(oracle_models(inners@)[i] == oracle_models(claim.poly.inner@)[i]);
                assert(crate::oracle::all_wf_with_n_vars(
                    oracle_models(claim.poly.inner@),
                    claim.poly.n_vars as nat,
                ));
            } else {
                assert(oracle_models(inners@)[i] == eqm);
            }
        }
    }
    let composite_poly = match CompositePolyOracle::new(n_vars, inners, new_composition) {
        Ok(c) => c,
        Err(e) => {
            proof {
                assert(false);
            }
            return Err(e);
        },
    };
    let sumcheck_claim = SumcheckClaim { poly: composite_poly, sum: Felt::zero() };
    Ok((sumcheck_claim, eq_r_oracle_id))
}

/// Verifies a zerocheck reduction: the proof carries no content, so this is
/// exactly the claim reduction against the verifier's challenge.
pub fn verify(
    oracles: &mut MultilinearOracleSet,
    claim: &ZerocheckClaim,
    zerocheck_proof: ZerocheckProof,
    challenge: Vec<Felt>,
) -> (r: Result<SumcheckClaim, Error>)
    requires
        cpo_wf(claim.poly),
        set_wf(*old(oracles)),
        claim.poly.inner@.len() < usize::MAX,
        comp_degree(claim.poly.composition) < usize::MAX,
    ensures
        set_wf(*final(oracles)),
        challenge@.len() != claim.poly.n_vars ==> r == Err::<SumcheckClaim, Error>(
            Error::ChallengeVectorMismatch,
        ) && *final(oracles) == *old(oracles),
        challenge@.len() == claim.poly.n_vars ==> ({
            let eq_model = eq_ind_oracle_model(
                old(oracles).oracles@.len() as usize,
                claim.poly.n_vars,
                challenge@,
            );
            &&& r matches Ok(sc) && ({
                &&& final(oracles).oracles@.len() == old(oracles).oracles@.len() + 1
                &&& oracle_models(final(oracles).oracles@) == oracle_models(
                    old(oracles).oracles@,
                ).push(eq_model)
                &&& sc.sum == spec_zero()
                &&& sc.poly.n_vars == claim.poly.n_vars
                &&& comp_n_vars(sc.poly.composition) == comp_n_vars(claim.poly.composition) + 1
                &&& comp_degree(sc.poly.composition) == comp_degree(claim.poly.composition) + 1
                &&& oracle_models(sc.poly.inner@) == oracle_models(claim.poly.inner@).push(
                    eq_model,
                )
                &&& cpo_wf(sc.poly)
            })
        }),
{
    let ZerocheckProof {  } = zerocheck_proof;
    match reduce_zerocheck_claim(oracles, claim, challenge) {
        Ok((sumcheck_claim, _)) => Ok(sumcheck_claim),
        Err(e) => Err(e),
    }
}

} // verus!

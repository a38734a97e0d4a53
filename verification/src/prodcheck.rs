//! The prodcheck claim reduction.
//!
//! A prodcheck claim says two multilinear oracles `T` and `U` over the same
//! variables have equal grand products over the boolean hypercube. The
//! prover commits an auxiliary oracle `f` over one more variable: a binary
//! product tree whose leaves `f(0, x)` carry the ratios `T(x) / U(x)` and
//! whose inner layer satisfies `f(1, x) = f(x, 0) * f(x, 1)`, so that the
//! root `f(1, ..., 1, 0)` carries the full product of ratios, which must be
//! the multiplicative identity exactly when the two grand products agree.
//!
//! The reduction registers projections of `f` as auxiliary oracles — the
//! only oracles it adds — and restates the claim as two zerocheck claims
//! over the multiplication-gate identity `out - in1 * in2` plus one
//! evaluation claim on the tree's root, all handed to downstream verifiers.

use vstd::prelude::*;

use crate::composition::CompositionPoly;
use crate::error::Error;
use crate::evalcheck::EvalcheckClaim;
use crate::field::{spec_one, spec_zero, Felt};
use crate::oracle::{
    lemma_oracle_models_index, oracle_model, oracle_models, oracle_n_vars, oracle_wf, set_wf,
    CompositePolyOracle, MultilinearOracleSet, MultilinearPolyOracle, MultivariatePolyOracle,
    OracleId, OracleModel, ProjectedModel, ProjectionVariant,
};
use crate::zerocheck::ZerocheckClaim;

verus! {

/// A claim that two multilinear oracles over the same variables have equal
/// grand products over the boolean hypercube.
#[derive(Debug)]
pub struct ProdcheckClaim {
    /// Numerator side of the grand-product ratio.
    pub t_oracle: MultilinearPolyOracle,
    /// Denominator side of the grand-product ratio.
    pub u_oracle: MultilinearPolyOracle,
    /// Number of variables of both oracles.
    pub n_vars: usize,
}

/// What a prodcheck claim reduces to: claims for downstream verifiers, whose
/// joint validity is equivalent to the original grand-product claim.
#[derive(Debug)]
pub struct ReducedProductCheckClaims {
    /// `T(x) = f(0, x) * U(x)` on the whole hypercube: the tree's leaves
    /// carry the ratios.
    pub t_prime_claim: ZerocheckClaim,
    /// `f(1, x) = f(x, 0) * f(x, 1)` on the whole hypercube: each inner tree
    /// layer multiplies the layer below.
    pub tree_claim: ZerocheckClaim,
    /// The tree's root `f(1, ..., 1, 0)` equals the multiplicative identity.
    pub grand_product_poly_claim: EvalcheckClaim,
}

/// Model of a projection of `inner` registered with the given id.
pub open spec fn proj_model(
    id: usize,
    inner: OracleModel,
    values: Seq<Felt>,
    variant: ProjectionVariant,
) -> OracleModel {
    (OracleModel::Projected {
        id,
        projected: (ProjectedModel { inner: Box::new(inner), values, variant }),
    })
}

/// The root of the product tree: the all-ones point with a final zero.
pub open spec fn root_point(n: nat) -> Seq<Felt> {
    Seq::new(n + 1, |i: int| if i < n { spec_one() } else { spec_zero() })
}

/// Restates a grand-product claim over the committed product-tree oracle
/// `grand_prod_oracle` as two zerocheck claims and one evaluation claim.
/// Mutates the oracle set only by registering four projections of the tree
/// oracle: `f(1, x)`, `f(x, 0)`, `f(x, 1)` and `f(0, x)`, in that order.
pub fn reduce_prodcheck_claim(
    oracles: &mut MultilinearOracleSet,
    claim: &ProdcheckClaim,
    grand_prod_oracle: MultilinearPolyOracle,
) -> (r: Result<ReducedProductCheckClaims, Error>)
    requires
        set_wf(*old(oracles)),
        oracle_wf(oracle_model(claim.t_oracle)),
        oracle_wf(oracle_model(claim.u_oracle)),
        oracle_wf(oracle_model(grand_prod_oracle)),
        oracle_n_vars(oracle_model(claim.t_oracle)) == claim.n_vars as nat,
        oracle_n_vars(oracle_model(claim.u_oracle)) == claim.n_vars as nat,
        oracle_n_vars(oracle_model(grand_prod_oracle)) == claim.n_vars + 1,
        claim.n_vars + 1 <= usize::MAX,
    ensures
        set_wf(*final(oracles)),
        ({
            let fm = oracle_model(grand_prod_oracle);
            let base = old(oracles).oracles@.len() as usize;
            let out_m = proj_model(base, fm, seq![spec_one()], ProjectionVariant::FirstVars);
            let in1_m = proj_model(
                (base + 1) as usize,
                fm,
                seq![spec_zero()],
                ProjectionVariant::LastVars,
            );
            let in2_m = proj_model(
                (base + 2) as usize,
                fm,
                seq![spec_one()],
                ProjectionVariant::LastVars,
            );
            let leaves_m = proj_model(
                (base + 3) as usize,
                fm,
                seq![spec_zero()],
                ProjectionVariant::FirstVars,
            );
            &&& r matches Ok(red) && ({
                &&& oracle_models(final(oracles).oracles@) == oracle_models(
                    old(oracles).oracles@,
                ).push(out_m).push(in1_m).push(in2_m).push(leaves_m)
                &&& red.t_prime_claim.poly.n_vars == claim.n_vars
                &&& red.t_prime_claim.poly.composition == CompositionPoly::MultGate
                &&& oracle_models(red.t_prime_claim.poly.inner@) == seq![
                    oracle_model(claim.t_oracle),
                    leaves_m,
                    oracle_model(claim.u_oracle),
                ]
                &&& red.tree_claim.poly.n_vars == claim.n_vars
                &&& red.tree_claim.poly.composition == CompositionPoly::MultGate
                &&& oracle_models(red.tree_claim.poly.inner@) == seq![out_m, in1_m, in2_m]
                &&& crate::oracle::cpo_wf(red.t_prime_claim.poly)
                &&& crate::oracle::cpo_wf(red.tree_claim.poly)
                &&& red.grand_product_poly_claim.poly == MultivariatePolyOracle::Multilinear(
                    grand_prod_oracle,
                )
                &&& red.grand_product_poly_claim.eval_point@ == root_point(claim.n_vars as nat)
                &&& red.grand_product_poly_claim.eval == spec_one()
                &&& !red.grand_product_poly_claim.is_random_point
            })
        }),
{
    let n_vars = claim.n_vars;
    let one = Felt::one();
    let zero = Felt::zero();
    let ghost fm = oracle_model(grand_prod_oracle);
    let ghost base = old(oracles).oracles@.len() as usize;

    let ghost s0 = old(oracles).oracles@;
    let ghost out_m = proj_model(base, fm, seq![spec_one()], ProjectionVariant::FirstVars);
    let ghost in1_m = proj_model((base + 1) as usize, fm, seq![spec_zero()], ProjectionVariant::LastVars);
    let ghost in2_m = proj_model((base + 2) as usize, fm, seq![spec_one()], ProjectionVariant::LastVars);
    let ghost leaves_m = proj_model((base + 3) as usize, fm, seq![spec_zero()], ProjectionVariant::FirstVars);

    let mut out_values: Vec<Felt> = Vec::new();
    out_values.push(one);
    proof {
        assert(out_values@ =~= seq![spec_one()]);
    }
    let dup0 = grand_prod_oracle.duplicate();
    let out_id = match oracles.add_projected(dup0, out_values, ProjectionVariant::FirstVars) {
        Ok(id) => id,
        Err(e) => {
            proof {
                assert(false);
            }
            return Err(e);
        },
    };
    let ghost s1 = oracles.oracles@;
    proof {
        assert(oracle_model(s1.last()) == out_m);
        crate::oracle::lemma_oracle_models_push(s0, s1.last());
        assert(oracle_models(s1) =~= oracle_models(s0).push(out_m));
    }
    let mut in1_values: Vec<Felt> = Vec::new();
    in1_values.push(zero);
    proof {
        assert(in1_values@ =~= seq![spec_zero()]);
    }
    let dup1 = grand_prod_oracle.duplicate();
    let in1_id = match oracles.add_projected(dup1, in1_values, ProjectionVariant::LastVars) {
        Ok(id) => id,
        Err(e) => {
            proof {
                assert(false);
            }
            return Err(e);
        },
    };
    let ghost s2 = oracles.oracles@;
    proof {
        assert(oracle_model(s2.last()) == in1_m);
        crate::oracle::lemma_oracle_models_push(s1, s2.last());
        assert(oracle_models(s2) =~= oracle_models(s1).push(in1_m));
    }
    let mut in2_values: Vec<Felt> = Vec::new();
    in2_values.push(one);
    proof {
        assert(in2_values@ =~= seq![spec_one()]);
    }
    let dup2 = grand_prod_oracle.duplicate();
    let in2_id = match oracles.add_projected(dup2, in2_values, ProjectionVariant::LastVars) {
        Ok(id) => id,
        Err(e) => {
            proof {
                assert(false);
            }
            return Err(e);
        },
    };
    let ghost s3 = oracles.oracles@;
    proof {
        assert(oracle_model(s3.last()) == in2_m);
        crate::oracle::lemma_oracle_models_push(s2, s3.last());
        assert(oracle_models(s3) =~= oracle_models(s2).push(in2_m));
    }
    let mut leaves_values: Vec<Felt> = Vec::new();
    leaves_values.push(zero);
    proof {
        assert(leaves_values@ =~= seq![spec_zero()]);
    }
    let dup3 = grand_prod_oracle.duplicate();
    let leaves_id = match oracles.add_projected(dup3, leaves_values, ProjectionVariant::FirstVars) {
        Ok(id) => id,
        Err(e) => {
            proof {
                assert(false);
            }
            return Err(e);
        },
    };
    let ghost s4 = oracles.oracles@;
    proof {
        assert(oracle_model(s4.last()) == leaves_m);
        crate::oracle::lemma_oracle_models_push(s3, s4.last());
        assert(oracle_models(s4) =~= oracle_models(s3).push(leaves_m));
        lemma_proj_oracle_facts(fm, n_vars as nat);
        assert(s4[out_id as int] == s1.last());
        assert(s4[in1_id as int] == s2.last());
        assert(s4[in2_id as int] == s3.last());
        assert(s4[leaves_id as int] == s4.last());
    }
    let out_oracle = fetch(oracles, out_id);
    let in1_oracle = fetch(oracles, in1_id);
    let in2_oracle = fetch(oracles, in2_id);
    let leaves_oracle = fetch(oracles, leaves_id);

    let mut tree_inners: Vec<MultilinearPolyOracle> = Vec::new();
    tree_inners.push(out_oracle);
    tree_inners.push(in1_oracle);
    tree_inners.push(in2_oracle);
    proof {
        lemma_oracle_models_index(tree_inners@);
        lemma_proj_oracle_facts(fm, n_vars as nat);
    }
    let tree_poly = match CompositePolyOracle::new(n_vars, tree_inners, CompositionPoly::MultGate) {
        Ok(c) => c,
        Err(e) => {
            proof {
                assert(false);
            }
            return Err(e);
        },
    };

    let mut leaves_inners: Vec<MultilinearPolyOracle> = Vec::new();
    leaves_inners.push(claim.t_oracle.duplicate());
    leaves_inners.push(leaves_oracle);
    leaves_inners.push(claim.u_oracle.duplicate());
    proof {
        lemma_oracle_models_index(leaves_inners@);
    }
    let leaves_poly = match CompositePolyOracle::new(
        n_vars,
        leaves_inners,
        CompositionPoly::MultGate,
    ) {
        Ok(c) => c,
        Err(e) => {
            proof {
                assert(false);
            }
            return Err(e);
        },
    };

    let mut point: Vec<Felt> = Vec::new();
    let mut i: usize = 0;
    while i < n_vars
        invariant
            i <= n_vars,
            point@.len() == i,
            forall|j: int| 0 <= j < i ==> point@[j] == spec_one(),
        decreases n_vars - i,
    {
        point.push(Felt::one());
        i = i + 1;
    }
    point.push(Felt::zero());
    proof {
        assert(point@ =~= root_point(n_vars as nat));
    }

    let grand_product_poly_claim = EvalcheckClaim {
        poly: MultivariatePolyOracle::Multilinear(grand_prod_oracle),
        eval_point: point,
        eval: one,
        is_random_point: false,
    };
    Ok(
        ReducedProductCheckClaims {
            t_prime_claim: ZerocheckClaim { poly: leaves_poly },
            tree_claim: ZerocheckClaim { poly: tree_poly },
            grand_product_poly_claim,
        },
    )
}

/// A projection of a well-formed oracle by one value is well formed and
/// drops one variable.
proof fn lemma_proj_oracle_facts(fm: OracleModel, n: nat)
    requires
        oracle_wf(fm),
        oracle_n_vars(fm) == n + 1,
    ensures
        forall|id: usize, v: Felt, variant: ProjectionVariant|
            oracle_wf(#[trigger] proj_model(id, fm, seq![v], variant)) && oracle_n_vars(
                proj_model(id, fm, seq![v], variant),
            ) == n,
{
}

/// Verifies a product-check instance reduction over the committed
/// grand-product tree oracle.
pub fn verify(
    oracles: &mut MultilinearOracleSet,
    claim: &ProdcheckClaim,
    grand_prod_oracle: MultilinearPolyOracle,
) -> (r: Result<ReducedProductCheckClaims, Error>)
    requires
        set_wf(*old(oracles)),
        oracle_wf(oracle_model(claim.t_oracle)),
        oracle_wf(oracle_model(claim.u_oracle)),
        oracle_wf(oracle_model(grand_prod_oracle)),
        oracle_n_vars(oracle_model(claim.t_oracle)) == claim.n_vars as nat,
        oracle_n_vars(oracle_model(claim.u_oracle)) == claim.n_vars as nat,
        oracle_n_vars(oracle_model(grand_prod_oracle)) == claim.n_vars + 1,
        claim.n_vars + 1 <= usize::MAX,
    ensures
        set_wf(*final(oracles)),
        ({
            let fm = oracle_model(grand_prod_oracle);
            let base = old(oracles).oracles@.len() as usize;
            &&& r matches Ok(red) && ({
                &&& oracle_models(final(oracles).oracles@) == oracle_models(
                    old(oracles).oracles@,
                ).push(proj_model(base, fm, seq![spec_one()], ProjectionVariant::FirstVars)).push(
                    proj_model(
                        (base + 1) as usize,
                        fm,
                        seq![spec_zero()],
                        ProjectionVariant::LastVars,
                    ),
                ).push(
                    proj_model(
                        (base + 2) as usize,
                        fm,
                        seq![spec_one()],
                        ProjectionVariant::LastVars,
                    ),
                ).push(
                    proj_model(
                        (base + 3) as usize,
                        fm,
                        seq![spec_zero()],
                        ProjectionVariant::FirstVars,
                    ),
                )
                &&& crate::oracle::cpo_wf(red.t_prime_claim.poly)
                &&& crate::oracle::cpo_wf(red.tree_claim.poly)
                &&& red.grand_product_poly_claim.poly == MultivariatePolyOracle::Multilinear(
                    grand_prod_oracle,
                )
                &&& red.grand_product_poly_claim.eval_point@ == root_point(claim.n_vars as nat)
                &&& red.grand_product_poly_claim.eval == spec_one()
                &&& !red.grand_product_poly_claim.is_random_point
            })
        }),
{
    reduce_prodcheck_claim(oracles, claim, grand_prod_oracle)
}

/// Fetches a copy of a registered oracle by an id just allocated.
fn fetch(oracles: &MultilinearOracleSet, id: OracleId) -> (r: MultilinearPolyOracle)
    requires
        id < oracles.oracles@.len(),
    ensures
        oracle_model(r) == oracle_model(oracles.oracles@[id as int]),
{
    oracles.oracles[id].duplicate()
}

} // verus!

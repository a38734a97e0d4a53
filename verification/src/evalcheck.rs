//! Evaluation claims, their proofs, the prover-side witness registry, and
//! the accumulator that batches committed-polynomial claims for one joint
//! polynomial-commitment opening.

use vstd::prelude::*;

use crate::error::Error;
use crate::field::{spec_inner_product, Felt};
use crate::multilinear::{mle_wf, pow2, MultilinearExtension, MultilinearQuery};
use crate::oracle::{
    oracle_model, spec_oracle_id, CommittedBatch, CommittedId, MultilinearPolyOracle,
    MultivariatePolyOracle, Packed, Shifted,
};

verus! {

/// A claim that a multivariate polynomial oracle evaluates to `eval` at
/// `eval_point`. Claims keep the invariant that the point's length equals
/// the oracle's variable count.
#[derive(Debug)]
pub struct EvalcheckClaim {
    /// Virtual polynomial oracle for which the evaluation is claimed.
    pub poly: MultivariatePolyOracle,
    /// Evaluation point.
    pub eval_point: Vec<Felt>,
    /// Claimed evaluation.
    pub eval: Felt,
    /// Whether the evaluation point was chosen at random by the verifier.
    pub is_random_point: bool,
}

/// A deferred claim on a shifted oracle, handed to a specialized external
/// reducer.
#[derive(Debug)]
pub struct ShiftedEvalClaim {
    /// Evaluation point.
    pub eval_point: Vec<Felt>,
    /// Claimed evaluation.
    pub eval: Felt,
    /// Whether the evaluation point was chosen at random by the verifier.
    pub is_random_point: bool,
    /// Shift description.
    pub shifted: Shifted,
}

/// A deferred claim on a packed oracle, handed to a specialized external
/// reducer.
#[derive(Debug)]
pub struct PackedEvalClaim {
    /// Evaluation point.
    pub eval_point: Vec<Felt>,
    /// Claimed evaluation.
    pub eval: Felt,
    /// Whether the evaluation point was chosen at random by the verifier.
    pub is_random_point: bool,
    /// Packing description.
    pub packed: Packed,
}

/// A proof tree mirroring the oracle variant being verified: leaves mark
/// variants that recurse no further, inner nodes carry the children's
/// claimed evaluations and sub-proofs.
#[derive(Debug)]
pub enum EvalcheckProof {
    Transparent,
    Committed,
    Shifted,
    Packed,
    Repeating(Box<EvalcheckProof>),
    Merged {
        eval1: Felt,
        eval2: Felt,
        subproof1: Box<EvalcheckProof>,
        subproof2: Box<EvalcheckProof>,
    },
    Composite { subproofs: Vec<(Felt, EvalcheckProof)> },
}

/// A primitive claim on one committed polynomial, destined for a
/// polynomial-commitment opening.
#[derive(Debug)]
pub struct CommittedEvalClaim {
    /// Which batch the polynomial is committed in, and where.
    pub id: CommittedId,
    /// Evaluation point.
    pub eval_point: Vec<Felt>,
    /// Claimed evaluation.
    pub eval: Felt,
    /// Whether the evaluation point was chosen at random by the verifier.
    pub is_random_point: bool,
}

/// Ghost mirror of [`CommittedEvalClaim`].
pub ghost struct CommittedClaimModel {
    pub id: CommittedId,
    pub eval_point: Seq<Felt>,
    pub eval: Felt,
    pub is_random_point: bool,
}

/// Ghost mirror of a committed claim.
pub open spec fn cec_model(c: CommittedEvalClaim) -> CommittedClaimModel {
    (CommittedClaimModel {
        id: c.id,
        eval_point: c.eval_point@,
        eval: c.eval,
        is_random_point: c.is_random_point,
    })
}

/// Ghost mirrors of a sequence of committed claims, in order.
pub open spec fn cec_models(s: Seq<CommittedEvalClaim>) -> Seq<CommittedClaimModel> {
    Seq::new(s.len(), |i: int| cec_model(s[i]))
}

/// Ghost mirrors of the per-batch claim lists of an accumulator.
pub open spec fn batches_models(s: Seq<Vec<CommittedEvalClaim>>) -> Seq<
    Seq<CommittedClaimModel>,
> {
    Seq::new(s.len(), |i: int| cec_models(s[i]@))
}

/// A batched polynomial-commitment claim whose member polynomials all share
/// one query: it can be opened directly.
#[derive(Debug)]
pub struct SameQueryPcsClaim {
    /// Common evaluation point.
    pub eval_point: Vec<Felt>,
    /// The individual claimed evaluations, ordered by index in the batch.
    pub evals: Vec<Felt>,
}

/// Accumulates committed-polynomial evaluation claims per batch, potentially
/// over several claim reductions, until a batch is extracted for one joint
/// polynomial-commitment opening.
#[derive(Debug)]
pub struct BatchCommittedEvalClaims {
    /// Number of polynomials in each batch.
    pub batch_lengths: Vec<usize>,
    /// Claims accumulated for each batch.
    pub claims_by_batch: Vec<Vec<CommittedEvalClaim>>,
}

/// Accumulator invariant: one claim list per declared batch, every stored
/// claim filed under its own batch id, and every claim's index within its
/// batch's declared length.
pub open spec fn acc_wf(b: BatchCommittedEvalClaims) -> bool {
    &&& b.batch_lengths@.len() == b.claims_by_batch@.len()
    &&& forall|i: int, j: int|
        0 <= i < b.claims_by_batch@.len() && 0 <= j < b.claims_by_batch@[i]@.len()
            ==> (#[trigger] b.claims_by_batch@[i]@[j]).id.batch_id == i
            && b.claims_by_batch@[i]@[j].id.index < b.batch_lengths@[i]
}

/// All claims of the sequence share the first claim's evaluation point.
pub open spec fn all_same_point(s: Seq<CommittedEvalClaim>) -> bool {
    forall|i: int| 0 <= i < s.len() ==> (#[trigger] s[i]).eval_point@ == s[0].eval_point@
}

/// All claims of the sequence are at verifier-chosen random points.
pub open spec fn all_random(s: Seq<CommittedEvalClaim>) -> bool {
    forall|i: int| 0 <= i < s.len() ==> (#[trigger] s[i]).is_random_point
}

/// Two claims of the sequence disagree on one position's evaluation.
pub open spec fn has_conflict(s: Seq<CommittedEvalClaim>) -> bool {
    exists|i: int, j: int|
        0 <= i < s.len() && 0 <= j < s.len() && (#[trigger] s[i]).id.index == (
        #[trigger] s[j]).id.index && s[i].eval != s[j].eval
}

/// Some claim of the sequence sits at position `k`.
pub open spec fn covered(s: Seq<CommittedEvalClaim>, k: int) -> bool {
    exists|i: int| 0 <= i < s.len() && (#[trigger] s[i]).id.index == k
}

/// Every position below `n` is covered by some claim of the sequence.
pub open spec fn covers(s: Seq<CommittedEvalClaim>, n: int) -> bool {
    forall|k: int| 0 <= k < n ==> #[trigger] covered(s, k)
}

/// Some claim of the sequence sits at position `k` and claims the value `e`.
pub open spec fn eval_at_index(s: Seq<CommittedEvalClaim>, k: int, e: Felt) -> bool {
    exists|i: int| 0 <= i < s.len() && (#[trigger] s[i]).id.index == k && s[i].eval == e
}

impl BatchCommittedEvalClaims {
    /// Creates a new accumulator with one empty claim list per batch,
    /// recording each batch's declared polynomial count.
    pub fn new(batches: &Vec<CommittedBatch>) -> (r: BatchCommittedEvalClaims)
        ensures
            r.batch_lengths@.len() == batches@.len(),
            forall|i: int| 0 <= i < batches@.len() ==> r.batch_lengths@[i] == batches@[i].n_polys,
            r.claims_by_batch@.len() == batches@.len(),
            forall|i: int| 0 <= i < batches@.len() ==> r.claims_by_batch@[i]@.len() == 0,
            acc_wf(r),
    {
        let mut batch_lengths: Vec<usize> = Vec::new();
        let mut claims_by_batch: Vec<Vec<CommittedEvalClaim>> = Vec::new();
        let mut i: usize = 0;
        while i < batches.len()
            invariant
                i <= batches@.len(),
                batch_lengths@.len() == i,
                claims_by_batch@.len() == i,
                forall|j: int| 0 <= j < i ==> batch_lengths@[j] == batches@[j].n_polys,
                forall|j: int| 0 <= j < i ==> claims_by_batch@[j]@.len() == 0,
            decreases batches@.len() - i,
        {
            batch_lengths.push(batches[i].n_polys);
            claims_by_batch.push(Vec::new());
            i = i + 1;
        }
        BatchCommittedEvalClaims { batch_lengths, claims_by_batch }
    }

    /// Inserts a claim into the batch it names; fails when the batch is
    /// unknown, leaving the accumulator unchanged.
    pub fn insert(&mut self, claim: CommittedEvalClaim) -> (r: Result<(), Error>)
        requires
            acc_wf(*old(self)),
            claim.id.batch_id < old(self).batch_lengths@.len() ==> claim.id.index
                < old(self).batch_lengths@[claim.id.batch_id as int],
        ensures
            acc_wf(*final(self)),
            final(self).batch_lengths == old(self).batch_lengths,
            claim.id.batch_id < old(self).claims_by_batch@.len() ==> ({
                let b = claim.id.batch_id as int;
                &&& r == Ok::<(), Error>(())
                &&& final(self).claims_by_batch@.len() == old(self).claims_by_batch@.len()
                &&& forall|j: int|
                    0 <= j < old(self).claims_by_batch@.len() && j != b
                        ==> final(self).claims_by_batch@[j] == old(self).claims_by_batch@[j]
                &&& final(self).claims_by_batch@[b]@ == old(self).claims_by_batch@[b]@.push(claim)
            }),
            claim.id.batch_id >= old(self).claims_by_batch@.len() ==> r == Err::<(), Error>(
                Error::UnknownBatchId { batch_id: claim.id.batch_id },
            ) && *final(self) == *old(self),
    {
        let b = claim.id.batch_id;
        if b >= self.claims_by_batch.len() {
            return Err(Error::UnknownBatchId { batch_id: b });
        }
        let mut list = self.claims_by_batch.remove(b);
        list.push(claim);
        self.claims_by_batch.insert(b, list);
        proof {
            assert(forall|j: int|
                0 <= j < old(self).claims_by_batch@.len() && j != b
                    ==> self.claims_by_batch@[j] == old(self).claims_by_batch@[j]);
        }
        Ok(())
    }

    /// Number of batches the accumulator tracks.
    pub fn n_batches(&self) -> (r: usize)
        ensures
            r == self.claims_by_batch@.len(),
    {
        self.claims_by_batch.len()
    }

    /// Extracts a same-query claim for a batch, if one exists. Returns
    /// `Ok(None)` when the batch's claims disagree on the evaluation point,
    /// or when any claim is at a point the verifier did not choose at
    /// random: a commitment opening at a predetermined point would let a
    /// prover pick a convenient fake evaluation. Two claims disagreeing on
    /// one position's value fail with `ConflictingEvals`; an uncovered
    /// position fails with `MissingEvals`.
    pub fn try_extract_same_query_pcs_claim(&self, batch_id: usize) -> (r: Result<
        Option<SameQueryPcsClaim>,
        Error,
    >)
        requires
            acc_wf(*self),
        ensures
            batch_id >= self.claims_by_batch@.len() ==> r == Err::<Option<SameQueryPcsClaim>, Error>(
                Error::UnknownBatchId { batch_id },
            ),
            batch_id < self.claims_by_batch@.len() ==> {
                let s = self.claims_by_batch@[batch_id as int]@;
                let n = self.batch_lengths@[batch_id as int] as int;
                &&& s.len() == 0 ==> r == Err::<Option<SameQueryPcsClaim>, Error>(
                    Error::EmptyBatch { batch_id },
                )
                &&& s.len() > 0 && !all_same_point(s) ==> r == Ok::<
                    Option<SameQueryPcsClaim>,
                    Error,
                >(None)
                &&& s.len() > 0 && all_same_point(s) && !all_random(s) ==> r == Ok::<
                    Option<SameQueryPcsClaim>,
                    Error,
                >(None)
                &&& s.len() > 0 && all_same_point(s) && all_random(s) && has_conflict(s) ==> r
                    == Err::<Option<SameQueryPcsClaim>, Error>(
                    Error::ConflictingEvals { batch_id },
                )
                &&& s.len() > 0 && all_same_point(s) && all_random(s) && !has_conflict(s)
                    && !covers(s, n) ==> r == Err::<Option<SameQueryPcsClaim>, Error>(
                    Error::MissingEvals { batch_id },
                )
                &&& s.len() > 0 && all_same_point(s) && all_random(s) && !has_conflict(s)
                    && covers(s, n) ==> (r matches Ok(Some(c)) && c.eval_point@
                    == s[0].eval_point@ && c.evals@.len() == n && forall|k: int|
                    0 <= k < n ==> #[trigger] eval_at_index(s, k, c.evals@[k]))
            },
    {
        if batch_id >= self.claims_by_batch.len() {
            return Err(Error::UnknownBatchId { batch_id });
        }
        let claims = &self.claims_by_batch[batch_id];
        let ghost s = claims@;
        if claims.len() == 0 {
            return Err(Error::EmptyBatch { batch_id });
        }
        // all evaluation points should match
        let mut i: usize = 0;
        while i < claims.len()
            invariant
                i <= s.len(),
                s == claims@,
                s.len() > 0,
                batch_id < self.claims_by_batch@.len(),
                s == self.claims_by_batch@[batch_id as int]@,
                forall|j: int| 0 <= j < i ==> (#[trigger] s[j]).eval_point@ == s[0].eval_point@,
            decreases s.len() - i,
        {
            if !crate::field::vecs_equal(&claims[i].eval_point, &claims[0].eval_point) {
                proof {
                    assert(!all_same_point(s));
                }
                return Ok(None);
            }
            i = i + 1;
        }
        proof {
            assert(all_same_point(s));
        }
        // commitment openings need verifier-chosen random queries
        let mut i2: usize = 0;
        while i2 < claims.len()
            invariant
                i2 <= s.len(),
                s == claims@,
                s.len() > 0,
                batch_id < self.claims_by_batch@.len(),
                s == self.claims_by_batch@[batch_id as int]@,
                forall|j: int| 0 <= j < i2 ==> (#[trigger] s[j]).is_random_point,
            decreases s.len() - i2,
        {
            if !claims[i2].is_random_point {
                proof {
                    assert(!all_random(s));
                }
                return Ok(None);
            }
            i2 = i2 + 1;
        }
        proof {
            assert(all_random(s));
        }
        // assemble the dense evaluation vector, position by position
        let n = self.batch_lengths[batch_id];
        let mut filled: Vec<Option<Felt>> = Vec::new();
        let mut k: usize = 0;
        while k < n
            invariant
                k <= n,
                filled@.len() == k,
                forall|j: int| 0 <= j < k ==> filled@[j] is None,
            decreases n - k,
        {
            filled.push(None);
            k = k + 1;
        }
        let mut p: usize = 0;
        while p < claims.len()
            invariant
                p <= s.len(),
                s == claims@,
                acc_wf(*self),
                s.len() > 0,
                all_same_point(s),
                all_random(s),
                batch_id < self.claims_by_batch@.len(),
                s == self.claims_by_batch@[batch_id as int]@,
                n == self.batch_lengths@[batch_id as int],
                filled@.len() == n,
                forall|j: int|
                    0 <= j < n ==> (#[trigger] filled@[j] matches Some(e) ==> exists|q: int|
                        0 <= q < p && (#[trigger] s[q]).id.index == j && s[q].eval == e),
                forall|q: int|
                    0 <= q < p ==> filled@[(#[trigger] s[q]).id.index as int] is Some,
                forall|q1: int, q2: int|
                    0 <= q1 < p && 0 <= q2 < p && (#[trigger] s[q1]).id.index == (
                    #[trigger] s[q2]).id.index ==> s[q1].eval == s[q2].eval,
            decreases s.len() - p,
        {
            proof {
                assert(self.claims_by_batch@[batch_id as int]@[p as int].id.index
                    < self.batch_lengths@[batch_id as int]);
            }
            let claim = &claims[p];
            let idx = claim.id.index;
            match filled[idx] {
                Some(other) => {
                    if !crate::field::felt_equal(other, claim.eval) {
                        proof {
                            let q = choose|q: int|
                                0 <= q < p && (#[trigger] s[q]).id.index == idx as int && s[q].eval
                                    == other;
                            assert(s[q].id.index == s[p as int].id.index && s[q].eval != s[
                                p as int
                            ].eval);
                            assert(has_conflict(s));
                        }
                        return Err(Error::ConflictingEvals { batch_id });
                    }
                },
                None => {},
            }
            filled.set(idx, Some(claim.eval));
            p = p + 1;
        }
        // strip the inner options; a hole means a position no claim covered
        let mut evals: Vec<Felt> = Vec::new();
        let mut k2: usize = 0;
        while k2 < n
            invariant
                k2 <= n,
                filled@.len() == n,
                evals@.len() == k2,
                s == claims@,
                s.len() > 0,
                all_same_point(s),
                all_random(s),
                batch_id < self.claims_by_batch@.len(),
                s == self.claims_by_batch@[batch_id as int]@,
                n == self.batch_lengths@[batch_id as int],
                forall|j: int|
                    0 <= j < n ==> (#[trigger] filled@[j] matches Some(e) ==> exists|q: int|
                        0 <= q < s.len() && (#[trigger] s[q]).id.index == j && s[q].eval == e),
                forall|q: int|
                    0 <= q < s.len() ==> filled@[(#[trigger] s[q]).id.index as int] is Some,
                forall|q1: int, q2: int|
                    0 <= q1 < s.len() && 0 <= q2 < s.len() && (#[trigger] s[q1]).id.index == (
                    #[trigger] s[q2]).id.index ==> s[q1].eval == s[q2].eval,
                forall|j: int|
                    0 <= j < k2 ==> ((#[trigger] filled@[j]) matches Some(e) && e == evals@[j]),
            decreases n - k2,
        {
            match filled[k2] {
                Some(e) => {
                    evals.push(e);
                },
                None => {
                    proof {
                        assert(!has_conflict(s));
                        assert(!covered(s, k2 as int)) by {
                            if covered(s, k2 as int) {
                                let q = choose|q: int|
                                    0 <= q < s.len() && (#[trigger] s[q]).id.index == k2 as int;
                                assert(filled@[s[q].id.index as int] is Some);
                            }
                        }
                        assert(!covers(s, n as int));
                    }
                    return Err(Error::MissingEvals { batch_id });
                },
            }
            k2 = k2 + 1;
        }
        let eval_point = crate::oracle::copy_scalars(&claims[0].eval_point);
        proof {
            assert(!has_conflict(s));
            assert forall|k3: int| 0 <= k3 < n implies #[trigger] eval_at_index(
                s,
                k3,
                evals@[k3],
            ) by {
                assert(filled@[k3] matches Some(e) && e == evals@[k3]);
            }
            assert forall|k3: int| 0 <= k3 < n implies #[trigger] covered(s, k3) by {
                assert(eval_at_index(s, k3, evals@[k3]));
            }
            assert(covers(s, n as int));
        }
        Ok(Some(SameQueryPcsClaim { eval_point, evals }))
    }

    /// Destructively drains a batch's pending claims, for promotion through
    /// an auxiliary protocol round: the drained claims are gone from every
    /// later extraction on the batch.
    pub fn take_claims(&mut self, batch_id: usize) -> (r: Result<Vec<CommittedEvalClaim>, Error>)
        requires
            acc_wf(*old(self)),
        ensures
            acc_wf(*final(self)),
            final(self).batch_lengths == old(self).batch_lengths,
            batch_id < old(self).claims_by_batch@.len() ==> ({
                &&& r matches Ok(v) && v == old(self).claims_by_batch@[batch_id as int]
                &&& final(self).claims_by_batch@.len() == old(self).claims_by_batch@.len()
                &&& final(self).claims_by_batch@[batch_id as int]@.len() == 0
                &&& forall|j: int|
                    0 <= j < old(self).claims_by_batch@.len() && j != batch_id
                        ==> final(self).claims_by_batch@[j] == old(self).claims_by_batch@[j]
            }),
            batch_id >= old(self).claims_by_batch@.len() ==> r == Err::<
                Vec<CommittedEvalClaim>,
                Error,
            >(Error::UnknownBatchId { batch_id }) && *final(self) == *old(self),
    {
        if batch_id >= self.claims_by_batch.len() {
            return Err(Error::UnknownBatchId { batch_id });
        }
        let taken = self.claims_by_batch.remove(batch_id);
        self.claims_by_batch.insert(batch_id, Vec::new());
        Ok(taken)
    }
}

/// The prover-side registry pairing each oracle with the multilinear
/// witness backing it.
#[derive(Debug)]
pub struct EvalcheckWitness {
    pub multilinears: Vec<(MultilinearPolyOracle, MultilinearExtension)>,
}

/// There is a witness entry whose oracle equals the probed one: equality is
/// structural, over the oracles' ghost models.
pub open spec fn has_witness(
    s: Seq<(MultilinearPolyOracle, MultilinearExtension)>,
    m: crate::oracle::OracleModel,
) -> bool {
    exists|i: int| 0 <= i < s.len() && oracle_model((#[trigger] s[i]).0) == m
}

impl EvalcheckWitness {
    /// Wraps a list of oracle/witness pairs.
    pub fn new(multilinears: Vec<(MultilinearPolyOracle, MultilinearExtension)>) -> (r:
        EvalcheckWitness)
        ensures
            r.multilinears == multilinears,
    {
        EvalcheckWitness { multilinears }
    }

    /// Finds the witness registered for an oracle: the first entry whose
    /// oracle structurally equals the probed one, or `InvalidWitness` —
    /// carrying the probe's id — when no stored oracle equals it.
    pub fn witness_for_oracle(&self, oracle: &MultilinearPolyOracle) -> (r: Result<
        &MultilinearExtension,
        Error,
    >)
        ensures
            has_witness(self.multilinears@, oracle_model(*oracle)) ==> (r matches Ok(m) && exists|
                i: int,
            |
                0 <= i < self.multilinears@.len() && oracle_model(
                    (#[trigger] self.multilinears@[i]).0,
                ) == oracle_model(*oracle) && m == &self.multilinears@[i].1 && (forall|j: int|
                    0 <= j < i ==> oracle_model((#[trigger] self.multilinears@[j]).0)
                        != oracle_model(*oracle))),
            !has_witness(self.multilinears@, oracle_model(*oracle)) ==> r == Err::<
                &MultilinearExtension,
                Error,
            >(Error::InvalidWitness { oracle_id: spec_oracle_id(oracle_model(*oracle)) }),
    {
        let mut i: usize = 0;
        while i < self.multilinears.len()
            invariant
                i <= self.multilinears@.len(),
                forall|j: int|
                    0 <= j < i ==> oracle_model((#[trigger] self.multilinears@[j]).0)
                        != oracle_model(*oracle),
            decreases self.multilinears@.len() - i,
        {
            if crate::oracle::oracle_equal(&self.multilinears[i].0, oracle) {
                return Ok(&self.multilinears[i].1);
            }
            i = i + 1;
        }
        Err(Error::InvalidWitness { oracle_id: oracle.id() })
    }

    /// Evaluates the witness registered for an oracle at the point a query
    /// was expanded from.
    pub fn evaluate(&self, oracle: &MultilinearPolyOracle, query: &MultilinearQuery) -> (r: Result<
        Felt,
        Error,
    >)
        requires
            forall|i: int|
                0 <= i < self.multilinears@.len() ==> mle_wf(
                    (#[trigger] self.multilinears@[i]).1,
                ),
            query.expansion@.len() == pow2(query.n_vars as nat),
        ensures
            !has_witness(self.multilinears@, oracle_model(*oracle)) ==> r == Err::<Felt, Error>(
                Error::InvalidWitness { oracle_id: spec_oracle_id(oracle_model(*oracle)) },
            ),
            has_witness(self.multilinears@, oracle_model(*oracle)) ==> exists|i: int|
                0 <= i < self.multilinears@.len() && oracle_model(
                    (#[trigger] self.multilinears@[i]).0,
                ) == oracle_model(*oracle) && (forall|j: int|
                    0 <= j < i ==> oracle_model((#[trigger] self.multilinears@[j]).0)
                        != oracle_model(*oracle)) && (if self.multilinears@[i].1.n_vars
                    == query.n_vars {
                    r == Ok::<Felt, Error>(
                        spec_inner_product(self.multilinears@[i].1.evals@, query.expansion@),
                    )
                } else {
                    r == Err::<Felt, Error>(
                        Error::IncorrectQuerySize { expected: self.multilinears@[i].1.n_vars },
                    )
                }),
    {
        let multilin = match self.witness_for_oracle(oracle) {
            Ok(m) => m,
            Err(e) => {
                return Err(e);
            },
        };
        multilin.evaluate(query)
    }

    /// Merges another witness registry into this one, keeping entries of
    /// both in order.
    pub fn merge(self, other: EvalcheckWitness) -> (r: EvalcheckWitness)
        ensures
            r.multilinears@ == self.multilinears@ + other.multilinears@,
    {
        let mut multilinears = self.multilinears;
        let mut tail = other.multilinears;
        multilinears.append(&mut tail);
        EvalcheckWitness { multilinears }
    }
}

} // verus!

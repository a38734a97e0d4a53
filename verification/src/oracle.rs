//! The oracle model: a typed registry and tagged-union representation of
//! multilinear and multivariate polynomial oracles.
//!
//! An oracle tracks a polynomial's definition without holding its full
//! evaluation table. Multilinear oracles form a closed tagged union; a
//! multivariate oracle is either a multilinear one or a composition applied
//! pointwise to several multilinear ones. The registry allocates stable
//! integer handles append-only: handles once given out stay valid.
//!
//! Each executable oracle type has a ghost model mirroring it with `Seq` in
//! place of `Vec`; the models are what contracts about copied or rebuilt
//! oracles compare.

use vstd::prelude::*;

use crate::composition::{comp_n_vars, comp_wf, CompositionPoly};
use crate::error::Error;
use crate::field::{spec_add, spec_mul, spec_one, Felt};

verus! {

/// Stable integer handle of an oracle inside an oracle set; allocation is
/// append-only and ids are never reused.
pub type OracleId = usize;

/// Position of a committed polynomial: the batch it is committed in and its
/// index within that batch.
#[derive(Clone, Copy, Debug, PartialEq, Eq, Structural)]
pub struct CommittedId {
    pub batch_id: usize,
    pub index: usize,
}

/// Declaration of one commitment batch: how many polynomials it holds.
#[derive(Clone, Copy, Debug, PartialEq, Eq, Structural)]
pub struct CommittedBatch {
    pub n_polys: usize,
}

/// Which end of the variable list a projection fixes.
#[derive(Clone, Copy, Debug, PartialEq, Eq, Structural)]
pub enum ProjectionVariant {
    FirstVars,
    LastVars,
}

/// A transparent polynomial: a publicly known closed form, directly
/// evaluable by anyone.
#[derive(Debug)]
pub enum TransparentPoly {
    /// The constant polynomial over `n_vars` variables.
    Constant { n_vars: usize, value: Felt },
    /// The equality indicator partially evaluated at a fixed challenge
    /// vector `r`: `eq_r(x) = prod_i (x_i r_i + (1 - x_i)(1 - r_i))`, which
    /// on the boolean hypercube is 1 exactly at `x == r`.
    EqInd { n_vars: usize, challenges: Vec<Felt> },
}

/// Ghost mirror of [`TransparentPoly`].
pub ghost enum TransparentModel {
    Constant { n_vars: usize, value: Felt },
    EqInd { n_vars: usize, challenges: Seq<Felt> },
}

/// Some variables of an inner oracle fixed to constant values.
#[derive(Debug)]
pub struct Projected {
    pub inner: Box<MultilinearPolyOracle>,
    pub values: Vec<Felt>,
    pub variant: ProjectionVariant,
}

/// Ghost mirror of [`Projected`].
pub ghost struct ProjectedModel {
    pub inner: Box<OracleModel>,
    pub values: Seq<Felt>,
    pub variant: ProjectionVariant,
}

/// An inner oracle cyclically shifted within blocks of `2^block_bits`
/// adjacent hypercube points.
#[derive(Debug)]
pub struct Shifted {
    pub inner: Box<MultilinearPolyOracle>,
    pub shift_offset: usize,
    pub block_bits: usize,
}

/// Ghost mirror of [`Shifted`].
pub ghost struct ShiftedModel {
    pub inner: Box<OracleModel>,
    pub shift_offset: usize,
    pub block_bits: usize,
}

/// An inner oracle whose blocks of `2^log_degree` adjacent low-tower scalars
/// are packed into single scalars of a higher tower level.
#[derive(Debug)]
pub struct Packed {
    pub inner: Box<MultilinearPolyOracle>,
    pub log_degree: usize,
}

/// Ghost mirror of [`Packed`].
pub ghost struct PackedModel {
    pub inner: Box<OracleModel>,
    pub log_degree: usize,
}

/// A fixed linear combination of several multilinear oracles over the same
/// variables.
#[derive(Debug)]
pub struct LinearCombination {
    pub n_vars: usize,
    pub polys: Vec<MultilinearPolyOracle>,
    pub coefficients: Vec<Felt>,
}

/// Ghost mirror of [`LinearCombination`].
pub ghost struct LinearCombinationModel {
    pub n_vars: usize,
    pub polys: Seq<OracleModel>,
    pub coefficients: Seq<Felt>,
}

/// A multilinear polynomial oracle: the closed tagged union of the ways a
/// multilinear polynomial can be derived in this model.
#[derive(Debug)]
#[allow(inconsistent_fields)]
pub enum MultilinearPolyOracle {
    /// A publicly known closed form.
    Transparent { id: OracleId, poly: TransparentPoly, tower_level: usize },
    /// A polynomial hidden behind a commitment, opened later through a
    /// polynomial commitment scheme.
    Committed { id: CommittedId, oracle_id: OracleId, n_vars: usize },
    /// A polynomial that depends only on a prefix of its variables; the
    /// remaining `log_count` variables are ignored.
    Repeating { id: OracleId, inner: Box<MultilinearPolyOracle>, log_count: usize },
    /// Two polynomials interleaved point by point. No reduction is defined
    /// for this variant: checking it is an explicit failure.
    Interleaved {
        id: OracleId,
        poly1: Box<MultilinearPolyOracle>,
        poly2: Box<MultilinearPolyOracle>,
    },
    /// Linear extrapolation of two polynomials over one extra variable:
    /// the merged oracle agrees with `poly1` where the extra variable is 0
    /// and with `poly2` where it is 1.
    Merged {
        id: OracleId,
        poly1: Box<MultilinearPolyOracle>,
        poly2: Box<MultilinearPolyOracle>,
    },
    /// An inner oracle with some variables fixed to constants.
    Projected { id: OracleId, projected: Projected },
    /// An inner oracle shifted within blocks; checked by a specialized
    /// external reducer.
    Shifted { id: OracleId, shifted: Shifted },
    /// An inner oracle packed to a higher tower level; checked by a
    /// specialized external reducer.
    Packed { id: OracleId, packed: Packed },
    /// A fixed linear combination of several oracles.
    LinearCombination { id: OracleId, lin_com: LinearCombination },
}

/// Ghost mirror of [`MultilinearPolyOracle`].
#[allow(inconsistent_fields)]
pub ghost enum OracleModel {
    Transparent { id: OracleId, poly: TransparentModel, tower_level: usize },
    Committed { id: CommittedId, oracle_id: OracleId, n_vars: usize },
    Repeating { id: OracleId, inner: Box<OracleModel>, log_count: usize },
    Interleaved { id: OracleId, poly1: Box<OracleModel>, poly2: Box<OracleModel> },
    Merged { id: OracleId, poly1: Box<OracleModel>, poly2: Box<OracleModel> },
    Projected { id: OracleId, projected: ProjectedModel },
    Shifted { id: OracleId, shifted: ShiftedModel },
    Packed { id: OracleId, packed: PackedModel },
    LinearCombination { id: OracleId, lin_com: LinearCombinationModel },
}

/// Ghost mirror of a transparent polynomial.
pub open spec fn tp_model(t: TransparentPoly) -> TransparentModel {
    match t {
        TransparentPoly::Constant { n_vars, value } => TransparentModel::Constant {
            n_vars,
            value,
        },
        TransparentPoly::EqInd { n_vars, challenges } => TransparentModel::EqInd {
            n_vars,
            challenges: challenges@,
        },
    }
}

/// Ghost mirror of a shift descriptor.
pub open spec fn shifted_model(s: Shifted) -> ShiftedModel {
    (ShiftedModel {
        inner: Box::new(oracle_model(*s.inner)),
        shift_offset: s.shift_offset,
        block_bits: s.block_bits,
    })
}

/// Ghost mirror of a packing descriptor.
pub open spec fn packed_model(p: Packed) -> PackedModel {
    (PackedModel { inner: Box::new(oracle_model(*p.inner)), log_degree: p.log_degree })
}

/// Ghost mirror of an oracle.
pub open spec fn oracle_model(o: MultilinearPolyOracle) -> OracleModel
    decreases o,
{
    match o {
        MultilinearPolyOracle::Transparent { id, poly, tower_level } => OracleModel::Transparent {
            id,
            poly: tp_model(poly),
            tower_level,
        },
        MultilinearPolyOracle::Committed { id, oracle_id, n_vars } => OracleModel::Committed {
            id,
            oracle_id,
            n_vars,
        },
        MultilinearPolyOracle::Repeating { id, inner, log_count } => OracleModel::Repeating {
            id,
            inner: Box::new(oracle_model(*inner)),
            log_count,
        },
        MultilinearPolyOracle::Interleaved { id, poly1, poly2 } => OracleModel::Interleaved {
            id,
            poly1: Box::new(oracle_model(*poly1)),
            poly2: Box::new(oracle_model(*poly2)),
        },
        MultilinearPolyOracle::Merged { id, poly1, poly2 } => OracleModel::Merged {
            id,
            poly1: Box::new(oracle_model(*poly1)),
            poly2: Box::new(oracle_model(*poly2)),
        },
        MultilinearPolyOracle::Projected { id, projected } => OracleModel::Projected {
            id,
            projected: ProjectedModel {
                inner: Box::new(oracle_model(*projected.inner)),
                values: projected.values@,
                variant: projected.variant,
            },
        },
        MultilinearPolyOracle::Shifted { id, shifted } => OracleModel::Shifted {
            id,
            shifted: ShiftedModel {
                inner: Box::new(oracle_model(*shifted.inner)),
                shift_offset: shifted.shift_offset,
                block_bits: shifted.block_bits,
            },
        },
        MultilinearPolyOracle::Packed { id, packed } => OracleModel::Packed {
            id,
            packed: PackedModel {
                inner: Box::new(oracle_model(*packed.inner)),
                log_degree: packed.log_degree,
            },
        },
        MultilinearPolyOracle::LinearCombination { id, lin_com } => OracleModel::LinearCombination {
            id,
            lin_com: LinearCombinationModel {
                n_vars: lin_com.n_vars,
                polys: oracle_models(lin_com.polys@),
                coefficients: lin_com.coefficients@,
            },
        },
    }
}

/// Ghost mirrors of a sequence of oracles, in order.
pub open spec fn oracle_models(s: Seq<MultilinearPolyOracle>) -> Seq<OracleModel>
    decreases s,
{
    if s.len() == 0 {
        Seq::empty()
    } else {
        seq![oracle_model(s[0])] + oracle_models(s.drop_first())
    }
}

/// Number of variables of an oracle's polynomial.
pub open spec fn oracle_n_vars(m: OracleModel) -> nat
    decreases m,
{
    match m {
        OracleModel::Transparent { poly, .. } => tp_n_vars(poly),
        OracleModel::Committed { n_vars, .. } => n_vars as nat,
        OracleModel::Repeating { inner, log_count, .. } => oracle_n_vars(*inner)
            + log_count as nat,
        OracleModel::Interleaved { poly1, .. } => oracle_n_vars(*poly1) + 1,
        OracleModel::Merged { poly1, .. } => oracle_n_vars(*poly1) + 1,
        OracleModel::Projected { projected, .. } => (oracle_n_vars(*projected.inner)
            - projected.values.len()) as nat,
        OracleModel::Shifted { shifted, .. } => oracle_n_vars(*shifted.inner),
        OracleModel::Packed { packed, .. } => (oracle_n_vars(*packed.inner)
            - packed.log_degree as nat) as nat,
        OracleModel::LinearCombination { lin_com, .. } => lin_com.n_vars as nat,
    }
}

/// Number of variables of a transparent polynomial.
pub open spec fn tp_n_vars(t: TransparentModel) -> nat {
    match t {
        TransparentModel::Constant { n_vars, .. } => n_vars as nat,
        TransparentModel::EqInd { n_vars, .. } => n_vars as nat,
    }
}

/// A transparent polynomial is well formed when its challenge vector matches
/// its variable count.
pub open spec fn tp_wf(t: TransparentModel) -> bool {
    match t {
        TransparentModel::Constant { .. } => true,
        TransparentModel::EqInd { n_vars, challenges } => challenges.len() == n_vars,
    }
}

/// Structural well-formedness of an oracle: children are well formed, sibling
/// variable counts agree, projections and packings fix no more variables than
/// the inner oracle has, and variable counts fit the machine word.
pub open spec fn oracle_wf(m: OracleModel) -> bool
    decreases m,
{
    match m {
        OracleModel::Transparent { poly, .. } => tp_wf(poly),
        OracleModel::Committed { .. } => true,
        OracleModel::Repeating { inner, log_count, .. } => oracle_wf(*inner) && oracle_n_vars(
            *inner,
        ) + log_count as nat <= usize::MAX,
        OracleModel::Interleaved { poly1, poly2, .. } => oracle_wf(*poly1) && oracle_wf(*poly2)
            && oracle_n_vars(*poly1) == oracle_n_vars(*poly2) && oracle_n_vars(*poly1) + 1
            <= usize::MAX,
        OracleModel::Merged { poly1, poly2, .. } => oracle_wf(*poly1) && oracle_wf(*poly2)
            && oracle_n_vars(*poly1) == oracle_n_vars(*poly2) && oracle_n_vars(*poly1) + 1
            <= usize::MAX,
        OracleModel::Projected { projected, .. } => oracle_wf(*projected.inner)
            && projected.values.len() <= oracle_n_vars(*projected.inner),
        OracleModel::Shifted { shifted, .. } => oracle_wf(*shifted.inner),
        OracleModel::Packed { packed, .. } => oracle_wf(*packed.inner) && packed.log_degree as nat
            <= oracle_n_vars(*packed.inner),
        OracleModel::LinearCombination { lin_com, .. } => lin_com.polys.len()
            == lin_com.coefficients.len() && forall|i: int|
            0 <= i < lin_com.polys.len() ==> oracle_wf(#[trigger] lin_com.polys[i])
                && oracle_n_vars(lin_com.polys[i]) == lin_com.n_vars as nat,
    }
}

/// The oracle-set handle an oracle carries.
pub open spec fn spec_oracle_id(m: OracleModel) -> OracleId {
    match m {
        OracleModel::Transparent { id, .. } => id,
        OracleModel::Committed { oracle_id, .. } => oracle_id,
        OracleModel::Repeating { id, .. } => id,
        OracleModel::Interleaved { id, .. } => id,
        OracleModel::Merged { id, .. } => id,
        OracleModel::Projected { id, .. } => id,
        OracleModel::Shifted { id, .. } => id,
        OracleModel::Packed { id, .. } => id,
        OracleModel::LinearCombination { id, .. } => id,
    }
}

/// Equality indicator `eq(x, r)` as a product over coordinates:
/// `prod_i (x_i r_i + (1 + x_i)(1 + r_i))` in characteristic 2.
pub open spec fn eq_ind_eval(challenges: Seq<Felt>, point: Seq<Felt>) -> Felt
    decreases challenges.len(),
{
    if challenges.len() == 0 {
        spec_one()
    } else {
        spec_mul(
            eq_term(point[0], challenges[0]),
            eq_ind_eval(challenges.drop_first(), point.drop_first()),
        )
    }
}

/// One coordinate's factor of the equality indicator:
/// `x r + (1 + x)(1 + r)` in characteristic 2.
pub open spec fn eq_term(x: Felt, r: Felt) -> Felt {
    spec_add(spec_mul(x, r), spec_mul(spec_add(spec_one(), x), spec_add(spec_one(), r)))
}

/// Value of a transparent polynomial at a point of matching length.
pub open spec fn tp_eval(t: TransparentModel, point: Seq<Felt>) -> Felt {
    match t {
        TransparentModel::Constant { value, .. } => value,
        TransparentModel::EqInd { challenges, .. } => eq_ind_eval(challenges, point),
    }
}

impl TransparentPoly {
    /// Builds the equality-indicator polynomial partially evaluated at the
    /// given challenge vector, rejecting a vector of the wrong length.
    pub fn eq_ind(n_vars: usize, challenges: Vec<Felt>) -> (r: Result<TransparentPoly, Error>)
        ensures
            challenges@.len() == n_vars ==> (r matches Ok(t) && tp_model(t)
                == (TransparentModel::EqInd { n_vars, challenges: challenges@ })),
            challenges@.len() != n_vars ==> r == Err::<TransparentPoly, Error>(
                Error::IncorrectQuerySize { expected: n_vars },
            ),
    {
        if challenges.len() != n_vars {
            return Err(Error::IncorrectQuerySize { expected: n_vars });
        }
        Ok(TransparentPoly::EqInd { n_vars, challenges })
    }

    /// Number of variables of the transparent polynomial.
    pub fn n_vars(&self) -> (r: usize)
        ensures
            r as nat == tp_n_vars(tp_model(*self)),
    {
        match self {
            TransparentPoly::Constant { n_vars, .. } => *n_vars,
            TransparentPoly::EqInd { n_vars, .. } => *n_vars,
        }
    }

    /// Evaluates the closed form at a point, rejecting a point of the wrong
    /// length.
    pub fn evaluate(&self, point: &Vec<Felt>) -> (r: Result<Felt, Error>)
        requires
            tp_wf(tp_model(*self)),
        ensures
            point@.len() == tp_n_vars(tp_model(*self)) ==> r == Ok::<Felt, Error>(
                tp_eval(tp_model(*self), point@),
            ),
            point@.len() != tp_n_vars(tp_model(*self)) ==> r == Err::<Felt, Error>(
                Error::IncorrectQuerySize { expected: tp_n_vars(tp_model(*self)) as usize },
            ),
    {
        match self {
            TransparentPoly::Constant { n_vars, value } => {
                if point.len() != *n_vars {
                    return Err(Error::IncorrectQuerySize { expected: *n_vars });
                }
                Ok(*value)
            },
            TransparentPoly::EqInd { n_vars, challenges } => {
                if point.len() != *n_vars {
                    return Err(Error::IncorrectQuerySize { expected: *n_vars });
                }
                let n = challenges.len();
                let mut acc = Felt::one();
                let mut i: usize = n;
                while i > 0
                    invariant
                        i <= n,
                        n == challenges@.len() == point@.len(),
                        acc == eq_ind_eval(challenges@.skip(i as int), point@.skip(i as int)),
                    decreases i,
                {
                    i = i - 1;
                    let x = point[i];
                    let c = challenges[i];
                    let one = Felt::one();
                    let term = x.mul(c).add(one.add(x).mul(one.add(c)));
                    acc = term.mul(acc);
                    proof {
                        assert(challenges@.skip(i as int).drop_first() =~= challenges@.skip(
                            i + 1,
                        ));
                        assert(point@.skip(i as int).drop_first() =~= point@.skip(i + 1));
                    }
                }
                proof {
                    assert(challenges@.skip(0) =~= challenges@);
                    assert(point@.skip(0) =~= point@);
                }
                Ok(acc)
            },
        }
    }

    /// Structural copy of the transparent polynomial.
    pub fn duplicate(&self) -> (r: TransparentPoly)
        ensures
            tp_model(r) == tp_model(*self),
    {
        match self {
            TransparentPoly::Constant { n_vars, value } => TransparentPoly::Constant {
                n_vars: *n_vars,
                value: *value,
            },
            TransparentPoly::EqInd { n_vars, challenges } => {
                let mut c: Vec<Felt> = Vec::new();
                let mut i: usize = 0;
                while i < challenges.len()
                    invariant
                        i <= challenges@.len(),
                        c@ =~= challenges@.take(i as int),
                    decreases challenges@.len() - i,
                {
                    c.push(challenges[i]);
                    i = i + 1;
                }
                proof {
                    assert(c@ =~= challenges@);
                }
                TransparentPoly::EqInd { n_vars: *n_vars, challenges: c }
            },
        }
    }
}

impl MultilinearPolyOracle {
    /// The oracle-set handle this oracle carries.
    pub fn id(&self) -> (r: OracleId)
        ensures
            r == spec_oracle_id(oracle_model(*self)),
    {
        match self {
            MultilinearPolyOracle::Transparent { id, .. } => *id,
            MultilinearPolyOracle::Committed { oracle_id, .. } => *oracle_id,
            MultilinearPolyOracle::Repeating { id, .. } => *id,
            MultilinearPolyOracle::Interleaved { id, .. } => *id,
            MultilinearPolyOracle::Merged { id, .. } => *id,
            MultilinearPolyOracle::Projected { id, .. } => *id,
            MultilinearPolyOracle::Shifted { id, .. } => *id,
            MultilinearPolyOracle::Packed { id, .. } => *id,
            MultilinearPolyOracle::LinearCombination { id, .. } => *id,
        }
    }

    /// Number of variables of the oracle's polynomial.
    pub fn n_vars(&self) -> (r: usize)
        requires
            oracle_wf(oracle_model(*self)),
        ensures
            r as nat == oracle_n_vars(oracle_model(*self)),
        decreases *self,
    {
        match self {
            MultilinearPolyOracle::Transparent { poly, .. } => poly.n_vars(),
            MultilinearPolyOracle::Committed { n_vars, .. } => *n_vars,
            MultilinearPolyOracle::Repeating { inner, log_count, .. } => inner.n_vars()
                + *log_count,
            MultilinearPolyOracle::Interleaved { poly1, .. } => poly1.n_vars() + 1,
            MultilinearPolyOracle::Merged { poly1, .. } => poly1.n_vars() + 1,
            MultilinearPolyOracle::Projected { projected, .. } => projected.inner.n_vars()
                - projected.values.len(),
            MultilinearPolyOracle::Shifted { shifted, .. } => shifted.inner.n_vars(),
            MultilinearPolyOracle::Packed { packed, .. } => packed.inner.n_vars()
                - packed.log_degree,
            MultilinearPolyOracle::LinearCombination { lin_com, .. } => lin_com.n_vars,
        }
    }

    /// Structural copy of the oracle.
    pub fn duplicate(&self) -> (r: MultilinearPolyOracle)
        ensures
            oracle_model(r) == oracle_model(*self),
        decreases *self,
    {
        match self {
            MultilinearPolyOracle::Transparent { id, poly, tower_level } => {
                MultilinearPolyOracle::Transparent {
                    id: *id,
                    poly: poly.duplicate(),
                    tower_level: *tower_level,
                }
            },
            MultilinearPolyOracle::Committed { id, oracle_id, n_vars } => {
                MultilinearPolyOracle::Committed {
                    id: *id,
                    oracle_id: *oracle_id,
                    n_vars: *n_vars,
                }
            },
            MultilinearPolyOracle::Repeating { id, inner, log_count } => {
                MultilinearPolyOracle::Repeating {
                    id: *id,
                    inner: Box::new(inner.duplicate()),
                    log_count: *log_count,
                }
            },
            MultilinearPolyOracle::Interleaved { id, poly1, poly2 } => {
                MultilinearPolyOracle::Interleaved {
                    id: *id,
                    poly1: Box::new(poly1.duplicate()),
                    poly2: Box::new(poly2.duplicate()),
                }
            },
            MultilinearPolyOracle::Merged { id, poly1, poly2 } => {
                MultilinearPolyOracle::Merged {
                    id: *id,
                    poly1: Box::new(poly1.duplicate()),
                    poly2: Box::new(poly2.duplicate()),
                }
            },
            MultilinearPolyOracle::Projected { id, projected } => {
                let values = copy_scalars(&projected.values);
                MultilinearPolyOracle::Projected {
                    id: *id,
                    projected: Projected {
                        inner: Box::new(projected.inner.duplicate()),
                        values,
                        variant: projected.variant,
                    },
                }
            },
            MultilinearPolyOracle::Shifted { id, shifted } => {
                MultilinearPolyOracle::Shifted {
                    id: *id,
                    shifted: Shifted {
                        inner: Box::new(shifted.inner.duplicate()),
                        shift_offset: shifted.shift_offset,
                        block_bits: shifted.block_bits,
                    },
                }
            },
            MultilinearPolyOracle::Packed { id, packed } => {
                MultilinearPolyOracle::Packed {
                    id: *id,
                    packed: Packed {
                        inner: Box::new(packed.inner.duplicate()),
                        log_degree: packed.log_degree,
                    },
                }
            },
            MultilinearPolyOracle::LinearCombination { id, lin_com } => {
                let polys = duplicate_oracles(&lin_com.polys);
                let coefficients = copy_scalars(&lin_com.coefficients);
                MultilinearPolyOracle::LinearCombination {
                    id: *id,
                    lin_com: LinearCombination { n_vars: lin_com.n_vars, polys, coefficients },
                }
            },
        }
    }
}

/// Compares two transparent polynomials structurally.
pub fn tp_equal(a: &TransparentPoly, b: &TransparentPoly) -> (r: bool)
    ensures
        r == (tp_model(*a) == tp_model(*b)),
{
    match (a, b) {
        (
            TransparentPoly::Constant { n_vars: na, value: va },
            TransparentPoly::Constant { n_vars: nb, value: vb },
        ) => *na == *nb && va.value == vb.value,
        (
            TransparentPoly::EqInd { n_vars: na, challenges: ca },
            TransparentPoly::EqInd { n_vars: nb, challenges: cb },
        ) => *na == *nb && crate::field::vecs_equal(ca, cb),
        _ => false,
    }
}

/// Compares two oracles structurally: equal exactly when their ghost models
/// are equal, which is the equality of everything the oracles describe.
pub fn oracle_equal(a: &MultilinearPolyOracle, b: &MultilinearPolyOracle) -> (r: bool)
    ensures
        r == (oracle_model(*a) == oracle_model(*b)),
    decreases *a,
{
    match (a, b) {
        (
            MultilinearPolyOracle::Transparent { id: ia, poly: pa, tower_level: ta },
            MultilinearPolyOracle::Transparent { id: ib, poly: pb, tower_level: tb },
        ) => *ia == *ib && *ta == *tb && tp_equal(pa, pb),
        (
            MultilinearPolyOracle::Committed { id: ia, oracle_id: oa, n_vars: na },
            MultilinearPolyOracle::Committed { id: ib, oracle_id: ob, n_vars: nb },
        ) => *ia == *ib && *oa == *ob && *na == *nb,
        (
            MultilinearPolyOracle::Repeating { id: ia, inner: na, log_count: la },
            MultilinearPolyOracle::Repeating { id: ib, inner: nb, log_count: lb },
        ) => *ia == *ib && *la == *lb && oracle_equal(na, nb),
        (
            MultilinearPolyOracle::Interleaved { id: ia, poly1: pa1, poly2: pa2 },
            MultilinearPolyOracle::Interleaved { id: ib, poly1: pb1, poly2: pb2 },
        ) => *ia == *ib && oracle_equal(pa1, pb1) && oracle_equal(pa2, pb2),
        (
            MultilinearPolyOracle::Merged { id: ia, poly1: pa1, poly2: pa2 },
            MultilinearPolyOracle::Merged { id: ib, poly1: pb1, poly2: pb2 },
        ) => *ia == *ib && oracle_equal(pa1, pb1) && oracle_equal(pa2, pb2),
        (
            MultilinearPolyOracle::Projected { id: ia, projected: pa },
            MultilinearPolyOracle::Projected { id: ib, projected: pb },
        ) => *ia == *ib && pa.variant == pb.variant && crate::field::vecs_equal(
            &pa.values,
            &pb.values,
        ) && oracle_equal(&pa.inner, &pb.inner),
        (
            MultilinearPolyOracle::Shifted { id: ia, shifted: sa },
            MultilinearPolyOracle::Shifted { id: ib, shifted: sb },
        ) => *ia == *ib && sa.shift_offset == sb.shift_offset && sa.block_bits == sb.block_bits
            && oracle_equal(&sa.inner, &sb.inner),
        (
            MultilinearPolyOracle::Packed { id: ia, packed: pa },
            MultilinearPolyOracle::Packed { id: ib, packed: pb },
        ) => *ia == *ib && pa.log_degree == pb.log_degree && oracle_equal(&pa.inner, &pb.inner),
        (
            MultilinearPolyOracle::LinearCombination { id: ia, lin_com: la },
            MultilinearPolyOracle::LinearCombination { id: ib, lin_com: lb },
        ) => *ia == *ib && la.n_vars == lb.n_vars && crate::field::vecs_equal(
            &la.coefficients,
            &lb.coefficients,
        ) && oracles_equal(&la.polys, &lb.polys),
        _ => false,
    }
}

/// Compares two oracle lists structurally, element by element.
pub fn oracles_equal(a: &Vec<MultilinearPolyOracle>, b: &Vec<MultilinearPolyOracle>) -> (r: bool)
    ensures
        r == (oracle_models(a@) == oracle_models(b@)),
    decreases a@,
{
    proof {
        lemma_oracle_models_index(a@);
        lemma_oracle_models_index(b@);
    }
    if a.len() != b.len() {
        proof {
            assert(oracle_models(a@).len() != oracle_models(b@).len());
        }
        return false;
    }
    let mut i: usize = 0;
    while i < a.len()
        invariant
            i <= a@.len(),
            a@.len() == b@.len(),
            oracle_models(a@).len() == a@.len(),
            oracle_models(b@).len() == b@.len(),
            forall|j: int| 0 <= j < a@.len() ==> oracle_models(a@)[j] == oracle_model(a@[j]),
            forall|j: int| 0 <= j < b@.len() ==> oracle_models(b@)[j] == oracle_model(b@[j]),
            forall|j: int| 0 <= j < i ==> oracle_models(a@)[j] == oracle_models(b@)[j],
        decreases a@.len() - i,
    {
        proof {
            assert(decreases_to!(a@ => a@[i as int]));
        }
        if !oracle_equal(&a[i], &b[i]) {
            proof {
                assert(oracle_models(a@)[i as int] != oracle_models(b@)[i as int]);
            }
            return false;
        }
        i = i + 1;
    }
    proof {
        assert(oracle_models(a@) =~= oracle_models(b@));
    }
    true
}

/// Copies a vector of scalars element by element.
pub fn copy_scalars(v: &Vec<Felt>) -> (r: Vec<Felt>)
    ensures
        r@ == v@,
{
    let mut r: Vec<Felt> = Vec::new();
    let mut i: usize = 0;
    while i < v.len()
        invariant
            i <= v@.len(),
            r@ =~= v@.take(i as int),
        decreases v@.len() - i,
    {
        r.push(v[i]);
        i = i + 1;
    }
    proof {
        assert(r@ =~= v@);
    }
    r
}

/// Copies a vector of oracles element by element.
pub fn duplicate_oracles(v: &Vec<MultilinearPolyOracle>) -> (r: Vec<MultilinearPolyOracle>)
    ensures
        oracle_models(r@) == oracle_models(v@),
        r@.len() == v@.len(),
    decreases v@,
{
    let mut r: Vec<MultilinearPolyOracle> = Vec::new();
    let mut i: usize = 0;
    while i < v.len()
        invariant
            i <= v@.len(),
            r@.len() == i,
            oracle_models(r@) =~= oracle_models(v@.take(i as int)),
        decreases v@.len() - i,
    {
        proof {
            assert(decreases_to!(v@ => v@[i as int]));
        }
        let ghost r_prev = r@;
        let dup = v[i].duplicate();
        r.push(dup);
        proof {
            lemma_oracle_models_push(r_prev, dup);
            assert(v@.take(i + 1) =~= v@.take(i as int).push(v@[i as int]));
            lemma_oracle_models_push(v@.take(i as int), v@[i as int]);
        }
        i = i + 1;
    }
    proof {
        assert(v@.take(v@.len() as int) =~= v@);
        assert(oracle_models(r@) =~= oracle_models(v@));
    }
    r
}

/// A multivariate polynomial oracle: either one multilinear oracle, or a
/// composition function applied pointwise to several multilinear oracles.
#[derive(Debug)]
pub enum MultivariatePolyOracle {
    Multilinear(MultilinearPolyOracle),
    Composite(CompositePolyOracle),
}

/// A composition applied pointwise to several multilinear oracles over the
/// same `n_vars` variables.
#[derive(Debug)]
pub struct CompositePolyOracle {
    pub n_vars: usize,
    pub inner: Vec<MultilinearPolyOracle>,
    pub composition: CompositionPoly,
}

/// Every oracle of the sequence is well formed and has exactly `nv`
/// variables.
pub open spec fn all_wf_with_n_vars(ms: Seq<OracleModel>, nv: nat) -> bool {
    forall|i: int|
        0 <= i < ms.len() ==> oracle_wf(#[trigger] ms[i]) && oracle_n_vars(ms[i]) == nv
}

/// Well-formedness of a composite oracle: the composition is well formed and
/// takes one input per inner oracle, and every inner oracle has exactly the
/// composite's number of variables.
pub open spec fn cpo_wf(c: CompositePolyOracle) -> bool {
    &&& comp_wf(c.composition)
    &&& comp_n_vars(c.composition) == c.inner@.len()
    &&& all_wf_with_n_vars(oracle_models(c.inner@), c.n_vars as nat)
}

/// Well-formedness of a multivariate oracle.
pub open spec fn mv_wf(p: MultivariatePolyOracle) -> bool {
    match p {
        MultivariatePolyOracle::Multilinear(m) => oracle_wf(oracle_model(m)),
        MultivariatePolyOracle::Composite(c) => cpo_wf(c),
    }
}

/// Number of variables of a multivariate oracle.
pub open spec fn mv_n_vars(p: MultivariatePolyOracle) -> nat {
    match p {
        MultivariatePolyOracle::Multilinear(m) => oracle_n_vars(oracle_model(m)),
        MultivariatePolyOracle::Composite(c) => c.n_vars as nat,
    }
}

impl CompositePolyOracle {
    /// Builds a composite oracle, validating that the composition takes one
    /// input per inner oracle and that every inner oracle has exactly
    /// `n_vars` variables.
    pub fn new(n_vars: usize, inner: Vec<MultilinearPolyOracle>, composition: CompositionPoly) -> (r:
        Result<CompositePolyOracle, Error>)
        requires
            comp_wf(composition),
            forall|i: int|
                0 <= i < inner@.len() ==> oracle_wf(#[trigger] oracle_models(inner@)[i]),
        ensures
            (comp_n_vars(composition) == inner@.len() && all_wf_with_n_vars(
                oracle_models(inner@),
                n_vars as nat,
            )) ==> (r matches Ok(c) && c == (CompositePolyOracle { n_vars, inner, composition })
                && cpo_wf(c)),
            !(comp_n_vars(composition) == inner@.len() && all_wf_with_n_vars(
                oracle_models(inner@),
                n_vars as nat,
            )) ==> r == Err::<CompositePolyOracle, Error>(
                Error::IncorrectQuerySize { expected: n_vars },
            ),
    {
        proof {
            lemma_oracle_models_index(inner@);
        }
        if composition.n_vars() != inner.len() {
            return Err(Error::IncorrectQuerySize { expected: n_vars });
        }
        let mut i: usize = 0;
        while i < inner.len()
            invariant
                i <= inner@.len(),
                comp_wf(composition),
                oracle_models(inner@).len() == inner@.len(),
                forall|j: int|
                    0 <= j < inner@.len() ==> oracle_models(inner@)[j] == oracle_model(
                        inner@[j],
                    ),
                forall|j: int|
                    0 <= j < inner@.len() ==> oracle_wf(#[trigger] oracle_models(inner@)[j]),
                forall|j: int|
                    0 <= j < i ==> oracle_n_vars(#[trigger] oracle_models(inner@)[j])
                        == n_vars as nat,
            decreases inner@.len() - i,
        {
            proof {
                assert(oracle_models(inner@)[i as int] == oracle_model(inner@[i as int]));
            }
            let nv = inner[i].n_vars();
            if nv != n_vars {
                proof {
                    assert(oracle_n_vars(oracle_models(inner@)[i as int]) != n_vars as nat);
                }
                return Err(Error::IncorrectQuerySize { expected: n_vars });
            }
            i = i + 1;
        }
        Ok(CompositePolyOracle { n_vars, inner, composition })
    }

    /// Number of variables of the composite polynomial.
    pub fn n_vars(&self) -> (r: usize)
        ensures
            r == self.n_vars,
    {
        self.n_vars
    }

    /// Number of multilinear parts the composition is applied to.
    pub fn n_multilinears(&self) -> (r: usize)
        ensures
            r == self.inner@.len(),
    {
        self.inner.len()
    }

    /// Copies of the inner oracles, in order.
    pub fn inner_polys(&self) -> (r: Vec<MultilinearPolyOracle>)
        ensures
            oracle_models(r@) == oracle_models(self.inner@),
            r@.len() == self.inner@.len(),
    {
        duplicate_oracles(&self.inner)
    }

    /// A copy of the composition function.
    pub fn composition(&self) -> (r: CompositionPoly)
        ensures
            r == self.composition,
    {
        self.composition.duplicate()
    }
}

/// Append-only registry of multilinear oracles; the oracle at position `i`
/// carries id `i`.
#[derive(Debug)]
pub struct MultilinearOracleSet {
    pub oracles: Vec<MultilinearPolyOracle>,
}

/// Every oracle stored in the set is well formed.
pub open spec fn set_wf(s: MultilinearOracleSet) -> bool {
    forall|i: int|
        0 <= i < s.oracles@.len() ==> oracle_wf(oracle_model(#[trigger] s.oracles@[i]))
}

impl MultilinearOracleSet {
    /// An empty oracle set.
    pub fn new() -> (r: MultilinearOracleSet)
        ensures
            r.oracles@.len() == 0,
            set_wf(r),
    {
        MultilinearOracleSet { oracles: Vec::new() }
    }

    /// Registers a transparent polynomial at the given tower level,
    /// returning the new oracle's id. Appends deterministically: the new id
    /// is the number of oracles registered before, and no existing handle is
    /// invalidated.
    pub fn add_transparent(&mut self, poly: TransparentPoly, tower_level: usize) -> (r: Result<
        OracleId,
        Error,
    >)
        ensures
            old(self).oracles@.len() <= usize::MAX,
            tp_wf(tp_model(poly)) ==> r == Ok::<OracleId, Error>(old(self).oracles@.len() as usize)
                && final(self).oracles@ == old(self).oracles@.push(
                MultilinearPolyOracle::Transparent {
                    id: old(self).oracles@.len() as usize,
                    poly,
                    tower_level,
                },
            ),
            !tp_wf(tp_model(poly)) ==> r == Err::<OracleId, Error>(
                Error::IncorrectQuerySize { expected: tp_n_vars(tp_model(poly)) as usize },
            ) && *final(self) == *old(self),
            set_wf(*old(self)) && tp_wf(tp_model(poly)) ==> set_wf(*final(self)),
    {
        let id = self.oracles.len();
        let ok = match &poly {
            TransparentPoly::Constant { .. } => true,
            TransparentPoly::EqInd { n_vars, challenges } => challenges.len() == *n_vars,
        };
        if !ok {
            let expected = poly.n_vars();
            return Err(Error::IncorrectQuerySize { expected });
        }
        self.oracles.push(MultilinearPolyOracle::Transparent { id, poly, tower_level });
        Ok(id)
    }

    /// Registers a projection of an oracle: the given variables fixed to
    /// the given constant values, at the front or at the back. Appends
    /// deterministically, returning the new oracle's id.
    pub fn add_projected(
        &mut self,
        inner: MultilinearPolyOracle,
        values: Vec<Felt>,
        variant: ProjectionVariant,
    ) -> (r: Result<OracleId, Error>)
        requires
            oracle_wf(oracle_model(inner)),
        ensures
            old(self).oracles@.len() <= usize::MAX,
            values@.len() <= oracle_n_vars(oracle_model(inner)) ==> r == Ok::<OracleId, Error>(
                old(self).oracles@.len() as usize,
            ) && final(self).oracles@ == old(self).oracles@.push(
                MultilinearPolyOracle::Projected {
                    id: old(self).oracles@.len() as usize,
                    projected: (Projected { inner: Box::new(inner), values, variant }),
                },
            ),
            values@.len() > oracle_n_vars(oracle_model(inner)) ==> r == Err::<OracleId, Error>(
                Error::IncorrectQuerySize { expected: values@.len() as usize },
            ) && *final(self) == *old(self),
            set_wf(*old(self)) && values@.len() <= oracle_n_vars(oracle_model(inner))
                ==> set_wf(*final(self)),
    {
        let id = self.oracles.len();
        let inner_n_vars = inner.n_vars();
        if values.len() > inner_n_vars {
            let expected = values.len();
            return Err(Error::IncorrectQuerySize { expected });
        }
        self.oracles.push(
            MultilinearPolyOracle::Projected {
                id,
                projected: Projected { inner: Box::new(inner), values, variant },
            },
        );
        Ok(id)
    }

    /// Looks an oracle up by its id, returning a copy of it; fails when the
    /// id is unknown.
    pub fn oracle(&self, id: OracleId) -> (r: Result<MultilinearPolyOracle, Error>)
        ensures
            id < self.oracles@.len() ==> (r matches Ok(o) && oracle_model(o) == oracle_model(
                self.oracles@[id as int],
            )),
            id >= self.oracles@.len() ==> r == Err::<MultilinearPolyOracle, Error>(
                Error::UnknownOracleId { oracle_id: id },
            ),
    {
        if id >= self.oracles.len() {
            return Err(Error::UnknownOracleId { oracle_id: id });
        }
        Ok(self.oracles[id].duplicate())
    }

    /// Number of oracles registered so far.
    pub fn n_oracles(&self) -> (r: usize)
        ensures
            r == self.oracles@.len(),
    {
        self.oracles.len()
    }
}

/// The model sequence has the same length as the oracle sequence and mirrors
/// it element by element.
pub proof fn lemma_oracle_models_index(s: Seq<MultilinearPolyOracle>)
    ensures
        oracle_models(s).len() == s.len(),
        forall|i: int| 0 <= i < s.len() ==> oracle_models(s)[i] == oracle_model(s[i]),
    decreases s,
{
    if s.len() > 0 {
        lemma_oracle_models_index(s.drop_first());
        assert forall|i: int| 0 <= i < s.len() implies oracle_models(s)[i] == oracle_model(
            s[i],
        ) by {
            if i > 0 {
                assert(oracle_models(s)[i] == oracle_models(s.drop_first())[i - 1]);
                assert(s.drop_first()[i - 1] == s[i]);
            }
        }
    }
}

/// Appending one oracle to a sequence appends its model to the models.
pub proof fn lemma_oracle_models_push(s: Seq<MultilinearPolyOracle>, o: MultilinearPolyOracle)
    ensures
        oracle_models(s.push(o)) == oracle_models(s).push(oracle_model(o)),
{
    lemma_oracle_models_index(s.push(o));
    lemma_oracle_models_index(s);
    assert(oracle_models(s.push(o)) =~= oracle_models(s).push(oracle_model(o)));
}

} // verus!

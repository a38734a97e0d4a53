//! Composition polynomials.
//!
//! A composition is the closed-form multivariate polynomial applied
//! pointwise to the evaluations of several multilinear sub-oracles of a
//! composite oracle. The set of compositions is a closed tagged union: the
//! base forms, and [`ProductComposition`], which wraps an inner composition
//! and multiplies it by one extra variable.

use vstd::prelude::*;

use crate::error::Error;
use crate::field::{spec_add, spec_mul, spec_one, Felt};

verus! {

/// A closed-form composition polynomial over the evaluations of a composite
/// oracle's multilinear parts.
#[derive(Debug)]
pub enum CompositionPoly {
    /// The product of all `n_vars` inputs; degree `n_vars`.
    Product { n_vars: usize },
    /// The multiplication-gate identity `out - in1 * in2` over three inputs
    /// `[out, in1, in2]`; in characteristic 2 this is `out + in1 * in2`.
    /// It vanishes exactly where `out = in1 * in2`; degree 2.
    MultGate,
    /// An inner composition multiplied by one extra variable.
    Augmented(ProductComposition),
}

/// Wraps an inner composition polynomial `f` and multiplies by another
/// variable: the function is `g(X_0, ..., X_n) = f(X_0, ..., X_{n-1}) * X_n`.
#[derive(Debug)]
pub struct ProductComposition {
    pub inner: Box<CompositionPoly>,
}

/// Number of inputs a composition takes.
pub open spec fn comp_n_vars(c: CompositionPoly) -> nat
    decreases c,
{
    match c {
        CompositionPoly::Product { n_vars } => n_vars as nat,
        CompositionPoly::MultGate => 3,
        CompositionPoly::Augmented(p) => comp_n_vars(*p.inner) + 1,
    }
}

/// Total degree of a composition.
pub open spec fn comp_degree(c: CompositionPoly) -> nat
    decreases c,
{
    match c {
        CompositionPoly::Product { n_vars } => n_vars as nat,
        CompositionPoly::MultGate => 2,
        CompositionPoly::Augmented(p) => comp_degree(*p.inner) + 1,
    }
}

/// A composition is well formed when its variable count and degree fit the
/// machine word at every level, so that the executable accessors cannot
/// overflow.
pub open spec fn comp_wf(c: CompositionPoly) -> bool
    decreases c,
{
    match c {
        CompositionPoly::Product { .. } => true,
        CompositionPoly::MultGate => true,
        CompositionPoly::Augmented(p) => comp_wf(*p.inner) && comp_n_vars(*p.inner) < usize::MAX
            && comp_degree(*p.inner) < usize::MAX,
    }
}

/// Binary-tower level of a composition's coefficients; the base forms have
/// coefficients 0 and 1, at level 0.
pub open spec fn comp_tower_level(c: CompositionPoly) -> nat
    decreases c,
{
    match c {
        CompositionPoly::Product { .. } => 0,
        CompositionPoly::MultGate => 0,
        CompositionPoly::Augmented(p) => comp_tower_level(*p.inner),
    }
}

/// Product of all scalars of a sequence; the empty product is one.
pub open spec fn spec_product(q: Seq<Felt>) -> Felt
    decreases q.len(),
{
    if q.len() == 0 {
        spec_one()
    } else {
        spec_mul(q[0], spec_product(q.drop_first()))
    }
}

/// Value of a composition on a query of exactly `comp_n_vars(c)` scalars.
pub open spec fn comp_eval(c: CompositionPoly, q: Seq<Felt>) -> Felt
    decreases c,
{
    match c {
        CompositionPoly::Product { .. } => spec_product(q),
        CompositionPoly::MultGate => spec_add(q[0], spec_mul(q[1], q[2])),
        CompositionPoly::Augmented(p) => spec_mul(
            comp_eval(*p.inner, q.take(q.len() - 1)),
            q[q.len() - 1],
        ),
    }
}

impl CompositionPoly {
    /// Number of inputs this composition takes.
    pub fn n_vars(&self) -> (r: usize)
        requires
            comp_wf(*self),
        ensures
            r as nat == comp_n_vars(*self),
        decreases *self,
    {
        match self {
            CompositionPoly::Product { n_vars } => *n_vars,
            CompositionPoly::MultGate => 3,
            CompositionPoly::Augmented(p) => p.inner.n_vars() + 1,
        }
    }

    /// Total degree of this composition.
    pub fn degree(&self) -> (r: usize)
        requires
            comp_wf(*self),
        ensures
            r as nat == comp_degree(*self),
        decreases *self,
    {
        match self {
            CompositionPoly::Product { n_vars } => *n_vars,
            CompositionPoly::MultGate => 2,
            CompositionPoly::Augmented(p) => p.inner.degree() + 1,
        }
    }

    /// Binary-tower level the composition's coefficients live at; the base
    /// forms have coefficients 0 and 1, at level 0 of the tower.
    pub fn binary_tower_level(&self) -> (r: usize)
        ensures
            r as nat == comp_tower_level(*self),
        decreases *self,
    {
        match self {
            CompositionPoly::Product { .. } => 0,
            CompositionPoly::MultGate => 0,
            CompositionPoly::Augmented(p) => p.inner.binary_tower_level(),
        }
    }

    /// Structural copy of the composition.
    pub fn duplicate(&self) -> (r: CompositionPoly)
        ensures
            r == *self,
        decreases *self,
    {
        match self {
            CompositionPoly::Product { n_vars } => CompositionPoly::Product { n_vars: *n_vars },
            CompositionPoly::MultGate => CompositionPoly::MultGate,
            CompositionPoly::Augmented(p) => CompositionPoly::Augmented(
                ProductComposition { inner: Box::new(p.inner.duplicate()) },
            ),
        }
    }

    /// Evaluates the composition on a query vector, rejecting a query of the
    /// wrong length.
    pub fn evaluate(&self, query: &Vec<Felt>) -> (r: Result<Felt, Error>)
        requires
            comp_wf(*self),
        ensures
            query@.len() == comp_n_vars(*self) ==> r == Ok::<Felt, Error>(
                comp_eval(*self, query@),
            ),
            query@.len() != comp_n_vars(*self) ==> r == Err::<Felt, Error>(
                Error::IncorrectQuerySize { expected: comp_n_vars(*self) as usize },
            ),
    {
        let n = self.n_vars();
        if query.len() != n {
            return Err(Error::IncorrectQuerySize { expected: n });
        }
        let v = self.eval_prefix(query, n);
        proof {
            assert(query@.take(n as int) =~= query@);
        }
        Ok(v)
    }

    /// Evaluates the composition on the first `n` scalars of `query`, where
    /// `n` is exactly the composition's input count.
    fn eval_prefix(&self, query: &Vec<Felt>, n: usize) -> (r: Felt)
        requires
            comp_wf(*self),
            n as nat == comp_n_vars(*self),
            n <= query@.len(),
        ensures
            r == comp_eval(*self, query@.take(n as int)),
        decreases *self,
    {
        match self {
            CompositionPoly::Product { .. } => {
                let mut acc = Felt::one();
                let mut i: usize = n;
                while i > 0
                    invariant
                        i <= n,
                        n <= query@.len(),
                        acc == spec_product(query@.take(n as int).skip(i as int)),
                    decreases i,
                {
                    i = i - 1;
                    acc = query[i].mul(acc);
                    proof {
                        let t = query@.take(n as int);
                        assert(t.skip(i as int).drop_first() =~= t.skip(i + 1));
                        assert(t.skip(i as int)[0] == query@[i as int]);
                    }
                }
                proof {
                    assert(query@.take(n as int).skip(0) =~= query@.take(n as int));
                }
                acc
            },
            CompositionPoly::MultGate => {
                let r = query[0].add(query[1].mul(query[2]));
                proof {
                    let t = query@.take(n as int);
                    assert(t[0] == query@[0] && t[1] == query@[1] && t[2] == query@[2]);
                }
                r
            },
            CompositionPoly::Augmented(p) => {
                let inner_val = p.inner.eval_prefix(query, n - 1);
                let r = inner_val.mul(query[n - 1]);
                proof {
                    let t = query@.take(n as int);
                    assert(t.take(t.len() - 1) =~= query@.take(n - 1));
                    assert(t[t.len() - 1] == query@[n - 1]);
                }
                r
            },
        }
    }
}

/// Wrapping any composition in a [`ProductComposition`] raises its input
/// count by one and its degree by one; its value is the inner value times
/// the extra input.
pub proof fn lemma_product_composition_raises_arity_and_degree(c: CompositionPoly, q: Seq<Felt>)
    ensures
        comp_n_vars(CompositionPoly::Augmented(ProductComposition { inner: Box::new(c) }))
            == comp_n_vars(c) + 1,
        comp_degree(CompositionPoly::Augmented(ProductComposition { inner: Box::new(c) }))
            == comp_degree(c) + 1,
        q.len() > 0 ==> comp_eval(
            CompositionPoly::Augmented(ProductComposition { inner: Box::new(c) }),
            q,
        ) == spec_mul(comp_eval(c, q.take(q.len() - 1)), q.last()),
{
}

impl ProductComposition {
    /// Wraps an inner composition, appending one multiplicative variable.
    pub fn new(inner: CompositionPoly) -> (r: ProductComposition)
        ensures
            r.inner == inner,
    {
        ProductComposition { inner: Box::new(inner) }
    }

    /// One more input than the inner composition.
    pub fn n_vars(&self) -> (r: usize)
        requires
            comp_wf(CompositionPoly::Augmented(*self)),
        ensures
            r as nat == comp_n_vars(*self.inner) + 1,
    {
        self.inner.n_vars() + 1
    }

    /// One more than the inner composition's degree.
    pub fn degree(&self) -> (r: usize)
        requires
            comp_wf(CompositionPoly::Augmented(*self)),
        ensures
            r as nat == comp_degree(*self.inner) + 1,
    {
        self.inner.degree() + 1
    }

    /// Evaluates the inner composition on all inputs but the last and
    /// multiplies by the last, rejecting a query of the wrong length.
    pub fn evaluate(&self, query: &Vec<Felt>) -> (r: Result<Felt, Error>)
        requires
            comp_wf(CompositionPoly::Augmented(*self)),
        ensures
            query@.len() == comp_n_vars(*self.inner) + 1 ==> r == Ok::<Felt, Error>(
                spec_mul(comp_eval(*self.inner, query@.take(query@.len() - 1)), query@.last()),
            ),
            query@.len() != comp_n_vars(*self.inner) + 1 ==> r == Err::<Felt, Error>(
                Error::IncorrectQuerySize {
                    expected: (comp_n_vars(*self.inner) + 1) as usize,
                },
            ),
    {
        let n = self.n_vars();
        if query.len() != n {
            return Err(Error::IncorrectQuerySize { expected: n });
        }
        let inner_eval = self.inner.eval_prefix(query, n - 1);
        Ok(inner_eval.mul(query[n - 1]))
    }

    /// Tower level of the inner composition's coefficients: the extra
    /// multiplicand adds no coefficient of its own.
    pub fn binary_tower_level(&self) -> (r: usize)
        ensures
            r == comp_tower_level(*self.inner),
    {
        self.inner.binary_tower_level()
    }
}

} // verus!

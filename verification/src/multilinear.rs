//! Prover-side multilinear polynomials held as full evaluation tables, and
//! the tensor-expanded queries used to evaluate them at a point.

use vstd::prelude::*;

use crate::error::Error;
use crate::field::{spec_add, spec_inner_product, spec_mul, spec_one, Felt};

verus! {

/// Tensor expansion of an evaluation point: entry `j` of the expansion is
/// the equality indicator between `j`'s bit pattern and the point, so the
/// inner product of an evaluation table with the expansion evaluates the
/// multilinear extension at the point. Coordinate `i` of the point selects
/// bit `i` of the entry index; appending a coordinate `r` scales the
/// existing entries by `1 + r` (low half) and by `r` (high half).
pub open spec fn tensor_expansion(point: Seq<Felt>) -> Seq<Felt>
    decreases point.len(),
{
    if point.len() == 0 {
        seq![spec_one()]
    } else {
        let prev = tensor_expansion(point.drop_last());
        let r = point.last();
        prev.map_values(|e: Felt| spec_mul(e, spec_add(spec_one(), r))) + prev.map_values(
            |e: Felt| spec_mul(e, r),
        )
    }
}

/// The tensor expansion of an `n`-coordinate point has `2^n` entries.
pub proof fn lemma_tensor_expansion_len(point: Seq<Felt>)
    ensures
        tensor_expansion(point).len() == pow2(point.len()),
    decreases point.len(),
{
    if point.len() > 0 {
        lemma_tensor_expansion_len(point.drop_last());
    }
}

/// `2^n` as a natural number.
pub open spec fn pow2(n: nat) -> nat
    decreases n,
{
    if n == 0 {
        1
    } else {
        2 * pow2((n - 1) as nat)
    }
}

/// A full evaluation query: the tensor expansion of one evaluation point.
#[derive(Debug)]
pub struct MultilinearQuery {
    pub n_vars: usize,
    pub expansion: Vec<Felt>,
}

impl MultilinearQuery {
    /// Expands an evaluation point into its full tensor of `2^n` equality
    /// indicators.
    pub fn with_full_query(point: &Vec<Felt>) -> (r: MultilinearQuery)
        requires
            point@.len() < 32,
        ensures
            r.n_vars == point@.len(),
            r.expansion@ == tensor_expansion(point@),
    {
        let n = point.len();
        let mut expansion: Vec<Felt> = Vec::new();
        expansion.push(Felt::one());
        proof {
            assert(expansion@ =~= tensor_expansion(point@.take(0)));
        }
        let mut i: usize = 0;
        while i < n
            invariant
                i <= n,
                n == point@.len() < 32,
                expansion@ == tensor_expansion(point@.take(i as int)),
                expansion@.len() == pow2(i as nat),
            decreases n - i,
        {
            proof {
                lemma_tensor_expansion_len(point@.take(i as int));
            }
            let r = point[i];
            let one = Felt::one();
            let len = expansion.len();
            let mut next: Vec<Felt> = Vec::new();
            let mut j: usize = 0;
            while j < len
                invariant
                    j <= len,
                    len == expansion@.len(),
                    i < n == point@.len(),
                    r == point@[i as int],
                    one == spec_one(),
                    next@.len() == j,
                    forall|k: int|
                        0 <= k < j ==> next@[k] == spec_mul(
                            expansion@[k],
                            spec_add(spec_one(), point@[i as int]),
                        ),
                decreases len - j,
            {
                next.push(expansion[j].mul(one.add(r)));
                j = j + 1;
            }
            let mut j2: usize = 0;
            while j2 < len
                invariant
                    j2 <= len,
                    len == expansion@.len(),
                    i < n == point@.len(),
                    r == point@[i as int],
                    next@.len() == len + j2,
                    forall|k: int|
                        0 <= k < len ==> next@[k] == spec_mul(
                            expansion@[k],
                            spec_add(spec_one(), point@[i as int]),
                        ),
                    forall|k: int|
                        len <= k < len + j2 ==> next@[k] == spec_mul(
                            expansion@[k - len],
                            point@[i as int],
                        ),
                decreases len - j2,
            {
                next.push(expansion[j2].mul(r));
                j2 = j2 + 1;
            }
            proof {
                let p = point@.take(i + 1);
                assert(p.drop_last() =~= point@.take(i as int));
                assert(p.last() == point@[i as int]);
                assert(next@ =~= tensor_expansion(point@.take(i + 1)));
                lemma_tensor_expansion_len(point@.take(i + 1));
            }
            expansion = next;
            i = i + 1;
        }
        proof {
            assert(point@.take(n as int) =~= point@);
        }
        MultilinearQuery { n_vars: n, expansion }
    }

    /// Number of coordinates of the expanded point.
    pub fn n_vars(&self) -> (r: usize)
        ensures
            r == self.n_vars,
    {
        self.n_vars
    }
}

/// A multilinear polynomial held as its full table of evaluations on the
/// boolean hypercube; entry `j` is the value at the point given by `j`'s
/// bits, bit `i` being coordinate `i`.
#[derive(Debug)]
pub struct MultilinearExtension {
    pub n_vars: usize,
    pub evals: Vec<Felt>,
}

/// A multilinear extension is well formed when its table covers the whole
/// hypercube.
pub open spec fn mle_wf(m: MultilinearExtension) -> bool {
    m.evals@.len() == pow2(m.n_vars as nat)
}

impl MultilinearExtension {
    /// Wraps an evaluation table of length exactly `2^n_vars`.
    pub fn new(n_vars: usize, evals: Vec<Felt>) -> (r: Result<MultilinearExtension, Error>)
        requires
            n_vars < 32,
        ensures
            evals@.len() == pow2(n_vars as nat) ==> r == Ok::<MultilinearExtension, Error>(
                MultilinearExtension { n_vars, evals },
            ),
            evals@.len() != pow2(n_vars as nat) ==> r == Err::<MultilinearExtension, Error>(
                Error::IncorrectQuerySize { expected: n_vars },
            ),
    {
        let expected_len = pow2_exec(n_vars);
        if evals.len() != expected_len {
            return Err(Error::IncorrectQuerySize { expected: n_vars });
        }
        Ok(MultilinearExtension { n_vars, evals })
    }

    /// Evaluates the multilinear extension at the point a query was expanded
    /// from: the inner product of the evaluation table with the expansion.
    pub fn evaluate(&self, query: &MultilinearQuery) -> (r: Result<Felt, Error>)
        requires
            mle_wf(*self),
            query.expansion@.len() == pow2(query.n_vars as nat),
        ensures
            query.n_vars == self.n_vars ==> r == Ok::<Felt, Error>(
                spec_inner_product(self.evals@, query.expansion@),
            ),
            query.n_vars != self.n_vars ==> r == Err::<Felt, Error>(
                Error::IncorrectQuerySize { expected: self.n_vars },
            ),
    {
        if query.n_vars != self.n_vars {
            return Err(Error::IncorrectQuerySize { expected: self.n_vars });
        }
        Ok(crate::field::inner_product(&self.evals, &query.expansion))
    }
}

/// Computes `2^n` for `n` small enough that the result fits every machine
/// word.
pub fn pow2_exec(n: usize) -> (r: usize)
    requires
        n < 32,
    ensures
        r == pow2(n as nat),
{
    let mut r: usize = 1;
    let mut i: usize = 0;
    while i < n
        invariant
            i <= n < 32,
            r == pow2(i as nat),
        decreases n - i,
    {
        proof {
            lemma_pow2_30();
            lemma_pow2_monotone(i as nat, 30);
            assert(r <= 0x4000_0000);
        }
        r = r * 2;
        i = i + 1;
    }
    r
}

/// `2^(a + b) = 2^a * 2^b`.
pub proof fn lemma_pow2_adds(a: nat, b: nat)
    ensures
        pow2(a + b) == pow2(a) * pow2(b),
    decreases a,
{
    if a > 0 {
        lemma_pow2_adds((a - 1) as nat, b);
        assert(pow2(a + b) == 2 * pow2(((a - 1) + b) as nat));
        assert(pow2(a) == 2 * pow2((a - 1) as nat));
        assert(pow2(a + b) == pow2(a) * pow2(b)) by (nonlinear_arith)
            requires
                pow2(a + b) == 2 * (pow2((a - 1) as nat) * pow2(b)),
                pow2(a) == 2 * pow2((a - 1) as nat),
        ;
    } else {
        assert(pow2(a) == 1);
        assert(a + b == b);
    }
}

/// The value of `2^30`.
pub proof fn lemma_pow2_30()
    ensures
        pow2(30) == 0x4000_0000,
{
    assert(pow2(0) == 1);
    assert(pow2(1) == 2);
    assert(pow2(2) == 4);
    assert(pow2(3) == 8);
    assert(pow2(4) == 16);
    assert(pow2(5) == 32);
    assert(pow2(6) == 64);
    assert(pow2(7) == 128);
    assert(pow2(8) == 256);
    assert(pow2(9) == 512);
    assert(pow2(10) == 1024);
    assert(pow2(11) == 2048);
    assert(pow2(12) == 4096);
    assert(pow2(13) == 8192);
    assert(pow2(14) == 16384);
    assert(pow2(15) == 32768);
    lemma_pow2_adds(15, 15);
}

/// `2^a <= 2^b` when `a <= b`.
pub proof fn lemma_pow2_monotone(a: nat, b: nat)
    ensures
        a <= b ==> pow2(a) <= pow2(b),
    decreases b,
{
    if a < b && b > 0 {
        lemma_pow2_monotone(a, (b - 1) as nat);
    }
}

} // verus!

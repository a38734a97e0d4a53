//! A portable 128-bit binary field.
//!
//! Scalars live in GF(2^128), represented as polynomials over GF(2) modulo
//! x^128 + x^7 + x^2 + x + 1. Addition is bitwise xor (characteristic 2, so
//! subtraction coincides with addition); multiplication is carry-less
//! shift-and-add followed by reduction. The claim-reduction logic above this
//! module only needs a commutative ring of characteristic 2 with identities,
//! so the contracts here pin each operation to its defining computation.

use vstd::prelude::*;

verus! {

/// A scalar of the 128-bit binary field.
#[derive(Clone, Copy, Debug, PartialEq, Eq, Structural, Hash)]
pub struct Felt {
    pub value: u128,
}

/// Height of this field in the tower of binary field extensions:
/// GF(2^128) = GF(2^(2^7)) sits at level 7.
pub const TOWER_LEVEL: usize = 7;

/// Reduction term: x^128 = x^7 + x^2 + x + 1.
pub const REDUCTION_POLY: u128 = 0x87;

/// The additive identity.
pub open spec fn spec_zero() -> Felt {
    (Felt { value: 0 })
}

/// The multiplicative identity.
pub open spec fn spec_one() -> Felt {
    (Felt { value: 1 })
}

/// Field addition: bitwise xor of the polynomial coefficients.
pub open spec fn spec_add(a: Felt, b: Felt) -> Felt {
    (Felt { value: a.value ^ b.value })
}

/// One step of carry-less shift-and-add multiplication: add `x` into the
/// accumulator when the low bit of `y` is set, multiply `x` by the
/// indeterminate (shift, reducing modulo the field polynomial), drop the
/// consumed bit of `y`.
pub open spec fn mul_step(acc: u128, x: u128, y: u128) -> (u128, u128, u128) {
    let acc2 = if y & 1 == 1 {
        acc ^ x
    } else {
        acc
    };
    let x2 = if x >> 127 == 1 {
        (x << 1) ^ REDUCTION_POLY
    } else {
        x << 1
    };
    (acc2, x2, y >> 1)
}

/// `n` rounds of shift-and-add multiplication starting from the given state.
pub open spec fn mul_rounds(acc: u128, x: u128, y: u128, n: nat) -> u128
    decreases n,
{
    if n == 0 {
        acc
    } else {
        let (acc2, x2, y2) = mul_step(acc, x, y);
        mul_rounds(acc2, x2, y2, (n - 1) as nat)
    }
}

/// Field multiplication: 128 rounds of shift-and-add, one per coefficient
/// of the right operand.
pub open spec fn spec_mul(a: Felt, b: Felt) -> Felt {
    (Felt { value: mul_rounds(0, a.value, b.value, 128) })
}

impl Felt {
    /// Wraps a raw 128-bit coefficient vector as a field element.
    pub fn new(value: u128) -> (r: Felt)
        ensures
            r.value == value,
    {
        Felt { value }
    }

    /// The additive identity.
    pub fn zero() -> (r: Felt)
        ensures
            r == spec_zero(),
    {
        Felt { value: 0 }
    }

    /// The multiplicative identity.
    pub fn one() -> (r: Felt)
        ensures
            r == spec_one(),
    {
        Felt { value: 1 }
    }

    /// Field addition.
    pub fn add(self, other: Felt) -> (r: Felt)
        ensures
            r == spec_add(self, other),
    {
        Felt { value: self.value ^ other.value }
    }

    /// Field multiplication.
    pub fn mul(self, other: Felt) -> (r: Felt)
        ensures
            r == spec_mul(self, other),
    {
        let mut acc: u128 = 0;
        let mut x: u128 = self.value;
        let mut y: u128 = other.value;
        let mut i: usize = 0;
        while i < 128
            invariant
                i <= 128,
                mul_rounds(acc, x, y, (128 - i) as nat) == mul_rounds(
                    0,
                    self.value,
                    other.value,
                    128,
                ),
            decreases 128 - i,
        {
            let acc2 = if y & 1 == 1 {
                acc ^ x
            } else {
                acc
            };
            let x2 = if x >> 127 == 1 {
                (x << 1) ^ REDUCTION_POLY
            } else {
                x << 1
            };
            proof {
                assert(mul_rounds(acc, x, y, (128 - i) as nat) == mul_rounds(
                    acc2,
                    x2,
                    y >> 1,
                    (128 - (i + 1)) as nat,
                ));
            }
            acc = acc2;
            x = x2;
            y = y >> 1;
            i = i + 1;
        }
        Felt { value: acc }
    }
}

/// Linear extrapolation through the values `e1` at 0 and `e2` at 1, taken at
/// the coordinate `t`: `e1 + t * (e2 - e1)`, subtraction being addition in
/// characteristic 2.
pub open spec fn spec_extrapolate(e1: Felt, e2: Felt, t: Felt) -> Felt {
    spec_add(e1, spec_mul(t, spec_add(e2, e1)))
}

/// Evaluates the line through `(0, e1)` and `(1, e2)` at `t`.
pub fn extrapolate_line(e1: Felt, e2: Felt, t: Felt) -> (r: Felt)
    ensures
        r == spec_extrapolate(e1, e2, t),
{
    e1.add(t.mul(e2.add(e1)))
}

/// Inner product of two equally long scalar sequences.
pub open spec fn spec_inner_product(a: Seq<Felt>, b: Seq<Felt>) -> Felt
    decreases a.len(),
{
    if a.len() == 0 || b.len() == 0 {
        spec_zero()
    } else {
        spec_add(spec_mul(a[0], b[0]), spec_inner_product(a.drop_first(), b.drop_first()))
    }
}

/// Computes the inner product of two equally long scalar vectors.
pub fn inner_product(a: &Vec<Felt>, b: &Vec<Felt>) -> (r: Felt)
    requires
        a@.len() == b@.len(),
    ensures
        r == spec_inner_product(a@, b@),
{
    let n = a.len();
    let mut acc = Felt::zero();
    let mut i: usize = n;
    while i > 0
        invariant
            i <= n,
            n == a@.len() == b@.len(),
            acc == spec_inner_product(a@.skip(i as int), b@.skip(i as int)),
        decreases i,
    {
        i = i - 1;
        acc = a[i].mul(b[i]).add(acc);
        proof {
            assert(a@.skip(i as int).drop_first() =~= a@.skip(i + 1));
            assert(b@.skip(i as int).drop_first() =~= b@.skip(i + 1));
        }
    }
    proof {
        assert(a@.skip(0) =~= a@);
        assert(b@.skip(0) =~= b@);
    }
    acc
}

/// Compares two scalars.
pub fn felt_equal(a: Felt, b: Felt) -> (r: bool)
    ensures
        r == (a == b),
{
    a.value == b.value
}

/// Compares two scalar vectors by contents.
pub fn vecs_equal(a: &Vec<Felt>, b: &Vec<Felt>) -> (r: bool)
    ensures
        r == (a@ == b@),
{
    if a.len() != b.len() {
        proof {
            assert(a@.len() != b@.len());
        }
        return false;
    }
    let mut i: usize = 0;
    while i < a.len()
        invariant
            i <= a@.len(),
            a@.len() == b@.len(),
            forall|j: int| 0 <= j < i ==> a@[j] == b@[j],
        decreases a@.len() - i,
    {
        if a[i].value != b[i].value {
            return false;
        }
        i = i + 1;
    }
    proof {
        assert(a@ =~= b@);
    }
    true
}

} // verus!

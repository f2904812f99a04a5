//! Exact rational arithmetic for the objective value: a ghost model of the
//! value a `num::BigRational` holds, trusted wrappers for the operations the
//! calculator needs, and the congruence lemmas the proofs use.

use vstd::prelude::*;

verus! {

/// The mathematical value of an exact rational: numerator over denominator.
pub ghost struct Rat {
    pub n: int,
    pub d: int,
}

/// A well-formed rational value keeps its denominator positive.
pub open spec fn rat_wf(a: Rat) -> bool {
    a.d > 0
}

/// Two rational values are equivalent when they stand for the same number.
pub open spec fn rat_eqv(a: Rat, b: Rat) -> bool {
    a.n * b.d == b.n * a.d
}

pub open spec fn rat_plus(a: Rat, b: Rat) -> Rat {
    Rat { n: a.n * b.d + b.n * a.d, d: a.d * b.d }
}

pub open spec fn rat_minus(a: Rat, b: Rat) -> Rat {
    Rat { n: a.n * b.d - b.n * a.d, d: a.d * b.d }
}

pub open spec fn rat_times(a: Rat, b: Rat) -> Rat {
    Rat { n: a.n * b.n, d: a.d * b.d }
}

/// `a` is strictly below `b`; meaningful for well-formed values.
pub open spec fn rat_lt(a: Rat, b: Rat) -> bool {
    a.n * b.d < b.n * a.d
}

/// The rational value of an integer.
pub open spec fn rat_of_int(x: int) -> Rat {
    Rat { n: x, d: 1 }
}

/// Relies on num's derived `Clone` for `Ratio`: nothing is promised of
/// the copy for an arbitrary component type.
pub assume_specification<T: core::clone::Clone>[ <num::rational::Ratio<T> as core::clone::Clone>::clone ](
    v: &num::rational::Ratio<T>,
) -> num::rational::Ratio<T>;

/// The fraction a `BigRational` holds. For every value that num's own
/// constructors and operations return it is the reduced fraction, with a
/// positive denominator; only a value built raw around the constructors
/// (a zero denominator) has a model that is not well-formed, and the
/// operation wrappers require well-formed operands.
pub uninterp spec fn rat_model(r: num::BigRational) -> Rat;

/// Relies on num's `Add` on `BigRational`: on operands with positive
/// denominators it returns, without panicking, the reduced exact sum.
#[verifier::external_body]
pub fn rat_sum(a: &num::BigRational, b: &num::BigRational) -> (r: num::BigRational)
    requires
        rat_wf(rat_model(*a)),
        rat_wf(rat_model(*b)),
    ensures
        rat_wf(rat_model(r)),
        rat_eqv(rat_model(r), rat_plus(rat_model(*a), rat_model(*b))),
{
    a + b
}

/// Relies on num's `Sub` on `BigRational`: on operands with positive
/// denominators it returns, without panicking, the reduced exact
/// difference.
#[verifier::external_body]
pub fn rat_diff(a: &num::BigRational, b: &num::BigRational) -> (r: num::BigRational)
    requires
        rat_wf(rat_model(*a)),
        rat_wf(rat_model(*b)),
    ensures
        rat_wf(rat_model(r)),
        rat_eqv(rat_model(r), rat_minus(rat_model(*a), rat_model(*b))),
{
    a - b
}

/// Relies on num's `Mul` on `BigRational`: on operands with positive
/// denominators it returns, without panicking, the reduced exact product.
#[verifier::external_body]
pub fn rat_prod(a: &num::BigRational, b: &num::BigRational) -> (r: num::BigRational)
    requires
        rat_wf(rat_model(*a)),
        rat_wf(rat_model(*b)),
    ensures
        rat_wf(rat_model(r)),
        rat_eqv(rat_model(r), rat_times(rat_model(*a), rat_model(*b))),
{
    a * b
}

/// Relies on num's `BigRational::from_integer` and primitive-types'
/// big-endian bytes of a `U256`: the value is the unsigned integer the
/// `U256` holds, over one.
#[verifier::external_body]
pub fn rat_from_u256(v: &primitive_types::U256) -> (r: num::BigRational)
    ensures
        rat_model(r) == rat_of_int(crate::numeric::u256_of(*v) as int),
{
    let mut buf = [0u8; 32];
    v.to_big_endian(&mut buf);
    let n = num::BigInt::from_bytes_be(num::bigint::Sign::Plus, &buf);
    num::BigRational::from_integer(n)
}

/// Equivalence of rational values is transitive through a value whose
/// denominator is not zero.
pub proof fn lemma_eqv_trans(a: Rat, b: Rat, c: Rat)
    requires
        rat_eqv(a, b),
        rat_eqv(b, c),
        b.d != 0,
    ensures
        rat_eqv(a, c),
{
    assert(a.n * c.d == c.n * a.d) by (nonlinear_arith)
        requires
            a.n * b.d == b.n * a.d,
            b.n * c.d == c.n * b.d,
            b.d != 0,
    ;
}

/// Sums, differences and products of well-formed rationals are well-formed.
pub proof fn lemma_wf_ops(a: Rat, b: Rat)
    requires
        rat_wf(a),
        rat_wf(b),
    ensures
        rat_wf(rat_plus(a, b)),
        rat_wf(rat_minus(a, b)),
        rat_wf(rat_times(a, b)),
{
    assert(a.d * b.d > 0) by (nonlinear_arith)
        requires
            a.d > 0,
            b.d > 0,
    ;
}

/// Subtraction respects equivalence in both arguments.
pub proof fn lemma_minus_congruence(a: Rat, a2: Rat, b: Rat, b2: Rat)
    requires
        rat_eqv(a, a2),
        rat_eqv(b, b2),
    ensures
        rat_eqv(rat_minus(a, b), rat_minus(a2, b2)),
{
    let l = rat_minus(a, b);
    let r = rat_minus(a2, b2);
    assert(l.n * r.d == (a.n * b.d) * (a2.d * b2.d) - (b.n * a.d) * (a2.d * b2.d))
        by (nonlinear_arith)
        requires
            l.n == a.n * b.d - b.n * a.d,
            r.d == a2.d * b2.d,
    ;
    assert((a.n * b.d) * (a2.d * b2.d) == (a.n * a2.d) * (b.d * b2.d)) by (nonlinear_arith);
    assert((a.n * a2.d) * (b.d * b2.d) == (a2.n * a.d) * (b.d * b2.d));
    assert((a2.n * a.d) * (b.d * b2.d) == (a2.n * b2.d) * (a.d * b.d)) by (nonlinear_arith);
    assert((b.n * a.d) * (a2.d * b2.d) == (b.n * b2.d) * (a.d * a2.d)) by (nonlinear_arith);
    assert((b.n * b2.d) * (a.d * a2.d) == (b2.n * b.d) * (a.d * a2.d));
    assert((b2.n * b.d) * (a.d * a2.d) == (b2.n * a2.d) * (a.d * b.d)) by (nonlinear_arith);
    assert(r.n * l.d == (a2.n * b2.d) * (a.d * b.d) - (b2.n * a2.d) * (a.d * b.d))
        by (nonlinear_arith)
        requires
            r.n == a2.n * b2.d - b2.n * a2.d,
            l.d == a.d * b.d,
    ;
}

} // verus!

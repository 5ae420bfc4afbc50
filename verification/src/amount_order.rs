//! Comparison of amounts, by `rust_decimal`'s total order on values.

use vstd::prelude::*;
use crate::amount::{Amount, MAX_MANTISSA, MAX_SCALE};

verus! {

/// Compares two amounts by value with `rust_decimal::Decimal::cmp`, which
/// orders decimals by the number they stand for (scale does not matter):
/// the result is -1, 0 or 1 as `a` is less than, equal to or greater than `b`.
#[verifier::external_body]
pub(crate) fn compare_amounts(a: &Amount, b: &Amount) -> (r: i8)
    requires
        a.spec_scale() <= MAX_SCALE,
        b.spec_scale() <= MAX_SCALE,
        -MAX_MANTISSA <= a.spec_mantissa() <= MAX_MANTISSA,
        -MAX_MANTISSA <= b.spec_mantissa() <= MAX_MANTISSA,
    ensures
        (r == -1) == (a.key() < b.key()),
        (r == 0) == (a.key() == b.key()),
        (r == 1) == (a.key() > b.key()),
{
    let x = rust_decimal::Decimal::from_i128_with_scale(a.mantissa(), a.scale());
    let y = rust_decimal::Decimal::from_i128_with_scale(b.mantissa(), b.scale());
    match x.cmp(&y) {
        std::cmp::Ordering::Less => -1,
        std::cmp::Ordering::Equal => 0,
        std::cmp::Ordering::Greater => 1,
    }
}

/// `a` is numerically less than `b`.
pub fn amount_lt(a: &Amount, b: &Amount) -> (r: bool)
    ensures
        r == (a.key() < b.key()),
{
    proof {
        use_type_invariant(a);
        use_type_invariant(b);
    }
    compare_amounts(a, b) == -1
}

/// `a` and `b` stand for the same number.
pub fn amount_eq(a: &Amount, b: &Amount) -> (r: bool)
    ensures
        r == (a.key() == b.key()),
{
    proof {
        use_type_invariant(a);
        use_type_invariant(b);
    }
    compare_amounts(a, b) == 0
}

/// `Ord::min` of two decimals: `a` unless `a` is greater than `b`.
pub fn amount_min(a: Amount, b: Amount) -> (r: Amount)
    ensures
        r == (if a.key() > b.key() { b } else { a }),
{
    proof {
        use_type_invariant(&a);
        use_type_invariant(&b);
    }
    if compare_amounts(&a, &b) == 1 {
        b
    } else {
        a
    }
}

} // verus!

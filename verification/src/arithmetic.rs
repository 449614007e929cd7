//! Unsigned 64-bit arithmetic helpers and the calculator entry points that
//! expose them.
use vstd::prelude::*;

verus! {

/// Sum of two numbers; the sum must fit in a `u64`.
pub fn add(left: u64, right: u64) -> (r: u64)
    requires
        left + right <= u64::MAX,
    ensures
        r == left + right,
{
    left + right
}

/// Product of two numbers; the product must fit in a `u64`.
pub fn multiply(left: u64, right: u64) -> (r: u64)
    requires
        left * right <= u64::MAX,
    ensures
        r == left * right,
{
    left * right
}

/// Difference of two numbers; `right` must not exceed `left`.
pub fn subtract(left: u64, right: u64) -> (r: u64)
    requires
        right <= left,
    ensures
        r == left - right,
{
    left - right
}

/// Quotient of two numbers, rounded toward zero; division by zero is refused.
pub fn divide(left: u64, right: u64) -> (r: u64)
    requires
        right != 0,
    ensures
        r == left / right,
{
    left / right
}

/// Calculator entry point for [`add`].
pub fn calculate_add(left: u64, right: u64) -> (r: u64)
    requires
        left + right <= u64::MAX,
    ensures
        r == left + right,
{
    self::add(left, right)
}

/// Calculator entry point for [`multiply`].
pub fn calculate_multiply(left: u64, right: u64) -> (r: u64)
    requires
        left * right <= u64::MAX,
    ensures
        r == left * right,
{
    multiply(left, right)
}

/// Calculator entry point for [`subtract`].
pub fn calculate_subtract(left: u64, right: u64) -> (r: u64)
    requires
        right <= left,
    ensures
        r == left - right,
{
    subtract(left, right)
}

/// Calculator entry point for [`divide`].
pub fn calculate_divide(left: u64, right: u64) -> (r: u64)
    requires
        right != 0,
    ensures
        r == left / right,
{
    divide(left, right)
}

} // verus!

//! The small arithmetic functions that the sample modules export.
use vstd::prelude::*;

verus! {

/// Sum of two integers.
pub fn add(x: i32, y: i32) -> (r: i32)
    requires
        i32::MIN <= x + y <= i32::MAX,
    ensures
        r == x + y,
{
    x + y
}

/// Difference of two integers; compiled without external visibility.
pub fn sub(x: i32, y: i32) -> (r: i32)
    requires
        i32::MIN <= x - y <= i32::MAX,
    ensures
        r == x - y,
{
    x - y
}

/// Successor of an integer.
pub fn inc(x: i32) -> (r: i32)
    requires
        x < i32::MAX,
    ensures
        r == x + 1,
{
    x + 1
}

/// Takes nothing, returns nothing.
pub fn show() {
}

} // verus!

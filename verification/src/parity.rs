use is_odd::IsOdd;
use vstd::prelude::*;

verus! {

/// An integer is odd when division by two leaves a remainder.
pub open spec fn odd(n: int) -> bool {
    n % 2 != 0
}

/// Calls `is_odd::IsOdd::is_odd` on an `i64`.
///
/// Trusted: the outside method tests the lowest bit of the two's-complement
/// value, which is set exactly for the odd integers, negative ones included.
#[verifier::external_body]
pub(crate) fn is_odd(n: i64) -> (r: bool)
    ensures
        r == odd(n as int),
{
    n.is_odd()
}

} // verus!

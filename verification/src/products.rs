use vstd::prelude::*;

verus! {

/// The product of a sequence of integers; 1 for the empty sequence.
pub open spec fn product(factors: Seq<u64>) -> nat
    decreases factors.len(),
{
    if factors.len() == 0 {
        1
    } else {
        product(factors.drop_last()) * (factors.last() as nat)
    }
}

/// `n!`, the product of the integers from 1 up to `n`.
pub open spec fn factorial(n: nat) -> nat
    decreases n,
{
    if n == 0 {
        1
    } else {
        n * factorial((n - 1) as nat)
    }
}

/// Multiplying `n!` by the integers that follow `n`, one after the other,
/// gives the factorial of the last of them.
pub proof fn lemma_factorial_run(n: nat, factors: Seq<u64>)
    requires
        forall|j: int| 0 <= j < factors.len() ==> (#[trigger] factors[j]) == n + 1 + j,
    ensures
        factorial(n) * product(factors) == factorial(n + factors.len()),
    decreases factors.len(),
{
    if factors.len() > 0 {
        let shorter = factors.drop_last();
        lemma_factorial_run(n, shorter);
        let top = n + factors.len();
        let f = factors.last() as nat;
        assert(f == top);
        assert(factorial(top) == top * factorial((top - 1) as nat));
        assert(product(factors) == product(shorter) * f);
        assert(factorial(n) * (product(shorter) * f) == f * (factorial(n) * product(shorter)))
            by (nonlinear_arith);
    } else {
        assert(product(factors) == 1);
    }
}

} // verus!

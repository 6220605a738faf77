use vstd::prelude::*;

verus! {

/// The product of the whole numbers from one to `n`; one for `n == 0`.
pub open spec fn factorial_of(n: nat) -> nat
    decreases n,
{
    if n == 0 {
        1
    } else {
        n * factorial_of((n - 1) as nat)
    }
}

/// The factorial never shrinks as its argument grows.
pub proof fn lemma_factorial_grows(m: nat, n: nat)
    requires
        m <= n,
    ensures
        1 <= factorial_of(m) <= factorial_of(n),
    decreases n,
{
    if n == 0 {
    } else if m == n {
        lemma_factorial_grows((m - 1) as nat, (m - 1) as nat);
        assert(factorial_of((m - 1) as nat) <= m * factorial_of((m - 1) as nat)) by (nonlinear_arith)
            requires
                m >= 1,
        ;
    } else {
        lemma_factorial_grows(m, (n - 1) as nat);
        assert(factorial_of((n - 1) as nat) <= n * factorial_of((n - 1) as nat)) by (nonlinear_arith)
            requires
                n >= 1,
        ;
    }
}

/// The factorial of twenty is the largest that sixty-four bits hold.
pub proof fn lemma_factorial_fits(n: nat)
    ensures
        factorial_of(n) <= u64::MAX <==> n <= 20,
{
    reveal_with_fuel(factorial_of, 22);
    assert(factorial_of(20) == 2432902008176640000);
    assert(factorial_of(21) == 51090942171709440000);
    if n <= 20 {
        lemma_factorial_grows(n, 20);
    } else {
        lemma_factorial_grows(21, n);
    }
}

/// The factorial of `n`, for every `n` whose factorial sixty-four bits hold.
pub fn factorial(n: u64) -> (product: u64)
    requires
        n <= 20,
    ensures
        product == factorial_of(n as nat),
{
    let mut product: u64 = 1;
    let mut k: u64 = 0;
    while k < n
        invariant
            k <= n <= 20,
            product == factorial_of(k as nat),
        decreases n - k,
    {
        k += 1;
        proof {
            lemma_factorial_fits(k as nat);
            assert(factorial_of(k as nat) == k * factorial_of((k - 1) as nat));
            assert(product * k == k * product) by (nonlinear_arith);
        }
        product = product * k;
    }
    product
}

} // verus!

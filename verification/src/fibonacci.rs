use vstd::prelude::*;

verus! {

/// The Fibonacci sequence: `fib(0) = 0`, `fib(1) = 1`, `fib(n) = fib(n - 2) + fib(n - 1)`.
pub open spec fn fib(n: nat) -> nat
    decreases n,
{
    if n == 0 {
        0
    } else if n == 1 {
        1
    } else {
        fib((n - 2) as nat) + fib((n - 1) as nat)
    }
}

/// The sequence never decreases.
pub proof fn lemma_fib_monotonic(i: nat, j: nat)
    requires
        i <= j,
    ensures
        fib(i) <= fib(j),
    decreases j - i,
{
    if j < 2 {
    } else if i == j {
    } else {
        lemma_fib_monotonic(i, (j - 1) as nat);
        assert(fib(j) == fib((j - 2) as nat) + fib((j - 1) as nat));
    }
}

/// From the sixth term on, every term exceeds its index.
proof fn lemma_fib_exceeds_index(n: nat)
    requires
        n >= 6,
    ensures
        fib(n) >= n + 1,
    decreases n,
{
    reveal_with_fuel(fib, 8);
    if n >= 8 {
        lemma_fib_exceeds_index((n - 1) as nat);
        lemma_fib_exceeds_index((n - 2) as nat);
    }
}

/// Computes the `n`-th Fibonacci number iteratively.
/// Every intermediate value is at most the result, so only a result
/// that does not fit in a `u32` is excluded.
pub fn fibonacci(n: u32) -> (result: u32)
    requires
        fib(n as nat) <= u32::MAX,
    ensures
        result == fib(n as nat),
{
    if n == 0 {
        return 0;
    }
    proof {
        if n >= 6 {
            lemma_fib_exceeds_index(n as nat);
        }
    }
    let mut prev: u32 = 0;
    let mut curr: u32 = 1;
    let mut i: u32 = 2;
    while i <= n
        invariant
            2 <= i <= n + 1,
            1 <= n < u32::MAX,
            prev == fib((i - 2) as nat),
            curr == fib((i - 1) as nat),
            fib(n as nat) <= u32::MAX,
        decreases n + 1 - i,
    {
        proof {
            lemma_fib_monotonic(i as nat, n as nat);
        }
        assert(fib(i as nat) == fib((i - 2) as nat) + fib((i - 1) as nat));
        let next = prev + curr;
        prev = curr;
        curr = next;
        i += 1;
    }
    curr
}

} // verus!

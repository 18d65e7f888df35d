//! Fibonacci numbers, computed recursively and iteratively.

use vstd::prelude::*;

verus! {

/// The mathematical Fibonacci sequence: 0, 1, 1, 2, 3, 5, ...
pub open spec fn fib_spec(n: nat) -> nat
    decreases n,
{
    if n < 2 {
        n
    } else {
        fib_spec((n - 1) as nat) + fib_spec((n - 2) as nat)
    }
}

/// The sequence is monotone, so a bound on `fib_spec(n)` bounds every
/// earlier member as well.
proof fn lemma_fib_monotone(i: nat, j: nat)
    requires
        i <= j,
    ensures
        fib_spec(i) <= fib_spec(j),
    decreases j - i,
{
    if i < j {
        if j < 2 {
        } else {
            lemma_fib_monotone(i, (j - 1) as nat);
        }
    }
}

/// From the sixth member on, the sequence outgrows its index, so a bound
/// on `fib_spec(n)` also bounds `n` itself.
proof fn lemma_fib_exceeds_index(n: nat)
    requires
        n >= 6,
    ensures
        fib_spec(n) > n,
    decreases n,
{
    if n > 6 {
        lemma_fib_exceeds_index((n - 1) as nat);
        lemma_fib_monotone(1, (n - 2) as nat);
    } else {
        reveal_with_fuel(fib_spec, 8);
    }
}

/// The straightforward recursive computation.
pub fn fib(n: u32) -> (r: u32)
    requires
        fib_spec(n as nat) <= u32::MAX,
    ensures
        r == fib_spec(n as nat),
    decreases n,
{
    if n < 2 {
        n
    } else {
        proof {
            lemma_fib_monotone((n - 1) as nat, n as nat);
            lemma_fib_monotone((n - 2) as nat, n as nat);
        }
        fib(n - 1) + fib(n - 2)
    }
}

/// The same sequence computed with a loop over a sliding window.
pub fn iterative_fib(n: u32) -> (r: u32)
    requires
        fib_spec(n as nat) <= u32::MAX,
    ensures
        r == fib_spec(n as nat),
{
    let mut first: u32;
    let mut second: u32 = 1;
    let mut third: u32 = 0;
    let mut index: u32 = 1;

    while index <= n
        invariant
            1 <= index,
            index <= n + 1,
            fib_spec(n as nat) <= u32::MAX,
            third == fib_spec((index - 1) as nat),
            index >= 2 ==> second == fib_spec((index - 2) as nat),
            index == 1 ==> second == 1,
        decreases n - index + 1,
    {
        proof {
            lemma_fib_monotone(index as nat, n as nat);
            if index == u32::MAX {
                lemma_fib_exceeds_index(n as nat);
            }
        }
        first = second;
        second = third;
        third = first + second;

        index = index + 1;
    }

    third
}

} // verus!

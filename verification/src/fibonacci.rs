//! Iterative Fibonacci numbers.

use vstd::prelude::*;

verus! {

/// The Fibonacci sequence: 0, 1, 1, 2, 3, 5, ...
pub open spec fn fibonacci(n: nat) -> nat
    decreases n,
{
    if n < 2 {
        n
    } else {
        fibonacci((n - 1) as nat) + fibonacci((n - 2) as nat)
    }
}

/// What `fib` returns: `n` itself below 2, and from 2 on the Fibonacci
/// number one place further along, since the loop takes `n` steps from
/// the pair (0, 1).
pub open spec fn fib_value(n: nat) -> nat {
    if n < 2 {
        n
    } else {
        fibonacci(n + 1)
    }
}

/// The sequence never decreases.
pub proof fn lemma_fibonacci_monotonic(i: nat, j: nat)
    requires
        i <= j,
    ensures
        fibonacci(i) <= fibonacci(j),
    decreases j,
{
    if i < j {
        if j >= 2 {
            lemma_fibonacci_monotonic(i, (j - 1) as nat);
        }
    }
}

/// The largest value that `fib` can hold in 64 bits is the one at 92.
pub proof fn lemma_fibonacci_93()
    ensures
        fibonacci(93) == 12200160415121876738,
{
    reveal_with_fuel(fibonacci, 9);
    assert(fibonacci(8) == 21 && fibonacci(9) == 34);
    assert(fibonacci(16) == 987 && fibonacci(17) == 1597);
    assert(fibonacci(24) == 46368 && fibonacci(25) == 75025);
    assert(fibonacci(32) == 2178309 && fibonacci(33) == 3524578);
    assert(fibonacci(40) == 102334155 && fibonacci(41) == 165580141);
    assert(fibonacci(48) == 4807526976 && fibonacci(49) == 7778742049);
    assert(fibonacci(56) == 225851433717 && fibonacci(57) == 365435296162);
    assert(fibonacci(64) == 10610209857723 && fibonacci(65) == 17167680177565);
    assert(fibonacci(72) == 498454011879264 && fibonacci(73) == 806515533049393);
    assert(fibonacci(80) == 23416728348467685 && fibonacci(81) == 37889062373143906);
    assert(fibonacci(88) == 1100087778366101931 && fibonacci(89) == 1779979416004714189);
    assert(fibonacci(93) == 12200160415121876738);
}

/// Steps `n` times from the pair (0, 1) and returns the larger member.
pub fn fib(n: u64) -> (result: u64)
    requires
        n <= 92,
    ensures
        result == fib_value(n as nat),
{
    if n < 2 {
        return n;
    }
    let mut a: u64 = 0;
    let mut b: u64 = 1;
    let mut i: u64 = 0;
    while i < n
        invariant
            i <= n <= 92,
            a == fibonacci(i as nat),
            b == fibonacci((i + 1) as nat),
        decreases n - i,
    {
        proof {
            lemma_fibonacci_93();
            lemma_fibonacci_monotonic((i + 2) as nat, 93);
        }
        let c: u64 = a + b;
        a = b;
        b = c;
        i = i + 1;
    }
    b
}

} // verus!

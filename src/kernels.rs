//! Two small recursive kernels used to measure call overhead: the naive
//! Fibonacci recursion and a deep recursion that carries many arguments.
use vstd::prelude::*;

verus! {

pub open spec fn fib_spec(n: int) -> int
    decreases n,
{
    if n < 2 {
        n
    } else {
        fib_spec(n - 1) + fib_spec(n - 2)
    }
}

proof fn lemma_fib_nonneg(n: int)
    requires
        n >= 0,
    ensures
        fib_spec(n) >= 0,
    decreases n,
{
    if n >= 2 {
        lemma_fib_nonneg(n - 1);
        lemma_fib_nonneg(n - 2);
    }
}

/// The `n`-th Fibonacci number by the doubly recursive definition; `n`
/// itself below 2.
pub fn fib(n: i64) -> (r: i64)
    requires
        fib_spec(n as int) <= i64::MAX,
    ensures
        r == fib_spec(n as int),
    decreases n,
{
    if n < 2 {
        return n;
    }
    proof {
        lemma_fib_nonneg(n - 1);
        lemma_fib_nonneg(n - 2);
    }
    fib(n - 1) + fib(n - 2)
}

/// Whether `x` can be stepped up once per level of a descent from `d` to
/// `limit`.
pub open spec fn climbs(x: i64, d: i64, limit: i64) -> bool {
    d < limit ==> x + (limit - d) <= i64::MAX
}

/// Recurses from depth `d` up to `limit`, stepping every carried argument
/// up by one per level, and gives the depth reached.
pub fn consume_stack(limit: i64, d: i64, a: i64, b: i64, c: i64, e: i64, f: i64, g: i64, h: i64, i: i64) -> (r: i64)
    requires
        climbs(a, d, limit),
        climbs(b, d, limit),
        climbs(c, d, limit),
        climbs(e, d, limit),
        climbs(f, d, limit),
        climbs(g, d, limit),
        climbs(h, d, limit),
        climbs(i, d, limit),
    ensures
        r == (if d >= limit { d } else { limit }),
    decreases limit - d,
{
    if d >= limit {
        return d;
    }
    consume_stack(limit, d + 1, a + 1, b + 1, c + 1, e + 1, f + 1, g + 1, h + 1, i + 1)
}

} // verus!

//! Sums over index ranges, whole and split among threads.

use vstd::prelude::*;

verus! {

/// `f(0) + f(1) + ... + f(n - 1)`.
pub open spec fn total(f: spec_fn(int) -> int, n: int) -> int
    decreases n,
{
    if n <= 0 {
        0
    } else {
        total(f, n - 1) + f(n - 1)
    }
}

/// The part of the same sum over the indices that leave `start` when divided by
/// `step`.
pub open spec fn strided(f: spec_fn(int) -> int, start: int, step: int, n: int) -> int
    decreases n,
{
    if n <= 0 {
        0
    } else {
        strided(f, start, step, n - 1) + (if (n - 1) % step == start {
            f(n - 1)
        } else {
            0
        })
    }
}

/// Indices of another residue add nothing.
pub proof fn strided_skips(f: spec_fn(int) -> int, start: int, step: int, a: int, b: int)
    requires
        0 <= a <= b,
        forall|i: int| a <= i < b ==> #[trigger] (i % step) != start,
    ensures
        strided(f, start, step, b) == strided(f, start, step, a),
    decreases b - a,
{
    if a < b {
        assert((b - 1) % step != start);
        strided_skips(f, start, step, a, b - 1);
    }
}

/// A strided sum of values between zero and `bound` is between zero and `bound`
/// times the number of indices.
pub proof fn strided_bounds(f: spec_fn(int) -> int, start: int, step: int, n: int, bound: int)
    requires
        0 <= n,
        0 <= bound,
        forall|i: int| 0 <= i < n ==> 0 <= #[trigger] f(i) <= bound,
    ensures
        0 <= strided(f, start, step, n) <= bound * n,
    decreases n,
{
    if n > 0 {
        strided_bounds(f, start, step, n - 1, bound);
        assert(bound * n == bound * (n - 1) + bound) by (nonlinear_arith);
    }
}

/// A longer strided sum of values that are not negative is not smaller.
pub proof fn strided_grows(f: spec_fn(int) -> int, start: int, step: int, a: int, b: int)
    requires
        0 <= a <= b,
        forall|i: int| 0 <= i < b ==> 0 <= #[trigger] f(i),
    ensures
        strided(f, start, step, a) <= strided(f, start, step, b),
    decreases b - a,
{
    if a < b {
        strided_grows(f, start, step, a, b - 1);
    }
}

/// The same for whole sums.
pub proof fn total_bounds(f: spec_fn(int) -> int, n: int, bound: int)
    requires
        0 <= n,
        0 <= bound,
        forall|i: int| 0 <= i < n ==> 0 <= #[trigger] f(i) <= bound,
    ensures
        0 <= total(f, n) <= bound * n,
    decreases n,
{
    if n > 0 {
        total_bounds(f, n - 1, bound);
        assert(bound * n == bound * (n - 1) + bound) by (nonlinear_arith);
    }
}

/// A longer sum of values that are not negative is not smaller.
pub proof fn total_grows(f: spec_fn(int) -> int, a: int, b: int)
    requires
        0 <= a <= b,
        forall|i: int| 0 <= i < b ==> 0 <= #[trigger] f(i),
    ensures
        total(f, a) <= total(f, b),
    decreases b - a,
{
    if a < b {
        total_grows(f, a, b - 1);
    }
}

/// Sums of equal values are equal.
pub proof fn total_of_equal(f: spec_fn(int) -> int, g: spec_fn(int) -> int, n: int)
    requires
        forall|i: int| 0 <= i < n ==> #[trigger] f(i) == g(i),
    ensures
        total(f, n) == total(g, n),
    decreases n,
{
    if n > 0 {
        total_of_equal(f, g, n - 1);
    }
}

/// Raising one summand raises the sum by as much.
proof fn total_of_raised(
    f: spec_fn(int) -> int,
    g: spec_fn(int) -> int,
    at: int,
    by: int,
    n: int,
)
    requires
        0 <= at,
        forall|i: int| 0 <= i < n ==> #[trigger] g(i) == f(i) + (if i == at {
            by
        } else {
            0
        }),
    ensures
        total(g, n) == total(f, n) + (if at < n {
            by
        } else {
            0
        }),
    decreases n,
{
    if n > 0 {
        total_of_raised(f, g, at, by, n - 1);
    }
}

/// The sum of each thread's part.
pub open spec fn thread_part(f: spec_fn(int) -> int, step: int, n: int) -> spec_fn(int) -> int {
    |t: int| strided(f, t, step, n)
}

/// Threads that take every `step`-th index, one for each residue, together add up
/// every index exactly once.
pub proof fn threads_cover(f: spec_fn(int) -> int, step: int, n: int)
    requires
        step > 0,
        n >= 0,
    ensures
        total(thread_part(f, step, n), step) == total(f, n),
    decreases n,
{
    if n == 0 {
        assert forall|t: int| 0 <= t < step implies #[trigger] thread_part(f, step, 0)(t) == 0 by {}
        total_bounds(thread_part(f, step, 0), step, 0);
    } else {
        threads_cover(f, step, n - 1);
        let at = (n - 1) % step;
        assert(0 <= at < step) by (nonlinear_arith)
            requires
                at == (n - 1) % step,
                step > 0,
        ;
        total_of_raised(thread_part(f, step, n - 1), thread_part(f, step, n), at, f(n - 1), step);
    }
}

} // verus!

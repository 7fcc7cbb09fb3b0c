use vstd::prelude::*;

verus! {

/// The number of completions that meets quorum among `n` endpoints:
/// one more than two thirds of `n - 1`, rounded down (2f + 1 with f = (n - 1) / 3).
pub open spec fn spec_threshold(n: nat) -> nat
    recommends
        n >= 1,
{
    (2 * (n - 1) / 3 + 1) as nat
}

/// Quorum threshold for `n` endpoints, each endpoint counting one vote.
pub fn quorum_threshold(n: usize) -> (r: usize)
    requires
        n >= 1,
    ensures
        r == spec_threshold(n as nat),
        1 <= r <= n,
{
    // 2(n - 1)/3 computed without forming 2(n - 1), which could overflow
    let t: usize = (n - 1) / 3 * 2 + ((n - 1) % 3) * 2 / 3;
    assert(t == 2 * (n - 1) / 3) by (nonlinear_arith)
        requires
            t == (n - 1) / 3 * 2 + ((n - 1) % 3) * 2 / 3,
            n >= 1,
    ;
    t + 1
}

/// Whether `count` completions out of `n` endpoints meet quorum, that is,
/// whether `count` is strictly greater than 2(n - 1)/3.
pub fn quorum_reached(count: usize, n: usize) -> (r: bool)
    requires
        n >= 1,
    ensures
        r == (3 * count > 2 * (n - 1)),
        r == (count >= spec_threshold(n as nat)),
{
    let t = quorum_threshold(n);
    proof {
        threshold_is_least_above_two_thirds(n as nat, count as nat);
    }
    count >= t
}

/// The threshold is the least count that is strictly greater than two thirds
/// of `n - 1`: a count meets it exactly when three times the count exceeds
/// twice `n - 1`.
pub proof fn threshold_is_least_above_two_thirds(n: nat, count: nat)
    requires
        n >= 1,
    ensures
        3 * spec_threshold(n) > 2 * (n - 1),
        3 * (spec_threshold(n) - 1) <= 2 * (n - 1),
        count >= spec_threshold(n) <==> 3 * count > 2 * (n - 1),
{
    let x: int = 2 * (n - 1);
    let q: int = x / 3;
    assert(3 * q <= x && x < 3 * q + 3) by (nonlinear_arith)
        requires
            q == x / 3,
            x >= 0,
    ;
    assert(count >= q + 1 <==> 3 * count > x) by (nonlinear_arith)
        requires
            3 * q <= x,
            x < 3 * q + 3,
    ;
}

} // verus!

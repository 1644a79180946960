//! Fixed-point plane geometry.
//!
//! One world unit is `SCALE` micro-units; all coordinates, speeds and radii
//! are `i64` counts of micro-units.  The defaults the engine uses (an axis
//! epsilon of 1e-4 units, trigger radii of 1e-4 and 50 units, 1000x1000
//! world bounds) are all exact in this representation.

use vstd::prelude::*;

verus! {

/// Micro-units per world unit.
pub const SCALE: i64 = 1_000_000;

/// Largest coordinate value a world bound may take (1000 world units).
pub const MAX_COORD: i64 = 1_000_000_000;

/// Largest speed a unit type may declare, in micro-units per second.
pub const MAX_SPEED: i64 = 1_000_000_000;

/// The engine advances in fixed ticks of 1/60 s.
pub const TICKS_PER_SECOND: i64 = 60;

/// Per-axis epsilon under which a mover counts as arrived (1e-4 units).
pub const AXIS_EPSILON: i64 = 100;

/// Floor of the square root of `n`.
pub open spec fn sqrt_floor(n: nat) -> nat
    decreases n,
{
    if n == 0 {
        0
    } else {
        let r = sqrt_floor((n - 1) as nat);
        if (r + 1) * (r + 1) <= n {
            r + 1
        } else {
            r
        }
    }
}

/// `sqrt_floor(n)` is the unique `r` with `r^2 <= n < (r+1)^2`.
pub proof fn lemma_sqrt_floor(n: nat)
    ensures
        sqrt_floor(n) * sqrt_floor(n) <= n,
        n < (sqrt_floor(n) + 1) * (sqrt_floor(n) + 1),
    decreases n,
{
    if n > 0 {
        lemma_sqrt_floor((n - 1) as nat);
        let p = sqrt_floor((n - 1) as nat);
        assert(sqrt_floor(n) == if (p + 1) * (p + 1) <= n { p + 1 } else { p });
        if (p + 1) * (p + 1) <= n {
            assert(sqrt_floor(n) == p + 1);
            assert(sqrt_floor(n) * sqrt_floor(n) <= n);
            assert((p + 1 + 1) * (p + 1 + 1) > (p + 1) * (p + 1)) by (nonlinear_arith);
            assert(n <= (p + 1) * (p + 1));
            assert(n < (sqrt_floor(n) + 1) * (sqrt_floor(n) + 1));
        } else {
            assert(sqrt_floor(n) == p);
            assert(sqrt_floor(n) * sqrt_floor(n) <= n);
            assert(n < (sqrt_floor(n) + 1) * (sqrt_floor(n) + 1));
        }
    } else {
        assert(sqrt_floor(n) == 0);
        assert(n < (sqrt_floor(n) + 1) * (sqrt_floor(n) + 1)) by (nonlinear_arith)
            requires n == 0, sqrt_floor(n) == 0;
    }
}

pub proof fn lemma_sqrt_floor_unique(n: nat, r: nat)
    requires
        r * r <= n,
        n < (r + 1) * (r + 1),
    ensures
        r == sqrt_floor(n),
{
    lemma_sqrt_floor(n);
    let s = sqrt_floor(n);
    if r < s {
        assert((r + 1) * (r + 1) <= s * s) by (nonlinear_arith)
            requires r + 1 <= s;
    }
    if s < r {
        assert((s + 1) * (s + 1) <= r * r) by (nonlinear_arith)
            requires s + 1 <= r;
    }
}

/// Floor of the square root, by binary search.
pub fn isqrt64(n: u64) -> (r: u64)
    ensures
        r == sqrt_floor(n as nat),
{
    let mut lo: u64 = 0;
    // The square root of any u64 is below 2^32.
    let mut hi: u64 = 4_294_967_296;
    proof {
        assert((hi as nat) * (hi as nat) > n as nat) by (nonlinear_arith)
            requires hi == 4_294_967_296u64, n <= u64::MAX;
    }
    while lo + 1 < hi
        invariant
            lo < hi <= 4_294_967_296,
            (lo as nat) * (lo as nat) <= n as nat,
            (hi as nat) * (hi as nat) > n as nat,
        decreases hi - lo,
    {
        let mid = lo + (hi - lo) / 2;
        proof {
            assert((mid as nat) * (mid as nat) <= 0x1_0000_0000_0000_0000) by (nonlinear_arith)
                requires mid <= 0x1_0000_0000u64;
        }
        if (mid as u128) * (mid as u128) <= n as u128 {
            lo = mid;
        } else {
            hi = mid;
        }
    }
    proof {
        lemma_sqrt_floor_unique(n as nat, lo as nat);
    }
    lo
}

/// Squared distance between two points, exact in `int`.
pub open spec fn dist_sq(ax: int, ay: int, bx: int, by: int) -> int {
    (ax - bx) * (ax - bx) + (ay - by) * (ay - by)
}

/// Squared distance of two in-bounds points, computed exactly.
pub fn distance_sq(ax: i64, ay: i64, bx: i64, by: i64) -> (d: u64)
    requires
        0 <= ax <= MAX_COORD,
        0 <= ay <= MAX_COORD,
        0 <= bx <= MAX_COORD,
        0 <= by <= MAX_COORD,
    ensures
        d == dist_sq(ax as int, ay as int, bx as int, by as int),
{
    let dx = if ax >= bx { (ax - bx) as u64 } else { (bx - ax) as u64 };
    let dy = if ay >= by { (ay - by) as u64 } else { (by - ay) as u64 };
    proof {
        assert(dx * dx <= 1_000_000_000_000_000_000 && dy * dy <= 1_000_000_000_000_000_000)
            by (nonlinear_arith)
            requires dx <= 1_000_000_000u64, dy <= 1_000_000_000u64;
        assert(dx * dx == (ax - bx) * (ax - bx) && dy * dy == (ay - by) * (ay - by))
            by (nonlinear_arith)
            requires
                dx == if ax >= bx { (ax - bx) as int } else { (bx - ax) as int },
                dy == if ay >= by { (ay - by) as int } else { (by - ay) as int };
    }
    dx * dx + dy * dy
}

} // verus!

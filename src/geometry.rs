use vstd::prelude::*;

verus! {

/// Fixed-point steps per world unit (and per radian).
pub const UNITS: i64 = 1_000_000;

/// A position in world space, each coordinate in `UNITS` per unit.
/// The y axis points up; the engine's "forward" is towards negative z.
#[derive(Clone, Copy, Debug, PartialEq, Eq)]
pub struct Point {
    pub x: i64,
    pub y: i64,
    pub z: i64,
}

/// Every coordinate of `p` lies in `[-bound, bound]`.
pub open spec fn within(p: Point, bound: int) -> bool {
    -bound <= p.x <= bound && -bound <= p.y <= bound && -bound <= p.z <= bound
}

/// Squared distance between `a` and `b` in the horizontal (x, z) plane.
pub open spec fn horizontal_dist_sq(a: Point, b: Point) -> int {
    (a.x - b.x) * (a.x - b.x) + (a.z - b.z) * (a.z - b.z)
}

/// `s` is the integer square root of `n`, rounded down.
pub open spec fn is_floor_sqrt(s: int, n: int) -> bool {
    0 <= s && s * s <= n && n < (s + 1) * (s + 1)
}

impl Point {
    pub fn new(x: i64, y: i64, z: i64) -> (r: Point)
        ensures
            r == (Point { x, y, z }),
    {
        Point { x, y, z }
    }
}

/// Two roots of the same number are equal.
pub proof fn lemma_floor_sqrt_unique(s: int, t: int, n: int)
    requires
        is_floor_sqrt(s, n),
        is_floor_sqrt(t, n),
    ensures
        s == t,
{
    if s < t {
        assert((s + 1) * (s + 1) <= t * t) by (nonlinear_arith)
            requires
                0 <= s < t,
        ;
    } else if t < s {
        assert((t + 1) * (t + 1) <= s * s) by (nonlinear_arith)
            requires
                0 <= t < s,
        ;
    }
}

/// Integer square root, rounded down.
pub fn floor_sqrt(n: u128) -> (s: u128)
    ensures
        is_floor_sqrt(s as int, n as int),
{
    let mut lo: u128 = 0;
    let mut hi: u128 = 0x1_0000_0000_0000_0000;
    assert(n < hi * hi) by (nonlinear_arith)
        requires
            hi == 0x1_0000_0000_0000_0000u128,
            n <= u128::MAX,
    ;
    while lo + 1 < hi
        invariant
            lo < hi <= 0x1_0000_0000_0000_0000u128,
            lo * lo <= n,
            n < hi * hi,
        decreases hi - lo,
    {
        let mid: u128 = lo + (hi - lo) / 2;
        assert(mid * mid <= u128::MAX) by (nonlinear_arith)
            requires
                mid < 0x1_0000_0000_0000_0000u128,
        ;
        if mid * mid <= n {
            lo = mid;
        } else {
            hi = mid;
        }
    }
    assert(hi == lo + 1);
    lo
}

} // verus!

//! Positions on a plane with whole-number coordinates.

use vstd::prelude::*;

verus! {

/// A point of the plane.
#[derive(Debug, Clone, Copy)]
pub struct Pos {
    pub x: i32,
    pub y: i32,
}

/// `root` is the square root of `n`, rounded down.
pub open spec fn is_floor_sqrt(n: int, root: int) -> bool {
    0 <= root && root * root <= n < (root + 1) * (root + 1)
}

/// The square of the distance between two points.
pub open spec fn squared_distance(a: Pos, b: Pos) -> int {
    (b.x - a.x) * (b.x - a.x) + (b.y - a.y) * (b.y - a.y)
}

/// The square root of `n`, rounded down, for `n` below `2^106`.
pub fn floor_sqrt(n: u128) -> (root: u64)
    requires
        n < 0x400_0000_0000_0000_0000_0000_0000,
    ensures
        is_floor_sqrt(n as int, root as int),
{
    let mut low: u128 = 0;
    let mut high: u128 = 0x20_0000_0000_0000;
    assert(high * high == 0x400_0000_0000_0000_0000_0000_0000) by (nonlinear_arith)
        requires
            high == 0x20_0000_0000_0000,
    ;
    while high - low > 1
        invariant
            low < high <= 0x20_0000_0000_0000,
            low * low <= n < high * high,
        decreases high - low,
    {
        let mid: u128 = low + (high - low) / 2;
        assert(mid * mid <= 0x20_0000_0000_0000 * 0x20_0000_0000_0000) by (nonlinear_arith)
            requires
                0 <= mid <= 0x20_0000_0000_0000,
        ;
        if mid * mid <= n {
            low = mid;
        } else {
            high = mid;
        }
    }
    low as u64
}

impl Pos {
    /// The point with the given coordinates.
    pub fn new(x: i32, y: i32) -> (pos: Pos)
        ensures
            pos.x == x,
            pos.y == y,
    {
        Pos { x: x, y: y }
    }

    /// The origin.
    pub fn default() -> (pos: Pos)
        ensures
            pos.x == 0,
            pos.y == 0,
    {
        Pos { x: 0, y: 0 }
    }

    /// Moves the point to the given coordinates.
    pub fn move_to(&mut self, x: i32, y: i32)
        ensures
            final(self).x == x,
            final(self).y == y,
    {
        self.x = x;
        self.y = y;
    }

    /// The Euclidean distance to `other` in fixed point, rounded down to a
    /// millionth: the square root of the squared distance counted in
    /// millionths of millionths.
    pub fn dist(&self, other: &Pos) -> (distance: i64)
        ensures
            is_floor_sqrt(
                squared_distance(*self, *other) * 1_000_000_000_000,
                distance as int,
            ),
    {
        let dx: i128 = (other.x as i128) - (self.x as i128);
        let dy: i128 = (other.y as i128) - (self.y as i128);
        assert(0 <= dx * dx <= 0x1_0000_0000 * 0x1_0000_0000) by (nonlinear_arith)
            requires
                -0x1_0000_0000 <= dx <= 0x1_0000_0000,
        ;
        assert(0 <= dy * dy <= 0x1_0000_0000 * 0x1_0000_0000) by (nonlinear_arith)
            requires
                -0x1_0000_0000 <= dy <= 0x1_0000_0000,
        ;
        let squared: u128 = (dx * dx + dy * dy) as u128;
        let root: u64 = floor_sqrt(squared * 1_000_000_000_000);
        assert(root <= 0x20_0000_0000_0000) by (nonlinear_arith)
            requires
                root * root <= 0x20_0000_0000_0000 * 0x20_0000_0000_0000,
                root >= 0,
        ;
        root as i64
    }
}

} // verus!

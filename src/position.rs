use std::collections::hash_map::DefaultHasher;
use std::hash::{BuildHasher, BuildHasherDefault};
use vstd::prelude::*;

verus! {

/// A cell of the grid.
#[derive(Clone, Copy, Debug, PartialEq, Eq, Structural, Hash)]
pub struct Position {
    pub x: i32,
    pub y: i32,
}

/// What std's default hasher gives for the pair `(x, y)`.
pub uninterp spec fn position_hash(x: i32, y: i32) -> u64;

/// Relies on `BuildHasher::hash_one` with `BuildHasherDefault<DefaultHasher>`:
/// it hashes `(x, y)` with a hasher whose keys are fixed, so the result
/// depends on the two coordinates alone.
#[verifier::external_body]
fn hash_coordinates(x: i32, y: i32) -> (r: u64)
    ensures
        r == position_hash(x, y),
{
    BuildHasherDefault::<DefaultHasher>::default().hash_one((x, y))
}

impl Position {
    pub open spec fn in_bounds(self, width: int, height: int) -> bool {
        0 <= self.x < width && 0 <= self.y < height
    }

    /// Square of the Euclidean distance between two positions.
    pub open spec fn spec_dist_squared(self, other: Position) -> int {
        (other.x - self.x) * (other.x - self.x) + (other.y - self.y) * (other.y - self.y)
    }

    #[must_use]
    pub fn new(x: i32, y: i32) -> (r: Position)
        ensures
            r.x == x,
            r.y == y,
    {
        Position { x, y }
    }

    /// A pseudo-random number derived from the position alone.
    #[must_use]
    pub fn rand(&self) -> (r: u64)
        ensures
            r == position_hash(self.x, self.y),
    {
        hash_coordinates(self.x, self.y)
    }

    /// Square of the straight-line distance to `position`, on unwrapped
    /// coordinates.
    #[must_use]
    pub fn dist_squared(&self, position: &Position) -> (r: u128)
        ensures
            r == self.spec_dist_squared(*position),
    {
        let dx: i64 = position.x as i64 - self.x as i64;
        let dy: i64 = position.y as i64 - self.y as i64;
        let ax: u128 = if dx < 0 { (-dx) as u128 } else { dx as u128 };
        let ay: u128 = if dy < 0 { (-dy) as u128 } else { dy as u128 };
        assert(ax * ax <= 0x1_0000_0000u128 * 0x1_0000_0000u128) by (nonlinear_arith)
            requires ax <= 0x1_0000_0000u128;
        assert(ay * ay <= 0x1_0000_0000u128 * 0x1_0000_0000u128) by (nonlinear_arith)
            requires ay <= 0x1_0000_0000u128;
        assert(ax * ax == dx * dx && ay * ay == dy * dy) by (nonlinear_arith)
            requires ax == dx || ax == -dx, ay == dy || ay == -dy;
        ax * ax + ay * ay
    }
}

} // verus!

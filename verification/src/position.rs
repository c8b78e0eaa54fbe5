//! Integer grid positions and the two distances the rules use.

use vstd::prelude::*;

verus! {

/// A point of the integer grid.
#[derive(Clone, Copy, Debug, PartialEq, Eq, Structural, Hash)]
pub struct Position {
    pub x: i32,
    pub y: i32,
}

/// Absolute value of an integer.
pub open spec fn spec_abs(v: int) -> int {
    if v < 0 {
        -v
    } else {
        v
    }
}

/// Larger of the horizontal and vertical offsets between two squares.
pub open spec fn spec_chebyshev(a: int, b: int, c: int, d: int) -> int {
    let dx = spec_abs(a - c);
    let dy = spec_abs(b - d);
    if dx >= dy {
        dx
    } else {
        dy
    }
}

impl Position {
    /// Sum of the horizontal and vertical offsets between two points.
    pub open spec fn manhattan(self, other: Position) -> int {
        spec_abs(self.x - other.x) + spec_abs(self.y - other.y)
    }

    /// Larger of the horizontal and vertical offsets between two points.
    pub open spec fn chebyshev(self, other: Position) -> int {
        spec_chebyshev(self.x as int, self.y as int, other.x as int, other.y as int)
    }

    /// The point with the given coordinates.
    pub fn new(x: i32, y: i32) -> (p: Position)
        ensures
            p == (Position { x, y }),
    {
        Position { x, y }
    }

    /// Sum of the horizontal and vertical offsets between two points.
    pub fn manhattan_distance(&self, other: &Position) -> (d: u64)
        ensures
            d == self.manhattan(*other),
    {
        let dx: i64 = self.x as i64 - other.x as i64;
        let dy: i64 = self.y as i64 - other.y as i64;
        let ax: u64 = if dx < 0 {
            (-dx) as u64
        } else {
            dx as u64
        };
        let ay: u64 = if dy < 0 {
            (-dy) as u64
        } else {
            dy as u64
        };
        ax + ay
    }

    /// Larger of the horizontal and vertical offsets between two points.
    pub fn chebyshev_distance(&self, other: &Position) -> (d: u64)
        ensures
            d == self.chebyshev(*other),
    {
        let dx: i64 = self.x as i64 - other.x as i64;
        let dy: i64 = self.y as i64 - other.y as i64;
        let ax: u64 = if dx < 0 {
            (-dx) as u64
        } else {
            dx as u64
        };
        let ay: u64 = if dy < 0 {
            (-dy) as u64
        } else {
            dy as u64
        };
        if ax >= ay {
            ax
        } else {
            ay
        }
    }
}

} // verus!

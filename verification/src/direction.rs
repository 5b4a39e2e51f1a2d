//! Movement directions and the one-cell offset each of them stands for.

use vstd::prelude::*;

verus! {

/// One of the four directions a segment can move in.
#[derive(Clone, Copy, Debug, PartialEq, Eq, Structural)]
pub enum Direction {
    Left,
    Right,
    Up,
    Down,
}

impl Direction {
    /// Change of the row index when moving one cell in this direction.
    pub open spec fn row_delta(self) -> int {
        match self {
            Direction::Up => -1,
            Direction::Down => 1,
            _ => 0,
        }
    }

    /// Change of the column index when moving one cell in this direction.
    pub open spec fn column_delta(self) -> int {
        match self {
            Direction::Left => -1,
            Direction::Right => 1,
            _ => 0,
        }
    }
}

/// The coordinate one cell away from `(row, column)` in `direction`.
/// Computed over the integers, so it may lie outside of every grid.
pub open spec fn neighbour(row: int, column: int, direction: Direction) -> (int, int) {
    (row + direction.row_delta(), column + direction.column_delta())
}

} // verus!

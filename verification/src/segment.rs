//! The records the engine hands to a renderer: body segments and the food
//! coordinate.

use vstd::prelude::*;
use crate::direction::Direction;

verus! {

/// One unit of the snake's body, occupying exactly one grid cell.
#[derive(Clone, Copy, Debug, PartialEq, Eq)]
pub struct SnakeCell {
    /// `(row, column)` of the cell the segment occupies.
    pub position: (u32, u32),
    /// The direction of the segment's latest move; `None` only for a head
    /// that has not moved yet.
    pub direction: Option<Direction>,
    /// A direction change queued for the segment's next move.
    pub turn: Option<Direction>,
}

impl SnakeCell {
    /// Row of the occupied cell, as a mathematical integer.
    pub open spec fn row(self) -> int {
        self.position.0 as int
    }

    /// Column of the occupied cell, as a mathematical integer.
    pub open spec fn column(self) -> int {
        self.position.1 as int
    }

    /// The direction the segment will take on its next move when it is not
    /// the head: the queued turn if there is one, else its latest direction.
    pub open spec fn heading(self) -> Option<Direction> {
        match self.turn {
            Some(t) => Some(t),
            None => self.direction,
        }
    }
}

/// The food coordinate as `(row, column)`; `(0, 0)` stands for "no food".
#[derive(Clone, Copy, Debug, PartialEq, Eq)]
pub struct MeatPositionTuple(pub u32, pub u32);

/// What `meat_position` reports for a given food state.
pub open spec fn meat_tuple(meat: Option<(u32, u32)>) -> MeatPositionTuple {
    match meat {
        Some(m) => MeatPositionTuple(m.0, m.1),
        None => MeatPositionTuple(0, 0),
    }
}

} // verus!

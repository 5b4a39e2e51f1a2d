//! The failures the engine reports.

use vstd::prelude::*;

verus! {

/// A coordinate outside of the grid was handed to the grid indexer.
#[derive(Clone, Copy, Debug, PartialEq, Eq, Structural)]
pub struct OutOfBoundsError;

impl OutOfBoundsError {
    /// The text shown for this error.
    pub fn message(&self) -> (text: &'static str)
        ensures
            text@ == "Out of bounds"@,
    {
        "Out of bounds"
    }
}

/// Why a tick did not advance the game.
#[derive(Clone, Copy, Debug, PartialEq, Eq, Structural)]
pub enum TickError {
    /// The head would have left the grid.
    OutOfBounds,
    /// The head would have run into the body.
    SelfCollision,
    /// The game had ended before the call.
    GameOver,
}

/// Why a configuration was refused.
#[derive(Clone, Copy, Debug, PartialEq, Eq, Structural)]
pub enum ConfigError {
    /// The grid has no row or no column.
    EmptyGrid,
    /// The grid has more cells than a cell index can number.
    GridTooLarge,
    /// The head's starting cell is not on the grid.
    HeadOutOfBounds,
}

} // verus!

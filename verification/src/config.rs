//! The layout a game starts from.

use vstd::prelude::*;
use crate::error::ConfigError;
use crate::grid::in_grid;

verus! {

/// Size of the grid and the cell the head starts on.
#[derive(Clone, Copy, Debug, PartialEq, Eq)]
pub struct Config {
    /// `(height, width)` of the grid, in cells.
    pub grid_size: (u32, u32),
    /// `(row, column)` of the head's starting cell.
    pub head: (u32, u32),
}

impl Config {
    /// Number of rows, as a mathematical integer.
    pub open spec fn height(self) -> nat {
        self.grid_size.0 as nat
    }

    /// Number of columns, as a mathematical integer.
    pub open spec fn width(self) -> nat {
        self.grid_size.1 as nat
    }

    /// The reason for which no game can start from this layout, if there is
    /// one.
    pub open spec fn rejection(self) -> Option<ConfigError> {
        if self.height() == 0 || self.width() == 0 {
            Some(ConfigError::EmptyGrid)
        } else if self.height() * self.width() > u32::MAX {
            Some(ConfigError::GridTooLarge)
        } else if !in_grid(self.height(), self.width(), self.head.0 as int, self.head.1 as int) {
            Some(ConfigError::HeadOutOfBounds)
        } else {
            None
        }
    }

    /// The standard layout: fifty rows of fifty cells, the head on row 26,
    /// column 25.
    pub fn standard() -> (config: Config)
        ensures
            config.grid_size == (50u32, 50u32),
            config.head == (26u32, 25u32),
            config.rejection() is None,
    {
        Config { grid_size: (50, 50), head: (26, 25) }
    }
}

} // verus!

//! The mathematical model of the engine: what a state is, when it is
//! valid, and what one tick makes of it.

use vstd::prelude::*;
use crate::direction::{neighbour, Direction};
use crate::error::TickError;
use crate::food::food_cell;
use crate::grid::{all_apart, all_on_grid, in_grid, paint};
use crate::segment::SnakeCell;

verus! {

/// Everything an engine holds, as plain mathematical values.
pub struct EngineState {
    /// Number of rows of the grid.
    pub height: nat,
    /// Number of columns of the grid.
    pub width: nat,
    /// Occupancy flags of the grid in row-major order.
    pub cells: Seq<u32>,
    /// The body, head first.
    pub snake: Seq<SnakeCell>,
    /// The food coordinate, if food is on the grid.
    pub meat: Option<(u32, u32)>,
    /// Number of food items eaten.
    pub score: nat,
    /// True once a move has failed.
    pub game_over: bool,
}

/// True when `cell` lies on the coordinate `p`.
pub open spec fn lies_at(cell: SnakeCell, p: (int, int)) -> bool {
    cell.row() == p.0 && cell.column() == p.1
}

/// True when segment `j` trails the segment ahead of it: its next move
/// takes it onto the cell of the segment ahead, in the direction in which
/// that segment moved last.
pub open spec fn trails(snake: Seq<SnakeCell>, j: int) -> bool {
    let cell = snake[j];
    let ahead = snake[j - 1];
    &&& cell.heading() matches Some(e)
    &&& lies_at(ahead, neighbour(cell.row(), cell.column(), e))
    &&& ahead.direction == Some(e)
}

/// True when every segment but the head trails the one ahead of it.
pub open spec fn all_trail(snake: Seq<SnakeCell>) -> bool {
    forall|j: int| 1 <= j < snake.len() ==> #[trigger] trails(snake, j)
}

/// True when the direction records of `snake` are in order: only the head
/// may lack a direction, only a segment behind the head may have a turn
/// queued, and a queued turn differs from the segment's latest direction.
pub open spec fn all_settled(snake: Seq<SnakeCell>) -> bool {
    forall|j: int|
        0 <= j < snake.len() ==> {
            let cell = #[trigger] snake[j];
            &&& j >= 1 ==> cell.direction is Some
            &&& cell.turn is Some ==> j >= 1 && cell.turn != cell.direction
        }
}

/// True when the food lies under no segment but, possibly, the head.
pub open spec fn food_clear(snake: Seq<SnakeCell>, meat: Option<(u32, u32)>) -> bool {
    meat matches Some(m) ==> forall|j: int|
        1 <= j < snake.len() ==> (#[trigger] snake[j]).position != m
}

impl EngineState {
    /// Number of cells of the grid.
    pub open spec fn size(self) -> nat {
        self.height * self.width
    }

    /// True when the grid is not empty, has as many flags as it has cells,
    /// and no more cells than a cell index can number.
    pub open spec fn sized(self) -> bool {
        &&& 0 < self.height
        &&& 0 < self.width
        &&& self.size() <= u32::MAX
        &&& self.cells.len() == self.size()
    }

    /// The invariant of every state an engine can be in.
    pub open spec fn valid(self) -> bool {
        &&& self.sized()
        &&& self.snake.len() > 0
        &&& all_on_grid(self.snake, self.height, self.width)
        &&& all_apart(self.snake)
        &&& all_trail(self.snake)
        &&& all_settled(self.snake)
        &&& food_clear(self.snake, self.meat)
        &&& self.cells == paint(self.snake, self.width, self.size())
        &&& self.snake.len() == self.score + 1
        &&& (self.meat matches Some(m) ==> in_grid(self.height, self.width, m.0 as int, m.1 as int))
    }

    /// The state right after construction: a lone, unmoved head on `head`,
    /// its cell flagged, no food, no score.
    pub open spec fn initial(height: nat, width: nat, head: (u32, u32)) -> EngineState {
        let snake = seq![SnakeCell { position: head, direction: None, turn: None }];
        EngineState {
            height,
            width,
            cells: paint(snake, width, height * width),
            snake,
            meat: None,
            score: 0,
            game_over: false,
        }
    }

    /// The leading segment.
    pub open spec fn head(self) -> SnakeCell {
        self.snake[0]
    }

    /// The last segment.
    pub open spec fn tail(self) -> SnakeCell {
        self.snake.last()
    }

    /// The coordinate the head moves to when asked to go in `direction`.
    pub open spec fn head_target(self, direction: Direction) -> (int, int) {
        neighbour(self.head().row(), self.head().column(), direction)
    }

    /// True when the head stands on the food, so that the next tick eats it.
    pub open spec fn eats(self) -> bool {
        self.meat == Some(self.head().position)
    }

    /// True when a move of the head in `direction` leaves the grid.
    pub open spec fn hits_wall(self, direction: Direction) -> bool {
        let target = self.head_target(direction);
        !in_grid(self.height, self.width, target.0, target.1)
    }

    /// Number of leading segments whose cells stay taken during the tick:
    /// all of them when the snake grows, all but the tail otherwise.
    pub open spec fn blocked(self) -> int {
        if self.eats() {
            self.snake.len() as int
        } else {
            self.snake.len() - 1
        }
    }

    /// True when a move of the head in `direction` ends on a cell that stays
    /// taken during the tick.
    pub open spec fn hits_body(self, direction: Direction) -> bool {
        exists|j: int|
            0 <= j < self.blocked() && lies_at(
                #[trigger] self.snake[j],
                self.head_target(direction),
            )
    }

    /// The failure a tick in `direction` reports, if any.
    pub open spec fn tick_error(self, direction: Direction) -> Option<TickError> {
        if self.game_over {
            Some(TickError::GameOver)
        } else if self.hits_wall(direction) {
            Some(TickError::OutOfBounds)
        } else if self.hits_body(direction) {
            Some(TickError::SelfCollision)
        } else {
            None
        }
    }

    /// The direction in which segment `j` moves during a tick whose head
    /// direction is `direction`.
    pub open spec fn move_of(self, direction: Direction, j: int) -> Direction {
        if j == 0 {
            direction
        } else {
            self.snake[j].heading().unwrap()
        }
    }

    /// Segment `j` after a tick in `direction`: the head on its target, every
    /// other segment on the cell of the segment ahead, with a turn queued
    /// where the segment ahead moved in another direction.
    pub open spec fn moved_cell(self, direction: Direction, j: int) -> SnakeCell {
        if j == 0 {
            let target = self.head_target(direction);
            SnakeCell {
                position: (target.0 as u32, target.1 as u32),
                direction: Some(direction),
                turn: None,
            }
        } else {
            let own = self.move_of(direction, j);
            let ahead = self.move_of(direction, j - 1);
            SnakeCell {
                position: self.snake[j - 1].position,
                direction: Some(own),
                turn: if ahead != own {
                    Some(ahead)
                } else {
                    None
                },
            }
        }
    }

    /// The segment a growing snake gains: it stays on the cell the tail
    /// leaves and is set to follow the tail.
    pub open spec fn grown_tail(self, direction: Direction) -> SnakeCell {
        SnakeCell {
            position: self.tail().position,
            direction: Some(self.move_of(direction, self.snake.len() - 1)),
            turn: None,
        }
    }

    /// The body after a tick in `direction` that did not fail.
    pub open spec fn moved_snake(self, direction: Direction) -> Seq<SnakeCell> {
        let moved = Seq::new(self.snake.len(), |j: int| self.moved_cell(direction, j));
        if self.eats() {
            moved.push(self.grown_tail(direction))
        } else {
            moved
        }
    }

    /// The state after a tick in `direction` with the food draw `roll`.
    pub open spec fn after_tick(self, direction: Direction, roll: u32) -> EngineState {
        match self.tick_error(direction) {
            Some(TickError::GameOver) => self,
            Some(_) => EngineState {
                height: self.height,
                width: self.width,
                cells: self.cells,
                snake: self.snake,
                meat: self.meat,
                score: self.score,
                game_over: true,
            },
            None => {
                let snake = self.moved_snake(direction);
                let cells = paint(snake, self.width, self.size());
                EngineState {
                    height: self.height,
                    width: self.width,
                    cells,
                    snake,
                    meat: if self.eats() || self.meat is None {
                        food_cell(cells, self.width, roll)
                    } else {
                        self.meat
                    },
                    score: if self.eats() {
                        self.score + 1
                    } else {
                        self.score
                    },
                    game_over: false,
                }
            },
        }
    }

    /// The state after one tick for each entry of `moves`, in order; an
    /// entry holds the direction and the food draw of its tick.
    pub open spec fn after_ticks(self, moves: Seq<(Direction, u32)>) -> EngineState
        decreases moves.len(),
    {
        if moves.len() == 0 {
            self
        } else {
            self.after_ticks(moves.drop_last()).after_tick(moves.last().0, moves.last().1)
        }
    }
}

} // verus!

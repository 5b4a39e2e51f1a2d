//! The engine: the state of one game and the tick that advances it.

use vstd::prelude::*;
use crate::config::Config;
use crate::direction::{neighbour, Direction};
use crate::error::{ConfigError, OutOfBoundsError, TickError};
use crate::food::{food_cell, place_food};
use crate::grid::{
    cell_index, covers, in_grid, index_of, lemma_covers_push, lemma_index_in_range,
    lemma_occupied_bounded, lemma_paint_push, paint,
};
use crate::laws::{
    lemma_cells_match_snake, lemma_collision_test, lemma_initial_valid, lemma_tick_valid,
};
use crate::segment::{meat_tuple, MeatPositionTuple, SnakeCell};
use crate::state::{trails, EngineState};

verus! {

/// The playing field of one game: grid, snake, food, score and the
/// game-over flag.
#[derive(Clone, Debug)]
pub struct SnakeEngine {
    height: u32,
    width: u32,
    cells: Vec<u32>,
    game_over: bool,
    meat: Option<(u32, u32)>,
    snake: Vec<SnakeCell>,
    score: u32,
}

impl View for SnakeEngine {
    type V = EngineState;

    closed spec fn view(&self) -> EngineState {
        EngineState {
            height: self.height as nat,
            width: self.width as nat,
            cells: self.cells@,
            snake: self.snake@,
            meat: self.meat,
            score: self.score as nat,
            game_over: self.game_over,
        }
    }
}

impl SnakeEngine {
    /// True when the engine is in a state that its model accepts. Every
    /// constructor establishes this and every method keeps it.
    pub open spec fn well_formed(&self) -> bool {
        self@.valid()
    }

    /// The grid indexer: the row-major index of the cell `(row, column)`, or
    /// an error when the coordinate is not on the grid.
    pub fn get_index(&self, row: u32, column: u32) -> (res: Result<u32, OutOfBoundsError>)
        requires
            self@.sized(),
        ensures
            match res {
                Ok(index) => {
                    &&& in_grid(self@.height, self@.width, row as int, column as int)
                    &&& index == cell_index(self@.width, row as int, column as int)
                    &&& index < self@.size()
                },
                Err(_) => !in_grid(self@.height, self@.width, row as int, column as int),
            },
    {
        if row >= self.height || column >= self.width {
            return Err(OutOfBoundsError);
        }
        proof {
            lemma_index_in_range(self@.height, self@.width, row as int, column as int);
        }
        Ok(row * self.width + column)
    }

    /// Number of rows of the grid.
    pub fn height(&self) -> (height: u32)
        ensures
            height == self@.height,
    {
        self.height
    }

    /// Number of columns of the grid.
    pub fn width(&self) -> (width: u32)
        ensures
            width == self@.width,
    {
        self.width
    }

    /// The occupancy flags of the grid, row-major.
    pub fn cells(&self) -> (cells: &Vec<u32>)
        ensures
            cells@ == self@.cells,
    {
        &self.cells
    }

    /// The body of the snake, head first.
    pub fn snake(&self) -> (snake: &Vec<SnakeCell>)
        ensures
            snake@ == self@.snake,
    {
        &self.snake
    }

    /// The food coordinate, or `(0, 0)` while there is no food.
    pub fn meat_position(&self) -> (position: MeatPositionTuple)
        ensures
            position == meat_tuple(self@.meat),
    {
        match self.meat {
            Some(meat) => MeatPositionTuple(meat.0, meat.1),
            None => MeatPositionTuple(0, 0),
        }
    }

    /// Number of food items eaten so far.
    pub fn score(&self) -> (score: u32)
        ensures
            score == self@.score,
    {
        self.score
    }

    /// True once a tick has failed; no later tick changes the engine.
    pub fn game_over(&self) -> (over: bool)
        ensures
            over == self@.game_over,
    {
        self.game_over
    }

    /// The engine of the standard layout in its initial state.
    pub fn new() -> (engine: SnakeEngine)
        ensures
            engine.well_formed(),
            engine@ == EngineState::initial(50, 50, (26u32, 25u32)),
    {
        let height: u32 = 50;
        let width: u32 = 50;
        Self::assemble(height, width, (26, 25))
    }

    /// The engine of the layout `config` in its initial state, or the reason
    /// for which the layout is refused.
    pub fn with_config(config: Config) -> (res: Result<SnakeEngine, ConfigError>)
        ensures
            match res {
                Ok(engine) => {
                    &&& config.rejection() is None
                    &&& engine.well_formed()
                    &&& engine@ == EngineState::initial(
                        config.height(),
                        config.width(),
                        config.head,
                    )
                },
                Err(e) => config.rejection() == Some(e),
            },
    {
        let height: u32 = config.grid_size.0;
        let width: u32 = config.grid_size.1;
        if height == 0 || width == 0 {
            return Err(ConfigError::EmptyGrid);
        }
        if height.checked_mul(width).is_none() {
            return Err(ConfigError::GridTooLarge);
        }
        if config.head.0 >= height || config.head.1 >= width {
            return Err(ConfigError::HeadOutOfBounds);
        }
        Ok(Self::assemble(height, width, config.head))
    }

    /// Builds the initial state: a grid of zeros with the head's cell
    /// flagged, a lone head, no food, no score.
    fn assemble(height: u32, width: u32, head: (u32, u32)) -> (engine: SnakeEngine)
        requires
            0 < height,
            0 < width,
            height * width <= u32::MAX,
            in_grid(height as nat, width as nat, head.0 as int, head.1 as int),
        ensures
            engine.well_formed(),
            engine@ == EngineState::initial(height as nat, width as nat, head),
    {
        proof {
            lemma_index_in_range(height as nat, width as nat, head.0 as int, head.1 as int);
            lemma_initial_valid(height as nat, width as nat, head);
        }
        let size: u32 = height * width;
        let mark: u32 = head.0 * width + head.1;
        let snake_cell = SnakeCell { position: head, direction: None, turn: None };
        let mut cells: Vec<u32> = Vec::new();
        let mut i: u32 = 0;
        while i < size
            invariant
                i <= size,
                cells@.len() == i,
                forall|k: int| 0 <= k < i ==> cells@[k] == if k == mark { 1u32 } else { 0u32 },
            decreases size - i,
        {
            cells.push(if i == mark { 1 } else { 0 });
            i = i + 1;
        }
        let mut snake: Vec<SnakeCell> = Vec::new();
        snake.push(snake_cell);
        proof {
            assert forall|k: int| 0 <= k < size implies #[trigger] covers(snake@, width as nat, k)
                == (k == mark) by {
                if k == mark {
                    assert(index_of(snake@[0], width as nat) == k);
                }
            }
            assert(cells@ =~= paint(snake@, width as nat, size as nat));
        }
        SnakeEngine { height, width, cells, game_over: false, meat: None, snake, score: 0 }
    }

    /// Grows the snake by one segment on the cell `(curr_row, curr_col)`,
    /// set to move in `direction`; counts the eaten food and puts new food
    /// on the vacant cell that `roll` selects.
    fn score_meat(&mut self, curr_row: u32, curr_col: u32, direction: Direction, roll: u32)
        requires
            old(self)@.sized(),
            old(self)@.score < u32::MAX,
            in_grid(old(self)@.height, old(self)@.width, curr_row as int, curr_col as int),
        ensures
            final(self)@.height == old(self)@.height,
            final(self)@.width == old(self)@.width,
            final(self)@.game_over == old(self)@.game_over,
            final(self)@.snake == old(self)@.snake.push(
                SnakeCell {
                    position: (curr_row, curr_col),
                    direction: Some(direction),
                    turn: None,
                },
            ),
            final(self)@.cells == old(self)@.cells.update(
                cell_index(old(self)@.width, curr_row as int, curr_col as int),
                1u32,
            ),
            final(self)@.score == old(self)@.score + 1,
            final(self)@.meat == food_cell(final(self)@.cells, old(self)@.width, roll),
    {
        match self.get_index(curr_row, curr_col) {
            Ok(index) => {
                self.cells.set(index as usize, 1);
            },
            // The cell is on the grid, so the indexer accepts it.
            Err(_) => {},
        }
        self.snake.push(
            SnakeCell { position: (curr_row, curr_col), direction: Some(direction), turn: None },
        );
        self.score = self.score + 1;
        self.meat = place_food(&self.cells, self.width, roll);
    }

    /// Advances the game by one step. The head moves one cell in
    /// `direction`, every other segment onto the cell of the segment ahead
    /// of it. A snake whose head stood on the food grows by one segment,
    /// scores, and gets new food on the vacant cell that `roll` selects; so
    /// does a grid without food. A head that would leave the grid or run
    /// into the body ends the game: the call reports it, sets the game-over
    /// flag and changes nothing else, and so does every later call.
    pub fn tick(&mut self, direction: Direction, roll: u32) -> (res: Result<(), TickError>)
        requires
            old(self).well_formed(),
        ensures
            final(self).well_formed(),
            final(self)@ == old(self)@.after_tick(direction, roll),
            match res {
                Ok(_) => old(self)@.tick_error(direction) is None,
                Err(e) => old(self)@.tick_error(direction) == Some(e),
            },
    {
        proof {
            lemma_tick_valid(self@, direction, roll);
        }
        if self.game_over {
            return Err(TickError::GameOver);
        }
        let count: usize = self.snake.len();
        let head: SnakeCell = self.snake[0];
        let tail: SnakeCell = self.snake[count - 1];
        let eats: bool = match self.meat {
            Some(m) => m.0 == head.position.0 && m.1 == head.position.1,
            None => false,
        };
        // The new grid and the new snake are built on the side and replace
        // the old ones only when every segment has moved. First the cells
        // under the snake are cleared, then each segment flags its new cell.
        let mut next_cells: Vec<u32> = self.cells.clone();
        let mut i: usize = 0;
        while i < count
            invariant
                *self == *old(self),
                self.well_formed(),
                count == self.snake@.len(),
                i <= count,
                next_cells@.len() == self.cells@.len(),
                forall|k: int|
                    0 <= k < next_cells@.len() ==> #[trigger] next_cells@[k] == if covers(
                        self.snake@.take(i as int),
                        self@.width,
                        k,
                    ) {
                        0u32
                    } else {
                        self.cells@[k]
                    },
            decreases count - i,
        {
            let cell: SnakeCell = self.snake[i];
            proof {
                assert(self.snake@.take(i + 1) =~= self.snake@.take(i as int).push(cell));
            }
            match self.get_index(cell.position.0, cell.position.1) {
                Ok(index) => {
                    next_cells.set(index as usize, 0);
                },
                // Every segment of a well-formed engine lies on the grid.
                Err(_) => {},
            }
            proof {
                assert forall|k: int| 0 <= k < next_cells@.len() implies #[trigger] next_cells@[k]
                    == if covers(self.snake@.take(i + 1), self@.width, k) {
                    0u32
                } else {
                    self.cells@[k]
                } by {
                    lemma_covers_push(self.snake@.take(i as int), cell, self@.width, k);
                }
            }
            i = i + 1;
        }
        let mut next_snake: Vec<SnakeCell> = Vec::new();
        proof {
            assert(self.snake@.take(count as int) =~= self.snake@);
        }
        let mut ahead: Direction = direction;
        let mut j: usize = 0;
        while j < count
            invariant
                *self == *old(self),
                self.well_formed(),
                !self.game_over,
                count == self.snake@.len(),
                tail == self.snake@[count - 1],
                eats == self@.eats(),
                j <= count,
                j > 0 ==> self@.tick_error(direction) is None,
                j > 0 ==> ahead == self@.move_of(direction, j - 1),
                next_snake@.len() == j,
                forall|k: int|
                    0 <= k < j ==> #[trigger] next_snake@[k] == self@.moved_cell(direction, k),
                next_cells@ == paint(next_snake@, self@.width, self@.size()),
            decreases count - j,
        {
            let cell: SnakeCell = self.snake[j];
            // The head goes where it is told; any other segment takes its
            // queued turn, or else keeps its direction.
            let effective: Direction = if j == 0 {
                direction
            } else {
                match cell.turn {
                    Some(t) => t,
                    None => match cell.direction {
                        Some(d) => d,
                        None => direction,
                    },
                }
            };
            proof {
                if j > 0 {
                    assert(trails(self.snake@, j as int));
                }
            }
            match self.handle_step(&mut next_cells, cell.position.0, cell.position.1, effective) {
                // Only the head can get here: every other segment steps onto
                // the cell of the segment ahead of it.
                Err(_) => {
                    self.game_over = true;
                    return Err(TickError::OutOfBounds);
                },
                Ok(position) => {
                    if j == 0 {
                        // The head runs into the body when its target is
                        // flagged on the current grid, unless that is the
                        // cell the tail is about to leave.
                        proof {
                            lemma_collision_test(self@, direction);
                        }
                        let flagged: bool = match self.get_index(position.0, position.1) {
                            Ok(index) => self.cells[index as usize] == 1,
                            Err(_) => false,
                        };
                        let vacated: bool = !eats && position.0 == tail.position.0 && position.1
                            == tail.position.1;
                        if flagged && !vacated {
                            self.game_over = true;
                            return Err(TickError::SelfCollision);
                        }
                    }
                    let turn: Option<Direction> = if j > 0 && ahead != effective {
                        Some(ahead)
                    } else {
                        None
                    };
                    let moved = SnakeCell { position, direction: Some(effective), turn };
                    proof {
                        lemma_index_in_range(
                            self@.height,
                            self@.width,
                            position.0 as int,
                            position.1 as int,
                        );
                        lemma_paint_push(next_snake@, moved, self@.width, self@.size());
                    }
                    next_snake.push(moved);
                    ahead = effective;
                },
            }
            j = j + 1;
        }
        proof {
            assert(next_snake@ =~= Seq::new(
                self.snake@.len(),
                |k: int| old(self)@.moved_cell(direction, k),
            ));
        }
        self.cells = next_cells;
        self.snake = next_snake;
        if eats {
            proof {
                lemma_cells_match_snake(old(self)@);
                lemma_occupied_bounded(old(self)@.cells);
            }
            self.score_meat(tail.position.0, tail.position.1, ahead, roll);
            proof {
                lemma_index_in_range(
                    self@.height,
                    self@.width,
                    tail.position.0 as int,
                    tail.position.1 as int,
                );
                lemma_paint_push(
                    Seq::new(old(self).snake@.len(), |k: int| old(self)@.moved_cell(direction, k)),
                    old(self)@.grown_tail(direction),
                    self@.width,
                    self@.size(),
                );
            }
        } else if self.meat.is_none() {
            self.meat = place_food(&self.cells, self.width, roll);
        }
        Ok(())
    }

    /// Moves one segment: computes the cell next to `(row, column)` in
    /// `direction`, looks it up through the grid indexer and flags it in
    /// `next_cells`. Fails, and flags nothing, when that cell is not on the
    /// grid.
    fn handle_step(
        &self,
        next_cells: &mut Vec<u32>,
        row: u32,
        column: u32,
        direction: Direction,
    ) -> (res: Result<(u32, u32), OutOfBoundsError>)
        requires
            self@.sized(),
            old(next_cells)@.len() == self@.size(),
        ensures
            match res {
                Ok(next) => {
                    &&& (next.0 as int, next.1 as int) == neighbour(
                        row as int,
                        column as int,
                        direction,
                    )
                    &&& in_grid(self@.height, self@.width, next.0 as int, next.1 as int)
                    &&& final(next_cells)@ == old(next_cells)@.update(
                        cell_index(self@.width, next.0 as int, next.1 as int),
                        1u32,
                    )
                },
                Err(_) => {
                    let target = neighbour(row as int, column as int, direction);
                    &&& !in_grid(self@.height, self@.width, target.0, target.1)
                    &&& final(next_cells)@ == old(next_cells)@
                },
            },
    {
        let target: Option<(u32, u32)> = match direction {
            Direction::Left => match column.checked_sub(1) {
                Some(next_col) => Some((row, next_col)),
                None => None,
            },
            Direction::Right => match column.checked_add(1) {
                Some(next_col) => Some((row, next_col)),
                None => None,
            },
            Direction::Up => match row.checked_sub(1) {
                Some(next_row) => Some((next_row, column)),
                None => None,
            },
            Direction::Down => match row.checked_add(1) {
                Some(next_row) => Some((next_row, column)),
                None => None,
            },
        };
        let (next_row, next_col) = match target {
            Some(next) => next,
            None => {
                return Err(OutOfBoundsError);
            },
        };
        let index: u32 = match self.get_index(next_row, next_col) {
            Ok(index) => index,
            Err(error) => {
                return Err(error);
            },
        };
        next_cells.set(index as usize, 1);
        Ok((next_row, next_col))
    }
}

} // verus!

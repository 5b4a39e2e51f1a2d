//! What holds of every state the engine can reach, proved over the model,
//! and what holds of any two reads or constructions, proved from the
//! contracts of the functions that make them.

use vstd::prelude::*;
use crate::config::Config;
use crate::direction::{neighbour, Direction};
use crate::engine::SnakeEngine;
use crate::food::{lemma_food_on_vacant, lemma_vacant_or_occupied, vacancies};
use crate::grid::{
    all_apart, all_on_grid, cell_index, covers, in_grid, index_of, lemma_index_in_range,
    lemma_index_injective, lemma_painted_count, occupied_cells,
};
use crate::segment::{MeatPositionTuple, SnakeCell};
use crate::state::{all_settled, all_trail, lies_at, trails, EngineState};

verus! {

/// A freshly constructed state is valid.
pub proof fn lemma_initial_valid(height: nat, width: nat, head: (u32, u32))
    requires
        0 < height,
        0 < width,
        height * width <= u32::MAX,
        in_grid(height, width, head.0 as int, head.1 as int),
    ensures
        EngineState::initial(height, width, head).valid(),
{
}

/// The segments of a successfully moved snake lie on the grid, share no
/// cell, each trails the one ahead of it, and their direction records are
/// in order.
pub proof fn lemma_moved_snake_sound(s: EngineState, direction: Direction)
    requires
        s.valid(),
        s.tick_error(direction) is None,
    ensures
        all_on_grid(s.moved_snake(direction), s.height, s.width),
        all_apart(s.moved_snake(direction)),
        all_trail(s.moved_snake(direction)),
        all_settled(s.moved_snake(direction)),
{
    let snake = s.moved_snake(direction);
    assert(s.height <= s.height * s.width) by (nonlinear_arith)
        requires
            0 < s.width,
    ;
    assert(s.width <= s.height * s.width) by (nonlinear_arith)
        requires
            0 < s.height,
    ;
    assert forall|j: int| 1 <= j < snake.len() implies #[trigger] trails(snake, j) by {
        if j >= 2 {
            assert(trails(s.snake, j - 1));
        }
    }
}

/// Every tick leads from a valid state to a valid state. Whatever the
/// outcome, all segments lie on the grid, no two share a cell, each trails
/// the one ahead of it, the flagged cells are the cells under the snake,
/// the food lies under no segment but possibly the head, and the score
/// counts the growth.
pub proof fn lemma_tick_valid(s: EngineState, direction: Direction, roll: u32)
    requires
        s.valid(),
    ensures
        s.after_tick(direction, roll).valid(),
{
    if s.tick_error(direction) is None {
        let t = s.after_tick(direction, roll);
        lemma_moved_snake_sound(s, direction);
        lemma_food_on_vacant(t.cells, s.height, s.width, roll);
        if t.meat is Some && (s.eats() || s.meat is None) {
            assert forall|j: int| 1 <= j < t.snake.len() implies (#[trigger] t.snake[j]).position
                != t.meat.unwrap() by {
                lemma_food_off_snake(s, direction, roll, j);
            }
        }
    }
}

/// Every state that ticks lead to from a valid state is valid.
pub proof fn lemma_ticks_valid(s: EngineState, moves: Seq<(Direction, u32)>)
    requires
        s.valid(),
    ensures
        s.after_ticks(moves).valid(),
    decreases moves.len(),
{
    if moves.len() > 0 {
        lemma_ticks_valid(s, moves.drop_last());
        lemma_tick_valid(s.after_ticks(moves.drop_last()), moves.last().0, moves.last().1);
    }
}

/// In every state a game can reach from its start, all segments lie on the
/// grid and the number of flagged cells equals the number of segments.
pub proof fn lemma_reachable_states(
    height: nat,
    width: nat,
    head: (u32, u32),
    moves: Seq<(Direction, u32)>,
)
    requires
        0 < height,
        0 < width,
        height * width <= u32::MAX,
        in_grid(height, width, head.0 as int, head.1 as int),
    ensures
        ({
            let s = EngineState::initial(height, width, head).after_ticks(moves);
            &&& s.valid()
            &&& all_on_grid(s.snake, height, width)
            &&& occupied_cells(s.cells) == s.snake.len()
        }),
{
    let start = EngineState::initial(height, width, head);
    lemma_initial_valid(height, width, head);
    lemma_ticks_valid(start, moves);
    lemma_ticks_keep_size(start, moves);
    lemma_cells_match_snake(start.after_ticks(moves));
}

/// No tick changes the size of the grid.
pub proof fn lemma_ticks_keep_size(s: EngineState, moves: Seq<(Direction, u32)>)
    ensures
        s.after_ticks(moves).height == s.height,
        s.after_ticks(moves).width == s.width,
    decreases moves.len(),
{
    if moves.len() > 0 {
        lemma_ticks_keep_size(s, moves.drop_last());
    }
}

/// The number of flagged cells equals the number of segments.
pub proof fn lemma_cells_match_snake(s: EngineState)
    requires
        s.valid(),
    ensures
        occupied_cells(s.cells) == s.snake.len(),
{
    lemma_painted_count(s.snake, s.height, s.width);
}

/// The vacant cells are the cells that are not under the snake, so a food
/// draw is taken modulo the size of the grid less the length of the snake.
pub proof fn lemma_vacancies_counted(s: EngineState)
    requires
        s.valid(),
    ensures
        vacancies(s.cells) == s.size() - s.snake.len(),
{
    lemma_cells_match_snake(s);
    lemma_vacant_or_occupied(s.cells);
}

/// A cell is flagged exactly when a segment lies on it.
pub proof fn lemma_flag_means_segment(s: EngineState, row: int, column: int)
    requires
        s.valid(),
        in_grid(s.height, s.width, row, column),
    ensures
        s.cells[cell_index(s.width, row, column)] == 1 <==> exists|j: int|
            0 <= j < s.snake.len() && lies_at(#[trigger] s.snake[j], (row, column)),
        s.cells[cell_index(s.width, row, column)] == 0 || s.cells[cell_index(s.width, row, column)]
            == 1,
{
    let k = cell_index(s.width, row, column);
    lemma_index_in_range(s.height, s.width, row, column);
    if covers(s.snake, s.width, k) {
        let j = choose|j: int|
            0 <= j < s.snake.len() && #[trigger] index_of(s.snake[j], s.width) == k;
        lemma_index_injective(s.width, s.snake[j].row(), s.snake[j].column(), row, column);
    }
    if exists|j: int| 0 <= j < s.snake.len() && lies_at(#[trigger] s.snake[j], (row, column)) {
        let j = choose|j: int|
            0 <= j < s.snake.len() && lies_at(#[trigger] s.snake[j], (row, column));
        assert(index_of(s.snake[j], s.width) == k);
    }
}

/// Whether the head runs into the body can be read off the grid: it does
/// when its target cell is flagged, unless that is the cell the tail leaves
/// in the same tick.
pub proof fn lemma_collision_test(s: EngineState, direction: Direction)
    requires
        s.valid(),
        !s.hits_wall(direction),
    ensures
        s.hits_body(direction) <==> {
            let target = s.head_target(direction);
            &&& s.cells[cell_index(s.width, target.0, target.1)] == 1
            &&& !(!s.eats() && lies_at(s.tail(), target))
        },
{
    let target = s.head_target(direction);
    let n = s.snake.len() as int;
    lemma_flag_means_segment(s, target.0, target.1);
    if s.hits_body(direction) {
        // The segment in the way is not a tail that leaves its cell.
        let j = choose|j: int| 0 <= j < s.blocked() && lies_at(#[trigger] s.snake[j], target);
        assert(!s.eats() ==> s.snake[j].position != s.snake[n - 1].position);
    }
    if s.cells[cell_index(s.width, target.0, target.1)] == 1 && !(!s.eats() && lies_at(
        s.tail(),
        target,
    )) {
        // Some segment lies on the target, and it stays during the tick.
        let j = choose|j: int| 0 <= j < n && lies_at(#[trigger] s.snake[j], target);
        assert(j < s.blocked());
    }
}

/// A tick that fails sets the game-over flag and changes nothing else: the
/// state from before the call stays to be read.
pub proof fn lemma_failed_tick_keeps_state(s: EngineState, direction: Direction, roll: u32)
    requires
        s.tick_error(direction) is Some,
    ensures
        s.after_tick(direction, roll).game_over,
        s.after_tick(direction, roll).height == s.height,
        s.after_tick(direction, roll).width == s.width,
        s.after_tick(direction, roll).cells == s.cells,
        s.after_tick(direction, roll).snake == s.snake,
        s.after_tick(direction, roll).meat == s.meat,
        s.after_tick(direction, roll).score == s.score,
{
}

/// No tick leaves the game-over state, and none changes a state in it.
pub proof fn lemma_game_over_is_final(s: EngineState, direction: Direction, roll: u32)
    requires
        s.game_over,
    ensures
        s.after_tick(direction, roll) == s,
{
}

/// A snake whose head stands on the food gains exactly one segment and one
/// point in the next tick; any other keeps its length and its score. Left
/// out are the ticks that fail with the head on the food: they change
/// neither.
pub proof fn lemma_growth(s: EngineState, direction: Direction, roll: u32)
    requires
        s.eats() ==> s.tick_error(direction) is None,
    ensures
        s.eats() ==> s.after_tick(direction, roll).snake.len() == s.snake.len() + 1
            && s.after_tick(direction, roll).score == s.score + 1,
        !s.eats() ==> s.after_tick(direction, roll).snake.len() == s.snake.len()
            && s.after_tick(direction, roll).score == s.score,
{
}

/// The score never goes down.
pub proof fn lemma_score_monotonic(s: EngineState, direction: Direction, roll: u32)
    ensures
        s.after_tick(direction, roll).score >= s.score,
{
}

/// A turn of the head reaches the segment behind it exactly one tick later.
/// In the tick that turns the head to `direction`, the second segment takes
/// the head's old cell, still moving in the head's old direction, and has
/// the turn queued; in the tick after that it moves in `direction`.
pub proof fn lemma_turn_propagates(
    s: EngineState,
    direction: Direction,
    roll: u32,
    next_direction: Direction,
    next_roll: u32,
)
    requires
        s.valid(),
        s.snake.len() >= 2,
        s.head().direction != Some(direction),
        s.tick_error(direction) is None,
        s.after_tick(direction, roll).tick_error(next_direction) is None,
    ensures
        s.after_tick(direction, roll).snake[1].position == s.head().position,
        s.after_tick(direction, roll).snake[1].direction == s.head().direction,
        s.after_tick(direction, roll).snake[1].turn == Some(direction),
        s.after_tick(direction, roll).after_tick(next_direction, next_roll).snake[1].direction
            == Some(direction),
        s.after_tick(direction, roll).after_tick(next_direction, next_roll).snake[1].position
            == s.after_tick(direction, roll).head().position,
{
    assert(trails(s.snake, 1));
}

/// How the segments move in a tick that succeeds. Each one steps to the
/// cell next to its own in the direction of its move; for the head that is
/// the requested direction, for any other the one it was heading in, which
/// takes it onto the cell the segment ahead of it held before. A segment
/// gained by eating lies on the cell the tail held.
pub proof fn lemma_segments_step(s: EngineState, direction: Direction, roll: u32, j: int)
    requires
        s.valid(),
        s.tick_error(direction) is None,
        0 <= j < s.after_tick(direction, roll).snake.len(),
    ensures
        j < s.snake.len() ==> lies_at(
            s.after_tick(direction, roll).snake[j],
            neighbour(s.snake[j].row(), s.snake[j].column(), s.move_of(direction, j)),
        ),
        1 <= j < s.snake.len() ==> s.after_tick(direction, roll).snake[j].position
            == s.snake[j - 1].position,
        j == s.snake.len() ==> s.after_tick(direction, roll).snake[j].position
            == s.tail().position,
{
    assert(s.height <= s.height * s.width) by (nonlinear_arith)
        requires
            0 < s.width,
    ;
    assert(s.width <= s.height * s.width) by (nonlinear_arith)
        requires
            0 < s.height,
    ;
    if 1 <= j < s.snake.len() {
        assert(trails(s.snake, j));
    }
}

/// Food that a tick puts on the grid lies under no segment.
pub proof fn lemma_food_off_snake(s: EngineState, direction: Direction, roll: u32, j: int)
    requires
        s.valid(),
        s.tick_error(direction) is None,
        s.eats() || s.meat is None,
        s.after_tick(direction, roll).meat is Some,
        0 <= j < s.after_tick(direction, roll).snake.len(),
    ensures
        s.after_tick(direction, roll).snake[j].position != s.after_tick(
            direction,
            roll,
        ).meat.unwrap(),
{
    let t = s.after_tick(direction, roll);
    let m = t.meat.unwrap();
    lemma_food_on_vacant(t.cells, s.height, s.width, roll);
    if t.snake[j].position == m {
        let k = cell_index(s.width, m.0 as int, m.1 as int);
        assert(index_of(t.snake[j], s.width) == k);
    }
}

/// A tick that succeeds leaves the grid without food only when every cell
/// is under the snake.
pub proof fn lemma_food_missing_only_when_full(s: EngineState, direction: Direction, roll: u32)
    requires
        s.valid(),
        s.tick_error(direction) is None,
        s.after_tick(direction, roll).meat is None,
    ensures
        vacancies(s.after_tick(direction, roll).cells) == 0,
{
    let t = s.after_tick(direction, roll);
    lemma_food_on_vacant(t.cells, s.height, s.width, roll);
}

/// Reading an engine twice gives the same values: whatever two calls of
/// `cells`, `snake`, `score` and `meat_position` on one engine return, the
/// results agree.
pub proof fn lemma_reads_repeat(
    engine: SnakeEngine,
    cells: (&Vec<u32>, &Vec<u32>),
    snake: (&Vec<SnakeCell>, &Vec<SnakeCell>),
    score: (u32, u32),
    meat: (MeatPositionTuple, MeatPositionTuple),
)
    requires
        call_ensures(SnakeEngine::cells, (&engine,), cells.0),
        call_ensures(SnakeEngine::cells, (&engine,), cells.1),
        call_ensures(SnakeEngine::snake, (&engine,), snake.0),
        call_ensures(SnakeEngine::snake, (&engine,), snake.1),
        call_ensures(SnakeEngine::score, (&engine,), score.0),
        call_ensures(SnakeEngine::score, (&engine,), score.1),
        call_ensures(SnakeEngine::meat_position, (&engine,), meat.0),
        call_ensures(SnakeEngine::meat_position, (&engine,), meat.1),
    ensures
        cells.0@ == cells.1@,
        snake.0@ == snake.1@,
        score.0 == score.1,
        meat.0 == meat.1,
{
}

/// Construction is deterministic: two engines built from one layout have
/// the same grid, the same snake and the same score.
pub proof fn lemma_construction_repeats(config: Config, first: SnakeEngine, second: SnakeEngine)
    requires
        call_ensures(SnakeEngine::with_config, (config,), Ok(first)),
        call_ensures(SnakeEngine::with_config, (config,), Ok(second)),
    ensures
        first@ == second@,
{
}

/// Two engines of the standard layout start out the same.
pub proof fn lemma_new_repeats(first: SnakeEngine, second: SnakeEngine)
    requires
        call_ensures(SnakeEngine::new, (), first),
        call_ensures(SnakeEngine::new, (), second),
    ensures
        first@ == second@,
{
}

} // verus!

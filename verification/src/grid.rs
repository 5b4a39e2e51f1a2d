//! Row-major grid arithmetic and the occupancy picture that a snake leaves
//! on the grid.

use vstd::prelude::*;
use crate::segment::SnakeCell;

verus! {

/// True when `(row, column)` names a cell of a `height` x `width` grid.
pub open spec fn in_grid(height: nat, width: nat, row: int, column: int) -> bool {
    0 <= row < height && 0 <= column < width
}

/// Row-major index of the cell `(row, column)` in a grid `width` cells wide.
pub open spec fn cell_index(width: nat, row: int, column: int) -> int {
    row * width + column
}

/// Row-major index of the cell under `cell`.
pub open spec fn index_of(cell: SnakeCell, width: nat) -> int {
    cell_index(width, cell.row(), cell.column())
}

/// True when the cell under `cell` belongs to a `height` x `width` grid.
pub open spec fn on_grid(cell: SnakeCell, height: nat, width: nat) -> bool {
    in_grid(height, width, cell.row(), cell.column())
}

/// True when every segment of `snake` lies on the grid.
pub open spec fn all_on_grid(snake: Seq<SnakeCell>, height: nat, width: nat) -> bool {
    forall|j: int| 0 <= j < snake.len() ==> on_grid(#[trigger] snake[j], height, width)
}

/// True when no two segments of `snake` share a cell.
pub open spec fn all_apart(snake: Seq<SnakeCell>) -> bool {
    forall|i: int, j: int|
        0 <= i < j < snake.len() ==> (#[trigger] snake[i]).position
            != (#[trigger] snake[j]).position
}

/// True when some segment of `snake` lies on the cell with index `k`.
pub open spec fn covers(snake: Seq<SnakeCell>, width: nat, k: int) -> bool {
    exists|j: int| 0 <= j < snake.len() && #[trigger] index_of(snake[j], width) == k
}

/// The grid on which exactly the cells under `snake` are flagged `1`.
pub open spec fn paint(snake: Seq<SnakeCell>, width: nat, size: nat) -> Seq<u32> {
    Seq::new(size, |k: int| if covers(snake, width, k) { 1u32 } else { 0u32 })
}

/// Number of cells flagged `1`.
pub open spec fn occupied_cells(cells: Seq<u32>) -> nat
    decreases cells.len(),
{
    if cells.len() == 0 {
        0
    } else {
        occupied_cells(cells.drop_last()) + if cells.last() == 1 { 1nat } else { 0nat }
    }
}

/// A cell of the grid has an index below the grid's size.
pub proof fn lemma_index_in_range(height: nat, width: nat, row: int, column: int)
    requires
        in_grid(height, width, row, column),
    ensures
        0 <= cell_index(width, row, column) < height * width,
{
    assert(row * width + column < height * width) by (nonlinear_arith)
        requires
            0 <= row < height,
            0 <= column < width,
    ;
    assert(0 <= row * width) by (nonlinear_arith)
        requires
            0 <= row,
    ;
}

/// Two cells of the grid with the same index are the same cell.
pub proof fn lemma_index_injective(width: nat, r1: int, c1: int, r2: int, c2: int)
    requires
        0 <= c1 < width,
        0 <= c2 < width,
        cell_index(width, r1, c1) == cell_index(width, r2, c2),
    ensures
        r1 == r2,
        c1 == c2,
{
    assert(r1 == r2) by (nonlinear_arith)
        requires
            0 <= c1 < width,
            0 <= c2 < width,
            r1 * width + c1 == r2 * width + c2,
    ;
}

/// Every index below the grid's size splits into the row and the column of
/// a cell of the grid.
pub proof fn lemma_index_splits(height: nat, width: nat, k: int)
    requires
        0 < width,
        0 <= k < height * width,
    ensures
        in_grid(height, width, k / width as int, k % width as int),
        cell_index(width, k / width as int, k % width as int) == k,
{
    let w = width as int;
    vstd::arithmetic::div_mod::lemma_fundamental_div_mod(k, w);
    assert(k / w < height) by (nonlinear_arith)
        requires
            k < height * w,
            0 < w,
            k == (k / w) * w + k % w,
            0 <= k % w,
    ;
}

/// No cell of a painted grid is flagged before a snake is on it.
pub proof fn lemma_paint_empty(width: nat, size: nat)
    ensures
        paint(Seq::<SnakeCell>::empty(), width, size) =~= Seq::new(size, |k: int| 0u32),
{
}

/// A snake with one more segment covers what it covered before and the
/// cell under the new segment.
pub proof fn lemma_covers_push(snake: Seq<SnakeCell>, cell: SnakeCell, width: nat, k: int)
    ensures
        covers(snake.push(cell), width, k) == (covers(snake, width, k) || k == index_of(
            cell,
            width,
        )),
{
    let longer = snake.push(cell);
    let n = snake.len() as int;
    if covers(snake, width, k) {
        let j = choose|j: int| 0 <= j < snake.len() && #[trigger] index_of(snake[j], width) == k;
        assert(longer[j] == snake[j]);
        assert(index_of(longer[j], width) == k);
    }
    if k == index_of(cell, width) {
        assert(index_of(longer[n], width) == k);
    }
}

/// Adding one segment to a snake flags the cell under it and no other.
pub proof fn lemma_paint_push(snake: Seq<SnakeCell>, cell: SnakeCell, width: nat, size: nat)
    requires
        0 <= index_of(cell, width) < size,
    ensures
        paint(snake.push(cell), width, size) =~= paint(snake, width, size).update(
            index_of(cell, width),
            1u32,
        ),
{
    assert forall|k: int| 0 <= k < size implies #[trigger] covers(snake.push(cell), width, k) == (
    covers(snake, width, k) || k == index_of(cell, width)) by {
        lemma_covers_push(snake, cell, width, k);
    }
}

/// A grid without flags has no occupied cell.
pub proof fn lemma_occupied_blank(size: nat)
    ensures
        occupied_cells(Seq::new(size, |k: int| 0u32)) == 0,
    decreases size,
{
    if size > 0 {
        lemma_occupied_blank((size - 1) as nat);
        assert(Seq::new(size, |k: int| 0u32).drop_last() =~= Seq::new(
            (size - 1) as nat,
            |k: int| 0u32,
        ));
    }
}

/// Flagging a cell that was not flagged adds one occupied cell.
pub proof fn lemma_occupied_update(cells: Seq<u32>, k: int)
    requires
        0 <= k < cells.len(),
        cells[k] != 1,
    ensures
        occupied_cells(cells.update(k, 1u32)) == occupied_cells(cells) + 1,
    decreases cells.len(),
{
    let flagged = cells.update(k, 1u32);
    if k == cells.len() - 1 {
        assert(flagged.drop_last() =~= cells.drop_last());
    } else {
        lemma_occupied_update(cells.drop_last(), k);
        assert(flagged.drop_last() =~= cells.drop_last().update(k, 1u32));
    }
}

/// No more cells are occupied than there are cells.
pub proof fn lemma_occupied_bounded(cells: Seq<u32>)
    ensures
        occupied_cells(cells) <= cells.len(),
    decreases cells.len(),
{
    if cells.len() > 0 {
        lemma_occupied_bounded(cells.drop_last());
    }
}

/// Segments that lie on the grid and share no cell flag as many cells as
/// there are segments.
pub proof fn lemma_painted_count(snake: Seq<SnakeCell>, height: nat, width: nat)
    requires
        all_on_grid(snake, height, width),
        all_apart(snake),
    ensures
        occupied_cells(paint(snake, width, height * width)) == snake.len(),
    decreases snake.len(),
{
    let size = height * width;
    if snake.len() == 0 {
        assert(snake =~= Seq::<SnakeCell>::empty());
        lemma_paint_empty(width, size);
        lemma_occupied_blank(size);
    } else {
        let front = snake.drop_last();
        let last = snake.last();
        let k = index_of(last, width);
        assert(front.push(last) =~= snake);
        assert forall|j: int| 0 <= j < front.len() implies on_grid(
            #[trigger] front[j],
            height,
            width,
        ) by {
            assert(front[j] == snake[j]);
        }
        assert forall|i: int, j: int|
            0 <= i < j < front.len() implies (#[trigger] front[i]).position
            != (#[trigger] front[j]).position by {
            assert(front[i] == snake[i] && front[j] == snake[j]);
        }
        lemma_painted_count(front, height, width);
        lemma_index_in_range(height, width, last.row(), last.column());
        lemma_paint_push(front, last, width, size);
        if covers(front, width, k) {
            let j = choose|j: int|
                0 <= j < front.len() && #[trigger] index_of(front[j], width) == k;
            lemma_index_injective(
                width,
                snake[j].row(),
                snake[j].column(),
                last.row(),
                last.column(),
            );
        }
        lemma_occupied_update(paint(front, width, size), k);
    }
}

} // verus!

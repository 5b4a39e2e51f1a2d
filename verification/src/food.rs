//! Placing the food on a vacant cell picked by a caller-supplied draw.

use vstd::prelude::*;
use crate::grid::{cell_index, in_grid, lemma_index_splits, occupied_cells};

verus! {

/// Number of cells flagged `0`.
pub open spec fn vacancies(cells: Seq<u32>) -> nat
    decreases cells.len(),
{
    if cells.len() == 0 {
        0
    } else {
        vacancies(cells.drop_last()) + if cells.last() == 0 { 1nat } else { 0nat }
    }
}

/// True when `i` is the index of the vacant cell that has exactly `k`
/// vacant cells before it in row-major order.
pub open spec fn is_nth_vacant(cells: Seq<u32>, k: nat, i: int) -> bool {
    &&& 0 <= i < cells.len()
    &&& cells[i] == 0
    &&& vacancies(cells.take(i)) == k
}

/// Index of the vacant cell with `k` vacant cells before it.
pub open spec fn nth_vacant(cells: Seq<u32>, k: nat) -> int {
    choose|i: int| is_nth_vacant(cells, k, i)
}

/// Where the food goes on `cells` for the draw `roll`: on the vacant cell
/// number `roll` modulo the number of vacant cells, or nowhere when no cell
/// is vacant or the grid has no column.
pub open spec fn food_cell(cells: Seq<u32>, width: nat, roll: u32) -> Option<(u32, u32)> {
    let vacant = vacancies(cells);
    if vacant == 0 || width == 0 {
        None
    } else {
        let i = nth_vacant(cells, (roll as nat) % vacant);
        Some(((i / width as int) as u32, (i % width as int) as u32))
    }
}

/// A longer prefix of the grid holds at least as many vacant cells.
pub proof fn lemma_vacancies_grow(cells: Seq<u32>, a: int, b: int)
    requires
        0 <= a <= b <= cells.len(),
    ensures
        vacancies(cells.take(a)) <= vacancies(cells.take(b)),
    decreases b - a,
{
    if a < b {
        lemma_vacancies_grow(cells, a, b - 1);
        assert(cells.take(b).drop_last() =~= cells.take(b - 1));
    }
}

/// One more cell adds one vacancy if it is vacant and none otherwise.
pub proof fn lemma_vacancies_step(cells: Seq<u32>, i: int)
    requires
        0 <= i < cells.len(),
    ensures
        vacancies(cells.take(i + 1)) == vacancies(cells.take(i)) + if cells[i] == 0 {
            1nat
        } else {
            0nat
        },
{
    assert(cells.take(i + 1).drop_last() =~= cells.take(i));
}

/// At most one cell is the vacant cell number `k`.
pub proof fn lemma_nth_vacant_unique(cells: Seq<u32>, k: nat, i: int, j: int)
    requires
        is_nth_vacant(cells, k, i),
        is_nth_vacant(cells, k, j),
    ensures
        i == j,
{
    if i < j {
        lemma_vacancies_step(cells, i);
        lemma_vacancies_grow(cells, i + 1, j);
    } else if j < i {
        lemma_vacancies_step(cells, j);
        lemma_vacancies_grow(cells, j + 1, i);
    }
}

/// A cell that is the vacant cell number `k` is the one that `nth_vacant`
/// names, and `k` is below the number of vacant cells.
pub proof fn lemma_nth_vacant_found(cells: Seq<u32>, k: nat, i: int)
    requires
        is_nth_vacant(cells, k, i),
    ensures
        nth_vacant(cells, k) == i,
        k < vacancies(cells),
{
    lemma_vacancies_step(cells, i);
    lemma_vacancies_grow(cells, i + 1, cells.len() as int);
    assert(cells.take(cells.len() as int) =~= cells);
    lemma_nth_vacant_unique(cells, k, i, nth_vacant(cells, k));
}

/// On a grid whose flags are all `0` or `1`, every cell is either vacant
/// or occupied.
pub proof fn lemma_vacant_or_occupied(cells: Seq<u32>)
    requires
        forall|k: int| 0 <= k < cells.len() ==> cells[k] == 0 || cells[k] == 1,
    ensures
        vacancies(cells) + occupied_cells(cells) == cells.len(),
    decreases cells.len(),
{
    if cells.len() > 0 {
        lemma_vacant_or_occupied(cells.drop_last());
    }
}

/// Below the number of vacant cells every `k` names a vacant cell.
pub proof fn lemma_nth_vacant_exists(cells: Seq<u32>, k: nat)
    requires
        k < vacancies(cells),
    ensures
        is_nth_vacant(cells, k, nth_vacant(cells, k)),
    decreases cells.len(),
{
    let front = cells.drop_last();
    let last = cells.len() - 1;
    if k < vacancies(front) {
        lemma_nth_vacant_exists(front, k);
        let i = nth_vacant(front, k);
        assert(front.take(i) =~= cells.take(i));
        assert(is_nth_vacant(cells, k, i));
    } else {
        assert(is_nth_vacant(cells, k, last));
    }
}

/// The food is put on a vacant cell of the grid, and is left out only when
/// no cell is vacant.
pub proof fn lemma_food_on_vacant(cells: Seq<u32>, height: nat, width: nat, roll: u32)
    requires
        0 < width,
        cells.len() == height * width,
        height * width <= u32::MAX,
    ensures
        match food_cell(cells, width, roll) {
            Some(m) => {
                &&& in_grid(height, width, m.0 as int, m.1 as int)
                &&& cells[cell_index(width, m.0 as int, m.1 as int)] == 0
                &&& is_nth_vacant(
                    cells,
                    (roll as nat) % vacancies(cells),
                    cell_index(width, m.0 as int, m.1 as int),
                )
            },
            None => vacancies(cells) == 0,
        },
{
    let vacant = vacancies(cells);
    if vacant > 0 {
        let k = (roll as nat) % vacant;
        lemma_nth_vacant_exists(cells, k);
        let i = nth_vacant(cells, k);
        lemma_index_splits(height, width, i);
        assert(height <= height * width) by (nonlinear_arith)
            requires
                0 < width,
        ;
    }
}

/// Scans `cells` for the vacant cell that `roll` selects and returns its
/// `(row, column)` in a grid `width` cells wide.
pub fn place_food(cells: &Vec<u32>, width: u32, roll: u32) -> (food: Option<(u32, u32)>)
    requires
        cells.len() <= u32::MAX,
    ensures
        food == food_cell(cells@, width as nat, roll),
{
    if width == 0 {
        return None;
    }
    let len: usize = cells.len();
    let mut vacant: usize = 0;
    let mut i: usize = 0;
    while i < len
        invariant
            len == cells.len(),
            i <= len,
            vacant <= i,
            vacant == vacancies(cells@.take(i as int)),
        decreases len - i,
    {
        proof {
            lemma_vacancies_step(cells@, i as int);
        }
        if cells[i] == 0 {
            vacant = vacant + 1;
        }
        i = i + 1;
    }
    assert(cells@.take(len as int) =~= cells@);
    if vacant == 0 {
        return None;
    }
    let k: usize = (roll as usize) % vacant;
    let mut seen: usize = 0;
    i = 0;
    while cells[i] != 0 || seen != k
        invariant
            len == cells.len(),
            i < len,
            seen <= k,
            k < vacancies(cells@),
            seen == vacancies(cells@.take(i as int)),
        decreases len - i,
    {
        proof {
            lemma_vacancies_step(cells@, i as int);
            lemma_vacancies_grow(cells@, i + 1, len as int);
        }
        if cells[i] == 0 {
            seen = seen + 1;
        }
        i = i + 1;
    }
    proof {
        lemma_nth_vacant_exists(cells@, k as nat);
        lemma_nth_vacant_unique(cells@, k as nat, i as int, nth_vacant(cells@, k as nat));
    }
    let row: u32 = (i / width as usize) as u32;
    let column: u32 = (i % width as usize) as u32;
    Some((row, column))
}

} // verus!

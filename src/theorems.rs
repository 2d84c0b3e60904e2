use vstd::arithmetic::div_mod::{
    lemma_fundamental_div_mod, lemma_fundamental_div_mod_converse, lemma_mod_pos_bound,
    lemma_multiply_divide_lt,
};
use vstd::prelude::*;

use crate::grid::{
    count_of, generations, index_of, lemma_index_in_range, lemma_live_neighbors, lemma_wrap,
    live_neighbors, neighbor_alive, next_generation, wrap,
};

verus! {

/// Every cell of the board is dead.
pub open spec fn all_dead(cells: Seq<bool>) -> bool {
    forall|i: int| 0 <= i < cells.len() ==> !#[trigger] cells[i]
}

/// Every cell of the board is alive.
pub open spec fn all_alive(cells: Seq<bool>) -> bool {
    forall|i: int| 0 <= i < cells.len() ==> #[trigger] cells[i]
}

/// The column and row of an index on the board lie on the board.
pub proof fn lemma_index_coords_in_range(width: int, height: int, i: int)
    requires
        width > 0,
        height > 0,
        0 <= i < width * height,
    ensures
        0 <= i % width < width,
        0 <= i / width < height,
{
    lemma_mod_pos_bound(i, width);
    lemma_multiply_divide_lt(i, width, height);
    lemma_fundamental_div_mod(i, width);
    assert(i / width >= 0) by (nonlinear_arith)
        requires
            i == width * (i / width) + i % width,
            i % width < width,
            i >= 0,
            width > 0,
    ;
}

/// Converting a point to its index and back gives the point again.
pub proof fn lemma_coords_index_round_trip(width: int, height: int, x: int, y: int)
    requires
        width > 0,
        height > 0,
        0 <= x < width,
        0 <= y < height,
    ensures
        index_of(width, x, y) % width == x,
        index_of(width, x, y) / width == y,
{
    lemma_fundamental_div_mod_converse(index_of(width, x, y), width, y, x);
}

/// Converting an index to its point and back gives the index again.
pub proof fn lemma_index_coords_round_trip(width: int, height: int, i: int)
    requires
        width > 0,
        height > 0,
        0 <= i < width * height,
    ensures
        index_of(width, i % width, i / width) == i,
{
    lemma_fundamental_div_mod(i, width);
    assert(width * (i / width) == (i / width) * width) by (nonlinear_arith);
}

/// Each of the eight neighbours of a cell lies on the board.
pub proof fn lemma_neighbor_on_board(width: int, height: int, x: int, y: int, dx: int, dy: int)
    requires
        0 <= x < width,
        0 <= y < height,
        -1 <= dx <= 1,
        -1 <= dy <= 1,
    ensures
        0 <= index_of(width, wrap(x + dx, width), wrap(y + dy, height)) < width * height,
{
    lemma_wrap(x + dx, width);
    lemma_wrap(y + dy, height);
    lemma_index_in_range(width, height, wrap(x + dx, width), wrap(y + dy, height));
}

/// Every neighbour of every cell of a board of uniform state `s` is in
/// state `s`, so each cell sees eight live neighbours or none.
proof fn lemma_uniform_neighbors(width: int, height: int, cells: Seq<bool>, s: bool, i: int)
    requires
        width > 0,
        height > 0,
        cells.len() == width * height,
        forall|j: int| 0 <= j < cells.len() ==> #[trigger] cells[j] == s,
        0 <= i < cells.len(),
    ensures
        live_neighbors(width, height, cells, i % width, i / width) == (if s {
            8int
        } else {
            0int
        }),
{
    lemma_index_coords_in_range(width, height, i);
    let (x, y) = (i % width, i / width);
    lemma_neighbor_on_board(width, height, x, y, -1, -1);
    lemma_neighbor_on_board(width, height, x, y, 0, -1);
    lemma_neighbor_on_board(width, height, x, y, 1, -1);
    lemma_neighbor_on_board(width, height, x, y, -1, 0);
    lemma_neighbor_on_board(width, height, x, y, 1, 0);
    lemma_neighbor_on_board(width, height, x, y, -1, 1);
    lemma_neighbor_on_board(width, height, x, y, 0, 1);
    lemma_neighbor_on_board(width, height, x, y, 1, 1);
}

/// A board with no live cell has none after one generation.
pub proof fn lemma_dead_board_next(width: int, height: int, cells: Seq<bool>)
    requires
        width > 0,
        height > 0,
        cells.len() == width * height,
        all_dead(cells),
    ensures
        all_dead(next_generation(width, height, cells)),
        next_generation(width, height, cells).len() == cells.len(),
{
    assert forall|i: int| 0 <= i < cells.len() implies !#[trigger] next_generation(
        width,
        height,
        cells,
    )[i] by {
        lemma_uniform_neighbors(width, height, cells, false, i);
    }
}

/// A board with no live cell has none after any number of generations.
pub proof fn lemma_dead_board_stays_dead(width: int, height: int, cells: Seq<bool>, n: nat)
    requires
        width > 0,
        height > 0,
        cells.len() == width * height,
        all_dead(cells),
    ensures
        all_dead(generations(width, height, cells, n)),
        generations(width, height, cells, n).len() == cells.len(),
    decreases n,
{
    if n > 0 {
        lemma_dead_board_stays_dead(width, height, cells, (n - 1) as nat);
        lemma_dead_board_next(width, height, generations(width, height, cells, (n - 1) as nat));
    }
}

/// On a board where every cell is alive, every cell has eight live
/// neighbours, so every cell dies of overcrowding.
pub proof fn lemma_full_board_dies(width: int, height: int, cells: Seq<bool>)
    requires
        width > 0,
        height > 0,
        cells.len() == width * height,
        all_alive(cells),
    ensures
        forall|i: int|
            0 <= i < cells.len() ==> #[trigger] live_neighbors(
                width,
                height,
                cells,
                i % width,
                i / width,
            ) == 8,
        all_dead(next_generation(width, height, cells)),
{
    assert forall|i: int| 0 <= i < cells.len() implies #[trigger] live_neighbors(
        width,
        height,
        cells,
        i % width,
        i / width,
    ) == 8 by {
        lemma_uniform_neighbors(width, height, cells, true, i);
    }
    assert forall|i: int| 0 <= i < cells.len() implies !#[trigger] next_generation(
        width,
        height,
        cells,
    )[i] by {
        lemma_uniform_neighbors(width, height, cells, true, i);
    }
}

/// One generation depends on the dimensions and the cells alone: equal
/// boards step to equal boards.
pub proof fn lemma_update_deterministic(width: int, height: int, a: Seq<bool>, b: Seq<bool>)
    requires
        a == b,
    ensures
        next_generation(width, height, a) == next_generation(width, height, b),
{
}

/// The corner `(0, 0)` counts among its neighbours the cells of the last
/// column and the last row, across the edges of the torus: its neighbours
/// are those it would have if the board were repeated on every side.
pub proof fn lemma_corner_wraps(width: int, height: int, cells: Seq<bool>)
    requires
        width >= 3,
        height >= 3,
        cells.len() == width * height,
    ensures
        neighbor_alive(width, height, cells, 0, 0, -1, -1) == cells[index_of(
            width,
            width - 1,
            height - 1,
        )],
        live_neighbors(width, height, cells, 0, 0) == count_of(
            cells[index_of(width, width - 1, height - 1)],
        ) + count_of(cells[index_of(width, 0, height - 1)]) + count_of(
            cells[index_of(width, 1, height - 1)],
        ) + count_of(cells[index_of(width, width - 1, 0)]) + count_of(cells[index_of(width, 1, 0)])
            + count_of(cells[index_of(width, width - 1, 1)]) + count_of(cells[index_of(width, 0, 1)])
            + count_of(cells[index_of(width, 1, 1)]),
{
    lemma_wrap(0 + -1, width);
    lemma_wrap(0 + -1, height);
    lemma_live_neighbors(width, height, cells, 0, 0, width - 1, 1, height - 1, 1);
}

} // verus!

//! Row-major addressing of rectangular grids of cells.

use vstd::prelude::*;

verus! {

/// The position of cell (`x`, `y`) in a row-major grid `width` cells wide.
pub open spec fn cell_index(width: int, x: int, y: int) -> int {
    y * width + x
}

/// Every cell of a grid has a position inside the grid's storage.
pub proof fn lemma_cell_in_range(width: int, height: int, x: int, y: int)
    requires
        0 <= x < width,
        0 <= y < height,
    ensures
        0 <= cell_index(width, x, y) < width * height,
{
    assert(0 <= y * width && y * width + width <= height * width) by (nonlinear_arith)
        requires
            0 <= y < height,
            0 < width,
    ;
    assert(height * width == width * height) by (nonlinear_arith);
}

/// Two different cells never share a position.
pub proof fn lemma_cell_distinct(width: int, x1: int, y1: int, x2: int, y2: int)
    requires
        0 <= x1 < width,
        0 <= x2 < width,
        x1 != x2 || y1 != y2,
    ensures
        cell_index(width, x1, y1) != cell_index(width, x2, y2),
{
    if y1 < y2 {
        assert(y1 * width + width <= y2 * width) by (nonlinear_arith)
            requires
                y1 < y2,
                0 < width,
        ;
    } else if y2 < y1 {
        assert(y2 * width + width <= y1 * width) by (nonlinear_arith)
            requires
                y2 < y1,
                0 < width,
        ;
    }
}

/// A position in a grid determines its cell: the column is the remainder and
/// the row the quotient by the width.
pub proof fn lemma_cell_of_index(width: int, height: int, index: int)
    requires
        0 < width,
        0 <= index < width * height,
    ensures
        0 <= index % width < width,
        0 <= index / width < height,
        cell_index(width, index % width, index / width) == index,
{
    assert(index == (index / width) * width + index % width && 0 <= index % width < width
        && 0 <= index / width) by (nonlinear_arith)
        requires
            0 < width,
            0 <= index,
    ;
    assert(index / width < height) by (nonlinear_arith)
        requires
            0 < width,
            0 <= index < width * height,
            index == (index / width) * width + index % width,
            0 <= index % width,
    ;
}

/// The position of a cell gives the cell back: its remainder by the width
/// is the column and its quotient the row.
pub proof fn lemma_index_of_cell(width: int, height: int, x: int, y: int)
    requires
        0 <= x < width,
        0 <= y < height,
    ensures
        cell_index(width, x, y) % width == x,
        cell_index(width, x, y) / width == y,
{
    let index = cell_index(width, x, y);
    lemma_cell_in_range(width, height, x, y);
    lemma_cell_of_index(width, height, index);
    if index % width != x || index / width != y {
        lemma_cell_distinct(width, x, y, index % width, index / width);
    }
}

} // verus!

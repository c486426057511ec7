//! The `Grid` of `aglet` that holds the cells of a board.

use crate::board::Cell;
use aglet::{Coord, Grid};
use vstd::prelude::*;

verus! {

/// `aglet::Grid`. Nothing inside it is visible here: what a grid of cells
/// holds is `grid_cells`, and its size is `grid_width` by `grid_height`.
#[verifier::external_type_specification]
#[verifier::external_body]
#[verifier::reject_recursive_types(T)]
pub struct ExGrid<T>(Grid<T>);

/// The filled slots of a grid, by coordinate.
pub uninterp spec fn grid_cells(grid: Grid<Cell>) -> Map<Coord, Cell>;

/// The width that a grid was made with.
pub uninterp spec fn grid_width(grid: Grid<Cell>) -> u32;

/// The height that a grid was made with.
pub uninterp spec fn grid_height(grid: Grid<Cell>) -> u32;

/// Whether a coordinate lies inside the grid.
pub open spec fn inside(grid: Grid<Cell>, at: Coord) -> bool {
    at.x < grid_width(grid) && at.y < grid_height(grid)
}

/// Whether the grid has a slot for each coordinate inside it: `Grid` counts
/// its slots, width times height, as a `u32`.
pub open spec fn sound(grid: Grid<Cell>) -> bool {
    grid_width(grid) * grid_height(grid) <= u32::MAX
}

/// What the grid holds at a coordinate: nothing outside the grid, and
/// nothing in a slot that was never filled.
pub open spec fn slot(grid: Grid<Cell>, at: Coord) -> Option<Cell> {
    if inside(grid, at) && grid_cells(grid).contains_key(at) {
        Some(grid_cells(grid)[at])
    } else {
        None
    }
}

/// `Grid::new`: a grid of the given size with every slot empty. The number
/// of slots, computed as a `u32`, must not overflow.
#[verifier::external_body]
pub(crate) fn empty_grid(width: u32, height: u32) -> (grid: Grid<Cell>)
    requires
        width * height <= u32::MAX,
    ensures
        grid_width(grid) == width,
        grid_height(grid) == height,
        grid_cells(grid) == (Map::<Coord, Cell>::empty()),
{
    Grid::new(width, height)
}

/// `Clone::clone` of a `Grid`: a grid of the same size that holds a copy
/// of each cell in the same slot.
#[verifier::external_body]
pub(crate) fn copy_of(grid: &Grid<Cell>) -> (copy: Grid<Cell>)
    ensures
        grid_cells(copy) == grid_cells(*grid),
        grid_width(copy) == grid_width(*grid),
        grid_height(copy) == grid_height(*grid),
{
    grid.clone()
}

/// `Grid::width`.
#[verifier::external_body]
pub(crate) fn width_of(grid: &Grid<Cell>) -> (width: u32)
    ensures
        width == grid_width(*grid),
{
    grid.width()
}

/// `Grid::height`.
#[verifier::external_body]
pub(crate) fn height_of(grid: &Grid<Cell>) -> (height: u32)
    ensures
        height == grid_height(*grid),
{
    grid.height()
}

/// `Grid::get`, with the cell copied out: the cell in the slot at the
/// coordinate, if the coordinate lies inside the grid and the slot is
/// filled.
#[verifier::external_body]
pub(crate) fn cell_at(grid: &Grid<Cell>, at: Coord) -> (found: Option<Cell>)
    requires
        sound(*grid),
    ensures
        found == slot(*grid, at),
{
    grid.get(at).copied()
}

/// `Grid::insert`: fills the slot at a coordinate inside the grid and hands
/// back what the slot held. Outside the grid it changes nothing and gives
/// `None`.
#[verifier::external_body]
pub(crate) fn put(grid: &mut Grid<Cell>, at: Coord, cell: Cell) -> (before: Option<Cell>)
    requires
        sound(*old(grid)),
    ensures
        before == slot(*old(grid), at),
        grid_cells(*final(grid)) == (if inside(*old(grid), at) {
            grid_cells(*old(grid)).insert(at, cell)
        } else {
            grid_cells(*old(grid))
        }),
        grid_width(*final(grid)) == grid_width(*old(grid)),
        grid_height(*final(grid)) == grid_height(*old(grid)),
{
    grid.insert(at, cell)
}

/// `Grid::get_or_insert`: a handle on the slot at a coordinate inside the
/// grid, which is first filled with `fallback` if it is empty. What is
/// written through the handle is what the slot holds afterwards. Outside the
/// grid the call panics.
#[verifier::external_body]
pub(crate) fn slot_or_insert(grid: &mut Grid<Cell>, at: Coord, fallback: Cell) -> (handle:
    &mut Cell)
    requires
        sound(*old(grid)),
        inside(*old(grid), at),
    ensures
        *handle == (match slot(*old(grid), at) {
            Some(cell) => cell,
            None => fallback,
        }),
        grid_cells(*final(grid)) == grid_cells(*old(grid)).insert(at, *final(handle)),
        grid_width(*final(grid)) == grid_width(*old(grid)),
        grid_height(*final(grid)) == grid_height(*old(grid)),
{
    grid.get_or_insert(at, fallback)
}

} // verus!

//! The grid of index lists that backs the spatial hash, held in `grid::Grid`.
use vstd::prelude::*;

verus! {

#[verifier::external_type_specification]
#[verifier::external_body]
#[verifier::reject_recursive_types(T)]
pub struct ExGrid<T>(grid::Grid<T>);

/// The lists held by a grid of index lists, row by row and, within a row,
/// column by column.
pub uninterp spec fn cell_lists(g: grid::Grid<Vec<usize>>) -> Seq<Seq<Seq<usize>>>;

/// A rectangle of `rows` by `cols` lists.
pub open spec fn is_rect(c: Seq<Seq<Seq<usize>>>, rows: nat, cols: nat) -> bool {
    &&& c.len() == rows
    &&& forall|r: int| 0 <= r < rows ==> (#[trigger] c[r]).len() == cols
}

/// Relies on `grid::Grid::new`: a grid of `rows` by `cols` cells, each holding
/// `Vec::default()`, an empty list.
#[verifier::external_body]
pub(crate) fn new_grid(rows: usize, cols: usize) -> (g: grid::Grid<Vec<usize>>)
    requires
        rows > 0,
        cols > 0,
        rows * cols <= usize::MAX,
    ensures
        is_rect(cell_lists(g), rows as nat, cols as nat),
        forall|r: int, c: int|
            0 <= r < rows && 0 <= c < cols ==> (#[trigger] cell_lists(g)[r][c]).len() == 0,
{
    grid::Grid::new(rows, cols)
}

/// Relies on `Index<(usize, usize)>` of `grid::Grid`: the list at row `r` and
/// column `c`, which must lie in the grid.
#[verifier::external_body]
pub(crate) fn cell_at(g: &grid::Grid<Vec<usize>>, r: usize, c: usize) -> (v: &Vec<usize>)
    requires
        r < cell_lists(*g).len(),
        c < cell_lists(*g)[r as int].len(),
    ensures
        v@ == cell_lists(*g)[r as int][c as int],
{
    &g[(r, c)]
}

/// Relies on `IndexMut<(usize, usize)>` of `grid::Grid`: the list at row `r`
/// and column `c`, which must lie in the grid, lent out for change; no other
/// list changes.
#[verifier::external_body]
pub(crate) fn cell_at_mut(g: &mut grid::Grid<Vec<usize>>, r: usize, c: usize) -> (v: &mut Vec<usize>)
    requires
        r < cell_lists(*old(g)).len(),
        c < cell_lists(*old(g))[r as int].len(),
    ensures
        v@ == cell_lists(*old(g))[r as int][c as int],
        cell_lists(*final(g)) == cell_lists(*old(g)).update(
            r as int,
            cell_lists(*old(g))[r as int].update(c as int, final(v)@),
        ),
{
    &mut g[(r, c)]
}

/// Relies on `grid::Grid::fill`: every cell gets a clone of `Vec::new()`, an
/// empty list; the shape stays.
#[verifier::external_body]
pub(crate) fn empty_all(g: &mut grid::Grid<Vec<usize>>)
    ensures
        cell_lists(*final(g)).len() == cell_lists(*old(g)).len(),
        forall|r: int|
            0 <= r < cell_lists(*old(g)).len() ==> (#[trigger] cell_lists(*final(g))[r]).len()
                == cell_lists(*old(g))[r].len(),
        forall|r: int, c: int|
            0 <= r < cell_lists(*old(g)).len() && 0 <= c < cell_lists(*old(g))[r].len()
                ==> (#[trigger] cell_lists(*final(g))[r][c]).len() == 0,
{
    g.fill(Vec::new());
}

} // verus!

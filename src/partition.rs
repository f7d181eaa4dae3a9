//! The spatial hash: a uniform grid whose cells hold particle indices, and
//! the candidate pairs that the collision phase draws from it.
use vstd::prelude::*;
use crate::cells::{cell_at, cell_lists, empty_all, is_rect, new_grid, cell_at_mut};

verus! {

/// Whether the cell `p = (row, col)` lies in a grid of `rows` by `cols` cells.
pub open spec fn in_grid(p: (i64, i64), rows: nat, cols: nat) -> bool {
    0 <= p.0 < rows && 0 <= p.1 < cols
}

/// The indices `i`, in increasing order, whose cell `coords[i]` is `(r, c)`.
pub open spec fn members(coords: Seq<(i64, i64)>, r: int, c: int) -> Seq<usize>
    decreases coords.len(),
{
    if coords.len() == 0 {
        seq![]
    } else {
        let n = (coords.len() - 1) as int;
        let rest = members(coords.drop_last(), r, c);
        if coords[n].0 == r && coords[n].1 == c {
            rest.push(n as usize)
        } else {
            rest
        }
    }
}

/// The grid of `rows` by `cols` cells into which each index `i` of `coords`
/// has been filed at cell `coords[i]`, the indices out of the grid left out.
pub open spec fn layout(coords: Seq<(i64, i64)>, rows: nat, cols: nat) -> Seq<Seq<Seq<usize>>> {
    Seq::new(rows, |r: int| Seq::new(cols, |c: int| members(coords, r, c)))
}

/// All the lists of a grid, concatenated row by row.
pub open spec fn flat_cells(g: Seq<Seq<Seq<usize>>>) -> Seq<usize>
    decreases g.len(),
{
    if g.len() == 0 {
        seq![]
    } else {
        flat_cells(g.drop_last()) + flat_row(g.last())
    }
}

/// The lists of one row, concatenated.
pub open spec fn flat_row(row: Seq<Seq<usize>>) -> Seq<usize>
    decreases row.len(),
{
    if row.len() == 0 {
        seq![]
    } else {
        flat_row(row.drop_last()) + row.last()
    }
}

/// The pairs `(i, j)` for each `j` of `b` other than `i`, in the order of `b`.
pub open spec fn pairs_from(i: usize, b: Seq<usize>) -> Seq<(usize, usize)>
    decreases b.len(),
{
    if b.len() == 0 {
        seq![]
    } else {
        let rest = pairs_from(i, b.drop_last());
        if b.last() != i {
            rest.push((i, b.last()))
        } else {
            rest
        }
    }
}

/// The pairs of distinct indices `(i, j)` with `i` from `a` and `j` from `b`,
/// `i` in the outer order.
pub open spec fn cell_pairs(a: Seq<usize>, b: Seq<usize>) -> Seq<(usize, usize)>
    decreases a.len(),
{
    if a.len() == 0 {
        seq![]
    } else {
        cell_pairs(a.drop_last(), b) + pairs_from(a.last(), b)
    }
}

/// The `k`-th cell, `0 <= k < 9`, of the 3 by 3 block around `(r, c)`, row
/// by row.
pub open spec fn neighbour(g: Seq<Seq<Seq<usize>>>, r: int, c: int, k: int) -> Seq<usize> {
    g[r + k / 3 - 1][c + k % 3 - 1]
}

/// The pairs between the cell `(r, c)` and the first `k` cells of its block.
pub open spec fn block_pairs(g: Seq<Seq<Seq<usize>>>, r: int, c: int, k: nat) -> Seq<(usize, usize)>
    decreases k,
{
    if k == 0 {
        seq![]
    } else {
        block_pairs(g, r, c, (k - 1) as nat) + cell_pairs(g[r][c], neighbour(g, r, c, k - 1))
    }
}

/// The block pairs of the centre cells `(r, 1)` up to `(r, c - 1)`.
pub open spec fn row_sweep(g: Seq<Seq<Seq<usize>>>, r: int, c: int) -> Seq<(usize, usize)>
    decreases c,
{
    if c <= 1 {
        seq![]
    } else {
        row_sweep(g, r, c - 1) + block_pairs(g, r, c - 1, 9)
    }
}

/// The block pairs of the centre cells of rows `1` up to `r - 1`, each row
/// with the centre columns `1` up to `cols - 2`.
pub open spec fn sweep(g: Seq<Seq<Seq<usize>>>, r: int, cols: int) -> Seq<(usize, usize)>
    decreases r,
{
    if r <= 1 {
        seq![]
    } else {
        sweep(g, r - 1, cols) + row_sweep(g, r - 1, cols - 1)
    }
}

/// The candidate pairs of a grid of `rows` by `cols` cells: every cell not on
/// the grid's edge is a centre, in row-major order, and each centre is paired
/// with the nine cells of its block.
pub open spec fn candidates(g: Seq<Seq<Seq<usize>>>, rows: int, cols: int) -> Seq<(usize, usize)> {
    sweep(g, rows - 1, cols)
}

proof fn lemma_members_step(coords: Seq<(i64, i64)>, i: int, r: int, c: int)
    requires
        0 <= i < coords.len(),
    ensures
        members(coords.take(i + 1), r, c) == if coords[i].0 == r && coords[i].1 == c {
            members(coords.take(i), r, c).push(i as usize)
        } else {
            members(coords.take(i), r, c)
        },
{
    assert(coords.take(i + 1).drop_last() =~= coords.take(i));
}

proof fn lemma_pairs_from_step(i: usize, b: Seq<usize>, y: int)
    requires
        0 <= y < b.len(),
    ensures
        pairs_from(i, b.take(y + 1)) == if b[y] != i {
            pairs_from(i, b.take(y)).push((i, b[y]))
        } else {
            pairs_from(i, b.take(y))
        },
{
    assert(b.take(y + 1).drop_last() =~= b.take(y));
}

proof fn lemma_cell_pairs_step(a: Seq<usize>, b: Seq<usize>, x: int)
    requires
        0 <= x < a.len(),
    ensures
        cell_pairs(a.take(x + 1), b) == cell_pairs(a.take(x), b) + pairs_from(a[x], b),
{
    assert(a.take(x + 1).drop_last() =~= a.take(x));
}

proof fn lemma_flat_row_push(row: Seq<Seq<usize>>, c: int, v: usize)
    requires
        0 <= c < row.len(),
    ensures
        flat_row(row.update(c, row[c].push(v))).to_multiset() =~= flat_row(row).to_multiset().insert(v),
    decreases row.len(),
{
    broadcast use vstd::multiset::group_multiset_axioms;
    let row2 = row.update(c, row[c].push(v));
    if c == row.len() - 1 {
        assert(row2.drop_last() =~= row.drop_last());
        let f = flat_row(row.drop_last());
        vstd::seq_lib::lemma_multiset_commutative(f, row[c].push(v));
        vstd::seq_lib::lemma_multiset_commutative(f, row[c]);
        row[c].to_multiset_ensures();
    } else {
        assert(row2.drop_last() =~= row.drop_last().update(c, row[c].push(v)));
        lemma_flat_row_push(row.drop_last(), c, v);
        vstd::seq_lib::lemma_multiset_commutative(flat_row(row2.drop_last()), row.last());
        vstd::seq_lib::lemma_multiset_commutative(flat_row(row.drop_last()), row.last());
    }
}

proof fn lemma_flat_cells_push(g: Seq<Seq<Seq<usize>>>, r: int, c: int, v: usize)
    requires
        0 <= r < g.len(),
        0 <= c < g[r].len(),
    ensures
        flat_cells(g.update(r, g[r].update(c, g[r][c].push(v)))).to_multiset()
            =~= flat_cells(g).to_multiset().insert(v),
    decreases g.len(),
{
    broadcast use vstd::multiset::group_multiset_axioms;
    let g2 = g.update(r, g[r].update(c, g[r][c].push(v)));
    if r == g.len() - 1 {
        assert(g2.drop_last() =~= g.drop_last());
        let f = flat_cells(g.drop_last());
        lemma_flat_row_push(g[r], c, v);
        vstd::seq_lib::lemma_multiset_commutative(f, flat_row(g2[r]));
        vstd::seq_lib::lemma_multiset_commutative(f, flat_row(g[r]));
    } else {
        assert(g2.drop_last() =~= g.drop_last().update(r, g[r].update(c, g[r][c].push(v))));
        lemma_flat_cells_push(g.drop_last(), r, c, v);
        vstd::seq_lib::lemma_multiset_commutative(flat_cells(g2.drop_last()), flat_row(g.last()));
        vstd::seq_lib::lemma_multiset_commutative(flat_cells(g.drop_last()), flat_row(g.last()));
    }
}

proof fn lemma_layout_push(coords: Seq<(i64, i64)>, rows: nat, cols: nat)
    requires
        coords.len() > 0,
        in_grid(coords.last(), rows, cols),
    ensures
        ({
            let g = layout(coords.drop_last(), rows, cols);
            let (r, c) = (coords.last().0 as int, coords.last().1 as int);
            layout(coords, rows, cols) == g.update(r, g[r].update(c, g[r][c].push((coords.len() - 1) as usize)))
        }),
{
    let g = layout(coords.drop_last(), rows, cols);
    let (r, c) = (coords.last().0 as int, coords.last().1 as int);
    assert(layout(coords, rows, cols) =~~= g.update(r, g[r].update(c, g[r][c].push((coords.len() - 1) as usize))));
}

proof fn lemma_layout_multiset(coords: Seq<(i64, i64)>, rows: nat, cols: nat)
    requires
        coords.len() <= usize::MAX,
        forall|i: int| 0 <= i < coords.len() ==> in_grid(#[trigger] coords[i], rows, cols),
    ensures
        flat_cells(layout(coords, rows, cols)).to_multiset()
            =~= Seq::new(coords.len(), |i: int| i as usize).to_multiset(),
    decreases coords.len(),
{
    broadcast use vstd::multiset::group_multiset_axioms;
    let n = coords.len();
    if n == 0 {
        let g = layout(coords, rows, cols);
        lemma_flat_cells_empty(g, g.len() as int);
        assert(g.take(g.len() as int) =~= g);
        assert(flat_cells(g) =~= seq![]);
        assert(Seq::new(0, |i: int| i as usize) =~= seq![]);
    } else {
        let prefix = coords.drop_last();
        lemma_layout_multiset(prefix, rows, cols);
        lemma_layout_push(coords, rows, cols);
        let g = layout(prefix, rows, cols);
        lemma_flat_cells_push(g, coords.last().0 as int, coords.last().1 as int, (n - 1) as usize);
        let range = Seq::new(n, |i: int| i as usize);
        assert(range =~= Seq::new((n - 1) as nat, |i: int| i as usize).push((n - 1) as usize));
        Seq::new((n - 1) as nat, |i: int| i as usize).to_multiset_ensures();
    }
}

proof fn lemma_flat_row_empty(row: Seq<Seq<usize>>, j: int)
    requires
        0 <= j <= row.len(),
        forall|c: int| 0 <= c < row.len() ==> (#[trigger] row[c]).len() == 0,
    ensures
        flat_row(row.take(j)).len() == 0,
    decreases j,
{
    if j > 0 {
        assert(row.take(j).drop_last() =~= row.take(j - 1));
        lemma_flat_row_empty(row, j - 1);
    }
}

proof fn lemma_flat_cells_empty(g: Seq<Seq<Seq<usize>>>, k: int)
    requires
        0 <= k <= g.len(),
        forall|r: int, c: int| 0 <= r < g.len() && 0 <= c < g[r].len() ==> (#[trigger] g[r][c]).len() == 0,
    ensures
        flat_cells(g.take(k)).len() == 0,
    decreases k,
{
    if k > 0 {
        assert(g.take(k).drop_last() =~= g.take(k - 1));
        lemma_flat_cells_empty(g, k - 1);
        lemma_flat_row_empty(g[k - 1], g[k - 1].len() as int);
        assert(g[k - 1].take(g[k - 1].len() as int) =~= g[k - 1]);
    }
}

/// Filing the indices `0 .. n` of `coords` into a grid, each at a cell that
/// lies in the grid, then reading all cells yields each of the `n` indices
/// exactly once: none lost, none repeated.
pub proof fn lemma_hash_coverage(coords: Seq<(i64, i64)>, rows: nat, cols: nat)
    requires
        coords.len() <= usize::MAX,
        forall|i: int| 0 <= i < coords.len() ==> in_grid(#[trigger] coords[i], rows, cols),
    ensures
        flat_cells(layout(coords, rows, cols)).len() == coords.len(),
        flat_cells(layout(coords, rows, cols)).no_duplicates(),
        forall|i: usize| i < coords.len() ==> #[trigger] flat_cells(layout(coords, rows, cols)).contains(i),
        forall|v: usize| flat_cells(layout(coords, rows, cols)).contains(v) ==> v < coords.len(),
{
    broadcast use vstd::multiset::group_multiset_axioms;
    let flat = flat_cells(layout(coords, rows, cols));
    let range = Seq::new(coords.len(), |i: int| i as usize);
    lemma_layout_multiset(coords, rows, cols);
    flat.to_multiset_ensures();
    range.to_multiset_ensures();
    assert(range.no_duplicates());
    range.lemma_multiset_has_no_duplicates();
    flat.lemma_multiset_has_no_duplicates_conv();
    assert forall|i: usize| i < coords.len() implies #[trigger] flat.contains(i) by {
        assert(range[i as int] == i);
        assert(range.contains(i));
        assert(range.to_multiset().count(i) > 0);
        assert(flat.to_multiset().count(i) > 0);
    }
    assert forall|v: usize| flat.contains(v) implies v < coords.len() by {
        assert(flat.to_multiset().count(v) > 0);
        assert(range.to_multiset().count(v) > 0);
        assert(range.contains(v));
    }
}

/// Appends to `out` the pairs `(i, j)` for each `j` of `b` other than `i`.
pub(crate) fn append_pairs_from(out: &mut Vec<(usize, usize)>, i: usize, b: &Vec<usize>)
    ensures
        final(out)@ == old(out)@ + pairs_from(i, b@),
{
    let ghost start = out@;
    let mut y: usize = 0;
    assert(b@.take(0) =~= seq![]);
    assert(out@ =~= start + pairs_from(i, b@.take(0)));
    while y < b.len()
        invariant
            y <= b.len(),
            out@ == start + pairs_from(i, b@.take(y as int)),
        decreases b.len() - y,
    {
        proof {
            lemma_pairs_from_step(i, b@, y as int);
        }
        if b[y] != i {
            out.push((i, b[y]));
            assert(out@ =~= start + pairs_from(i, b@.take(y + 1)));
        }
        y += 1;
    }
    assert(b@.take(b@.len() as int) =~= b@);
}

/// Appends to `out` the pairs of distinct indices between `a` and `b`.
fn append_cell_pairs(out: &mut Vec<(usize, usize)>, a: &Vec<usize>, b: &Vec<usize>)
    ensures
        final(out)@ == old(out)@ + cell_pairs(a@, b@),
{
    let ghost start = out@;
    let mut x: usize = 0;
    assert(a@.take(0) =~= seq![]);
    assert(out@ =~= start + cell_pairs(a@.take(0), b@));
    while x < a.len()
        invariant
            x <= a.len(),
            out@ == start + cell_pairs(a@.take(x as int), b@),
        decreases a.len() - x,
    {
        proof {
            lemma_cell_pairs_step(a@, b@, x as int);
        }
        append_pairs_from(out, a[x], b);
        assert(out@ =~= start + cell_pairs(a@.take(x + 1), b@));
        x += 1;
    }
    assert(a@.take(a@.len() as int) =~= a@);
}

/// A uniform grid of cells, each holding the indices of the particles whose
/// centre lies in it.
pub struct SpatialHash {
    grid: grid::Grid<Vec<usize>>,
    rows: usize,
    cols: usize,
}

impl SpatialHash {
    /// The index lists, row by row.
    pub closed spec fn cells(&self) -> Seq<Seq<Seq<usize>>> {
        cell_lists(self.grid)
    }

    pub closed spec fn spec_rows(&self) -> nat {
        self.rows as nat
    }

    pub closed spec fn spec_cols(&self) -> nat {
        self.cols as nat
    }

    /// The grid has at least one cell and `rows` by `cols` lists.
    pub open spec fn wf(&self) -> bool {
        &&& self.spec_rows() > 0
        &&& self.spec_cols() > 0
        &&& is_rect(self.cells(), self.spec_rows(), self.spec_cols())
    }

    /// Every list of the grid is empty.
    pub open spec fn is_clear(&self) -> bool {
        forall|r: int, c: int|
            0 <= r < self.spec_rows() && 0 <= c < self.spec_cols() ==> (#[trigger] self.cells()[r][c]).len() == 0
    }

    /// A grid of `rows` by `cols` empty cells.
    pub fn new(rows: usize, cols: usize) -> (h: SpatialHash)
        requires
            rows > 0,
            cols > 0,
            rows * cols <= usize::MAX,
        ensures
            h.wf(),
            h.spec_rows() == rows,
            h.spec_cols() == cols,
            h.is_clear(),
    {
        SpatialHash { grid: new_grid(rows, cols), rows, cols }
    }

    pub fn rows(&self) -> (r: usize)
        ensures
            r == self.spec_rows(),
    {
        self.rows
    }

    pub fn cols(&self) -> (c: usize)
        ensures
            c == self.spec_cols(),
    {
        self.cols
    }

    /// The indices filed in the cell at row `r` and column `c`.
    pub fn cell(&self, r: usize, c: usize) -> (v: &Vec<usize>)
        requires
            self.wf(),
            r < self.spec_rows(),
            c < self.spec_cols(),
        ensures
            v@ == self.cells()[r as int][c as int],
    {
        cell_at(&self.grid, r, c)
    }

    /// Empties every cell; the shape stays.
    pub fn clear(&mut self)
        requires
            old(self).wf(),
        ensures
            final(self).wf(),
            final(self).spec_rows() == old(self).spec_rows(),
            final(self).spec_cols() == old(self).spec_cols(),
            final(self).is_clear(),
    {
        empty_all(&mut self.grid);
    }

    /// Files `index` in the cell at `row` and `col`; a cell out of the grid
    /// leaves the grid as it was.
    pub fn hash(&mut self, row: i64, col: i64, index: usize)
        requires
            old(self).wf(),
        ensures
            final(self).wf(),
            final(self).spec_rows() == old(self).spec_rows(),
            final(self).spec_cols() == old(self).spec_cols(),
            final(self).cells() == if in_grid((row, col), old(self).spec_rows(), old(self).spec_cols()) {
                old(self).cells().update(
                    row as int,
                    old(self).cells()[row as int].update(col as int, old(self).cells()[row as int][col as int].push(index)),
                )
            } else {
                old(self).cells()
            },
    {
        if 0 <= row && 0 <= col && (row as u64) < (self.rows as u64) && (col as u64) < (self.cols as u64) {
            cell_at_mut(&mut self.grid, row as usize, col as usize).push(index);
        }
    }

    /// Empties the grid, then files each index `i` of `coords` at the cell
    /// `coords[i] = (row, col)`; indices whose cell lies out of the grid are
    /// left out.
    pub fn rebuild(&mut self, coords: &Vec<(i64, i64)>)
        requires
            old(self).wf(),
        ensures
            final(self).wf(),
            final(self).spec_rows() == old(self).spec_rows(),
            final(self).spec_cols() == old(self).spec_cols(),
            final(self).cells() == layout(coords@, old(self).spec_rows(), old(self).spec_cols()),
    {
        self.clear();
        let ghost rows = self.rows as nat;
        let ghost cols = self.cols as nat;
        assert(self.cells() =~~= layout(coords@.take(0), rows, cols));
        let mut i: usize = 0;
        while i < coords.len()
            invariant
                self.wf(),
                self.rows == rows,
                self.cols == cols,
                i <= coords.len(),
                self.cells() == layout(coords@.take(i as int), rows, cols),
            decreases coords.len() - i,
        {
            let (row, col) = coords[i];
            self.hash(row, col, i);
            proof {
                assert forall|r: int, c: int| 0 <= r < rows && 0 <= c < cols implies
                    #[trigger] members(coords@.take(i + 1), r, c) == self.cells()[r][c] by {
                    lemma_members_step(coords@, i as int, r, c);
                }
                assert(self.cells() =~~= layout(coords@.take(i + 1), rows, cols));
            }
            i += 1;
        }
        assert(coords@.take(coords@.len() as int) =~= coords@);
    }
    /// Every index held by the grid, cell by cell in row-major order.
    pub fn indices(&self) -> (out: Vec<usize>)
        requires
            self.wf(),
        ensures
            out@ == flat_cells(self.cells()),
    {
        let ghost g = self.cells();
        let mut out: Vec<usize> = Vec::new();
        let mut r: usize = 0;
        assert(flat_cells(g.take(0)) =~= seq![]);
        while r < self.rows
            invariant
                self.wf(),
                g == self.cells(),
                r <= self.rows,
                out@ == flat_cells(g.take(r as int)),
            decreases self.rows - r,
        {
            let ghost row_start = out@;
            let mut c: usize = 0;
            assert(flat_row(g[r as int].take(0)) =~= seq![]);
            assert(out@ =~= row_start + flat_row(g[r as int].take(0)));
            while c < self.cols
                invariant
                    self.wf(),
                    g == self.cells(),
                    r < self.rows,
                    c <= self.cols,
                    out@ == row_start + flat_row(g[r as int].take(c as int)),
                decreases self.cols - c,
            {
                let ghost cell_start = out@;
                let cell = self.cell(r, c);
                let mut k: usize = 0;
                assert(out@ =~= cell_start + cell@.take(0));
                while k < cell.len()
                    invariant
                        k <= cell.len(),
                        out@ == cell_start + cell@.take(k as int),
                    decreases cell.len() - k,
                {
                    out.push(cell[k]);
                    assert(out@ =~= cell_start + cell@.take(k + 1));
                    k += 1;
                }
                assert(cell@.take(cell@.len() as int) =~= cell@);
                assert(g[r as int].take(c + 1).drop_last() =~= g[r as int].take(c as int));
                assert(out@ =~= row_start + flat_row(g[r as int].take(c + 1)));
                c += 1;
            }
            assert(g[r as int].take(self.cols as int) =~= g[r as int]);
            assert(g.take(r + 1).drop_last() =~= g.take(r as int));
            assert(out@ =~= flat_cells(g.take(r + 1)));
            r += 1;
        }
        assert(g.take(self.rows as int) =~= g);
        out
    }

    /// The candidate pairs of the collision phase: each cell off the grid's
    /// edge is a centre, in row-major order; each index `i` of a centre is
    /// paired with each index `j != i` of the nine cells of the centre's 3 by 3
    /// block, the block's cells row by row.
    pub fn candidate_pairs(&self) -> (out: Vec<(usize, usize)>)
        requires
            self.wf(),
        ensures
            out@ == candidates(self.cells(), self.spec_rows() as int, self.spec_cols() as int),
    {
        let ghost g = self.cells();
        let ghost cols = self.cols as int;
        let mut out: Vec<(usize, usize)> = Vec::new();
        let mut cr: usize = 1;
        while cr + 1 < self.rows
            invariant
                self.wf(),
                g == self.cells(),
                cols == self.cols,
                1 <= cr,
                cr + 1 <= self.rows || cr == 1,
                out@ == sweep(g, cr as int, cols),
            decreases self.rows - cr,
        {
            let ghost row_start = out@;
            let mut cc: usize = 1;
            assert(out@ =~= row_start + row_sweep(g, cr as int, 1));
            while cc + 1 < self.cols
                invariant
                    self.wf(),
                    g == self.cells(),
                    cols == self.cols,
                    1 <= cr,
                    cr + 1 < self.rows,
                    1 <= cc,
                    cc + 1 <= self.cols || cc == 1,
                    out@ == row_start + row_sweep(g, cr as int, cc as int),
                decreases self.cols - cc,
            {
                let ghost block_start = out@;
                let mut k: usize = 0;
                assert(out@ =~= block_start + block_pairs(g, cr as int, cc as int, 0));
                while k < 9
                    invariant
                        self.wf(),
                        g == self.cells(),
                        1 <= cr,
                        cr + 1 < self.rows,
                        1 <= cc,
                        cc + 1 < self.cols,
                        k <= 9,
                        out@ == block_start + block_pairs(g, cr as int, cc as int, k as nat),
                    decreases 9 - k,
                {
                    let nr = cr + k / 3 - 1;
                    let nc = cc + k % 3 - 1;
                    let centre = self.cell(cr, cc);
                    let other = self.cell(nr, nc);
                    append_cell_pairs(&mut out, centre, other);
                    assert(out@ =~= block_start + block_pairs(g, cr as int, cc as int, (k + 1) as nat));
                    k += 1;
                }
                assert(out@ =~= row_start + row_sweep(g, cr as int, cc + 1));
                cc += 1;
            }
            assert(cc == 1 || cc + 1 == self.cols);
            assert(row_sweep(g, cr as int, cc as int) == row_sweep(g, cr as int, cols - 1));
            assert(out@ =~= sweep(g, cr + 1, cols));
            cr += 1;
        }
        assert(sweep(g, cr as int, cols) == sweep(g, self.rows - 1, cols));
        out
    }
}

} // verus!

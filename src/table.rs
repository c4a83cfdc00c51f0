//! A rectangular grid of cells, stored row by row in a `grid::Grid`.
use crate::cell::{Cell, CellView};
use crate::csv::{csv_lines, push_line};
use crate::json::{
    format_json_rows, json_nested_array, json_rows, nested_scalars, nested_texts, parse_json_rows,
    ParseError,
};
use crate::numeral::string_of;
use crate::slice::{cell_texts, classify_scalars, Slice};
use vstd::prelude::*;

verus! {

#[verifier::external_type_specification]
#[verifier::external_body]
#[verifier::reject_recursive_types(T)]
pub struct ExGrid<T>(grid::Grid<T>);

#[verifier::external_type_specification]
#[verifier::external_body]
pub struct ExIoError(std::io::Error);

/// The rows that a grid of cells holds, top to bottom, each left to right.
pub uninterp spec fn grid_rows(g: grid::Grid<Cell>) -> Seq<Seq<CellView>>;

/// What a sequence of cells holds.
pub open spec fn views(v: Seq<Cell>) -> Seq<CellView> {
    v.map_values(|c: Cell| c@)
}

/// The number of columns: the length of the first row, 0 without rows.
pub open spec fn width(v: Seq<Seq<CellView>>) -> nat {
    if v.len() == 0 {
        0
    } else {
        v[0].len()
    }
}

/// Every row holds the same number of cells, and that number is not zero.
pub open spec fn rectangular(v: Seq<Seq<CellView>>) -> bool {
    forall|i: int| 0 <= i < v.len() ==> #[trigger] v[i].len() == width(v) && width(v) > 0
}

/// The cells of column `c`, top to bottom.
pub open spec fn column(v: Seq<Seq<CellView>>, c: int) -> Seq<CellView> {
    Seq::new(v.len(), |i: int| v[i][c])
}

/// The rows with `col` put in at column `idx`; into no rows, one row for
/// each cell of `col`.
pub open spec fn with_column(v: Seq<Seq<CellView>>, idx: int, col: Seq<CellView>) -> Seq<
    Seq<CellView>,
> {
    Seq::new(
        col.len(),
        |i: int|
            if v.len() == 0 {
                seq![col[i]]
            } else {
                v[i].insert(idx, col[i])
            },
    )
}

/// The rows without column `idx`; no rows at all when it was the only one.
pub open spec fn without_column(v: Seq<Seq<CellView>>, idx: int) -> Seq<Seq<CellView>> {
    if width(v) == 1 {
        Seq::empty()
    } else {
        Seq::new(v.len(), |i: int| v[i].remove(idx))
    }
}

/// Whether a row of `n` cells can go in at `idx`: it is not empty, the index
/// is at most the number of rows, and its length is the number of columns
/// unless there are no rows yet.
pub open spec fn row_fits(v: Seq<Seq<CellView>>, idx: int, n: nat) -> bool {
    &&& n > 0
    &&& 0 <= idx <= v.len()
    &&& v.len() == 0 || n == width(v)
    &&& v.len() < usize::MAX
}

/// Whether a column of `n` cells can go in at `idx`, as [`row_fits`].
pub open spec fn col_fits(v: Seq<Seq<CellView>>, idx: int, n: nat) -> bool {
    &&& n > 0
    &&& 0 <= idx <= width(v)
    &&& v.len() == 0 || n == v.len()
    &&& width(v) < usize::MAX
}

/// Whether JSON rows can make a table: no row is empty, all are equally long.
pub open spec fn even_rows(rows: Seq<Seq<Option<Seq<char>>>>) -> bool {
    forall|i: int| 0 <= i < rows.len() ==> #[trigger] rows[i].len() == rows[0].len() && rows[0].len() > 0
}

/// The texts of all cells, row by row.
pub open spec fn table_texts(v: Seq<Seq<CellView>>) -> Seq<Seq<Seq<char>>> {
    v.map_values(|row: Seq<CellView>| cell_texts(row))
}

/// Relies on `Grid::new_with_order(0, 0, Order::RowMajor)`: no rows.
#[verifier::external_body]
fn grid_empty() -> (g: grid::Grid<Cell>)
    ensures
        grid_rows(g) == Seq::<Seq<CellView>>::empty(),
{
    grid::Grid::new_with_order(0, 0, grid::Order::RowMajor)
}

/// Relies on `Grid::rows`.
#[verifier::external_body]
fn grid_row_count(g: &grid::Grid<Cell>) -> (r: usize)
    ensures
        r == grid_rows(*g).len(),
{
    g.rows()
}

/// Relies on `Grid::cols`: the length of every row, 0 without rows.
#[verifier::external_body]
fn grid_col_count(g: &grid::Grid<Cell>) -> (r: usize)
    ensures
        r == width(grid_rows(*g)),
{
    g.cols()
}

/// Relies on `Grid::get`: the cell where both indices are in range.
#[verifier::external_body]
fn grid_cell(g: &grid::Grid<Cell>, row: usize, col: usize) -> (r: Option<Cell>)
    ensures
        r is Some <==> (row < grid_rows(*g).len() && col < width(grid_rows(*g))),
        r matches Some(c) ==> c@ == grid_rows(*g)[row as int][col as int],
{
    g.get(row, col).cloned()
}

/// Relies on `Grid::get_mut`: the cell where both indices are in range;
/// what is written through it lands in the grid.
#[verifier::external_body]
fn grid_cell_mut(g: &mut grid::Grid<Cell>, row: usize, col: usize) -> (r: Option<&mut Cell>)
    ensures
        r is Some <==> (row < grid_rows(*old(g)).len() && col < width(grid_rows(*old(g)))),
        r is Some ==> (*r->Some_0)@ == grid_rows(*old(g))[row as int][col as int],
        r is Some ==> grid_rows(*final(g)) == grid_rows(*old(g)).update(
            row as int,
            grid_rows(*old(g))[row as int].update(col as int, (*final(r->Some_0))@),
        ),
        r is None ==> grid_rows(*final(g)) == grid_rows(*old(g)),
    no_unwind
{
    g.get_mut(row, col)
}

/// Relies on `Grid::iter_row`, which panics past the last row.
#[verifier::external_body]
fn grid_row(g: &grid::Grid<Cell>, row: usize) -> (r: Vec<Cell>)
    requires
        row < grid_rows(*g).len(),
    ensures
        views(r@) == grid_rows(*g)[row as int],
{
    g.iter_row(row).cloned().collect()
}

/// Relies on `Grid::iter_col`, which panics past the last column.
#[verifier::external_body]
fn grid_col(g: &grid::Grid<Cell>, col: usize) -> (r: Vec<Cell>)
    requires
        col < width(grid_rows(*g)),
    ensures
        views(r@) == column(grid_rows(*g), col as int),
{
    g.iter_col(col).cloned().collect()
}

/// Relies on `Grid::insert_row`, which panics on an empty row, on a length
/// other than the number of columns of a grid with rows, on an index past
/// the last row and when the number of rows overflows.
#[verifier::external_body]
fn grid_insert_row(g: &mut grid::Grid<Cell>, idx: usize, row: Vec<Cell>)
    requires
        row_fits(grid_rows(*old(g)), idx as int, row@.len()),
    ensures
        grid_rows(*final(g)) == grid_rows(*old(g)).insert(idx as int, views(row@)),
    no_unwind
{
    g.insert_row(idx, row)
}

/// Relies on `Grid::insert_col`, which panics as `insert_row` does, with
/// rows and columns swapped; into no rows it makes one row for each cell.
#[verifier::external_body]
fn grid_insert_col(g: &mut grid::Grid<Cell>, idx: usize, col: Vec<Cell>)
    requires
        col_fits(grid_rows(*old(g)), idx as int, col@.len()),
    ensures
        grid_rows(*final(g)) == with_column(grid_rows(*old(g)), idx as int, views(col@)),
    no_unwind
{
    g.insert_col(idx, col)
}

/// Relies on `Grid::remove_row`: `None` past the last row.
#[verifier::external_body]
fn grid_remove_row(g: &mut grid::Grid<Cell>, idx: usize) -> (r: Option<Vec<Cell>>)
    ensures
        r is Some <==> (idx < grid_rows(*old(g)).len() && width(grid_rows(*old(g))) > 0),
        r matches Some(v) ==> views(v@) == grid_rows(*old(g))[idx as int],
        r is Some ==> grid_rows(*final(g)) == grid_rows(*old(g)).remove(idx as int),
        r is None ==> grid_rows(*final(g)) == grid_rows(*old(g)),
    no_unwind
{
    g.remove_row(idx)
}

/// Relies on `Grid::remove_col`: `None` past the last column; removing the
/// only column leaves no rows.
#[verifier::external_body]
fn grid_remove_col(g: &mut grid::Grid<Cell>, idx: usize) -> (r: Option<Vec<Cell>>)
    ensures
        r is Some <==> idx < width(grid_rows(*old(g))),
        r matches Some(v) ==> views(v@) == column(grid_rows(*old(g)), idx as int),
        r is Some ==> grid_rows(*final(g)) == without_column(grid_rows(*old(g)), idx as int),
        r is None ==> grid_rows(*final(g)) == grid_rows(*old(g)),
    no_unwind
{
    g.remove_col(idx)
}

/// Relies on `Clone` of `Grid`, which clones each cell with `Cell::clone`.
#[verifier::external_body]
fn grid_copy(g: &grid::Grid<Cell>) -> (r: grid::Grid<Cell>)
    ensures
        grid_rows(r) == grid_rows(*g),
{
    g.clone()
}

/// Relies on `std::io::Write::write_all`.
#[verifier::external_body]
fn write_text<W: std::io::Write>(writer: &mut W, text: &str) -> (r: std::io::Result<()>) {
    writer.write_all(text.as_bytes())
}

/// Cells to put into a table as one row or one column.
pub trait IntoCells {
    /// What the cells hold.
    spec fn cells_view(&self) -> Seq<CellView>;

    /// Hands the cells over.
    fn into_cells(self) -> (r: Vec<Cell>)
        ensures
            views(r@) == self.cells_view(),
    ;
}

impl IntoCells for Vec<Cell> {
    open spec fn cells_view(&self) -> Seq<CellView> {
        views(self@)
    }

    fn into_cells(self) -> (r: Vec<Cell>) {
        self
    }
}

impl IntoCells for Slice {
    open spec fn cells_view(&self) -> Seq<CellView> {
        self@
    }

    fn into_cells(self) -> (r: Vec<Cell>) {
        Slice::into_cells(self)
    }
}

/// A table: rows of cells, all rows equally long.
#[derive(Debug)]
pub struct Table {
    grid: grid::Grid<Cell>,
}

impl View for Table {
    type V = Seq<Seq<CellView>>;

    closed spec fn view(&self) -> Seq<Seq<CellView>> {
        grid_rows(self.grid)
    }
}

impl Table {
    #[verifier::type_invariant]
    spec fn well_formed(self) -> bool {
        rectangular(grid_rows(self.grid))
    }

    /// A table of no rows and no columns.
    pub fn new() -> (r: Table)
        ensures
            r@ == Seq::<Seq<CellView>>::empty(),
    {
        Table { grid: grid_empty() }
    }

    /// The number of rows.
    pub fn rows(&self) -> (r: usize)
        ensures
            r == self@.len(),
    {
        grid_row_count(&self.grid)
    }

    /// The number of columns: every row holds that many cells, and it is
    /// zero only for a table without rows.
    pub fn cols(&self) -> (r: usize)
        ensures
            r == width(self@),
            forall|i: int| 0 <= i < self@.len() ==> #[trigger] self@[i].len() == r,
            r == 0 <==> self@.len() == 0,
    {
        proof {
            use_type_invariant(self);
        }
        grid_col_count(&self.grid)
    }

    /// A copy of the cell at `row`, `col`; `None` out of range.
    pub fn cell(&self, row: usize, col: usize) -> (r: Option<Cell>)
        ensures
            r is Some <==> row < self@.len() && col < width(self@),
            r matches Some(c) ==> c@ == self@[row as int][col as int],
    {
        grid_cell(&self.grid, row, col)
    }

    /// The cell at `row`, `col`, to change in place; `None` out of range.
    pub fn mut_cell(&mut self, row: usize, col: usize) -> (r: Option<&mut Cell>)
        ensures
            r is Some <==> row < old(self)@.len() && col < width(old(self)@),
            r is Some ==> (*r->Some_0)@ == old(self)@[row as int][col as int] && final(self)@ == old(
                self,
            )@.update(row as int, old(self)@[row as int].update(col as int, (*final(r->Some_0))@)),
            r is None ==> final(self)@ == old(self)@,
    {
        proof {
            use_type_invariant(&*self);
        }
        grid_cell_mut(&mut self.grid, row, col)
    }

    /// A copy of column `col`, top to bottom; `None` past the last column.
    pub fn col(&self, col: usize) -> (r: Option<Slice>)
        ensures
            r is Some <==> col < width(self@),
            r matches Some(c) ==> c@ == column(self@, col as int),
    {
        if col >= grid_col_count(&self.grid) {
            return None;
        }
        Some(Slice::from_cells(grid_col(&self.grid, col)))
    }

    /// A copy of row `row`, left to right; `None` past the last row.
    pub fn row(&self, row: usize) -> (r: Option<Slice>)
        ensures
            r is Some <==> row < self@.len(),
            r matches Some(c) ==> c@ == self@[row as int],
    {
        if row >= grid_row_count(&self.grid) {
            return None;
        }
        Some(Slice::from_cells(grid_row(&self.grid, row)))
    }

    /// Puts a row in at `idx`, moving the rows from `idx` on down by one.
    /// A row that does not fit (see [`row_fits`]) leaves the table as it is.
    pub fn insert_row<C: IntoCells>(&mut self, idx: usize, new_row: C)
        ensures
            if row_fits(old(self)@, idx as int, new_row.cells_view().len()) {
                final(self)@ == old(self)@.insert(idx as int, new_row.cells_view())
            } else {
                final(self)@ == old(self)@
            },
    {
        proof {
            use_type_invariant(&*self);
        }
        let cells = new_row.into_cells();
        let rows = grid_row_count(&self.grid);
        let cols = grid_col_count(&self.grid);
        if cells.len() > 0 && idx <= rows && (rows == 0 || cells.len() == cols) && rows < usize::MAX {
            proof {
                let v = old(self)@.insert(idx as int, views(cells@));
                assert forall|i: int| 0 <= i < v.len() implies #[trigger] v[i].len() == width(v)
                    && width(v) > 0 by {
                    assert(v[0].len() == cells@.len());
                    if i < idx {
                        assert(v[i] == old(self)@[i]);
                    } else if i > idx {
                        assert(v[i] == old(self)@[i - 1]);
                    }
                }
            }
            grid_insert_row(&mut self.grid, idx, cells);
        }
    }

    /// Puts a row in after the last one, as [`Table::insert_row`] does.
    pub fn push_row<C: IntoCells>(&mut self, new_row: C)
        ensures
            if row_fits(old(self)@, old(self)@.len() as int, new_row.cells_view().len()) {
                final(self)@ == old(self)@.push(new_row.cells_view())
            } else {
                final(self)@ == old(self)@
            },
    {
        let rows = self.rows();
        self.insert_row(rows, new_row);
        assert(old(self)@.insert(rows as int, new_row.cells_view()) =~= old(self)@.push(
            new_row.cells_view(),
        ));
    }

    /// Takes out row `idx` and hands it back; `None`, with the table as it
    /// was, past the last row.
    pub fn remove_row(&mut self, idx: usize) -> (r: Option<Slice>)
        ensures
            r is Some <==> idx < old(self)@.len(),
            r matches Some(s) ==> s@ == old(self)@[idx as int],
            r is Some ==> final(self)@ == old(self)@.remove(idx as int),
            r is None ==> final(self)@ == old(self)@,
    {
        proof {
            use_type_invariant(&*self);
            let v = old(self)@.remove(idx as int);
            if idx < old(self)@.len() {
                assert forall|i: int| 0 <= i < v.len() implies #[trigger] v[i].len() == width(v)
                    && width(v) > 0 by {
                    if i < idx {
                        assert(v[i] == old(self)@[i]);
                    } else {
                        assert(v[i] == old(self)@[i + 1]);
                    }
                    if idx == 0 {
                        assert(v[0] == old(self)@[1]);
                    } else {
                        assert(v[0] == old(self)@[0]);
                    }
                }
            }
        }
        match grid_remove_row(&mut self.grid, idx) {
            Some(cells) => Some(Slice::from_cells(cells)),
            None => None,
        }
    }

    /// Puts `new_row` in the place of row `idx` and hands the old row back.
    /// Where `idx` is past the last row or the new row does not fit the
    /// other rows, the table stays as it is and the result is `None`.
    pub fn replace_row<C: IntoCells>(&mut self, idx: usize, new_row: C) -> (r: Option<Slice>)
        ensures
            if idx < old(self)@.len() && row_fits(
                old(self)@.remove(idx as int),
                idx as int,
                new_row.cells_view().len(),
            ) {
                &&& r matches Some(s) && s@ == old(self)@[idx as int]
                &&& final(self)@ == old(self)@.update(idx as int, new_row.cells_view())
            } else {
                &&& r is None
                &&& final(self)@ == old(self)@
            },
    {
        proof {
            use_type_invariant(&*self);
        }
        let cells = new_row.into_cells();
        let rows = grid_row_count(&self.grid);
        let cols = grid_col_count(&self.grid);
        if idx < rows && cells.len() > 0 && (rows == 1 || cells.len() == cols) {
            let ghost before = self@;
            let old_row = self.remove_row(idx);
            proof {
                if rows > 1 {
                    if idx == 0 {
                        assert(self@[0] == before[1]);
                    } else {
                        assert(self@[0] == before[0]);
                    }
                }
            }
            self.insert_row(idx, cells);
            assert(before.remove(idx as int).insert(idx as int, views(cells@)) =~= before.update(
                idx as int,
                views(cells@),
            ));
            old_row
        } else {
            proof {
                if idx < rows && rows > 1 {
                    let v = old(self)@.remove(idx as int);
                    if idx == 0 {
                        assert(v[0] == old(self)@[1]);
                    } else {
                        assert(v[0] == old(self)@[0]);
                    }
                }
            }
            None
        }
    }

    /// Puts a column in at `idx`, moving the columns from `idx` on right by
    /// one; into a table without rows, one row for each cell. A column that
    /// does not fit (see [`col_fits`]) leaves the table as it is.
    pub fn insert_col<C: IntoCells>(&mut self, idx: usize, new_col: C)
        ensures
            if col_fits(old(self)@, idx as int, new_col.cells_view().len()) {
                final(self)@ == with_column(old(self)@, idx as int, new_col.cells_view())
            } else {
                final(self)@ == old(self)@
            },
    {
        proof {
            use_type_invariant(&*self);
        }
        let cells = new_col.into_cells();
        let rows = grid_row_count(&self.grid);
        let cols = grid_col_count(&self.grid);
        if cells.len() > 0 && idx <= cols && (rows == 0 || cells.len() == rows) && cols < usize::MAX {
            proof {
                let v = with_column(old(self)@, idx as int, views(cells@));
                assert forall|i: int| 0 <= i < v.len() implies #[trigger] v[i].len() == width(v)
                    && width(v) > 0 by {
                    assert(v[0].len() == cols + 1);
                }
            }
            grid_insert_col(&mut self.grid, idx, cells);
        }
    }

    /// Puts a column in after the last one, as [`Table::insert_col`] does.
    pub fn push_col<C: IntoCells>(&mut self, new_col: C)
        ensures
            if col_fits(old(self)@, width(old(self)@) as int, new_col.cells_view().len()) {
                final(self)@ == with_column(old(self)@, width(old(self)@) as int, new_col.cells_view())
            } else {
                final(self)@ == old(self)@
            },
    {
        let cols = self.cols();
        self.insert_col(cols, new_col);
    }

    /// Takes out column `idx` and hands it back; taking out the only column
    /// leaves no rows. `None`, with the table as it was, past the last
    /// column.
    pub fn remove_col(&mut self, idx: usize) -> (r: Option<Slice>)
        ensures
            r is Some <==> idx < width(old(self)@),
            r matches Some(s) ==> s@ == column(old(self)@, idx as int),
            r is Some ==> final(self)@ == without_column(old(self)@, idx as int),
            r is None ==> final(self)@ == old(self)@,
    {
        proof {
            use_type_invariant(&*self);
            let v = without_column(old(self)@, idx as int);
            if idx < width(old(self)@) && width(old(self)@) > 1 {
                assert forall|i: int| 0 <= i < v.len() implies #[trigger] v[i].len() == width(v)
                    && width(v) > 0 by {
                    assert(v[0].len() == width(old(self)@) - 1);
                }
            }
        }
        match grid_remove_col(&mut self.grid, idx) {
            Some(cells) => Some(Slice::from_cells(cells)),
            None => None,
        }
    }

    /// Puts `new_col` in the place of column `idx` and hands the old column
    /// back. Where `idx` is past the last column or the new column does not
    /// fit the other columns, the table stays as it is and the result is
    /// `None`.
    pub fn replace_col<C: IntoCells>(&mut self, idx: usize, new_col: C) -> (r: Option<Slice>)
        ensures
            if idx < width(old(self)@) && col_fits(
                without_column(old(self)@, idx as int),
                idx as int,
                new_col.cells_view().len(),
            ) {
                &&& r matches Some(s) && s@ == column(old(self)@, idx as int)
                &&& final(self)@ == with_column(
                    without_column(old(self)@, idx as int),
                    idx as int,
                    new_col.cells_view(),
                )
            } else {
                &&& r is None
                &&& final(self)@ == old(self)@
            },
    {
        proof {
            use_type_invariant(&*self);
        }
        let cells = new_col.into_cells();
        let rows = grid_row_count(&self.grid);
        let cols = grid_col_count(&self.grid);
        if idx < cols && cells.len() > 0 && (cols == 1 || cells.len() == rows) {
            let old_col = self.remove_col(idx);
            self.insert_col(idx, cells);
            old_col
        } else {
            None
        }
    }

    /// The texts of all cells, row by row.
    fn texts(&self) -> (r: Vec<Vec<String>>)
        ensures
            nested_texts(r@) == table_texts(self@),
    {
        let rows = grid_row_count(&self.grid);
        let mut out: Vec<Vec<String>> = Vec::new();
        let mut i: usize = 0;
        while i < rows
            invariant
                i <= rows == self@.len(),
                out@.len() == i,
                forall|j: int| 0 <= j < i ==> crate::json::texts((#[trigger] out@[j])@) == cell_texts(self@[j]),
            decreases rows - i,
        {
            let row = Slice::from_cells(grid_row(&self.grid, i));
            out.push(row.texts());
            i += 1;
        }
        assert(nested_texts(out@) =~= table_texts(self@));
        out
    }

    /// The table as a JSON array of rows, each an array of the cell texts:
    /// numbers too are written as strings, so that no digit is lost.
    pub fn to_string(&self) -> (r: String)
        ensures
            r@ == json_nested_array(table_texts(self@)),
    {
        format_json_rows(&self.texts())
    }

    /// Reads a JSON array of arrays of values, each classified into a cell
    /// by its text: a string as it is, `null` as empty text, any other value
    /// as its JSON text. Text that is not such JSON gives
    /// [`ParseError::Json`]; rows that are empty or unequally long give
    /// [`ParseError::Shape`].
    pub fn try_from(value: &str) -> (r: Result<Table, ParseError>)
        ensures
            match json_rows(value@) {
                None => r == Err::<Table, ParseError>(ParseError::Json),
                Some(rows) => if even_rows(rows) {
                    r matches Ok(t) && t@ == rows.map_values(
                        |row: Seq<Option<Seq<char>>>| classify_scalars(row),
                    )
                } else {
                    r == Err::<Table, ParseError>(ParseError::Shape)
                },
            },
    {
        let parsed = parse_json_rows(value);
        let rows = match parsed {
            Ok(rows) => rows,
            Err(_) => {
                return Err(ParseError::Json);
            },
        };
        let ghost texts = nested_scalars(rows@);
        assert(json_rows(value@) == Some(texts));
        let mut i: usize = 0;
        while i < rows.len()
            invariant
                i <= rows@.len(),
                texts == nested_scalars(rows@),
                json_rows(value@) == Some(texts),
                forall|j: int| 0 <= j < i ==> #[trigger] texts[j].len() == texts[0].len() && texts[0].len() > 0,
            decreases rows@.len() - i,
        {
            if rows[i].len() == 0 || rows[i].len() != rows[0].len() {
                proof {
                    assert(texts[i as int].len() == rows@[i as int]@.len());
                    assert(texts[0].len() == rows@[0]@.len());
                }
                return Err(ParseError::Shape);
            }
            assert(texts[i as int].len() == rows@[i as int]@.len());
            assert(texts[0].len() == rows@[0]@.len());
            i += 1;
        }
        let ghost want = texts.map_values(|row: Seq<Option<Seq<char>>>| classify_scalars(row));
        let mut table = Table::new();
        let mut i: usize = 0;
        while i < rows.len()
            invariant
                i <= rows@.len(),
                texts == nested_scalars(rows@),
                json_rows(value@) == Some(texts),
                even_rows(texts),
                want == texts.map_values(|row: Seq<Option<Seq<char>>>| classify_scalars(row)),
                table@ == want.take(i as int),
            decreases rows@.len() - i,
        {
            let row = Slice::from_scalars(&rows[i]);
            proof {
                assert(texts[i as int] == crate::json::scalars(rows@[i as int]@));
                assert(want[0].len() == texts[0].len());
            }
            table.push_row(row);
            i += 1;
            assert(table@ =~= want.take(i as int));
        }
        assert(want.take(i as int) =~= want);
        Ok(table)
    }

    /// The table as CSV text (see [`csv_lines`]).
    pub fn csv_text(&self) -> (r: String)
        ensures
            r@ == csv_lines(table_texts(self@)),
    {
        let texts = self.texts();
        let ghost lines = table_texts(self@);
        let mut out: Vec<char> = Vec::new();
        let mut i: usize = 0;
        while i < texts.len()
            invariant
                i <= texts@.len(),
                nested_texts(texts@) == lines,
                out@ == csv_lines(lines.take(i as int)),
            decreases texts@.len() - i,
        {
            assert(lines.take(i + 1).drop_last() =~= lines.take(i as int));
            assert(lines[i as int] == crate::json::texts(texts@[i as int]@));
            push_line(&mut out, &texts[i]);
            i += 1;
        }
        assert(lines.take(i as int) =~= lines);
        string_of(out.as_slice())
    }

    /// The table as CSV text; building it in memory does not fail.
    pub fn to_csv(&self) -> (r: Result<String, std::io::Error>)
        ensures
            r matches Ok(t) && t@ == csv_lines(table_texts(self@)),
    {
        Ok(self.csv_text())
    }

    /// Writes the CSV text of the table (see [`Table::csv_text`]) to `writer`.
    pub fn write_csv<W: std::io::Write>(&self, writer: &mut W) -> std::io::Result<()> {
        let text = self.csv_text();
        write_text(writer, text.as_str())
    }
}

impl Clone for Table {
    /// A table of the same cells.
    fn clone(&self) -> (r: Table)
        ensures
            r@ == self@,
    {
        proof {
            use_type_invariant(self);
        }
        Table { grid: grid_copy(&self.grid) }
    }
}

impl Default for Table {
    /// A table of no rows and no columns.
    fn default() -> (r: Table)
        ensures
            r@ == Seq::<Seq<CellView>>::empty(),
    {
        Table::new()
    }
}

} // verus!

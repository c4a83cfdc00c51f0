//! A row or a column: an ordered sequence of cells.
use crate::cell::{cell_difference, cell_product, cell_quotient, cell_sum, classify, Cell, CellView};
use crate::cell::cell_text;
use crate::decimal::Decimal;
use crate::json::{
    format_json_row, json_row, json_string_array, parse_json_row, scalar_string, scalar_text, scalars,
    ParseError,
};
use vstd::prelude::*;

verus! {

/// An ordered sequence of cells, such as one row or one column of a table.
#[derive(Debug)]
pub struct Slice {
    cells: Vec<Cell>,
}

impl View for Slice {
    type V = Seq<CellView>;

    closed spec fn view(&self) -> Seq<CellView> {
        self.cells@.map_values(|c: Cell| c@)
    }
}

/// Pairs the cells of `a` and `b` by index with `f`; where `b` has no cell,
/// the cell of `a` stays as it is. The result is as long as `a`.
pub open spec fn elementwise(
    a: Seq<CellView>,
    b: Seq<CellView>,
    f: spec_fn(CellView, CellView) -> CellView,
) -> Seq<CellView> {
    Seq::new(a.len(), |i: int| if i < b.len() { f(a[i], b[i]) } else { a[i] })
}

/// Applies `f` with `x` to every cell of `a`.
pub open spec fn broadcast(
    a: Seq<CellView>,
    x: CellView,
    f: spec_fn(CellView, CellView) -> CellView,
) -> Seq<CellView> {
    Seq::new(a.len(), |i: int| f(a[i], x))
}

/// Which cell operation a slice operation applies.
enum CellOp {
    Add,
    Sub,
    Mul,
    Div,
}

impl CellOp {
    spec fn meaning(self) -> spec_fn(CellView, CellView) -> CellView {
        match self {
            CellOp::Add => |a: CellView, b: CellView| cell_sum(a, b),
            CellOp::Sub => |a: CellView, b: CellView| cell_difference(a, b),
            CellOp::Mul => |a: CellView, b: CellView| cell_product(a, b),
            CellOp::Div => |a: CellView, b: CellView| cell_quotient(a, b),
        }
    }

    fn apply(&self, a: &Cell, b: &Cell) -> (r: Cell)
        ensures
            r@ == (self.meaning())(a@, b@),
    {
        match self {
            CellOp::Add => a.sum(b),
            CellOp::Sub => a.difference(b),
            CellOp::Mul => a.product(b),
            CellOp::Div => a.quotient(b),
        }
    }
}

/// The texts of the cells.
pub open spec fn cell_texts(v: Seq<CellView>) -> Seq<Seq<char>> {
    v.map_values(|c: CellView| cell_text(c))
}

/// The cells that the literals classify into.
pub open spec fn classify_all(v: Seq<Seq<char>>) -> Seq<CellView> {
    v.map_values(|t: Seq<char>| classify(t))
}

/// The cells that the texts of JSON values classify into.
pub open spec fn classify_scalars(v: Seq<Option<Seq<char>>>) -> Seq<CellView> {
    v.map_values(|x: Option<Seq<char>>| classify(scalar_text(x)))
}

impl Clone for Slice {
    fn clone(&self) -> (r: Slice)
        ensures
            r@ == self@,
    {
        Slice { cells: self.copy_cells() }
    }
}

impl Slice {
    /// A slice of no cells.
    pub fn new() -> (r: Slice)
        ensures
            r@ == Seq::<CellView>::empty(),
    {
        let r = Slice { cells: Vec::new() };
        assert(r@ =~= Seq::<CellView>::empty());
        r
    }

    /// A copy of the cells.
    fn copy_cells(&self) -> (r: Vec<Cell>)
        ensures
            r@.map_values(|c: Cell| c@) == self@,
    {
        let mut out: Vec<Cell> = Vec::new();
        let mut i: usize = 0;
        while i < self.cells.len()
            invariant
                i <= self.cells@.len(),
                out@.len() == i,
                forall|j: int| 0 <= j < i ==> (#[trigger] out@[j])@ == self@[j],
            decreases self.cells@.len() - i,
        {
            out.push(self.cells[i].clone());
            i += 1;
        }
        assert(out@.map_values(|c: Cell| c@) =~= self@);
        out
    }

    /// The cells, handed over.
    pub fn into_cells(self) -> (r: Vec<Cell>)
        ensures
            r@.map_values(|c: Cell| c@) == self@,
    {
        self.cells
    }

    /// A slice of the given cells.
    pub fn from_cells(cells: Vec<Cell>) -> (r: Slice)
        ensures
            r@ == cells@.map_values(|c: Cell| c@),
    {
        Slice { cells }
    }

    /// The literals, each classified into a cell.
    pub fn from_texts(items: &Vec<String>) -> (r: Slice)
        ensures
            r@ == classify_all(crate::json::texts(items@)),
    {
        let mut cells: Vec<Cell> = Vec::new();
        let mut i: usize = 0;
        while i < items.len()
            invariant
                i <= items@.len(),
                cells@.len() == i,
                forall|j: int| 0 <= j < i ==> (#[trigger] cells@[j])@ == classify(items@[j]@),
            decreases items@.len() - i,
        {
            cells.push(Cell::classify(items[i].as_str()));
            i += 1;
        }
        let r = Slice { cells };
        assert(r@ =~= classify_all(crate::json::texts(items@)));
        r
    }

    /// The texts of JSON values (`None` for `null`, which is empty text),
    /// each classified into a cell.
    pub fn from_scalars(items: &Vec<Option<String>>) -> (r: Slice)
        ensures
            r@ == classify_scalars(scalars(items@)),
    {
        let mut cells: Vec<Cell> = Vec::new();
        let mut i: usize = 0;
        while i < items.len()
            invariant
                i <= items@.len(),
                cells@.len() == i,
                forall|j: int|
                    0 <= j < i ==> (#[trigger] cells@[j])@ == classify(scalar_text(scalars(items@)[j])),
            decreases items@.len() - i,
        {
            let text = scalar_string(&items[i]);
            cells.push(Cell::classify(text.as_str()));
            i += 1;
        }
        let r = Slice { cells };
        assert(r@ =~= classify_scalars(scalars(items@)));
        r
    }

    /// Reads a JSON array of values, each classified into a cell by its
    /// text: a string as it is, `null` as empty text, any other value as
    /// its JSON text.
    pub fn try_from(value: &str) -> (r: Result<Slice, ParseError>)
        ensures
            match json_row(value@) {
                Some(items) => r matches Ok(sl) && sl@ == classify_scalars(items),
                None => r == Err::<Slice, ParseError>(ParseError::Json),
            },
    {
        match parse_json_row(value) {
            Ok(items) => Ok(Slice::from_scalars(&items)),
            Err(_) => Err(ParseError::Json),
        }
    }

    /// The texts of the cells.
    pub fn texts(&self) -> (r: Vec<String>)
        ensures
            crate::json::texts(r@) == cell_texts(self@),
    {
        let mut out: Vec<String> = Vec::new();
        let mut i: usize = 0;
        while i < self.cells.len()
            invariant
                i <= self.cells@.len(),
                out@.len() == i,
                forall|j: int| 0 <= j < i ==> (#[trigger] out@[j])@ == cell_text(self@[j]),
            decreases self.cells@.len() - i,
        {
            out.push(self.cells[i].to_string());
            i += 1;
        }
        assert(crate::json::texts(out@) =~= cell_texts(self@));
        out
    }

    /// The cells as a JSON array of their texts: numbers too are written
    /// as strings, so that no digit is lost.
    pub fn to_string(&self) -> (r: String)
        ensures
            r@ == json_string_array(cell_texts(self@)),
    {
        format_json_row(&self.texts())
    }

    /// Iterates over the cells.
    pub fn iter(&self) -> std::slice::Iter<'_, Cell> {
        self.cells.as_slice().iter()
    }

    /// Iterates over the cells, each to change in place.
    pub fn iter_mut(&mut self) -> std::slice::IterMut<'_, Cell> {
        cells_iter_mut(&mut self.cells)
    }

    /// Hands the cells over one by one.
    pub fn into_iter(self) -> std::vec::IntoIter<Cell> {
        self.cells.into_iter()
    }

    /// The number of cells.
    pub fn len(&self) -> (r: usize)
        ensures
            r == self@.len(),
    {
        self.cells.len()
    }

    /// A copy of the cell at `idx`.
    pub fn cell(&self, idx: usize) -> (r: Cell)
        requires
            idx < self@.len(),
        ensures
            r@ == self@[idx as int],
    {
        self.cells[idx].clone()
    }

    /// The cell at `idx`, to change in place; `None` past the end.
    pub fn mut_cell(&mut self, idx: usize) -> (r: Option<&mut Cell>)
        ensures
            r is Some <==> idx < old(self)@.len(),
            r is Some ==> (*r->Some_0)@ == old(self)@[idx as int] && final(self)@ == old(
                self,
            )@.update(idx as int, (*final(r->Some_0))@),
            r is None ==> final(self)@ == old(self)@,
    {
        if idx < self.cells.len() {
            Some(&mut self.cells[idx])
        } else {
            None
        }
    }

    /// The cells combined pairwise with those of `other` by `op`.
    fn combine(&self, other: &Slice, op: CellOp) -> (r: Slice)
        ensures
            r@ == elementwise(self@, other@, op.meaning()),
    {
        let mut out: Vec<Cell> = Vec::new();
        let mut i: usize = 0;
        while i < self.cells.len()
            invariant
                i <= self.cells@.len(),
                out@.len() == i,
                forall|j: int|
                    0 <= j < i ==> (#[trigger] out@[j])@ == elementwise(self@, other@, op.meaning())[j],
            decreases self.cells@.len() - i,
        {
            if i < other.cells.len() {
                out.push(op.apply(&self.cells[i], &other.cells[i]));
            } else {
                out.push(self.cells[i].clone());
            }
            i += 1;
        }
        let r = Slice { cells: out };
        assert(r@ =~= elementwise(self@, other@, op.meaning()));
        r
    }

    /// Applies `op` with `value` to every cell, in place.
    fn apply_each(&mut self, value: Decimal, op: CellOp)
        ensures
            final(self)@ == broadcast(old(self)@, CellView::Number(value), op.meaning()),
    {
        let x = Cell::Number(value);
        let mut out: Vec<Cell> = Vec::new();
        let mut i: usize = 0;
        while i < self.cells.len()
            invariant
                i <= self.cells@.len(),
                x@ == CellView::Number(value),
                out@.len() == i,
                forall|j: int|
                    0 <= j < i ==> (#[trigger] out@[j])@ == broadcast(self@, x@, op.meaning())[j],
            decreases self.cells@.len() - i,
        {
            out.push(op.apply(&self.cells[i], &x));
            i += 1;
        }
        let ghost target = broadcast(self@, x@, op.meaning());
        self.cells = out;
        assert(self@ =~= target);
    }

    /// Adds `value` to every number; text stays as it is.
    pub fn add_value(&mut self, value: Decimal) -> (r: &mut Slice)
        ensures
            r@ == broadcast(old(self)@, CellView::Number(value), |a: CellView, b: CellView| cell_sum(a, b)),
            *final(self) == *final(r),
    {
        self.apply_each(value, CellOp::Add);
        self
    }

    /// Subtracts `value` from every number; text stays as it is.
    pub fn sub_value(&mut self, value: Decimal) -> (r: &mut Slice)
        ensures
            r@ == broadcast(
                old(self)@,
                CellView::Number(value),
                |a: CellView, b: CellView| cell_difference(a, b),
            ),
            *final(self) == *final(r),
    {
        self.apply_each(value, CellOp::Sub);
        self
    }

    /// Multiplies every number by `value`; text stays as it is.
    pub fn mul_value(&mut self, value: Decimal) -> (r: &mut Slice)
        ensures
            r@ == broadcast(
                old(self)@,
                CellView::Number(value),
                |a: CellView, b: CellView| cell_product(a, b),
            ),
            *final(self) == *final(r),
    {
        self.apply_each(value, CellOp::Mul);
        self
    }

    /// Divides every number by `value`; a zero `value` turns every number
    /// into the divide-by-zero text; text stays as it is.
    pub fn div_value(&mut self, value: Decimal) -> (r: &mut Slice)
        ensures
            r@ == broadcast(
                old(self)@,
                CellView::Number(value),
                |a: CellView, b: CellView| cell_quotient(a, b),
            ),
            *final(self) == *final(r),
    {
        self.apply_each(value, CellOp::Div);
        self
    }
}

#[verifier::external_type_specification]
#[verifier::external_body]
#[verifier::reject_recursive_types(T)]
pub struct ExIterMut<'a, T: 'a>(std::slice::IterMut<'a, T>);

/// Relies on `<[T]>::iter_mut`: mutable references to the cells, in order.
#[verifier::external_body]
fn cells_iter_mut(cells: &mut Vec<Cell>) -> std::slice::IterMut<'_, Cell> {
    cells.iter_mut()
}

impl<'a> IntoIterator for &'a mut Slice {
    type Item = &'a mut Cell;
    type IntoIter = std::slice::IterMut<'a, Cell>;

    fn into_iter(self) -> std::slice::IterMut<'a, Cell> {
        self.iter_mut()
    }
}

impl<'a> IntoIterator for &'a Slice {
    type Item = &'a Cell;
    type IntoIter = std::slice::Iter<'a, Cell>;

    fn into_iter(self) -> std::slice::Iter<'a, Cell> {
        self.iter()
    }
}

impl<'a, 'b> std::ops::Add<&'b Slice> for &'a Slice {
    type Output = Slice;

    /// Adds cell by cell; a missing right cell leaves the left one as it is.
    fn add(self, other: &'b Slice) -> (r: Slice)
        ensures
            r@ == elementwise(self@, other@, |a: CellView, b: CellView| cell_sum(a, b)),
    {
        self.combine(other, CellOp::Add)
    }
}

impl<'a, 'b> vstd::std_specs::ops::AddSpecImpl<&'b Slice> for &'a Slice {
    open spec fn obeys_add_spec() -> bool {
        false
    }

    open spec fn add_req(self, other: &'b Slice) -> bool {
        true
    }

    closed spec fn add_spec(self, other: &'b Slice) -> Slice {
        *self
    }
}

impl<'a, 'b> std::ops::Sub<&'b Slice> for &'a Slice {
    type Output = Slice;

    /// Subtracts cell by cell; a missing right cell leaves the left one as
    /// it is.
    fn sub(self, other: &'b Slice) -> (r: Slice)
        ensures
            r@ == elementwise(self@, other@, |a: CellView, b: CellView| cell_difference(a, b)),
    {
        self.combine(other, CellOp::Sub)
    }
}

impl<'a, 'b> vstd::std_specs::ops::SubSpecImpl<&'b Slice> for &'a Slice {
    open spec fn obeys_sub_spec() -> bool {
        false
    }

    open spec fn sub_req(self, other: &'b Slice) -> bool {
        true
    }

    closed spec fn sub_spec(self, other: &'b Slice) -> Slice {
        *self
    }
}

impl<'a, 'b> std::ops::Mul<&'b Slice> for &'a Slice {
    type Output = Slice;

    /// Multiplies cell by cell; a missing right cell leaves the left one as
    /// it is.
    fn mul(self, other: &'b Slice) -> (r: Slice)
        ensures
            r@ == elementwise(self@, other@, |a: CellView, b: CellView| cell_product(a, b)),
    {
        self.combine(other, CellOp::Mul)
    }
}

impl<'a, 'b> vstd::std_specs::ops::MulSpecImpl<&'b Slice> for &'a Slice {
    open spec fn obeys_mul_spec() -> bool {
        false
    }

    open spec fn mul_req(self, other: &'b Slice) -> bool {
        true
    }

    closed spec fn mul_spec(self, other: &'b Slice) -> Slice {
        *self
    }
}

impl<'a, 'b> std::ops::Div<&'b Slice> for &'a Slice {
    type Output = Slice;

    /// Divides cell by cell; a missing right cell leaves the left one as it
    /// is.
    fn div(self, other: &'b Slice) -> (r: Slice)
        ensures
            r@ == elementwise(self@, other@, |a: CellView, b: CellView| cell_quotient(a, b)),
    {
        self.combine(other, CellOp::Div)
    }
}

impl<'a, 'b> vstd::std_specs::ops::DivSpecImpl<&'b Slice> for &'a Slice {
    open spec fn obeys_div_spec() -> bool {
        false
    }

    open spec fn div_req(self, other: &'b Slice) -> bool {
        true
    }

    closed spec fn div_spec(self, other: &'b Slice) -> Slice {
        *self
    }
}

impl Default for Slice {
    /// No cells.
    fn default() -> (r: Slice)
        ensures
            r@ == Seq::<CellView>::empty(),
    {
        Slice::new()
    }
}

impl From<Vec<Cell>> for Slice {
    /// The given cells.
    fn from(cells: Vec<Cell>) -> (r: Slice)
        ensures
            r@ == cells@.map_values(|c: Cell| c@),
    {
        Slice::from_cells(cells)
    }
}

impl vstd::std_specs::convert::FromSpecImpl<Vec<Cell>> for Slice {
    open spec fn obeys_from_spec() -> bool {
        false
    }

    closed spec fn from_spec(cells: Vec<Cell>) -> Slice {
        Slice { cells }
    }
}

impl From<Slice> for Vec<Cell> {
    /// The cells of the slice.
    fn from(slice: Slice) -> (r: Vec<Cell>)
        ensures
            r@.map_values(|c: Cell| c@) == slice@,
    {
        slice.cells
    }
}

impl vstd::std_specs::convert::FromSpecImpl<Slice> for Vec<Cell> {
    open spec fn obeys_from_spec() -> bool {
        true
    }

    closed spec fn from_spec(slice: Slice) -> Vec<Cell> {
        slice.cells
    }
}

impl From<Vec<String>> for Slice {
    /// The literals, each classified into a cell.
    fn from(items: Vec<String>) -> (r: Slice)
        ensures
            r@ == classify_all(crate::json::texts(items@)),
    {
        Slice::from_texts(&items)
    }
}

impl vstd::std_specs::convert::FromSpecImpl<Vec<String>> for Slice {
    open spec fn obeys_from_spec() -> bool {
        false
    }

    closed spec fn from_spec(items: Vec<String>) -> Slice {
        arbitrary()
    }
}

impl<'a> From<Vec<&'a str>> for Slice {
    /// The literals, each classified into a cell.
    fn from(items: Vec<&'a str>) -> (r: Slice)
        ensures
            r@ == classify_all(items@.map_values(|s: &str| s@)),
    {
        let mut cells: Vec<Cell> = Vec::new();
        let mut i: usize = 0;
        while i < items.len()
            invariant
                i <= items@.len(),
                cells@.len() == i,
                forall|j: int| 0 <= j < i ==> (#[trigger] cells@[j])@ == classify(items@[j]@),
            decreases items@.len() - i,
        {
            cells.push(Cell::classify(items[i]));
            i += 1;
        }
        let r = Slice { cells };
        assert(r@ =~= classify_all(items@.map_values(|s: &str| s@)));
        r
    }
}

impl<'a> vstd::std_specs::convert::FromSpecImpl<Vec<&'a str>> for Slice {
    open spec fn obeys_from_spec() -> bool {
        false
    }

    closed spec fn from_spec(items: Vec<&'a str>) -> Slice {
        arbitrary()
    }
}

impl From<Vec<Decimal>> for Slice {
    /// One number cell for each decimal.
    fn from(items: Vec<Decimal>) -> (r: Slice)
        ensures
            r@ == items@.map_values(|d: Decimal| CellView::Number(d)),
    {
        let mut cells: Vec<Cell> = Vec::new();
        let mut i: usize = 0;
        while i < items.len()
            invariant
                i <= items@.len(),
                cells@.len() == i,
                forall|j: int| 0 <= j < i ==> (#[trigger] cells@[j])@ == CellView::Number(items@[j]),
            decreases items@.len() - i,
        {
            cells.push(Cell::Number(items[i]));
            i += 1;
        }
        let r = Slice { cells };
        assert(r@ =~= items@.map_values(|d: Decimal| CellView::Number(d)));
        r
    }
}

impl vstd::std_specs::convert::FromSpecImpl<Vec<Decimal>> for Slice {
    open spec fn obeys_from_spec() -> bool {
        false
    }

    closed spec fn from_spec(items: Vec<Decimal>) -> Slice {
        arbitrary()
    }
}

} // verus!

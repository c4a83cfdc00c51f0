//! A table cell: free text or an exact decimal number.
use crate::decimal::{
    checked_difference, checked_product, checked_quotient, checked_sum, compare_decimals,
    decimal_difference, decimal_parsed, decimal_product, decimal_quotient, decimal_sum,
    decimal_text, exact_numeral, format_decimal, numeral_value, parse_decimal, value_cmp, Decimal,
};
use crate::decimal::{canonical_numeral, lemma_numeral_text};
use crate::numeral::{chars_of, drop_commas, is_numeric_literal, numeric_literal, string_of, without_commas};
use std::cmp::Ordering;
use vstd::prelude::*;

verus! {

/// The text that replaces a number divided by zero.
pub const DIV0: &'static str = "#DIV/0";

/// The characters of [`DIV0`].
pub open spec fn div0_text() -> Seq<char> {
    seq!['#', 'D', 'I', 'V', '/', '0']
}

/// What a cell holds, as a mathematical value.
pub enum CellView {
    Text(Seq<char>),
    Number(Decimal),
}

/// A single cell of a table.
#[derive(Debug, PartialEq)]
pub enum Cell {
    /// Text, kept as it was given.
    Text(String),
    /// An exact decimal number.
    Number(Decimal),
}

impl View for Cell {
    type V = CellView;

    open spec fn view(&self) -> CellView {
        match self {
            Cell::Text(s) => CellView::Text(s@),
            Cell::Number(d) => CellView::Number(*d),
        }
    }
}

/// How a literal is classified: a numeric literal whose commas-free form
/// parses as a decimal becomes that number; anything else stays text, as
/// written.
pub open spec fn classify(s: Seq<char>) -> CellView {
    if numeric_literal(s) {
        let t = without_commas(s);
        if exact_numeral(t) {
            CellView::Number(numeral_value(t))
        } else {
            match decimal_parsed(t) {
                Some(d) => CellView::Number(d),
                None => CellView::Text(s),
            }
        }
    } else {
        CellView::Text(s)
    }
}

/// The text form of a cell: text as it is, a number in its decimal form.
pub open spec fn cell_text(c: CellView) -> Seq<char> {
    match c {
        CellView::Text(s) => s,
        CellView::Number(d) => decimal_text(d),
    }
}

/// `a + b` on cells: the sum of two numbers; the left operand unchanged
/// when either is text, or when the sum overflows.
pub open spec fn cell_sum(a: CellView, b: CellView) -> CellView {
    match (a, b) {
        (CellView::Number(x), CellView::Number(y)) => match decimal_sum(x, y) {
            Some(z) => CellView::Number(z),
            None => a,
        },
        _ => a,
    }
}

/// `a - b` on cells, as [`cell_sum`] with the difference.
pub open spec fn cell_difference(a: CellView, b: CellView) -> CellView {
    match (a, b) {
        (CellView::Number(x), CellView::Number(y)) => match decimal_difference(x, y) {
            Some(z) => CellView::Number(z),
            None => a,
        },
        _ => a,
    }
}

/// `a * b` on cells, as [`cell_sum`] with the product.
pub open spec fn cell_product(a: CellView, b: CellView) -> CellView {
    match (a, b) {
        (CellView::Number(x), CellView::Number(y)) => match decimal_product(x, y) {
            Some(z) => CellView::Number(z),
            None => a,
        },
        _ => a,
    }
}

/// `a / b` on cells: a number divided by a zero number gives the text
/// [`DIV0`]; otherwise as [`cell_sum`] with the quotient.
pub open spec fn cell_quotient(a: CellView, b: CellView) -> CellView {
    match (a, b) {
        (CellView::Number(x), CellView::Number(y)) => if y.is_zero_spec() {
            CellView::Text(div0_text())
        } else {
            match decimal_quotient(x, y) {
                Some(z) => CellView::Number(z),
                None => a,
            }
        },
        _ => a,
    }
}

/// Lexicographic order of texts, character by character.
pub open spec fn text_cmp(a: Seq<char>, b: Seq<char>) -> Ordering
    decreases a.len(),
{
    if a.len() == 0 {
        if b.len() == 0 {
            Ordering::Equal
        } else {
            Ordering::Less
        }
    } else if b.len() == 0 {
        Ordering::Greater
    } else if a[0] < b[0] {
        Ordering::Less
    } else if a[0] > b[0] {
        Ordering::Greater
    } else {
        text_cmp(a.skip(1), b.skip(1))
    }
}

/// How two cells compare: numbers by value, texts lexicographically, a
/// number and a text not at all.
pub open spec fn cell_cmp(a: CellView, b: CellView) -> Option<Ordering> {
    match (a, b) {
        (CellView::Number(x), CellView::Number(y)) => Some(value_cmp(x, y)),
        (CellView::Text(s), CellView::Text(t)) => Some(text_cmp(s, t)),
        _ => None,
    }
}

/// A numeric literal whose digits a decimal holds exactly classifies as
/// that number, and its text is the canonical form of the literal: no
/// grouping commas, no `+`, no leading zeros, the fraction as written.
pub proof fn lemma_numeric_literal_is_number(s: Seq<char>)
    requires
        numeric_literal(s),
        exact_numeral(without_commas(s)),
    ensures
        classify(s) == CellView::Number(numeral_value(without_commas(s))),
        cell_text(classify(s)) == canonical_numeral(without_commas(s)),
{
    lemma_numeral_text(without_commas(s));
}

/// A literal that is not a numeric literal stays text; and whenever a
/// literal classifies as text, the text is the literal as written.
pub proof fn lemma_text_keeps_literal(s: Seq<char>)
    ensures
        !numeric_literal(s) ==> classify(s) == CellView::Text(s),
        classify(s) is Text ==> classify(s) == CellView::Text(s),
        classify(s) is Text ==> cell_text(classify(s)) == s,
{
}

/// The divide-by-zero text is text: dividing it again, by any cell or by
/// any number in place, leaves it as it is.
pub proof fn lemma_div0_stays(x: CellView)
    ensures
        cell_quotient(CellView::Text(div0_text()), x) == CellView::Text(div0_text()),
        cell_text(cell_quotient(CellView::Text(div0_text()), x)) == div0_text(),
{
}

/// Compares two texts character by character.
fn compare_texts(a: &str, b: &str) -> (r: Ordering)
    ensures
        r == text_cmp(a@, b@),
{
    let x = chars_of(a);
    let y = chars_of(b);
    let mut i: usize = 0;
    assert(x@.skip(0) =~= x@ && y@.skip(0) =~= y@);
    while i < x.len() && i < y.len()
        invariant
            x@ == a@,
            y@ == b@,
            i <= x@.len(),
            i <= y@.len(),
            text_cmp(a@, b@) == text_cmp(x@.skip(i as int), y@.skip(i as int)),
        decreases x@.len() - i,
    {
        let c = x[i];
        let d = y[i];
        assert(x@.skip(i as int)[0] == c && y@.skip(i as int)[0] == d);
        if c < d {
            return Ordering::Less;
        } else if c > d {
            return Ordering::Greater;
        }
        assert(x@.skip(i as int).skip(1) =~= x@.skip(i + 1));
        assert(y@.skip(i as int).skip(1) =~= y@.skip(i + 1));
        i += 1;
    }
    if i < x.len() {
        Ordering::Greater
    } else if i < y.len() {
        Ordering::Less
    } else {
        Ordering::Equal
    }
}

/// A value that a cell can be compared with.
pub trait CellLike {
    /// The cell that the value stands for.
    spec fn cell_view(&self) -> CellView;

    /// Makes that cell.
    fn to_cell(&self) -> (c: Cell)
        ensures
            c@ == self.cell_view(),
    ;
}

impl CellLike for str {
    open spec fn cell_view(&self) -> CellView {
        classify(self@)
    }

    fn to_cell(&self) -> (c: Cell) {
        Cell::classify(self)
    }
}

impl CellLike for String {
    open spec fn cell_view(&self) -> CellView {
        classify(self@)
    }

    fn to_cell(&self) -> (c: Cell) {
        Cell::classify(self.as_str())
    }
}

impl CellLike for Decimal {
    open spec fn cell_view(&self) -> CellView {
        CellView::Number(*self)
    }

    fn to_cell(&self) -> (c: Cell) {
        Cell::Number(*self)
    }
}

impl CellLike for Cell {
    open spec fn cell_view(&self) -> CellView {
        self@
    }

    fn to_cell(&self) -> (c: Cell) {
        self.clone()
    }
}

impl Clone for Cell {
    fn clone(&self) -> (r: Cell)
        ensures
            r == *self,
    {
        match self {
            Cell::Text(s) => Cell::Text(s.clone()),
            Cell::Number(d) => Cell::Number(*d),
        }
    }
}

impl Cell {
    /// Classifies a literal: a number where it is a numeric literal that
    /// parses as a decimal, else the literal as text.
    pub fn classify(s: &str) -> (r: Cell)
        ensures
            r@ == classify(s@),
    {
        let cs = chars_of(s);
        if is_numeric_literal(&cs) {
            let plain = drop_commas(&cs);
            let t = string_of(plain.as_slice());
            match parse_decimal(t.as_str()) {
                Some(d) => {
                    return Cell::Number(d);
                },
                None => {},
            }
        }
        Cell::Text(s.to_owned())
    }

    /// The text form: text as it is, a number in its decimal form.
    pub fn to_string(&self) -> (r: String)
        ensures
            r@ == cell_text(self@),
    {
        match self {
            Cell::Text(s) => s.clone(),
            Cell::Number(d) => format_decimal(*d),
        }
    }

    /// Whether this cell holds text.
    pub fn is_text(&self) -> (r: bool)
        ensures
            r == (self@ is Text),
    {
        match self {
            Cell::Text(_) => true,
            Cell::Number(_) => false,
        }
    }

    /// Whether this cell holds a number.
    pub fn is_number(&self) -> (r: bool)
        ensures
            r == (self@ is Number),
    {
        !self.is_text()
    }

    /// The number, if this cell holds one.
    pub fn to_decimal(&self) -> (r: Option<Decimal>)
        ensures
            r == (match self@ {
                CellView::Number(d) => Some(d),
                CellView::Text(_) => None,
            }),
    {
        match self {
            Cell::Number(d) => Some(*d),
            Cell::Text(_) => None,
        }
    }

    /// Replaces the whole content with that of `new_value`.
    pub fn replace_value(&mut self, new_value: &Cell)
        ensures
            *final(self) == *new_value,
    {
        *self = new_value.clone();
    }

    /// The sum of two numbers; otherwise this cell, unchanged.
    pub fn sum(&self, other: &Cell) -> (r: Cell)
        ensures
            r@ == cell_sum(self@, other@),
    {
        match (self, other) {
            (Cell::Number(x), Cell::Number(y)) => match checked_sum(*x, *y) {
                Some(z) => Cell::Number(z),
                None => self.clone(),
            },
            _ => self.clone(),
        }
    }

    /// The difference of two numbers; otherwise this cell, unchanged.
    pub fn difference(&self, other: &Cell) -> (r: Cell)
        ensures
            r@ == cell_difference(self@, other@),
    {
        match (self, other) {
            (Cell::Number(x), Cell::Number(y)) => match checked_difference(*x, *y) {
                Some(z) => Cell::Number(z),
                None => self.clone(),
            },
            _ => self.clone(),
        }
    }

    /// The product of two numbers; otherwise this cell, unchanged.
    pub fn product(&self, other: &Cell) -> (r: Cell)
        ensures
            r@ == cell_product(self@, other@),
    {
        match (self, other) {
            (Cell::Number(x), Cell::Number(y)) => match checked_product(*x, *y) {
                Some(z) => Cell::Number(z),
                None => self.clone(),
            },
            _ => self.clone(),
        }
    }

    /// The quotient of two numbers, [`DIV0`] for a zero divisor; otherwise
    /// this cell, unchanged.
    pub fn quotient(&self, other: &Cell) -> (r: Cell)
        ensures
            r@ == cell_quotient(self@, other@),
    {
        match (self, other) {
            (Cell::Number(x), Cell::Number(y)) => if y.is_zero() {
                Cell::div0()
            } else {
                match checked_quotient(*x, *y) {
                    Some(z) => Cell::Number(z),
                    None => self.clone(),
                }
            },
            _ => self.clone(),
        }
    }

    /// Adds `value` to a number; text stays as it is.
    pub fn add_value(&mut self, value: Decimal)
        ensures
            final(self)@ == cell_sum(old(self)@, CellView::Number(value)),
    {
        match self.to_decimal() {
            Some(d) => match checked_sum(d, value) {
                Some(z) => *self = Cell::Number(z),
                None => {},
            },
            None => {},
        }
    }

    /// Subtracts `value` from a number; text stays as it is.
    pub fn sub_value(&mut self, value: Decimal)
        ensures
            final(self)@ == cell_difference(old(self)@, CellView::Number(value)),
    {
        match self.to_decimal() {
            Some(d) => match checked_difference(d, value) {
                Some(z) => *self = Cell::Number(z),
                None => {},
            },
            None => {},
        }
    }

    /// Multiplies a number by `value`; text stays as it is.
    pub fn mul_value(&mut self, value: Decimal)
        ensures
            final(self)@ == cell_product(old(self)@, CellView::Number(value)),
    {
        match self.to_decimal() {
            Some(d) => match checked_product(d, value) {
                Some(z) => *self = Cell::Number(z),
                None => {},
            },
            None => {},
        }
    }

    /// Divides a number by `value`; a zero `value` turns a number into the
    /// text [`DIV0`]; text stays as it is.
    pub fn div_value(&mut self, value: Decimal)
        ensures
            final(self)@ == cell_quotient(old(self)@, CellView::Number(value)),
    {
        match self.to_decimal() {
            Some(d) => if value.is_zero() {
                *self = Cell::div0();
            } else {
                match checked_quotient(d, value) {
                    Some(z) => *self = Cell::Number(z),
                    None => {},
                }
            },
            None => {},
        }
    }

    /// The text [`DIV0`].
    fn div0() -> (r: Cell)
        ensures
            r@ == CellView::Text(div0_text()),
    {
        let lit = DIV0;
        proof {
            reveal_strlit("#DIV/0");
            assert(lit@ =~= div0_text());
        }
        Cell::Text(lit.to_owned())
    }

    /// Whether the text form is [`DIV0`].
    pub fn is_divide_by_zero(&self) -> (r: bool)
        ensures
            r == (cell_text(self@) == div0_text()),
    {
        let text = self.to_string();
        let marker = Cell::div0().to_string();
        text == marker
    }

    /// Compares with a value taken as a cell: numbers by value, texts
    /// lexicographically, and `None` for a number against a text.
    pub fn compare_value<T: ?Sized + CellLike>(&self, other_value: &T) -> (r: Option<Ordering>)
        ensures
            r == cell_cmp(self@, other_value.cell_view()),
    {
        let other = other_value.to_cell();
        match (self, &other) {
            (Cell::Number(x), Cell::Number(y)) => Some(compare_decimals(*x, *y)),
            (Cell::Text(s), Cell::Text(t)) => Some(compare_texts(s.as_str(), t.as_str())),
            _ => None,
        }
    }

    /// Whether the two compare as equal.
    pub fn equal_value<T: ?Sized + CellLike>(&self, other_value: &T) -> (r: bool)
        ensures
            r == (cell_cmp(self@, other_value.cell_view()) == Some(Ordering::Equal)),
    {
        match self.compare_value(other_value) {
            Some(Ordering::Equal) => true,
            _ => false,
        }
    }
}


impl<'a, 'b> std::ops::Add<&'b Cell> for &'a Cell {
    type Output = Cell;

    /// The sum of two numbers; otherwise the left operand, unchanged.
    fn add(self, other: &'b Cell) -> (r: Cell)
        ensures
            r@ == cell_sum(self@, other@),
    {
        self.sum(other)
    }
}

impl<'a, 'b> vstd::std_specs::ops::AddSpecImpl<&'b Cell> for &'a Cell {
    open spec fn obeys_add_spec() -> bool {
        false
    }

    open spec fn add_req(self, other: &'b Cell) -> bool {
        true
    }

    closed spec fn add_spec(self, other: &'b Cell) -> Cell {
        *self
    }
}

impl<'a, 'b> std::ops::Sub<&'b Cell> for &'a Cell {
    type Output = Cell;

    /// The difference of two numbers; otherwise the left operand, unchanged.
    fn sub(self, other: &'b Cell) -> (r: Cell)
        ensures
            r@ == cell_difference(self@, other@),
    {
        self.difference(other)
    }
}

impl<'a, 'b> vstd::std_specs::ops::SubSpecImpl<&'b Cell> for &'a Cell {
    open spec fn obeys_sub_spec() -> bool {
        false
    }

    open spec fn sub_req(self, other: &'b Cell) -> bool {
        true
    }

    closed spec fn sub_spec(self, other: &'b Cell) -> Cell {
        *self
    }
}

impl<'a, 'b> std::ops::Mul<&'b Cell> for &'a Cell {
    type Output = Cell;

    /// The product of two numbers; otherwise the left operand, unchanged.
    fn mul(self, other: &'b Cell) -> (r: Cell)
        ensures
            r@ == cell_product(self@, other@),
    {
        self.product(other)
    }
}

impl<'a, 'b> vstd::std_specs::ops::MulSpecImpl<&'b Cell> for &'a Cell {
    open spec fn obeys_mul_spec() -> bool {
        false
    }

    open spec fn mul_req(self, other: &'b Cell) -> bool {
        true
    }

    closed spec fn mul_spec(self, other: &'b Cell) -> Cell {
        *self
    }
}

impl<'a, 'b> std::ops::Div<&'b Cell> for &'a Cell {
    type Output = Cell;

    /// The quotient of two numbers, [`DIV0`] for a zero divisor; otherwise
    /// the left operand, unchanged.
    fn div(self, other: &'b Cell) -> (r: Cell)
        ensures
            r@ == cell_quotient(self@, other@),
    {
        self.quotient(other)
    }
}

impl<'a, 'b> vstd::std_specs::ops::DivSpecImpl<&'b Cell> for &'a Cell {
    open spec fn obeys_div_spec() -> bool {
        false
    }

    open spec fn div_req(self, other: &'b Cell) -> bool {
        true
    }

    closed spec fn div_spec(self, other: &'b Cell) -> Cell {
        *self
    }
}

impl Default for Cell {
    /// Empty text.
    fn default() -> (r: Cell)
        ensures
            r@ == CellView::Text(Seq::empty()),
    {
        Cell::Text(String::new())
    }
}

impl<'a> From<&'a str> for Cell {
    /// Classifies the literal.
    fn from(s: &'a str) -> (r: Cell)
        ensures
            r@ == classify(s@),
    {
        Cell::classify(s)
    }
}

impl<'a> vstd::std_specs::convert::FromSpecImpl<&'a str> for Cell {
    open spec fn obeys_from_spec() -> bool {
        false
    }

    closed spec fn from_spec(s: &'a str) -> Cell {
        Cell::Number(Decimal::zero_spec())
    }
}

impl From<String> for Cell {
    /// Classifies the literal.
    fn from(s: String) -> (r: Cell)
        ensures
            r@ == classify(s@),
    {
        Cell::classify(s.as_str())
    }
}

impl vstd::std_specs::convert::FromSpecImpl<String> for Cell {
    open spec fn obeys_from_spec() -> bool {
        false
    }

    closed spec fn from_spec(s: String) -> Cell {
        Cell::Number(Decimal::zero_spec())
    }
}

impl<'a> From<&'a String> for Cell {
    /// Classifies the literal.
    fn from(s: &'a String) -> (r: Cell)
        ensures
            r@ == classify(s@),
    {
        Cell::classify(s.as_str())
    }
}

impl<'a> vstd::std_specs::convert::FromSpecImpl<&'a String> for Cell {
    open spec fn obeys_from_spec() -> bool {
        false
    }

    closed spec fn from_spec(s: &'a String) -> Cell {
        Cell::Number(Decimal::zero_spec())
    }
}

impl From<Decimal> for Cell {
    /// The number.
    fn from(d: Decimal) -> (r: Cell)
        ensures
            r@ == CellView::Number(d),
    {
        Cell::Number(d)
    }
}

impl vstd::std_specs::convert::FromSpecImpl<Decimal> for Cell {
    open spec fn obeys_from_spec() -> bool {
        false
    }

    closed spec fn from_spec(d: Decimal) -> Cell {
        Cell::Number(Decimal::zero_spec())
    }
}

impl<'a> From<&'a Decimal> for Cell {
    /// The number.
    fn from(d: &'a Decimal) -> (r: Cell)
        ensures
            r@ == CellView::Number(*d),
    {
        Cell::Number(*d)
    }
}

impl<'a> vstd::std_specs::convert::FromSpecImpl<&'a Decimal> for Cell {
    open spec fn obeys_from_spec() -> bool {
        false
    }

    closed spec fn from_spec(d: &'a Decimal) -> Cell {
        Cell::Number(Decimal::zero_spec())
    }
}

impl<'a> From<&'a Cell> for Cell {
    /// A copy of the cell.
    fn from(c: &'a Cell) -> (r: Cell)
        ensures
            r@ == c@,
    {
        c.clone()
    }
}

impl<'a> vstd::std_specs::convert::FromSpecImpl<&'a Cell> for Cell {
    open spec fn obeys_from_spec() -> bool {
        false
    }

    closed spec fn from_spec(c: &'a Cell) -> Cell {
        Cell::Number(Decimal::zero_spec())
    }
}


impl TryFrom<Cell> for Decimal {
    type Error = String;

    /// The number of a number cell; an error for text.
    fn try_from(cell: Cell) -> (r: Result<Decimal, String>)
        ensures
            match cell@ {
                CellView::Number(d) => r == Ok::<Decimal, String>(d),
                CellView::Text(_) => r is Err,
            },
    {
        match cell {
            Cell::Number(d) => Ok(d),
            Cell::Text(_) => Err("Cell is not a number".to_owned()),
        }
    }
}

impl vstd::std_specs::convert::TryFromSpecImpl<Cell> for Decimal {
    open spec fn obeys_try_from_spec() -> bool {
        false
    }

    closed spec fn try_from_spec(cell: Cell) -> Result<Decimal, String> {
        Ok(Decimal::zero_spec())
    }
}

} // verus!

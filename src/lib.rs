//! Typed in-memory tables whose cells hold text or exact decimal numbers.
//!
//! A [`Cell`] holds free text or an exact [`Decimal`]; a literal becomes a
//! number only where it reads as one. A [`Slice`] is a row or a column, with
//! arithmetic cell by cell. A [`Table`] is a rectangular grid of cells that
//! reads and writes JSON and writes CSV.
pub mod cell;
pub mod csv;
pub mod decimal;
pub mod json;
pub mod numeral;
pub mod slice;
pub mod table;

pub use cell::Cell;
pub use decimal::Decimal;
pub use json::ParseError;
pub use slice::Slice;
pub use table::Table;

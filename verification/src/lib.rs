//! A verified bridge between structured application values and the flat,
//! typed cells of a relational row.
//!
//! [`cell`] holds the closed set of scalar kinds that a column can store,
//! with the conversion of each native scalar to a cell and back.
//! [`value`] and [`shape`] describe structured values and the forms they
//! are rebuilt as; [`describe`] does so for the native scalar types.
//! [`ser`] walks a value and produces its cells, in order for positional
//! binding or, through [`named`], under their names for named binding.
//! [`de`] takes the column names of a statement and one row of cells and
//! rebuilds a value of a requested shape; [`rows`] does so for the rows
//! of a cursor, one after the other. [`laws`] proves that the two
//! directions undo each other.
//!
//! Real numbers are carried as their IEEE-754 binary64 bit pattern, so
//! that every operation of the crate is exact integer logic. Executing
//! statements and fetching rows is left to the caller.
pub mod cell;
pub mod de;
pub mod describe;
pub mod error;
pub mod gather;
pub mod laws;
pub mod named;
pub mod names;
pub mod rows;
pub mod ser;
pub mod shape;
pub mod value;

pub use cell::{Cell, NamedCell};
pub use de::{check_arity, from_cell, from_row};
pub use describe::{from_cell_as, from_row_as, to_params_of, Describe};
pub use error::{Error, ScalarKind};
pub use named::NamedParams;
pub use rows::{from_rows, DeserializedRows};
pub use ser::{serialize, to_cell, to_key, to_params, to_params_named};
pub use shape::{FieldShape, Shape};
pub use value::{Entry, Field, Value};

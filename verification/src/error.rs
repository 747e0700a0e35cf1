//! The ways in which a conversion can fail.
use vstd::prelude::*;
use crate::cell::{Cell, CellView};

verus! {

/// The scalar destinations that a single cell can be decoded into.
#[derive(Debug, Clone, Copy, PartialEq, Eq, Structural)]
pub enum ScalarKind {
    Bool,
    I8,
    I16,
    I32,
    I64,
    U8,
    U16,
    U32,
    U64,
    Real,
    Char,
    Text,
    Bytes,
    Variant,
}

/// A failed conversion. Every failure is handed to the caller; none is
/// retried or swallowed.
#[derive(Debug, Clone, PartialEq, Eq)]
pub enum Error {
    /// An unsigned number above `i64::MAX` was to be stored; the payload is
    /// that number.
    ValueTooLarge(u64),
    /// A cell cannot be read as the scalar kind that was asked for: it has
    /// another kind, or its content does not fit. The payload is the
    /// offending cell and the destination.
    TypeMismatch(Cell, ScalarKind),
    /// A required field has no column of its name.
    MissingColumn(String),
    /// A tuple of `expected` elements was to be read from `found` columns.
    ArityMismatch { expected: usize, found: usize },
    /// A text cell names no variant of the enumeration that was asked for.
    UnrecognizedVariant(String),
    /// The value has a form with no flat representation.
    UnsupportedStructure,
}

/// The mathematical content of an [`Error`].
pub enum ErrorView {
    ValueTooLarge(u64),
    TypeMismatch(CellView, ScalarKind),
    MissingColumn(Seq<char>),
    ArityMismatch { expected: usize, found: usize },
    UnrecognizedVariant(Seq<char>),
    UnsupportedStructure,
}

impl View for Error {
    type V = ErrorView;

    open spec fn view(&self) -> ErrorView {
        match self {
            Error::ValueTooLarge(v) => ErrorView::ValueTooLarge(*v),
            Error::TypeMismatch(cell, kind) => ErrorView::TypeMismatch(cell@, *kind),
            Error::MissingColumn(name) => ErrorView::MissingColumn(name@),
            Error::ArityMismatch { expected, found } => ErrorView::ArityMismatch {
                expected: *expected,
                found: *found,
            },
            Error::UnrecognizedVariant(name) => ErrorView::UnrecognizedVariant(name@),
            Error::UnsupportedStructure => ErrorView::UnsupportedStructure,
        }
    }
}

} // verus!

//! Native types described against the value model, so that a typed value
//! can be written to cells and read back without building its description
//! by hand.
use vstd::prelude::*;
use crate::cell::{cell_views, copy_bytes, Cell, CellView};
use crate::de::{decode_cell, decode_row, from_cell, from_row};
use crate::error::{Error, ErrorView};
use crate::laws::{
    faithful, has_shape, lemma_decoded_cell_has_shape, lemma_decoded_row_has_shape,
    lemma_scalar_round_trip,
};
use crate::names::name_views;
use crate::ser::{params, to_params};
use crate::shape::{Shape, ShapeView};
use crate::value::{Value, ValueView};

verus! {

/// A type that describes its values against the value model: it names its
/// shape, turns a value into its description, and takes a description of
/// its shape back into a value.
pub trait Describe: Sized {
    /// The shape of every value of the type.
    spec fn shape_of() -> ShapeView;

    /// The description of a value.
    spec fn described(&self) -> ValueView;

    /// Every description has the shape of the type.
    proof fn lemma_described_has_shape(&self)
        ensures
            has_shape(self.described(), Self::shape_of()),
    ;

    /// Builds the shape of the type.
    fn shape() -> (r: Shape)
        ensures
            r@ == Self::shape_of(),
    ;

    /// Builds the description of a value.
    fn describe(&self) -> (r: Value)
        ensures
            r@ == self.described(),
    ;

    /// Takes a description back into a value. This succeeds on every
    /// description of the type's shape, and on nothing that is not the
    /// description of the value that it returns.
    fn restore(value: Value) -> (r: Option<Self>)
        ensures
            has_shape(value@, Self::shape_of()) ==> r is Some,
            r matches Some(x) ==> x.described() == value@,
    ;
}

impl Describe for bool {
    open spec fn shape_of() -> ShapeView {
        ShapeView::Bool
    }

    open spec fn described(&self) -> ValueView {
        ValueView::Bool(*self)
    }

    proof fn lemma_described_has_shape(&self) {
    }

    fn shape() -> (r: Shape) {
        Shape::Bool
    }

    fn describe(&self) -> (r: Value) {
        Value::Bool(*self)
    }

    fn restore(value: Value) -> (r: Option<Self>) {
        match value {
            Value::Bool(x) => Some(x),
            _ => None,
        }
    }
}

impl Describe for i8 {
    open spec fn shape_of() -> ShapeView {
        ShapeView::I8
    }

    open spec fn described(&self) -> ValueView {
        ValueView::I8(*self)
    }

    proof fn lemma_described_has_shape(&self) {
    }

    fn shape() -> (r: Shape) {
        Shape::I8
    }

    fn describe(&self) -> (r: Value) {
        Value::I8(*self)
    }

    fn restore(value: Value) -> (r: Option<Self>) {
        match value {
            Value::I8(x) => Some(x),
            _ => None,
        }
    }
}

impl Describe for i16 {
    open spec fn shape_of() -> ShapeView {
        ShapeView::I16
    }

    open spec fn described(&self) -> ValueView {
        ValueView::I16(*self)
    }

    proof fn lemma_described_has_shape(&self) {
    }

    fn shape() -> (r: Shape) {
        Shape::I16
    }

    fn describe(&self) -> (r: Value) {
        Value::I16(*self)
    }

    fn restore(value: Value) -> (r: Option<Self>) {
        match value {
            Value::I16(x) => Some(x),
            _ => None,
        }
    }
}

impl Describe for i32 {
    open spec fn shape_of() -> ShapeView {
        ShapeView::I32
    }

    open spec fn described(&self) -> ValueView {
        ValueView::I32(*self)
    }

    proof fn lemma_described_has_shape(&self) {
    }

    fn shape() -> (r: Shape) {
        Shape::I32
    }

    fn describe(&self) -> (r: Value) {
        Value::I32(*self)
    }

    fn restore(value: Value) -> (r: Option<Self>) {
        match value {
            Value::I32(x) => Some(x),
            _ => None,
        }
    }
}

impl Describe for i64 {
    open spec fn shape_of() -> ShapeView {
        ShapeView::I64
    }

    open spec fn described(&self) -> ValueView {
        ValueView::I64(*self)
    }

    proof fn lemma_described_has_shape(&self) {
    }

    fn shape() -> (r: Shape) {
        Shape::I64
    }

    fn describe(&self) -> (r: Value) {
        Value::I64(*self)
    }

    fn restore(value: Value) -> (r: Option<Self>) {
        match value {
            Value::I64(x) => Some(x),
            _ => None,
        }
    }
}

impl Describe for u8 {
    open spec fn shape_of() -> ShapeView {
        ShapeView::U8
    }

    open spec fn described(&self) -> ValueView {
        ValueView::U8(*self)
    }

    proof fn lemma_described_has_shape(&self) {
    }

    fn shape() -> (r: Shape) {
        Shape::U8
    }

    fn describe(&self) -> (r: Value) {
        Value::U8(*self)
    }

    fn restore(value: Value) -> (r: Option<Self>) {
        match value {
            Value::U8(x) => Some(x),
            _ => None,
        }
    }
}

impl Describe for u16 {
    open spec fn shape_of() -> ShapeView {
        ShapeView::U16
    }

    open spec fn described(&self) -> ValueView {
        ValueView::U16(*self)
    }

    proof fn lemma_described_has_shape(&self) {
    }

    fn shape() -> (r: Shape) {
        Shape::U16
    }

    fn describe(&self) -> (r: Value) {
        Value::U16(*self)
    }

    fn restore(value: Value) -> (r: Option<Self>) {
        match value {
            Value::U16(x) => Some(x),
            _ => None,
        }
    }
}

impl Describe for u32 {
    open spec fn shape_of() -> ShapeView {
        ShapeView::U32
    }

    open spec fn described(&self) -> ValueView {
        ValueView::U32(*self)
    }

    proof fn lemma_described_has_shape(&self) {
    }

    fn shape() -> (r: Shape) {
        Shape::U32
    }

    fn describe(&self) -> (r: Value) {
        Value::U32(*self)
    }

    fn restore(value: Value) -> (r: Option<Self>) {
        match value {
            Value::U32(x) => Some(x),
            _ => None,
        }
    }
}

impl Describe for u64 {
    open spec fn shape_of() -> ShapeView {
        ShapeView::U64
    }

    open spec fn described(&self) -> ValueView {
        ValueView::U64(*self)
    }

    proof fn lemma_described_has_shape(&self) {
    }

    fn shape() -> (r: Shape) {
        Shape::U64
    }

    fn describe(&self) -> (r: Value) {
        Value::U64(*self)
    }

    fn restore(value: Value) -> (r: Option<Self>) {
        match value {
            Value::U64(x) => Some(x),
            _ => None,
        }
    }
}

/// The description of a character.
fn char_value(c: char) -> (r: Value)
    ensures
        r@ == ValueView::Char(c),
{
    Value::Char(c)
}

impl Describe for char {
    open spec fn shape_of() -> ShapeView {
        ShapeView::Char
    }

    open spec fn described(&self) -> ValueView {
        ValueView::Char(*self)
    }

    proof fn lemma_described_has_shape(&self) {
    }

    fn shape() -> (r: Shape) {
        Shape::Char
    }

    fn describe(&self) -> (r: Value) {
        char_value(*self)
    }

    fn restore(value: Value) -> (r: Option<Self>) {
        match value {
            Value::Char(x) => Some(x),
            _ => None,
        }
    }
}

impl Describe for String {
    open spec fn shape_of() -> ShapeView {
        ShapeView::Text
    }

    open spec fn described(&self) -> ValueView {
        ValueView::Text(self@)
    }

    proof fn lemma_described_has_shape(&self) {
    }

    fn shape() -> (r: Shape) {
        Shape::Text
    }

    fn describe(&self) -> (r: Value) {
        Value::Text(self.clone())
    }

    fn restore(value: Value) -> (r: Option<Self>) {
        match value {
            Value::Text(s) => Some(s),
            _ => None,
        }
    }
}

impl Describe for Vec<u8> {
    open spec fn shape_of() -> ShapeView {
        ShapeView::Bytes
    }

    open spec fn described(&self) -> ValueView {
        ValueView::Bytes(self@)
    }

    proof fn lemma_described_has_shape(&self) {
    }

    fn shape() -> (r: Shape) {
        Shape::Bytes
    }

    fn describe(&self) -> (r: Value) {
        Value::Bytes(copy_bytes(self))
    }

    fn restore(value: Value) -> (r: Option<Self>) {
        match value {
            Value::Bytes(b) => Some(b),
            _ => None,
        }
    }
}

impl Describe for () {
    open spec fn shape_of() -> ShapeView {
        ShapeView::Unit
    }

    open spec fn described(&self) -> ValueView {
        ValueView::Unit
    }

    proof fn lemma_described_has_shape(&self) {
    }

    fn shape() -> (r: Shape) {
        Shape::Unit
    }

    fn describe(&self) -> (r: Value) {
        Value::Unit
    }

    fn restore(value: Value) -> (r: Option<Self>) {
        match value {
            Value::Unit => Some(()),
            _ => None,
        }
    }
}

impl<T: Describe> Describe for Option<T> {
    open spec fn shape_of() -> ShapeView {
        ShapeView::Optional(Box::new(T::shape_of()))
    }

    open spec fn described(&self) -> ValueView {
        match self {
            Some(x) => ValueView::Present(Box::new(x.described())),
            None => ValueView::Absent,
        }
    }

    proof fn lemma_described_has_shape(&self) {
        match self {
            Some(x) => {
                x.lemma_described_has_shape();
            },
            None => {},
        }
    }

    fn shape() -> (r: Shape) {
        Shape::Optional(Box::new(T::shape()))
    }

    fn describe(&self) -> (r: Value) {
        match self {
            Some(x) => Value::Present(Box::new(x.describe())),
            None => Value::Absent,
        }
    }

    fn restore(value: Value) -> (r: Option<Self>) {
        match value {
            Value::Absent => Some(None),
            Value::Present(inner) => match T::restore(*inner) {
                Some(x) => Some(Some(x)),
                None => None,
            },
            _ => None,
        }
    }
}

/// Serializes a described value to the ordered list of cells for
/// positional binding.
pub fn to_params_of<T: Describe>(value: &T) -> (r: Result<Vec<Cell>, Error>)
    ensures
        match r {
            Ok(cells) => params(value.described()) == Ok::<Seq<CellView>, ErrorView>(
                cell_views(cells@),
            ),
            Err(e) => params(value.described()) == Err::<Seq<CellView>, ErrorView>(e@),
        },
{
    to_params(&value.describe())
}

/// Rebuilds a value of a described type from one cell.
pub fn from_cell_as<T: Describe>(cell: &Cell) -> (r: Result<T, Error>)
    ensures
        match r {
            Ok(x) => decode_cell(T::shape_of(), cell@) == Ok::<ValueView, ErrorView>(
                x.described(),
            ),
            Err(e) => decode_cell(T::shape_of(), cell@) == Err::<ValueView, ErrorView>(e@),
        },
{
    let shape = T::shape();
    match from_cell(&shape, cell) {
        Ok(value) => {
            proof {
                lemma_decoded_cell_has_shape(T::shape_of(), cell@);
            }
            match T::restore(value) {
                Some(x) => Ok(x),
                None => Err(Error::UnsupportedStructure),
            }
        },
        Err(e) => Err(e),
    }
}

/// Rebuilds a value of a described type from one row, where `columns` are
/// the names that the statement declares and `row` holds their cells in
/// the same order.
pub fn from_row_as<T: Describe>(columns: &Vec<String>, row: &Vec<Cell>) -> (r: Result<T, Error>)
    requires
        columns.len() == row.len(),
    ensures
        match r {
            Ok(x) => decode_row(T::shape_of(), name_views(*columns), cell_views(row@)) == Ok::<
                ValueView,
                ErrorView,
            >(x.described()),
            Err(e) => decode_row(T::shape_of(), name_views(*columns), cell_views(row@)) == Err::<
                ValueView,
                ErrorView,
            >(e@),
        },
{
    let shape = T::shape();
    match from_row(&shape, columns, row) {
        Ok(value) => {
            proof {
                lemma_decoded_row_has_shape(
                    T::shape_of(),
                    name_views(*columns),
                    cell_views(row@),
                );
            }
            match T::restore(value) {
                Some(x) => Ok(x),
                None => Err(Error::UnsupportedStructure),
            }
        },
        Err(e) => Err(e),
    }
}

/// Round trip of a described value: where its description is faithful, the
/// value is written to one cell, and that cell read back as the type's
/// shape is the description of the value.
pub proof fn lemma_described_round_trip<T: Describe>(value: T, columns: Seq<Seq<char>>)
    requires
        faithful(value.described()),
    ensures
        params(value.described()) is Ok,
        decode_row(T::shape_of(), columns, params(value.described())->Ok_0) == Ok::<
            ValueView,
            ErrorView,
        >(value.described()),
{
    value.lemma_described_has_shape();
    lemma_scalar_round_trip(value.described(), T::shape_of(), columns);
}

} // verus!

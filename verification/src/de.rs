//! The deserializer: from the column names of a statement and one row of
//! cells back to a structured value of a requested shape.
use vstd::prelude::*;
use crate::cell::{cell_views, fits, Cell, CellView};
use crate::error::{Error, ErrorView, ScalarKind};
use crate::gather::{gather, lemma_gather_step};
use crate::names::{find_name, lemma_position, name_views, position};
use crate::shape::{
    field_shape_views, lemma_field_shape_views, lemma_shape_views, shape_views, FieldShape,
    FieldShapeView, Shape, ShapeView,
};
use crate::value::{
    entries_of, fields_of, lemma_entry_views, lemma_field_views, lemma_value_views, values_of,
    Entry, EntryView, Field, FieldView, Value, ValueView,
};

verus! {

/// The number that an integer cell holds, where it is a number of the
/// given integer kind.
pub open spec fn decode_integer(kind: ScalarKind, cell: CellView) -> Result<i64, ErrorView> {
    match cell {
        CellView::Integer(n) => if fits(kind, n) {
            Ok(n)
        } else {
            Err(ErrorView::TypeMismatch(cell, kind))
        },
        _ => Err(ErrorView::TypeMismatch(cell, kind)),
    }
}

/// A value or failure, put into a present optional value.
pub open spec fn present(inner: Result<ValueView, ErrorView>) -> Result<ValueView, ErrorView> {
    match inner {
        Ok(v) => Ok(ValueView::Present(Box::new(v))),
        Err(e) => Err(e),
    }
}

/// A value or failure, put into a structure with one unnamed field.
pub open spec fn newtype(inner: Result<ValueView, ErrorView>) -> Result<ValueView, ErrorView> {
    match inner {
        Ok(v) => Ok(ValueView::Newtype(Box::new(v))),
        Err(e) => Err(e),
    }
}

/// A value or failure, put into a variant with one unnamed payload field.
pub open spec fn newtype_variant(name: Seq<char>, inner: Result<ValueView, ErrorView>) -> Result<
    ValueView,
    ErrorView,
> {
    match inner {
        Ok(v) => Ok(ValueView::NewtypeVariant(name, Box::new(v))),
        Err(e) => Err(e),
    }
}

/// The value of a given shape that one cell stands for.
///
/// Each scalar kind reads the cell kind that it is serialized to and
/// nothing else: a boolean reads the integers 0 and 1, an integer kind
/// reads the integers of its range (so an unsigned kind reads no negative
/// number), a character reads a text of one character. Null is read only
/// by an optional shape, as the missing value, and by the unit shapes. The
/// unit shapes read nothing and accept any cell. An enumeration reads a
/// text that is the name of one of its variants. Transparent wrappers read
/// what they hold. The shapes that spread over several cells cannot be
/// read from one.
pub open spec fn decode_cell(shape: ShapeView, cell: CellView) -> Result<ValueView, ErrorView>
    decreases shape,
{
    match shape {
        ShapeView::Bool => if cell == CellView::Integer(0) {
            Ok(ValueView::Bool(false))
        } else if cell == CellView::Integer(1) {
            Ok(ValueView::Bool(true))
        } else {
            Err(ErrorView::TypeMismatch(cell, ScalarKind::Bool))
        },
        ShapeView::I8 => match decode_integer(ScalarKind::I8, cell) {
            Ok(n) => Ok(ValueView::I8(n as i8)),
            Err(e) => Err(e),
        },
        ShapeView::I16 => match decode_integer(ScalarKind::I16, cell) {
            Ok(n) => Ok(ValueView::I16(n as i16)),
            Err(e) => Err(e),
        },
        ShapeView::I32 => match decode_integer(ScalarKind::I32, cell) {
            Ok(n) => Ok(ValueView::I32(n as i32)),
            Err(e) => Err(e),
        },
        ShapeView::I64 => match decode_integer(ScalarKind::I64, cell) {
            Ok(n) => Ok(ValueView::I64(n)),
            Err(e) => Err(e),
        },
        ShapeView::U8 => match decode_integer(ScalarKind::U8, cell) {
            Ok(n) => Ok(ValueView::U8(n as u8)),
            Err(e) => Err(e),
        },
        ShapeView::U16 => match decode_integer(ScalarKind::U16, cell) {
            Ok(n) => Ok(ValueView::U16(n as u16)),
            Err(e) => Err(e),
        },
        ShapeView::U32 => match decode_integer(ScalarKind::U32, cell) {
            Ok(n) => Ok(ValueView::U32(n as u32)),
            Err(e) => Err(e),
        },
        ShapeView::U64 => match decode_integer(ScalarKind::U64, cell) {
            Ok(n) => Ok(ValueView::U64(n as u64)),
            Err(e) => Err(e),
        },
        ShapeView::Real => match cell {
            CellView::Real(bits) => Ok(ValueView::Real(bits)),
            _ => Err(ErrorView::TypeMismatch(cell, ScalarKind::Real)),
        },
        ShapeView::Char => match cell {
            CellView::Text(s) => if s.len() == 1 {
                Ok(ValueView::Char(s[0]))
            } else {
                Err(ErrorView::TypeMismatch(cell, ScalarKind::Char))
            },
            _ => Err(ErrorView::TypeMismatch(cell, ScalarKind::Char)),
        },
        ShapeView::Text => match cell {
            CellView::Text(s) => Ok(ValueView::Text(s)),
            _ => Err(ErrorView::TypeMismatch(cell, ScalarKind::Text)),
        },
        ShapeView::Bytes => match cell {
            CellView::Blob(b) => Ok(ValueView::Bytes(b)),
            _ => Err(ErrorView::TypeMismatch(cell, ScalarKind::Bytes)),
        },
        ShapeView::Unit => Ok(ValueView::Unit),
        ShapeView::Optional(inner) => if cell is Null {
            Ok(ValueView::Absent)
        } else {
            present(decode_cell(*inner, cell))
        },
        ShapeView::UnitStruct(name) => Ok(ValueView::UnitStruct(name)),
        ShapeView::Newtype(inner) => newtype(decode_cell(*inner, cell)),
        ShapeView::Enumeration(variants) => match cell {
            CellView::Text(s) => if position(variants, s) is Some {
                Ok(ValueView::UnitVariant(s))
            } else {
                Err(ErrorView::UnrecognizedVariant(s))
            },
            _ => Err(ErrorView::TypeMismatch(cell, ScalarKind::Variant)),
        },
        ShapeView::NewtypeVariant(name, inner) => newtype_variant(name, decode_cell(*inner, cell)),
        _ => Err(ErrorView::UnsupportedStructure),
    }
}

/// The failure of a positional value that expects `expected` columns where
/// `found` are available, if the two counts differ.
pub open spec fn arity_failure(expected: nat, found: nat) -> Option<ErrorView> {
    if expected == found {
        None
    } else {
        Some(ErrorView::ArityMismatch { expected: expected as usize, found: found as usize })
    }
}

/// The element of the inner shape that each cell of a row stands for.
pub open spec fn list_slots(element: ShapeView, row: Seq<CellView>) -> Seq<
    Result<ValueView, ErrorView>,
> {
    Seq::new(row.len(), |i: int| decode_cell(element, row[i]))
}

/// The element that each cell of a row stands for, each by the shape at
/// its own position.
pub open spec fn tuple_slots(shapes: Seq<ShapeView>, row: Seq<CellView>) -> Seq<
    Result<ValueView, ErrorView>,
> {
    Seq::new(shapes.len(), |i: int| decode_cell(shapes[i], row[i]))
}

/// The field of a record, read from the first column of its name. A field
/// of optional shape without such a column is missing; any other field
/// requires its column.
pub open spec fn field_slot(field: FieldShapeView, columns: Seq<Seq<char>>, row: Seq<CellView>)
    -> Result<FieldView, ErrorView> {
    match position(columns, field.name) {
        Some(at) => match decode_cell(field.shape, row[at]) {
            Ok(value) => Ok(FieldView { name: field.name, value }),
            Err(e) => Err(e),
        },
        None => if field.shape is Optional {
            Ok(FieldView { name: field.name, value: ValueView::Absent })
        } else {
            Err(ErrorView::MissingColumn(field.name))
        },
    }
}

/// Each field of a record, read from the row by its name.
pub open spec fn field_value_slots(
    fields: Seq<FieldShapeView>,
    columns: Seq<Seq<char>>,
    row: Seq<CellView>,
) -> Seq<Result<FieldView, ErrorView>> {
    Seq::new(fields.len(), |i: int| field_slot(fields[i], columns, row))
}

/// The entry of a mapping that one column stands for: its key read from
/// the column's name as from a text cell, its value read from the cell.
pub open spec fn entry_value_slot(
    key: ShapeView,
    value: ShapeView,
    column: Seq<char>,
    cell: CellView,
) -> Result<EntryView, ErrorView> {
    match decode_cell(key, CellView::Text(column)) {
        Ok(k) => match decode_cell(value, cell) {
            Ok(v) => Ok(EntryView { key: k, value: v }),
            Err(e) => Err(e),
        },
        Err(e) => Err(e),
    }
}

/// The entry of a mapping that each column stands for.
pub open spec fn entry_value_slots(
    key: ShapeView,
    value: ShapeView,
    columns: Seq<Seq<char>>,
    row: Seq<CellView>,
) -> Seq<Result<EntryView, ErrorView>> {
    Seq::new(columns.len(), |i: int| entry_value_slot(key, value, columns[i], row[i]))
}

/// The value of a given shape that a row stands for, where `columns` are
/// the names that the statement declares and `row` holds one cell for each
/// of them, in the same order.
///
/// Transparent wrappers are passed through; an optional shape is missing
/// where the first cell is null. The unit shapes need no column. A list
/// takes every column as one element. A tuple takes one column per
/// element, in order, and the two counts must agree. A record finds each
/// field by its name. A mapping takes every column as one entry. Any other
/// shape is read from the first column. The first part that cannot be read
/// makes the whole fail.
pub open spec fn decode_row(shape: ShapeView, columns: Seq<Seq<char>>, row: Seq<CellView>)
    -> Result<ValueView, ErrorView>
    decreases shape,
{
    match shape {
        ShapeView::Optional(inner) => if row.len() > 0 && row[0] is Null {
            Ok(ValueView::Absent)
        } else {
            present(decode_row(*inner, columns, row))
        },
        ShapeView::Newtype(inner) => newtype(decode_row(*inner, columns, row)),
        ShapeView::NewtypeVariant(name, inner) => newtype_variant(
            name,
            decode_row(*inner, columns, row),
        ),
        ShapeView::Unit => Ok(ValueView::Unit),
        ShapeView::UnitStruct(name) => Ok(ValueView::UnitStruct(name)),
        ShapeView::List(element) => match gather(list_slots(*element, row)) {
            Ok(items) => Ok(ValueView::List(items)),
            Err(e) => Err(e),
        },
        ShapeView::Tuple(shapes) => match arity_failure(shapes.len(), row.len()) {
            Some(e) => Err(e),
            None => match gather(tuple_slots(shapes, row)) {
                Ok(items) => Ok(ValueView::Tuple(items)),
                Err(e) => Err(e),
            },
        },
        ShapeView::Record(fields) => match gather(field_value_slots(fields, columns, row)) {
            Ok(values) => Ok(ValueView::Record(values)),
            Err(e) => Err(e),
        },
        ShapeView::Mapping(key, value) => match gather(
            entry_value_slots(*key, *value, columns, row),
        ) {
            Ok(entries) => Ok(ValueView::Mapping(entries)),
            Err(e) => Err(e),
        },
        _ => if row.len() == 0 {
            Err(ErrorView::ArityMismatch { expected: 1, found: 0 })
        } else {
            decode_cell(shape, row[0])
        },
    }
}

/// Tells a positional value that expects `expected` columns whether the
/// `found` columns that are available are as many.
pub fn check_arity(expected: usize, found: usize) -> (r: Result<(), Error>)
    ensures
        match r {
            Ok(_) => arity_failure(expected as nat, found as nat) is None,
            Err(e) => arity_failure(expected as nat, found as nat) == Some(e@),
        },
{
    if expected == found {
        Ok(())
    } else {
        Err(Error::ArityMismatch { expected, found })
    }
}

/// Rebuilds the value of a given shape that one cell stands for.
pub fn from_cell(shape: &Shape, cell: &Cell) -> (r: Result<Value, Error>)
    ensures
        match r {
            Ok(value) => decode_cell(shape@, cell@) == Ok::<ValueView, ErrorView>(value@),
            Err(e) => decode_cell(shape@, cell@) == Err::<ValueView, ErrorView>(e@),
        },
    decreases shape,
{
    match shape {
        Shape::Bool => match cell.to_bool() {
            Ok(b) => Ok(Value::Bool(b)),
            Err(e) => Err(e),
        },
        Shape::I8 => match cell.to_i8() {
            Ok(n) => Ok(Value::I8(n)),
            Err(e) => Err(e),
        },
        Shape::I16 => match cell.to_i16() {
            Ok(n) => Ok(Value::I16(n)),
            Err(e) => Err(e),
        },
        Shape::I32 => match cell.to_i32() {
            Ok(n) => Ok(Value::I32(n)),
            Err(e) => Err(e),
        },
        Shape::I64 => match cell.to_i64() {
            Ok(n) => Ok(Value::I64(n)),
            Err(e) => Err(e),
        },
        Shape::U8 => match cell.to_u8() {
            Ok(n) => Ok(Value::U8(n)),
            Err(e) => Err(e),
        },
        Shape::U16 => match cell.to_u16() {
            Ok(n) => Ok(Value::U16(n)),
            Err(e) => Err(e),
        },
        Shape::U32 => match cell.to_u32() {
            Ok(n) => Ok(Value::U32(n)),
            Err(e) => Err(e),
        },
        Shape::U64 => match cell.to_u64() {
            Ok(n) => Ok(Value::U64(n)),
            Err(e) => Err(e),
        },
        Shape::Real => match cell.to_real_bits() {
            Ok(bits) => Ok(Value::Real(bits)),
            Err(e) => Err(e),
        },
        Shape::Char => {
            if cell.holds_char() {
                Ok(Value::Char(cell.first_char()))
            } else {
                Err(Error::TypeMismatch(cell.duplicate(), ScalarKind::Char))
            }
        },
        Shape::Text => match cell.to_text() {
            Ok(s) => Ok(Value::Text(s)),
            Err(e) => Err(e),
        },
        Shape::Bytes => match cell.to_bytes() {
            Ok(b) => Ok(Value::Bytes(b)),
            Err(e) => Err(e),
        },
        Shape::Unit => Ok(Value::Unit),
        Shape::Optional(inner) => {
            if cell.is_null() {
                Ok(Value::Absent)
            } else {
                match from_cell(inner, cell) {
                    Ok(v) => Ok(Value::Present(Box::new(v))),
                    Err(e) => Err(e),
                }
            }
        },
        Shape::UnitStruct(name) => Ok(Value::UnitStruct(name.clone())),
        Shape::Newtype(inner) => match from_cell(inner, cell) {
            Ok(v) => Ok(Value::Newtype(Box::new(v))),
            Err(e) => Err(e),
        },
        Shape::Enumeration(variants) => match cell {
            Cell::Text(s) => match find_name(variants, s) {
                Some(_) => Ok(Value::UnitVariant(s.clone())),
                None => Err(Error::UnrecognizedVariant(s.clone())),
            },
            _ => Err(Error::TypeMismatch(cell.duplicate(), ScalarKind::Variant)),
        },
        Shape::NewtypeVariant(name, inner) => match from_cell(inner, cell) {
            Ok(v) => Ok(Value::NewtypeVariant(name.clone(), Box::new(v))),
            Err(e) => Err(e),
        },
        _ => Err(Error::UnsupportedStructure),
    }
}

fn list_from_row(element: &Shape, row: &Vec<Cell>) -> (r: Result<Vec<Value>, Error>)
    ensures
        match r {
            Ok(items) => gather(list_slots(element@, cell_views(row@))) == Ok::<
                Seq<ValueView>,
                ErrorView,
            >(values_of(items@)),
            Err(e) => gather(list_slots(element@, cell_views(row@))) == Err::<
                Seq<ValueView>,
                ErrorView,
            >(e@),
        },
{
    let ghost slots = list_slots(element@, cell_views(row@));
    let mut out: Vec<Value> = Vec::new();
    let mut i: usize = 0;
    assert(slots.take(0) =~= Seq::empty());
    assert(values_of(out@) =~= Seq::empty());
    while i < row.len()
        invariant
            i <= row.len(),
            slots == list_slots(element@, cell_views(row@)),
            gather(slots.take(i as int)) == Ok::<Seq<ValueView>, ErrorView>(values_of(out@)),
        decreases row.len() - i,
    {
        proof {
            lemma_gather_step(slots, i as int);
            assert(slots[i as int] == decode_cell(element@, row@[i as int]@));
        }
        match from_cell(element, &row[i]) {
            Ok(value) => {
                let ghost before = values_of(out@);
                let ghost added = value@;
                out.push(value);
                assert(values_of(out@) =~= before.push(added));
            },
            Err(e) => {
                return Err(e);
            },
        }
        i += 1;
    }
    assert(slots.take(i as int) == slots);
    Ok(out)
}

fn tuple_from_row(shapes: &Vec<Shape>, row: &Vec<Cell>) -> (r: Result<Vec<Value>, Error>)
    requires
        shapes.len() == row.len(),
    ensures
        match r {
            Ok(items) => gather(tuple_slots(shape_views(*shapes), cell_views(row@))) == Ok::<
                Seq<ValueView>,
                ErrorView,
            >(values_of(items@)),
            Err(e) => gather(tuple_slots(shape_views(*shapes), cell_views(row@))) == Err::<
                Seq<ValueView>,
                ErrorView,
            >(e@),
        },
{
    let ghost slots = tuple_slots(shape_views(*shapes), cell_views(row@));
    proof {
        lemma_shape_views(*shapes);
    }
    let mut out: Vec<Value> = Vec::new();
    let mut i: usize = 0;
    assert(slots.take(0) =~= Seq::empty());
    assert(values_of(out@) =~= Seq::empty());
    while i < shapes.len()
        invariant
            i <= shapes.len(),
            shapes.len() == row.len(),
            slots == tuple_slots(shape_views(*shapes), cell_views(row@)),
            slots.len() == shapes@.len(),
            forall|k: int|
                0 <= k < shapes@.len() ==> #[trigger] shape_views(*shapes)[k] == shapes@[k]@,
            gather(slots.take(i as int)) == Ok::<Seq<ValueView>, ErrorView>(values_of(out@)),
        decreases shapes.len() - i,
    {
        proof {
            lemma_gather_step(slots, i as int);
            assert(slots[i as int] == decode_cell(shapes@[i as int]@, row@[i as int]@));
        }
        match from_cell(&shapes[i], &row[i]) {
            Ok(value) => {
                let ghost before = values_of(out@);
                let ghost added = value@;
                out.push(value);
                assert(values_of(out@) =~= before.push(added));
            },
            Err(e) => {
                return Err(e);
            },
        }
        i += 1;
    }
    assert(slots.take(i as int) == slots);
    Ok(out)
}

fn field_from_row(field: &FieldShape, columns: &Vec<String>, row: &Vec<Cell>) -> (r: Result<
    Field,
    Error,
>)
    requires
        columns.len() == row.len(),
    ensures
        match r {
            Ok(value) => field_slot(field@, name_views(*columns), cell_views(row@)) == Ok::<
                FieldView,
                ErrorView,
            >(value@),
            Err(e) => field_slot(field@, name_views(*columns), cell_views(row@)) == Err::<
                FieldView,
                ErrorView,
            >(e@),
        },
{
    match find_name(columns, &field.name) {
        Some(at) => {
            proof {
                lemma_position(name_views(*columns), field.name@);
            }
            match from_cell(&field.shape, &row[at]) {
                Ok(value) => Ok(Field { name: field.name.clone(), value }),
                Err(e) => Err(e),
            }
        },
        None => match &field.shape {
            Shape::Optional(_) => Ok(Field { name: field.name.clone(), value: Value::Absent }),
            _ => Err(Error::MissingColumn(field.name.clone())),
        },
    }
}

fn record_from_row(fields: &Vec<FieldShape>, columns: &Vec<String>, row: &Vec<Cell>) -> (r:
    Result<Vec<Field>, Error>)
    requires
        columns.len() == row.len(),
    ensures
        match r {
            Ok(values) => gather(
                field_value_slots(
                    field_shape_views(*fields),
                    name_views(*columns),
                    cell_views(row@),
                ),
            ) == Ok::<Seq<FieldView>, ErrorView>(fields_of(values@)),
            Err(e) => gather(
                field_value_slots(
                    field_shape_views(*fields),
                    name_views(*columns),
                    cell_views(row@),
                ),
            ) == Err::<Seq<FieldView>, ErrorView>(e@),
        },
{
    let ghost slots = field_value_slots(
        field_shape_views(*fields),
        name_views(*columns),
        cell_views(row@),
    );
    proof {
        lemma_field_shape_views(*fields);
    }
    let mut out: Vec<Field> = Vec::new();
    let mut i: usize = 0;
    assert(slots.take(0) =~= Seq::empty());
    assert(fields_of(out@) =~= Seq::empty());
    while i < fields.len()
        invariant
            i <= fields.len(),
            columns.len() == row.len(),
            slots == field_value_slots(
                field_shape_views(*fields),
                name_views(*columns),
                cell_views(row@),
            ),
            slots.len() == fields@.len(),
            forall|k: int|
                0 <= k < fields@.len() ==> #[trigger] field_shape_views(*fields)[k]
                    == fields@[k]@,
            gather(slots.take(i as int)) == Ok::<Seq<FieldView>, ErrorView>(fields_of(out@)),
        decreases fields.len() - i,
    {
        proof {
            lemma_gather_step(slots, i as int);
            assert(slots[i as int] == field_slot(
                fields@[i as int]@,
                name_views(*columns),
                cell_views(row@),
            ));
        }
        match field_from_row(&fields[i], columns, row) {
            Ok(value) => {
                let ghost before = fields_of(out@);
                let ghost added = value@;
                out.push(value);
                assert(fields_of(out@) =~= before.push(added));
            },
            Err(e) => {
                return Err(e);
            },
        }
        i += 1;
    }
    assert(slots.take(i as int) == slots);
    Ok(out)
}

fn entry_from_column(key: &Shape, value: &Shape, column: &String, cell: &Cell) -> (r: Result<
    Entry,
    Error,
>)
    ensures
        match r {
            Ok(entry) => entry_value_slot(key@, value@, column@, cell@) == Ok::<
                EntryView,
                ErrorView,
            >(entry@),
            Err(e) => entry_value_slot(key@, value@, column@, cell@) == Err::<
                EntryView,
                ErrorView,
            >(e@),
        },
{
    let name = Cell::from_text(column);
    let k = match from_cell(key, &name) {
        Ok(k) => k,
        Err(e) => {
            return Err(e);
        },
    };
    match from_cell(value, cell) {
        Ok(v) => Ok(Entry { key: k, value: v }),
        Err(e) => Err(e),
    }
}

fn mapping_from_row(key: &Shape, value: &Shape, columns: &Vec<String>, row: &Vec<Cell>) -> (r:
    Result<Vec<Entry>, Error>)
    requires
        columns.len() == row.len(),
    ensures
        match r {
            Ok(entries) => gather(
                entry_value_slots(key@, value@, name_views(*columns), cell_views(row@)),
            ) == Ok::<Seq<EntryView>, ErrorView>(entries_of(entries@)),
            Err(e) => gather(
                entry_value_slots(key@, value@, name_views(*columns), cell_views(row@)),
            ) == Err::<Seq<EntryView>, ErrorView>(e@),
        },
{
    let ghost slots = entry_value_slots(key@, value@, name_views(*columns), cell_views(row@));
    let mut out: Vec<Entry> = Vec::new();
    let mut i: usize = 0;
    assert(slots.take(0) =~= Seq::empty());
    assert(entries_of(out@) =~= Seq::empty());
    while i < columns.len()
        invariant
            i <= columns.len(),
            columns.len() == row.len(),
            slots == entry_value_slots(key@, value@, name_views(*columns), cell_views(row@)),
            gather(slots.take(i as int)) == Ok::<Seq<EntryView>, ErrorView>(entries_of(out@)),
        decreases columns.len() - i,
    {
        proof {
            lemma_gather_step(slots, i as int);
            assert(slots[i as int] == entry_value_slot(
                key@,
                value@,
                columns@[i as int]@,
                row@[i as int]@,
            ));
        }
        match entry_from_column(key, value, &columns[i], &row[i]) {
            Ok(entry) => {
                let ghost before = entries_of(out@);
                let ghost added = entry@;
                out.push(entry);
                assert(entries_of(out@) =~= before.push(added));
            },
            Err(e) => {
                return Err(e);
            },
        }
        i += 1;
    }
    assert(slots.take(i as int) == slots);
    Ok(out)
}

/// Rebuilds the value of a given shape from one row, where `columns` are
/// the names that the statement declares and `row` holds their cells in
/// the same order.
pub fn from_row(shape: &Shape, columns: &Vec<String>, row: &Vec<Cell>) -> (r: Result<
    Value,
    Error,
>)
    requires
        columns.len() == row.len(),
    ensures
        match r {
            Ok(value) => decode_row(shape@, name_views(*columns), cell_views(row@)) == Ok::<
                ValueView,
                ErrorView,
            >(value@),
            Err(e) => decode_row(shape@, name_views(*columns), cell_views(row@)) == Err::<
                ValueView,
                ErrorView,
            >(e@),
        },
    decreases shape,
{
    match shape {
        Shape::Optional(inner) => {
            if row.len() > 0 && row[0].is_null() {
                Ok(Value::Absent)
            } else {
                match from_row(inner, columns, row) {
                    Ok(v) => Ok(Value::Present(Box::new(v))),
                    Err(e) => Err(e),
                }
            }
        },
        Shape::Newtype(inner) => match from_row(inner, columns, row) {
            Ok(v) => Ok(Value::Newtype(Box::new(v))),
            Err(e) => Err(e),
        },
        Shape::NewtypeVariant(name, inner) => match from_row(inner, columns, row) {
            Ok(v) => Ok(Value::NewtypeVariant(name.clone(), Box::new(v))),
            Err(e) => Err(e),
        },
        Shape::Unit => Ok(Value::Unit),
        Shape::UnitStruct(name) => Ok(Value::UnitStruct(name.clone())),
        Shape::List(element) => match list_from_row(element, row) {
            Ok(items) => {
                proof {
                    lemma_value_views(items);
                }
                Ok(Value::List(items))
            },
            Err(e) => Err(e),
        },
        Shape::Tuple(shapes) => {
            proof {
                lemma_shape_views(*shapes);
            }
            match check_arity(shapes.len(), row.len()) {
                Err(e) => Err(e),
                Ok(_) => match tuple_from_row(shapes, row) {
                    Ok(items) => {
                        proof {
                            lemma_value_views(items);
                        }
                        Ok(Value::Tuple(items))
                    },
                    Err(e) => Err(e),
                },
            }
        },
        Shape::Record(fields) => match record_from_row(fields, columns, row) {
            Ok(values) => {
                proof {
                    lemma_field_views(values);
                }
                Ok(Value::Record(values))
            },
            Err(e) => Err(e),
        },
        Shape::Mapping(key, value) => match mapping_from_row(key, value, columns, row) {
            Ok(entries) => {
                proof {
                    lemma_entry_views(entries);
                }
                Ok(Value::Mapping(entries))
            },
            Err(e) => Err(e),
        },
        _ => {
            if row.len() == 0 {
                Err(Error::ArityMismatch { expected: 1, found: 0 })
            } else {
                from_cell(shape, &row[0])
            }
        },
    }
}

} // verus!

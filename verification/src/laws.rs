//! What serialization and deserialization guarantee together: a value that
//! is written to cells and read back as its own shape is the value that
//! was written.
use vstd::prelude::*;
use crate::cell::{CellView, NamedCellView};
use crate::de::{
    decode_cell, decode_row, entry_value_slot, entry_value_slots, field_slot, field_value_slots,
    list_slots, tuple_slots,
};
use crate::error::ErrorView;
use crate::gather::{gather, lemma_gather_ok};
use crate::named::{
    all_named, distinct_cell_names, in_order, lemma_in_order, lemma_lookup_distinct, lookup,
};
use crate::names::{lemma_position, position};
use crate::ser::{
    element_slots, entry_slot, entry_slots, field_slots, key_text, named_cells, named_params,
    params, scalar_cell,
};
use crate::shape::{FieldShapeView, ShapeView};
use crate::value::{EntryView, FieldView, ValueView};

verus! {

/// Tells whether a value is of a shape.
pub open spec fn has_shape(value: ValueView, shape: ShapeView) -> bool
    decreases value,
{
    match (value, shape) {
        (ValueView::Bool(_), ShapeView::Bool) => true,
        (ValueView::I8(_), ShapeView::I8) => true,
        (ValueView::I16(_), ShapeView::I16) => true,
        (ValueView::I32(_), ShapeView::I32) => true,
        (ValueView::I64(_), ShapeView::I64) => true,
        (ValueView::U8(_), ShapeView::U8) => true,
        (ValueView::U16(_), ShapeView::U16) => true,
        (ValueView::U32(_), ShapeView::U32) => true,
        (ValueView::U64(_), ShapeView::U64) => true,
        (ValueView::Real(_), ShapeView::Real) => true,
        (ValueView::Char(_), ShapeView::Char) => true,
        (ValueView::Text(_), ShapeView::Text) => true,
        (ValueView::Bytes(_), ShapeView::Bytes) => true,
        (ValueView::Unit, ShapeView::Unit) => true,
        (ValueView::Absent, ShapeView::Optional(_)) => true,
        (ValueView::Present(v), ShapeView::Optional(s)) => has_shape(*v, *s),
        (ValueView::UnitStruct(name), ShapeView::UnitStruct(declared)) => name == declared,
        (ValueView::Newtype(v), ShapeView::Newtype(s)) => has_shape(*v, *s),
        (ValueView::UnitVariant(name), ShapeView::Enumeration(variants)) => position(
            variants,
            name,
        ) is Some,
        (ValueView::NewtypeVariant(name, v), ShapeView::NewtypeVariant(declared, s)) => name
            == declared && has_shape(*v, *s),
        (ValueView::List(items), ShapeView::List(s)) => forall|i: int|
            0 <= i < items.len() ==> has_shape(#[trigger] items[i], *s),
        (ValueView::Tuple(items), ShapeView::Tuple(shapes)) => items.len() == shapes.len()
            && forall|i: int| 0 <= i < items.len() ==> has_shape(#[trigger] items[i], shapes[i]),
        (ValueView::Record(fields), ShapeView::Record(shapes)) => fields.len() == shapes.len()
            && forall|i: int|
            0 <= i < fields.len() ==> (#[trigger] fields[i]).name == shapes[i].name && has_shape(
                fields[i].value,
                shapes[i].shape,
            ),
        (ValueView::Mapping(entries), ShapeView::Mapping(k, v)) => forall|i: int|
            0 <= i < entries.len() ==> has_shape((#[trigger] entries[i]).key, *k) && has_shape(
                entries[i].value,
                *v,
            ),
        _ => false,
    }
}

/// What is read from one cell has the shape that was asked for.
pub proof fn lemma_decoded_cell_has_shape(shape: ShapeView, cell: CellView)
    ensures
        decode_cell(shape, cell) matches Ok(value) ==> has_shape(value, shape),
    decreases shape,
{
    match shape {
        ShapeView::Optional(inner) => {
            lemma_decoded_cell_has_shape(*inner, cell);
        },
        ShapeView::Newtype(inner) => {
            lemma_decoded_cell_has_shape(*inner, cell);
        },
        ShapeView::NewtypeVariant(_, inner) => {
            lemma_decoded_cell_has_shape(*inner, cell);
        },
        _ => {},
    }
}

/// What is read from a row has the shape that was asked for.
pub proof fn lemma_decoded_row_has_shape(
    shape: ShapeView,
    columns: Seq<Seq<char>>,
    row: Seq<CellView>,
)
    ensures
        decode_row(shape, columns, row) matches Ok(value) ==> has_shape(value, shape),
    decreases shape,
{
    match shape {
        ShapeView::Optional(inner) => {
            lemma_decoded_row_has_shape(*inner, columns, row);
        },
        ShapeView::Newtype(inner) => {
            lemma_decoded_row_has_shape(*inner, columns, row);
        },
        ShapeView::NewtypeVariant(_, inner) => {
            lemma_decoded_row_has_shape(*inner, columns, row);
        },
        ShapeView::List(element) => {
            let slots = list_slots(*element, row);
            lemma_gather_ok(slots);
            if gather(slots) is Ok {
                let items = gather(slots)->Ok_0;
                assert forall|i: int| 0 <= i < items.len() implies has_shape(
                    #[trigger] items[i],
                    *element,
                ) by {
                    lemma_decoded_cell_has_shape(*element, row[i]);
                    assert(slots[i] == Ok::<ValueView, ErrorView>(items[i]));
                }
            }
        },
        ShapeView::Tuple(shapes) => {
            let slots = tuple_slots(shapes, row);
            lemma_gather_ok(slots);
            if gather(slots) is Ok {
                let items = gather(slots)->Ok_0;
                assert forall|i: int| 0 <= i < items.len() implies has_shape(
                    #[trigger] items[i],
                    shapes[i],
                ) by {
                    lemma_decoded_cell_has_shape(shapes[i], row[i]);
                    assert(slots[i] == Ok::<ValueView, ErrorView>(items[i]));
                }
            }
        },
        ShapeView::Record(fields) => {
            let slots = field_value_slots(fields, columns, row);
            lemma_gather_ok(slots);
            if gather(slots) is Ok {
                let values = gather(slots)->Ok_0;
                assert forall|i: int| 0 <= i < values.len() implies (#[trigger] values[i]).name
                    == fields[i].name && has_shape(values[i].value, fields[i].shape) by {
                    assert(slots[i] == Ok::<FieldView, ErrorView>(values[i]));
                    assert(slots[i] == field_slot(fields[i], columns, row));
                    match position(columns, fields[i].name) {
                        Some(at) => {
                            lemma_decoded_cell_has_shape(fields[i].shape, row[at]);
                        },
                        None => {},
                    }
                }
            }
        },
        ShapeView::Mapping(key, value) => {
            let slots = entry_value_slots(*key, *value, columns, row);
            lemma_gather_ok(slots);
            if gather(slots) is Ok {
                let entries = gather(slots)->Ok_0;
                assert forall|i: int| 0 <= i < entries.len() implies has_shape(
                    (#[trigger] entries[i]).key,
                    *key,
                ) && has_shape(entries[i].value, *value) by {
                    assert(slots[i] == Ok::<EntryView, ErrorView>(entries[i]));
                    assert(slots[i] == entry_value_slot(*key, *value, columns[i], row[i]));
                    lemma_decoded_cell_has_shape(*key, CellView::Text(columns[i]));
                    lemma_decoded_cell_has_shape(*value, row[i]);
                }
            }
        },
        _ => {
            if row.len() > 0 {
                lemma_decoded_cell_has_shape(shape, row[0]);
            }
        },
    }
}

/// Tells whether a value can be told from its one cell.
///
/// This holds of every scalar, unit-like and wrapped value but two kinds:
/// an unsigned number above `i64::MAX`, which has no cell, and a present
/// optional value whose content is stored as null, which cannot be told
/// from a missing one. Values that spread over several cells have no
/// single cell.
pub open spec fn faithful(value: ValueView) -> bool
    decreases value,
{
    match value {
        ValueView::U64(n) => n <= i64::MAX,
        ValueView::Present(v) => faithful(*v) && scalar_cell(*v) != Ok::<CellView, ErrorView>(
            CellView::Null,
        ),
        ValueView::Newtype(v) => faithful(*v),
        ValueView::NewtypeVariant(_, v) => faithful(*v),
        ValueView::TupleVariant(_, _) => false,
        ValueView::RecordVariant(_, _) => false,
        ValueView::List(_) => false,
        ValueView::Tuple(_) => false,
        ValueView::Record(_) => false,
        ValueView::Mapping(_) => false,
        _ => true,
    }
}

/// Round trip through one cell: a faithful value has a cell, and the cell
/// read back as the value's shape is the value.
pub proof fn lemma_cell_round_trip(value: ValueView, shape: ShapeView)
    requires
        has_shape(value, shape),
        faithful(value),
    ensures
        scalar_cell(value) is Ok,
        decode_cell(shape, scalar_cell(value)->Ok_0) == Ok::<ValueView, ErrorView>(value),
    decreases value,
{
    match (value, shape) {
        (ValueView::Present(v), ShapeView::Optional(s)) => {
            lemma_cell_round_trip(*v, *s);
        },
        (ValueView::Newtype(v), ShapeView::Newtype(s)) => {
            lemma_cell_round_trip(*v, *s);
        },
        (ValueView::NewtypeVariant(_, v), ShapeView::NewtypeVariant(_, s)) => {
            lemma_cell_round_trip(*v, *s);
        },
        (ValueView::Char(c), ShapeView::Char) => {
            assert(seq![c].len() == 1 && seq![c][0] == c);
        },
        _ => {},
    }
}

/// A faithful value is serialized to exactly one unnamed cell.
pub proof fn lemma_single_cell(value: ValueView)
    requires
        faithful(value),
        scalar_cell(value) is Ok,
    ensures
        named_cells(value) == Ok::<Seq<NamedCellView>, ErrorView>(
            seq![NamedCellView { name: None, cell: scalar_cell(value)->Ok_0 }],
        ),
    decreases value,
{
    match value {
        ValueView::Present(v) => {
            lemma_single_cell(*v);
        },
        ValueView::Newtype(v) => {
            lemma_single_cell(*v);
        },
        ValueView::NewtypeVariant(_, v) => {
            lemma_single_cell(*v);
        },
        _ => {},
    }
}

/// Round trip of a scalar: a faithful value is serialized to one cell,
/// and a row of that one cell, read back as the value's shape under any
/// column name, is the value. This covers booleans, integers of every
/// width, real numbers, characters, strings, byte sequences, optional
/// values, unit, unit structures, variants without payload and
/// transparent wrappers of these.
pub proof fn lemma_scalar_round_trip(value: ValueView, shape: ShapeView, columns: Seq<Seq<char>>)
    requires
        has_shape(value, shape),
        faithful(value),
    ensures
        params(value) is Ok,
        params(value)->Ok_0.len() == 1,
        decode_row(shape, columns, params(value)->Ok_0) == Ok::<ValueView, ErrorView>(value),
    decreases value,
{
    lemma_cell_round_trip(value, shape);
    lemma_single_cell(value);
    let cell = scalar_cell(value)->Ok_0;
    let row = params(value)->Ok_0;
    assert(row =~= seq![cell]);
    match (value, shape) {
        (ValueView::Present(v), ShapeView::Optional(s)) => {
            lemma_scalar_round_trip(*v, *s, columns);
        },
        (ValueView::Newtype(v), ShapeView::Newtype(s)) => {
            lemma_scalar_round_trip(*v, *s, columns);
        },
        (ValueView::NewtypeVariant(_, v), ShapeView::NewtypeVariant(_, s)) => {
            lemma_scalar_round_trip(*v, *s, columns);
        },
        _ => {},
    }
}

/// Tells whether a binary64 bit pattern is not a number: every bit of the
/// exponent is set and the fraction is not zero.
pub open spec fn is_nan(bits: u64) -> bool {
    (bits >> 52) & 0x7ff == 0x7ff && bits & 0xf_ffff_ffff_ffff != 0
}

/// A real number that is not a number is stored and read back as one that
/// is not a number: the bit pattern is kept as it is.
pub proof fn lemma_nan_round_trip(bits: u64, columns: Seq<Seq<char>>)
    requires
        is_nan(bits),
    ensures
        params(ValueView::Real(bits)) is Ok,
        decode_row(ShapeView::Real, columns, params(ValueView::Real(bits))->Ok_0) matches Ok(
            ValueView::Real(back),
        ) && is_nan(back),
{
    lemma_scalar_round_trip(ValueView::Real(bits), ShapeView::Real, columns);
}

/// Unsigned 64-bit numbers: a number above `i64::MAX` is rejected as too
/// large and nothing else is; a number up to `i64::MAX` is stored as the
/// integer of the same value and read back unchanged.
pub proof fn lemma_unsigned_round_trip(n: u64, columns: Seq<Seq<char>>)
    ensures
        n > i64::MAX <==> params(ValueView::U64(n)) == Err::<Seq<CellView>, ErrorView>(
            ErrorView::ValueTooLarge(n),
        ),
        n <= i64::MAX <==> params(ValueView::U64(n)) == Ok::<Seq<CellView>, ErrorView>(
            seq![CellView::Integer(n as i64)],
        ),
        n <= i64::MAX ==> decode_row(ShapeView::U64, columns, params(ValueView::U64(n))->Ok_0)
            == Ok::<ValueView, ErrorView>(ValueView::U64(n)),
{
    if n <= i64::MAX {
        lemma_scalar_round_trip(ValueView::U64(n), ShapeView::U64, columns);
        assert(params(ValueView::U64(n))->Ok_0 =~= seq![CellView::Integer(n as i64)]);
    }
}

/// Round trip of a tuple: a tuple of faithful elements is serialized to
/// one cell per element, in order, and that row read back as the tuple's
/// shape is the tuple.
pub proof fn lemma_tuple_round_trip(
    items: Seq<ValueView>,
    shapes: Seq<ShapeView>,
    columns: Seq<Seq<char>>,
)
    requires
        has_shape(ValueView::Tuple(items), ShapeView::Tuple(shapes)),
        forall|i: int| 0 <= i < items.len() ==> faithful(#[trigger] items[i]),
    ensures
        params(ValueView::Tuple(items)) is Ok,
        params(ValueView::Tuple(items))->Ok_0.len() == items.len(),
        decode_row(ShapeView::Tuple(shapes), columns, params(ValueView::Tuple(items))->Ok_0)
            == Ok::<ValueView, ErrorView>(ValueView::Tuple(items)),
{
    let slots = element_slots(items);
    assert forall|i: int| 0 <= i < slots.len() implies (#[trigger] slots[i]) is Ok by {
        lemma_cell_round_trip(items[i], shapes[i]);
    }
    lemma_gather_ok(slots);
    let row = params(ValueView::Tuple(items))->Ok_0;
    let back = tuple_slots(shapes, row);
    assert forall|i: int| 0 <= i < back.len() implies #[trigger] back[i] == Ok::<
        ValueView,
        ErrorView,
    >(items[i]) by {
        lemma_cell_round_trip(items[i], shapes[i]);
        assert(slots[i] is Ok);
    }
    lemma_gather_ok(back);
    assert(gather(back)->Ok_0 =~= items);
}

/// Round trip of a list: a list of faithful elements is serialized to one
/// cell per element, in order, and that row read back as the list's shape
/// is the list.
pub proof fn lemma_list_round_trip(
    items: Seq<ValueView>,
    element: ShapeView,
    columns: Seq<Seq<char>>,
)
    requires
        has_shape(ValueView::List(items), ShapeView::List(Box::new(element))),
        forall|i: int| 0 <= i < items.len() ==> faithful(#[trigger] items[i]),
    ensures
        params(ValueView::List(items)) is Ok,
        params(ValueView::List(items))->Ok_0.len() == items.len(),
        decode_row(
            ShapeView::List(Box::new(element)),
            columns,
            params(ValueView::List(items))->Ok_0,
        ) == Ok::<ValueView, ErrorView>(ValueView::List(items)),
{
    let slots = element_slots(items);
    assert forall|i: int| 0 <= i < slots.len() implies (#[trigger] slots[i]) is Ok by {
        lemma_cell_round_trip(items[i], element);
    }
    lemma_gather_ok(slots);
    let row = params(ValueView::List(items))->Ok_0;
    let back = list_slots(element, row);
    assert forall|i: int| 0 <= i < back.len() implies #[trigger] back[i] == Ok::<
        ValueView,
        ErrorView,
    >(items[i]) by {
        lemma_cell_round_trip(items[i], element);
        assert(slots[i] is Ok);
    }
    lemma_gather_ok(back);
    assert(gather(back)->Ok_0 =~= items);
}

/// Tells whether no two fields of the sequence have the same name.
pub open spec fn distinct_names(fields: Seq<FieldView>) -> bool {
    forall|i: int, j: int|
        0 <= i < fields.len() && 0 <= j < fields.len() && i != j ==> (#[trigger] fields[i]).name
            != (#[trigger] fields[j]).name
}

/// Tells whether the columns are the names of the fields, in any order and
/// with any repetition.
pub open spec fn columns_match(fields: Seq<FieldView>, columns: Seq<Seq<char>>) -> bool {
    &&& forall|i: int|
        0 <= i < fields.len() ==> position(columns, (#[trigger] fields[i]).name) is Some
    &&& forall|j: int|
        0 <= j < columns.len() ==> exists|i: int|
            0 <= i < fields.len() && (#[trigger] fields[i]).name == #[trigger] columns[j]
}

/// The named cells of a record of faithful fields: one per field, in
/// order, each under the field's name.
pub proof fn lemma_record_cells(fields: Seq<FieldView>, shapes: Seq<FieldShapeView>)
    requires
        has_shape(ValueView::Record(fields), ShapeView::Record(shapes)),
        forall|i: int| 0 <= i < fields.len() ==> faithful((#[trigger] fields[i]).value),
    ensures
        named_params(ValueView::Record(fields)) is Ok,
        named_params(ValueView::Record(fields))->Ok_0.len() == fields.len(),
        forall|i: int|
            0 <= i < fields.len() ==> #[trigger] named_params(ValueView::Record(fields))->Ok_0[i]
                == (NamedCellView {
                name: Some(fields[i].name),
                cell: scalar_cell(fields[i].value)->Ok_0,
            }),
{
    let slots = field_slots(fields);
    assert forall|i: int| 0 <= i < slots.len() implies (#[trigger] slots[i]) is Ok by {
        lemma_cell_round_trip(fields[i].value, shapes[i].shape);
    }
    lemma_gather_ok(slots);
    let cells = gather(slots)->Ok_0;
    assert forall|i: int| 0 <= i < cells.len() implies #[trigger] cells[i] == (NamedCellView {
        name: Some(fields[i].name),
        cell: scalar_cell(fields[i].value)->Ok_0,
    }) by {
        lemma_cell_round_trip(fields[i].value, shapes[i].shape);
        assert(slots[i] == Ok::<NamedCellView, ErrorView>(cells[i]));
    }
    assert(all_named(cells));
}

/// Round trip of a record, whatever the order of the columns: a record of
/// faithful fields with distinct names is serialized to a lookup by name;
/// the lookup put into the order of any column list that holds exactly
/// the field names gives a row; and that row read back as the record's
/// shape against that column list is the record. Fields are matched by
/// name, never by position.
pub proof fn lemma_record_round_trip(
    fields: Seq<FieldView>,
    shapes: Seq<FieldShapeView>,
    columns: Seq<Seq<char>>,
)
    requires
        has_shape(ValueView::Record(fields), ShapeView::Record(shapes)),
        forall|i: int| 0 <= i < fields.len() ==> faithful((#[trigger] fields[i]).value),
        distinct_names(fields),
        columns_match(fields, columns),
    ensures
        named_params(ValueView::Record(fields)) is Ok,
        in_order(lookup(named_params(ValueView::Record(fields))->Ok_0), columns) is Ok,
        decode_row(
            ShapeView::Record(shapes),
            columns,
            in_order(lookup(named_params(ValueView::Record(fields))->Ok_0), columns)->Ok_0,
        ) == Ok::<ValueView, ErrorView>(ValueView::Record(fields)),
{
    lemma_record_cells(fields, shapes);
    let cells = named_params(ValueView::Record(fields))->Ok_0;
    let table = lookup(cells);
    assert(all_named(cells));
    assert(distinct_cell_names(cells)) by {
        assert forall|i: int, j: int|
            0 <= i < cells.len() && 0 <= j < cells.len() && i != j implies (
        #[trigger] cells[i]).name != (#[trigger] cells[j]).name by {
            assert(fields[i].name != fields[j].name);
        }
    }
    lemma_lookup_distinct(cells);
    assert forall|i: int| 0 <= i < fields.len() implies table.contains_key(
        (#[trigger] fields[i]).name,
    ) && table[fields[i].name] == scalar_cell(fields[i].value)->Ok_0 by {
        assert(cells[i].name->Some_0 == fields[i].name);
    }
    assert forall|j: int| 0 <= j < columns.len() implies table.contains_key(
        #[trigger] columns[j],
    ) by {
        let i = choose|i: int| 0 <= i < fields.len() && (#[trigger] fields[i]).name == columns[j];
        assert(table.contains_key(fields[i].name));
    }
    lemma_in_order(table, columns);
    let row = in_order(table, columns)->Ok_0;
    let back = field_value_slots(shapes, columns, row);
    assert forall|i: int| 0 <= i < back.len() implies #[trigger] back[i] == Ok::<
        FieldView,
        ErrorView,
    >(fields[i]) by {
        let name = fields[i].name;
        assert(shapes[i].name == name);
        lemma_position(columns, name);
        let at = position(columns, name)->Some_0;
        assert(row[at] == table[columns[at]]);
        assert(table.contains_key(name));
        lemma_cell_round_trip(fields[i].value, shapes[i].shape);
        assert(back[i] == field_slot(shapes[i], columns, row));
    }
    lemma_gather_ok(back);
    assert(gather(back)->Ok_0 =~= fields);
}

/// Tells whether every key has a textual form and no two keys have the
/// same one.
pub open spec fn distinct_keys(entries: Seq<EntryView>) -> bool {
    &&& forall|i: int| 0 <= i < entries.len() ==> key_text((#[trigger] entries[i]).key) is Ok
    &&& forall|i: int, j: int|
        0 <= i < entries.len() && 0 <= j < entries.len() && i != j ==> key_text(
            (#[trigger] entries[i]).key,
        ) != key_text((#[trigger] entries[j]).key)
}

/// Tells whether the columns are the textual forms of the keys, in any
/// order and with any repetition.
pub open spec fn columns_match_keys(entries: Seq<EntryView>, columns: Seq<Seq<char>>) -> bool {
    &&& forall|i: int|
        0 <= i < entries.len() ==> exists|j: int|
            0 <= j < columns.len() && #[trigger] columns[j] == key_text(
                (#[trigger] entries[i]).key,
            )->Ok_0
    &&& forall|j: int|
        0 <= j < columns.len() ==> exists|i: int|
            0 <= i < entries.len() && key_text((#[trigger] entries[i]).key)->Ok_0
                == #[trigger] columns[j]
}

/// Tells whether two sequences hold the same entries, in any order.
pub open spec fn same_entries(a: Seq<EntryView>, b: Seq<EntryView>) -> bool {
    &&& forall|i: int| 0 <= i < a.len() ==> b.contains(#[trigger] a[i])
    &&& forall|j: int| 0 <= j < b.len() ==> a.contains(#[trigger] b[j])
}

/// The named cells of a mapping of faithful values whose keys have a
/// textual form: one per entry, in order, each under the text of its key.
pub proof fn lemma_mapping_cells(entries: Seq<EntryView>, key: ShapeView, value: ShapeView)
    requires
        has_shape(ValueView::Mapping(entries), ShapeView::Mapping(Box::new(key), Box::new(value))),
        forall|i: int| 0 <= i < entries.len() ==> faithful((#[trigger] entries[i]).value),
        forall|i: int| 0 <= i < entries.len() ==> key_text((#[trigger] entries[i]).key) is Ok,
    ensures
        named_params(ValueView::Mapping(entries)) is Ok,
        named_params(ValueView::Mapping(entries))->Ok_0.len() == entries.len(),
        forall|i: int|
            0 <= i < entries.len() ==> #[trigger] named_params(
                ValueView::Mapping(entries),
            )->Ok_0[i] == (NamedCellView {
                name: Some(key_text(entries[i].key)->Ok_0),
                cell: scalar_cell(entries[i].value)->Ok_0,
            }),
{
    let slots = entry_slots(entries);
    assert forall|i: int| 0 <= i < slots.len() implies (#[trigger] slots[i]) is Ok by {
        lemma_cell_round_trip(entries[i].value, value);
        assert(key_text(entries[i].key) is Ok);
        assert(slots[i] == entry_slot(entries[i]));
    }
    lemma_gather_ok(slots);
    let cells = gather(slots)->Ok_0;
    assert forall|i: int| 0 <= i < cells.len() implies #[trigger] cells[i] == (NamedCellView {
        name: Some(key_text(entries[i].key)->Ok_0),
        cell: scalar_cell(entries[i].value)->Ok_0,
    }) by {
        lemma_cell_round_trip(entries[i].value, value);
        assert(key_text(entries[i].key) is Ok);
        assert(slots[i] == entry_slot(entries[i]));
        assert(slots[i] == Ok::<NamedCellView, ErrorView>(cells[i]));
    }
    assert(all_named(cells));
}

/// One column of a mapping's row read back: the column whose name is the
/// text of an entry's key, with the cell of that entry's value, gives the
/// entry.
pub proof fn lemma_entry_round_trip(entry: EntryView, key: ShapeView, value: ShapeView)
    requires
        has_shape(entry.key, key),
        has_shape(entry.value, value),
        faithful(entry.key),
        faithful(entry.value),
        key_text(entry.key) is Ok,
    ensures
        entry_value_slot(
            key,
            value,
            key_text(entry.key)->Ok_0,
            scalar_cell(entry.value)->Ok_0,
        ) == Ok::<EntryView, ErrorView>(entry),
{
    lemma_cell_round_trip(entry.key, key);
    lemma_cell_round_trip(entry.value, value);
}

/// Round trip of a mapping, whatever the order of its entries: a mapping
/// of faithful keys and values whose keys have distinct textual forms is
/// serialized to a lookup by name; the lookup put into the order of any
/// column list that holds exactly the key texts gives a row; and that row
/// read back as the mapping's shape is a mapping with the same entries,
/// one per column and in the order of the columns.
pub proof fn lemma_mapping_round_trip(
    entries: Seq<EntryView>,
    key: ShapeView,
    value: ShapeView,
    columns: Seq<Seq<char>>,
)
    requires
        has_shape(ValueView::Mapping(entries), ShapeView::Mapping(Box::new(key), Box::new(value))),
        forall|i: int|
            0 <= i < entries.len() ==> faithful((#[trigger] entries[i]).key) && faithful(
                entries[i].value,
            ),
        distinct_keys(entries),
        columns_match_keys(entries, columns),
    ensures
        named_params(ValueView::Mapping(entries)) is Ok,
        in_order(lookup(named_params(ValueView::Mapping(entries))->Ok_0), columns) is Ok,
        decode_row(
            ShapeView::Mapping(Box::new(key), Box::new(value)),
            columns,
            in_order(lookup(named_params(ValueView::Mapping(entries))->Ok_0), columns)->Ok_0,
        ) matches Ok(ValueView::Mapping(out)) && out.len() == columns.len() && same_entries(
            out,
            entries,
        ),
{
    lemma_mapping_cells(entries, key, value);
    let cells = named_params(ValueView::Mapping(entries))->Ok_0;
    let table = lookup(cells);
    assert(all_named(cells));
    assert(distinct_cell_names(cells)) by {
        assert forall|i: int, j: int|
            0 <= i < cells.len() && 0 <= j < cells.len() && i != j implies (
        #[trigger] cells[i]).name != (#[trigger] cells[j]).name by {
            assert(key_text(entries[i].key) is Ok);
            assert(key_text(entries[j].key) is Ok);
            assert(key_text(entries[i].key) != key_text(entries[j].key));
        }
    }
    lemma_lookup_distinct(cells);
    assert forall|i: int| 0 <= i < entries.len() implies table.contains_key(
        key_text((#[trigger] entries[i]).key)->Ok_0,
    ) && table[key_text(entries[i].key)->Ok_0] == scalar_cell(entries[i].value)->Ok_0 by {
        assert(cells[i].name->Some_0 == key_text(entries[i].key)->Ok_0);
    }
    assert forall|j: int| 0 <= j < columns.len() implies table.contains_key(
        #[trigger] columns[j],
    ) by {
        let i = choose|i: int|
            0 <= i < entries.len() && key_text((#[trigger] entries[i]).key)->Ok_0 == columns[j];
        assert(table.contains_key(key_text(entries[i].key)->Ok_0));
    }
    lemma_in_order(table, columns);
    let row = in_order(table, columns)->Ok_0;
    let back = entry_value_slots(key, value, columns, row);
    assert forall|j: int, i: int|
        0 <= j < columns.len() && 0 <= i < entries.len() && key_text(entries[i].key)->Ok_0
            == columns[j] implies #[trigger] back[j] == Ok::<EntryView, ErrorView>(
        #[trigger] entries[i],
    ) by {
        assert(row[j] == table[columns[j]]);
        assert(table.contains_key(key_text(entries[i].key)->Ok_0));
        lemma_entry_round_trip(entries[i], key, value);
        assert(back[j] == entry_value_slot(key, value, columns[j], row[j]));
    }
    assert forall|j: int| 0 <= j < back.len() implies (#[trigger] back[j]) is Ok by {
        let i = choose|i: int|
            0 <= i < entries.len() && key_text((#[trigger] entries[i]).key)->Ok_0 == columns[j];
        assert(back[j] == Ok::<EntryView, ErrorView>(entries[i]));
    }
    lemma_gather_ok(back);
    let out = gather(back)->Ok_0;
    assert forall|j: int| 0 <= j < out.len() implies entries.contains(#[trigger] out[j]) by {
        let i = choose|i: int|
            0 <= i < entries.len() && key_text((#[trigger] entries[i]).key)->Ok_0 == columns[j];
        assert(back[j] == Ok::<EntryView, ErrorView>(entries[i]));
        assert(back[j] == Ok::<EntryView, ErrorView>(out[j]));
    }
    assert forall|i: int| 0 <= i < entries.len() implies out.contains(#[trigger] entries[i]) by {
        let j = choose|j: int|
            0 <= j < columns.len() && #[trigger] columns[j] == key_text(entries[i].key)->Ok_0;
        assert(back[j] == Ok::<EntryView, ErrorView>(entries[i]));
        assert(back[j] == Ok::<EntryView, ErrorView>(out[j]));
    }
}

} // verus!

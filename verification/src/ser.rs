//! The serializer: from one structured value to the cells that are bound
//! as the parameters of a statement.
use vstd::prelude::*;
use crate::cell::{cell_views, named_cell_views, Cell, CellView, NamedCell, NamedCellView};
use crate::error::{Error, ErrorView};
use crate::gather::{gather, lemma_gather_step};
use crate::named::{all_named, NamedParams};
use crate::value::{
    entry_views, field_views, lemma_entry_views, lemma_field_views, lemma_value_views,
    value_views, Entry, EntryView, Field, FieldView, Value, ValueView,
};

verus! {

/// The one cell of a value that stands where a single cell is expected.
///
/// Booleans and integers become integers, characters and strings become
/// text, binary-tagged byte sequences become blobs, unit and a missing
/// optional value become null. A unit structure and a variant without
/// payload become the text of their declared name. A present optional
/// value, a structure with one unnamed field and a variant with one
/// unnamed payload field stand for what they hold. Everything else has no
/// single cell.
pub open spec fn scalar_cell(value: ValueView) -> Result<CellView, ErrorView>
    decreases value,
{
    match value {
        ValueView::Bool(b) => Ok(CellView::Integer(if b { 1i64 } else { 0i64 })),
        ValueView::I8(n) => Ok(CellView::Integer(n as i64)),
        ValueView::I16(n) => Ok(CellView::Integer(n as i64)),
        ValueView::I32(n) => Ok(CellView::Integer(n as i64)),
        ValueView::I64(n) => Ok(CellView::Integer(n)),
        ValueView::U8(n) => Ok(CellView::Integer(n as i64)),
        ValueView::U16(n) => Ok(CellView::Integer(n as i64)),
        ValueView::U32(n) => Ok(CellView::Integer(n as i64)),
        ValueView::U64(n) => if n <= i64::MAX {
            Ok(CellView::Integer(n as i64))
        } else {
            Err(ErrorView::ValueTooLarge(n))
        },
        ValueView::Real(bits) => Ok(CellView::Real(bits)),
        ValueView::Char(c) => Ok(CellView::Text(seq![c])),
        ValueView::Text(s) => Ok(CellView::Text(s)),
        ValueView::Bytes(b) => Ok(CellView::Blob(b)),
        ValueView::Unit => Ok(CellView::Null),
        ValueView::Absent => Ok(CellView::Null),
        ValueView::Present(inner) => scalar_cell(*inner),
        ValueView::UnitStruct(name) => Ok(CellView::Text(name)),
        ValueView::Newtype(inner) => scalar_cell(*inner),
        ValueView::UnitVariant(name) => Ok(CellView::Text(name)),
        ValueView::NewtypeVariant(_, inner) => scalar_cell(*inner),
        _ => Err(ErrorView::UnsupportedStructure),
    }
}

/// The textual form of the key of a mapping: the text of the key's cell.
/// A key whose cell is not text has no textual form.
pub open spec fn key_text(key: ValueView) -> Result<Seq<char>, ErrorView> {
    match scalar_cell(key) {
        Ok(CellView::Text(s)) => Ok(s),
        Ok(_) => Err(ErrorView::UnsupportedStructure),
        Err(e) => Err(e),
    }
}

/// A cell under a name, or the failure to make the cell.
pub open spec fn slot(name: Option<Seq<char>>, cell: Result<CellView, ErrorView>) -> Result<
    NamedCellView,
    ErrorView,
> {
    match cell {
        Ok(c) => Ok(NamedCellView { name, cell: c }),
        Err(e) => Err(e),
    }
}

/// The unnamed cell of each element of a list or tuple.
pub open spec fn element_slots(items: Seq<ValueView>) -> Seq<Result<NamedCellView, ErrorView>> {
    Seq::new(items.len(), |i: int| slot(None, scalar_cell(items[i])))
}

/// The cell of each field of a record, under the field's name.
pub open spec fn field_slots(fields: Seq<FieldView>) -> Seq<Result<NamedCellView, ErrorView>> {
    Seq::new(fields.len(), |i: int| slot(Some(fields[i].name), scalar_cell(fields[i].value)))
}

/// The cell of one entry of a mapping, under the textual form of its key.
pub open spec fn entry_slot(entry: EntryView) -> Result<NamedCellView, ErrorView> {
    match key_text(entry.key) {
        Ok(name) => slot(Some(name), scalar_cell(entry.value)),
        Err(e) => Err(e),
    }
}

/// The cell of each entry of a mapping.
pub open spec fn entry_slots(entries: Seq<EntryView>) -> Seq<Result<NamedCellView, ErrorView>> {
    Seq::new(entries.len(), |i: int| entry_slot(entries[i]))
}

/// The cells of a value, in the order of its elements or fields, each with
/// its name where it has one.
///
/// Transparent wrappers are passed through. A list or tuple gives one
/// unnamed cell per element, so an empty tuple gives no cell. A record or
/// mapping gives one named cell per field or entry. Any other value gives
/// its single unnamed cell, so unit gives one null cell. The first part
/// that has no cell makes the whole fail.
pub open spec fn named_cells(value: ValueView) -> Result<Seq<NamedCellView>, ErrorView>
    decreases value,
{
    match value {
        ValueView::Present(inner) => named_cells(*inner),
        ValueView::Newtype(inner) => named_cells(*inner),
        ValueView::NewtypeVariant(_, inner) => named_cells(*inner),
        ValueView::List(items) => gather(element_slots(items)),
        ValueView::Tuple(items) => gather(element_slots(items)),
        ValueView::Record(fields) => gather(field_slots(fields)),
        ValueView::Mapping(entries) => gather(entry_slots(entries)),
        _ => match scalar_cell(value) {
            Ok(cell) => Ok(seq![NamedCellView { name: None, cell }]),
            Err(e) => Err(e),
        },
    }
}

/// The cells of a sequence of named cells, without their names.
pub open spec fn positional(cells: Seq<NamedCellView>) -> Seq<CellView> {
    Seq::new(cells.len(), |i: int| cells[i].cell)
}

/// The cells that a value gives for positional binding.
pub open spec fn params(value: ValueView) -> Result<Seq<CellView>, ErrorView> {
    match named_cells(value) {
        Ok(cells) => Ok(positional(cells)),
        Err(e) => Err(e),
    }
}

/// The named cells that a value gives for named binding. A value with a
/// cell that has no name cannot be bound by name.
pub open spec fn named_params(value: ValueView) -> Result<Seq<NamedCellView>, ErrorView> {
    match named_cells(value) {
        Ok(cells) => if all_named(cells) {
            Ok(cells)
        } else {
            Err(ErrorView::UnsupportedStructure)
        },
        Err(e) => Err(e),
    }
}

/// Converts a value that stands where a single cell is expected.
pub fn to_cell(value: &Value) -> (r: Result<Cell, Error>)
    ensures
        match r {
            Ok(cell) => scalar_cell(value@) == Ok::<CellView, ErrorView>(cell@),
            Err(e) => scalar_cell(value@) == Err::<CellView, ErrorView>(e@),
        },
    decreases value,
{
    match value {
        Value::Bool(b) => Ok(Cell::from_bool(*b)),
        Value::I8(n) => Ok(Cell::from_signed(*n as i64)),
        Value::I16(n) => Ok(Cell::from_signed(*n as i64)),
        Value::I32(n) => Ok(Cell::from_signed(*n as i64)),
        Value::I64(n) => Ok(Cell::from_signed(*n)),
        Value::U8(n) => Cell::from_unsigned(*n as u64),
        Value::U16(n) => Cell::from_unsigned(*n as u64),
        Value::U32(n) => Cell::from_unsigned(*n as u64),
        Value::U64(n) => Cell::from_unsigned(*n),
        Value::Real(bits) => Ok(Cell::from_real_bits(*bits)),
        Value::Char(c) => Ok(Cell::from_char(*c)),
        Value::Text(s) => Ok(Cell::from_text(s)),
        Value::Bytes(b) => Ok(Cell::from_bytes(b)),
        Value::Unit => Ok(Cell::Null),
        Value::Absent => Ok(Cell::Null),
        Value::Present(inner) => to_cell(inner),
        Value::UnitStruct(name) => Ok(Cell::from_text(name)),
        Value::Newtype(inner) => to_cell(inner),
        Value::UnitVariant(name) => Ok(Cell::from_text(name)),
        Value::NewtypeVariant(_, inner) => to_cell(inner),
        _ => Err(Error::UnsupportedStructure),
    }
}

/// Converts the key of a mapping to its textual form.
pub fn to_key(key: &Value) -> (r: Result<String, Error>)
    ensures
        match r {
            Ok(name) => key_text(key@) == Ok::<Seq<char>, ErrorView>(name@),
            Err(e) => key_text(key@) == Err::<Seq<char>, ErrorView>(e@),
        },
{
    match to_cell(key) {
        Ok(Cell::Text(s)) => Ok(s),
        Ok(_) => Err(Error::UnsupportedStructure),
        Err(e) => Err(e),
    }
}

fn elements_to_cells(items: &Vec<Value>) -> (r: Result<Vec<NamedCell>, Error>)
    ensures
        match r {
            Ok(cells) => gather(element_slots(value_views(*items))) == Ok::<
                Seq<NamedCellView>,
                ErrorView,
            >(named_cell_views(cells@)),
            Err(e) => gather(element_slots(value_views(*items))) == Err::<
                Seq<NamedCellView>,
                ErrorView,
            >(e@),
        },
{
    let ghost slots = element_slots(value_views(*items));
    proof {
        lemma_value_views(*items);
    }
    let mut out: Vec<NamedCell> = Vec::new();
    let mut i: usize = 0;
    assert(slots.take(0) =~= Seq::empty());
    assert(named_cell_views(out@) =~= Seq::empty());
    while i < items.len()
        invariant
            i <= items.len(),
            slots == element_slots(value_views(*items)),
            slots.len() == items@.len(),
            forall|k: int|
                0 <= k < items@.len() ==> #[trigger] value_views(*items)[k] == items@[k]@,
            gather(slots.take(i as int)) == Ok::<Seq<NamedCellView>, ErrorView>(
                named_cell_views(out@),
            ),
        decreases items.len() - i,
    {
        proof {
            lemma_gather_step(slots, i as int);
            assert(slots[i as int] == slot(None, scalar_cell(items@[i as int]@)));
        }
        match to_cell(&items[i]) {
            Ok(cell) => {
                let ghost before = named_cell_views(out@);
                let named = NamedCell { name: None, cell };
                out.push(named);
                assert(named_cell_views(out@) =~= before.push(named@));
            },
            Err(e) => {
                return Err(e);
            },
        }
        i += 1;
    }
    assert(slots.take(i as int) == slots);
    Ok(out)
}

fn fields_to_cells(fields: &Vec<Field>) -> (r: Result<Vec<NamedCell>, Error>)
    ensures
        match r {
            Ok(cells) => gather(field_slots(field_views(*fields))) == Ok::<
                Seq<NamedCellView>,
                ErrorView,
            >(named_cell_views(cells@)),
            Err(e) => gather(field_slots(field_views(*fields))) == Err::<
                Seq<NamedCellView>,
                ErrorView,
            >(e@),
        },
{
    let ghost slots = field_slots(field_views(*fields));
    proof {
        lemma_field_views(*fields);
    }
    let mut out: Vec<NamedCell> = Vec::new();
    let mut i: usize = 0;
    assert(slots.take(0) =~= Seq::empty());
    assert(named_cell_views(out@) =~= Seq::empty());
    while i < fields.len()
        invariant
            i <= fields.len(),
            slots == field_slots(field_views(*fields)),
            slots.len() == fields@.len(),
            forall|k: int|
                0 <= k < fields@.len() ==> #[trigger] field_views(*fields)[k] == fields@[k]@,
            gather(slots.take(i as int)) == Ok::<Seq<NamedCellView>, ErrorView>(
                named_cell_views(out@),
            ),
        decreases fields.len() - i,
    {
        proof {
            lemma_gather_step(slots, i as int);
            assert(slots[i as int] == slot(
                Some(fields@[i as int].name@),
                scalar_cell(fields@[i as int].value@),
            ));
        }
        match to_cell(&fields[i].value) {
            Ok(cell) => {
                let ghost before = named_cell_views(out@);
                let named = NamedCell { name: Some(fields[i].name.clone()), cell };
                out.push(named);
                assert(named_cell_views(out@) =~= before.push(named@));
            },
            Err(e) => {
                return Err(e);
            },
        }
        i += 1;
    }
    assert(slots.take(i as int) == slots);
    Ok(out)
}

fn entries_to_cells(entries: &Vec<Entry>) -> (r: Result<Vec<NamedCell>, Error>)
    ensures
        match r {
            Ok(cells) => gather(entry_slots(entry_views(*entries))) == Ok::<
                Seq<NamedCellView>,
                ErrorView,
            >(named_cell_views(cells@)),
            Err(e) => gather(entry_slots(entry_views(*entries))) == Err::<
                Seq<NamedCellView>,
                ErrorView,
            >(e@),
        },
{
    let ghost slots = entry_slots(entry_views(*entries));
    proof {
        lemma_entry_views(*entries);
    }
    let mut out: Vec<NamedCell> = Vec::new();
    let mut i: usize = 0;
    assert(slots.take(0) =~= Seq::empty());
    assert(named_cell_views(out@) =~= Seq::empty());
    while i < entries.len()
        invariant
            i <= entries.len(),
            slots == entry_slots(entry_views(*entries)),
            slots.len() == entries@.len(),
            forall|k: int|
                0 <= k < entries@.len() ==> #[trigger] entry_views(*entries)[k] == entries@[k]@,
            gather(slots.take(i as int)) == Ok::<Seq<NamedCellView>, ErrorView>(
                named_cell_views(out@),
            ),
        decreases entries.len() - i,
    {
        proof {
            lemma_gather_step(slots, i as int);
            assert(slots[i as int] == entry_slot(entries@[i as int]@));
        }
        let name = match to_key(&entries[i].key) {
            Ok(name) => name,
            Err(e) => {
                return Err(e);
            },
        };
        match to_cell(&entries[i].value) {
            Ok(cell) => {
                let ghost before = named_cell_views(out@);
                let named = NamedCell { name: Some(name), cell };
                out.push(named);
                assert(named_cell_views(out@) =~= before.push(named@));
            },
            Err(e) => {
                return Err(e);
            },
        }
        i += 1;
    }
    assert(slots.take(i as int) == slots);
    Ok(out)
}

/// Walks a value and produces its cells in order, each with its name where
/// it has one. Both ways of binding start from this walk.
pub fn serialize(value: &Value) -> (r: Result<Vec<NamedCell>, Error>)
    ensures
        match r {
            Ok(cells) => named_cells(value@) == Ok::<Seq<NamedCellView>, ErrorView>(
                named_cell_views(cells@),
            ),
            Err(e) => named_cells(value@) == Err::<Seq<NamedCellView>, ErrorView>(e@),
        },
    decreases value,
{
    match value {
        Value::Present(inner) => serialize(inner),
        Value::Newtype(inner) => serialize(inner),
        Value::NewtypeVariant(_, inner) => serialize(inner),
        Value::List(items) => elements_to_cells(items),
        Value::Tuple(items) => elements_to_cells(items),
        Value::Record(fields) => fields_to_cells(fields),
        Value::Mapping(entries) => entries_to_cells(entries),
        _ => match to_cell(value) {
            Ok(cell) => {
                let mut out: Vec<NamedCell> = Vec::new();
                let named = NamedCell { name: None, cell };
                out.push(named);
                assert(named_cell_views(out@) =~= seq![named@]);
                Ok(out)
            },
            Err(e) => Err(e),
        },
    }
}

/// Serializes a value to the ordered list of cells for positional
/// binding.
pub fn to_params(value: &Value) -> (r: Result<Vec<Cell>, Error>)
    ensures
        match r {
            Ok(cells) => params(value@) == Ok::<Seq<CellView>, ErrorView>(cell_views(cells@)),
            Err(e) => params(value@) == Err::<Seq<CellView>, ErrorView>(e@),
        },
{
    let named = match serialize(value) {
        Ok(named) => named,
        Err(e) => {
            return Err(e);
        },
    };
    let mut out: Vec<Cell> = Vec::new();
    let mut i: usize = 0;
    while i < named.len()
        invariant
            i <= named.len(),
            out@.len() == i,
            forall|k: int| 0 <= k < i ==> (#[trigger] out@[k])@ == named@[k].cell@,
        decreases named.len() - i,
    {
        out.push(named[i].cell.duplicate());
        i += 1;
    }
    assert(cell_views(out@) =~= positional(named_cell_views(named@)));
    Ok(out)
}

/// Serializes a value to the name-indexed lookup of cells for named
/// binding.
pub fn to_params_named(value: &Value) -> (r: Result<NamedParams, Error>)
    ensures
        match r {
            Ok(table) => named_params(value@) == Ok::<Seq<NamedCellView>, ErrorView>(
                table.entries(),
            ),
            Err(e) => named_params(value@) == Err::<Seq<NamedCellView>, ErrorView>(e@),
        },
{
    match serialize(value) {
        Ok(cells) => NamedParams::from_cells(cells),
        Err(e) => Err(e),
    }
}

} // verus!

//! The structured values that an application hands to the serializer and
//! receives from the deserializer.
use vstd::prelude::*;

verus! {

/// A structured application value.
///
/// Scalars, optional values, unit-like values and transparent wrappers can
/// stand wherever one cell is expected. Lists, tuples, records and
/// mappings spread over several cells and can stand only at the top (below
/// any number of transparent wrappers).
#[derive(Debug, PartialEq, Eq)]
pub enum Value {
    Bool(bool),
    I8(i8),
    I16(i16),
    I32(i32),
    I64(i64),
    U8(u8),
    U16(u16),
    U32(u32),
    U64(u64),
    /// A real number, as its IEEE-754 binary64 bit pattern.
    Real(u64),
    Char(char),
    Text(String),
    /// A byte sequence tagged as binary.
    Bytes(Vec<u8>),
    Unit,
    /// An optional value that is missing.
    Absent,
    /// An optional value that is there.
    Present(Box<Value>),
    /// A structure without fields, with its declared name.
    UnitStruct(String),
    /// A structure with exactly one unnamed field.
    Newtype(Box<Value>),
    /// An enum variant without payload, with its declared name.
    UnitVariant(String),
    /// An enum variant with one unnamed payload field.
    NewtypeVariant(String, Box<Value>),
    /// An enum variant with several unnamed payload fields.
    TupleVariant(String, Vec<Value>),
    /// An enum variant with named payload fields.
    RecordVariant(String, Vec<Field>),
    /// A sequence of any length.
    List(Vec<Value>),
    /// A sequence of fixed length.
    Tuple(Vec<Value>),
    /// A structure with named fields, in declared order.
    Record(Vec<Field>),
    /// A map-like value, as its entries in some order.
    Mapping(Vec<Entry>),
}

/// A named field of a record.
#[derive(Debug, PartialEq, Eq)]
pub struct Field {
    pub name: String,
    pub value: Value,
}

/// An entry of a mapping.
#[derive(Debug, PartialEq, Eq)]
pub struct Entry {
    pub key: Value,
    pub value: Value,
}

/// The mathematical content of a [`Value`].
pub enum ValueView {
    Bool(bool),
    I8(i8),
    I16(i16),
    I32(i32),
    I64(i64),
    U8(u8),
    U16(u16),
    U32(u32),
    U64(u64),
    Real(u64),
    Char(char),
    Text(Seq<char>),
    Bytes(Seq<u8>),
    Unit,
    Absent,
    Present(Box<ValueView>),
    UnitStruct(Seq<char>),
    Newtype(Box<ValueView>),
    UnitVariant(Seq<char>),
    NewtypeVariant(Seq<char>, Box<ValueView>),
    TupleVariant(Seq<char>, Seq<ValueView>),
    RecordVariant(Seq<char>, Seq<FieldView>),
    List(Seq<ValueView>),
    Tuple(Seq<ValueView>),
    Record(Seq<FieldView>),
    Mapping(Seq<EntryView>),
}

/// The mathematical content of a [`Field`].
pub struct FieldView {
    pub name: Seq<char>,
    pub value: ValueView,
}

/// The mathematical content of an [`Entry`].
pub struct EntryView {
    pub key: ValueView,
    pub value: ValueView,
}

/// The views of the values of a vector, in order.
pub open spec fn value_views(items: Vec<Value>) -> Seq<ValueView>
    decreases items, 1int,
{
    Seq::new(
    items@.len(),
    |i: int|
        if 0 <= i < items@.len() {
            value_view(items@[i])
        } else {
            ValueView::Unit
        },
    )
}

/// The views of the fields of a vector, in order.
pub open spec fn field_views(fields: Vec<Field>) -> Seq<FieldView>
    decreases fields, 1int,
{
    Seq::new(
    fields@.len(),
    |i: int|
        if 0 <= i < fields@.len() {
            FieldView { name: fields@[i].name@, value: value_view(fields@[i].value) }
        } else {
            FieldView { name: Seq::empty(), value: ValueView::Unit }
        },
    )
}

/// The views of the entries of a vector, in order.
pub open spec fn entry_views(entries: Vec<Entry>) -> Seq<EntryView>
    decreases entries, 1int,
{
    Seq::new(
    entries@.len(),
    |i: int|
        if 0 <= i < entries@.len() {
            EntryView { key: value_view(entries@[i].key), value: value_view(entries@[i].value) }
        } else {
            EntryView { key: ValueView::Unit, value: ValueView::Unit }
        },
    )
}

/// The mathematical content of a value.
pub open spec fn value_view(value: Value) -> ValueView
    decreases value, 0int,
{
    match value {
        Value::Bool(b) => ValueView::Bool(b),
        Value::I8(x) => ValueView::I8(x),
        Value::I16(x) => ValueView::I16(x),
        Value::I32(x) => ValueView::I32(x),
        Value::I64(x) => ValueView::I64(x),
        Value::U8(x) => ValueView::U8(x),
        Value::U16(x) => ValueView::U16(x),
        Value::U32(x) => ValueView::U32(x),
        Value::U64(x) => ValueView::U64(x),
        Value::Real(bits) => ValueView::Real(bits),
        Value::Char(c) => ValueView::Char(c),
        Value::Text(s) => ValueView::Text(s@),
        Value::Bytes(b) => ValueView::Bytes(b@),
        Value::Unit => ValueView::Unit,
        Value::Absent => ValueView::Absent,
        Value::Present(inner) => ValueView::Present(Box::new(value_view(*inner))),
        Value::UnitStruct(name) => ValueView::UnitStruct(name@),
        Value::Newtype(inner) => ValueView::Newtype(Box::new(value_view(*inner))),
        Value::UnitVariant(name) => ValueView::UnitVariant(name@),
        Value::NewtypeVariant(name, inner) => ValueView::NewtypeVariant(
            name@,
            Box::new(value_view(*inner)),
        ),
        Value::TupleVariant(name, items) => ValueView::TupleVariant(name@, value_views(items)),
        Value::RecordVariant(name, fields) => ValueView::RecordVariant(
            name@,
            field_views(fields),
        ),
        Value::List(items) => ValueView::List(value_views(items)),
        Value::Tuple(items) => ValueView::Tuple(value_views(items)),
        Value::Record(fields) => ValueView::Record(field_views(fields)),
        Value::Mapping(entries) => ValueView::Mapping(entry_views(entries)),
    }
}

impl View for Value {
    type V = ValueView;

    open spec fn view(&self) -> ValueView {
        value_view(*self)
    }
}

impl View for Field {
    type V = FieldView;

    open spec fn view(&self) -> FieldView {
        FieldView { name: self.name@, value: self.value@ }
    }
}

impl View for Entry {
    type V = EntryView;

    open spec fn view(&self) -> EntryView {
        EntryView { key: self.key@, value: self.value@ }
    }
}

/// The contents of the values of a sequence, in order.
pub open spec fn values_of(items: Seq<Value>) -> Seq<ValueView> {
    Seq::new(items.len(), |i: int| items[i]@)
}

/// The contents of the fields of a sequence, in order.
pub open spec fn fields_of(fields: Seq<Field>) -> Seq<FieldView> {
    Seq::new(fields.len(), |i: int| fields[i]@)
}

/// The contents of the entries of a sequence, in order.
pub open spec fn entries_of(entries: Seq<Entry>) -> Seq<EntryView> {
    Seq::new(entries.len(), |i: int| entries[i]@)
}

/// The view of a vector of values is the sequence of the views of its
/// elements.
pub proof fn lemma_value_views(items: Vec<Value>)
    ensures
        value_views(items) == values_of(items@),
        value_views(items).len() == items@.len(),
        forall|i: int| 0 <= i < items@.len() ==> #[trigger] value_views(items)[i] == items@[i]@,
{
    assert(value_views(items) =~= values_of(items@));
}

/// The view of a vector of fields is the sequence of the views of its
/// elements.
pub proof fn lemma_field_views(fields: Vec<Field>)
    ensures
        field_views(fields) == fields_of(fields@),
        field_views(fields).len() == fields@.len(),
        forall|i: int| 0 <= i < fields@.len() ==> #[trigger] field_views(fields)[i] == fields@[i]@,
{
    assert(field_views(fields) =~= fields_of(fields@));
}

/// The view of a vector of entries is the sequence of the views of its
/// elements.
pub proof fn lemma_entry_views(entries: Vec<Entry>)
    ensures
        entry_views(entries) == entries_of(entries@),
        entry_views(entries).len() == entries@.len(),
        forall|i: int|
            0 <= i < entries@.len() ==> #[trigger] entry_views(entries)[i] == entries@[i]@,
{
    assert(entry_views(entries) =~= entries_of(entries@));
}

} // verus!

use serde_rusqlite::cell::{Cell, NamedCell};
use serde_rusqlite::de::{check_arity, from_cell, from_row};
use serde_rusqlite::describe::{from_row_as, to_params_of, Describe};
use serde_rusqlite::error::{Error, ScalarKind};
use serde_rusqlite::named::NamedParams;
use serde_rusqlite::names::find_name;
use serde_rusqlite::rows::from_rows;
use serde_rusqlite::ser::{serialize, to_cell, to_key, to_params, to_params_named};
use serde_rusqlite::shape::{FieldShape, Shape};
use serde_rusqlite::value::{Entry, Field, Value};

fn names(list: &[&str]) -> Vec<String> {
    list.iter().map(|s| s.to_string()).collect()
}

fn field(name: &str, value: Value) -> Field {
    Field { name: name.to_string(), value }
}

fn field_shape(name: &str, shape: Shape) -> FieldShape {
    FieldShape { name: name.to_string(), shape }
}

fn round_trip(value: &Value, shape: &Shape) -> Result<Value, Error> {
    let row = to_params(value)?;
    let columns: Vec<String> = (0..row.len()).map(|i| format!("c{}", i)).collect();
    from_row(shape, &columns, &row)
}

#[test]
fn bool_cells_are_zero_and_one() {
    assert_eq!(to_params(&Value::Bool(false)), Ok(vec![Cell::Integer(0)]));
    assert_eq!(to_params(&Value::Bool(true)), Ok(vec![Cell::Integer(1)]));
    assert_eq!(Cell::from_bool(true), Cell::Integer(1));
    assert_eq!(Cell::Integer(0).to_bool(), Ok(false));
    assert_eq!(Cell::Integer(1).to_bool(), Ok(true));
}

#[test]
fn bool_rejects_other_integers() {
    assert_eq!(
        from_cell(&Shape::Bool, &Cell::Integer(2)),
        Err(Error::TypeMismatch(Cell::Integer(2), ScalarKind::Bool))
    );
    assert_eq!(
        from_cell(&Shape::Bool, &Cell::Text("true".to_string())),
        Err(Error::TypeMismatch(Cell::Text("true".to_string()), ScalarKind::Bool))
    );
}

#[test]
fn signed_integers_are_sign_extended() {
    assert_eq!(to_cell(&Value::I8(-128)), Ok(Cell::Integer(-128)));
    assert_eq!(to_cell(&Value::I16(-9881)), Ok(Cell::Integer(-9881)));
    assert_eq!(to_cell(&Value::I32(i32::MIN)), Ok(Cell::Integer(-2147483648)));
    assert_eq!(to_cell(&Value::I64(i64::MIN)), Ok(Cell::Integer(i64::MIN)));
}

#[test]
fn unsigned_integers_fit_or_fail() {
    assert_eq!(to_cell(&Value::U8(255)), Ok(Cell::Integer(255)));
    assert_eq!(to_cell(&Value::U16(65535)), Ok(Cell::Integer(65535)));
    assert_eq!(to_cell(&Value::U32(u32::MAX)), Ok(Cell::Integer(4294967295)));
    assert_eq!(to_cell(&Value::U64(i64::MAX as u64)), Ok(Cell::Integer(i64::MAX)));
    assert_eq!(
        to_cell(&Value::U64(i64::MAX as u64 + 1)),
        Err(Error::ValueTooLarge(9223372036854775808))
    );
    assert_eq!(to_params(&Value::U64(u64::MAX)), Err(Error::ValueTooLarge(u64::MAX)));
    assert_eq!(Cell::from_unsigned(u64::MAX), Err(Error::ValueTooLarge(u64::MAX)));
}

#[test]
fn largest_storable_unsigned_round_trips() {
    let v = Value::U64(i64::MAX as u64);
    assert_eq!(round_trip(&v, &Shape::U64), Ok(Value::U64(9223372036854775807)));
}

#[test]
fn narrow_destinations_check_their_range() {
    assert_eq!(from_cell(&Shape::I8, &Cell::Integer(127)), Ok(Value::I8(127)));
    assert_eq!(
        from_cell(&Shape::I8, &Cell::Integer(128)),
        Err(Error::TypeMismatch(Cell::Integer(128), ScalarKind::I8))
    );
    assert_eq!(from_cell(&Shape::I8, &Cell::Integer(-128)), Ok(Value::I8(-128)));
    assert_eq!(
        from_cell(&Shape::I8, &Cell::Integer(-129)),
        Err(Error::TypeMismatch(Cell::Integer(-129), ScalarKind::I8))
    );
    assert_eq!(from_cell(&Shape::I16, &Cell::Integer(-32768)), Ok(Value::I16(-32768)));
    assert_eq!(
        from_cell(&Shape::I16, &Cell::Integer(32768)),
        Err(Error::TypeMismatch(Cell::Integer(32768), ScalarKind::I16))
    );
    assert_eq!(
        from_cell(&Shape::I32, &Cell::Integer(2147483648)),
        Err(Error::TypeMismatch(Cell::Integer(2147483648), ScalarKind::I32))
    );
    assert_eq!(from_cell(&Shape::U8, &Cell::Integer(255)), Ok(Value::U8(255)));
    assert_eq!(
        from_cell(&Shape::U8, &Cell::Integer(256)),
        Err(Error::TypeMismatch(Cell::Integer(256), ScalarKind::U8))
    );
    assert_eq!(
        from_cell(&Shape::U16, &Cell::Integer(65536)),
        Err(Error::TypeMismatch(Cell::Integer(65536), ScalarKind::U16))
    );
    assert_eq!(from_cell(&Shape::U32, &Cell::Integer(4294967295)), Ok(Value::U32(u32::MAX)));
    assert_eq!(
        from_cell(&Shape::U32, &Cell::Integer(4294967296)),
        Err(Error::TypeMismatch(Cell::Integer(4294967296), ScalarKind::U32))
    );
}

#[test]
fn unsigned_destinations_reject_negative_numbers() {
    assert_eq!(
        from_cell(&Shape::U64, &Cell::Integer(-1)),
        Err(Error::TypeMismatch(Cell::Integer(-1), ScalarKind::U64))
    );
    assert_eq!(
        from_cell(&Shape::U8, &Cell::Integer(-1)),
        Err(Error::TypeMismatch(Cell::Integer(-1), ScalarKind::U8))
    );
    assert_eq!(Cell::Integer(-1).to_integer(ScalarKind::U32).is_err(), true);
    assert_eq!(Cell::Integer(7).to_integer(ScalarKind::U32), Ok(7));
}

#[test]
fn null_is_read_only_by_optional_and_unit_shapes() {
    assert_eq!(from_cell(&Shape::Optional(Box::new(Shape::I64)), &Cell::Null), Ok(Value::Absent));
    assert_eq!(from_cell(&Shape::Unit, &Cell::Null), Ok(Value::Unit));
    assert_eq!(
        from_cell(&Shape::I64, &Cell::Null),
        Err(Error::TypeMismatch(Cell::Null, ScalarKind::I64))
    );
    assert_eq!(
        from_cell(&Shape::Text, &Cell::Null),
        Err(Error::TypeMismatch(Cell::Null, ScalarKind::Text))
    );
    assert_eq!(
        from_cell(&Shape::Real, &Cell::Null),
        Err(Error::TypeMismatch(Cell::Null, ScalarKind::Real))
    );
    assert_eq!(
        from_cell(&Shape::Bytes, &Cell::Null),
        Err(Error::TypeMismatch(Cell::Null, ScalarKind::Bytes))
    );
    assert_eq!(
        from_cell(&Shape::Char, &Cell::Null),
        Err(Error::TypeMismatch(Cell::Null, ScalarKind::Char))
    );
    assert_eq!(
        from_cell(&Shape::Bool, &Cell::Null),
        Err(Error::TypeMismatch(Cell::Null, ScalarKind::Bool))
    );
}

#[test]
fn text_where_integer_expected_is_a_mismatch() {
    let cell = Cell::Text("12".to_string());
    assert_eq!(
        from_cell(&Shape::I64, &cell),
        Err(Error::TypeMismatch(Cell::Text("12".to_string()), ScalarKind::I64))
    );
}

#[test]
fn char_becomes_text_of_one_character() {
    assert_eq!(to_cell(&Value::Char('a')), Ok(Cell::Text("a".to_string())));
    assert_eq!(Cell::from_char('Ü'), Cell::Text("Ü".to_string()));
    assert_eq!(from_cell(&Shape::Char, &Cell::Text("Ü".to_string())), Ok(Value::Char('Ü')));
    assert_eq!(Cell::Text("x".to_string()).to_char(), Ok('x'));
}

#[test]
fn char_rejects_longer_and_empty_text() {
    assert_eq!(
        from_cell(&Shape::Char, &Cell::Text("ab".to_string())),
        Err(Error::TypeMismatch(Cell::Text("ab".to_string()), ScalarKind::Char))
    );
    assert_eq!(
        from_cell(&Shape::Char, &Cell::Text(String::new())),
        Err(Error::TypeMismatch(Cell::Text(String::new()), ScalarKind::Char))
    );
}

#[test]
fn real_bits_are_kept() {
    let bits = (-54.7612_f64).to_bits();
    assert_eq!(to_cell(&Value::Real(bits)), Ok(Cell::Real(bits)));
    assert_eq!(round_trip(&Value::Real(bits), &Shape::Real), Ok(Value::Real(bits)));
    assert_eq!(Cell::from_real_bits(bits).to_real_bits(), Ok(bits));
    assert_eq!(
        from_cell(&Shape::Real, &Cell::Integer(1)),
        Err(Error::TypeMismatch(Cell::Integer(1), ScalarKind::Real))
    );
}

#[test]
fn nan_stays_nan() {
    let back = round_trip(&Value::Real(f64::NAN.to_bits()), &Shape::Real);
    match back {
        Ok(Value::Real(bits)) => assert!(f64::from_bits(bits).is_nan()),
        other => panic!("not a real number: {:?}", other),
    }
    let widened = (f32::NAN as f64).to_bits();
    match round_trip(&Value::Real(widened), &Shape::Real) {
        Ok(Value::Real(bits)) => assert!((f64::from_bits(bits) as f32).is_nan()),
        other => panic!("not a real number: {:?}", other),
    }
}

#[test]
fn infinities_round_trip() {
    for x in [f64::INFINITY, f64::NEG_INFINITY, f32::INFINITY as f64, f32::NEG_INFINITY as f64] {
        let back = round_trip(&Value::Real(x.to_bits()), &Shape::Real);
        assert_eq!(back, Ok(Value::Real(x.to_bits())));
    }
}

#[test]
fn bytes_become_blob() {
    assert_eq!(to_cell(&Value::Bytes(vec![1, 2, 3])), Ok(Cell::Blob(vec![1, 2, 3])));
    assert_eq!(from_cell(&Shape::Bytes, &Cell::Blob(vec![])), Ok(Value::Bytes(vec![])));
    assert_eq!(Cell::from_bytes(&vec![9]).to_bytes(), Ok(vec![9]));
    assert_eq!(
        from_cell(&Shape::Bytes, &Cell::Text("abc".to_string())),
        Err(Error::TypeMismatch(Cell::Text("abc".to_string()), ScalarKind::Bytes))
    );
}

#[test]
fn unit_and_absent_become_null() {
    assert_eq!(to_params(&Value::Unit), Ok(vec![Cell::Null]));
    assert_eq!(to_params(&Value::Absent), Ok(vec![Cell::Null]));
    assert_eq!(round_trip(&Value::Unit, &Shape::Unit), Ok(Value::Unit));
    assert_eq!(
        round_trip(&Value::Absent, &Shape::Optional(Box::new(Shape::Text))),
        Ok(Value::Absent)
    );
}

#[test]
fn empty_tuple_gives_no_cell() {
    assert_eq!(to_params(&Value::Tuple(vec![])), Ok(vec![]));
    assert_eq!(from_row(&Shape::Tuple(vec![]), &vec![], &vec![]), Ok(Value::Tuple(vec![])));
}

#[test]
fn unit_shapes_need_no_column() {
    assert_eq!(from_row(&Shape::Unit, &vec![], &vec![]), Ok(Value::Unit));
    assert_eq!(
        from_row(&Shape::UnitStruct("Marker".to_string()), &vec![], &vec![]),
        Ok(Value::UnitStruct("Marker".to_string()))
    );
}

#[test]
fn scalar_needs_a_column() {
    assert_eq!(
        from_row(&Shape::I64, &vec![], &vec![]),
        Err(Error::ArityMismatch { expected: 1, found: 0 })
    );
}

#[test]
fn scalar_reads_the_first_column() {
    let columns = names(&["a", "b"]);
    let row = vec![Cell::Integer(5), Cell::Integer(6)];
    assert_eq!(from_row(&Shape::I64, &columns, &row), Ok(Value::I64(5)));
}

#[test]
fn present_value_is_transparent() {
    let v = Value::Present(Box::new(Value::I32(18)));
    assert_eq!(to_params(&v), Ok(vec![Cell::Integer(18)]));
    assert_eq!(
        round_trip(&v, &Shape::Optional(Box::new(Shape::I32))),
        Ok(Value::Present(Box::new(Value::I32(18))))
    );
}

#[test]
fn present_unit_reads_back_as_absent() {
    let v = Value::Present(Box::new(Value::Unit));
    assert_eq!(round_trip(&v, &Shape::Optional(Box::new(Shape::Unit))), Ok(Value::Absent));
}

#[test]
fn newtype_is_transparent() {
    let v = Value::Newtype(Box::new(Value::I64(891287912)));
    assert_eq!(to_params(&v), Ok(vec![Cell::Integer(891287912)]));
    assert_eq!(
        round_trip(&v, &Shape::Newtype(Box::new(Shape::I64))),
        Ok(Value::Newtype(Box::new(Value::I64(891287912))))
    );
}

#[test]
fn newtype_of_record_gives_the_fields() {
    let v = Value::Newtype(Box::new(Value::Record(vec![field("a", Value::I64(1))])));
    assert_eq!(
        serialize(&v),
        Ok(vec![NamedCell { name: Some("a".to_string()), cell: Cell::Integer(1) }])
    );
    let shape = Shape::Newtype(Box::new(Shape::Record(vec![field_shape("a", Shape::I64)])));
    assert_eq!(
        from_row(&shape, &names(&["a"]), &vec![Cell::Integer(1)]),
        Ok(Value::Newtype(Box::new(Value::Record(vec![field("a", Value::I64(1))]))))
    );
}

#[test]
fn unit_struct_is_its_name() {
    let v = Value::UnitStruct("Test".to_string());
    assert_eq!(to_params(&v), Ok(vec![Cell::Text("Test".to_string())]));
    assert_eq!(
        round_trip(&v, &Shape::UnitStruct("Test".to_string())),
        Ok(Value::UnitStruct("Test".to_string()))
    );
}

#[test]
fn unit_variant_is_its_name() {
    let shape = Shape::Enumeration(names(&["A", "B", "C"]));
    let v = Value::UnitVariant("B".to_string());
    assert_eq!(to_params(&v), Ok(vec![Cell::Text("B".to_string())]));
    assert_eq!(round_trip(&v, &shape), Ok(Value::UnitVariant("B".to_string())));
}

#[test]
fn unknown_variant_is_rejected() {
    let shape = Shape::Enumeration(names(&["A", "B", "C"]));
    assert_eq!(
        from_cell(&shape, &Cell::Text("D".to_string())),
        Err(Error::UnrecognizedVariant("D".to_string()))
    );
    assert_eq!(
        from_cell(&shape, &Cell::Text("a".to_string())),
        Err(Error::UnrecognizedVariant("a".to_string()))
    );
    assert_eq!(
        from_cell(&shape, &Cell::Integer(0)),
        Err(Error::TypeMismatch(Cell::Integer(0), ScalarKind::Variant))
    );
}

#[test]
fn newtype_variant_is_its_payload() {
    let v = Value::NewtypeVariant("Wrapped".to_string(), Box::new(Value::Text("x".to_string())));
    assert_eq!(to_params(&v), Ok(vec![Cell::Text("x".to_string())]));
    let shape = Shape::NewtypeVariant("Wrapped".to_string(), Box::new(Shape::Text));
    assert_eq!(
        round_trip(&v, &shape),
        Ok(Value::NewtypeVariant("Wrapped".to_string(), Box::new(Value::Text("x".to_string()))))
    );
}

#[test]
fn variants_with_several_fields_are_unsupported() {
    let tuple = Value::TupleVariant("Pair".to_string(), vec![Value::I64(1), Value::I64(2)]);
    assert_eq!(to_params(&tuple), Err(Error::UnsupportedStructure));
    let record = Value::RecordVariant("Point".to_string(), vec![field("x", Value::I64(1))]);
    assert_eq!(to_params(&record), Err(Error::UnsupportedStructure));
    assert_eq!(to_params_named(&record).unwrap_err(), Error::UnsupportedStructure);
}

#[test]
fn nested_sequence_is_unsupported() {
    let v = Value::Tuple(vec![Value::I64(1), Value::List(vec![Value::U8(10), Value::U8(20)])]);
    assert_eq!(to_params(&v), Err(Error::UnsupportedStructure));
    let r = Value::Record(vec![field("inner", Value::Record(vec![]))]);
    assert_eq!(to_params(&r), Err(Error::UnsupportedStructure));
    assert_eq!(
        from_cell(&Shape::List(Box::new(Shape::U8)), &Cell::Blob(vec![1])),
        Err(Error::UnsupportedStructure)
    );
}

#[test]
fn first_failure_wins() {
    let v = Value::Tuple(vec![
        Value::I64(1),
        Value::U64(u64::MAX),
        Value::List(vec![]),
    ]);
    assert_eq!(to_params(&v), Err(Error::ValueTooLarge(u64::MAX)));
    let w = Value::Tuple(vec![Value::List(vec![]), Value::U64(u64::MAX)]);
    assert_eq!(to_params(&w), Err(Error::UnsupportedStructure));
}

#[test]
fn list_gives_one_cell_per_element() {
    let v = Value::List(vec![Value::I64(1), Value::I64(2), Value::I64(3)]);
    assert_eq!(to_params(&v), Ok(vec![Cell::Integer(1), Cell::Integer(2), Cell::Integer(3)]));
    let shape = Shape::List(Box::new(Shape::I64));
    assert_eq!(
        round_trip(&v, &shape),
        Ok(Value::List(vec![Value::I64(1), Value::I64(2), Value::I64(3)]))
    );
}

#[test]
fn tuple_arity_must_match() {
    let shape = Shape::Tuple(vec![Shape::I64, Shape::I64]);
    let columns = names(&["a", "b", "c"]);
    let row = vec![Cell::Integer(1), Cell::Integer(2), Cell::Integer(3)];
    assert_eq!(
        from_row(&shape, &columns, &row),
        Err(Error::ArityMismatch { expected: 2, found: 3 })
    );
    assert_eq!(
        from_row(&shape, &names(&["a"]), &vec![Cell::Integer(1)]),
        Err(Error::ArityMismatch { expected: 2, found: 1 })
    );
}

#[test]
fn five_element_tuple_round_trips() {
    let v = Value::Tuple(vec![
        Value::I64(34),
        Value::Real(76.4_f64.to_bits()),
        Value::Text("the test".to_string()),
        Value::Bytes(vec![10, 20, 30]),
        Value::Present(Box::new(Value::I64(9))),
    ]);
    let cells = to_params(&v).unwrap();
    assert_eq!(
        cells,
        vec![
            Cell::Integer(34),
            Cell::Real(76.4_f64.to_bits()),
            Cell::Text("the test".to_string()),
            Cell::Blob(vec![10, 20, 30]),
            Cell::Integer(9),
        ]
    );
    assert_eq!(cells.len(), 5);
    let shape = Shape::Tuple(vec![
        Shape::I64,
        Shape::Real,
        Shape::Text,
        Shape::Bytes,
        Shape::Optional(Box::new(Shape::I64)),
    ]);
    let columns = names(&["f_integer", "f_real", "f_text", "f_blob", "f_null"]);
    assert_eq!(from_row(&shape, &columns, &cells), Ok(v));
}

#[test]
fn record_cells_carry_field_names() {
    let v = Value::Record(vec![field("a", Value::I64(1)), field("b", Value::Absent)]);
    assert_eq!(
        serialize(&v),
        Ok(vec![
            NamedCell { name: Some("a".to_string()), cell: Cell::Integer(1) },
            NamedCell { name: Some("b".to_string()), cell: Cell::Null },
        ])
    );
    assert_eq!(to_params(&v), Ok(vec![Cell::Integer(1), Cell::Null]));
}

#[test]
fn scalar_cell_has_no_name() {
    assert_eq!(
        serialize(&Value::I64(4)),
        Ok(vec![NamedCell { name: None, cell: Cell::Integer(4) }])
    );
    assert_eq!(to_params_named(&Value::I64(4)).unwrap_err(), Error::UnsupportedStructure);
    let t = Value::Tuple(vec![Value::I64(4)]);
    assert_eq!(to_params_named(&t).unwrap_err(), Error::UnsupportedStructure);
}

#[test]
fn record_is_matched_by_name_not_position() {
    let v = Value::Record(vec![
        field("a", Value::I64(1)),
        field("b", Value::Text("two".to_string())),
        field("c", Value::Bytes(vec![3])),
        field("d", Value::Absent),
        field("e", Value::Real(5.5_f64.to_bits())),
    ]);
    let shape = Shape::Record(vec![
        field_shape("a", Shape::I64),
        field_shape("b", Shape::Text),
        field_shape("c", Shape::Bytes),
        field_shape("d", Shape::Optional(Box::new(Shape::I64))),
        field_shape("e", Shape::Real),
    ]);
    let table = to_params_named(&v).unwrap();
    let columns = names(&["e", "c", "a", "d", "b"]);
    let row = table.in_column_order(&columns).unwrap();
    assert_eq!(
        row,
        vec![
            Cell::Real(5.5_f64.to_bits()),
            Cell::Blob(vec![3]),
            Cell::Integer(1),
            Cell::Null,
            Cell::Text("two".to_string()),
        ]
    );
    assert_eq!(from_row(&shape, &columns, &row), Ok(v));
}

#[test]
fn missing_column_names_the_field() {
    let shape = Shape::Record(vec![
        field_shape("a", Shape::I64),
        field_shape("b", Shape::I64),
    ]);
    assert_eq!(
        from_row(&shape, &names(&["a"]), &vec![Cell::Integer(1)]),
        Err(Error::MissingColumn("b".to_string()))
    );
    assert_eq!(
        from_row(&shape, &names(&["A", "b"]), &vec![Cell::Integer(1), Cell::Integer(2)]),
        Err(Error::MissingColumn("a".to_string()))
    );
}

#[test]
fn optional_field_without_column_is_absent() {
    let shape = Shape::Record(vec![
        field_shape("a", Shape::I64),
        field_shape("b", Shape::Optional(Box::new(Shape::I64))),
    ]);
    assert_eq!(
        from_row(&shape, &names(&["a"]), &vec![Cell::Integer(1)]),
        Ok(Value::Record(vec![field("a", Value::I64(1)), field("b", Value::Absent)]))
    );
}

#[test]
fn record_ignores_other_columns() {
    let shape = Shape::Record(vec![field_shape("b", Shape::I64)]);
    let columns = names(&["a", "b", "c"]);
    let row = vec![Cell::Text("x".to_string()), Cell::Integer(2), Cell::Null];
    assert_eq!(
        from_row(&shape, &columns, &row),
        Ok(Value::Record(vec![field("b", Value::I64(2))]))
    );
}

#[test]
fn first_column_of_a_name_is_used() {
    let shape = Shape::Record(vec![field_shape("a", Shape::I64)]);
    let columns = names(&["a", "a"]);
    let row = vec![Cell::Integer(1), Cell::Integer(2)];
    assert_eq!(find_name(&columns, &"a".to_string()), Some(0));
    assert_eq!(find_name(&columns, &"b".to_string()), None);
    assert_eq!(
        from_row(&shape, &columns, &row),
        Ok(Value::Record(vec![field("a", Value::I64(1))]))
    );
}

#[test]
fn mapping_follows_the_declared_column_order() {
    let v = Value::Mapping(vec![
        Entry { key: Value::Text("field_2".to_string()), value: Value::I64(2) },
        Entry { key: Value::Text("field_1".to_string()), value: Value::I64(1) },
        Entry { key: Value::Text("field_3".to_string()), value: Value::I64(3) },
    ]);
    let table = to_params_named(&v).unwrap();
    let columns = names(&["field_1", "field_2", "field_3"]);
    let row = table.in_column_order(&columns).unwrap();
    assert_eq!(row, vec![Cell::Integer(1), Cell::Integer(2), Cell::Integer(3)]);
    let shape = Shape::Mapping(Box::new(Shape::Text), Box::new(Shape::I64));
    assert_eq!(
        from_row(&shape, &columns, &row),
        Ok(Value::Mapping(vec![
            Entry { key: Value::Text("field_1".to_string()), value: Value::I64(1) },
            Entry { key: Value::Text("field_2".to_string()), value: Value::I64(2) },
            Entry { key: Value::Text("field_3".to_string()), value: Value::I64(3) },
        ]))
    );
}

#[test]
fn mapping_keys_take_their_textual_form() {
    assert_eq!(to_key(&Value::Char('a')), Ok("a".to_string()));
    assert_eq!(to_key(&Value::Text("k".to_string())), Ok("k".to_string()));
    assert_eq!(to_key(&Value::UnitVariant("Red".to_string())), Ok("Red".to_string()));
    assert_eq!(to_key(&Value::I64(1)), Err(Error::UnsupportedStructure));
    assert_eq!(to_key(&Value::Unit), Err(Error::UnsupportedStructure));
    assert_eq!(to_key(&Value::U64(u64::MAX)), Err(Error::ValueTooLarge(u64::MAX)));
    let v = Value::Mapping(vec![Entry { key: Value::I64(1), value: Value::I64(2) }]);
    assert_eq!(to_params(&v), Err(Error::UnsupportedStructure));
}

#[test]
fn mapping_with_char_keys_round_trips() {
    let v = Value::Mapping(vec![
        Entry { key: Value::Char('b'), value: Value::I64(1) },
        Entry { key: Value::Char('a'), value: Value::I64(2) },
    ]);
    let table = to_params_named(&v).unwrap();
    let columns = names(&["a", "b"]);
    let row = table.in_column_order(&columns).unwrap();
    let shape = Shape::Mapping(Box::new(Shape::Char), Box::new(Shape::I64));
    assert_eq!(
        from_row(&shape, &columns, &row),
        Ok(Value::Mapping(vec![
            Entry { key: Value::Char('a'), value: Value::I64(2) },
            Entry { key: Value::Char('b'), value: Value::I64(1) },
        ]))
    );
    let long = names(&["ab"]);
    assert_eq!(
        from_row(&shape, &long, &vec![Cell::Integer(1)]),
        Err(Error::TypeMismatch(Cell::Text("ab".to_string()), ScalarKind::Char))
    );
}

#[test]
fn lookup_keeps_the_last_cell_of_a_name() {
    let cells = vec![
        NamedCell { name: Some("a".to_string()), cell: Cell::Integer(1) },
        NamedCell { name: Some("b".to_string()), cell: Cell::Integer(2) },
        NamedCell { name: Some("a".to_string()), cell: Cell::Integer(3) },
    ];
    let table = NamedParams::from_cells(cells).unwrap();
    assert_eq!(table.get(&"a".to_string()), Some(&Cell::Integer(3)));
    assert_eq!(table.get(&"b".to_string()), Some(&Cell::Integer(2)));
    assert_eq!(table.get(&"c".to_string()), None);
    assert_eq!(table.cells().len(), 3);
}

#[test]
fn lookup_needs_names() {
    let cells = vec![
        NamedCell { name: Some("a".to_string()), cell: Cell::Integer(1) },
        NamedCell { name: None, cell: Cell::Integer(2) },
    ];
    assert_eq!(NamedParams::from_cells(cells).unwrap_err(), Error::UnsupportedStructure);
}

#[test]
fn binding_reports_an_unknown_parameter() {
    let v = Value::Record(vec![field("a", Value::I64(1))]);
    let table = to_params_named(&v).unwrap();
    assert_eq!(
        table.in_column_order(&names(&["a", "zz"])),
        Err(Error::MissingColumn("zz".to_string()))
    );
    assert_eq!(table.in_column_order(&names(&["a", "a"])), Ok(vec![Cell::Integer(1), Cell::Integer(1)]));
}

#[test]
fn stream_reports_a_bad_row_and_goes_on() {
    let shape = Shape::I64;
    let columns = names(&["n"]);
    let rows = vec![vec![Cell::Integer(7)], vec![Cell::Text("seven".to_string())]];
    let mut stream = from_rows(&shape, &columns, rows);
    assert_eq!(stream.next(), Some(Ok(Value::I64(7))));
    assert_eq!(
        stream.next(),
        Some(Err(Error::TypeMismatch(Cell::Text("seven".to_string()), ScalarKind::I64)))
    );
    assert_eq!(stream.next(), None);
    assert_eq!(stream.next(), None);
}

#[test]
fn stream_continues_after_a_failure() {
    let shape = Shape::U8;
    let columns = names(&["n"]);
    let rows = vec![vec![Cell::Integer(300)], vec![Cell::Integer(3)]];
    let mut stream = from_rows(&shape, &columns, rows);
    assert_eq!(
        stream.next(),
        Some(Err(Error::TypeMismatch(Cell::Integer(300), ScalarKind::U8)))
    );
    assert_eq!(stream.next(), Some(Ok(Value::U8(3))));
    assert_eq!(stream.next(), None);
}

#[test]
fn stream_of_no_rows_is_empty() {
    let shape = Shape::I64;
    let columns = names(&["n"]);
    let mut stream = from_rows(&shape, &columns, vec![]);
    assert_eq!(stream.next(), None);
}

#[test]
fn duplicate_is_equal_and_null_is_told() {
    let cell = Cell::Blob(vec![1, 2]);
    assert_eq!(cell.duplicate(), Cell::Blob(vec![1, 2]));
    assert!(Cell::Null.is_null());
    assert!(!Cell::Integer(0).is_null());
    assert_eq!(Cell::from_signed(-5), Cell::Integer(-5));
    assert_eq!(Cell::from_text(&"t".to_string()).to_text(), Ok("t".to_string()));
}

#[test]
fn arity_is_checked_exactly() {
    assert_eq!(check_arity(3, 3), Ok(()));
    assert_eq!(check_arity(0, 0), Ok(()));
    assert_eq!(check_arity(2, 3), Err(Error::ArityMismatch { expected: 2, found: 3 }));
    assert_eq!(check_arity(1, 0), Err(Error::ArityMismatch { expected: 1, found: 0 }));
}

#[test]
fn typed_readers_check_their_range() {
    assert_eq!(Cell::Integer(-128).to_i8(), Ok(-128));
    assert_eq!(
        Cell::Integer(128).to_i8(),
        Err(Error::TypeMismatch(Cell::Integer(128), ScalarKind::I8))
    );
    assert_eq!(Cell::Integer(32767).to_i16(), Ok(32767));
    assert_eq!(Cell::Integer(-2147483648).to_i32(), Ok(i32::MIN));
    assert_eq!(Cell::Integer(i64::MIN).to_i64(), Ok(i64::MIN));
    assert_eq!(Cell::Integer(255).to_u8(), Ok(255));
    assert_eq!(Cell::Integer(65535).to_u16(), Ok(65535));
    assert_eq!(Cell::Integer(4294967295).to_u32(), Ok(u32::MAX));
    assert_eq!(Cell::Integer(i64::MAX).to_u64(), Ok(9223372036854775807));
    assert_eq!(
        Cell::Integer(-1).to_u64(),
        Err(Error::TypeMismatch(Cell::Integer(-1), ScalarKind::U64))
    );
    assert_eq!(
        Cell::Real(0).to_i64(),
        Err(Error::TypeMismatch(Cell::Real(0), ScalarKind::I64))
    );
}

#[test]
fn integer_reader_rejects_other_kinds() {
    assert_eq!(
        Cell::Integer(1).to_integer(ScalarKind::Text),
        Err(Error::TypeMismatch(Cell::Integer(1), ScalarKind::Text))
    );
    assert_eq!(Cell::Integer(1).to_integer(ScalarKind::U64), Ok(1));
}

#[test]
fn optional_shape_over_a_row() {
    let shape = Shape::Optional(Box::new(Shape::Tuple(vec![Shape::I64, Shape::I64])));
    let columns = names(&["a", "b"]);
    assert_eq!(
        from_row(&shape, &columns, &vec![Cell::Null, Cell::Integer(2)]),
        Ok(Value::Absent)
    );
    assert_eq!(
        from_row(&shape, &columns, &vec![Cell::Integer(1), Cell::Integer(2)]),
        Ok(Value::Present(Box::new(Value::Tuple(vec![Value::I64(1), Value::I64(2)]))))
    );
}

fn typed_round_trip<T: Describe>(value: &T) -> Result<T, Error> {
    let row = to_params_of(value)?;
    let columns: Vec<String> = (0..row.len()).map(|i| format!("c{}", i)).collect();
    from_row_as::<T>(&columns, &row)
}

#[test]
fn native_scalars_round_trip() {
    assert_eq!(typed_round_trip(&true), Ok(true));
    assert_eq!(typed_round_trip(&false), Ok(false));
    assert_eq!(typed_round_trip(&0_i8), Ok(0_i8));
    assert_eq!(typed_round_trip(&-9881_i16), Ok(-9881_i16));
    assert_eq!(typed_round_trip(&16526_i32), Ok(16526_i32));
    assert_eq!(typed_round_trip(&-18968298731236_i64), Ok(-18968298731236_i64));
    assert_eq!(typed_round_trip(&112_u8), Ok(112_u8));
    assert_eq!(typed_round_trip(&7162_u16), Ok(7162_u16));
    assert_eq!(typed_round_trip(&98172983_u32), Ok(98172983_u32));
    assert_eq!(typed_round_trip(&98169812698712987_u64), Ok(98169812698712987_u64));
    assert_eq!(typed_round_trip(&'a'), Ok('a'));
    assert_eq!(typed_round_trip(&"test string".to_string()), Ok("test string".to_string()));
    assert_eq!(typed_round_trip(&b"123456".to_vec()), Ok(b"123456".to_vec()));
    assert_eq!(typed_round_trip(&()), Ok(()));
    assert_eq!(typed_round_trip(&Some(18_i32)), Ok(Some(18_i32)));
    assert_eq!(typed_round_trip(&None::<i64>), Ok(None::<i64>));
}

#[test]
fn native_scalars_report_failures() {
    assert_eq!(to_params_of(&u64::MAX), Err(Error::ValueTooLarge(u64::MAX)));
    assert_eq!(to_params_of(&5_u8), Ok(vec![Cell::Integer(5)]));
    assert_eq!(to_params_of(&Some('x')), Ok(vec![Cell::Text("x".to_string())]));
    assert_eq!(
        from_row_as::<u8>(&names(&["n"]), &vec![Cell::Integer(256)]),
        Err(Error::TypeMismatch(Cell::Integer(256), ScalarKind::U8))
    );
    assert_eq!(
        from_row_as::<String>(&names(&["n"]), &vec![Cell::Null]),
        Err(Error::TypeMismatch(Cell::Null, ScalarKind::Text))
    );
    assert_eq!(from_row_as::<Option<String>>(&names(&["n"]), &vec![Cell::Null]), Ok(None));
    assert_eq!(
        from_row_as::<i64>(&vec![], &vec![]),
        Err(Error::ArityMismatch { expected: 1, found: 0 })
    );
    assert_eq!(from_row_as::<()>(&vec![], &vec![]), Ok(()));
}

#[test]
fn native_types_name_their_shape() {
    assert_eq!(<u16 as Describe>::shape(), Shape::U16);
    assert_eq!(<Option<char> as Describe>::shape(), Shape::Optional(Box::new(Shape::Char)));
    assert_eq!(7_i64.describe(), Value::I64(7));
    assert_eq!(Some(7_i64).describe(), Value::Present(Box::new(Value::I64(7))));
    assert_eq!(<i64 as Describe>::restore(Value::I64(7)), Some(7));
    assert_eq!(<i64 as Describe>::restore(Value::I32(7)), None);
    assert_eq!(<Option<i64> as Describe>::restore(Value::Absent), Some(None));
}

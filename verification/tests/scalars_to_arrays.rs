//! Scalars as Arrow arrays.
use arrow::array::{
    Array, ArrayRef, AsArray, BinaryArray, BooleanArray, Date32Array, Decimal128Array,
    Float32Array, Float64Array, Int16Array, Int32Array, Int32Builder, Int64Array, Int8Array,
    ListArray, MapArray, MapBuilder, MapFieldNames, StringArray, StringBuilder,
    StructArray, TimestampMicrosecondArray, TimestampNanosecondArray,
};
use arrow::datatypes::{DataType, Field, Int32Type, TimeUnit};
use arrow_expression::error::Error;
use arrow_expression::scalars::{ArrayData, DecimalData, MapData, Scalar, StructData};
use arrow_expression::schema::{
    ArrayType, DecimalType, KernelDataType, MapType, MetadataValue, PrimitiveType, StructField,
    StructType,
};
use std::sync::Arc;

fn integer() -> KernelDataType {
    KernelDataType::Primitive(PrimitiveType::Integer)
}

fn string() -> KernelDataType {
    KernelDataType::Primitive(PrimitiveType::String)
}

fn array_type(element_type: KernelDataType, contains_null: bool) -> ArrayType {
    ArrayType { element_type, contains_null }
}

fn list_of(t: &ArrayType) -> KernelDataType {
    KernelDataType::Array(Box::new(t.clone()))
}

fn map_of(t: &MapType) -> KernelDataType {
    KernelDataType::MapOf(Box::new(t.clone()))
}

fn struct_of(fields: Vec<StructField>) -> KernelDataType {
    KernelDataType::Struct(Box::new(StructType { fields }))
}

fn variant() -> KernelDataType {
    KernelDataType::Variant(Box::new(StructType { fields: vec![] }))
}

fn text(s: &str) -> Scalar {
    Scalar::String(s.to_string())
}

fn array_of(scalar: Scalar, rows: usize) -> ArrayRef {
    scalar.to_array(rows).unwrap().inner
}

#[test]
fn test_literal_complex_type_array() {
    let array_type = array_type(integer(), true);
    let array_value = || {
        Scalar::Array(
            ArrayData::try_new(
                array_type.clone(),
                vec![
                    Scalar::Integer(1),
                    Scalar::Integer(2),
                    Scalar::Null(integer()),
                    Scalar::Integer(3),
                ],
            )
            .unwrap(),
        )
    };
    let map_type = MapType {
        key_type: string(),
        value_type: list_of(&array_type),
        value_contains_null: true,
    };
    let map_value = || {
        Scalar::MapOf(
            MapData::try_new(
                map_type.clone(),
                vec![
                    (text("array"), array_value()),
                    (text("null_array"), Scalar::Null(list_of(&array_type))),
                ],
            )
            .unwrap(),
        )
    };
    let struct_fields = vec![
        StructField::nullable("scalar", integer()),
        StructField::nullable("list", list_of(&array_type)),
        StructField::nullable("null_list", list_of(&array_type)),
        StructField::nullable("map", map_of(&map_type)),
        StructField::nullable("null_map", map_of(&map_type)),
    ];
    let struct_type = struct_of(struct_fields.clone());
    let struct_value = || {
        Scalar::Struct(
            StructData::try_new(
                struct_fields.clone(),
                vec![
                    Scalar::Integer(42),
                    array_value(),
                    Scalar::Null(list_of(&array_type)),
                    map_value(),
                    Scalar::Null(map_of(&map_type)),
                ],
            )
            .unwrap(),
        )
    };
    let nested_array_type = ArrayType { element_type: struct_type.clone(), contains_null: true };
    let nested_array_value = Scalar::Array(
        ArrayData::try_new(
            nested_array_type,
            vec![struct_value(), Scalar::Null(struct_type.clone()), struct_value()],
        )
        .unwrap(),
    )
    .to_array(5)
    .unwrap()
    .inner;
    assert_eq!(nested_array_value.len(), 5);

    let struct_values = nested_array_value.as_list::<i32>().values();
    let struct_values = struct_values.as_struct();
    assert_eq!(struct_values.len(), 5 * 3);

    let expected_valid = [true, false, true];
    let expected_valid = (0..5).flat_map(|_| expected_valid.iter().cloned());
    assert!(expected_valid.zip(struct_values.nulls().unwrap()).all(|(a, b)| a == b));

    let expected_values = [Some(42), None, Some(42)];
    let expected_values = (0..5).flat_map(|_| expected_values.iter().cloned());
    assert!(expected_values
        .zip(struct_values.column(0).as_primitive::<Int32Type>())
        .all(|(a, b)| a == b));
    assert_eq!(struct_values.column(2).null_count(), 15);

    let list_values = struct_values.column(1);
    let list_values = list_values.as_list::<i32>().values();
    assert_eq!(list_values.len(), 40);
    let expected_values = [Some(1), Some(2), None, Some(3)];
    let expected_values = (0..10).flat_map(|_| expected_values.iter().cloned());
    assert!(expected_values
        .zip(list_values.as_primitive::<Int32Type>())
        .all(|(a, b)| a == b));

    let map_values = struct_values.column(3);
    let map_array = map_values.as_map();
    assert_eq!(map_array.keys().len(), 5 * 2 * 2);
    assert_eq!(map_array.values().len(), 5 * 2 * 2);
    assert_eq!(map_array.values().as_list::<i32>().values().len(), 5 * 2 * 4);
    let expected_keys = ["array", "null_array"];
    let expected_values = [Some(1), Some(2), None, Some(3)];
    let expected_keys = (0..10).flat_map(|_| expected_keys.iter().cloned());
    let expected_values = (0..10).flat_map(|_| expected_values.iter().cloned());
    let map_keys = map_array.keys().as_string::<i32>();
    assert!(expected_keys.zip(map_keys).all(|(a, b)| a == b.unwrap()));
    let map_values =
        map_array.values().as_list::<i32>().values().as_primitive::<Int32Type>();
    assert!(expected_values.zip(map_values).all(|(a, b)| a == b));
}

#[test]
fn test_scalar_map() {
    let map_type =
        MapType { key_type: string(), value_type: integer(), value_contains_null: true };
    let map_data = MapData::try_new(
        map_type,
        vec![(text("key1"), Scalar::Integer(1)), (text("key2"), Scalar::Null(integer()))],
    )
    .unwrap();
    let arrow_array = array_of(Scalar::MapOf(map_data), 2);
    let map_array = arrow_array.as_any().downcast_ref::<MapArray>().unwrap();

    let key_builder = StringBuilder::new();
    let val_builder = Int32Builder::new();
    let names = MapFieldNames {
        entry: "key_values".to_string(),
        key: "keys".to_string(),
        value: "values".to_string(),
    };
    let mut builder = MapBuilder::new(Some(names), key_builder, val_builder);
    builder.keys().append_value("key1");
    builder.values().append_value(1);
    builder.keys().append_value("key2");
    builder.values().append_null();
    builder.append(true).unwrap();
    builder.keys().append_value("key1");
    builder.values().append_value(1);
    builder.keys().append_value("key2");
    builder.values().append_null();
    builder.append(true).unwrap();
    let expected = builder.finish();

    assert_eq!(map_array, &expected);
}

#[test]
fn test_null_scalar_map() {
    let map_type = MapType { key_type: string(), value_type: string(), value_contains_null: false };
    let arrow_array = array_of(Scalar::Null(map_of(&map_type)), 1);
    let map_array = arrow_array.as_any().downcast_ref::<MapArray>().unwrap();

    assert_eq!(map_array.len(), 1);
    assert_eq!(map_array.null_count(), 1);
    assert!(map_array.is_null(0));
}

#[test]
fn test_void_scalar_to_array() {
    let array = array_of(Scalar::Null(KernelDataType::Primitive(PrimitiveType::Void)), 5);
    assert_eq!(array.len(), 5);
    assert_eq!(*array.data_type(), DataType::Null);
}

#[test]
fn every_leaf_scalar_becomes_its_arrow_values() {
    let same = |scalar: Scalar, expected: ArrayRef| {
        assert_eq!(&array_of(scalar, 2), &expected);
    };
    same(Scalar::Integer(-7), Arc::new(Int32Array::from(vec![-7, -7])));
    same(Scalar::Long(1 << 40), Arc::new(Int64Array::from(vec![1 << 40, 1 << 40])));
    same(Scalar::Short(300), Arc::new(Int16Array::from(vec![300, 300])));
    same(Scalar::Byte(-128), Arc::new(Int8Array::from(vec![-128, -128])));
    same(Scalar::Float(1.5f32.to_bits()), Arc::new(Float32Array::from(vec![1.5, 1.5])));
    same(Scalar::Double((-0.25f64).to_bits()), Arc::new(Float64Array::from(vec![-0.25, -0.25])));
    same(text("häé"), Arc::new(StringArray::from(vec!["häé", "häé"])));
    same(Scalar::Boolean(true), Arc::new(BooleanArray::from(vec![true, true])));
    same(
        Scalar::Timestamp(17),
        Arc::new(TimestampMicrosecondArray::from(vec![17, 17]).with_timezone("UTC")),
    );
    same(Scalar::TimestampNtz(18), Arc::new(TimestampMicrosecondArray::from(vec![18, 18])));
    same(
        Scalar::TimestampNanos(19),
        Arc::new(TimestampNanosecondArray::from(vec![19, 19]).with_timezone("UTC")),
    );
    same(Scalar::Date(20000), Arc::new(Date32Array::from(vec![20000, 20000])));
    same(
        Scalar::Binary(vec![0, 255]),
        Arc::new(BinaryArray::from_vec(vec![&[0, 255], &[0, 255]])),
    );
    same(
        Scalar::Decimal(DecimalData { bits: -12345, ty: DecimalType { precision: 10, scale: 2 } }),
        Arc::new(
            Decimal128Array::from(vec![-12345, -12345]).with_precision_and_scale(10, 2).unwrap(),
        ),
    );
}

#[test]
fn a_nan_keeps_its_bits() {
    let bits: u64 = 0x7ff8_0000_dead_beef;
    let array = array_of(Scalar::Double(bits), 1);
    let array = array.as_any().downcast_ref::<Float64Array>().unwrap();
    assert_eq!(array.value(0).to_bits(), bits);
}

#[test]
fn nulls_of_every_leaf_type_are_null() {
    let primitives = [
        PrimitiveType::String,
        PrimitiveType::Long,
        PrimitiveType::Integer,
        PrimitiveType::Short,
        PrimitiveType::Byte,
        PrimitiveType::Float,
        PrimitiveType::Double,
        PrimitiveType::Boolean,
        PrimitiveType::Binary,
        PrimitiveType::Date,
        PrimitiveType::Timestamp,
        PrimitiveType::TimestampNtz,
        PrimitiveType::TimestampNanos,
        PrimitiveType::Decimal(DecimalType { precision: 5, scale: 1 }),
    ];
    for p in primitives {
        let array = array_of(Scalar::Null(KernelDataType::Primitive(p)), 3);
        assert_eq!(array.len(), 3);
        assert_eq!(array.null_count(), 3);
    }
    let array = array_of(
        Scalar::Null(KernelDataType::Primitive(PrimitiveType::Decimal(DecimalType {
            precision: 5,
            scale: 1,
        }))),
        1,
    );
    assert_eq!(*array.data_type(), DataType::Decimal128(5, 1));
    let array = array_of(Scalar::Null(KernelDataType::Primitive(PrimitiveType::TimestampNtz)), 1);
    assert_eq!(*array.data_type(), DataType::Timestamp(TimeUnit::Microsecond, None));
}

#[test]
fn no_rows_make_an_empty_array_of_the_type() {
    let list = ArrayData::try_new(array_type(integer(), false), vec![Scalar::Integer(1)]).unwrap();
    let array = array_of(Scalar::Array(list), 0);
    assert_eq!(array.len(), 0);
    assert_eq!(
        *array.data_type(),
        DataType::List(Arc::new(Field::new("element", DataType::Int32, false)))
    );
    assert_eq!(array_of(text("x"), 0).len(), 0);
}

#[test]
fn a_null_struct_has_a_row_in_every_child_and_a_null_list_has_none() {
    let t = struct_of(vec![
        StructField::not_null("a", integer()),
        StructField::nullable("b", list_of(&array_type(string(), true))),
    ]);
    let array = array_of(Scalar::Null(t), 2);
    let array = array.as_struct();
    assert_eq!(array.null_count(), 2);
    assert_eq!(array.column(0).null_count(), 2);
    assert_eq!(array.column(1).null_count(), 2);
    assert_eq!(array.column(1).as_list::<i32>().values().len(), 0);
}

#[test]
fn a_struct_scalar_repeats_in_every_child() {
    let fields = vec![
        StructField::not_null("x", integer()),
        StructField::nullable("y", string()),
    ];
    let data = StructData::try_new(fields, vec![Scalar::Integer(3), Scalar::Null(string())]);
    let array = array_of(Scalar::Struct(data.unwrap()), 3);
    let expected = StructArray::new(
        vec![
            Field::new("x", DataType::Int32, false),
            Field::new("y", DataType::Utf8, true),
        ]
        .into(),
        vec![
            Arc::new(Int32Array::from(vec![3, 3, 3])) as ArrayRef,
            Arc::new(StringArray::from(vec![None::<&str>, None, None])) as ArrayRef,
        ],
        None,
    );
    assert_eq!(array.as_struct(), &expected);
}

#[test]
fn list_elements_become_rows() {
    let list = ArrayData::try_new(
        array_type(integer(), true),
        vec![Scalar::Integer(5), Scalar::Null(integer()), Scalar::Integer(7)],
    )
    .unwrap();
    let array = list.to_arrow().unwrap().inner;
    let expected: ArrayRef = Arc::new(Int32Array::from(vec![Some(5), None, Some(7)]));
    assert_eq!(&array, &expected);

    let empty = ArrayData::try_new(array_type(string(), false), vec![]).unwrap();
    let array = empty.to_arrow().unwrap().inner;
    assert_eq!(array.len(), 0);
    assert_eq!(*array.data_type(), DataType::Utf8);
}

#[test]
fn rows_of_a_list_scalar_are_the_same_list() {
    let list = ArrayData::try_new(
        array_type(string(), false),
        vec![text("a"), text("bc")],
    )
    .unwrap();
    let elements = list.to_arrow().unwrap().inner;
    let array = array_of(Scalar::Array(list), 3);
    let array = array.as_any().downcast_ref::<ListArray>().unwrap();
    assert_eq!(array.value_offsets(), &[0, 2, 4, 6]);
    for i in 0..3 {
        let row = array.value(i);
        assert_eq!(&row, &elements);
        let row = row.as_string::<i32>();
        assert_eq!((row.value(0), row.value(1)), ("a", "bc"));
    }
}

#[test]
fn null_variants_are_refused() {
    let error = Scalar::Null(variant()).to_array(1).err().unwrap();
    assert!(matches!(error, Error::UnsupportedVariant));
    assert_eq!(error.message(), "Variant is not supported as scalar yet.");

    let nested = struct_of(vec![StructField::nullable("v", variant())]);
    let error = Scalar::Null(nested).to_array(1).err().unwrap();
    assert!(matches!(error, Error::UnsupportedVariant));

    let list = array_type(variant(), true);
    assert_eq!(array_of(Scalar::Null(list_of(&list)), 2).null_count(), 2);
}

#[test]
fn nested_field_ids_that_are_not_an_object_stop_the_conversion() {
    let field = StructField::nullable("l", list_of(&array_type(integer(), true))).with_metadata(
        vec![(
            "delta.columnMapping.nested.ids".to_string(),
            MetadataValue::Other("[1]".to_string()),
        )],
    );
    let error = Scalar::Null(struct_of(vec![field])).to_array(1).err().unwrap();
    assert!(error.message().contains("must be a JSON object"));
}

#[test]
fn ill_typed_parts_are_refused() {
    let fields = vec![StructField::not_null("x", integer())];
    let error = StructData::try_new(fields.clone(), vec![]).err().unwrap();
    assert!(matches!(error, Error::StructLength { fields: 1, values: 0 }));
    assert_eq!(error.message(), "Struct has 1 fields but 0 values");

    let error = StructData::try_new(fields.clone(), vec![Scalar::Long(1)]).err().unwrap();
    assert!(matches!(error, Error::PartType { .. }));
    assert_eq!(error.message(), "Expected a value of type integer, got long");

    let error = StructData::try_new(fields, vec![Scalar::Null(integer())]).err().unwrap();
    assert!(matches!(error, Error::NullPart));

    let error = ArrayData::try_new(array_type(integer(), false), vec![Scalar::Null(integer())]);
    assert!(matches!(error.err().unwrap(), Error::NullPart));

    let map_type = MapType { key_type: string(), value_type: integer(), value_contains_null: true };
    let pairs = vec![(Scalar::Null(string()), Scalar::Integer(1))];
    assert!(matches!(MapData::try_new(map_type, pairs).err().unwrap(), Error::NullPart));
}

#[test]
fn scalars_know_their_types() {
    assert_eq!(Scalar::Integer(1).data_type().text(), "integer");
    let decimal = DecimalData { bits: 1, ty: DecimalType { precision: 10, scale: 2 } };
    assert_eq!(Scalar::Decimal(decimal).data_type().text(), "decimal(10,2)");
    let map_type = MapType {
        key_type: string(),
        value_type: struct_of(vec![
            StructField::nullable("a", integer()),
            StructField::nullable("b", list_of(&array_type(string(), true))),
        ]),
        value_contains_null: true,
    };
    assert_eq!(
        Scalar::Null(map_of(&map_type)).data_type().text(),
        "map<string, struct<a: integer, b: array<string>>>"
    );
    assert!(variant().same_as(&variant()));
    assert!(!variant().same_as(&integer()));
}

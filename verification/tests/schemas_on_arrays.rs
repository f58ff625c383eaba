//! Applying schemas to Arrow arrays.
use arrow::array::{
    Array, ArrayRef, AsArray, Int32Array, LargeStringArray, ListArray, MapArray,
    NullArray, RecordBatch, StringArray, StringViewArray, StructArray,
};
use arrow::buffer::{BooleanBuffer, NullBuffer, OffsetBuffer, ScalarBuffer};
use arrow::datatypes::{DataType, Field, Fields, Schema, TimeUnit};
use arrow_expression::apply_schema::{apply_schema_to, apply_schema_to_struct};
use arrow_expression::arrow_arrays::ArrowArray;
use arrow_expression::data_types::ensure_data_types;
use arrow_expression::error::Error;
use arrow_expression::identity::{
    apply_known, apply_schema, apply_unknown, take_over, IdentityCache, IDENTITY_CACHE_MAX,
};
use arrow_expression::metadata::{nested_field_id_in, PARQUET_FIELD_ID_META_KEY};
use arrow_expression::schema::{
    ArrayType, DecimalType, KernelDataType, MapType, MetadataValue, PrimitiveType, StructField,
    StructType, NESTED_IDS_KEY, PARQUET_FIELD_ID_KEY,
};
use std::collections::HashMap;
use std::sync::Arc;

fn primitive(p: PrimitiveType) -> KernelDataType {
    KernelDataType::Primitive(p)
}

fn integer() -> KernelDataType {
    primitive(PrimitiveType::Integer)
}

fn string() -> KernelDataType {
    primitive(PrimitiveType::String)
}

fn struct_of(fields: Vec<StructField>) -> KernelDataType {
    KernelDataType::Struct(Box::new(StructType { fields }))
}

fn list_of(element_type: KernelDataType, contains_null: bool) -> KernelDataType {
    KernelDataType::Array(Box::new(ArrayType { element_type, contains_null }))
}

fn map_of(
    key_type: KernelDataType,
    value_type: KernelDataType,
    value_contains_null: bool,
) -> KernelDataType {
    KernelDataType::MapOf(Box::new(MapType { key_type, value_type, value_contains_null }))
}

fn wrap(array: impl Array + 'static) -> ArrowArray {
    ArrowArray { inner: Arc::new(array) }
}

fn applied(array: impl Array + 'static, schema: &KernelDataType) -> Result<RecordBatch, Error> {
    let mut cache = IdentityCache::new();
    apply_schema(&wrap(array), schema, &mut cache).map(|b| b.inner)
}

fn assert_message_holds<T>(result: Result<T, Error>, expected: &str) {
    match result {
        Ok(_) => panic!("expected an error"),
        Err(e) => assert!(e.message().contains(expected), "{}", e.message()),
    }
}

fn input() -> StructArray {
    let f: Vec<Field> = vec![
        Field::new("a", DataType::Int32, true),
        Field::new("b", DataType::Utf8, true),
    ];
    StructArray::new(
        f.into(),
        vec![
            Arc::new(Int32Array::from(vec![1, 2])),
            Arc::new(StringArray::from(vec!["x", "y"])),
        ],
        None,
    )
}

fn target() -> KernelDataType {
    struct_of(vec![
        StructField::nullable("a", integer()),
        StructField::nullable("b", string()),
    ])
}

#[test]
fn cached_identity_batches_round_trip_unchanged() {
    let sa = input();
    let schema = target();
    let mut cache = IdentityCache::new();
    let array = wrap(sa.clone());
    let cold = apply_schema(&array, &schema, &mut cache).expect("cold").inner;
    assert_eq!(cache.len(), 1);
    let warm = apply_schema(&array, &schema, &mut cache).expect("warm").inner;
    assert_eq!(cache.len(), 1);
    assert_eq!(cold.schema(), warm.schema());
    assert_eq!(cold, warm);
    assert!(
        Arc::ptr_eq(warm.column(0), &(sa.column(0).clone()))
            || warm.column(0).as_ref().to_data() == sa.column(0).to_data()
    );
}

#[test]
fn non_identity_transforms_keep_running_the_full_transform() {
    let array = wrap(input());
    let renamed = struct_of(vec![
        StructField::nullable("a2", integer()),
        StructField::nullable("b2", string()),
    ]);
    let mut cache = IdentityCache::new();
    let out1 = apply_schema(&array, &renamed, &mut cache).expect("first").inner;
    let out2 = apply_schema(&array, &renamed, &mut cache).expect("second").inner;
    assert_eq!(out1.schema().field(0).name(), "a2");
    assert_eq!(
        out2.schema().field(0).name(),
        "a2",
        "a cached identity verdict must not leak into a renaming transform"
    );
}

#[test]
fn a_different_target_schema_bypasses_the_cached_verdict() {
    let array = wrap(input());
    let mut cache = IdentityCache::new();
    assert!(apply_schema(&array, &target(), &mut cache).is_ok(), "seed identity");
    let renamed = struct_of(vec![
        StructField::nullable("a", integer()),
        StructField::nullable("z", string()),
    ]);
    let out = apply_schema(&array, &renamed, &mut cache).expect("different schema").inner;
    assert_eq!(out.schema().field(1).name(), "z");
}

#[test]
fn test_apply_schema_column_count_mismatch() {
    let one = |v: i32| Arc::new(Int32Array::from(vec![v])) as ArrayRef;
    let struct_array = StructArray::from(vec![
        (Arc::new(Field::new("a", DataType::Int32, false)), one(1)),
        (Arc::new(Field::new("b", DataType::Int32, false)), one(2)),
        (Arc::new(Field::new("c", DataType::Int32, false)), one(3)),
    ]);
    let schema = struct_of(vec![
        StructField::not_null("a", integer()),
        StructField::not_null("b", integer()),
    ]);
    assert_message_holds(
        applied(struct_array, &schema),
        "Passed struct had 3 columns, but transformed column has 2",
    );
}

#[test]
fn test_apply_schema_basic_functionality() {
    let fields: Fields = vec![
        Field::new("a", DataType::Int32, false),
        Field::new("b", DataType::Int32, false),
    ]
    .into();
    let input_array = StructArray::try_new(
        fields,
        vec![
            Arc::new(Int32Array::from(vec![1, 2, 3])),
            Arc::new(Int32Array::from(vec![4, 5, 6])),
        ],
        None,
    )
    .unwrap();
    let target_schema = StructType {
        fields: vec![
            StructField::new("a", integer(), false),
            StructField::new("b", integer(), false),
        ],
    };
    let result = apply_schema_to_struct(&wrap(input_array.clone()), &target_schema);
    assert!(result.is_ok(), "Basic schema application should succeed");
    let result_array = result.unwrap().inner;
    let result_array = result_array.as_struct();
    assert_eq!(result_array.len(), input_array.len(), "Row count should be preserved");
    assert_eq!(result_array.num_columns(), 2, "Should have 2 columns");
}

#[test]
fn test_apply_schema_handles_top_level_nulls() {
    let fields: Fields = vec![
        Field::new("a", DataType::Int32, true),
        Field::new("b", DataType::Int32, true),
    ]
    .into();
    let a_data = Int32Array::from(vec![Some(1), None, Some(3), None]);
    let b_data = Int32Array::from(vec![Some(10), None, Some(30), None]);
    let null_buffer = NullBuffer::new(BooleanBuffer::from(vec![true, false, true, false]));
    let struct_array = StructArray::try_new(
        fields,
        vec![Arc::new(a_data), Arc::new(b_data)],
        Some(null_buffer),
    )
    .unwrap();
    let target_schema = struct_of(vec![
        StructField::new("a", integer(), true),
        StructField::new("b", integer(), true),
    ]);
    let result = applied(struct_array, &target_schema).unwrap();
    assert_eq!(result.num_rows(), 4);
    assert_eq!(result.num_columns(), 2);

    let col_a = result.column(0);
    assert!(col_a.is_valid(0), "Row 0 should be valid");
    assert!(col_a.is_null(1), "Row 1 should be null");
    assert!(col_a.is_valid(2), "Row 2 should be valid");
    assert!(col_a.is_null(3), "Row 3 should be null");
    let col_b = result.column(1);
    assert!(col_b.is_valid(0), "Row 0 should be valid");
    assert!(col_b.is_null(1), "Row 1 should be null");
    assert!(col_b.is_valid(2), "Row 2 should be valid");
    assert!(col_b.is_null(3), "Row 3 should be null");

    let col_a =
        col_a.as_any().downcast_ref::<Int32Array>().expect("column a should be Int32Array");
    let col_b =
        col_b.as_any().downcast_ref::<Int32Array>().expect("column b should be Int32Array");
    assert_eq!(col_a.value(0), 1);
    assert_eq!(col_a.value(2), 3);
    assert_eq!(col_b.value(0), 10);
    assert_eq!(col_b.value(2), 30);
}

fn schema_with_id(id: i64) -> StructType {
    StructType {
        fields: vec![StructField::new("a", integer(), false).with_metadata(vec![(
            PARQUET_FIELD_ID_KEY.to_string(),
            MetadataValue::Number(id),
        )])],
    }
}

fn array_with_metadata(metadata: HashMap<String, String>) -> StructArray {
    let arrow_field = Field::new("a", DataType::Int32, false).with_metadata(metadata);
    StructArray::try_new(
        vec![arrow_field].into(),
        vec![Arc::new(Int32Array::from(vec![1, 2, 3]))],
        None,
    )
    .unwrap()
}

#[test]
fn test_apply_schema_transforms_parquet_field_id_metadata() {
    let input_array = array_with_metadata(HashMap::new());
    let result = apply_schema_to_struct(&wrap(input_array), &schema_with_id(42)).unwrap().inner;
    let result = result.as_struct();
    let (_, output_field) = result.fields().find("a").unwrap();
    assert_eq!(
        output_field
            .metadata()
            .get(parquet::arrow::PARQUET_FIELD_ID_META_KEY)
            .map(String::as_str),
        Some("42"),
        "parquet.field.id should be translated to PARQUET:field_id"
    );
    assert!(
        !output_field.metadata().contains_key(PARQUET_FIELD_ID_KEY),
        "the parquet.field.id key should not be kept"
    );
}

#[test]
fn test_apply_schema_matching_field_ids_succeed() {
    let metadata = [(PARQUET_FIELD_ID_META_KEY.to_string(), "42".to_string())].into();
    let result = apply_schema_to_struct(&wrap(array_with_metadata(metadata)), &schema_with_id(42));
    assert!(result.is_ok(), "Matching field IDs should succeed");
}

#[test]
fn test_apply_schema_conflicting_field_ids_fail() {
    let metadata = [(PARQUET_FIELD_ID_META_KEY.to_string(), "99".to_string())].into();
    let result = apply_schema_to_struct(&wrap(array_with_metadata(metadata)), &schema_with_id(42));
    assert_message_holds(result, "conflicts with");
}

/// `array_in_map: map<int, array<int>>` with field id 1 and these further entries of metadata.
fn array_in_map_kernel_schema(metadata: Vec<(String, MetadataValue)>) -> KernelDataType {
    let field = StructField::nullable(
        "array_in_map",
        map_of(integer(), list_of(integer(), true), true),
    );
    struct_of(vec![field.with_metadata(metadata)])
}

fn array_in_map_with_field_ids() -> KernelDataType {
    array_in_map_kernel_schema(vec![
        (PARQUET_FIELD_ID_KEY.to_string(), MetadataValue::Number(1)),
        (
            NESTED_IDS_KEY.to_string(),
            MetadataValue::Other(
                r#"{"array_in_map.key":100,"array_in_map.value":101,"array_in_map.value.element":102}"#
                    .to_string(),
            ),
        ),
    ])
}

fn array_in_map_arrow_data(
    names: [&str; 4],
    key_metadata: HashMap<String, String>,
    value_metadata: HashMap<String, String>,
    element_metadata: HashMap<String, String>,
) -> StructArray {
    let element_field =
        Field::new(names[3], DataType::Int32, true).with_metadata(element_metadata);
    let key_field = Field::new(names[1], DataType::Int32, false).with_metadata(key_metadata);
    let value_field = Field::new(names[2], DataType::List(Arc::new(element_field)), true)
        .with_metadata(value_metadata);
    let entries_field = Field::new(
        names[0],
        DataType::Struct(vec![key_field, value_field].into()),
        false,
    );
    let array_in_map_field =
        Field::new("array_in_map", DataType::Map(Arc::new(entries_field), false), true);
    let input_batch = RecordBatch::new_empty(Arc::new(Schema::new(vec![array_in_map_field])));
    StructArray::try_new(
        input_batch.schema().fields.clone(),
        input_batch.columns().to_vec(),
        None,
    )
    .unwrap()
}

fn plain_array_in_map() -> StructArray {
    array_in_map_arrow_data(
        ["key_value", "key", "value", "element"],
        HashMap::new(),
        HashMap::new(),
        HashMap::new(),
    )
}

/// The entries, key, value and element field of the one column.
fn inner_fields(batch: &RecordBatch) -> (Arc<Field>, Arc<Field>, Arc<Field>, Arc<Field>) {
    let schema = batch.schema();
    let DataType::Map(entries, _) = schema.field(0).data_type() else {
        panic!("array_in_map should remain a map");
    };
    let DataType::Struct(fields) = entries.data_type() else {
        panic!("map entries should remain a struct");
    };
    let DataType::List(element) = fields[1].data_type() else {
        panic!("map value should remain a list");
    };
    (entries.clone(), fields[0].clone(), fields[1].clone(), element.clone())
}

fn only_field_id(id: &str) -> HashMap<String, String> {
    HashMap::from([(PARQUET_FIELD_ID_META_KEY.to_string(), id.to_string())])
}

#[test]
fn test_apply_schema_retains_field_names() {
    let one = |k: &str, v: &str| HashMap::from([(k.to_string(), v.to_string())]);
    let input = array_in_map_arrow_data(
        ["custom_entries", "custom_key", "custom_value", "custom_item"],
        one("custom.key", "key_val"),
        one("custom.value", "value_val"),
        one("custom.element", "elem_val"),
    );
    let result = applied(input, &array_in_map_with_field_ids()).unwrap();
    let (entries, key, value, element) = inner_fields(&result);
    assert_eq!(entries.name(), "custom_entries");
    assert_eq!(key.name(), "custom_key");
    assert_eq!(value.name(), "custom_value");
    assert_eq!(element.name(), "custom_item");
    assert_eq!(key.metadata(), &only_field_id("100"));
    assert_eq!(value.metadata(), &only_field_id("101"));
    assert_eq!(element.metadata(), &only_field_id("102"));
    assert_eq!(result.schema().field(0).metadata(), &only_field_id("1"));
}

/// Ids reach the unnamed fields of lists and maps in structs, lists and maps, each from the nearest
/// struct field around it.
#[test]
fn test_apply_schema_threads_nested_ids_onto_arrow_schema() {
    let id = |n: i64| (PARQUET_FIELD_ID_KEY.to_string(), MetadataValue::Number(n));
    let nested = |json: &str| (NESTED_IDS_KEY.to_string(), MetadataValue::Other(json.to_string()));
    let inner = StructField::nullable("ids", list_of(list_of(integer(), true), true))
        .with_metadata(vec![
            id(3),
            nested(r#"{"ids.element":30,"ids.element.element":31}"#),
        ]);
    let outer = StructField::nullable(
        "events",
        map_of(string(), struct_of(vec![inner]), true),
    )
    .with_metadata(vec![
        id(2),
        nested(r#"{"events.key":20,"events.value":21,"ids.element":99}"#),
    ]);
    let schema = struct_of(vec![outer]);

    let id_field = |name: &str, t: DataType, nullable: bool, id: Option<&str>| {
        let field = Field::new(name, t, nullable);
        match id {
            Some(id) => field.with_metadata(only_field_id(id)),
            None => field,
        }
    };
    let arrow_schema = |ids: Option<[&str; 6]>| {
        let at = |i: usize| ids.map(|ids| ids[i]);
        let numbers = id_field("element", DataType::Int32, true, at(5));
        let lists = id_field("element", DataType::List(Arc::new(numbers)), true, at(4));
        let ids_field = id_field("ids", DataType::List(Arc::new(lists)), true, at(3));
        let key = id_field("key", DataType::Utf8, false, at(1));
        let value = id_field("value", DataType::Struct(vec![ids_field].into()), true, at(2));
        let entries =
            Field::new("key_value", DataType::Struct(vec![key, value].into()), false);
        let events = id_field("events", DataType::Map(Arc::new(entries), false), true, at(0));
        Schema::new(vec![events])
    };
    let empty = RecordBatch::new_empty(Arc::new(arrow_schema(None)));
    let input = StructArray::try_new(
        empty.schema().fields.clone(),
        empty.columns().to_vec(),
        None,
    )
    .unwrap();
    let result = applied(input, &schema).unwrap();
    assert_eq!(
        result.schema().as_ref(),
        &arrow_schema(Some(["2", "20", "21", "3", "30", "31"])),
        "apply_schema should attach nested field ids to synthesized map/array fields"
    );
}

#[test]
fn only_matched_nested_ids_are_set() {
    let result = applied(plain_array_in_map(), &array_in_map_kernel_schema(vec![])).unwrap();
    let (_, key, value, element) = inner_fields(&result);
    assert!(key.metadata().is_empty());
    assert!(value.metadata().is_empty());
    assert!(element.metadata().is_empty());

    let partial = array_in_map_kernel_schema(vec![(
        NESTED_IDS_KEY.to_string(),
        MetadataValue::Other(
            r#"{"array_in_map.key":100,"array_in_map.value.element":102,"array_in_map.notTheKey":999}"#
                .to_string(),
        ),
    )]);
    let result = applied(plain_array_in_map(), &partial).unwrap();
    let (_, key, value, element) = inner_fields(&result);
    assert_eq!(key.metadata(), &only_field_id("100"));
    assert!(value.metadata().is_empty());
    assert_eq!(element.metadata(), &only_field_id("102"));
    assert!(result.schema().field(0).metadata().is_empty());
}

#[test]
fn invalid_nested_ids_are_reported() {
    let with = |value: MetadataValue| {
        array_in_map_kernel_schema(vec![(NESTED_IDS_KEY.to_string(), value)])
    };
    assert_message_holds(
        applied(
            plain_array_in_map(),
            &with(MetadataValue::String("not a json object".to_string())),
        ),
        "must be a JSON object",
    );
    assert_message_holds(
        applied(plain_array_in_map(), &with(MetadataValue::Other("not json".to_string()))),
        "must be a JSON object",
    );
    assert_message_holds(
        applied(
            plain_array_in_map(),
            &with(MetadataValue::Other(r#"{"array_in_map.key":"oops"}"#.to_string())),
        ),
        "must be an integer",
    );
}

#[test]
fn parsed_nested_ids_are_looked_up_by_path() {
    let entries = Some(vec![
        ("f.element".to_string(), Some(7)),
        ("f.element.element".to_string(), None),
    ]);
    assert_eq!(nested_field_id_in("f", &entries, "f.element").unwrap(), Some(7));
    assert_eq!(nested_field_id_in("f", &entries, "f.key").unwrap(), None);
    match nested_field_id_in("f", &entries, "f.element.element") {
        Err(Error::NestedIdNotInteger { field, path }) => {
            assert_eq!((field.as_str(), path.as_str()), ("f", "f.element.element"));
        }
        _ => panic!("expected an error"),
    }
    let none = nested_field_id_in("f", &None, "f.element");
    assert!(matches!(none, Err(Error::NestedIdsNotObject(_))));
}

#[test]
fn metadata_is_written_as_text_and_input_metadata_is_dropped() {
    let metadata = vec![
        ("text".to_string(), MetadataValue::String("plain".to_string())),
        ("number".to_string(), MetadataValue::Number(-9223372036854775808)),
        ("flag".to_string(), MetadataValue::Boolean(false)),
        ("json".to_string(), MetadataValue::Other(r#"{"a":[1]}"#.to_string())),
        ("flag".to_string(), MetadataValue::Boolean(true)),
    ];
    let schema =
        StructType { fields: vec![StructField::new("a", integer(), false).with_metadata(metadata)] };
    let input = array_with_metadata(HashMap::from([("old".to_string(), "x".to_string())]));
    let result = apply_schema_to_struct(&wrap(input), &schema).unwrap().inner;
    let expected: HashMap<String, String> = [
        ("text", "plain"),
        ("number", "-9223372036854775808"),
        ("flag", "true"),
        ("json", r#"{"a":[1]}"#),
    ]
    .into_iter()
    .map(|(k, v)| (k.to_string(), v.to_string()))
    .collect();
    assert_eq!(result.as_struct().fields()[0].metadata(), &expected);
}

#[test]
fn data_passes_through_lists_and_maps_unchanged() {
    let values = Int32Array::from(vec![Some(1), None, Some(3)]);
    let offsets = OffsetBuffer::new(ScalarBuffer::from(vec![0, 2, 2, 3]));
    let item = Arc::new(Field::new("item", DataType::Int32, true));
    let nulls = NullBuffer::new(BooleanBuffer::from(vec![true, false, true]));
    let list = ListArray::new(item, offsets.clone(), Arc::new(values.clone()), Some(nulls));
    let out = apply_schema_to(&wrap(list.clone()), &list_of(integer(), true)).unwrap().inner;
    let out = out.as_list::<i32>();
    assert_eq!(out.offsets(), list.offsets());
    assert_eq!(out.nulls(), list.nulls());
    assert_eq!(out.values().to_data(), list.values().to_data());
    assert_eq!(out.data_type(), list.data_type());

    let refused = apply_schema_to(&wrap(list.clone()), &list_of(integer(), false));
    assert!(matches!(refused, Err(Error::Arrow(_))));

    let keys = StringArray::from(vec!["k", "l", "m"]);
    let entries = StructArray::from(vec![
        (Arc::new(Field::new("k", DataType::Utf8, false)), Arc::new(keys) as ArrayRef),
        (Arc::new(Field::new("v", DataType::Int32, true)), Arc::new(values) as ArrayRef),
    ]);
    let entries_field = Arc::new(Field::new("e", entries.data_type().clone(), false));
    let map = MapArray::new(entries_field, offsets, entries, None, true);
    let target = map_of(string(), integer(), true);
    let out = apply_schema_to(&wrap(map.clone()), &target).unwrap().inner;
    let out = out.as_map();
    assert_eq!(out.offsets(), map.offsets());
    assert_eq!(out.keys().to_data(), map.keys().to_data());
    assert_eq!(out.values().to_data(), map.values().to_data());
    assert_eq!(out.data_type(), map.data_type());

    let again = apply_schema_to(&ArrowArray { inner: Arc::new(out.clone()) }, &target).unwrap();
    assert_eq!(again.inner.to_data(), out.to_data());
}

#[test]
fn arrays_of_another_shape_are_refused() {
    let ints = || wrap(Int32Array::from(vec![1]));
    let message = |t: KernelDataType| apply_schema_to(&ints(), &t).err().unwrap().message();
    assert_eq!(
        message(struct_of(vec![])),
        "Arrow claimed to be a struct but isn't a StructArray"
    );
    assert_eq!(
        message(list_of(integer(), true)),
        "Arrow claimed to be a list but isn't a ListArray"
    );
    assert_eq!(
        message(map_of(integer(), integer(), true)),
        "Arrow claimed to be a map but isn't a MapArray"
    );
    assert_eq!(message(string()), "Incorrect datatype. Expected string, got Int32");
    let milliseconds = DataType::Timestamp(TimeUnit::Millisecond, Some("UTC".into()));
    let error = ensure_data_types(&integer(), &milliseconds).err().unwrap();
    assert_eq!(
        error.message(),
        "Incorrect datatype. Expected integer, got Timestamp(ms, \"UTC\")"
    );

    assert_message_holds(
        applied(Int32Array::from(vec![1]), &struct_of(vec![])),
        "Arrow claimed to be a struct but isn't a StructArray",
    );
    assert_message_holds(
        applied(input(), &integer()),
        "apply_schema at top-level must be passed a struct schema",
    );
}

#[test]
fn all_string_encodings_are_strings() {
    let arrays: [ArrowArray; 3] = [
        wrap(StringArray::from(vec!["a"])),
        wrap(LargeStringArray::from(vec!["a"])),
        wrap(StringViewArray::from(vec!["a"])),
    ];
    for array in arrays {
        let out = apply_schema_to(&array, &string()).unwrap();
        assert_eq!(out.inner.data_type(), array.inner.data_type());
    }
}

#[test]
fn types_that_widen_can_be_read() {
    let reads = |p: PrimitiveType, t: DataType| ensure_data_types(&primitive(p), &t).is_ok();
    let decimal = |precision, scale| PrimitiveType::Decimal(DecimalType { precision, scale });
    assert!(reads(PrimitiveType::Long, DataType::Int32));
    assert!(!reads(PrimitiveType::Integer, DataType::Int64));
    assert!(reads(PrimitiveType::Double, DataType::Float32));
    assert!(!reads(PrimitiveType::Double, DataType::Int64));
    assert!(reads(PrimitiveType::Short, DataType::Int8));
    assert!(!reads(PrimitiveType::Boolean, DataType::Int8));
    assert!(reads(PrimitiveType::Void, DataType::Null));
    assert!(reads(PrimitiveType::Binary, DataType::LargeBinary));
    assert!(reads(PrimitiveType::Binary, DataType::BinaryView));
    assert!(reads(PrimitiveType::TimestampNtz, DataType::Date32));
    assert!(!reads(PrimitiveType::Timestamp, DataType::Date32));
    assert!(reads(PrimitiveType::Timestamp, DataType::Timestamp(TimeUnit::Second, None)));
    assert!(reads(decimal(10, 0), DataType::Int32));
    assert!(!reads(decimal(9, 0), DataType::Int32));
    assert!(reads(decimal(20, 0), DataType::Int64));
    assert!(reads(decimal(5, 0), DataType::Int16));
    assert!(reads(decimal(3, 0), DataType::Int8));
    assert!(reads(decimal(12, 4), DataType::Decimal128(10, 2)));
    assert!(!reads(decimal(11, 4), DataType::Decimal128(10, 2)));
    assert!(!reads(decimal(12, 1), DataType::Decimal128(10, 2)));
    assert!(!reads(decimal(12, 1), DataType::Float64));
    let variant = KernelDataType::Variant(Box::new(StructType {
        fields: vec![StructField::not_null("metadata", primitive(PrimitiveType::Binary))],
    }));
    let stored: Fields = vec![Field::new("metadata", DataType::Binary, false)].into();
    assert!(ensure_data_types(&variant, &DataType::Struct(stored)).is_ok());
    assert!(ensure_data_types(&variant, &DataType::Binary).is_err());
}

#[test]
fn a_null_in_a_strict_field_is_refused_by_arrow() {
    let array = StructArray::new(
        vec![Field::new("a", DataType::Int32, true)].into(),
        vec![Arc::new(Int32Array::from(vec![Some(1), None]))],
        None,
    );
    let strict = struct_of(vec![StructField::not_null("a", integer())]);
    assert!(matches!(applied(array, &strict), Err(Error::Arrow(_))));
}

#[test]
fn further_fields_of_the_schema_are_refused() {
    let wider = struct_of(vec![
        StructField::nullable("a", integer()),
        StructField::nullable("b", string()),
        StructField::nullable("c", string()),
    ]);
    assert_message_holds(
        applied(input(), &wider),
        "Passed struct had 2 columns, but transformed column has 3",
    );
}

#[test]
fn a_schema_gives_its_own_batch_again() {
    let renamed = struct_of(vec![
        StructField::nullable("a2", integer()),
        StructField::nullable("b2", string()),
    ]);
    let once = applied(input(), &renamed).unwrap();
    assert_eq!(applied(StructArray::from(once.clone()), &renamed).unwrap(), once);
}

/// A batch with one column `st`, a struct of one integer `s`, under a field that says that `s` is
/// nullable. The column says so only where `declared` is set.
fn batch_under_nullable(declared: bool, schema: &Arc<Schema>) -> RecordBatch {
    let s: Fields = vec![Field::new("s", DataType::Int32, declared)].into();
    let st = StructArray::new(s.clone(), vec![Arc::new(Int32Array::from(vec![7]))], None);
    let own = Arc::new(Schema::new(vec![Field::new("st", DataType::Struct(s), true)]));
    RecordBatch::try_new(own, vec![Arc::new(st)]).unwrap().with_schema(schema.clone()).unwrap()
}

fn nullable_schema() -> Arc<Schema> {
    let s: Fields = vec![Field::new("s", DataType::Int32, true)].into();
    Arc::new(Schema::new(vec![Field::new("st", DataType::Struct(s), true)]))
}

#[test]
fn a_column_of_another_type_than_its_field_is_rebuilt() {
    let schema = nullable_schema();
    let t = struct_of(vec![StructField::nullable(
        "st",
        struct_of(vec![StructField::nullable("s", integer())]),
    )]);
    let odd = batch_under_nullable(false, &schema);
    let expected = batch_under_nullable(true, &schema);
    let out = applied(StructArray::from(odd.clone()), &t).unwrap();
    assert_eq!(out, expected);

    let mut cache = IdentityCache::new();
    assert!(apply_schema(&wrap(StructArray::from(expected)), &t, &mut cache).is_ok());
    let refused = apply_schema(&wrap(StructArray::from(odd)), &t, &mut cache);
    assert!(matches!(refused, Err(Error::Arrow(_))));
}

#[test]
fn a_verdict_is_not_doubled() {
    let array = wrap(input());
    let schema = target();
    let mut cache = IdentityCache::new();
    let entry = || apply_unknown(&array, &schema).1.unwrap();
    cache.insert_among(&vec![], entry());
    assert_eq!(cache.len(), 1);
    cache.insert_among(&vec![true], entry());
    assert_eq!(cache.len(), 1);
    cache.insert_among(&vec![false], entry());
    assert_eq!(cache.len(), 2);
    cache.insert(entry());
    assert_eq!(cache.len(), 2);
}

#[test]
fn the_cache_forgets_the_oldest_verdict() {
    let schema = target();
    let mut cache = IdentityCache::new();
    let arrays: Vec<ArrowArray> =
        (0..IDENTITY_CACHE_MAX + 3).map(|_| wrap(input())).collect();
    for array in &arrays {
        assert!(apply_schema(array, &schema, &mut cache).is_ok());
    }
    assert_eq!(cache.len(), IDENTITY_CACHE_MAX);
    let KernelDataType::Struct(stype) = &schema else {
        panic!("the schema is a struct");
    };
    let fields = |i: usize| arrays[i].inner.as_struct().fields().clone();
    assert!(!cache.hit(&fields(0), stype));
    assert!(!cache.hit(&fields(2), stype));
    assert!(cache.hit(&fields(3), stype));
    assert!(cache.hit(&fields(IDENTITY_CACHE_MAX + 2), stype));
}

#[test]
fn a_verdict_is_handed_to_the_cache_by_the_caller() {
    let array = wrap(input());
    let schema = target();
    let mut cache = IdentityCache::new();
    assert!(apply_known(&array, &schema, &cache).is_none());
    let (out, verdict) = apply_unknown(&array, &schema);
    let out = out.unwrap().inner;
    cache.insert(verdict.unwrap());
    assert_eq!(cache.len(), 1);
    let again = apply_known(&array, &schema, &cache).unwrap().unwrap().inner;
    assert_eq!(out, again);

    let renamed = struct_of(vec![
        StructField::nullable("a2", integer()),
        StructField::nullable("b2", string()),
    ]);
    let (out, verdict) = apply_unknown(&array, &renamed);
    assert!(out.is_ok());
    cache.insert(verdict.unwrap());
    assert_eq!(cache.len(), 2);
    assert!(apply_known(&array, &renamed, &cache).is_none());

    let (out, verdict) = apply_unknown(&array, &integer());
    assert!(matches!(out, Err(Error::NotStructSchema)));
    assert!(verdict.is_none());
}

#[test]
fn the_first_shared_verdict_on_the_schema_counts() {
    let narrow = |name: &str| StructType { fields: vec![StructField::nullable(name, integer())] };
    let ints = wrap(StructArray::new(
        vec![Field::new("a", DataType::Int32, true)].into(),
        vec![Arc::new(Int32Array::from(vec![1]))],
        None,
    ));
    let mut cache = IdentityCache::new();
    for name in ["b", "a"] {
        let schema = KernelDataType::Struct(Box::new(narrow(name)));
        assert!(apply_schema(&ints, &schema, &mut cache).is_ok());
    }
    assert_eq!(cache.len(), 2);
    assert!(cache.hit_among(&vec![true, true], &narrow("a")));
    assert!(cache.hit_among(&vec![false, true], &narrow("a")));
    assert!(!cache.hit_among(&vec![true, false], &narrow("a")));
    assert!(!cache.hit_among(&vec![true, true], &narrow("b")));
    assert!(!cache.hit_among(&vec![true, true], &narrow("c")));
}

#[test]
fn a_hit_takes_the_array_over() {
    let sa = input();
    let array = wrap(sa.clone());
    assert!(take_over(&array, &target(), false).is_none());
    let out = take_over(&array, &target(), true).unwrap().unwrap().inner;
    assert_eq!(out, RecordBatch::from(sa));
}

#[test]
fn a_verdict_belongs_to_one_schema_in_every_detail() {
    let array = wrap(input());
    let mut cache = IdentityCache::new();
    assert!(apply_schema(&array, &target(), &mut cache).is_ok());
    let fields = array.inner.as_struct().fields().clone();
    let with_metadata = StructType {
        fields: vec![
            StructField::nullable("a", integer())
                .with_metadata(vec![("k".to_string(), MetadataValue::Number(1))]),
            StructField::nullable("b", string()),
        ],
    };
    assert!(!cache.hit(&fields, &with_metadata));
    let same_fields = input().fields().clone();
    let KernelDataType::Struct(stype) = target() else {
        panic!("the schema is a struct");
    };
    assert!(cache.hit(&fields, &stype));
    assert!(!cache.hit(&same_fields, &stype));
}

#[test]
fn an_array_that_arrow_would_not_rebuild_is_taken_over_on_a_hit() {
    let fields: Fields = vec![Field::new("n", DataType::Null, false)].into();
    let batch = |rows: usize| {
        let schema = Arc::new(Schema::new(fields.clone()));
        RecordBatch::try_new(schema, vec![Arc::new(NullArray::new(rows))]).unwrap()
    };
    let strict = struct_of(vec![StructField::not_null("n", primitive(PrimitiveType::Void))]);
    let mut cache = IdentityCache::new();
    let full = wrap(StructArray::from(batch(2)));
    assert!(matches!(apply_schema(&full, &strict, &mut cache), Err(Error::Arrow(_))));
    let empty = wrap(StructArray::from(batch(0)));
    assert!(apply_schema(&empty, &strict, &mut cache).is_ok());
    assert_eq!(apply_schema(&full, &strict, &mut cache).unwrap().inner.num_rows(), 2);
}

//! Record batches made of scalars.
use arrow::array::{ArrayRef, BooleanArray, Int32Array, RecordBatch, StringArray, StructArray};
use arrow::buffer::{BooleanBuffer, NullBuffer};
use arrow::datatypes::{DataType, Field, Fields, Schema};
use arrow_expression::error::Error;
use arrow_expression::handler::ArrowEvaluationHandler;
use arrow_expression::scalars::{Scalar, StructData};
use arrow_expression::schema::{
    ArrayType, KernelDataType, MetadataValue, PrimitiveType, StructField, StructType,
    NESTED_IDS_KEY,
};
use std::sync::Arc;

fn integer() -> KernelDataType {
    KernelDataType::Primitive(PrimitiveType::Integer)
}

fn string() -> KernelDataType {
    KernelDataType::Primitive(PrimitiveType::String)
}

fn struct_of(fields: Vec<StructField>) -> KernelDataType {
    KernelDataType::Struct(Box::new(StructType { fields }))
}

fn text(s: &str) -> Scalar {
    Scalar::String(s.to_string())
}

fn ints(values: Vec<Option<i32>>) -> ArrayRef {
    Arc::new(Int32Array::from(values))
}

fn texts(values: Vec<Option<&str>>) -> ArrayRef {
    Arc::new(StringArray::from(values))
}

fn assert_create_one(values: Vec<Scalar>, schema: &StructType, expected: RecordBatch) {
    let handler = ArrowEvaluationHandler;
    let actual = handler.create_one(schema, values).unwrap();
    assert_eq!(actual.inner, expected);
}

fn message<T>(result: Result<T, Error>) -> String {
    match result {
        Ok(_) => panic!("expected an error"),
        Err(e) => e.message(),
    }
}

fn assert_message_holds<T>(result: Result<T, Error>, expected: &str) {
    match result {
        Ok(_) => panic!("expected an error"),
        Err(e) => assert!(e.message().contains(expected), "{}", e.message()),
    }
}

#[test]
fn test_null_row() {
    let schema = StructType {
        fields: vec![
            StructField::nullable(
                "x",
                struct_of(vec![
                    StructField::nullable("a", integer()),
                    StructField::not_null("b", string()),
                ]),
            ),
            StructField::nullable("c", string()),
        ],
    };
    let handler = ArrowEvaluationHandler;
    let result = handler.null_row(&schema).unwrap();
    let inner: Fields = vec![
        Field::new("a", DataType::Int32, true),
        Field::new("b", DataType::Utf8, false),
    ]
    .into();
    let expected = RecordBatch::try_new(
        Arc::new(Schema::new(vec![
            Field::new("x", DataType::Struct(inner.clone()), true),
            Field::new("c", DataType::Utf8, true),
        ])),
        vec![Arc::new(StructArray::new_null(inner, 1)), texts(vec![None])],
    )
    .unwrap();
    assert_eq!(result.inner, expected);
}

#[test]
fn test_null_row_err() {
    let not_null_schema = StructType { fields: vec![StructField::not_null("a", string())] };
    let handler = ArrowEvaluationHandler;
    assert_message_holds(
        handler.null_row(&not_null_schema),
        "Invalid argument error: Column 'a' is declared as non-nullable but contains null values",
    );
}

#[test]
fn test_create_one() {
    let values = vec![
        Scalar::Integer(1),
        text("B"),
        Scalar::Integer(3),
        Scalar::Null(integer()),
    ];
    let schema = StructType {
        fields: vec![
            StructField::nullable("a", integer()),
            StructField::nullable("b", string()),
            StructField::not_null("c", integer()),
            StructField::nullable("d", integer()),
        ],
    };
    let expected_schema = Arc::new(Schema::new(vec![
        Field::new("a", DataType::Int32, true),
        Field::new("b", DataType::Utf8, true),
        Field::new("c", DataType::Int32, false),
        Field::new("d", DataType::Int32, true),
    ]));
    let expected = RecordBatch::try_new(
        expected_schema,
        vec![
            ints(vec![Some(1)]),
            texts(vec![Some("B")]),
            ints(vec![Some(3)]),
            ints(vec![None]),
        ],
    )
    .unwrap();
    assert_create_one(values, &schema, expected);
}

fn nested_schema() -> StructType {
    StructType {
        fields: vec![StructField::not_null(
            "a",
            struct_of(vec![
                StructField::nullable("b", integer()),
                StructField::not_null("c", integer()),
            ]),
        )],
    }
}

fn nested_expected(b: Option<i32>, c: Option<i32>) -> RecordBatch {
    let expected_schema = Arc::new(Schema::new(vec![Field::new(
        "a",
        DataType::Struct(
            vec![
                Field::new("b", DataType::Int32, true),
                Field::new("c", DataType::Int32, false),
            ]
            .into(),
        ),
        false,
    )]));
    RecordBatch::try_new(
        expected_schema,
        vec![Arc::new(StructArray::from(vec![
            (Arc::new(Field::new("b", DataType::Int32, true)), ints(vec![b])),
            (Arc::new(Field::new("c", DataType::Int32, false)), ints(vec![c])),
        ]))],
    )
    .unwrap()
}

#[test]
fn test_create_one_nested() {
    let values = vec![Scalar::Integer(1), Scalar::Integer(2)];
    assert_create_one(values, &nested_schema(), nested_expected(Some(1), Some(2)));
}

#[test]
fn test_create_one_nested_null() {
    let values = vec![Scalar::Null(integer()), Scalar::Integer(1)];
    assert_create_one(values, &nested_schema(), nested_expected(None, Some(1)));
}

#[test]
fn test_create_one_mismatching_scalar_types() {
    let values = vec![Scalar::Long(10)];
    let schema = StructType { fields: vec![StructField::not_null("version", integer())] };
    let handler = ArrowEvaluationHandler;
    assert_message_holds(
        handler.create_one(&schema, values),
        "Schema error: Mismatched scalar type while creating Expression: expected Integer, got Long",
    );
}

#[test]
fn test_create_one_not_null_struct() {
    let values = vec![Scalar::Null(integer()), Scalar::Null(integer())];
    let schema = StructType {
        fields: vec![StructField::not_null(
            "a",
            struct_of(vec![
                StructField::not_null("b", integer()),
                StructField::nullable("c", integer()),
            ]),
        )],
    };
    let handler = ArrowEvaluationHandler;
    assert_message_holds(
        handler.create_one(&schema, values),
        "Column 'a' is declared as non-nullable but contains null values",
    );
}

#[test]
fn test_create_one_top_level_null() {
    let values = vec![Scalar::Null(integer())];
    let handler = ArrowEvaluationHandler;
    let schema = StructType { fields: vec![StructField::not_null("col_1", integer())] };
    assert_message_holds(
        handler.create_one(&schema, values),
        "Column 'col_1' is declared as non-nullable but contains null values",
    );
}

fn assert_create_many(rows: &[&[Scalar]], schema: &StructType, expected: RecordBatch) {
    let handler = ArrowEvaluationHandler;
    let actual = handler.create_many(schema, rows).unwrap();
    assert_eq!(actual.inner, expected);
}

#[test]
fn test_create_many_multiple_rows() {
    let row1: &[Scalar] = &[Scalar::Integer(1), text("A")];
    let row2: &[Scalar] = &[Scalar::Integer(2), text("B")];
    let row3: &[Scalar] = &[Scalar::Null(integer()), text("C")];
    let schema = StructType {
        fields: vec![
            StructField::nullable("id", integer()),
            StructField::nullable("name", string()),
        ],
    };
    let expected_schema = Arc::new(Schema::new(vec![
        Field::new("id", DataType::Int32, true),
        Field::new("name", DataType::Utf8, true),
    ]));
    let expected = RecordBatch::try_new(
        expected_schema,
        vec![
            ints(vec![Some(1), Some(2), None]),
            texts(vec![Some("A"), Some("B"), Some("C")]),
        ],
    )
    .unwrap();
    assert_create_many(&[row1, row2, row3], &schema, expected);
}

fn two_fields() -> StructType {
    StructType {
        fields: vec![
            StructField::nullable("a", integer()),
            StructField::nullable("b", string()),
        ],
    }
}

#[test]
fn test_create_many_empty_rows_returns_zero_row_batch() {
    let handler = ArrowEvaluationHandler;
    let rb = handler.create_many(&two_fields(), &[]).unwrap().inner;
    assert_eq!(rb.num_rows(), 0);
    assert_eq!(rb.num_columns(), 2);
}

#[test]
fn test_create_many_wrong_field_count_returns_error() {
    let bad_row: &[Scalar] = &[Scalar::Integer(1), text("x"), Scalar::Integer(99)];
    let handler = ArrowEvaluationHandler;
    assert_message_holds(
        handler.create_many(&two_fields(), &[bad_row]),
        "Row 0 has 3 scalars but schema has 2 fields",
    );
}

#[test]
fn test_create_many_wrong_field_type_returns_error() {
    let good_row: &[Scalar] = &[Scalar::Integer(1), text("x")];
    let bad_row: &[Scalar] = &[Scalar::Long(1), text("y")];
    let handler = ArrowEvaluationHandler;
    assert_message_holds(
        handler.create_many(&two_fields(), &[good_row, bad_row]),
        "Row 1, field 'a' (expected type integer, got long): Invalid expression evaluation: Invalid builder for long",
    );
}

#[test]
fn test_create_many_single_row_matches_create_one() {
    let values = || vec![Scalar::Integer(1), text("hello"), Scalar::Null(integer())];
    let schema = StructType {
        fields: vec![
            StructField::nullable("a", integer()),
            StructField::nullable("b", string()),
            StructField::nullable("c", integer()),
        ],
    };
    let handler = ArrowEvaluationHandler;
    let from_one = handler.create_one(&schema, values()).unwrap().inner;
    let row = values();
    let from_many = handler.create_many(&schema, &[row.as_slice()]).unwrap().inner;
    assert_eq!(from_one, from_many);
}

#[test]
fn test_create_many_nested_struct() {
    let inner_type = struct_of(vec![
        StructField::nullable("x", integer()),
        StructField::nullable("y", string()),
    ]);
    let schema = StructType {
        fields: vec![
            StructField::nullable("inner", inner_type.clone()),
            StructField::nullable("flag", KernelDataType::Primitive(PrimitiveType::Boolean)),
        ],
    };
    let row1: &[Scalar] = &[
        Scalar::Struct(
            StructData::try_new(
                vec![
                    StructField::nullable("x", integer()),
                    StructField::nullable("y", string()),
                ],
                vec![Scalar::Integer(10), text("hello")],
            )
            .unwrap(),
        ),
        Scalar::Boolean(true),
    ];
    let row2: &[Scalar] = &[Scalar::Null(inner_type), Scalar::Boolean(false)];

    let arrow_inner_fields: Fields = vec![
        Field::new("x", DataType::Int32, true),
        Field::new("y", DataType::Utf8, true),
    ]
    .into();
    let expected_schema = Arc::new(Schema::new(vec![
        Field::new("inner", DataType::Struct(arrow_inner_fields.clone()), true),
        Field::new("flag", DataType::Boolean, true),
    ]));
    let inner_col = Arc::new(StructArray::new(
        arrow_inner_fields,
        vec![ints(vec![Some(10), None]), texts(vec![Some("hello"), None])],
        Some(NullBuffer::from(BooleanBuffer::from(vec![true, false]))),
    ));
    let expected = RecordBatch::try_new(
        expected_schema,
        vec![inner_col, Arc::new(BooleanArray::from(vec![true, false]))],
    )
    .unwrap();
    assert_create_many(&[row1, row2], &schema, expected);
}

#[test]
fn a_null_among_values_in_a_strict_field_is_refused() {
    let values = vec![Scalar::Integer(1), Scalar::Null(integer())];
    let handler = ArrowEvaluationHandler;
    let result = handler.create_one(&nested_schema(), values);
    assert!(matches!(result, Err(Error::NullInStruct)));
}

#[test]
fn leaf_values_have_to_match_the_leaves_in_number() {
    let handler = ArrowEvaluationHandler;
    let result = handler.create_one(&nested_schema(), vec![Scalar::Integer(1)]);
    assert!(matches!(result, Err(Error::TooFewScalars)));
    let values = vec![Scalar::Integer(1), Scalar::Integer(2), Scalar::Integer(3)];
    let result = handler.create_one(&nested_schema(), values);
    assert!(matches!(result, Err(Error::TooManyScalars)));
}

#[test]
fn the_first_odd_row_is_reported_before_anything_else() {
    let good: &[Scalar] = &[Scalar::Long(1), text("x")];
    let short: &[Scalar] = &[Scalar::Integer(1)];
    let handler = ArrowEvaluationHandler;
    let result = handler.create_many(&two_fields(), &[good, short, short]);
    assert!(matches!(result, Err(Error::RowLength { row: 1, scalars: 1, fields: 2 })));
}

#[test]
fn columns_are_tried_from_left_to_right() {
    let row1: &[Scalar] = &[Scalar::Integer(1), Scalar::Integer(2)];
    let row2: &[Scalar] = &[text("x"), text("y")];
    let handler = ArrowEvaluationHandler;
    match handler.create_many(&two_fields(), &[row1, row2]) {
        Err(Error::RowScalar { row, field, .. }) => assert_eq!((row, field.as_str()), (1, "a")),
        _ => panic!("expected an error in the first column"),
    }
}

#[test]
fn a_struct_with_too_few_fields_is_refused() {
    let schema = StructType {
        fields: vec![StructField::nullable(
            "s",
            struct_of(vec![StructField::nullable("x", integer())]),
        )],
    };
    let row: &[Scalar] = &[Scalar::Null(struct_of(vec![]))];
    let handler = ArrowEvaluationHandler;
    match handler.create_many(&schema, &[row]) {
        Err(Error::RowScalar { cause, .. }) => {
            assert!(matches!(*cause, Error::WrongFieldCount));
            assert_eq!(cause.message(), "Struct builder has wrong number of fields");
        }
        _ => panic!("expected an error"),
    }
}

#[test]
fn a_struct_value_with_another_number_of_fields_is_refused() {
    let two = vec![StructField::nullable("x", integer()), StructField::nullable("y", integer())];
    let schema = StructType { fields: vec![StructField::nullable("s", struct_of(two))] };
    let value = StructData::try_new(
        vec![StructField::nullable("x", integer())],
        vec![Scalar::Integer(1)],
    )
    .unwrap();
    let row: &[Scalar] = &[Scalar::Struct(value)];
    match ArrowEvaluationHandler.create_many(&schema, &[row]) {
        Err(Error::RowScalar { row, field, cause, .. }) => {
            assert_eq!((row, field.as_str()), (0, "s"));
            assert!(matches!(*cause, Error::WrongFieldCount));
        }
        _ => panic!("expected an error"),
    }
}

#[test]
fn a_table_without_columns_is_refused_by_arrow() {
    let handler = ArrowEvaluationHandler;
    let row: &[Scalar] = &[];
    let schema = StructType { fields: vec![] };
    let expected = "Arrow error: Invalid argument error: \
        must either specify a row count or at least one column";
    assert_eq!(message(handler.create_many(&schema, &[row])), expected);
    assert_eq!(message(handler.create_one(&schema, vec![])), expected);
    assert_eq!(message(handler.null_row(&schema)), expected);
}

#[test]
fn the_first_strict_field_that_is_null_is_named() {
    let void = || KernelDataType::Primitive(PrimitiveType::Void);
    let schema = StructType {
        fields: vec![
            StructField::not_null("none", void()),
            StructField::nullable("free", integer()),
            StructField::not_null("first", string()),
            StructField::not_null("second", integer()),
        ],
    };
    let expected = "Arrow error: Invalid argument error: \
        Column 'first' is declared as non-nullable but contains null values";
    let nulls = || {
        vec![
            Scalar::Null(void()),
            Scalar::Null(integer()),
            Scalar::Null(string()),
            Scalar::Null(integer()),
        ]
    };
    let handler = ArrowEvaluationHandler;
    assert_eq!(message(handler.null_row(&schema)), expected);
    assert_eq!(message(handler.create_one(&schema, nulls())), expected);
    let full = vec![Scalar::Null(void()), Scalar::Integer(1), text("x"), Scalar::Integer(2)];
    let row = nulls();
    assert_eq!(message(handler.create_many(&schema, &[&full, &row])), expected);

    let later = vec![Scalar::Null(void()), Scalar::Integer(1), text("x"), Scalar::Null(integer())];
    assert_message_holds(
        handler.create_many(&schema, &[&full, &later]),
        "Column 'second' is declared as non-nullable but contains null values",
    );
}

#[test]
fn a_strict_field_of_the_null_type_may_be_null() {
    let void = KernelDataType::Primitive(PrimitiveType::Void);
    let schema = StructType { fields: vec![StructField::not_null("none", void)] };
    let batch = ArrowEvaluationHandler.null_row(&schema).unwrap();
    assert_eq!(batch.inner.num_rows(), 1);
    assert_eq!(batch.inner.column(0).data_type(), &DataType::Null);
}

#[test]
fn a_null_row_has_no_field_ids_inside_lists() {
    let list = KernelDataType::Array(Box::new(ArrayType {
        element_type: integer(),
        contains_null: true,
    }));
    let ids = MetadataValue::Other(r#"{"ids.element":30}"#.to_string());
    let field = StructField::nullable("ids", list)
        .with_metadata(vec![(NESTED_IDS_KEY.to_string(), ids)]);
    let schema = StructType { fields: vec![field] };
    assert_eq!(
        message(ArrowEvaluationHandler.null_row(&schema)),
        "Arrow error: Invalid argument error: column types must match schema types, \
         expected List(Int32, field: 'element', metadata: {\"PARQUET:field_id\": \"30\"}) \
         but found List(Int32, field: 'element') at column index 0",
    );
}

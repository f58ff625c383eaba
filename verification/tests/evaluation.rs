//! Evaluating expressions and predicates.
use arrow::array::{
    Array, ArrayRef, AsArray, BooleanArray, GenericStringArray, Int32Array, RecordBatch,
    StringArray, StringViewArray, StructArray,
};
use arrow::datatypes::{DataType, Field, Fields, Int32Type, Schema};
use arrow_expression::arrow_arrays::{ArrowArray, ArrowBatch};
use arrow_expression::error::Error;
use arrow_expression::evaluate::{
    evaluate_expression, extract_column, Expression, JunctionOp, Predicate,
};
use arrow_expression::handler::ArrowEvaluationHandler;
use arrow_expression::identity::{apply_schema, IdentityCache};
use arrow_expression::predicates::evaluate_predicate;
use arrow_expression::scalars::Scalar;
use arrow_expression::schema::{KernelDataType, PrimitiveType, StructField, StructType};
use std::sync::Arc;

fn integer() -> KernelDataType {
    KernelDataType::Primitive(PrimitiveType::Integer)
}

fn string() -> KernelDataType {
    KernelDataType::Primitive(PrimitiveType::String)
}

fn struct_of(fields: Vec<StructField>) -> KernelDataType {
    KernelDataType::Struct(Box::new(StructType { fields }))
}

fn path(names: &[&str]) -> Vec<String> {
    names.iter().map(|n| n.to_string()).collect()
}

fn column(names: &[&str]) -> Expression {
    Expression::Column(path(names))
}

fn wrap(inner: RecordBatch) -> ArrowBatch {
    ArrowBatch { inner }
}

fn evaluated(
    expression: Expression,
    output_type: KernelDataType,
    batch: &ArrowBatch,
) -> Result<RecordBatch, Error> {
    let handler = ArrowEvaluationHandler;
    let schema = StructType { fields: vec![] };
    let mut evaluator = handler.new_expression_evaluator(schema, expression, output_type).unwrap();
    evaluator.evaluate(batch, &mut IdentityCache::new()).map(|b| b.inner)
}

#[test]
fn test_extract_column() {
    let schema = Schema::new(vec![Field::new("a", DataType::Int32, false)]);
    let values = Int32Array::from(vec![1, 2, 3]);
    let batch = wrap(
        RecordBatch::try_new(Arc::new(schema.clone()), vec![Arc::new(values.clone())]).unwrap(),
    );
    let results = evaluate_expression(&column(&["a"]), &batch, None).unwrap().inner;
    assert_eq!(results.as_primitive::<Int32Type>(), &values);

    let schema = Schema::new(vec![Field::new(
        "b",
        DataType::Struct(Fields::from(vec![Field::new("a", DataType::Int32, false)])),
        false,
    )]);
    let struct_values: ArrayRef = Arc::new(values.clone());
    let struct_array = StructArray::from(vec![(
        Arc::new(Field::new("a", DataType::Int32, false)),
        struct_values,
    )]);
    let batch = wrap(
        RecordBatch::try_new(Arc::new(schema.clone()), vec![Arc::new(struct_array.clone())])
            .unwrap(),
    );
    let results = evaluate_expression(&column(&["b", "a"]), &batch, None).unwrap().inner;
    assert_eq!(results.as_primitive::<Int32Type>(), &values);
}

#[test]
fn test_logical() {
    let t = Some(true);
    let f = Some(false);
    let n = None;

    let schema = Schema::new(vec![
        Field::new("a", DataType::Boolean, false),
        Field::new("b", DataType::Boolean, true),
    ]);
    let batch = wrap(
        RecordBatch::try_new(
            Arc::new(schema.clone()),
            vec![
                Arc::new(BooleanArray::from(vec![t, t, f, f, t, f])),
                Arc::new(BooleanArray::from(vec![t, f, t, f, n, n])),
            ],
        )
        .unwrap(),
    );
    let column_a = || Predicate::BooleanExpression(column(&["a"]));
    let column_b = || Predicate::BooleanExpression(column(&["b"]));
    let literal = |v: bool| {
        Predicate::BooleanExpression(Expression::Literal(Scalar::Boolean(v)))
    };
    let results = |p: &Predicate, inverted: bool| {
        let array = evaluate_predicate(p, &batch, inverted).unwrap().inner;
        array.as_boolean().clone()
    };

    let pred_and_col = Predicate::Junction(JunctionOp::And, vec![column_a(), column_b()]);
    assert_eq!(results(&pred_and_col, false), BooleanArray::from(vec![t, f, f, f, n, f]));

    let pred_and_lit = Predicate::Junction(JunctionOp::And, vec![column_a(), literal(true)]);
    assert_eq!(results(&pred_and_lit, false), BooleanArray::from(vec![t, t, f, f, t, f]));

    let pred_or_col = Predicate::Junction(JunctionOp::Or, vec![column_a(), column_b()]);
    assert_eq!(results(&pred_or_col, false), BooleanArray::from(vec![t, t, t, f, t, n]));

    let pred_or_lit = Predicate::Junction(JunctionOp::Or, vec![column_a(), literal(false)]);
    assert_eq!(results(&pred_or_lit, false), BooleanArray::from(vec![t, t, f, f, t, f]));

    assert_eq!(results(&pred_and_col, true), BooleanArray::from(vec![f, t, t, t, n, t]));
    assert_eq!(results(&pred_and_lit, true), BooleanArray::from(vec![f, f, t, t, f, t]));
    assert_eq!(results(&pred_or_col, true), BooleanArray::from(vec![f, f, f, t, f, n]));
    assert_eq!(results(&pred_or_lit, true), BooleanArray::from(vec![f, f, t, t, f, t]));
}

fn make_mixed_string_batch() -> RecordBatch {
    RecordBatch::try_new(
        Arc::new(Schema::new(vec![
            Field::new("s_utf8", DataType::Utf8, true),
            Field::new("s_large", DataType::LargeUtf8, true),
            Field::new("s_view", DataType::Utf8View, true),
        ])),
        vec![
            Arc::new(StringArray::from(vec!["a"])) as ArrayRef,
            Arc::new(GenericStringArray::<i64>::from(vec!["b"])) as ArrayRef,
            Arc::new(StringViewArray::from(vec!["c"])) as ArrayRef,
        ],
    )
    .unwrap()
}

fn mixed_string_kernel_fields() -> Vec<StructField> {
    vec![
        StructField::nullable("s_utf8", string()),
        StructField::nullable("s_large", string()),
        StructField::nullable("s_view", string()),
    ]
}

#[test]
fn test_evaluator_mixed_string_types_identity_transform() {
    let batch = wrap(make_mixed_string_batch());
    let fields = mixed_string_kernel_fields();
    let input_schema = StructType { fields: fields.clone() };
    let output_type = struct_of(fields);
    let handler = ArrowEvaluationHandler;
    let expression = Expression::StructPatch { input_path: None };
    let mut evaluator =
        handler.new_expression_evaluator(input_schema, expression, output_type).unwrap();
    let out = evaluator.evaluate(&batch, &mut IdentityCache::new()).unwrap().inner;
    assert_eq!(out, make_mixed_string_batch());
}

#[test]
fn test_evaluator_mixed_string_types_struct_expression() {
    let inner_batch = make_mixed_string_batch();
    let inner_struct: ArrayRef = Arc::new(StructArray::from(inner_batch));
    let inner_arrow_type = inner_struct.data_type().clone();
    let batch = wrap(
        RecordBatch::try_new(
            Arc::new(Schema::new(vec![Field::new("st", inner_arrow_type, false)])),
            vec![inner_struct],
        )
        .unwrap(),
    );
    let fields = mixed_string_kernel_fields();
    let input_schema =
        StructType { fields: vec![StructField::not_null("st", struct_of(fields.clone()))] };
    let output_type = struct_of(fields);
    let handler = ArrowEvaluationHandler;
    let mut evaluator = handler
        .new_expression_evaluator(input_schema, column(&["st"]), output_type)
        .unwrap();
    let out = evaluator.evaluate(&batch, &mut IdentityCache::new()).unwrap().inner;
    assert_eq!(out, make_mixed_string_batch());
}

#[test]
fn evaluator_identity_memo_matches_the_full_transform() {
    let kschema = StructType {
        fields: vec![
            StructField::nullable("a", integer()),
            StructField::nullable("b", string()),
        ],
    };
    let out_type = struct_of(vec![StructField::nullable("a", integer())]);
    let handler = ArrowEvaluationHandler;
    let mut cache = IdentityCache::new();
    let mut eval = handler
        .new_expression_evaluator(kschema, Expression::Struct(vec![column(&["a"])]), out_type)
        .unwrap();

    let schema = Arc::new(Schema::new(vec![
        Field::new("a", DataType::Int32, true),
        Field::new("b", DataType::Utf8, true),
    ]));
    let mk = |vals: Vec<i32>| {
        let n = vals.len();
        wrap(
            RecordBatch::try_new(
                schema.clone(),
                vec![
                    Arc::new(Int32Array::from(vals)),
                    Arc::new(StringArray::from(vec!["x"; n])),
                ],
            )
            .unwrap(),
        )
    };

    let r1 = eval.evaluate(&mk(vec![1, 2, 3]), &mut cache).unwrap().inner;
    let seen = cache.len();
    let r2 = eval.evaluate(&mk(vec![4, 5]), &mut cache).unwrap().inner;
    assert_eq!(cache.len(), seen);
    assert_eq!(r1.schema(), r2.schema(), "memoized path must produce the identical schema");
    assert_eq!(r2.num_rows(), 2);
    let col = r2.column(0).as_primitive::<Int32Type>();
    assert_eq!(col.values(), &[4, 5], "values must pass through the fast path untouched");

    let other_schema = Arc::new(Schema::new(vec![
        Field::new("a", DataType::Int32, true),
        Field::new("b", DataType::Utf8, true),
    ]));
    let b3 = wrap(
        RecordBatch::try_new(
            other_schema,
            vec![
                Arc::new(Int32Array::from(vec![7])),
                Arc::new(StringArray::from(vec!["y"])),
            ],
        )
        .unwrap(),
    );
    let r3 = eval.evaluate(&b3, &mut cache).unwrap().inner;
    assert_eq!(cache.len(), seen + 1);
    assert_eq!(r3.schema(), r1.schema());
    assert_eq!(r3.num_rows(), 1);
}

fn small_batch() -> ArrowBatch {
    let inner = StructArray::from(vec![(
        Arc::new(Field::new("c", DataType::Utf8, true)),
        Arc::new(StringArray::from(vec![Some("x"), None])) as ArrayRef,
    )]);
    wrap(
        RecordBatch::try_new(
            Arc::new(Schema::new(vec![
                Field::new("a", DataType::Int32, true),
                Field::new("s", inner.data_type().clone(), true),
            ])),
            vec![Arc::new(Int32Array::from(vec![Some(1), None])), Arc::new(inner)],
        )
        .unwrap(),
    )
}

#[test]
fn a_value_that_is_no_struct_becomes_one_column() {
    let out = evaluated(column(&["a"]), integer(), &small_batch()).unwrap();
    let expected = RecordBatch::try_new(
        Arc::new(Schema::new(vec![Field::new("output", DataType::Int32, true)])),
        vec![Arc::new(Int32Array::from(vec![Some(1), None]))],
    )
    .unwrap();
    assert_eq!(out, expected);

    let literal = Expression::Literal(Scalar::String("v".to_string()));
    let out = evaluated(literal, string(), &small_batch()).unwrap();
    assert_eq!(out.column(0).as_string::<i32>(), &StringArray::from(vec!["v", "v"]));

    let widened = evaluated(
        column(&["a"]),
        KernelDataType::Primitive(PrimitiveType::Long),
        &small_batch(),
    );
    assert!(matches!(widened, Err(Error::Arrow(_))));
}

#[test]
fn structs_are_renamed_to_the_output_type() {
    let output_type = struct_of(vec![
        StructField::nullable("x", integer()),
        StructField::nullable("y", string()),
    ]);
    let expression = Expression::Struct(vec![
        column(&["a"]),
        Expression::Struct(vec![]),
    ]);
    let refused = evaluated(expression, output_type.clone(), &small_batch());
    assert!(matches!(refused, Err(Error::StructTypeRequired)));

    let expression = Expression::Struct(vec![column(&["a"]), column(&["s", "c"])]);
    let out = evaluated(expression, output_type, &small_batch()).unwrap();
    assert_eq!(out.schema().field(0).name(), "x");
    assert_eq!(out.schema().field(1).name(), "y");
    assert_eq!(out.column(1).as_string::<i32>(), &StringArray::from(vec![Some("x"), None]));
}

#[test]
fn an_empty_patch_applies_the_schema_at_its_path() {
    let output_type = struct_of(vec![StructField::nullable("renamed", string())]);
    let patch = Expression::StructPatch { input_path: Some(path(&["s"])) };
    let out = evaluated(patch, output_type, &small_batch()).unwrap();
    assert_eq!(out.schema().field(0).name(), "renamed");
    assert_eq!(out.num_rows(), 2);

    let patch = Expression::StructPatch { input_path: None };
    let refused = evaluated(patch, integer(), &small_batch());
    assert!(matches!(refused, Err(Error::StructTypeRequired)));
}

#[test]
fn columns_that_are_not_there_are_reported() {
    let message = |names: &[&str]| {
        extract_column(&small_batch(), &path(names)).err().unwrap().message()
    };
    assert_eq!(message(&[]), "Empty column path");
    assert_eq!(message(&["z"]), "No such field: z");
    assert_eq!(message(&["s", "z"]), "No such field: z");
    assert_eq!(message(&["a", "b"]), "Not a struct: b");
}

#[test]
fn predicates_give_one_column_of_truth_values() {
    let handler = ArrowEvaluationHandler;
    let schema = || StructType { fields: vec![] };
    let empty = Predicate::Junction(JunctionOp::Or, vec![]);
    let evaluator = handler.new_predicate_evaluator(schema(), empty).unwrap();
    let out = evaluator.evaluate(&small_batch()).unwrap().inner;
    assert_eq!(
        out.schema().as_ref(),
        &Schema::new(vec![Field::new("output", DataType::Boolean, true)])
    );
    assert_eq!(out.column(0).as_boolean(), &BooleanArray::from(vec![false, false]));

    let inverted = Predicate::Not(Box::new(Predicate::Junction(JunctionOp::Or, vec![])));
    let evaluator = handler.new_predicate_evaluator(schema(), inverted).unwrap();
    let out = evaluator.evaluate(&small_batch()).unwrap().inner;
    assert_eq!(out.column(0).as_boolean(), &BooleanArray::from(vec![true, true]));

    let unknown = Predicate::BooleanExpression(Expression::Literal(Scalar::Null(
        KernelDataType::Primitive(PrimitiveType::Boolean),
    )));
    let evaluator = handler.new_predicate_evaluator(schema(), unknown).unwrap();
    let out = evaluator.evaluate(&small_batch()).unwrap().inner;
    assert_eq!(out.column(0).null_count(), 2);

    let number = Predicate::BooleanExpression(column(&["a"]));
    let evaluator = handler.new_predicate_evaluator(schema(), number).unwrap();
    let refused = evaluator.evaluate(&small_batch());
    assert!(matches!(refused, Err(Error::NotBoolean)));
}

#[test]
fn an_evaluated_array_is_brought_in_line_with_the_output_type() {
    let handler = ArrowEvaluationHandler;
    let mut cache = IdentityCache::new();
    let none = || StructType { fields: vec![] };
    let batch = small_batch();
    let ints: ArrayRef = Arc::new(Int32Array::from(vec![Some(8), None]));
    let array = |inner: &ArrayRef| ArrowArray { inner: inner.clone() };

    let mut evaluator =
        handler.new_expression_evaluator(none(), column(&["a"]), integer()).unwrap();
    let out = evaluator.apply_output(&batch, array(&ints), &mut cache).unwrap().inner;
    assert_eq!(out.schema().field(0).name(), "output");
    assert_eq!(out.column(0), &ints);

    let t = struct_of(vec![StructField::nullable("x", integer())]);
    let mut evaluator = handler.new_expression_evaluator(none(), column(&["s"]), t).unwrap();
    let refused = evaluator.apply_output(&batch, array(&ints), &mut cache);
    assert!(matches!(refused, Err(Error::NotStructArray)));
    let whole: ArrayRef = Arc::new(StructArray::from(vec![(
        Arc::new(Field::new("x", DataType::Int32, true)),
        ints.clone(),
    )]));
    let out = evaluator.apply_output(&batch, array(&whole), &mut cache).unwrap().inner;
    assert_eq!(out.column(0), &ints);
    let refused = evaluator.apply_output(&batch, array(&ints), &mut cache);
    assert!(matches!(refused, Err(Error::NotStructOutput)));
}

#[test]
fn a_remembered_batch_does_not_speak_of_other_evaluated_fields() {
    let nested = |nullable: bool| -> Fields {
        vec![Field::new("s", DataType::Int32, nullable)].into()
    };
    let schema = Arc::new(Schema::new(vec![Field::new(
        "st",
        DataType::Struct(nested(true)),
        true,
    )]));
    let batch = |nullable: bool| {
        let st =
            StructArray::new(nested(nullable), vec![Arc::new(Int32Array::from(vec![7]))], None);
        let own = Schema::new(vec![Field::new("st", st.data_type().clone(), true)]);
        let plain = RecordBatch::try_new(Arc::new(own), vec![Arc::new(st)]).unwrap();
        wrap(plain.with_schema(schema.clone()).unwrap())
    };
    let t = struct_of(vec![StructField::nullable("s", integer())]);
    let mut evaluator = ArrowEvaluationHandler
        .new_expression_evaluator(StructType { fields: vec![] }, column(&["st"]), t)
        .unwrap();
    let mut cache = IdentityCache::new();
    let first = evaluator.evaluate(&batch(true), &mut cache).unwrap().inner;
    let second = evaluator.evaluate(&batch(false), &mut cache).unwrap().inner;
    assert!(first.schema().field(0).is_nullable());
    assert_eq!(first, second);
}

#[test]
fn an_empty_patch_keeps_the_rows_and_values() {
    let output_type = struct_of(vec![
        StructField::nullable("p", integer()),
        StructField::nullable("q", struct_of(vec![StructField::nullable("r", string())])),
    ]);
    let patch = Expression::StructPatch { input_path: None };
    let batch = small_batch();
    let out = evaluated(patch, output_type.clone(), &batch).unwrap();
    assert_eq!(out.num_rows(), 2);
    assert_eq!(out.column(0), batch.inner.column(0));
    let array = ArrowArray { inner: Arc::new(StructArray::from(batch.inner.clone())) };
    let applied = apply_schema(&array, &output_type, &mut IdentityCache::new()).unwrap().inner;
    assert_eq!(out, applied);
}

# arrow_expression

Expression handling on Apache Arrow data, with contracts that Verus proves.

* Scalars become Arrow arrays: `Scalar::to_array`, `ArrayData::to_arrow` (`src/to_array.rs`, on top of
  `src/append.rs`).
* Rows of scalars become record batches: `ArrowEvaluationHandler::create_many`, `create_one` and
  `null_row` (`src/handler.rs`, `src/create_one.rs`).
* Arrow data is brought in line with a kernel schema: `apply_schema` and `apply_schema_to`
  (`src/apply_schema.rs`), with a cache of the schemas that change nothing (`src/identity.rs`).
* Expressions and predicates are evaluated on record batches (`src/evaluate.rs`,
  `src/predicates.rs`, `src/evaluators.rs`).

Contracts speak of the mathematical model in `src/model.rs`: a column is what an Arrow array holds,
child by child. What is believed of Arrow stands in `src/arrow_types.rs`, `src/arrow_arrays.rs` and
`src/arrow_builders.rs`, and what is believed of serde_json in `src/metadata.rs`, each with a comment
that names the function and says what is claimed of it.

General properties are public proof functions whose names begin with `law_`.

`app/` holds what the verified library cannot: executors for asynchronous work and the identity cache
that a process shares.

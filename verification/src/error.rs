//! What can go wrong.
use crate::arrow_types::type_of;
use crate::model::ArrowType;
use crate::schema::{KernelDataType, TypeView};
use arrow::error::ArrowError;
use vstd::prelude::*;

verus! {

/// An error of this library, or one that Arrow reported.
#[derive(Debug)]
pub enum Error {
    /// The builder is not one for values of this type.
    InvalidBuilder(KernelDataType),
    /// A struct builder has more or fewer fields than the struct value.
    WrongFieldCount,
    /// Variant values cannot be written as scalars.
    UnsupportedVariant,
    /// A row does not hold one scalar per field of the schema.
    RowLength { row: usize, scalars: usize, fields: usize },
    /// A scalar of a row cannot be written to its column.
    RowScalar {
        row: usize,
        field: String,
        expected: KernelDataType,
        actual: KernelDataType,
        cause: Box<Error>,
    },
    /// A schema is applied at the top level, and it is not a struct.
    NotStructSchema,
    /// A struct type is applied to an array that is not a struct array.
    NotStructArray,
    /// A list type is applied to an array that is not a list array.
    NotListArray,
    /// A map type is applied to an array that is not a map array.
    NotMapArray,
    /// The data carries another field id than the schema.
    FieldIdConflict { field: String, input_id: String, target_id: String },
    /// The schema has another number of fields than the struct array has columns.
    ColumnCount { input: usize, transformed: usize },
    /// The entries of a map array are not made of a key and a value column.
    MapEntryColumns(usize),
    /// The nested field ids of a field are not a JSON object.
    NestedIdsNotObject(String),
    /// The nested field id at a path is not an integer.
    NestedIdNotInteger { field: String, path: String },
    /// The data has a type that cannot be read as the kernel type.
    IncorrectType { expected: KernelDataType, found: arrow::datatypes::DataType },
    /// An expression of struct type was evaluated to an array that is not a struct array.
    NotStructOutput,
    /// A leaf value of a row has another type than its leaf field.
    MismatchedScalar { expected: KernelDataType, actual: KernelDataType },
    /// A null stands in a non-nullable field of a struct that holds other values.
    NullInStruct,
    /// A row has fewer leaf values than the schema has leaf fields.
    TooFewScalars,
    /// A row has more leaf values than the schema has leaf fields.
    TooManyScalars,
    /// A struct value does not hold one value per field.
    StructLength { fields: usize, values: usize },
    /// A part of a value has another type than the value declares for it.
    PartType { expected: KernelDataType, actual: KernelDataType },
    /// A part of a value is null, and the value's type does not admit that.
    NullPart,
    /// A column path has no steps.
    EmptyColumnPath,
    /// There is no column of this name.
    NoSuchField(String),
    /// The column of this name is not a struct.
    NotAStruct(String),
    /// A struct is to be evaluated where no struct is asked for.
    StructTypeRequired,
    /// A predicate was evaluated to an array that does not hold truth values.
    NotBoolean,
    /// Arrow refused an operation.
    Arrow(ArrowError),
}

/// What an [`Error`] says. Of an error that Arrow reported only the origin is kept.
pub enum ErrorView {
    InvalidBuilder(TypeView),
    WrongFieldCount,
    UnsupportedVariant,
    RowLength { row: nat, scalars: nat, fields: nat },
    RowScalar {
        row: nat,
        field: Seq<char>,
        expected: TypeView,
        actual: TypeView,
        cause: Box<ErrorView>,
    },
    NotStructSchema,
    NotStructArray,
    NotListArray,
    NotMapArray,
    FieldIdConflict { field: Seq<char>, input_id: Seq<char>, target_id: Seq<char> },
    ColumnCount { input: nat, transformed: nat },
    MapEntryColumns(nat),
    NestedIdsNotObject(Seq<char>),
    NestedIdNotInteger { field: Seq<char>, path: Seq<char> },
    IncorrectType { expected: TypeView, found: ArrowType },
    NotStructOutput,
    MismatchedScalar { expected: TypeView, actual: TypeView },
    NullInStruct,
    TooFewScalars,
    TooManyScalars,
    StructLength { fields: nat, values: nat },
    PartType { expected: TypeView, actual: TypeView },
    NullPart,
    EmptyColumnPath,
    NoSuchField(Seq<char>),
    NotAStruct(Seq<char>),
    StructTypeRequired,
    NotBoolean,
    Arrow,
}

pub open spec fn error_view(e: Error) -> ErrorView
    decreases e,
{
    match e {
        Error::InvalidBuilder(t) => ErrorView::InvalidBuilder(t@),
        Error::WrongFieldCount => ErrorView::WrongFieldCount,
        Error::UnsupportedVariant => ErrorView::UnsupportedVariant,
        Error::RowLength { row, scalars, fields } => ErrorView::RowLength {
            row: row as nat,
            scalars: scalars as nat,
            fields: fields as nat,
        },
        Error::RowScalar { row, field, expected, actual, cause } => ErrorView::RowScalar {
            row: row as nat,
            field: field@,
            expected: expected@,
            actual: actual@,
            cause: Box::new(error_view(*cause)),
        },
        Error::NotStructSchema => ErrorView::NotStructSchema,
        Error::NotStructArray => ErrorView::NotStructArray,
        Error::NotListArray => ErrorView::NotListArray,
        Error::NotMapArray => ErrorView::NotMapArray,
        Error::FieldIdConflict { field, input_id, target_id } => ErrorView::FieldIdConflict {
            field: field@,
            input_id: input_id@,
            target_id: target_id@,
        },
        Error::ColumnCount { input, transformed } => ErrorView::ColumnCount {
            input: input as nat,
            transformed: transformed as nat,
        },
        Error::MapEntryColumns(n) => ErrorView::MapEntryColumns(n as nat),
        Error::NestedIdsNotObject(field) => ErrorView::NestedIdsNotObject(field@),
        Error::NestedIdNotInteger { field, path } => ErrorView::NestedIdNotInteger {
            field: field@,
            path: path@,
        },
        Error::IncorrectType { expected, found } => ErrorView::IncorrectType {
            expected: expected@,
            found: type_of(found),
        },
        Error::NotStructOutput => ErrorView::NotStructOutput,
        Error::MismatchedScalar { expected, actual } => ErrorView::MismatchedScalar {
            expected: expected@,
            actual: actual@,
        },
        Error::NullInStruct => ErrorView::NullInStruct,
        Error::TooFewScalars => ErrorView::TooFewScalars,
        Error::TooManyScalars => ErrorView::TooManyScalars,
        Error::StructLength { fields, values } => ErrorView::StructLength {
            fields: fields as nat,
            values: values as nat,
        },
        Error::PartType { expected, actual } => ErrorView::PartType {
            expected: expected@,
            actual: actual@,
        },
        Error::NullPart => ErrorView::NullPart,
        Error::EmptyColumnPath => ErrorView::EmptyColumnPath,
        Error::NoSuchField(name) => ErrorView::NoSuchField(name@),
        Error::NotAStruct(name) => ErrorView::NotAStruct(name@),
        Error::StructTypeRequired => ErrorView::StructTypeRequired,
        Error::NotBoolean => ErrorView::NotBoolean,
        Error::Arrow(_) => ErrorView::Arrow,
    }
}

impl View for Error {
    type V = ErrorView;

    open spec fn view(&self) -> ErrorView {
        error_view(*self)
    }
}

} // verus!

//! Arrow's data types and fields, as the library sees them.
//!
//! Everything in this file that carries `external_body` is trusted: its contract says what the
//! Arrow function that it calls does.
use crate::model::{ArrowField, ArrowType, TimeUnit};
use arrow::datatypes::{DataType, Field, Fields};
use arrow::error::ArrowError;
use std::sync::Arc;
use vstd::prelude::*;

verus! {

/// Arrow's `DataType`.
#[verifier::external_type_specification]
#[verifier::external_body]
pub struct ExArrowDataType(arrow::datatypes::DataType);

/// Arrow's `Field`.
#[verifier::external_type_specification]
#[verifier::external_body]
pub struct ExArrowField(arrow::datatypes::Field);

/// Arrow's `Fields`: a shared, ordered collection of fields.
#[verifier::external_type_specification]
#[verifier::external_body]
pub struct ExArrowFields(arrow::datatypes::Fields);

/// Arrow's `ArrowError`.
#[verifier::external_type_specification]
#[verifier::external_body]
pub struct ExArrowError(arrow::error::ArrowError);

/// What an Arrow data type holds.
pub uninterp spec fn type_of(t: DataType) -> ArrowType;

/// What an Arrow field holds.
pub uninterp spec fn field_of(f: Field) -> ArrowField;

/// The fields that an Arrow `Fields` collection holds, in order.
pub uninterp spec fn fields_of(f: Fields) -> Seq<ArrowField>;

/// The description that an `ArrowError::InvalidArgumentError` carries. Other errors have none.
pub uninterp spec fn invalid_argument(e: ArrowError) -> Option<Seq<char>>;

/// How `DataType`'s `Display` writes a type.
pub uninterp spec fn displayed_type(t: ArrowType) -> Seq<char>;

/// The types without parts that hold data of kernel types.
#[derive(Clone, Copy, Debug, PartialEq, Eq, Structural)]
pub enum SimpleType {
    Null,
    Boolean,
    Int8,
    Int16,
    Int32,
    Int64,
    Float32,
    Float64,
    Utf8,
    LargeUtf8,
    Utf8View,
    Binary,
    LargeBinary,
    BinaryView,
    Date32,
}

pub open spec fn simple_arrow_type(kind: SimpleType) -> ArrowType {
    match kind {
        SimpleType::Null => ArrowType::Null,
        SimpleType::Boolean => ArrowType::Boolean,
        SimpleType::Int8 => ArrowType::Int8,
        SimpleType::Int16 => ArrowType::Int16,
        SimpleType::Int32 => ArrowType::Int32,
        SimpleType::Int64 => ArrowType::Int64,
        SimpleType::Float32 => ArrowType::Float32,
        SimpleType::Float64 => ArrowType::Float64,
        SimpleType::Utf8 => ArrowType::Utf8,
        SimpleType::LargeUtf8 => ArrowType::LargeUtf8,
        SimpleType::Utf8View => ArrowType::Utf8View,
        SimpleType::Binary => ArrowType::Binary,
        SimpleType::LargeBinary => ArrowType::LargeBinary,
        SimpleType::BinaryView => ArrowType::BinaryView,
        SimpleType::Date32 => ArrowType::Date32,
    }
}

/// The metadata that a list of pairs makes: of two pairs with one key the later counts.
pub open spec fn metadata_of(pairs: Seq<(String, String)>) -> Map<Seq<char>, Seq<char>>
    decreases pairs.len(),
{
    if pairs.len() == 0 {
        Map::empty()
    } else {
        metadata_of(pairs.drop_last()).insert(pairs.last().0@, pairs.last().1@)
    }
}

pub open spec fn fields_seq(fields: Seq<Field>) -> Seq<ArrowField> {
    Seq::new(fields.len(), |i: int| field_of(fields[i]))
}

/// `DataType`'s variants without parts.
///
/// Trusted: the type is the one of that name.
#[verifier::external_body]
pub(crate) fn simple_type(kind: SimpleType) -> (r: DataType)
    ensures
        type_of(r) == simple_arrow_type(kind),
{
    match kind {
        SimpleType::Null => DataType::Null, SimpleType::Boolean => DataType::Boolean,
        SimpleType::Int8 => DataType::Int8, SimpleType::Int16 => DataType::Int16,
        SimpleType::Int32 => DataType::Int32, SimpleType::Int64 => DataType::Int64,
        SimpleType::Float32 => DataType::Float32, SimpleType::Float64 => DataType::Float64,
        SimpleType::Utf8 => DataType::Utf8, SimpleType::LargeUtf8 => DataType::LargeUtf8,
        SimpleType::Utf8View => DataType::Utf8View, SimpleType::Binary => DataType::Binary,
        SimpleType::LargeBinary => DataType::LargeBinary,
        SimpleType::BinaryView => DataType::BinaryView, SimpleType::Date32 => DataType::Date32,
    }
}

/// `DataType::Timestamp`.
///
/// Trusted: the type is the timestamp with that unit and time zone.
#[verifier::external_body]
pub(crate) fn timestamp_type(unit: TimeUnit, zone: Option<String>) -> (r: DataType)
    ensures
        type_of(r) == ArrowType::Timestamp(
            unit,
            match zone {
                Some(z) => Some(z@),
                None => None,
            },
        ),
{
    let unit = match unit {
        TimeUnit::Second => arrow::datatypes::TimeUnit::Second,
        TimeUnit::Millisecond => arrow::datatypes::TimeUnit::Millisecond,
        TimeUnit::Microsecond => arrow::datatypes::TimeUnit::Microsecond,
        TimeUnit::Nanosecond => arrow::datatypes::TimeUnit::Nanosecond,
    };
    DataType::Timestamp(unit, zone.map(|z| z.into()))
}

/// `DataType::Decimal128`.
///
/// Trusted: the type is the 128-bit decimal with that precision and scale.
#[verifier::external_body]
pub(crate) fn decimal_type(precision: u8, scale: i8) -> (r: DataType)
    ensures
        type_of(r) == ArrowType::Decimal128(precision, scale),
{
    DataType::Decimal128(precision, scale)
}

/// `DataType::List`.
///
/// Trusted: the type is the list with 32-bit offsets whose elements are `field`.
#[verifier::external_body]
pub(crate) fn list_type(field: Field) -> (r: DataType)
    ensures
        type_of(r) == ArrowType::List(Box::new(field_of(field))),
{
    DataType::List(Arc::new(field))
}

/// `DataType::Struct`.
///
/// Trusted: the type is the struct of `fields`.
#[verifier::external_body]
pub(crate) fn struct_type(fields: Fields) -> (r: DataType)
    ensures
        type_of(r) == ArrowType::Struct(fields_of(fields)),
{
    DataType::Struct(fields)
}

/// `DataType::Map`.
///
/// Trusted: the type is the map whose entries are `entries`, with that order flag.
#[verifier::external_body]
pub(crate) fn map_type(entries: Field, ordered: bool) -> (r: DataType)
    ensures
        type_of(r) == ArrowType::MapOf(Box::new(field_of(entries)), ordered),
{
    DataType::Map(Arc::new(entries), ordered)
}

/// `DataType`'s `PartialEq`.
///
/// Trusted: this is whether the two are the same type, fields and metadata included.
#[verifier::external_body]
pub(crate) fn same_type(a: &DataType, b: &DataType) -> (r: bool)
    ensures
        r == (type_of(*a) == type_of(*b)),
{
    a == b
}

/// Whether a type is a `DataType::Timestamp`.
///
/// Trusted: those are the timestamps of any unit and time zone.
#[verifier::external_body]
pub(crate) fn is_timestamp(t: &DataType) -> (r: bool)
    ensures
        r == (type_of(*t) is Timestamp),
{
    matches!(t, DataType::Timestamp(_, _))
}

/// The precision and scale of a `DataType::Decimal128`.
///
/// Trusted: a 128-bit decimal, and only such, has these two.
#[verifier::external_body]
pub(crate) fn decimal_parts(t: &DataType) -> (r: Option<(u8, i8)>)
    ensures
        r == match type_of(*t) {
            ArrowType::Decimal128(p, s) => Some((p, s)),
            _ => None,
        },
{
    match t {
        DataType::Decimal128(p, s) => Some((*p, *s)),
        _ => None,
    }
}

/// `DataType`'s `Clone`.
///
/// Trusted: the copy is the same type.
#[verifier::external_body]
pub(crate) fn clone_type(t: &DataType) -> (r: DataType)
    ensures
        type_of(r) == type_of(*t),
{
    t.clone()
}

/// `Field::new`.
///
/// Trusted: the field has that name, type and nullability, and no metadata.
#[verifier::external_body]
pub(crate) fn new_field(name: &str, data_type: DataType, nullable: bool) -> (r: Field)
    ensures
        field_of(r) == (ArrowField {
            name: name@,
            data_type: type_of(data_type),
            nullable,
            metadata: Map::empty(),
        }),
{
    Field::new(name, data_type, nullable)
}

/// `Field::with_metadata`.
///
/// Trusted: the metadata is what the pairs make, and all else stays.
#[verifier::external_body]
pub(crate) fn with_metadata(field: Field, metadata: Vec<(String, String)>) -> (r: Field)
    ensures
        field_of(r) == (ArrowField { metadata: metadata_of(metadata@), ..field_of(field) }),
{
    field.with_metadata(metadata.into_iter().collect())
}

/// `Field::name`.
///
/// Trusted: this is the field's name.
#[verifier::external_body]
pub(crate) fn field_name(field: &Field) -> (r: String)
    ensures
        r@ == field_of(*field).name,
{
    field.name().clone()
}

/// `Field::data_type`.
///
/// Trusted: this is the field's type.
#[verifier::external_body]
pub(crate) fn field_data_type(field: &Field) -> (r: DataType)
    ensures
        type_of(r) == field_of(*field).data_type,
{
    field.data_type().clone()
}

/// `Field::is_nullable`.
///
/// Trusted: this is whether the field may be null.
#[verifier::external_body]
pub(crate) fn field_nullable(field: &Field) -> (r: bool)
    ensures
        r == field_of(*field).nullable,
{
    field.is_nullable()
}

/// `Field::metadata`, looked up at one key.
///
/// Trusted: this is the metadata value under `key`, if there is one.
#[verifier::external_body]
pub(crate) fn field_metadata(field: &Field, key: &str) -> (r: Option<String>)
    ensures
        r is Some <==> field_of(*field).metadata.contains_key(key@),
        r matches Some(v) ==> v@ == field_of(*field).metadata[key@],
{
    field.metadata().get(key).cloned()
}

/// `Fields`, made from a vector.
///
/// Trusted: the collection holds the fields of the vector in order.
#[verifier::external_body]
pub(crate) fn collect_fields(fields: Vec<Field>) -> (r: Fields)
    ensures
        fields_of(r) == fields_seq(fields@),
{
    fields.into()
}

/// The fields of a `Fields` collection, copied out.
///
/// Trusted: the vector holds the fields of the collection in order.
#[verifier::external_body]
pub(crate) fn list_fields(fields: &Fields) -> (r: Vec<Field>)
    ensures
        fields_seq(r@) == fields_of(*fields),
{
    fields.iter().map(|f| f.as_ref().clone()).collect()
}

/// `Fields`' `Clone`, which shares the allocation.
///
/// Trusted: the copy holds the same fields.
#[verifier::external_body]
pub(crate) fn share_fields(fields: &Fields) -> (r: Fields)
    ensures
        fields_of(r) == fields_of(*fields),
{
    fields.clone()
}

/// `Fields`' `PartialEq`.
///
/// Trusted: two collections are equal when their fields agree in order, in name, type, nullability
/// and metadata.
#[verifier::external_body]
pub(crate) fn same_fields(a: &Fields, b: &Fields) -> (r: bool)
    ensures
        r == (fields_of(*a) == fields_of(*b)),
{
    a == b
}

/// Whether two collections share one allocation, by `std::ptr::eq` on where their slices begin.
///
/// Trusted: two live collections that begin at one address are one allocation, and so hold the
/// same fields. Nothing is claimed of collections that do not share one.
#[verifier::external_body]
pub(crate) fn same_allocation(a: &Fields, b: &Fields) -> (r: bool)
    ensures
        r ==> fields_of(*a) == fields_of(*b),
{
    std::ptr::eq(a.as_ref().as_ptr(), b.as_ref().as_ptr())
}

/// How Arrow writes an error about an invalid argument.
pub open spec fn invalid_argument_text(description: Seq<char>) -> Seq<char> {
    "Invalid argument error: "@ + description
}

/// `ArrowError`'s `Display`.
///
/// Trusted: an error about an invalid argument is written as its kind and the description that it
/// carries. Of the text of any other error nothing is claimed: it may hold what a foreign error
/// writes.
#[verifier::external_body]
pub(crate) fn arrow_error_text(e: &ArrowError) -> (r: String)
    ensures
        invalid_argument(*e) matches Some(description) ==> r@ == invalid_argument_text(description),
{
    e.to_string()
}

/// `DataType`'s `Display`.
///
/// Trusted: it writes the type from what two equal types agree in, the metadata of a field in the
/// order of its keys, so that equal types are written alike.
#[verifier::external_body]
pub(crate) fn arrow_type_text(t: &DataType) -> (r: String)
    ensures
        r@ == displayed_type(type_of(*t)),
{
    t.to_string()
}

} // verus!

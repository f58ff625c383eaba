//! Which Arrow types can be read as which kernel types.
use crate::arrow_types::{
    clone_type, decimal_parts, is_timestamp, same_type, simple_type, type_of, SimpleType,
};
use crate::conversion::{arrow_type, arrow_type_of, primitive_arrow_type, primitive_type};
use crate::error::{Error, ErrorView};
use crate::metadata::is_result;
use crate::model::ArrowType;
use crate::schema::{KernelDataType, PrimitiveType, TypeView};
use arrow::datatypes::DataType;
use vstd::prelude::*;

verus! {

/// The precision and scale of a decimal that holds every value of the type, if there is one.
pub open spec fn decimal_width(a: ArrowType) -> Option<(int, int)> {
    match a {
        ArrowType::Decimal128(p, s) => Some((p as int, s as int)),
        ArrowType::Int8 => Some((3, 0)),
        ArrowType::Int16 => Some((5, 0)),
        ArrowType::Int32 => Some((10, 0)),
        ArrowType::Int64 => Some((20, 0)),
        _ => None,
    }
}

/// Whether a decimal of precision `p` and scale `s` holds every value of the type: it has as many
/// digits before and after the point.
pub open spec fn decimal_holds(p: int, s: int, a: ArrowType) -> bool {
    match decimal_width(a) {
        Some((q, r)) => p >= q && s >= r && p - q >= s - r,
        None => false,
    }
}

/// Whether data of type `a` can be read as `p`: it is the type that `p` stands for, another
/// encoding of it, or one whose values can all be widened to it.
pub open spec fn primitive_reads(p: PrimitiveType, a: ArrowType) -> bool {
    a == primitive_arrow_type(p) || match p {
        PrimitiveType::String => a is LargeUtf8 || a is Utf8View,
        PrimitiveType::Binary => a is LargeBinary || a is BinaryView,
        PrimitiveType::Short => a is Int8,
        PrimitiveType::Integer => a is Int8 || a is Int16,
        PrimitiveType::Long => a is Int8 || a is Int16 || a is Int32,
        PrimitiveType::Double => a is Int8 || a is Int16 || a is Int32 || a is Float32,
        PrimitiveType::Timestamp => a is Timestamp,
        PrimitiveType::TimestampNtz => a is Timestamp || a is Date32,
        PrimitiveType::TimestampNanos => a is Timestamp,
        PrimitiveType::Decimal(d) => decimal_holds(d.precision as int, (d.scale as i8) as int, a),
        _ => false,
    }
}

/// Whether data of type `a` can be read as a type without parts or a variant, and what is reported
/// where it cannot.
pub open spec fn reads(t: TypeView, a: ArrowType) -> Result<(), ErrorView> {
    let refusal = Err(ErrorView::IncorrectType { expected: t, found: a });
    match t {
        TypeView::Primitive(p) => if primitive_reads(p, a) {
            Ok(())
        } else {
            refusal
        },
        _ => match arrow_type(t, None, ""@) {
            Ok(own) => if own == a {
                Ok(())
            } else {
                refusal
            },
            Err(e) => Err(e),
        },
    }
}

fn is_simple(t: &DataType, kind: SimpleType) -> (r: bool)
    ensures
        r == (type_of(*t) == crate::arrow_types::simple_arrow_type(kind)),
{
    same_type(t, &simple_type(kind))
}

fn decimal_reads(precision: u8, scale: i8, t: &DataType) -> (r: bool)
    ensures
        r == decimal_holds(precision as int, scale as int, type_of(*t)),
{
    let (source_precision, source_scale): (u8, i8) = match decimal_parts(t) {
        Some(parts) => parts,
        None => {
            if is_simple(t, SimpleType::Int8) {
                (3, 0)
            } else if is_simple(t, SimpleType::Int16) {
                (5, 0)
            } else if is_simple(t, SimpleType::Int32) {
                (10, 0)
            } else if is_simple(t, SimpleType::Int64) {
                (20, 0)
            } else {
                return false;
            }
        },
    };
    let more_digits: i16 = precision as i16 - source_precision as i16;
    let more_scale: i16 = scale as i16 - source_scale as i16;
    more_digits >= 0 && more_scale >= 0 && more_digits >= more_scale
}

fn reads_primitive(p: PrimitiveType, t: &DataType) -> (r: bool)
    ensures
        r == primitive_reads(p, type_of(*t)),
{
    if same_type(t, &primitive_type(p)) {
        return true;
    }
    match p {
        PrimitiveType::String => is_simple(t, SimpleType::LargeUtf8) || is_simple(
            t,
            SimpleType::Utf8View,
        ),
        PrimitiveType::Binary => is_simple(t, SimpleType::LargeBinary) || is_simple(
            t,
            SimpleType::BinaryView,
        ),
        PrimitiveType::Short => is_simple(t, SimpleType::Int8),
        PrimitiveType::Integer => is_simple(t, SimpleType::Int8) || is_simple(t, SimpleType::Int16),
        PrimitiveType::Long => is_simple(t, SimpleType::Int8) || is_simple(t, SimpleType::Int16)
            || is_simple(t, SimpleType::Int32),
        PrimitiveType::Double => is_simple(t, SimpleType::Int8) || is_simple(t, SimpleType::Int16)
            || is_simple(t, SimpleType::Int32) || is_simple(t, SimpleType::Float32),
        PrimitiveType::Timestamp => is_timestamp(t),
        PrimitiveType::TimestampNtz => is_timestamp(t) || is_simple(t, SimpleType::Date32),
        PrimitiveType::TimestampNanos => is_timestamp(t),
        PrimitiveType::Decimal(d) => decimal_reads(d.precision, d.scale as i8, t),
        _ => false,
    }
}

/// Reports an error unless data of type `found` can be read as `expected`, a type without parts or
/// a variant.
pub fn ensure_data_types(expected: &KernelDataType, found: &DataType) -> (r: Result<(), Error>)
    ensures
        is_result(r, reads(expected@, type_of(*found))),
{
    match expected {
        KernelDataType::Primitive(p) => if reads_primitive(*p, found) {
            return Ok(());
        },
        _ => match arrow_type_of(expected) {
            Ok(own) => if same_type(&own, found) {
                return Ok(());
            },
            Err(e) => {
                return Err(e);
            },
        },
    }
    Err(Error::IncorrectType { expected: expected.clone(), found: clone_type(found) })
}

} // verus!

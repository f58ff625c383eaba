//! What is promised of the Arrow types of kernel types, and of which can be read as which.
use crate::conversion::{ancestor_id, arrow_fields, arrow_type, lemma_arrow_fields};
use crate::data_types::{primitive_reads, reads};
use crate::error::{Error, ErrorView};
use crate::metadata::{arrow_metadata, id_metadata, is_result};
use crate::model::{ArrowField, ArrowType, TimeUnit};
use crate::schema::{FieldView, PrimitiveType, TypeView};
use crate::text::dotted;
use vstd::prelude::*;

verus! {

/// Each kernel type without parts stands for one Arrow type, wherever it stands. Timestamps count
/// microseconds or nanoseconds; those with a time zone are in UTC. A decimal keeps its precision and
/// scale.
pub proof fn law_primitive_type(p: PrimitiveType, ancestor: Option<FieldView>, path: Seq<char>)
    ensures
        arrow_type(TypeView::Primitive(p), ancestor, path) == Ok::<ArrowType, ErrorView>(
            match p {
                PrimitiveType::String => ArrowType::Utf8,
                PrimitiveType::Binary => ArrowType::Binary,
                PrimitiveType::Boolean => ArrowType::Boolean,
                PrimitiveType::Byte => ArrowType::Int8,
                PrimitiveType::Short => ArrowType::Int16,
                PrimitiveType::Integer => ArrowType::Int32,
                PrimitiveType::Long => ArrowType::Int64,
                PrimitiveType::Float => ArrowType::Float32,
                PrimitiveType::Double => ArrowType::Float64,
                PrimitiveType::Decimal(d) => ArrowType::Decimal128(d.precision, d.scale as i8),
                PrimitiveType::Date => ArrowType::Date32,
                PrimitiveType::Timestamp => ArrowType::Timestamp(
                    TimeUnit::Microsecond,
                    Some("UTC"@),
                ),
                PrimitiveType::TimestampNtz => ArrowType::Timestamp(TimeUnit::Microsecond, None),
                PrimitiveType::TimestampNanos => ArrowType::Timestamp(
                    TimeUnit::Nanosecond,
                    Some("UTC"@),
                ),
                PrimitiveType::Void => ArrowType::Null,
            },
        ),
{
}

/// Different kernel types without parts stand for different Arrow types, where scales stay below
/// 128.
pub proof fn law_primitive_types_differ(p: PrimitiveType, q: PrimitiveType)
    requires
        arrow_type(TypeView::Primitive(p), None, ""@) == arrow_type(
            TypeView::Primitive(q),
            None,
            ""@,
        ),
        p matches PrimitiveType::Decimal(d) ==> d.scale < 128,
        q matches PrimitiveType::Decimal(d) ==> d.scale < 128,
    ensures
        p == q,
{
    law_primitive_type(p, None, ""@);
    law_primitive_type(q, None, ""@);
    match (p, q) {
        (PrimitiveType::Decimal(d), PrimitiveType::Decimal(e)) => {
            assert(d.scale as i8 == e.scale as i8);
            let (x, y) = (d.scale, e.scale);
            assert(x == y) by (bit_vector)
                requires
                    x < 128,
                    y < 128,
                    x as i8 == y as i8,
            ;
        },
        _ => {},
    }
}

/// Whether a field that a schema does not name has this name and type, may be null where it says so,
/// and has no metadata but the field id that the nearest struct field holds for its path.
pub open spec fn is_unnamed_field(
    f: ArrowField,
    name: Seq<char>,
    t: TypeView,
    nullable: bool,
    ancestor: Option<FieldView>,
    path: Seq<char>,
) -> bool {
    &&& f.name == name
    &&& arrow_type(t, ancestor, path) == Ok::<ArrowType, ErrorView>(f.data_type)
    &&& f.nullable == nullable
    &&& ancestor_id(ancestor, path) is Ok
    &&& f.metadata == id_metadata(ancestor_id(ancestor, path)->Ok_0)
}

/// A list type is the Arrow list whose element field is called `element`, has the Arrow type of the
/// elements, and may be null where the list type says so.
pub proof fn law_list_type(
    element: Box<TypeView>,
    contains_null: bool,
    ancestor: Option<FieldView>,
    path: Seq<char>,
)
    ensures
        match arrow_type(TypeView::Array(element, contains_null), ancestor, path) {
            Ok(a) => a matches ArrowType::List(f) && is_unnamed_field(
                *f,
                "element"@,
                *element,
                contains_null,
                ancestor,
                dotted(path, "element"@),
            ),
            Err(e) => {
                ||| ancestor_id(ancestor, dotted(path, "element"@)) == Err::<
                    Option<i64>,
                    ErrorView,
                >(e)
                ||| arrow_type(*element, ancestor, dotted(path, "element"@)) == Err::<
                    ArrowType,
                    ErrorView,
                >(e)
            },
        },
{
}

/// A map type is the unordered Arrow map whose entries field, never null and without metadata, is
/// called `key_value` and has two fields: `key`, which is never null, and `value`, which may be null
/// where the map type says so.
pub proof fn law_map_type(
    key: Box<TypeView>,
    value: Box<TypeView>,
    value_contains_null: bool,
    ancestor: Option<FieldView>,
    path: Seq<char>,
)
    ensures
        arrow_type(TypeView::MapOf(key, value, value_contains_null), ancestor, path) matches Ok(a)
            ==> match a {
            ArrowType::MapOf(entries, ordered) => {
                &&& !ordered
                &&& entries.name == "key_value"@
                &&& !entries.nullable
                &&& entries.metadata == Map::<Seq<char>, Seq<char>>::empty()
                &&& entries.data_type matches ArrowType::Struct(fields) && fields.len() == 2
                    && is_unnamed_field(
                    fields[0],
                    "key"@,
                    *key,
                    false,
                    ancestor,
                    dotted(path, "key"@),
                ) && is_unnamed_field(
                    fields[1],
                    "value"@,
                    *value,
                    value_contains_null,
                    ancestor,
                    dotted(path, "value"@),
                )
            },
            _ => false,
        },
{
}

/// Whether an Arrow field has the name, nullability and metadata of a kernel field, and the Arrow
/// type of its type.
pub open spec fn is_field_of(a: ArrowField, f: FieldView) -> bool {
    &&& a.name == f.name
    &&& a.nullable == f.nullable
    &&& a.metadata == arrow_metadata(f.metadata)
    &&& arrow_type(f.data_type, Some(f), f.name) == Ok::<ArrowType, ErrorView>(a.data_type)
}

/// A struct type, and so a variant, is the Arrow struct with one field for each of its fields, in
/// order, wherever it stands.
pub proof fn law_struct_type(fs: Seq<FieldView>, ancestor: Option<FieldView>, path: Seq<char>)
    ensures
        arrow_type(TypeView::Struct(fs), ancestor, path) matches Ok(a) ==> {
            &&& a matches ArrowType::Struct(fields) && fields.len() == fs.len() && (forall|i: int|
                #![trigger fields[i]]
                0 <= i < fs.len() ==> is_field_of(fields[i], fs[i]))
            &&& arrow_fields(fs, fs.len()) == Ok::<Seq<ArrowField>, ErrorView>(a->Struct_0)
        },
        arrow_type(TypeView::Variant(fs), ancestor, path) == arrow_type(
            TypeView::Struct(fs),
            ancestor,
            path,
        ),
{
    if arrow_fields(fs, fs.len()) is Ok {
        lemma_arrow_fields(fs, fs.len());
    }
}

/// Whether no field in a type has nested field ids.
pub open spec fn is_plain(t: TypeView) -> bool
    decreases t,
{
    match t {
        TypeView::Primitive(_) => true,
        TypeView::Array(element, _) => is_plain(*element),
        TypeView::MapOf(key, value, _) => is_plain(*key) && is_plain(*value),
        TypeView::Struct(fs) => forall|i: int|
            #![trigger fs[i]]
            0 <= i < fs.len() ==> is_plain(fs[i].data_type) && has_no_nested_ids(fs[i]),
        TypeView::Variant(fs) => forall|i: int|
            #![trigger fs[i]]
            0 <= i < fs.len() ==> is_plain(fs[i].data_type) && has_no_nested_ids(fs[i]),
    }
}

pub open spec fn has_no_nested_ids(f: FieldView) -> bool {
    !f.metadata.contains_key("delta.columnMapping.nested.ids"@)
}

/// Every kernel type has an Arrow type, unless nested field ids stand in the way.
pub proof fn law_types_convert(t: TypeView, ancestor: Option<FieldView>, path: Seq<char>)
    requires
        is_plain(t),
        ancestor matches Some(f) ==> has_no_nested_ids(f),
    ensures
        arrow_type(t, ancestor, path) is Ok,
    decreases t, 0nat,
{
    match t {
        TypeView::Primitive(_) => {},
        TypeView::Array(element, _) => {
            law_types_convert(*element, ancestor, dotted(path, "element"@));
        },
        TypeView::MapOf(key, value, _) => {
            law_types_convert(*key, ancestor, dotted(path, "key"@));
            law_types_convert(*value, ancestor, dotted(path, "value"@));
        },
        TypeView::Struct(fs) => {
            lemma_fields_convert(fs, fs.len());
        },
        TypeView::Variant(fs) => {
            lemma_fields_convert(fs, fs.len());
        },
    }
}

pub proof fn lemma_fields_convert(fs: Seq<FieldView>, k: nat)
    requires
        k <= fs.len(),
        forall|i: int|
            #![trigger fs[i]]
            0 <= i < fs.len() ==> is_plain(fs[i].data_type) && has_no_nested_ids(fs[i]),
    ensures
        arrow_fields(fs, k) is Ok,
    decreases fs, k,
{
    if k > 0 {
        lemma_fields_convert(fs, (k - 1) as nat);
        let f = fs[k - 1];
        assert(is_plain(f.data_type));
        law_types_convert(fs[k - 1].data_type, Some(f), f.name);
    }
}

/// The bits of an Arrow integer type; none where it is no signed integer type.
pub open spec fn integer_bits(a: ArrowType) -> nat {
    match a {
        ArrowType::Int8 => 8,
        ArrowType::Int16 => 16,
        ArrowType::Int32 => 32,
        ArrowType::Int64 => 64,
        _ => 0,
    }
}

/// The decimal digits that an integer of so many bits may take. One of 64 bits counts as 20.
pub open spec fn integer_digits(a: ArrowType) -> int {
    match a {
        ArrowType::Int8 => 3,
        ArrowType::Int16 => 5,
        ArrowType::Int32 => 10,
        _ => 20,
    }
}

/// Which data can be read as a kernel type without parts. Integers are read by integers of as many
/// bits or more, and those of up to 32 bits by doubles too, as are floats. A decimal reads decimals
/// and integers that have no more digits than it on either side of the point. Text and bytes are
/// read in every encoding, and timestamps in every unit and time zone; dates are also read as
/// timestamps without a time zone. Everything else is read from its own type alone.
pub proof fn law_primitive_reads(p: PrimitiveType, a: ArrowType)
    ensures
        match p {
            PrimitiveType::Byte => primitive_reads(p, a) <==> integer_bits(a) == 8,
            PrimitiveType::Short => primitive_reads(p, a) <==> 0 < integer_bits(a) <= 16,
            PrimitiveType::Integer => primitive_reads(p, a) <==> 0 < integer_bits(a) <= 32,
            PrimitiveType::Long => primitive_reads(p, a) <==> 0 < integer_bits(a) <= 64,
            PrimitiveType::Float => primitive_reads(p, a) <==> a is Float32,
            PrimitiveType::Double => primitive_reads(p, a) <==> a is Float64 || a is Float32 || 0
                < integer_bits(a) <= 32,
            PrimitiveType::Decimal(d) => {
                let after = (d.scale as i8) as int;
                let before = d.precision - after;
                match a {
                    ArrowType::Decimal128(q, r) => primitive_reads(p, a) <==> before >= q - r
                        && after >= r,
                    _ => primitive_reads(p, a) <==> integer_bits(a) > 0 && before
                        >= integer_digits(a) && after >= 0,
                }
            },
            PrimitiveType::String => primitive_reads(p, a) <==> a is Utf8 || a is LargeUtf8
                || a is Utf8View,
            PrimitiveType::Binary => primitive_reads(p, a) <==> a is Binary || a is LargeBinary
                || a is BinaryView,
            PrimitiveType::Boolean => primitive_reads(p, a) <==> a is Boolean,
            PrimitiveType::Date => primitive_reads(p, a) <==> a is Date32,
            PrimitiveType::Timestamp => primitive_reads(p, a) <==> a is Timestamp,
            PrimitiveType::TimestampNanos => primitive_reads(p, a) <==> a is Timestamp,
            PrimitiveType::TimestampNtz => primitive_reads(p, a) <==> a is Timestamp
                || a is Date32,
            PrimitiveType::Void => primitive_reads(p, a) <==> a is Null,
        },
{
}

/// Data is accepted exactly where it can be read as the type that is expected, and otherwise refused
/// with the type that was expected and the type that was found. Data of the Arrow type that a kernel
/// type stands for is always accepted.
pub proof fn law_data_types(p: PrimitiveType, a: ArrowType, r: Result<(), Error>)
    requires
        is_result(r, reads(TypeView::Primitive(p), a)),
    ensures
        r is Ok <==> primitive_reads(p, a),
        r matches Err(e) ==> e@ == (ErrorView::IncorrectType {
            expected: TypeView::Primitive(p),
            found: a,
        }),
        arrow_type(TypeView::Primitive(p), None, ""@) == Ok::<ArrowType, ErrorView>(a) ==> r is Ok,
{
    law_primitive_type(p, None, ""@);
    law_primitive_reads(p, a);
}

/// A variant is read from the Arrow type that it stands for, and from no other.
pub proof fn law_variant_reads(fs: Seq<FieldView>, a: ArrowType, r: Result<(), Error>)
    requires
        is_result(r, reads(TypeView::Variant(fs), a)),
    ensures
        match arrow_type(TypeView::Struct(fs), None, ""@) {
            Ok(own) => {
                &&& r is Ok <==> own == a
                &&& r matches Err(e) ==> e@ == (ErrorView::IncorrectType {
                    expected: TypeView::Variant(fs),
                    found: a,
                })
            },
            Err(e) => r is Err && r->Err_0@ == e,
        },
{
    law_struct_type(fs, None, ""@);
}

} // verus!

//! The Arrow types and fields that kernel types and fields stand for.
use crate::arrow_types::{
    collect_fields, decimal_type, field_of, fields_of, fields_seq, list_type, map_type, new_field,
    simple_type, struct_type, timestamp_type, type_of, with_metadata, SimpleType,
};
use crate::error::{Error, ErrorView};
use crate::metadata::{
    arrow_metadata, id_metadata, is_result, kernel_metadata_to_arrow, lookup_nested_field_id,
    nested_id, parquet_field_id_metadata,
};
use crate::model::{buildable, ArrowField, ArrowType, TimeUnit};
use crate::schema::{
    fields_view, lemma_fields_view, FieldView, KernelDataType, PrimitiveType, StructField, TypeView,
};
use crate::text::{dotted, dotted_text};
use arrow::datatypes::{DataType, Field, Fields};
use vstd::prelude::*;

verus! {

/// The name of the element field of a list, and the step to it in a dotted path.
pub const LIST_ARRAY_ROOT: &'static str = "element";

/// The name of the entries field of a map.
pub const MAP_ROOT_DEFAULT: &'static str = "key_value";

/// The name of the key field of a map, and the step to it in a dotted path.
pub const MAP_KEY_DEFAULT: &'static str = "key";

/// The name of the value field of a map, and the step to it in a dotted path.
pub const MAP_VALUE_DEFAULT: &'static str = "value";

/// The time zone of kernel timestamps.
pub const UTC: &'static str = "UTC";

/// The Arrow type of a kernel type without parts.
pub open spec fn primitive_arrow_type(p: PrimitiveType) -> ArrowType {
    match p {
        PrimitiveType::String => ArrowType::Utf8,
        PrimitiveType::Long => ArrowType::Int64,
        PrimitiveType::Integer => ArrowType::Int32,
        PrimitiveType::Short => ArrowType::Int16,
        PrimitiveType::Byte => ArrowType::Int8,
        PrimitiveType::Float => ArrowType::Float32,
        PrimitiveType::Double => ArrowType::Float64,
        PrimitiveType::Boolean => ArrowType::Boolean,
        PrimitiveType::Binary => ArrowType::Binary,
        PrimitiveType::Date => ArrowType::Date32,
        PrimitiveType::Timestamp => ArrowType::Timestamp(TimeUnit::Microsecond, Some(UTC@)),
        PrimitiveType::TimestampNtz => ArrowType::Timestamp(TimeUnit::Microsecond, None),
        PrimitiveType::TimestampNanos => ArrowType::Timestamp(TimeUnit::Nanosecond, Some(UTC@)),
        PrimitiveType::Decimal(d) => ArrowType::Decimal128(d.precision, d.scale as i8),
        PrimitiveType::Void => ArrowType::Null,
    }
}

/// The nested field id at `path`, if there is a field to hold one.
pub open spec fn ancestor_id(ancestor: Option<FieldView>, path: Seq<char>) -> Result<
    Option<i64>,
    ErrorView,
> {
    match ancestor {
        Some(f) => nested_id(f, path),
        None => Ok(None),
    }
}

/// An Arrow field whose only metadata is a field id, if it has one.
pub open spec fn id_field(
    name: Seq<char>,
    data_type: ArrowType,
    nullable: bool,
    id: Option<i64>,
) -> ArrowField {
    ArrowField { name, data_type, nullable, metadata: id_metadata(id) }
}

/// The entries field of a map: a struct of a key and a value field that is never null.
pub open spec fn entries_field(name: Seq<char>, key: ArrowField, value: ArrowField) -> ArrowField {
    ArrowField {
        name,
        data_type: ArrowType::Struct(seq![key, value]),
        nullable: false,
        metadata: Map::empty(),
    }
}

/// The Arrow type of a kernel type. `ancestor` is the struct field that the type stands in, which
/// holds the ids of the unnamed fields of lists and maps by their path from it.
pub open spec fn arrow_type(
    t: TypeView,
    ancestor: Option<FieldView>,
    path: Seq<char>,
) -> Result<ArrowType, ErrorView>
    decreases t, 0nat,
{
    match t {
        TypeView::Primitive(p) => Ok(primitive_arrow_type(p)),
        TypeView::Array(element, contains_null) => {
            let element_path = dotted(path, LIST_ARRAY_ROOT@);
            match (
                ancestor_id(ancestor, element_path),
                arrow_type(*element, ancestor, element_path),
            ) {
                (Err(e), _) => Err(e),
                (Ok(_), Err(e)) => Err(e),
                (Ok(id), Ok(inner)) => Ok(
                    ArrowType::List(Box::new(id_field(LIST_ARRAY_ROOT@, inner, contains_null, id))),
                ),
            }
        },
        TypeView::MapOf(key, value, value_contains_null) => {
            let key_path = dotted(path, MAP_KEY_DEFAULT@);
            let value_path = dotted(path, MAP_VALUE_DEFAULT@);
            match (
                ancestor_id(ancestor, key_path),
                ancestor_id(ancestor, value_path),
                arrow_type(*key, ancestor, key_path),
                arrow_type(*value, ancestor, value_path),
            ) {
                (Err(e), _, _, _) => Err(e),
                (Ok(_), Err(e), _, _) => Err(e),
                (Ok(_), Ok(_), Err(e), _) => Err(e),
                (Ok(_), Ok(_), Ok(_), Err(e)) => Err(e),
                (Ok(key_id), Ok(value_id), Ok(k), Ok(v)) => Ok(
                    ArrowType::MapOf(
                        Box::new(
                            entries_field(
                                MAP_ROOT_DEFAULT@,
                                id_field(MAP_KEY_DEFAULT@, k, false, key_id),
                                id_field(MAP_VALUE_DEFAULT@, v, value_contains_null, value_id),
                            ),
                        ),
                        false,
                    ),
                ),
            }
        },
        TypeView::Struct(fs) => match arrow_fields(fs, fs.len()) {
            Ok(fields) => Ok(ArrowType::Struct(fields)),
            Err(e) => Err(e),
        },
        TypeView::Variant(fs) => match arrow_fields(fs, fs.len()) {
            Ok(fields) => Ok(ArrowType::Struct(fields)),
            Err(e) => Err(e),
        },
    }
}

/// The Arrow fields of the first `k` kernel fields, unless one of them has none.
pub open spec fn arrow_fields(fs: Seq<FieldView>, k: nat) -> Result<Seq<ArrowField>, ErrorView>
    decreases fs, k,
{
    if k == 0 || k > fs.len() {
        Ok(seq![])
    } else {
        let f = fs[k - 1];
        match (
            arrow_fields(fs, (k - 1) as nat),
            arrow_type(fs[k - 1].data_type, Some(f), f.name),
        ) {
            (Err(e), _) => Err(e),
            (Ok(_), Err(e)) => Err(e),
            (Ok(rest), Ok(t)) => Ok(
                rest.push(
                    ArrowField {
                        name: f.name,
                        data_type: t,
                        nullable: f.nullable,
                        metadata: arrow_metadata(f.metadata),
                    },
                ),
            ),
        }
    }
}

/// Whether a result is the Arrow type that `expected` says.
pub open spec fn is_type_result(
    r: Result<DataType, Error>,
    expected: Result<ArrowType, ErrorView>,
) -> bool {
    match r {
        Ok(t) => expected == Ok::<ArrowType, ErrorView>(type_of(t)),
        Err(e) => expected == Err::<ArrowType, ErrorView>(e@),
    }
}

/// Whether a result is the Arrow fields that `expected` says.
pub open spec fn is_fields_result(
    r: Result<Fields, Error>,
    expected: Result<Seq<ArrowField>, ErrorView>,
) -> bool {
    match r {
        Ok(fields) => expected == Ok::<Seq<ArrowField>, ErrorView>(fields_of(fields)),
        Err(e) => expected == Err::<Seq<ArrowField>, ErrorView>(e@),
    }
}

pub open spec fn optional_field_view(field: Option<&StructField>) -> Option<FieldView> {
    match field {
        Some(f) => Some(f@),
        None => None,
    }
}

pub(crate) fn primitive_type(p: PrimitiveType) -> (r: DataType)
    ensures
        type_of(r) == primitive_arrow_type(p),
{
    match p {
        PrimitiveType::String => simple_type(SimpleType::Utf8),
        PrimitiveType::Long => simple_type(SimpleType::Int64),
        PrimitiveType::Integer => simple_type(SimpleType::Int32),
        PrimitiveType::Short => simple_type(SimpleType::Int16),
        PrimitiveType::Byte => simple_type(SimpleType::Int8),
        PrimitiveType::Float => simple_type(SimpleType::Float32),
        PrimitiveType::Double => simple_type(SimpleType::Float64),
        PrimitiveType::Boolean => simple_type(SimpleType::Boolean),
        PrimitiveType::Binary => simple_type(SimpleType::Binary),
        PrimitiveType::Date => simple_type(SimpleType::Date32),
        PrimitiveType::Timestamp => timestamp_type(TimeUnit::Microsecond, Some(UTC.to_owned())),
        PrimitiveType::TimestampNtz => timestamp_type(TimeUnit::Microsecond, None),
        PrimitiveType::TimestampNanos => timestamp_type(TimeUnit::Nanosecond, Some(UTC.to_owned())),
        PrimitiveType::Decimal(d) => decimal_type(d.precision, d.scale as i8),
        PrimitiveType::Void => simple_type(SimpleType::Null),
    }
}

/// Looks up the nested field id at `path`, if there is a field to hold one.
pub(crate) fn find_ancestor_id(ancestor: Option<&StructField>, path: &str) -> (r: Result<
    Option<i64>,
    Error,
>)
    ensures
        is_result(r, ancestor_id(optional_field_view(ancestor), path@)),
{
    match ancestor {
        Some(f) => lookup_nested_field_id(f, path),
        None => Ok(None),
    }
}

/// An Arrow field whose only metadata is a field id, if it has one.
pub(crate) fn new_id_field(name: &str, data_type: DataType, nullable: bool, id: Option<i64>) -> (r:
    Field)
    ensures
        field_of(r) == id_field(name@, type_of(data_type), nullable, id),
{
    with_metadata(new_field(name, data_type, nullable), parquet_field_id_metadata(id))
}

/// The fields of a key and a value, in order.
pub(crate) fn pair_fields(key: Field, value: Field) -> (r: Fields)
    ensures
        fields_of(r) == seq![field_of(key), field_of(value)],
{
    let mut fields: Vec<Field> = Vec::new();
    fields.push(key);
    fields.push(value);
    assert(fields_seq(fields@) =~= seq![field_of(key), field_of(value)]);
    collect_fields(fields)
}

/// The Arrow type of a kernel type that stands in the field `ancestor` at `path`.
pub fn nested_arrow_type(t: &KernelDataType, ancestor: Option<&StructField>, path: &str) -> (r:
    Result<DataType, Error>)
    ensures
        is_type_result(r, arrow_type(t@, optional_field_view(ancestor), path@)),
    decreases t, 0nat,
{
    match t {
        KernelDataType::Primitive(p) => Ok(primitive_type(*p)),
        KernelDataType::Array(a) => {
            let element_path = dotted_text(path, LIST_ARRAY_ROOT);
            let id = match find_ancestor_id(ancestor, element_path.as_str()) {
                Ok(id) => id,
                Err(e) => {
                    return Err(e);
                },
            };
            let inner = match nested_arrow_type(&a.element_type, ancestor, element_path.as_str()) {
                Ok(inner) => inner,
                Err(e) => {
                    return Err(e);
                },
            };
            Ok(list_type(new_id_field(LIST_ARRAY_ROOT, inner, a.contains_null, id)))
        },
        KernelDataType::MapOf(m) => {
            let key_path = dotted_text(path, MAP_KEY_DEFAULT);
            let value_path = dotted_text(path, MAP_VALUE_DEFAULT);
            let key_id = match find_ancestor_id(ancestor, key_path.as_str()) {
                Ok(id) => id,
                Err(e) => {
                    return Err(e);
                },
            };
            let value_id = match find_ancestor_id(ancestor, value_path.as_str()) {
                Ok(id) => id,
                Err(e) => {
                    return Err(e);
                },
            };
            let key = match nested_arrow_type(&m.key_type, ancestor, key_path.as_str()) {
                Ok(key) => key,
                Err(e) => {
                    return Err(e);
                },
            };
            let value = match nested_arrow_type(&m.value_type, ancestor, value_path.as_str()) {
                Ok(value) => value,
                Err(e) => {
                    return Err(e);
                },
            };
            let entries = struct_type(
                pair_fields(
                    new_id_field(MAP_KEY_DEFAULT, key, false, key_id),
                    new_id_field(MAP_VALUE_DEFAULT, value, m.value_contains_null, value_id),
                ),
            );
            Ok(map_type(new_field(MAP_ROOT_DEFAULT, entries, false), false))
        },
        KernelDataType::Struct(s) => match arrow_fields_of(&s.fields) {
            Ok(fields) => Ok(struct_type(fields)),
            Err(e) => Err(e),
        },
        KernelDataType::Variant(s) => match arrow_fields_of(&s.fields) {
            Ok(fields) => Ok(struct_type(fields)),
            Err(e) => Err(e),
        },
    }
}

/// The Arrow fields of kernel fields.
pub fn arrow_fields_of(fs: &Vec<StructField>) -> (r: Result<Fields, Error>)
    ensures
        is_fields_result(r, arrow_fields(fields_view(fs@), fs@.len())),
    decreases fs, 1nat,
{
    let ghost views = fields_view(fs@);
    let mut out: Vec<Field> = Vec::new();
    let mut i: usize = 0;
    assert(fields_seq(out@) =~= seq![]);
    proof {
        lemma_fields_view(fs@);
    }
    while i < fs.len()
        invariant
            i <= fs.len(),
            views == fields_view(fs@),
            views.len() == fs@.len(),
            arrow_fields(views, i as nat) == Ok::<Seq<ArrowField>, ErrorView>(fields_seq(out@)),
        decreases fs.len() - i,
    {
        proof {
            lemma_fields_view(fs@);
        }
        assert(decreases_to!(*fs => fs@[i as int]));
        let f = &fs[i];
        let t = match nested_arrow_type(&f.data_type, Some(f), f.name.as_str()) {
            Ok(t) => t,
            Err(e) => {
                proof {
                    lemma_arrow_fields_stop(views, (i + 1) as nat, views.len());
                }
                return Err(e);
            },
        };
        let field = with_metadata(
            new_field(f.name.as_str(), t, f.nullable),
            kernel_metadata_to_arrow(f),
        );
        let ghost before = fields_seq(out@);
        out.push(field);
        assert(fields_seq(out@) =~= before.push(field_of(field)));
        i += 1;
    }
    Ok(collect_fields(out))
}

/// The Arrow type of a kernel type by itself.
pub fn arrow_type_of(t: &KernelDataType) -> (r: Result<DataType, Error>)
    ensures
        is_type_result(r, arrow_type(t@, None, ""@)),
{
    nested_arrow_type(t, None, "")
}

proof fn lemma_arrow_fields_stop(fs: Seq<FieldView>, j: nat, k: nat)
    requires
        j <= k <= fs.len(),
        arrow_fields(fs, j) is Err,
    ensures
        arrow_fields(fs, k) == arrow_fields(fs, j),
    decreases k,
{
    if j < k {
        lemma_arrow_fields_stop(fs, j, (k - 1) as nat);
    }
}

/// The Arrow fields of a list of kernel fields, field by field.
pub proof fn lemma_arrow_fields(fs: Seq<FieldView>, k: nat)
    requires
        k <= fs.len(),
        arrow_fields(fs, k) is Ok,
    ensures
        arrow_fields(fs, k)->Ok_0.len() == k,
        forall|i: int|
            #![trigger arrow_fields(fs, k)->Ok_0[i]]
            0 <= i < k ==> {
                &&& arrow_fields(fs, k)->Ok_0[i].name == fs[i].name
                &&& arrow_fields(fs, k)->Ok_0[i].nullable == fs[i].nullable
                &&& arrow_fields(fs, k)->Ok_0[i].metadata == arrow_metadata(fs[i].metadata)
                &&& arrow_type(fs[i].data_type, Some(fs[i]), fs[i].name) == Ok::<
                    ArrowType,
                    ErrorView,
                >(arrow_fields(fs, k)->Ok_0[i].data_type)
            },
    decreases k,
{
    if k > 0 {
        lemma_arrow_fields(fs, (k - 1) as nat);
    }
}

/// There is an array builder for the Arrow type of every kernel type.
pub proof fn lemma_arrow_type_buildable(t: TypeView, ancestor: Option<FieldView>, path: Seq<char>)
    requires
        arrow_type(t, ancestor, path) is Ok,
    ensures
        buildable(arrow_type(t, ancestor, path)->Ok_0),
        !(arrow_type(t, ancestor, path)->Ok_0 is Other),
    decreases t,
{
    match t {
        TypeView::Primitive(_) => {},
        TypeView::Array(element, _) => {
            lemma_arrow_type_buildable(*element, ancestor, dotted(path, LIST_ARRAY_ROOT@));
        },
        TypeView::MapOf(key, value, _) => {
            lemma_arrow_type_buildable(*key, ancestor, dotted(path, MAP_KEY_DEFAULT@));
            lemma_arrow_type_buildable(*value, ancestor, dotted(path, MAP_VALUE_DEFAULT@));
        },
        TypeView::Struct(fs) => {
            lemma_arrow_fields(fs, fs.len());
            assert forall|i: int| 0 <= i < fs.len() implies buildable(
                (#[trigger] arrow_fields(fs, fs.len())->Ok_0[i]).data_type,
            ) by {
                lemma_arrow_type_buildable(fs[i].data_type, Some(fs[i]), fs[i].name);
            }
        },
        TypeView::Variant(fs) => {
            lemma_arrow_fields(fs, fs.len());
            assert forall|i: int| 0 <= i < fs.len() implies buildable(
                (#[trigger] arrow_fields(fs, fs.len())->Ok_0[i]).data_type,
            ) by {
                lemma_arrow_type_buildable(fs[i].data_type, Some(fs[i]), fs[i].name);
            }
        },
    }
}

} // verus!

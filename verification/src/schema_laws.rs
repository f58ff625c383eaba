//! What schemas, paths, tables and results stand for.
use crate::append::{is_outcome, Appended};
use crate::arrow_arrays::ArrowArray;
use crate::arrow_types::{fields_of, type_of};
use crate::conversion::{is_fields_result, is_type_result};
use crate::error::{Error, ErrorView};
use crate::evaluate::names_view;
use crate::handler::rows_view;
use crate::model::{ArrowField, ArrowType, Cell, Column};
use crate::predicates::is_truth_result;
use crate::scalars::Scalar;
use crate::schema::{
    fields_view, lemma_fields_view, metadata_view, KernelDataType, StructField, StructType,
    TypeView,
};
use crate::to_array::is_array_result;
use arrow::datatypes::{DataType, Fields};
use vstd::prelude::*;

verus! {

/// A field stands for its name, type, nullability and metadata.
pub proof fn law_field_view(f: StructField)
    ensures
        f@.name == f.name@,
        f@.data_type == f.data_type@,
        f@.nullable == f.nullable,
        f@.metadata == metadata_view(f.metadata@),
{
}

/// A schema stands for its fields, in order.
pub proof fn law_schema_view(s: StructType)
    ensures
        s@.len() == s.fields@.len(),
        forall|i: int| 0 <= i < s.fields@.len() ==> #[trigger] s@[i] == s.fields@[i]@,
{
    lemma_fields_view(s.fields@);
}

/// A type stands for what its parts stand for.
pub proof fn law_type_view(t: KernelDataType)
    ensures
        match t {
            KernelDataType::Primitive(p) => t@ == TypeView::Primitive(p),
            KernelDataType::Array(a) => t@ == TypeView::Array(
                Box::new(a.element_type@),
                a.contains_null,
            ),
            KernelDataType::MapOf(m) => t@ == TypeView::MapOf(
                Box::new(m.key_type@),
                Box::new(m.value_type@),
                m.value_contains_null,
            ),
            KernelDataType::Struct(s) => t@ is Struct && t@->Struct_0.len() == s.fields@.len() && (
            forall|i: int|
                0 <= i < s.fields@.len() ==> #[trigger] t@->Struct_0[i] == s.fields@[i]@),
            KernelDataType::Variant(s) => t@ is Variant && t@->Variant_0.len() == s.fields@.len()
                && (forall|i: int|
                0 <= i < s.fields@.len() ==> #[trigger] t@->Variant_0[i] == s.fields@[i]@),
        },
{
    match t {
        KernelDataType::Struct(s) => {
            lemma_fields_view(s.fields@);
            assert(t@->Struct_0 == fields_view(s.fields@));
        },
        KernelDataType::Variant(s) => {
            lemma_fields_view(s.fields@);
            assert(t@->Variant_0 == fields_view(s.fields@));
        },
        _ => {},
    }
}

/// A path stands for its names, and a table for its rows, in order.
pub proof fn law_path_and_table_views(names: Seq<String>, rows: Seq<&[Scalar]>)
    ensures
        names_view(names).len() == names.len(),
        forall|i: int| 0 <= i < names.len() ==> #[trigger] names_view(names)[i] == names[i]@,
        rows_view(rows).len() == rows.len(),
        forall|i: int| 0 <= i < rows.len() ==> #[trigger] rows_view(rows)[i] == rows[i]@,
{
}

/// An array, or truth values, that were expected are the ones that came out, and an error that was
/// expected is the one that came out.
pub proof fn law_array_results(
    r: Result<ArrowArray, Error>,
    column: Result<Column, ErrorView>,
    truths: Result<Seq<Cell>, ErrorView>,
)
    ensures
        is_array_result(r, column) <==> match column {
            Ok(c) => r matches Ok(a) && a@ == c,
            Err(e) => r is Err && r->Err_0@ == e,
        },
        is_truth_result(r, truths) <==> match truths {
            Ok(cells) => r matches Ok(a) && a@ == (Column::Leaf {
                data_type: ArrowType::Boolean,
                cells,
            }),
            Err(e) => r is Err && r->Err_0@ == e,
        },
{
}

/// So for types and fields.
pub proof fn law_type_results(
    t: Result<DataType, Error>,
    expected: Result<ArrowType, ErrorView>,
    f: Result<Fields, Error>,
    fields: Result<Seq<ArrowField>, ErrorView>,
)
    ensures
        is_type_result(t, expected) <==> match expected {
            Ok(a) => t matches Ok(d) && type_of(d) == a,
            Err(e) => t is Err && t->Err_0@ == e,
        },
        is_fields_result(f, fields) <==> match fields {
            Ok(a) => f matches Ok(d) && fields_of(d) == a,
            Err(e) => f is Err && f->Err_0@ == e,
        },
{
}

/// So for appending, which leaves the builder with what was expected either way.
pub proof fn law_append_results(r: Result<(), Error>, after: Column, expected: Appended)
    ensures
        is_outcome(r, after, expected) <==> after == expected.column && match expected.error {
            None => r is Ok,
            Some(e) => r is Err && r->Err_0@ == e,
        },
{
}

} // verus!

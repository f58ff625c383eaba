//! What is promised of null rows, and of the rows of lists by themselves.
use crate::append::{append_each, append_null_fields};
use crate::building::{
    admitted, lemma_append_each_finishable, lemma_append_null_fields_at, lemma_append_null_rows,
};
use crate::conversion::arrow_type;
use crate::growth::{lemma_append_each_grows, sound_builder};
use crate::model::{empty_column, Column};
use crate::rows::{lemma_append_error, writable};
use crate::scalars::{ArrayData, Scalar};
use crate::schema::{KernelDataType, TypeView};
use crate::to_array::{
    elements_column, lemma_new_builder, lemma_well_typed_admitted, scalar_column,
    well_typed_elements,
};
use vstd::prelude::*;

verus! {

/// Whether a column has `n` rows, all of them null.
pub open spec fn all_null(c: Column, n: nat) -> bool {
    c.len() == n && forall|i: int| 0 <= i < n ==> #[trigger] c.is_null(i)
}

/// Null rows are null as a whole. Those of a struct have a row, null too, in every child; those of
/// lists and maps have no elements and no entries.
pub proof fn law_null_rows(t: KernelDataType, n: nat)
    ensures
        scalar_column(Scalar::Null(t), n) matches Ok(c) ==> {
            &&& all_null(c, n)
            &&& match t@ {
                TypeView::Struct(fs) => {
                    &&& c is Struct
                    &&& c->Struct_columns.len() == fs.len()
                    &&& forall|j: int|
                        0 <= j < fs.len() ==> all_null(#[trigger] c->Struct_columns[j], n)
                },
                TypeView::Array(_, _) => c is List && c->List_values.len() == 0,
                TypeView::MapOf(_, _, _) => c is MapOf && c->MapOf_entries.len() == 0,
                _ => true,
            }
        },
{
    if scalar_column(Scalar::Null(t), n) is Ok {
        let a = arrow_type(t@, None, ""@)->Ok_0;
        let empty = empty_column(a);
        let c = scalar_column(Scalar::Null(t), n)->Ok_0;
        lemma_new_builder(t@, None, ""@);
        lemma_append_null_rows(empty, t@, n);
        assert forall|i: int| 0 <= i < n implies #[trigger] c.is_null(i) by {
            assert(c.is_null(empty.len() + i));
        }
        if let TypeView::Struct(fs) = t@ {
            lemma_append_null_fields_at(empty, fs, fs.len(), n);
            let r = append_null_fields(empty, fs, fs.len(), n).column;
            assert forall|j: int| 0 <= j < fs.len() implies all_null(
                #[trigger] c->Struct_columns[j],
                n,
            ) by {
                let child = empty->Struct_columns[j];
                assert(c->Struct_columns[j] == r->Struct_columns[j]);
                assert(sound_builder(child));
                lemma_append_null_rows(child, fs[j].data_type, n);
                assert forall|i: int| 0 <= i < n implies #[trigger] c->Struct_columns[j].is_null(
                    i,
                ) by {
                    assert(c->Struct_columns[j].is_null(child.len() + i));
                }
            }
        }
    }
}

proof fn lemma_elements_appended(d: ArrayData, k: nat)
    requires
        k <= d.elements@.len(),
        well_typed_elements(d),
        arrow_type(d.tpe.element_type@, None, ""@) is Ok,
        forall|i: int| 0 <= i < d.elements@.len() ==> writable(#[trigger] d.elements@[i]),
    ensures
        append_each(
            empty_column(arrow_type(d.tpe.element_type@, None, ""@)->Ok_0),
            d.elements@,
            k,
        ).error is None,
    decreases k,
{
    if k > 0 {
        let t = arrow_type(d.tpe.element_type@, None, ""@)->Ok_0;
        let empty = empty_column(t);
        lemma_elements_appended(d, (k - 1) as nat);
        lemma_new_builder(d.tpe.element_type@, None, ""@);
        assert forall|i: int| 0 <= i < d.elements@.len() implies admitted(
            #[trigger] d.elements@[i],
            t,
        ) by {
            lemma_well_typed_admitted(d.elements@[i], None, ""@);
        }
        lemma_append_each_grows(empty, d.elements@, (k - 1) as nat);
        lemma_append_each_finishable(empty, d.elements@, (k - 1) as nat, true);
        let above = append_each(empty, d.elements@, (k - 1) as nat).column;
        let last = d.elements@[k - 1];
        assert(writable(last));
        lemma_append_error(above, last, 1, None, ""@);
    }
}

/// The elements of a list become an array wherever they are well-typed, their type has an Arrow type
/// and they can be written.
pub proof fn law_to_arrow_succeeds(d: ArrayData)
    requires
        well_typed_elements(d),
        arrow_type(d.tpe.element_type@, None, ""@) is Ok,
        forall|i: int| 0 <= i < d.elements@.len() ==> writable(#[trigger] d.elements@[i]),
    ensures
        elements_column(d) is Ok,
{
    lemma_elements_appended(d, d.elements@.len());
}

/// What cannot be written is a null that has a variant where a null struct has rows, as a whole or in
/// a part of a value.
pub proof fn law_writable(s: Scalar)
    ensures
        match s {
            Scalar::Struct(d) => writable(s) <==> forall|i: int|
                0 <= i < d.values@.len() ==> writable(#[trigger] d.values@[i]),
            Scalar::Array(d) => writable(s) <==> forall|i: int|
                0 <= i < d.elements@.len() ==> writable(#[trigger] d.elements@[i]),
            Scalar::MapOf(d) => writable(s) <==> forall|i: int|
                #![trigger d.pairs@[i]]
                0 <= i < d.pairs@.len() ==> writable(d.pairs@[i].0) && writable(d.pairs@[i].1),
            Scalar::Null(t) => match t@ {
                TypeView::Variant(_) => !writable(s),
                TypeView::Struct(_) => true,
                _ => writable(s),
            },
            _ => writable(s),
        },
{
}

} // verus!

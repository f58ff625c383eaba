//! What applying a schema makes of each part of an array, and when it fails.
use crate::apply_laws::{law_applied_fields, lemma_same_data_refl, same_data};
use crate::apply_schema::{
    applied, fewer, is_batch_result, transform, transform_fields, transform_struct,
};
use crate::arrow_arrays::ArrowBatch;
use crate::conversion::ancestor_id;
use crate::data_types::reads;
use crate::error::{Error, ErrorView};
use crate::identity::{is_applied, sound_column, EntryView};
use crate::metadata::arrow_metadata;
use crate::model::{batch_accepts, struct_accepts, ArrowType, BatchView, Column};
use crate::schema::{FieldView, TypeView};
use crate::text::dotted;
use vstd::prelude::*;

verus! {

/// What field `i` of a schema makes by itself of the column at its place.
pub open spec fn own_part(c: Column, fs: Seq<FieldView>, i: int) -> Result<Column, ErrorView> {
    transform(c->Struct_columns[i], fs[i].data_type, Some(fs[i]), fs[i].name)
}

/// Whether the field id that data carries is another than the one that the schema says.
pub open spec fn other_id(c: Column, fs: Seq<FieldView>, i: int) -> bool {
    let key = "PARQUET:field_id"@;
    let input = c->Struct_fields[i].metadata;
    let target = arrow_metadata(fs[i].metadata);
    input.contains_key(key) && target.contains_key(key) && input[key] != target[key]
}

/// Whether field `i` can be applied to the column at its place.
pub open spec fn part_passes(c: Column, fs: Seq<FieldView>, i: int) -> bool {
    own_part(c, fs, i) is Ok && !other_id(c, fs, i)
}

/// Whether field `i` is the first that cannot be applied, and why: its column cannot be brought in
/// line with it, or carries another field id.
pub open spec fn first_refused(c: Column, fs: Seq<FieldView>, i: int, e: ErrorView) -> bool {
    &&& 0 <= i < fs.len()
    &&& i < c->Struct_columns.len()
    &&& !part_passes(c, fs, i)
    &&& own_part(c, fs, i) is Err ==> own_part(c, fs, i) == Err::<Column, ErrorView>(e)
    &&& own_part(c, fs, i) is Ok ==> e == (ErrorView::FieldIdConflict {
        field: fs[i].name,
        input_id: c->Struct_fields[i].metadata["PARQUET:field_id"@],
        target_id: arrow_metadata(fs[i].metadata)["PARQUET:field_id"@],
    })
    &&& forall|j: int| #![trigger fs[j]] 0 <= j < i ==> part_passes(c, fs, j)
}

proof fn lemma_applied_fields(c: Column, fs: Seq<FieldView>, k: nat)
    requires
        k <= fs.len(),
        k <= c->Struct_columns.len(),
    ensures
        match transform_fields(c, fs, k) {
            Ok(p) => {
                &&& p.fields.len() == k
                &&& p.columns.len() == k
                &&& forall|i: int|
                    #![trigger fs[i]]
                    #![trigger p.columns[i]]
                    0 <= i < k ==> {
                        &&& part_passes(c, fs, i)
                        &&& own_part(c, fs, i) == Ok::<Column, ErrorView>(p.columns[i])
                        &&& p.fields[i].name == fs[i].name
                        &&& p.fields[i].nullable == fs[i].nullable
                        &&& p.fields[i].metadata == arrow_metadata(fs[i].metadata)
                        &&& p.fields[i].data_type == p.columns[i].data_type()
                    }
            },
            Err(e) => exists|i: int| i < k && #[trigger] first_refused(c, fs, i, e),
        },
    decreases k,
{
    if k > 0 {
        lemma_applied_fields(c, fs, (k - 1) as nat);
        if transform_fields(c, fs, (k - 1) as nat) is Ok {
            if let Err(e) = transform_fields(c, fs, k) {
                assert(first_refused(c, fs, k - 1, e));
            }
        }
    }
}

/// A struct, however deep it stands, becomes the struct of what its fields make of its columns, in
/// order, each by itself, under the names, nullability and metadata of the schema's fields. It keeps
/// its null rows. It fails for the first field that cannot be applied, for another number of fields
/// than columns, where there are no columns, where columns differ in length, and where a column has a
/// null that its field and the null rows of the struct do not cover. Anything but a struct is
/// refused.
pub proof fn law_transformed_struct(
    c: Column,
    fs: Seq<FieldView>,
    ancestor: Option<FieldView>,
    path: Seq<char>,
)
    ensures
        match transform(c, TypeView::Struct(fs), ancestor, path) {
            Ok(q) => {
                &&& c is Struct
                &&& q is Struct
                &&& q->Struct_validity == c->Struct_validity
                &&& c->Struct_columns.len() == fs.len()
                &&& q->Struct_columns.len() == fs.len()
                &&& q->Struct_fields.len() == fs.len()
                &&& forall|i: int|
                    #![trigger fs[i]]
                    #![trigger q->Struct_columns[i]]
                    0 <= i < fs.len() ==> {
                        &&& own_part(c, fs, i) == Ok::<Column, ErrorView>(q->Struct_columns[i])
                        &&& !other_id(c, fs, i)
                        &&& q->Struct_fields[i].name == fs[i].name
                        &&& q->Struct_fields[i].nullable == fs[i].nullable
                        &&& q->Struct_fields[i].metadata == arrow_metadata(fs[i].metadata)
                        &&& q->Struct_fields[i].data_type == q->Struct_columns[i].data_type()
                    }
            },
            Err(e) => if !(c is Struct) {
                e == ErrorView::NotStructArray
            } else {
                ||| exists|i: int| #[trigger] first_refused(c, fs, i, e)
                ||| c->Struct_columns.len() != fs.len() && e == (ErrorView::ColumnCount {
                    input: c->Struct_columns.len(),
                    transformed: fs.len(),
                })
                ||| c->Struct_columns.len() == fs.len() && e == ErrorView::Arrow && (fs.len() == 0
                    || exists|i: int|
                    #![trigger fs[i]]
                    0 <= i < fs.len() && own_part(c, fs, i) is Ok && {
                        let x = own_part(c, fs, i)->Ok_0;
                        x.len() != c.len() || (!fs[i].nullable && !x.masked_by(
                            c->Struct_validity,
                        ))
                    })
            },
        },
{
    if c is Struct {
        let count = fewer(c->Struct_columns.len(), fs.len());
        lemma_applied_fields(c, fs, count);
        assert(transform(c, TypeView::Struct(fs), ancestor, path) == transform_struct(c, fs));
        if let Ok(p) = transform_fields(c, fs, count) {
            if count == fs.len() && count == c->Struct_columns.len() && !struct_accepts(
                p.fields,
                p.columns,
                c->Struct_validity,
            ) && count > 0 {
                let i = choose|i: int|
                    #![trigger p.columns[i]]
                    0 <= i < p.columns.len() && !({
                        &&& p.columns[i].len() == c->Struct_validity.len()
                        &&& p.columns[i].data_type() == p.fields[i].data_type
                        &&& p.fields[i].nullable || p.columns[i].masked_by(c->Struct_validity)
                    });
                let f = fs[i];
                assert(own_part(c, fs, i) == Ok::<Column, ErrorView>(p.columns[i]));
            }
        }
    }
}

/// A list becomes the list of what its element type makes of its values, one step further down the
/// path, with the same offsets and null rows. Anything but a list is refused.
pub proof fn law_transformed_list(
    c: Column,
    element: Box<TypeView>,
    contains_null: bool,
    ancestor: Option<FieldView>,
    path: Seq<char>,
)
    ensures
        ({
            let step = dotted(path, "element"@);
            match transform(c, TypeView::Array(element, contains_null), ancestor, path) {
                Ok(q) => {
                    &&& c is List
                    &&& q is List
                    &&& q->List_offsets == c->List_offsets
                    &&& q->List_validity == c->List_validity
                    &&& transform(*c->List_values, *element, ancestor, step) == Ok::<
                        Column,
                        ErrorView,
                    >(*q->List_values)
                    &&& q->List_field.data_type == q->List_values.data_type()
                    &&& q->List_field.nullable == contains_null
                    &&& q->List_field.name == c->List_field.name
                },
                Err(e) => if !(c is List) {
                    e == ErrorView::NotListArray
                } else {
                    ||| ancestor_id(ancestor, step) == Err::<Option<i64>, ErrorView>(e)
                    ||| transform(*c->List_values, *element, ancestor, step) == Err::<
                        Column,
                        ErrorView,
                    >(e)
                    ||| {
                        let v = transform(*c->List_values, *element, ancestor, step);
                        &&& e == ErrorView::Arrow
                        &&& v is Ok
                        &&& c->List_offsets.len() != c.len() + 1 || c->List_offsets.last()
                            > v->Ok_0.len() || (!contains_null && v->Ok_0.has_null())
                    }
                },
            }
        }),
{
}

/// A map becomes the map of what its key and value types make of its keys and values, one step
/// further down the path, with the same offsets, null rows and order. Anything but a map is refused.
pub proof fn law_transformed_map(
    c: Column,
    key: Box<TypeView>,
    value: Box<TypeView>,
    value_contains_null: bool,
    ancestor: Option<FieldView>,
    path: Seq<char>,
)
    ensures
        match transform(c, TypeView::MapOf(key, value, value_contains_null), ancestor, path) {
            Ok(q) => {
                &&& c is MapOf
                &&& q is MapOf
                &&& q->MapOf_offsets == c->MapOf_offsets
                &&& q->MapOf_validity == c->MapOf_validity
                &&& q->MapOf_ordered == c->MapOf_ordered
                &&& *c->MapOf_entries is Struct
                &&& *q->MapOf_entries is Struct
                &&& q->MapOf_entries->Struct_validity == c->MapOf_entries->Struct_validity
                &&& c->MapOf_entries->Struct_columns.len() == 2
                &&& q->MapOf_entries->Struct_columns.len() == 2
                &&& transform(
                    c->MapOf_entries->Struct_columns[0],
                    *key,
                    ancestor,
                    dotted(path, "key"@),
                ) == Ok::<Column, ErrorView>(q->MapOf_entries->Struct_columns[0])
                &&& transform(
                    c->MapOf_entries->Struct_columns[1],
                    *value,
                    ancestor,
                    dotted(path, "value"@),
                ) == Ok::<Column, ErrorView>(q->MapOf_entries->Struct_columns[1])
            },
            Err(e) => !(c is MapOf) ==> e == ErrorView::NotMapArray,
        },
{
}

/// Data without parts passes as it is where it can be read as the type, and is otherwise refused.
pub proof fn law_transformed_leaf(
    c: Column,
    t: TypeView,
    ancestor: Option<FieldView>,
    path: Seq<char>,
)
    requires
        t is Primitive || t is Variant,
    ensures
        match transform(c, t, ancestor, path) {
            Ok(q) => q == c && reads(t, c.data_type()) is Ok,
            Err(e) => reads(t, c.data_type()) == Err::<(), ErrorView>(e),
        },
{
}

/// Where a schema can be applied to a struct, it makes a record batch exactly where no column holds a
/// null, its type not being the null type, under a field that is never null.
pub proof fn law_applied_when(c: Column, fs: Seq<FieldView>)
    ensures
        match transform(c, TypeView::Struct(fs), None, ""@) {
            Err(e) => applied(c, TypeView::Struct(fs)) == Err::<BatchView, ErrorView>(e),
            Ok(q) => if exists|i: int|
                #![trigger q->Struct_columns[i]]
                0 <= i < fs.len() && !fs[i].nullable && q->Struct_columns[i].has_null()
                    && q->Struct_columns[i].data_type() != ArrowType::Null {
                applied(c, TypeView::Struct(fs)) == Err::<BatchView, ErrorView>(ErrorView::Arrow)
            } else {
                &&& applied(c, TypeView::Struct(fs)) is Ok
                &&& applied(c, TypeView::Struct(fs))->Ok_0.columns == q->Struct_columns
                &&& applied(c, TypeView::Struct(fs))->Ok_0.fields == q->Struct_fields
            },
        },
{
    law_transformed_struct(c, fs, None, ""@);
    assert(transform(c, TypeView::Struct(fs), None, ""@) == transform_struct(c, fs));
    if let Ok(q) = transform_struct(c, fs) {
        let count = fewer(c->Struct_columns.len(), fs.len());
        let columns = q->Struct_columns;
        assert(struct_accepts(q->Struct_fields, columns, q->Struct_validity));
        if exists|i: int|
            #![trigger columns[i]]
            0 <= i < fs.len() && !fs[i].nullable && columns[i].has_null() && columns[i].data_type()
                != ArrowType::Null {
            let i = choose|i: int|
                #![trigger columns[i]]
                0 <= i < fs.len() && !fs[i].nullable && columns[i].has_null()
                    && columns[i].data_type() != ArrowType::Null;
            assert(!q->Struct_fields[i].nullable);
            assert(columns[i].has_stored_null());
        } else {
            assert forall|i: int| 0 <= i < columns.len() implies {
                &&& (#[trigger] columns[i]).len() == columns[0].len()
                &&& columns[i].data_type() == q->Struct_fields[i].data_type
                &&& q->Struct_fields[i].nullable || !columns[i].has_stored_null()
            } by {
                let f = fs[i];
            }
            assert(batch_accepts(q->Struct_fields, columns));
        }
    }
}

/// Whatever verdicts there are, applying a schema to a sound array gives the same batch or the same
/// error.
pub proof fn law_cache_makes_no_difference(
    before: Seq<EntryView>,
    other: Seq<EntryView>,
    c: Column,
    t: TypeView,
    r: Result<ArrowBatch, Error>,
    s: Result<ArrowBatch, Error>,
)
    requires
        sound_column(c),
        is_applied(before, c, t, r),
        is_applied(other, c, t, s),
    ensures
        match (r, s) {
            (Ok(a), Ok(b)) => a@ == b@,
            (Err(d), Err(e)) => d@ == e@,
            _ => false,
        },
{
}

/// Whatever verdicts there are, the batch that applying a schema makes of a struct array has its
/// columns, in order and with the same data. Only struct schemas make batches.
pub proof fn law_applied_columns(
    before: Seq<EntryView>,
    c: Column,
    t: TypeView,
    r: Result<ArrowBatch, Error>,
)
    requires
        is_applied(before, c, t, r),
    ensures
        !(t is Struct) ==> r is Err && r->Err_0@ == ErrorView::NotStructSchema,
        r matches Ok(b) ==> {
            &&& t is Struct
            &&& c is Struct
            &&& b@.columns.len() == c->Struct_columns.len()
            &&& forall|i: int|
                #![trigger b@.columns[i]]
                0 <= i < b@.columns.len() ==> same_data(c->Struct_columns[i], b@.columns[i])
        },
{
    if let Ok(b) = r {
        if is_batch_result(r, applied(c, t)) {
            let fs = t->Struct_0;
            law_applied_fields(c, fs);
            assert forall|i: int|
                #![trigger b@.columns[i]]
                0 <= i < b@.columns.len() implies same_data(
                c->Struct_columns[i],
                b@.columns[i],
            ) by {
                assert(b@.fields[i].name == fs[i].name);
            }
        } else {
            assert forall|i: int|
                #![trigger b@.columns[i]]
                0 <= i < b@.columns.len() implies same_data(
                c->Struct_columns[i],
                b@.columns[i],
            ) by {
                lemma_same_data_refl(b@.columns[i]);
            }
        }
    }
}

} // verus!

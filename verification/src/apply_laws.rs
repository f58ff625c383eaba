//! What applying a schema promises.
use crate::apply_schema::{
    applied, fewer, ids_conflict, lemma_transform_fields, target_field, transform, transform_fields,
    transform_struct, Parts,
};
use crate::conversion::{ancestor_id, LIST_ARRAY_ROOT, MAP_KEY_DEFAULT, MAP_VALUE_DEFAULT};
use crate::error::ErrorView;
use crate::metadata::{arrow_metadata, id_metadata, metadata_text, PARQUET_FIELD_ID_META_KEY};
use crate::evaluate::batch_struct;
use crate::model::{struct_accepts, times, ArrowType, BatchView, Column};
use crate::rows::row;
use crate::schema::{FieldView, MetaView, TypeView, NESTED_IDS_KEY, PARQUET_FIELD_ID_KEY};
use crate::text::dotted;
use vstd::prelude::*;

verus! {

/// Whether two columns hold the same values, offsets and null rows, whatever their fields are.
pub open spec fn same_data(a: Column, b: Column) -> bool
    decreases a,
{
    match (a, b) {
        (Column::Leaf { .. }, _) => a == b,
        (
            Column::Struct { columns: p, validity: x, .. },
            Column::Struct { columns: q, validity: y, .. },
        ) => {
            &&& x == y
            &&& p.len() == q.len()
            &&& forall|i: int| 0 <= i < p.len() ==> same_data(#[trigger] p[i], q[i])
        },
        (
            Column::List { offsets: o, values: p, validity: x, .. },
            Column::List { offsets: u, values: q, validity: y, .. },
        ) => {
            &&& o == u
            &&& x == y
            &&& same_data(*p, *q)
        },
        (
            Column::MapOf { offsets: o, entries: p, validity: x, ordered: m, .. },
            Column::MapOf { offsets: u, entries: q, validity: y, ordered: n, .. },
        ) => {
            &&& o == u
            &&& x == y
            &&& m == n
            &&& same_data(*p, *q)
        },
        _ => false,
    }
}

pub proof fn lemma_same_data_refl(a: Column)
    ensures
        same_data(a, a),
    decreases a,
{
    match a {
        Column::Leaf { .. } => {},
        Column::Struct { columns, .. } => {
            assert forall|i: int| 0 <= i < columns.len() implies same_data(
                #[trigger] columns[i],
                columns[i],
            ) by {
                lemma_same_data_refl(columns[i]);
            }
        },
        Column::List { values, .. } => {
            lemma_same_data_refl(*values);
        },
        Column::MapOf { entries, .. } => {
            lemma_same_data_refl(*entries);
        },
    }
}

/// Applying a schema to a column leaves its values, offsets and null rows as they are.
pub proof fn law_transform_keeps_data(
    c: Column,
    t: TypeView,
    ancestor: Option<FieldView>,
    path: Seq<char>,
)
    requires
        transform(c, t, ancestor, path) is Ok,
    ensures
        same_data(c, transform(c, t, ancestor, path)->Ok_0),
    decreases t,
{
    let q = transform(c, t, ancestor, path)->Ok_0;
    match t {
        TypeView::Struct(fs) => {
            assert(transform_struct(c, fs) == Ok::<Column, ErrorView>(q));
            let count = fewer(c->Struct_columns.len(), fs.len());
            lemma_transform_fields(c, fs, count);
            assert forall|i: int| 0 <= i < count implies same_data(
                #[trigger] c->Struct_columns[i],
                q->Struct_columns[i],
            ) by {
                assert(q->Struct_columns[i] == transform_fields(c, fs, count)->Ok_0.columns[i]);
                law_transform_keeps_data(
                    c->Struct_columns[i],
                    fs[i].data_type,
                    Some(fs[i]),
                    fs[i].name,
                );
            }
        },
        TypeView::Array(element, _) => {
            law_transform_keeps_data(
                *c->List_values,
                *element,
                ancestor,
                dotted(path, LIST_ARRAY_ROOT@),
            );
        },
        TypeView::MapOf(key, value, _) => {
            let e = *c->MapOf_entries;
            law_transform_keeps_data(
                e->Struct_columns[0],
                *key,
                ancestor,
                dotted(path, MAP_KEY_DEFAULT@),
            );
            law_transform_keeps_data(
                e->Struct_columns[1],
                *value,
                ancestor,
                dotted(path, MAP_VALUE_DEFAULT@),
            );
            assert forall|i: int| 0 <= i < 2 implies same_data(
                #[trigger] e->Struct_columns[i],
                q->MapOf_entries->Struct_columns[i],
            ) by {
                assert(i == 0 || i == 1);
            }
            assert(same_data(e, *q->MapOf_entries));
        },
        _ => {
            lemma_same_data_refl(c);
        },
    }
}

/// Columns with the same data say the same in every row.
pub proof fn law_same_data_rows(a: Column, b: Column, i: int)
    requires
        same_data(a, b),
    ensures
        a.len() == b.len(),
        row(a, i) == row(b, i),
    decreases a,
{
    match a {
        Column::Leaf { .. } => {},
        Column::Struct { columns, .. } => {
            assert forall|j: int| 0 <= j < columns.len() implies row(#[trigger] columns[j], i)
                == row(b->Struct_columns[j], i) by {
                law_same_data_rows(columns[j], b->Struct_columns[j], i);
            }
            if !a.is_null(i) {
                assert(row(a, i)->Struct_0 =~= row(b, i)->Struct_0);
            }
        },
        Column::List { offsets, values, .. } => {
            if !a.is_null(i) {
                assert forall|j: int| 0 <= j < row(a, i)->List_0.len() implies #[trigger] row(
                    a,
                    i,
                )->List_0[j] == row(b, i)->List_0[j] by {
                    law_same_data_rows(*values, *b->List_values, offsets[i] + j);
                }
                assert(row(a, i)->List_0 =~= row(b, i)->List_0);
            }
        },
        Column::MapOf { offsets, entries, .. } => {
            let f = *b->MapOf_entries;
            if !a.is_null(i) {
                match *entries {
                    Column::Struct { columns, .. } => {
                        assert(same_data(*entries, f));
                        if columns.len() == 2 {
                            assert forall|j: int|
                                0 <= j < row(a, i)->MapOf_0.len() implies #[trigger] row(
                                a,
                                i,
                            )->MapOf_0[j] == row(b, i)->MapOf_0[j] by {
                                assert(same_data(columns[0], f->Struct_columns[0]));
                                assert(same_data(columns[1], f->Struct_columns[1]));
                                law_same_data_rows(
                                    columns[0],
                                    f->Struct_columns[0],
                                    offsets[i] + j,
                                );
                                law_same_data_rows(
                                    columns[1],
                                    f->Struct_columns[1],
                                    offsets[i] + j,
                                );
                            }
                            assert(row(a, i)->MapOf_0 =~= row(b, i)->MapOf_0);
                        }
                    },
                    Column::Leaf { .. } => {
                        assert(same_data(*entries, f));
                    },
                    Column::List { .. } => {
                        assert(same_data(*entries, f));
                    },
                    Column::MapOf { .. } => {
                        assert(same_data(*entries, f));
                    },
                }
            }
        },
    }
}

/// The batch that applying a schema makes has the columns of the array, one for each field of the
/// schema, in order and with the same data, under fields with the names, nullability and metadata of
/// the schema's fields.
pub proof fn law_applied_fields(c: Column, fs: Seq<FieldView>)
    requires
        applied(c, TypeView::Struct(fs)) is Ok,
    ensures
        ({
            let b = applied(c, TypeView::Struct(fs))->Ok_0;
            &&& b.columns.len() == c->Struct_columns.len()
            &&& b.fields.len() == b.columns.len()
            &&& b.fields.len() == fs.len()
            &&& b.rows == c.len()
            &&& forall|i: int|
                #![trigger b.fields[i]]
                0 <= i < b.fields.len() ==> {
                    &&& b.fields[i].name == fs[i].name
                    &&& b.fields[i].nullable == fs[i].nullable
                    &&& b.fields[i].metadata == arrow_metadata(fs[i].metadata)
                    &&& b.fields[i].data_type == b.columns[i].data_type()
                    &&& same_data(c->Struct_columns[i], b.columns[i])
                }
        }),
{
    let b = applied(c, TypeView::Struct(fs))->Ok_0;
    let count = fewer(c->Struct_columns.len(), fs.len());
    lemma_transform_fields(c, fs, count);
    let p = transform_fields(c, fs, count)->Ok_0;
    assert forall|i: int| 0 <= i < count implies {
        &&& (#[trigger] b.fields[i]) == target_field(fs[i], b.columns[i].data_type())
        &&& same_data(c->Struct_columns[i], b.columns[i])
    } by {
        assert(b.columns[i] == p.columns[i]);
        law_transform_keeps_data(
            c->Struct_columns[i],
            fs[i].data_type,
            Some(fs[i]),
            fs[i].name,
        );
    }
}

/// The fields inside lists and maps, which a schema does not name, keep their names. Their
/// nullability is that of the schema, and their metadata nothing but the field id that the nearest
/// struct field holds for them.
pub proof fn law_unnamed_fields(
    c: Column,
    t: TypeView,
    ancestor: Option<FieldView>,
    path: Seq<char>,
)
    requires
        transform(c, t, ancestor, path) is Ok,
    ensures
        ({
            let q = transform(c, t, ancestor, path)->Ok_0;
            match t {
                TypeView::Array(_, contains_null) => {
                    let id = ancestor_id(ancestor, dotted(path, LIST_ARRAY_ROOT@));
                    &&& id is Ok
                    &&& q->List_field.name == c->List_field.name
                    &&& q->List_field.nullable == contains_null
                    &&& q->List_field.metadata == id_metadata(id->Ok_0)
                },
                TypeView::MapOf(_, _, value_contains_null) => {
                    let key_id = ancestor_id(ancestor, dotted(path, MAP_KEY_DEFAULT@));
                    let value_id = ancestor_id(ancestor, dotted(path, MAP_VALUE_DEFAULT@));
                    let inputs = c->MapOf_entries->Struct_fields;
                    let outputs = q->MapOf_entries->Struct_fields;
                    &&& key_id is Ok && value_id is Ok
                    &&& q->MapOf_field.name == c->MapOf_field.name
                    &&& q->MapOf_field.nullable == c->MapOf_field.nullable
                    &&& q->MapOf_field.metadata == Map::<Seq<char>, Seq<char>>::empty()
                    &&& outputs.len() == 2
                    &&& outputs[0].name == inputs[0].name
                    &&& outputs[1].name == inputs[1].name
                    &&& !outputs[0].nullable
                    &&& outputs[1].nullable == value_contains_null
                    &&& outputs[0].metadata == id_metadata(key_id->Ok_0)
                    &&& outputs[1].metadata == id_metadata(value_id->Ok_0)
                },
                _ => true,
            }
        }),
{
}

/// No field id is written over another one: a schema that says another id than the data fails.
pub proof fn law_field_ids_agree(c: Column, fs: Seq<FieldView>)
    requires
        transform_struct(c, fs) is Ok,
    ensures
        forall|i: int|
            #![trigger fs[i]]
            0 <= i < c->Struct_columns.len() ==> !ids_conflict(
                c->Struct_fields[i],
                arrow_metadata(fs[i].metadata),
            ),
{
    let count = fewer(c->Struct_columns.len(), fs.len());
    lemma_transform_fields(c, fs, count);
    let p = transform_fields(c, fs, count)->Ok_0;
    assert forall|i: int|
        #![trigger fs[i]]
        0 <= i < c->Struct_columns.len() implies !ids_conflict(
        c->Struct_fields[i],
        arrow_metadata(fs[i].metadata),
    ) by {
        assert(p.columns[i] == transform_fields(c, fs, count)->Ok_0.columns[i]);
    }
}

/// A schema that was applied once has nothing left to change.
pub proof fn law_transform_idempotent(
    c: Column,
    t: TypeView,
    ancestor: Option<FieldView>,
    path: Seq<char>,
)
    requires
        transform(c, t, ancestor, path) is Ok,
    ensures
        ({
            let q = transform(c, t, ancestor, path)->Ok_0;
            transform(q, t, ancestor, path) == Ok::<Column, ErrorView>(q)
        }),
    decreases t, 0nat,
{
    let q = transform(c, t, ancestor, path)->Ok_0;
    match t {
        TypeView::Struct(fs) => {
            assert(transform_struct(c, fs) == Ok::<Column, ErrorView>(q));
            let count = fewer(c->Struct_columns.len(), fs.len());
            lemma_transform_fields(c, fs, count);
            lemma_idempotent_fields(c, fs, count);
            assert(q->Struct_fields.take(count as int) =~= q->Struct_fields);
            assert(q->Struct_columns.take(count as int) =~= q->Struct_columns);
            assert(transform_struct(q, fs) == Ok::<Column, ErrorView>(q));
        },
        TypeView::Array(element, _) => {
            law_transform_idempotent(
                *c->List_values,
                *element,
                ancestor,
                dotted(path, LIST_ARRAY_ROOT@),
            );
        },
        TypeView::MapOf(key, value, _) => {
            let e = *c->MapOf_entries;
            law_transform_idempotent(
                e->Struct_columns[0],
                *key,
                ancestor,
                dotted(path, MAP_KEY_DEFAULT@),
            );
            law_transform_idempotent(
                e->Struct_columns[1],
                *value,
                ancestor,
                dotted(path, MAP_VALUE_DEFAULT@),
            );
        },
        _ => {},
    }
}

proof fn lemma_idempotent_fields(c: Column, fs: Seq<FieldView>, k: nat)
    requires
        c is Struct,
        transform_struct(c, fs) is Ok,
        k <= c->Struct_columns.len(),
    ensures
        k <= fs.len(),
        ({
            let q = transform_struct(c, fs)->Ok_0;
            transform_fields(q, fs, k) == Ok::<Parts, ErrorView>(
                Parts {
                    fields: q->Struct_fields.take(k as int),
                    columns: q->Struct_columns.take(k as int),
                },
            )
        }),
    decreases fs, k,
{
    let q = transform_struct(c, fs)->Ok_0;
    let count = fewer(c->Struct_columns.len(), fs.len());
    lemma_transform_fields(c, fs, count);
    let p = transform_fields(c, fs, count)->Ok_0;
    assert(p.columns == q->Struct_columns);
    assert(p.fields == q->Struct_fields);
    if k > 0 {
        lemma_idempotent_fields(c, fs, (k - 1) as nat);
        let f = fs[k - 1];
        assert(transform(c->Struct_columns[k - 1], f.data_type, Some(f), f.name) == Ok::<
            Column,
            ErrorView,
        >(p.columns[k - 1]));
        law_transform_idempotent(c->Struct_columns[k - 1], fs[k - 1].data_type, Some(f), f.name);
        assert(q->Struct_fields[k - 1] == target_field(f, p.columns[k - 1].data_type()));
        assert(q->Struct_fields.take(k as int) =~= q->Struct_fields.take(k - 1).push(
            q->Struct_fields[k - 1],
        ));
        assert(q->Struct_columns.take(k as int) =~= q->Struct_columns.take(k - 1).push(
            q->Struct_columns[k - 1],
        ));
    } else {
        assert(q->Struct_fields.take(0) =~= seq![]);
        assert(q->Struct_columns.take(0) =~= seq![]);
    }
}

/// What applying fields makes of a struct depends on its fields and columns alone.
proof fn lemma_transform_fields_of(c: Column, d: Column, fs: Seq<FieldView>, k: nat)
    requires
        c->Struct_fields == d->Struct_fields,
        c->Struct_columns == d->Struct_columns,
    ensures
        transform_fields(c, fs, k) == transform_fields(d, fs, k),
    decreases k,
{
    if k > 0 && k <= fs.len() {
        lemma_transform_fields_of(c, d, fs, (k - 1) as nat);
    }
}

/// A schema that made a record batch gives that batch again. It does not where a field that is never
/// null has a column of the null type with rows: those are no nulls to a batch, but to a struct.
pub proof fn law_applied_idempotent(c: Column, fs: Seq<FieldView>)
    requires
        applied(c, TypeView::Struct(fs)) is Ok,
        ({
            let b = applied(c, TypeView::Struct(fs))->Ok_0;
            forall|i: int|
                #![trigger b.columns[i]]
                0 <= i < b.columns.len() ==> b.fields[i].nullable || b.columns[i].data_type()
                    != ArrowType::Null || b.rows == 0
        }),
    ensures
        ({
            let b = applied(c, TypeView::Struct(fs))->Ok_0;
            applied(batch_struct(b), TypeView::Struct(fs)) == Ok::<BatchView, ErrorView>(b)
        }),
{
    let b = applied(c, TypeView::Struct(fs))->Ok_0;
    let q = transform_struct(c, fs)->Ok_0;
    let d = batch_struct(b);
    let count = fs.len();
    lemma_transform_fields(c, fs, count);
    lemma_idempotent_fields(c, fs, count);
    lemma_transform_fields_of(q, d, fs, count);
    assert(q->Struct_fields.take(count as int) =~= q->Struct_fields);
    assert(q->Struct_columns.take(count as int) =~= q->Struct_columns);
    assert forall|i: int| 0 <= i < b.columns.len() implies {
        &&& (#[trigger] b.columns[i]).len() == b.rows
        &&& b.columns[i].data_type() == b.fields[i].data_type
        &&& b.fields[i].nullable || b.columns[i].masked_by(times(true, b.rows))
    } by {
        let x = b.columns[i];
        if !b.fields[i].nullable {
            assert(!x.has_stored_null());
            if x.data_type() != ArrowType::Null {
                assert forall|j: int| 0 <= j < x.len() && #[trigger] x.is_null(j) implies false by {
                    assert(x.has_null());
                }
            }
        }
    }
    assert(struct_accepts(b.fields, b.columns, times(true, b.rows)));
}

/// Field ids go to Arrow under the key of Parquet alone, and nested field ids do not go at all.
pub proof fn law_field_id_key(m: Map<Seq<char>, MetaView>)
    ensures
        !arrow_metadata(m).contains_key(PARQUET_FIELD_ID_KEY@),
        !arrow_metadata(m).contains_key(NESTED_IDS_KEY@),
        m.contains_key(PARQUET_FIELD_ID_KEY@) ==> {
            &&& arrow_metadata(m).contains_key(PARQUET_FIELD_ID_META_KEY@)
            &&& arrow_metadata(m)[PARQUET_FIELD_ID_META_KEY@] == metadata_text(
                m[PARQUET_FIELD_ID_KEY@],
            )
        },
{
    reveal_strlit("parquet.field.id");
    reveal_strlit("PARQUET:field_id");
    reveal_strlit("delta.columnMapping.nested.ids");
    assert(PARQUET_FIELD_ID_META_KEY@[0] != PARQUET_FIELD_ID_KEY@[0]);
    assert(PARQUET_FIELD_ID_META_KEY@[0] != NESTED_IDS_KEY@[0]);
}

} // verus!

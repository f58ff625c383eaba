//! When applying a schema succeeds.
use crate::apply_schema::{
    applied, fewer, lemma_transform_fields, transform, transform_fields, transform_struct,
};
use crate::building::{admitted, lemma_append_each_finishable};
use crate::conversion::{arrow_fields, arrow_type, lemma_arrow_fields};
use crate::conversion_laws::{
    has_no_nested_ids, is_plain, law_primitive_reads, law_primitive_type,
};
use crate::data_types::{primitive_reads, reads};
use crate::error::ErrorView;
use crate::evaluate::batch_struct;
use crate::growth::{lemma_append_each_grows, sound_builder};
use crate::handler::{
    column_scalars, is_table, lemma_append_rows, lemma_table_columns, table_batch, table_columns,
    table_fits,
};
use crate::identity::{law_identity, retype, retype_fields, retype_struct, sound_column};
use crate::metadata::arrow_metadata;
use crate::model::{
    batch_accepts, empty_column, finishable, times, ArrowField, ArrowType, BatchView, Column,
};
use crate::scalars::Scalar;
use crate::schema::{FieldView, TypeView};
use crate::tables::{is_required, lemma_null_type};
use crate::text::dotted;
use crate::to_array::lemma_new_builder;
use vstd::prelude::*;

verus! {

/// Whether every struct in a type has fields. Arrow cannot rebuild one that has none.
pub open spec fn has_fields(t: TypeView) -> bool
    decreases t,
{
    match t {
        TypeView::Struct(fs) => fs.len() > 0 && forall|i: int|
            0 <= i < fs.len() ==> has_fields((#[trigger] fs[i]).data_type),
        TypeView::Array(element, _) => has_fields(*element),
        TypeView::MapOf(key, value, _) => has_fields(*key) && has_fields(*value),
        _ => true,
    }
}

proof fn lemma_own_type(t: TypeView, ancestor: Option<FieldView>, path: Seq<char>)
    requires
        has_fields(t),
        arrow_type(t, ancestor, path) is Ok,
    ensures
        retype(arrow_type(t, ancestor, path)->Ok_0, t, ancestor, path) == arrow_type(
            t,
            ancestor,
            path,
        ),
    decreases t, 0nat,
{
    match t {
        TypeView::Primitive(p) => {
            law_primitive_type(p, ancestor, path);
            let a = arrow_type(t, ancestor, path)->Ok_0;
            law_primitive_reads(p, a);
            assert(primitive_reads(p, a));
        },
        TypeView::Array(element, _) => {
            lemma_own_type(*element, ancestor, dotted(path, "element"@));
        },
        TypeView::MapOf(key, value, _) => {
            lemma_own_type(*key, ancestor, dotted(path, "key"@));
            lemma_own_type(*value, ancestor, dotted(path, "value"@));
        },
        TypeView::Struct(fs) => {
            lemma_own_fields(fs, fs.len());
            let fields = arrow_fields(fs, fs.len())->Ok_0;
            lemma_arrow_fields(fs, fs.len());
            assert(fields.take(fs.len() as int) =~= fields);
            assert(retype_struct(fields, fs) == Ok::<Seq<ArrowField>, ErrorView>(fields));
        },
        TypeView::Variant(_) => {},
    }
}

proof fn lemma_own_fields(fs: Seq<FieldView>, k: nat)
    requires
        k <= fs.len(),
        forall|i: int| 0 <= i < fs.len() ==> has_fields((#[trigger] fs[i]).data_type),
        arrow_fields(fs, fs.len()) is Ok,
    ensures
        retype_fields(arrow_fields(fs, fs.len())->Ok_0, fs, k) == Ok::<Seq<ArrowField>, ErrorView>(
            arrow_fields(fs, fs.len())->Ok_0.take(k as int),
        ),
    decreases fs, k,
{
    let fields = arrow_fields(fs, fs.len())->Ok_0;
    lemma_arrow_fields(fs, fs.len());
    if k == 0 {
        assert(fields.take(0) =~= seq![]);
    } else {
        lemma_own_fields(fs, (k - 1) as nat);
        let f = fs[k - 1];
        let a = fields[k - 1];
        assert(has_fields(f.data_type));
        assert(a.name == f.name);
        lemma_own_type(fs[k - 1].data_type, Some(f), f.name);
        assert(fields.take(k as int) =~= fields.take(k - 1).push(a));
    }
}

/// Data of the very Arrow type that a kernel type stands for passes through as it is.
pub proof fn law_own_type_passes(
    c: Column,
    t: TypeView,
    ancestor: Option<FieldView>,
    path: Seq<char>,
)
    requires
        sound_column(c),
        has_fields(t),
        arrow_type(t, ancestor, path) == Ok::<ArrowType, ErrorView>(c.data_type()),
    ensures
        transform(c, t, ancestor, path) == Ok::<Column, ErrorView>(c),
{
    lemma_own_type(t, ancestor, path);
    law_identity(c, t, ancestor, path);
}

/// A batch whose fields are those of a schema is what applying that schema to it gives.
pub proof fn law_own_schema_passes(b: BatchView, fs: Seq<FieldView>)
    requires
        has_fields(TypeView::Struct(fs)),
        arrow_fields(fs, fs.len()) == Ok::<Seq<ArrowField>, ErrorView>(b.fields),
        sound_column(batch_struct(b)),
    ensures
        applied(batch_struct(b), TypeView::Struct(fs)) == Ok::<BatchView, ErrorView>(b),
{
    let t = TypeView::Struct(fs);
    let c = batch_struct(b);
    lemma_arrow_fields(fs, fs.len());
    law_own_type_passes(c, t, None, ""@);
    assert(transform_struct(c, fs) == Ok::<Column, ErrorView>(c));
    assert forall|i: int| 0 <= i < b.columns.len() implies {
        &&& (#[trigger] b.columns[i]).len() == b.columns[0].len()
        &&& b.columns[i].data_type() == b.fields[i].data_type
        &&& b.fields[i].nullable || !b.columns[i].has_stored_null()
    } by {
        assert(b.columns[0].len() == b.rows);
    }
    assert(batch_accepts(b.fields, b.columns));
}

/// What an array builder holds when it is finished is a sound array.
proof fn lemma_built_sound(c: Column)
    requires
        sound_builder(c),
        finishable(c),
    ensures
        sound_column(c),
    decreases c,
{
    match c {
        Column::Leaf { .. } => {},
        Column::Struct { columns, .. } => {
            assert forall|i: int| 0 <= i < columns.len() implies sound_column(
                #[trigger] columns[i],
            ) by {
                assert(sound_builder(columns[i]));
                assert(finishable(columns[i]));
                lemma_built_sound(columns[i]);
            }
        },
        Column::List { values, .. } => {
            lemma_built_sound(*values);
        },
        Column::MapOf { entries, .. } => {
            lemma_built_sound(*entries);
        },
    }
}

/// Applying a schema to a batch that was made from that schema gives the batch again. It does not
/// where a field of the null type is never null: its rows are no nulls to a batch, but to a struct.
pub proof fn law_created_batch_passes(fs: Seq<FieldView>, rows: Seq<Seq<Scalar>>)
    requires
        table_fits(fs, rows),
        rows.len() > 0,
        table_batch(fs, rows) is Ok,
        has_fields(TypeView::Struct(fs)),
        forall|i: int|
            #![trigger fs[i]]
            0 <= i < fs.len() ==> fs[i].nullable || is_required(fs[i]),
    ensures
        ({
            let b = table_batch(fs, rows)->Ok_0;
            applied(batch_struct(b), TypeView::Struct(fs)) == Ok::<BatchView, ErrorView>(b)
        }),
{
    let b = table_batch(fs, rows)->Ok_0;
    let fields = arrow_fields(fs, fs.len())->Ok_0;
    lemma_arrow_fields(fs, fs.len());
    assert(is_table(rows, fs.len()));
    lemma_table_columns(fs, fields, rows, fs.len());
    assert forall|i: int| 0 <= i < b.columns.len() implies {
        &&& sound_column(#[trigger] b.columns[i])
        &&& b.columns[i].len() == b.rows
        &&& b.columns[i].data_type() == fields[i].data_type
        &&& fields[i].nullable || b.columns[i].masked_by(times(true, b.rows))
    } by {
        let t = fields[i].data_type;
        let column = column_scalars(rows, i);
        let x = b.columns[i];
        assert(x == table_columns(fs, fields, rows, fs.len())->Ok_0[i]);
        assert(fields[i].name == fs[i].name);
        lemma_new_builder(fs[i].data_type, Some(fs[i]), fs[i].name);
        lemma_append_rows(empty_column(t), column, rows.len());
        assert(forall|r: int|
            0 <= r < column.len() ==> admitted(#[trigger] column[r], t));
        lemma_append_each_finishable(empty_column(t), column, column.len(), true);
        lemma_append_each_grows(empty_column(t), column, column.len());
        lemma_built_sound(x);
        if !fields[i].nullable {
            assert(is_required(fs[i]));
            lemma_null_type(fs[i].data_type, Some(fs[i]), fs[i].name);
            assert(!x.has_stored_null());
            assert forall|q: int| 0 <= q < x.len() && #[trigger] x.is_null(q) implies !times(
                true,
                b.rows,
            )[q] by {
                assert(x.has_null());
            }
        }
    }
    assert(sound_column(batch_struct(b)));
    law_own_schema_passes(b, fs);
}

/// Whether a struct field's id, if data carries one, is the one that the schema says, or the schema
/// says none.
pub open spec fn ids_agree(input: ArrowField, f: FieldView) -> bool {
    let key = "PARQUET:field_id"@;
    let target = arrow_metadata(f.metadata);
    input.metadata.contains_key(key) && target.contains_key(key) ==> input.metadata[key]
        == target[key]
}

/// Whether data fits a kernel type: it has the same structs, lists and maps, whatever the names of
/// their fields, it holds data that can be read as the types without parts, it is null only where the
/// type admits it, and field ids agree.
pub open spec fn fits(c: Column, t: TypeView) -> bool
    decreases t,
{
    match t {
        TypeView::Struct(fs) => {
            &&& c is Struct
            &&& fs.len() > 0
            &&& c->Struct_columns.len() == fs.len()
            &&& c->Struct_fields.len() == fs.len()
            &&& forall|i: int|
                #![trigger fs[i]]
                0 <= i < fs.len() ==> {
                    let x = c->Struct_columns[i];
                    &&& x.len() == c.len()
                    &&& fs[i].nullable || x.masked_by(c->Struct_validity)
                    &&& ids_agree(c->Struct_fields[i], fs[i])
                    &&& fits(x, fs[i].data_type)
                }
        },
        TypeView::Array(element, contains_null) => {
            &&& c is List
            &&& c->List_offsets.len() == c.len() + 1
            &&& c->List_offsets.last() <= c->List_values.len()
            &&& contains_null || !c->List_values.has_null()
            &&& fits(*c->List_values, *element)
        },
        TypeView::MapOf(key, value, value_contains_null) => {
            &&& c is MapOf
            &&& !c->MapOf_field.nullable
            &&& c->MapOf_offsets.len() == c.len() + 1
            &&& c->MapOf_offsets.last() <= c->MapOf_entries.len()
            &&& *c->MapOf_entries is Struct
            &&& !c->MapOf_entries.has_null()
            &&& c->MapOf_entries->Struct_columns.len() == 2
            &&& c->MapOf_entries->Struct_fields.len() == 2
            &&& c->MapOf_entries->Struct_columns[0].len() == c->MapOf_entries.len()
            &&& c->MapOf_entries->Struct_columns[1].len() == c->MapOf_entries.len()
            &&& !c->MapOf_entries->Struct_columns[0].has_null()
            &&& value_contains_null || !c->MapOf_entries->Struct_columns[1].has_null()
            &&& fits(c->MapOf_entries->Struct_columns[0], *key)
            &&& fits(c->MapOf_entries->Struct_columns[1], *value)
        },
        _ => reads(t, c.data_type()) is Ok,
    }
}

/// A transform leaves the null rows as they are.
proof fn lemma_transform_nulls(
    c: Column,
    t: TypeView,
    ancestor: Option<FieldView>,
    path: Seq<char>,
)
    requires
        transform(c, t, ancestor, path) is Ok,
    ensures
        ({
            let q = transform(c, t, ancestor, path)->Ok_0;
            &&& q.len() == c.len()
            &&& forall|i: int| #[trigger] q.is_null(i) == c.is_null(i)
        }),
{
    match t {
        TypeView::Struct(fs) => {
            assert(transform_struct(c, fs) is Ok);
        },
        _ => {},
    }
}

/// Applying a kernel type to data that fits it succeeds.
pub proof fn law_fitting_data_passes(
    c: Column,
    t: TypeView,
    ancestor: Option<FieldView>,
    path: Seq<char>,
)
    requires
        fits(c, t),
        is_plain(t),
        ancestor matches Some(f) ==> has_no_nested_ids(f),
    ensures
        transform(c, t, ancestor, path) is Ok,
    decreases t, 0nat,
{
    match t {
        TypeView::Struct(fs) => {
            lemma_fitting_fields(c, fs, fs.len());
            let p = transform_fields(c, fs, fs.len())->Ok_0;
            lemma_transform_fields(c, fs, fs.len());
            assert forall|i: int| 0 <= i < fs.len() implies {
                &&& (#[trigger] p.columns[i]).len() == c->Struct_validity.len()
                &&& p.columns[i].data_type() == p.fields[i].data_type
                &&& p.fields[i].nullable || p.columns[i].masked_by(c->Struct_validity)
            } by {
                let f = fs[i];
                let x = c->Struct_columns[i];
                assert(p.columns[i] == transform_fields(c, fs, fs.len())->Ok_0.columns[i]);
                lemma_transform_nulls(x, f.data_type, Some(f), f.name);
                if !f.nullable {
                    assert forall|j: int|
                        0 <= j < p.columns[i].len() && #[trigger] p.columns[i].is_null(
                            j,
                        ) implies !c->Struct_validity[j] by {
                        assert(x.is_null(j));
                    }
                }
            }
            assert(fewer(c->Struct_columns.len(), fs.len()) == fs.len());
            assert(transform_struct(c, fs) is Ok);
        },
        TypeView::Array(element, contains_null) => {
            let path = dotted(path, "element"@);
            law_fitting_data_passes(*c->List_values, *element, ancestor, path);
            lemma_transform_nulls(*c->List_values, *element, ancestor, path);
            lemma_same_nulls(
                *c->List_values,
                transform(*c->List_values, *element, ancestor, path)->Ok_0,
            );
        },
        TypeView::MapOf(key, value, value_contains_null) => {
            let e = *c->MapOf_entries;
            let (kp, vp) = (dotted(path, "key"@), dotted(path, "value"@));
            let (kc, vc) = (e->Struct_columns[0], e->Struct_columns[1]);
            law_fitting_data_passes(kc, *key, ancestor, kp);
            law_fitting_data_passes(vc, *value, ancestor, vp);
            lemma_transform_nulls(kc, *key, ancestor, kp);
            lemma_transform_nulls(vc, *value, ancestor, vp);
            let k = transform(kc, *key, ancestor, kp)->Ok_0;
            let v = transform(vc, *value, ancestor, vp)->Ok_0;
            lemma_same_nulls(kc, k);
            lemma_same_nulls(vc, v);
            lemma_unmasked(k, e->Struct_validity);
            if !value_contains_null {
                lemma_unmasked(v, e->Struct_validity);
            }
            lemma_entries_nulls(e);
        },
        _ => {},
    }
}

proof fn lemma_entries_nulls(e: Column)
    requires
        e is Struct,
        !e.has_null(),
    ensures
        forall|fields: Seq<ArrowField>, columns: Seq<Column>|
            !#[trigger] (Column::Struct { fields, columns, validity: e->Struct_validity }).has_null(),
{
    assert forall|fields: Seq<ArrowField>, columns: Seq<Column>|
        !#[trigger] (Column::Struct { fields, columns, validity: e->Struct_validity }).has_null() by {
        let q = Column::Struct { fields, columns, validity: e->Struct_validity };
        if q.has_null() {
            let i = choose|i: int| 0 <= i < q.len() && #[trigger] q.is_null(i);
            assert(e.is_null(i));
        }
    }
}

proof fn lemma_same_nulls(a: Column, b: Column)
    requires
        a.len() == b.len(),
        forall|i: int| #[trigger] b.is_null(i) == a.is_null(i),
    ensures
        a.has_null() == b.has_null(),
{
    if a.has_null() {
        let i = choose|i: int| 0 <= i < a.len() && #[trigger] a.is_null(i);
        assert(b.is_null(i));
    }
    if b.has_null() {
        let i = choose|i: int| 0 <= i < b.len() && #[trigger] b.is_null(i);
        assert(a.is_null(i));
    }
}

proof fn lemma_unmasked(c: Column, validity: Seq<bool>)
    requires
        !c.has_null(),
    ensures
        c.masked_by(validity),
{
    assert forall|i: int| 0 <= i < c.len() && #[trigger] c.is_null(i) implies !validity[i] by {
        assert(c.has_null());
    }
}

proof fn lemma_fitting_fields(c: Column, fs: Seq<FieldView>, k: nat)
    requires
        k <= fs.len(),
        fits(c, TypeView::Struct(fs)),
        is_plain(TypeView::Struct(fs)),
    ensures
        transform_fields(c, fs, k) is Ok,
    decreases fs, k,
{
    if k > 0 {
        lemma_fitting_fields(c, fs, (k - 1) as nat);
        let f = fs[k - 1];
        assert(fits(c->Struct_columns[k - 1], f.data_type));
        assert(ids_agree(c->Struct_fields[k - 1], f));
        assert(is_plain(f.data_type) && has_no_nested_ids(f));
        law_fitting_data_passes(c->Struct_columns[k - 1], fs[k - 1].data_type, Some(f), f.name);
    }
}

} // verus!

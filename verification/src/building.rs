//! What a builder holds stays something that an array can be made of.
use crate::append::{
    append, append_each, append_fields, append_lists, append_maps, append_null, append_null_fields,
    append_pairs,
};
use crate::arrow_builders::{
    is_map, map_keys, map_values, with_list_rows, with_map_row, with_struct_rows, with_values,
};
use crate::growth::{
    lemma_append_each_grows, lemma_append_grows, lemma_append_lists_grows, lemma_append_maps_grows,
    lemma_append_null_grows, lemma_append_pairs_grows, lemma_grown_len, lemma_sound_map,
    sound_builder,
};
use crate::model::{finishable, list_accepts, map_accepts, times, ArrowType, Column};
use crate::scalars::Scalar;
use crate::schema::{FieldView, TypeView};
use vstd::prelude::*;

verus! {

/// Whether a scalar can stand in a column of type `t` if it can be appended to it: a struct has as
/// many values as fields, and nothing is null where the type says that it is not.
pub open spec fn admitted(s: Scalar, t: ArrowType) -> bool
    decreases s,
{
    match s {
        Scalar::Struct(d) => match t {
            ArrowType::Struct(fs) => d.fields@.len() == fs.len() ==> {
                &&& d.values@.len() == fs.len()
                &&& forall|i: int|
                    #![trigger d.values@[i]]
                    0 <= i < d.values@.len() ==> {
                        &&& admitted(d.values@[i], fs[i].data_type)
                        &&& d.values@[i] is Null ==> fs[i].nullable
                    }
            },
            _ => true,
        },
        Scalar::Array(d) => match t {
            ArrowType::List(f) => forall|i: int|
                #![trigger d.elements@[i]]
                0 <= i < d.elements@.len() ==> {
                    &&& admitted(d.elements@[i], f.data_type)
                    &&& d.elements@[i] is Null ==> f.nullable
                },
            _ => true,
        },
        Scalar::MapOf(d) => match t {
            ArrowType::MapOf(f, _) => match f.data_type {
                ArrowType::Struct(fs) => forall|i: int|
                    #![trigger d.pairs@[i]]
                    0 <= i < d.pairs@.len() ==> {
                        &&& admitted(d.pairs@[i].0, fs[0].data_type)
                        &&& admitted(d.pairs@[i].1, fs[1].data_type)
                        &&& !(d.pairs@[i].0 is Null)
                        &&& d.pairs@[i].1 is Null ==> fs[1].nullable
                    },
                _ => true,
            },
            _ => true,
        },
        _ => true,
    }
}

/// Whether `b` has the rows of `a` and `n` more, which are null or not as `null` says.
pub open spec fn more_rows(a: Column, b: Column, n: nat, null: bool) -> bool {
    &&& b.len() == a.len() + n
    &&& forall|i: int| 0 <= i < a.len() ==> #[trigger] b.is_null(i) == a.is_null(i)
    &&& forall|i: int| a.len() <= i < b.len() ==> #[trigger] b.is_null(i) == null
}

/// Appending null rows adds that many, all of them null.
pub proof fn lemma_append_null_rows(c: Column, t: TypeView, n: nat)
    requires
        sound_builder(c),
        append_null(c, t, n).error is None,
    ensures
        more_rows(c, append_null(c, t, n).column, n, true),
{
    match t {
        TypeView::Struct(fs) => {
            lemma_append_null_fields_at(c, fs, fs.len(), n);
        },
        _ => {},
    }
}

/// Appending a scalar adds as many rows as asked for, and they are null where the scalar is.
pub proof fn lemma_append_rows(c: Column, s: Scalar, n: nat)
    requires
        sound_builder(c),
        append(c, s, n).error is None,
    ensures
        more_rows(c, append(c, s, n).column, n, s is Null),
{
    match s {
        Scalar::Struct(d) => {
            lemma_append_fields_at(c, d.values@, if d.values@.len() < d.fields@.len() {
                d.values@.len()
            } else {
                d.fields@.len()
            }, n);
        },
        Scalar::Array(d) => {
            lemma_append_lists_rows(c, d.elements@, n);
        },
        Scalar::MapOf(d) => {
            lemma_append_maps_rows(c, d.pairs@, n);
        },
        Scalar::Null(t) => {
            lemma_append_null_rows(c, t@, n);
        },
        _ => {},
    }
}

/// What the children of a struct are after null rows went to the first `k` of them.
pub proof fn lemma_append_null_fields_at(c: Column, fs: Seq<FieldView>, k: nat, n: nat)
    requires
        c is Struct,
        c->Struct_columns.len() == fs.len(),
        k <= fs.len(),
        append_null_fields(c, fs, k, n).error is None,
    ensures
        ({
            let r = append_null_fields(c, fs, k, n).column;
            &&& r is Struct
            &&& r->Struct_fields == c->Struct_fields
            &&& r->Struct_validity == c->Struct_validity
            &&& r->Struct_columns.len() == c->Struct_columns.len()
            &&& forall|i: int|
                #![trigger r->Struct_columns[i]]
                0 <= i < k ==> {
                    let a = append_null(c->Struct_columns[i], fs[i].data_type, n);
                    a.error is None && r->Struct_columns[i] == a.column
                }
            &&& forall|i: int|
                #![trigger r->Struct_columns[i]]
                k <= i < fs.len() ==> r->Struct_columns[i] == c->Struct_columns[i]
        }),
    decreases k,
{
    if k > 0 {
        lemma_append_null_fields_at(c, fs, (k - 1) as nat, n);
    }
}

/// What the children of a struct are after the first `k` of them got their value.
pub proof fn lemma_append_fields_at(c: Column, values: Seq<Scalar>, k: nat, n: nat)
    requires
        c is Struct,
        k <= c->Struct_columns.len(),
        k <= values.len(),
        append_fields(c, values, k, n).error is None,
    ensures
        ({
            let r = append_fields(c, values, k, n).column;
            &&& r is Struct
            &&& r->Struct_fields == c->Struct_fields
            &&& r->Struct_validity == c->Struct_validity
            &&& r->Struct_columns.len() == c->Struct_columns.len()
            &&& forall|i: int|
                #![trigger r->Struct_columns[i]]
                0 <= i < k ==> {
                    let a = append(c->Struct_columns[i], values[i], n);
                    a.error is None && r->Struct_columns[i] == a.column
                }
            &&& forall|i: int|
                #![trigger r->Struct_columns[i]]
                k <= i < c->Struct_columns.len() ==> r->Struct_columns[i] == c->Struct_columns[i]
        }),
    decreases k,
{
    if k > 0 {
        lemma_append_fields_at(c, values, (k - 1) as nat, n);
    }
}

proof fn lemma_append_lists_rows(c: Column, elements: Seq<Scalar>, n: nat)
    requires
        c is List,
        append_lists(c, elements, n).error is None,
    ensures
        append_lists(c, elements, n).column is List,
        more_rows(c, append_lists(c, elements, n).column, n, false),
    decreases n,
{
    if n > 0 {
        lemma_append_lists_rows(c, elements, (n - 1) as nat);
        let r = append_lists(c, elements, (n - 1) as nat).column;
        let q = append_lists(c, elements, n).column;
        assert forall|i: int| 0 <= i < r.len() implies #[trigger] q.is_null(i) == r.is_null(i) by {}
    }
}

/// Entries leave the rows of a map as they are.
pub proof fn lemma_append_pairs_frame(c: Column, pairs: Seq<(Scalar, Scalar)>, k: nat)
    requires
        is_map(c),
        k <= pairs.len(),
    ensures
        ({
            let e = append_pairs(c, pairs, k).column;
            &&& is_map(e)
            &&& e->MapOf_field == c->MapOf_field
            &&& e->MapOf_offsets == c->MapOf_offsets
            &&& e->MapOf_validity == c->MapOf_validity
            &&& e->MapOf_ordered == c->MapOf_ordered
            &&& e->MapOf_entries->Struct_fields == c->MapOf_entries->Struct_fields
        }),
    decreases k,
{
    if k > 0 {
        lemma_append_pairs_frame(c, pairs, (k - 1) as nat);
    }
}

proof fn lemma_append_maps_rows(c: Column, pairs: Seq<(Scalar, Scalar)>, n: nat)
    requires
        is_map(c),
        append_maps(c, pairs, n).error is None,
    ensures
        is_map(append_maps(c, pairs, n).column),
        more_rows(c, append_maps(c, pairs, n).column, n, false),
    decreases n,
{
    if n > 0 {
        lemma_append_maps_rows(c, pairs, (n - 1) as nat);
        let r = append_maps(c, pairs, (n - 1) as nat).column;
        lemma_append_pairs_frame(r, pairs, pairs.len());
        let q = append_maps(c, pairs, n).column;
        assert forall|i: int| 0 <= i < r.len() implies #[trigger] q.is_null(i) == r.is_null(i) by {}
    }
}

/// Where a child column gets rows along with the validity of its struct, it still fits.
proof fn lemma_masked_more(a: Column, b: Column, n: nat, null: bool, validity: Seq<bool>, valid: bool)
    requires
        more_rows(a, b, n, null),
        a.len() == validity.len(),
        a.masked_by(validity),
        null ==> !valid,
    ensures
        b.masked_by(validity + times(valid, n)),
{
    assert forall|i: int| 0 <= i < b.len() && #[trigger] b.is_null(i) implies !(validity + times(
        valid,
        n,
    ))[i] by {
        if i < a.len() {
            assert(a.is_null(i));
        }
    }
}

/// Null rows keep a builder finishable.
pub proof fn lemma_append_null_finishable(c: Column, t: TypeView, n: nat)
    requires
        sound_builder(c),
        finishable(c),
        append_null(c, t, n).error is None,
    ensures
        finishable(append_null(c, t, n).column),
        append_null(c, t, n).column.data_type() == c.data_type(),
    decreases t,
{
    lemma_append_null_grows(c, t, n);
    lemma_grown_len(c, append_null(c, t, n).column);
    match t {
        TypeView::Struct(fs) => {
            lemma_append_null_fields_at(c, fs, fs.len(), n);
            let r = append_null_fields(c, fs, fs.len(), n).column;
            let q = with_struct_rows(r, false, n);
            assert forall|i: int| 0 <= i < fs.len() implies {
                &&& finishable(#[trigger] q->Struct_columns[i])
                &&& q->Struct_columns[i].len() == q->Struct_validity.len()
                &&& q->Struct_columns[i].data_type() == q->Struct_fields[i].data_type
                &&& q->Struct_fields[i].nullable || q->Struct_columns[i].masked_by(
                    q->Struct_validity,
                )
            } by {
                let child = c->Struct_columns[i];
                assert(r->Struct_columns[i] == append_null(child, fs[i].data_type, n).column);
                lemma_append_null_finishable(child, fs[i].data_type, n);
                lemma_append_null_rows(child, fs[i].data_type, n);
                if !c->Struct_fields[i].nullable {
                    lemma_masked_more(
                        child,
                        q->Struct_columns[i],
                        n,
                        true,
                        c->Struct_validity,
                        false,
                    );
                }
            }
        },
        _ => {},
    }
}

/// What holds of a column that elements or entries were appended to.
pub open spec fn still_fits(before: Column, after: Column, nullable: bool) -> bool {
    &&& finishable(after)
    &&& after.data_type() == before.data_type()
    &&& before.has_null() || nullable || !after.has_null()
}

proof fn lemma_no_new_null(a: Column, b: Column, n: nat, null: bool)
    requires
        more_rows(a, b, n, null),
        !null,
        !a.has_null(),
    ensures
        !b.has_null(),
{
    if b.has_null() {
        let i = choose|i: int| 0 <= i < b.len() && #[trigger] b.is_null(i);
        if i < a.len() {
            assert(a.is_null(i));
        }
    }
}

/// Scalars that the column's type admits keep a builder finishable.
pub proof fn lemma_append_finishable(c: Column, s: Scalar, n: nat)
    requires
        sound_builder(c),
        finishable(c),
        admitted(s, c.data_type()),
        append(c, s, n).error is None,
    ensures
        finishable(append(c, s, n).column),
        append(c, s, n).column.data_type() == c.data_type(),
    decreases s, 0nat, 0nat,
{
    lemma_append_grows(c, s, n);
    lemma_grown_len(c, append(c, s, n).column);
    match s {
        Scalar::Struct(d) => {
            let vs = d.values@;
            let k = vs.len();
            assert(k == c->Struct_columns.len());
            lemma_append_fields_at(c, vs, k, n);
            let r = append_fields(c, vs, k, n).column;
            let q = with_struct_rows(r, true, n);
            assert forall|i: int| 0 <= i < k implies {
                &&& finishable(#[trigger] q->Struct_columns[i])
                &&& q->Struct_columns[i].len() == q->Struct_validity.len()
                &&& q->Struct_columns[i].data_type() == q->Struct_fields[i].data_type
                &&& q->Struct_fields[i].nullable || q->Struct_columns[i].masked_by(
                    q->Struct_validity,
                )
            } by {
                let child = c->Struct_columns[i];
                assert(r->Struct_columns[i] == append(child, vs[i], n).column);
                lemma_append_finishable(child, vs[i], n);
                lemma_append_rows(child, vs[i], n);
                if !c->Struct_fields[i].nullable {
                    lemma_masked_more(
                        child,
                        q->Struct_columns[i],
                        n,
                        vs[i] is Null,
                        c->Struct_validity,
                        true,
                    );
                }
            }
        },
        Scalar::Array(d) => {
            lemma_append_lists_finishable(c, d.elements@, n);
        },
        Scalar::MapOf(d) => {
            lemma_append_maps_finishable(c, d.pairs@, n);
        },
        Scalar::Null(t) => {
            lemma_append_null_finishable(c, t@, n);
        },
        _ => {},
    }
}

/// Elements that a list's type admits keep its values finishable.
pub proof fn lemma_append_each_finishable(c: Column, values: Seq<Scalar>, k: nat, nullable: bool)
    requires
        sound_builder(c),
        finishable(c),
        k <= values.len(),
        forall|i: int|
            #![trigger values[i]]
            0 <= i < k ==> admitted(values[i], c.data_type()) && (values[i] is Null ==> nullable),
        append_each(c, values, k).error is None,
    ensures
        still_fits(c, append_each(c, values, k).column, nullable),
        append_each(c, values, k).column.len() == c.len() + k,
    decreases values, 0nat, k,
{
    if k > 0 {
        lemma_append_each_finishable(c, values, (k - 1) as nat, nullable);
        lemma_append_each_grows(c, values, (k - 1) as nat);
        let r = append_each(c, values, (k - 1) as nat).column;
        let v = values[k - 1];
        lemma_append_finishable(r, v, 1);
        lemma_append_rows(r, v, 1);
        if !(c.has_null() || nullable) {
            lemma_no_new_null(r, append(r, v, 1).column, 1, v is Null);
        }
    }
}

pub proof fn lemma_append_lists_finishable(c: Column, elements: Seq<Scalar>, n: nat)
    requires
        sound_builder(c),
        finishable(c),
        c is List,
        forall|i: int|
            #![trigger elements[i]]
            0 <= i < elements.len() ==> admitted(elements[i], c->List_field.data_type) && (
            elements[i] is Null ==> c->List_field.nullable),
        append_lists(c, elements, n).error is None,
    ensures
        finishable(append_lists(c, elements, n).column),
    decreases elements, 1nat, n,
{
    if n > 0 {
        lemma_append_lists_finishable(c, elements, (n - 1) as nat);
        lemma_append_lists_grows(c, elements, (n - 1) as nat);
        let r = append_lists(c, elements, (n - 1) as nat).column;
        assert(r->List_field == c->List_field);
        lemma_append_each_finishable(
            *r->List_values,
            elements,
            elements.len(),
            c->List_field.nullable,
        );
        let v = append_each(*r->List_values, elements, elements.len()).column;
        let q = with_list_rows(with_values(r, v), true, 1);
        assert(q->List_offsets.last() == v.len());
        assert(list_accepts(q->List_field, q->List_offsets, v, q->List_validity));
    }
}

/// The keys and values of a map stay finishable while entries are appended.
pub open spec fn entries_fit(c: Column) -> bool {
    let fs = c->MapOf_entries->Struct_fields;
    &&& is_map(c)
    &&& sound_builder(c)
    &&& fs.len() == 2
    &&& !fs[0].nullable
    &&& c->MapOf_field.data_type == ArrowType::Struct(fs)
    &&& !c->MapOf_field.nullable
    &&& finishable(map_keys(c))
    &&& finishable(map_values(c))
    &&& map_keys(c).data_type() == fs[0].data_type
    &&& map_values(c).data_type() == fs[1].data_type
    &&& !map_keys(c).has_null()
    &&& fs[1].nullable || !map_values(c).has_null()
}

proof fn lemma_unmasked(c: Column, validity: Seq<bool>, n: nat)
    requires
        validity == times(true, n),
        c.len() == n,
    ensures
        c.masked_by(validity) == !c.has_null(),
{
    if c.has_null() {
        let i = choose|i: int| 0 <= i < c.len() && #[trigger] c.is_null(i);
        assert(validity[i]);
    } else {
        assert forall|i: int| 0 <= i < c.len() && #[trigger] c.is_null(i) implies !validity[i] by {
            assert(c.has_null());
        }
    }
}

pub proof fn lemma_entries_fit(c: Column)
    requires
        c is MapOf,
        sound_builder(c),
        finishable(c),
    ensures
        entries_fit(c),
        map_keys(c).len() == map_values(c).len(),
{
    let e = *c->MapOf_entries;
    assert(finishable(e));
    assert(finishable(e->Struct_columns[0]));
    assert(finishable(e->Struct_columns[1]));
    lemma_unmasked(e->Struct_columns[0], e->Struct_validity, map_keys(c).len());
    lemma_unmasked(e->Struct_columns[1], e->Struct_validity, map_keys(c).len());
}

pub proof fn lemma_fit_entries(c: Column)
    requires
        entries_fit(c),
        map_keys(c).len() == map_values(c).len(),
    ensures
        finishable(*c->MapOf_entries),
        !c->MapOf_entries.has_null(),
{
    let e = *c->MapOf_entries;
    lemma_unmasked(e->Struct_columns[0], e->Struct_validity, map_keys(c).len());
    lemma_unmasked(e->Struct_columns[1], e->Struct_validity, map_keys(c).len());
    assert forall|i: int| 0 <= i < 2 implies {
        &&& finishable(#[trigger] e->Struct_columns[i])
        &&& e->Struct_columns[i].len() == e->Struct_validity.len()
        &&& e->Struct_columns[i].data_type() == e->Struct_fields[i].data_type
        &&& e->Struct_fields[i].nullable || e->Struct_columns[i].masked_by(e->Struct_validity)
    } by {
        assert(i == 0 || i == 1);
    }
}

pub proof fn lemma_append_pairs_finishable(c: Column, pairs: Seq<(Scalar, Scalar)>, k: nat)
    requires
        entries_fit(c),
        k <= pairs.len(),
        forall|i: int|
            #![trigger pairs[i]]
            0 <= i < pairs.len() ==> {
                &&& admitted(pairs[i].0, c->MapOf_entries->Struct_fields[0].data_type)
                &&& admitted(pairs[i].1, c->MapOf_entries->Struct_fields[1].data_type)
                &&& !(pairs[i].0 is Null)
                &&& pairs[i].1 is Null ==> c->MapOf_entries->Struct_fields[1].nullable
            },
        append_pairs(c, pairs, k).error is None,
    ensures
        entries_fit(append_pairs(c, pairs, k).column),
        map_keys(append_pairs(c, pairs, k).column).len() == map_keys(c).len() + k,
        map_values(append_pairs(c, pairs, k).column).len() == map_values(c).len() + k,
    decreases pairs, 0nat, k,
{
    if k > 0 {
        lemma_append_pairs_finishable(c, pairs, (k - 1) as nat);
        lemma_append_pairs_frame(c, pairs, (k - 1) as nat);
        lemma_append_pairs_frame(c, pairs, k);
        lemma_append_pairs_grows(c, pairs, k);
        let r = append_pairs(c, pairs, (k - 1) as nat).column;
        lemma_sound_map(r);
        let (x, y) = pairs[k - 1];
        lemma_append_finishable(map_keys(r), x, 1);
        lemma_append_finishable(map_values(r), y, 1);
        lemma_append_rows(map_keys(r), x, 1);
        lemma_append_rows(map_values(r), y, 1);
        lemma_no_new_null(map_keys(r), append(map_keys(r), x, 1).column, 1, false);
        if !c->MapOf_entries->Struct_fields[1].nullable {
            lemma_no_new_null(map_values(r), append(map_values(r), y, 1).column, 1, false);
        }
    }
}

pub proof fn lemma_append_maps_finishable(c: Column, pairs: Seq<(Scalar, Scalar)>, n: nat)
    requires
        sound_builder(c),
        finishable(c),
        is_map(c),
        forall|i: int|
            #![trigger pairs[i]]
            0 <= i < pairs.len() ==> {
                &&& admitted(pairs[i].0, c->MapOf_entries->Struct_fields[0].data_type)
                &&& admitted(pairs[i].1, c->MapOf_entries->Struct_fields[1].data_type)
                &&& !(pairs[i].0 is Null)
                &&& pairs[i].1 is Null ==> c->MapOf_entries->Struct_fields[1].nullable
            },
        append_maps(c, pairs, n).error is None,
    ensures
        finishable(append_maps(c, pairs, n).column),
    decreases pairs, 1nat, n,
{
    if n > 0 {
        lemma_append_maps_finishable(c, pairs, (n - 1) as nat);
        lemma_append_maps_grows(c, pairs, (n - 1) as nat);
        let r = append_maps(c, pairs, (n - 1) as nat).column;
        assert(r->MapOf_entries->Struct_fields == c->MapOf_entries->Struct_fields);
        lemma_entries_fit(r);
        lemma_append_pairs_finishable(r, pairs, pairs.len());
        lemma_append_pairs_frame(r, pairs, pairs.len());
        let e = append_pairs(r, pairs, pairs.len()).column;
        lemma_fit_entries(e);
        let q = with_map_row(e, true);
        assert(q->MapOf_offsets.last() == e->MapOf_entries.len());
        assert(map_accepts(
            q->MapOf_field,
            q->MapOf_offsets,
            *q->MapOf_entries,
            q->MapOf_validity,
        ));
    }
}

/// Whether the last row of every list and map in a builder ends where its child ends: nothing was
/// appended to a child that no row spans.
pub open spec fn settled(c: Column) -> bool
    decreases c,
{
    match c {
        Column::Leaf { .. } => true,
        Column::Struct { columns, .. } => forall|i: int|
            0 <= i < columns.len() ==> settled(#[trigger] columns[i]),
        Column::List { offsets, values, .. } => {
            &&& offsets.len() > 0
            &&& offsets.last() == values.len()
            &&& settled(*values)
        },
        Column::MapOf { offsets, entries, .. } => {
            &&& offsets.len() > 0
            &&& offsets.last() == entries.len()
            &&& settled(*entries)
        },
    }
}

/// Null rows leave a builder settled.
pub proof fn lemma_append_null_settled(c: Column, t: TypeView, n: nat)
    requires
        settled(c),
        append_null(c, t, n).error is None,
    ensures
        settled(append_null(c, t, n).column),
    decreases t,
{
    match t {
        TypeView::Struct(fs) => {
            lemma_append_null_fields_at(c, fs, fs.len(), n);
            let q = append_null(c, t, n).column;
            assert forall|i: int| 0 <= i < fs.len() implies settled(
                #[trigger] q->Struct_columns[i],
            ) by {
                let r = append_null_fields(c, fs, fs.len(), n).column;
                assert(q->Struct_columns[i] == r->Struct_columns[i]);
                assert(settled(c->Struct_columns[i]));
                lemma_append_null_settled(c->Struct_columns[i], fs[i].data_type, n);
            }
        },
        TypeView::Array(_, _) => {
            if n == 0 {
                assert(append_null(c, t, n).column->List_offsets =~= c->List_offsets);
            }
        },
        TypeView::MapOf(_, _, _) => {
            if n == 0 {
                assert(append_null(c, t, n).column->MapOf_offsets =~= c->MapOf_offsets);
            }
        },
        _ => {},
    }
}

/// An append that succeeds leaves a builder settled.
pub proof fn lemma_append_settled(c: Column, s: Scalar, n: nat)
    requires
        settled(c),
        append(c, s, n).error is None,
    ensures
        settled(append(c, s, n).column),
    decreases s, 0nat, 0nat,
{
    match s {
        Scalar::Struct(d) => {
            let vs = d.values@;
            let k = if d.values@.len() < d.fields@.len() {
                d.values@.len()
            } else {
                d.fields@.len()
            };
            lemma_append_fields_at(c, vs, k, n);
            let q = append(c, s, n).column;
            assert forall|i: int| 0 <= i < c->Struct_columns.len() implies settled(
                #[trigger] q->Struct_columns[i],
            ) by {
                let r = append_fields(c, vs, k, n).column;
                assert(q->Struct_columns[i] == r->Struct_columns[i]);
                assert(settled(c->Struct_columns[i]));
                if i < k {
                    lemma_append_settled(c->Struct_columns[i], vs[i], n);
                }
            }
        },
        Scalar::Array(d) => {
            lemma_append_lists_settled(c, d.elements@, n);
        },
        Scalar::MapOf(d) => {
            lemma_append_maps_settled(c, d.pairs@, n);
        },
        Scalar::Null(t) => {
            lemma_append_null_settled(c, t@, n);
        },
        _ => {},
    }
}

pub proof fn lemma_append_each_settled(c: Column, values: Seq<Scalar>, k: nat)
    requires
        settled(c),
        k <= values.len(),
        append_each(c, values, k).error is None,
    ensures
        settled(append_each(c, values, k).column),
    decreases values, 0nat, k,
{
    if k > 0 {
        lemma_append_each_settled(c, values, (k - 1) as nat);
        lemma_append_settled(append_each(c, values, (k - 1) as nat).column, values[k - 1], 1);
    }
}

pub proof fn lemma_append_lists_settled(c: Column, elements: Seq<Scalar>, n: nat)
    requires
        settled(c),
        c is List,
        append_lists(c, elements, n).error is None,
    ensures
        append_lists(c, elements, n).column is List,
        settled(append_lists(c, elements, n).column),
    decreases elements, 1nat, n,
{
    if n > 0 {
        lemma_append_lists_settled(c, elements, (n - 1) as nat);
        let r = append_lists(c, elements, (n - 1) as nat).column;
        lemma_append_each_settled(*r->List_values, elements, elements.len());
    }
}

pub proof fn lemma_append_pairs_settled(c: Column, pairs: Seq<(Scalar, Scalar)>, k: nat)
    requires
        is_map(c),
        settled(map_keys(c)),
        settled(map_values(c)),
        k <= pairs.len(),
        append_pairs(c, pairs, k).error is None,
    ensures
        is_map(append_pairs(c, pairs, k).column),
        settled(map_keys(append_pairs(c, pairs, k).column)),
        settled(map_values(append_pairs(c, pairs, k).column)),
    decreases pairs, 0nat, k,
{
    if k > 0 {
        lemma_append_pairs_settled(c, pairs, (k - 1) as nat);
        let r = append_pairs(c, pairs, (k - 1) as nat).column;
        lemma_append_settled(map_keys(r), pairs[k - 1].0, 1);
        lemma_append_settled(map_values(r), pairs[k - 1].1, 1);
    }
}

pub proof fn lemma_append_maps_settled(c: Column, pairs: Seq<(Scalar, Scalar)>, n: nat)
    requires
        settled(c),
        is_map(c),
        append_maps(c, pairs, n).error is None,
    ensures
        is_map(append_maps(c, pairs, n).column),
        settled(append_maps(c, pairs, n).column),
    decreases pairs, 1nat, n,
{
    if n > 0 {
        lemma_append_maps_settled(c, pairs, (n - 1) as nat);
        let r = append_maps(c, pairs, (n - 1) as nat).column;
        assert(settled(*r->MapOf_entries));
        lemma_append_pairs_settled(r, pairs, pairs.len());
        lemma_append_pairs_frame(r, pairs, pairs.len());
        let e = append_pairs(r, pairs, pairs.len()).column;
        assert forall|i: int| 0 <= i < 2 implies settled(
            #[trigger] e->MapOf_entries->Struct_columns[i],
        ) by {
            assert(i == 0 || i == 1);
        }
        assert(settled(*e->MapOf_entries));
    }
}

} // verus!

//! What the rows of a column say, apart from how the column stores them.
use crate::append::{
    append, append_each, append_fields, append_lists, append_maps, append_null, append_null_fields,
    append_pairs,
};
use crate::arrow_builders::{is_map, map_keys, map_values};
use crate::building::{
    admitted, entries_fit, lemma_append_each_finishable, lemma_append_fields_at,
    lemma_append_finishable, lemma_append_lists_finishable, lemma_append_maps_finishable,
    lemma_append_null_fields_at, lemma_append_pairs_finishable, lemma_append_pairs_frame,
    lemma_append_each_settled, lemma_append_lists_settled, lemma_append_maps_settled,
    lemma_append_pairs_settled, lemma_append_rows, lemma_entries_fit, settled,
};
use crate::conversion::{
    arrow_fields, arrow_type, lemma_arrow_fields, LIST_ARRAY_ROOT, MAP_KEY_DEFAULT,
    MAP_VALUE_DEFAULT,
};
use crate::error::ErrorView;
use crate::growth::{
    grown, lemma_append_each_grows, lemma_append_grows, lemma_append_lists_grows,
    lemma_append_maps_grows, lemma_append_pairs_grows, lemma_grow_list, lemma_grow_map_rows,
    lemma_grown_len, lemma_grown_trans, lemma_sound_map, sound_builder,
};
use crate::model::{empty_column, finishable, ArrowField, ArrowType, Cell, Column};
use crate::scalars::{scalar_cell, scalar_type, well_typed, ArrayData, Scalar};
use crate::schema::{fields_view, lemma_fields_view, FieldView, StructField, TypeView};
use crate::text::dotted;
use crate::to_array::{
    elements_column, lemma_new_builder, lemma_well_typed_admitted, scalar_column,
    well_typed_elements,
};
use vstd::prelude::*;

verus! {

/// What one row of a column says.
pub enum Row {
    Null,
    Cell(Cell),
    Struct(Seq<Row>),
    List(Seq<Row>),
    MapOf(Seq<(Row, Row)>),
}

/// What row `i` of `c` says.
pub open spec fn row(c: Column, i: int) -> Row
    decreases c,
{
    if c.is_null(i) {
        Row::Null
    } else {
        match c {
            Column::Leaf { cells, .. } => Row::Cell(cells[i]),
            Column::Struct { columns, .. } => Row::Struct(
                Seq::new(
                    columns.len(),
                    |j: int|
                        if 0 <= j < columns.len() {
                            row(columns[j], i)
                        } else {
                            Row::Null
                        },
                ),
            ),
            Column::List { offsets, values, .. } => Row::List(
                Seq::new(
                    (offsets[i + 1] - offsets[i]) as nat,
                    |j: int| row(*values, offsets[i] + j),
                ),
            ),
            Column::MapOf { offsets, entries, .. } => match *entries {
                Column::Struct { columns, .. } => if columns.len() == 2 {
                    Row::MapOf(
                        Seq::new(
                            (offsets[i + 1] - offsets[i]) as nat,
                            |j: int| (row(columns[0], offsets[i] + j), row(columns[1], offsets[i] + j)),
                        ),
                    )
                } else {
                    Row::MapOf(seq![])
                },
                _ => Row::MapOf(seq![]),
            },
        }
    }
}

/// What a scalar says.
pub open spec fn value(s: Scalar) -> Row
    decreases s,
{
    match s {
        Scalar::Struct(d) => Row::Struct(
            Seq::new(
                d.values@.len(),
                |j: int|
                    if 0 <= j < d.values@.len() {
                        value(d.values@[j])
                    } else {
                        Row::Null
                    },
            ),
        ),
        Scalar::Array(d) => Row::List(
            Seq::new(
                d.elements@.len(),
                |j: int|
                    if 0 <= j < d.elements@.len() {
                        value(d.elements@[j])
                    } else {
                        Row::Null
                    },
            ),
        ),
        Scalar::MapOf(d) => Row::MapOf(
            Seq::new(
                d.pairs@.len(),
                |j: int|
                    if 0 <= j < d.pairs@.len() {
                        (value(d.pairs@[j].0), value(d.pairs@[j].1))
                    } else {
                        (Row::Null, Row::Null)
                    },
            ),
        ),
        Scalar::Null(_) => Row::Null,
        _ => Row::Cell(scalar_cell(s)),
    }
}

/// Whether a row is the list of these elements.
pub open spec fn says_list(r: Row, elements: Seq<Scalar>) -> bool {
    &&& r is List
    &&& r->List_0.len() == elements.len()
    &&& forall|j: int| 0 <= j < elements.len() ==> #[trigger] r->List_0[j] == value(elements[j])
}

/// Whether a row is the map of these entries.
pub open spec fn says_map(r: Row, pairs: Seq<(Scalar, Scalar)>) -> bool {
    &&& r is MapOf
    &&& r->MapOf_0.len() == pairs.len()
    &&& forall|j: int|
        0 <= j < pairs.len() ==> #[trigger] r->MapOf_0[j] == (
            value(pairs[j].0),
            value(pairs[j].1),
        )
}

/// A builder that grew says the same in its old rows.
pub proof fn lemma_grown_row(a: Column, b: Column, i: int)
    requires
        grown(a, b),
        sound_builder(a),
        finishable(a),
        0 <= i < a.len(),
    ensures
        row(b, i) == row(a, i),
    decreases a,
{
    assert(b.is_null(i) == a.is_null(i));
    if !a.is_null(i) {
        match a {
            Column::Leaf { .. } => {},
            Column::Struct { columns, .. } => {
                assert forall|j: int| 0 <= j < columns.len() implies row(
                    #[trigger] b->Struct_columns[j],
                    i,
                ) == row(columns[j], i) by {
                    assert(grown(columns[j], b->Struct_columns[j]));
                    lemma_grown_row(columns[j], b->Struct_columns[j], i);
                }
                assert(row(b, i)->Struct_0 =~= row(a, i)->Struct_0);
            },
            Column::List { offsets, values, .. } => {
                assert(b->List_offsets[i] == offsets[i]);
                assert(b->List_offsets[i + 1] == offsets[i + 1]);
                assert forall|j: int| 0 <= j < offsets[i + 1] - offsets[i] implies #[trigger] row(
                    b,
                    i,
                )->List_0[j] == row(a, i)->List_0[j] by {
                    assert(offsets[i] + j < values.len());
                    lemma_grown_row(*values, *b->List_values, offsets[i] + j);
                }
                assert(row(b, i)->List_0 =~= row(a, i)->List_0);
            },
            Column::MapOf { offsets, entries, .. } => {
                assert(b->MapOf_offsets[i] == offsets[i]);
                assert(b->MapOf_offsets[i + 1] == offsets[i + 1]);
                lemma_entries_fit(a);
                lemma_sound_map(a);
                assert(grown(*entries, *b->MapOf_entries));
                assert(grown(entries->Struct_columns[0], map_keys(b)));
                assert(grown(entries->Struct_columns[1], map_values(b)));
                assert forall|j: int| 0 <= j < offsets[i + 1] - offsets[i] implies #[trigger] row(
                    b,
                    i,
                )->MapOf_0[j] == row(a, i)->MapOf_0[j] by {
                    lemma_grown_row(map_keys(a), map_keys(b), offsets[i] + j);
                    lemma_grown_row(map_values(a), map_values(b), offsets[i] + j);
                }
                assert(row(b, i)->MapOf_0 =~= row(a, i)->MapOf_0);
            },
        }
    }
}

/// The rows that appending a scalar adds say what the scalar says.
pub proof fn lemma_append_values(c: Column, s: Scalar, n: nat)
    requires
        sound_builder(c),
        finishable(c),
        settled(c),
        admitted(s, c.data_type()),
        append(c, s, n).error is None,
    ensures
        forall|i: int|
            c.len() <= i < c.len() + n ==> #[trigger] row(append(c, s, n).column, i) == value(s),
    decreases s, 0nat, 0nat,
{
    let q = append(c, s, n).column;
    lemma_append_rows(c, s, n);
    match s {
        Scalar::Struct(d) => {
            let vs = d.values@;
            lemma_append_fields_at(c, vs, vs.len(), n);
            assert forall|i: int| c.len() <= i < c.len() + n implies #[trigger] row(q, i) == value(
                s,
            ) by {
                assert(!q.is_null(i));
                assert forall|j: int| 0 <= j < vs.len() implies row(
                    #[trigger] q->Struct_columns[j],
                    i,
                ) == value(vs[j]) by {
                    let child = c->Struct_columns[j];
                    assert(q->Struct_columns[j] == append_fields(
                        c,
                        vs,
                        vs.len(),
                        n,
                    ).column->Struct_columns[j]);
                    assert(q->Struct_columns[j] == append(child, vs[j], n).column);
                    assert(child.len() == c.len());
                    assert(settled(child));
                    lemma_append_values(child, vs[j], n);
                }
                assert(row(q, i)->Struct_0 =~= value(s)->Struct_0);
            }
        },
        Scalar::Array(d) => {
            lemma_append_lists_values(c, d.elements@, n);
            assert forall|i: int| c.len() <= i < c.len() + n implies #[trigger] row(q, i) == value(
                s,
            ) by {
                assert(row(q, i)->List_0 =~= value(s)->List_0);
            }
        },
        Scalar::MapOf(d) => {
            lemma_append_maps_values(c, d.pairs@, n);
            assert forall|i: int| c.len() <= i < c.len() + n implies #[trigger] row(q, i) == value(
                s,
            ) by {
                assert(row(q, i)->MapOf_0 =~= value(s)->MapOf_0);
            }
        },
        Scalar::Null(_) => {
            assert forall|i: int| c.len() <= i < c.len() + n implies #[trigger] row(q, i) == value(
                s,
            ) by {
                assert(q.is_null(i));
            }
        },
        _ => {
            assert forall|i: int| c.len() <= i < c.len() + n implies #[trigger] row(q, i) == value(
                s,
            ) by {
                assert(!q.is_null(i));
            }
        },
    }
}

/// The rows that appending values one by one adds say what the values say.
pub proof fn lemma_append_each_values(c: Column, values: Seq<Scalar>, k: nat)
    requires
        sound_builder(c),
        finishable(c),
        settled(c),
        k <= values.len(),
        forall|i: int| 0 <= i < k ==> admitted(#[trigger] values[i], c.data_type()),
        append_each(c, values, k).error is None,
    ensures
        forall|j: int|
            #![trigger values[j]]
            0 <= j < k ==> row(append_each(c, values, k).column, c.len() + j) == value(values[j]),
    decreases values, 0nat, k,
{
    if k > 0 {
        lemma_append_each_values(c, values, (k - 1) as nat);
        lemma_append_each_finishable(c, values, (k - 1) as nat, true);
        lemma_append_each_grows(c, values, (k - 1) as nat);
        lemma_append_each_settled(c, values, (k - 1) as nat);
        let r = append_each(c, values, (k - 1) as nat).column;
        let q = append_each(c, values, k).column;
        lemma_append_grows(r, values[k - 1], 1);
        lemma_append_values(r, values[k - 1], 1);
        assert forall|j: int|
            #![trigger values[j]]
            0 <= j < k implies row(q, c.len() + j) == value(values[j]) by {
            if j < k - 1 {
                lemma_grown_row(r, q, c.len() + j);
            } else {
                assert(c.len() + j == r.len());
            }
        }
    }
}

proof fn lemma_append_lists_values(c: Column, elements: Seq<Scalar>, n: nat)
    requires
        sound_builder(c),
        finishable(c),
        settled(c),
        c is List,
        forall|i: int|
            #![trigger elements[i]]
            0 <= i < elements.len() ==> admitted(elements[i], c->List_field.data_type) && (
            elements[i] is Null ==> c->List_field.nullable),
        append_lists(c, elements, n).error is None,
    ensures
        append_lists(c, elements, n).column.len() == c.len() + n,
        forall|i: int|
            c.len() <= i < c.len() + n ==> says_list(
                #[trigger] row(append_lists(c, elements, n).column, i),
                elements,
            ),
    decreases elements, 1nat, n,
{
    if n > 0 {
        let r = append_lists(c, elements, (n - 1) as nat).column;
        let q = append_lists(c, elements, n).column;
        lemma_append_lists_values(c, elements, (n - 1) as nat);
        lemma_append_lists_finishable(c, elements, (n - 1) as nat);
        lemma_append_lists_grows(c, elements, (n - 1) as nat);
        lemma_append_lists_settled(c, elements, (n - 1) as nat);
        assert(r->List_field == c->List_field);
        let k = elements.len();
        let w = *r->List_values;
        lemma_append_each_finishable(w, elements, k, c->List_field.nullable);
        lemma_append_each_values(w, elements, k);
        lemma_append_each_grows(w, elements, k);
        let v = append_each(w, elements, k).column;
        lemma_grow_list(r, v, true, 1);
        assert forall|i: int| c.len() <= i < c.len() + n implies says_list(
            #[trigger] row(q, i),
            elements,
        ) by {
            if i < r.len() {
                lemma_grown_row(r, q, i);
                assert(says_list(row(r, i), elements));
            } else {
                assert(!q.is_null(i));
                assert(r->List_offsets.len() == r.len() + 1);
                assert(q->List_offsets[i + 1] == v.len());
                assert(q->List_offsets[i] == r->List_offsets[i]);
                assert(r->List_offsets[i] == w.len());
                assert forall|j: int| 0 <= j < elements.len() implies #[trigger] row(
                    q,
                    i,
                )->List_0[j] == value(elements[j]) by {
                    assert(row(v, w.len() + j) == value(elements[j]));
                }
            }
        }
    }
}

/// The keys and values that appending entries adds say what the entries say.
proof fn lemma_append_pairs_values(c: Column, pairs: Seq<(Scalar, Scalar)>, k: nat)
    requires
        entries_fit(c),
        settled(map_keys(c)),
        settled(map_values(c)),
        k <= pairs.len(),
        forall|i: int|
            #![trigger pairs[i]]
            0 <= i < pairs.len() ==> {
                &&& admitted(pairs[i].0, c->MapOf_entries->Struct_fields[0].data_type)
                &&& admitted(pairs[i].1, c->MapOf_entries->Struct_fields[1].data_type)
                &&& !(pairs[i].0 is Null)
                &&& pairs[i].1 is Null ==> c->MapOf_entries->Struct_fields[1].nullable
            },
        append_pairs(c, pairs, k).error is None,
    ensures
        forall|j: int|
            #![trigger pairs[j]]
            0 <= j < k ==> {
                let e = append_pairs(c, pairs, k).column;
                &&& row(map_keys(e), map_keys(c).len() + j) == value(pairs[j].0)
                &&& row(map_values(e), map_values(c).len() + j) == value(pairs[j].1)
            },
    decreases pairs, 0nat, k,
{
    if k > 0 {
        lemma_append_pairs_values(c, pairs, (k - 1) as nat);
        lemma_append_pairs_finishable(c, pairs, (k - 1) as nat);
        lemma_append_pairs_frame(c, pairs, (k - 1) as nat);
        lemma_append_pairs_settled(c, pairs, (k - 1) as nat);
        let r = append_pairs(c, pairs, (k - 1) as nat).column;
        let e = append_pairs(c, pairs, k).column;
        lemma_sound_map(r);
        lemma_append_grows(map_keys(r), pairs[k - 1].0, 1);
        lemma_append_grows(map_values(r), pairs[k - 1].1, 1);
        lemma_append_values(map_keys(r), pairs[k - 1].0, 1);
        lemma_append_values(map_values(r), pairs[k - 1].1, 1);
        assert(map_keys(e) == append(map_keys(r), pairs[k - 1].0, 1).column);
        assert(map_values(e) == append(map_values(r), pairs[k - 1].1, 1).column);
        assert forall|j: int|
            #![trigger pairs[j]]
            0 <= j < k implies {
            &&& row(map_keys(e), map_keys(c).len() + j) == value(pairs[j].0)
            &&& row(map_values(e), map_values(c).len() + j) == value(pairs[j].1)
        } by {
            if j < k - 1 {
                lemma_grown_row(map_keys(r), map_keys(e), map_keys(c).len() + j);
                lemma_grown_row(map_values(r), map_values(e), map_values(c).len() + j);
            } else {
                assert(map_keys(c).len() + j == map_keys(r).len());
                assert(map_values(c).len() + j == map_values(r).len());
            }
        }
    }
}

proof fn lemma_append_maps_values(c: Column, pairs: Seq<(Scalar, Scalar)>, n: nat)
    requires
        sound_builder(c),
        finishable(c),
        settled(c),
        is_map(c),
        forall|i: int|
            #![trigger pairs[i]]
            0 <= i < pairs.len() ==> {
                &&& admitted(pairs[i].0, c->MapOf_entries->Struct_fields[0].data_type)
                &&& admitted(pairs[i].1, c->MapOf_entries->Struct_fields[1].data_type)
                &&& !(pairs[i].0 is Null)
                &&& pairs[i].1 is Null ==> c->MapOf_entries->Struct_fields[1].nullable
            },
        append_maps(c, pairs, n).error is None,
    ensures
        append_maps(c, pairs, n).column.len() == c.len() + n,
        forall|i: int|
            c.len() <= i < c.len() + n ==> says_map(
                #[trigger] row(append_maps(c, pairs, n).column, i),
                pairs,
            ),
    decreases pairs, 1nat, n,
{
    if n > 0 {
        let r = append_maps(c, pairs, (n - 1) as nat).column;
        let q = append_maps(c, pairs, n).column;
        lemma_append_maps_values(c, pairs, (n - 1) as nat);
        lemma_append_maps_finishable(c, pairs, (n - 1) as nat);
        lemma_append_maps_grows(c, pairs, (n - 1) as nat);
        lemma_append_maps_settled(c, pairs, (n - 1) as nat);
        assert(r->MapOf_entries->Struct_fields == c->MapOf_entries->Struct_fields);
        lemma_entries_fit(r);
        lemma_sound_map(r);
        assert(settled(*r->MapOf_entries));
        let k = pairs.len();
        lemma_append_pairs_finishable(r, pairs, k);
        lemma_append_pairs_values(r, pairs, k);
        lemma_append_pairs_grows(r, pairs, k);
        lemma_append_pairs_frame(r, pairs, k);
        let e = append_pairs(r, pairs, k).column;
        lemma_sound_map(e);
        lemma_grow_map_rows(e, true, 1);
        lemma_grown_trans(r, e, q);
        assert forall|i: int| c.len() <= i < c.len() + n implies says_map(
            #[trigger] row(q, i),
            pairs,
        ) by {
            if i < r.len() {
                lemma_grown_row(r, q, i);
                assert(says_map(row(r, i), pairs));
            } else {
                assert(!q.is_null(i));
                assert(r->MapOf_offsets.len() == r.len() + 1);
                assert(q->MapOf_offsets[i + 1] == e->MapOf_entries.len());
                assert(q->MapOf_offsets[i] == r->MapOf_offsets[i]);
                assert(r->MapOf_offsets[i] == map_keys(r).len());
                assert forall|j: int| 0 <= j < pairs.len() implies #[trigger] row(
                    q,
                    i,
                )->MapOf_0[j] == (value(pairs[j].0), value(pairs[j].1)) by {
                    assert(row(map_keys(e), map_keys(r).len() + j) == value(pairs[j].0));
                    assert(row(map_values(e), map_values(r).len() + j) == value(pairs[j].1));
                }
            }
        }
    }
}

/// An array of a scalar has the rows that were asked for, of the scalar's type, and every one of
/// them says what the scalar says.
pub proof fn law_to_array_rows(s: Scalar, n: nat)
    requires
        well_typed(s),
        scalar_column(s, n) is Ok,
    ensures
        scalar_column(s, n)->Ok_0.len() == n,
        arrow_type(scalar_type(s), None, ""@) == Ok::<ArrowType, ErrorView>(
            scalar_column(s, n)->Ok_0.data_type(),
        ),
        forall|i: int| 0 <= i < n ==> #[trigger] row(scalar_column(s, n)->Ok_0, i) == value(s),
{
    let c = empty_column(arrow_type(scalar_type(s), None, ""@)->Ok_0);
    lemma_new_builder(scalar_type(s), None, ""@);
    lemma_well_typed_admitted(s, None, ""@);
    lemma_append_finishable(c, s, n);
    lemma_append_rows(c, s, n);
    lemma_append_values(c, s, n);
}

/// An array of the elements of a list has one row per element, of the declared element type, and
/// each says what its element says.
pub proof fn law_to_arrow_rows(d: ArrayData)
    requires
        well_typed_elements(d),
        elements_column(d) is Ok,
    ensures
        elements_column(d)->Ok_0.len() == d.elements@.len(),
        arrow_type(d.tpe.element_type@, None, ""@) == Ok::<ArrowType, ErrorView>(
            elements_column(d)->Ok_0.data_type(),
        ),
        forall|i: int|
            0 <= i < d.elements@.len() ==> #[trigger] row(elements_column(d)->Ok_0, i) == value(
                d.elements@[i],
            ),
{
    let t = arrow_type(d.tpe.element_type@, None, ""@)->Ok_0;
    let c = empty_column(t);
    lemma_new_builder(d.tpe.element_type@, None, ""@);
    assert forall|i: int| 0 <= i < d.elements@.len() implies admitted(
        #[trigger] d.elements@[i],
        t,
    ) by {
        lemma_well_typed_admitted(d.elements@[i], None, ""@);
    }
    lemma_append_each_finishable(c, d.elements@, d.elements@.len(), true);
    lemma_append_each_values(c, d.elements@, d.elements@.len());
    assert forall|i: int| 0 <= i < d.elements@.len() implies #[trigger] row(
        elements_column(d)->Ok_0,
        i,
    ) == value(d.elements@[i]) by {
        assert(c.len() + i == i);
    }
}

/// Whether null rows of a type can be written: no variant stands in it where a null struct has rows.
pub open spec fn writable_null(t: TypeView) -> bool
    decreases t,
{
    match t {
        TypeView::Struct(fs) => forall|i: int|
            0 <= i < fs.len() ==> writable_null((#[trigger] fs[i]).data_type),
        TypeView::Variant(_) => false,
        _ => true,
    }
}

/// Whether a scalar can be written: no part of it is a null that cannot be.
pub open spec fn writable(s: Scalar) -> bool
    decreases s,
{
    match s {
        Scalar::Struct(d) => forall|i: int|
            0 <= i < d.values@.len() ==> writable(#[trigger] d.values@[i]),
        Scalar::Array(d) => forall|i: int|
            0 <= i < d.elements@.len() ==> writable(#[trigger] d.elements@[i]),
        Scalar::MapOf(d) => forall|i: int|
            #![trigger d.pairs@[i]]
            0 <= i < d.pairs@.len() ==> writable(d.pairs@[i].0) && writable(d.pairs@[i].1),
        Scalar::Null(t) => writable_null(t@),
        _ => true,
    }
}

/// Whether nothing went wrong, or only that a variant was to be written.
pub open spec fn only_variants(error: Option<ErrorView>, writable: bool) -> bool {
    &&& error is None || error == Some(ErrorView::UnsupportedVariant)
    &&& writable ==> error is None
}

pub proof fn lemma_append_null_error(
    c: Column,
    t: TypeView,
    n: nat,
    ancestor: Option<FieldView>,
    path: Seq<char>,
)
    requires
        sound_builder(c),
        finishable(c),
        arrow_type(t, ancestor, path) == Ok::<ArrowType, ErrorView>(c.data_type()),
    ensures
        only_variants(append_null(c, t, n).error, writable_null(t)),
    decreases t, 0nat,
{
    match t {
        TypeView::Struct(fs) => {
            lemma_arrow_fields(fs, fs.len());
            lemma_append_null_fields_error(c, fs, fs.len(), n);
        },
        TypeView::MapOf(_, _, _) => {
            lemma_entries_fit(c);
        },
        _ => {},
    }
}

proof fn lemma_append_null_fields_error(c: Column, fs: Seq<FieldView>, k: nat, n: nat)
    requires
        sound_builder(c),
        finishable(c),
        c is Struct,
        arrow_fields(fs, fs.len()) == Ok::<Seq<ArrowField>, ErrorView>(c->Struct_fields),
        c->Struct_columns.len() == fs.len(),
        k <= fs.len(),
    ensures
        only_variants(append_null_fields(c, fs, k, n).error, writable_null(TypeView::Struct(fs))),
    decreases fs, k,
{
    if k > 0 {
        lemma_append_null_fields_error(c, fs, (k - 1) as nat, n);
        if append_null_fields(c, fs, (k - 1) as nat, n).error is None {
            lemma_append_null_fields_at(c, fs, (k - 1) as nat, n);
            lemma_arrow_fields(fs, fs.len());
            let f = fs[k - 1];
            let child = c->Struct_columns[k - 1];
            assert(c->Struct_fields[k - 1].data_type == child.data_type());
            lemma_append_null_error(child, f.data_type, n, Some(f), f.name);
        }
    }
}

pub proof fn lemma_append_error(
    c: Column,
    s: Scalar,
    n: nat,
    ancestor: Option<FieldView>,
    path: Seq<char>,
)
    requires
        sound_builder(c),
        finishable(c),
        well_typed(s),
        arrow_type(scalar_type(s), ancestor, path) == Ok::<ArrowType, ErrorView>(c.data_type()),
    ensures
        only_variants(append(c, s, n).error, writable(s)),
    decreases s, 0nat, 0nat,
{
    match s {
        Scalar::Struct(d) => {
            lemma_fields_view(d.fields@);
            lemma_arrow_fields(fields_view(d.fields@), d.fields@.len());
            lemma_append_fields_error(c, d.fields@, d.values@, d.values@.len(), n);
        },
        Scalar::Array(d) => {
            lemma_append_lists_error(c, s, n, ancestor, path);
        },
        Scalar::MapOf(d) => {
            lemma_append_maps_error(c, s, n, ancestor, path);
        },
        Scalar::Null(t) => {
            lemma_append_null_error(c, t@, n, ancestor, path);
        },
        _ => {},
    }
}

proof fn lemma_append_fields_error(
    c: Column,
    fields: Seq<StructField>,
    values: Seq<Scalar>,
    k: nat,
    n: nat,
)
    requires
        sound_builder(c),
        finishable(c),
        c is Struct,
        arrow_fields(fields_view(fields), fields.len()) == Ok::<Seq<ArrowField>, ErrorView>(
            c->Struct_fields,
        ),
        c->Struct_columns.len() == fields.len(),
        values.len() == fields.len(),
        forall|i: int|
            #![trigger values[i]]
            0 <= i < values.len() ==> well_typed(values[i]) && scalar_type(values[i])
                == fields[i].data_type@,
        k <= values.len(),
    ensures
        only_variants(
            append_fields(c, values, k, n).error,
            forall|i: int| 0 <= i < values.len() ==> writable(#[trigger] values[i]),
        ),
    decreases values, 0nat, k,
{
    if k > 0 {
        lemma_append_fields_error(c, fields, values, (k - 1) as nat, n);
        if append_fields(c, values, (k - 1) as nat, n).error is None {
            lemma_append_fields_at(c, values, (k - 1) as nat, n);
            let fs = fields_view(fields);
            lemma_fields_view(fields);
            lemma_arrow_fields(fs, fs.len());
            let f = fs[k - 1];
            assert(f == fields[k - 1]@);
            let child = c->Struct_columns[k - 1];
            assert(c->Struct_fields[k - 1].data_type == child.data_type());
            lemma_append_error(child, values[k - 1], n, Some(f), f.name);
        }
    }
}

proof fn lemma_append_each_error(
    c: Column,
    t: TypeView,
    values: Seq<Scalar>,
    k: nat,
    ancestor: Option<FieldView>,
    path: Seq<char>,
)
    requires
        sound_builder(c),
        finishable(c),
        arrow_type(t, ancestor, path) == Ok::<ArrowType, ErrorView>(c.data_type()),
        forall|i: int|
            #![trigger values[i]]
            0 <= i < values.len() ==> well_typed(values[i]) && scalar_type(values[i]) == t,
        k <= values.len(),
    ensures
        only_variants(
            append_each(c, values, k).error,
            forall|i: int| 0 <= i < values.len() ==> writable(#[trigger] values[i]),
        ),
    decreases values, 0nat, k,
{
    if k > 0 {
        lemma_append_each_error(c, t, values, (k - 1) as nat, ancestor, path);
        if append_each(c, values, (k - 1) as nat).error is None {
            assert forall|i: int| 0 <= i < k - 1 implies admitted(
                #[trigger] values[i],
                c.data_type(),
            ) by {
                lemma_well_typed_admitted(values[i], ancestor, path);
            }
            lemma_append_each_finishable(c, values, (k - 1) as nat, true);
            lemma_append_each_grows(c, values, (k - 1) as nat);
            let r = append_each(c, values, (k - 1) as nat).column;
            lemma_append_error(r, values[k - 1], 1, ancestor, path);
        }
    }
}

proof fn lemma_append_lists_error(
    c: Column,
    s: Scalar,
    n: nat,
    ancestor: Option<FieldView>,
    path: Seq<char>,
)
    requires
        s is Array,
        sound_builder(c),
        finishable(c),
        well_typed(s),
        arrow_type(scalar_type(s), ancestor, path) == Ok::<ArrowType, ErrorView>(c.data_type()),
    ensures
        only_variants(append_lists(c, s->Array_0.elements@, n).error, writable(s)),
    decreases s->Array_0.elements@, 1nat, n,
{
    if n > 0 {
        let d = s->Array_0;
        let es = d.elements@;
        lemma_append_lists_error(c, s, (n - 1) as nat, ancestor, path);
        if append_lists(c, es, (n - 1) as nat).error is None {
            lemma_well_typed_admitted(s, ancestor, path);
            lemma_append_lists_finishable(c, es, (n - 1) as nat);
            lemma_append_lists_grows(c, es, (n - 1) as nat);
            let r = append_lists(c, es, (n - 1) as nat).column;
            assert(r->List_field == c->List_field);
            lemma_append_each_error(
                *r->List_values,
                d.tpe.element_type@,
                es,
                es.len(),
                ancestor,
                dotted(path, LIST_ARRAY_ROOT@),
            );
        }
    }
}

proof fn lemma_append_pairs_error(
    c: Column,
    s: Scalar,
    k: nat,
    ancestor: Option<FieldView>,
    path: Seq<char>,
)
    requires
        s is MapOf,
        entries_fit(c),
        well_typed(s),
        arrow_type(scalar_type(s), ancestor, path) == Ok::<ArrowType, ErrorView>(c.data_type()),
        k <= s->MapOf_0.pairs@.len(),
    ensures
        only_variants(append_pairs(c, s->MapOf_0.pairs@, k).error, writable(s)),
    decreases s->MapOf_0.pairs@, 0nat, k,
{
    if k > 0 {
        let d = s->MapOf_0;
        let ps = d.pairs@;
        lemma_append_pairs_error(c, s, (k - 1) as nat, ancestor, path);
        if append_pairs(c, ps, (k - 1) as nat).error is None {
            lemma_well_typed_admitted(s, ancestor, path);
            lemma_append_pairs_finishable(c, ps, (k - 1) as nat);
            lemma_append_pairs_frame(c, ps, (k - 1) as nat);
            let r = append_pairs(c, ps, (k - 1) as nat).column;
            lemma_sound_map(r);
            lemma_append_error(
                map_keys(r),
                ps[k - 1].0,
                1,
                ancestor,
                dotted(path, MAP_KEY_DEFAULT@),
            );
            lemma_append_error(
                map_values(r),
                ps[k - 1].1,
                1,
                ancestor,
                dotted(path, MAP_VALUE_DEFAULT@),
            );
        }
    }
}

proof fn lemma_append_maps_error(
    c: Column,
    s: Scalar,
    n: nat,
    ancestor: Option<FieldView>,
    path: Seq<char>,
)
    requires
        s is MapOf,
        sound_builder(c),
        finishable(c),
        well_typed(s),
        arrow_type(scalar_type(s), ancestor, path) == Ok::<ArrowType, ErrorView>(c.data_type()),
    ensures
        is_map(c),
        only_variants(append_maps(c, s->MapOf_0.pairs@, n).error, writable(s)),
    decreases s->MapOf_0.pairs@, 1nat, n,
{
    lemma_entries_fit(c);
    if n > 0 {
        let ps = s->MapOf_0.pairs@;
        lemma_append_maps_error(c, s, (n - 1) as nat, ancestor, path);
        if append_maps(c, ps, (n - 1) as nat).error is None {
            lemma_well_typed_admitted(s, ancestor, path);
            lemma_append_maps_finishable(c, ps, (n - 1) as nat);
            lemma_append_maps_grows(c, ps, (n - 1) as nat);
            let r = append_maps(c, ps, (n - 1) as nat).column;
            lemma_grown_len(c, r);
            lemma_entries_fit(r);
            lemma_append_pairs_error(r, s, ps.len(), ancestor, path);
            if append_pairs(r, ps, ps.len()).error is None {
                lemma_append_pairs_finishable(r, ps, ps.len());
            }
        }
    }
}

/// A well-typed scalar whose type converts becomes an array, unless it has a null variant in it: that
/// is the one thing that is reported.
pub proof fn law_to_array_succeeds(s: Scalar, n: nat)
    requires
        well_typed(s),
        arrow_type(scalar_type(s), None, ""@) is Ok,
    ensures
        writable(s) ==> scalar_column(s, n) is Ok,
        scalar_column(s, n) matches Err(e) ==> e == ErrorView::UnsupportedVariant,
{
    let c = empty_column(arrow_type(scalar_type(s), None, ""@)->Ok_0);
    lemma_new_builder(scalar_type(s), None, ""@);
    lemma_append_error(c, s, n, None, ""@);
}

} // verus!

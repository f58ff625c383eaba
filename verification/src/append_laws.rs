//! What appending to builders promises.
use crate::append::{
    append, append_each, append_fields, append_lists, append_maps, append_null,
    append_null_fields, Appended,
};
use crate::arrow_builders::with_struct_rows;
use crate::building::{lemma_append_fields_at, lemma_append_null_fields_at};
use crate::conversion::{arrow_type, LIST_ARRAY_ROOT, MAP_KEY_DEFAULT, MAP_VALUE_DEFAULT};
use crate::model::{empty_column, times, Cell, Column};
use crate::rows::{law_to_array_rows, law_to_arrow_rows, row, value, Row};
use crate::scalars::{scalar_cell, scalar_type, well_typed, ArrayData, Scalar};
use crate::schema::{FieldView, TypeView};
use crate::text::dotted;
use crate::to_array::{elements_column, scalar_column, well_typed_elements};
use vstd::prelude::*;

verus! {

/// Appending `m` rows of a scalar and then `n` more is appending `m + n`.
pub proof fn law_append_sum(c: Column, s: Scalar, m: nat, n: nat)
    requires
        append(c, s, m).error is None,
        append(append(c, s, m).column, s, n).error is None,
    ensures
        append(c, s, m + n) == append(append(c, s, m).column, s, n),
    decreases s,
{
    let first = append(c, s, m).column;
    match s {
        Scalar::Struct(d) => {
            let vs = d.values@;
            let k = if vs.len() < d.fields@.len() {
                vs.len()
            } else {
                d.fields@.len()
            };
            let f = append_fields(c, vs, k, m).column;
            let g = append_fields(first, vs, k, n).column;
            lemma_append_fields_at(c, vs, k, m);
            lemma_append_fields_at(first, vs, k, n);
            assert forall|i: int| 0 <= i < k implies append(
                c->Struct_columns[i],
                #[trigger] vs[i],
                m + n,
            ) == (Appended { column: g->Struct_columns[i], error: None }) by {
                let child = c->Struct_columns[i];
                assert(f->Struct_columns[i] == append(child, vs[i], m).column);
                assert(first->Struct_columns[i] == f->Struct_columns[i]);
                assert(g->Struct_columns[i] == append(first->Struct_columns[i], vs[i], n).column);
                law_append_sum(child, vs[i], m, n);
            }
            lemma_fields_appended(c, vs, k, m + n);
            lemma_append_fields_at(c, vs, k, m + n);
            let h = append_fields(c, vs, k, m + n).column;
            assert forall|i: int| 0 <= i < c->Struct_columns.len() implies #[trigger]
                h->Struct_columns[i] == g->Struct_columns[i] by {
                if i < k {
                    assert(h->Struct_columns[i] == append(c->Struct_columns[i], vs[i], m + n).column);
                } else {
                    assert(g->Struct_columns[i] == first->Struct_columns[i]);
                    assert(f->Struct_columns[i] == c->Struct_columns[i]);
                }
            }
            assert(h->Struct_columns =~= g->Struct_columns);
            assert(c->Struct_validity + times(true, m) + times(true, n) =~= c->Struct_validity
                + times(true, m + n));
            assert(with_struct_rows(h, true, m + n) == with_struct_rows(g, true, n));
        },
        Scalar::Array(d) => {
            lemma_lists_sum(c, d.elements@, m, n);
        },
        Scalar::MapOf(d) => {
            lemma_maps_sum(c, d.pairs@, m, n);
        },
        Scalar::Null(t) => {
            lemma_null_sum(c, t@, m, n);
        },
        _ => {
            let cells = c->Leaf_cells;
            let cell = scalar_cell(s);
            assert(cells + times(cell, m) + times(cell, n) =~= cells + times(cell, m + n));
        },
    }
}

/// Where every child takes its value, all of them do.
proof fn lemma_fields_appended(c: Column, values: Seq<Scalar>, k: nat, n: nat)
    requires
        c is Struct,
        k <= c->Struct_columns.len(),
        k <= values.len(),
        forall|i: int|
            0 <= i < k ==> append(c->Struct_columns[i], #[trigger] values[i], n).error is None,
    ensures
        append_fields(c, values, k, n).error is None,
    decreases k,
{
    if k > 0 {
        lemma_fields_appended(c, values, (k - 1) as nat, n);
        lemma_append_fields_at(c, values, (k - 1) as nat, n);
        let r = append_fields(c, values, (k - 1) as nat, n).column;
        assert(r->Struct_columns[k - 1] == c->Struct_columns[k - 1]);
        assert(append(c->Struct_columns[k - 1], values[k - 1], n).error is None);
    }
}

proof fn lemma_null_fields_appended(c: Column, fs: Seq<FieldView>, k: nat, n: nat)
    requires
        c is Struct,
        c->Struct_columns.len() == fs.len(),
        k <= fs.len(),
        forall|i: int|
            0 <= i < k ==> append_null(
                c->Struct_columns[i],
                (#[trigger] fs[i]).data_type,
                n,
            ).error is None,
    ensures
        append_null_fields(c, fs, k, n).error is None,
    decreases k,
{
    if k > 0 {
        lemma_null_fields_appended(c, fs, (k - 1) as nat, n);
        lemma_append_null_fields_at(c, fs, (k - 1) as nat, n);
        let r = append_null_fields(c, fs, (k - 1) as nat, n).column;
        assert(r->Struct_columns[k - 1] == c->Struct_columns[k - 1]);
        assert(append_null(c->Struct_columns[k - 1], fs[k - 1].data_type, n).error is None);
    }
}

proof fn lemma_null_sum(c: Column, t: TypeView, m: nat, n: nat)
    requires
        append_null(c, t, m).error is None,
        append_null(append_null(c, t, m).column, t, n).error is None,
    ensures
        append_null(c, t, m + n) == append_null(append_null(c, t, m).column, t, n),
    decreases t,
{
    let first = append_null(c, t, m).column;
    match t {
        TypeView::Primitive(_) => {
            let cells = c->Leaf_cells;
            let cell = Cell::Null;
            assert(cells + times(cell, m) + times(cell, n) =~= cells + times(cell, m + n));
        },
        TypeView::Struct(fs) => {
            let k = fs.len();
            let f = append_null_fields(c, fs, k, m).column;
            let g = append_null_fields(first, fs, k, n).column;
            lemma_append_null_fields_at(c, fs, k, m);
            lemma_append_null_fields_at(first, fs, k, n);
            assert forall|i: int| 0 <= i < k implies append_null(
                c->Struct_columns[i],
                (#[trigger] fs[i]).data_type,
                m + n,
            ) == (Appended { column: g->Struct_columns[i], error: None }) by {
                let child = c->Struct_columns[i];
                assert(f->Struct_columns[i] == append_null(child, fs[i].data_type, m).column);
                assert(first->Struct_columns[i] == f->Struct_columns[i]);
                assert(g->Struct_columns[i] == append_null(
                    first->Struct_columns[i],
                    fs[i].data_type,
                    n,
                ).column);
                lemma_null_sum(child, fs[i].data_type, m, n);
            }
            lemma_null_fields_appended(c, fs, k, m + n);
            lemma_append_null_fields_at(c, fs, k, m + n);
            let h = append_null_fields(c, fs, k, m + n).column;
            assert forall|i: int| 0 <= i < k implies #[trigger] h->Struct_columns[i]
                == g->Struct_columns[i] by {
                assert(h->Struct_columns[i] == append_null(
                    c->Struct_columns[i],
                    fs[i].data_type,
                    m + n,
                ).column);
            }
            assert(h->Struct_columns =~= g->Struct_columns);
            assert(c->Struct_validity + times(false, m) + times(false, n) =~= c->Struct_validity
                + times(false, m + n));
            assert(with_struct_rows(h, false, m + n) == with_struct_rows(g, false, n));
        },
        TypeView::Array(_, _) => {
            let end = c->List_values.len() as int;
            assert(c->List_offsets + times(end, m) + times(end, n) =~= c->List_offsets + times(
                end,
                m + n,
            ));
            assert(c->List_validity + times(false, m) + times(false, n) =~= c->List_validity
                + times(false, m + n));
        },
        TypeView::MapOf(_, _, _) => {
            let end = c->MapOf_entries.len() as int;
            assert(c->MapOf_offsets + times(end, m) + times(end, n) =~= c->MapOf_offsets + times(
                end,
                m + n,
            ));
            assert(c->MapOf_validity + times(false, m) + times(false, n) =~= c->MapOf_validity
                + times(false, m + n));
        },
        TypeView::Variant(_) => {},
    }
}

proof fn lemma_lists_sum(c: Column, elements: Seq<Scalar>, m: nat, n: nat)
    requires
        append_lists(c, elements, m).error is None,
        append_lists(append_lists(c, elements, m).column, elements, n).error is None,
    ensures
        append_lists(c, elements, m + n) == append_lists(
            append_lists(c, elements, m).column,
            elements,
            n,
        ),
    decreases n,
{
    if n > 0 {
        lemma_lists_sum(c, elements, m, (n - 1) as nat);
        assert((m + n - 1) as nat == m + (n - 1) as nat);
    }
}

proof fn lemma_maps_sum(c: Column, pairs: Seq<(Scalar, Scalar)>, m: nat, n: nat)
    requires
        append_maps(c, pairs, m).error is None,
        append_maps(append_maps(c, pairs, m).column, pairs, n).error is None,
    ensures
        append_maps(c, pairs, m + n) == append_maps(append_maps(c, pairs, m).column, pairs, n),
    decreases n,
{
    if n > 0 {
        lemma_maps_sum(c, pairs, m, (n - 1) as nat);
        assert((m + n - 1) as nat == m + (n - 1) as nat);
    }
}

/// Appending no rows of a scalar leaves a builder as it is.
pub proof fn law_append_none(c: Column, s: Scalar)
    ensures
        append(c, s, 0).column == c,
    decreases s,
{
    match s {
        Scalar::Struct(d) => {
            if c is Struct && c->Struct_columns.len() == d.fields@.len() {
                let k = if d.values@.len() < d.fields@.len() {
                    d.values@.len()
                } else {
                    d.fields@.len()
                };
                lemma_fields_none(c, d.values@, k);
                assert(c->Struct_validity + times(true, 0) =~= c->Struct_validity);
            }
        },
        Scalar::Null(t) => {
            lemma_null_none(c, t@);
        },
        Scalar::Array(_) => {},
        Scalar::MapOf(_) => {},
        _ => {
            if c is Leaf {
                let cell = scalar_cell(s);
                assert(c->Leaf_cells + times(cell, 0) =~= c->Leaf_cells);
            }
        },
    }
}

proof fn lemma_fields_none(c: Column, values: Seq<Scalar>, k: nat)
    requires
        c is Struct,
        k <= c->Struct_columns.len(),
    ensures
        append_fields(c, values, k, 0).column == c,
    decreases values, k,
{
    if k > 0 && k <= values.len() {
        lemma_fields_none(c, values, (k - 1) as nat);
        law_append_none(c->Struct_columns[k - 1], values[k - 1]);
        assert(c->Struct_columns.update(k - 1, c->Struct_columns[k - 1]) =~= c->Struct_columns);
    }
}

proof fn lemma_null_none(c: Column, t: TypeView)
    ensures
        append_null(c, t, 0).column == c,
    decreases t, 0nat,
{
    match t {
        TypeView::Primitive(_) => {
            if c is Leaf {
                assert(c->Leaf_cells + times(Cell::Null, 0) =~= c->Leaf_cells);
            }
        },
        TypeView::Struct(fs) => {
            if c is Struct && c->Struct_columns.len() == fs.len() {
                lemma_null_fields_none(c, fs, fs.len());
                assert(c->Struct_validity + times(false, 0) =~= c->Struct_validity);
            }
        },
        TypeView::Array(_, _) => {
            if c is List {
                assert(c->List_offsets + times(c->List_values.len() as int, 0) =~= c->List_offsets);
                assert(c->List_validity + times(false, 0) =~= c->List_validity);
            }
        },
        TypeView::MapOf(_, _, _) => {
            if c is MapOf {
                assert(c->MapOf_offsets + times(c->MapOf_entries.len() as int, 0)
                    =~= c->MapOf_offsets);
                assert(c->MapOf_validity + times(false, 0) =~= c->MapOf_validity);
            }
        },
        TypeView::Variant(_) => {},
    }
}

proof fn lemma_null_fields_none(c: Column, fs: Seq<FieldView>, k: nat)
    requires
        c is Struct,
        c->Struct_columns.len() == fs.len(),
        k <= fs.len(),
    ensures
        append_null_fields(c, fs, k, 0).column == c,
    decreases fs, k,
{
    if k > 0 {
        lemma_null_fields_none(c, fs, (k - 1) as nat);
        lemma_null_none(c->Struct_columns[k - 1], fs[k - 1].data_type);
        assert(c->Struct_columns.update(k - 1, c->Struct_columns[k - 1]) =~= c->Struct_columns);
    }
}

/// Without a struct field around it, the Arrow type of a type does not depend on the path.
proof fn lemma_path_free(t: TypeView, p: Seq<char>, q: Seq<char>)
    ensures
        arrow_type(t, None, p) == arrow_type(t, None, q),
    decreases t,
{
    match t {
        TypeView::Array(element, _) => {
            lemma_path_free(*element, dotted(p, LIST_ARRAY_ROOT@), dotted(q, LIST_ARRAY_ROOT@));
        },
        TypeView::MapOf(key, value, _) => {
            lemma_path_free(*key, dotted(p, MAP_KEY_DEFAULT@), dotted(q, MAP_KEY_DEFAULT@));
            lemma_path_free(*value, dotted(p, MAP_VALUE_DEFAULT@), dotted(q, MAP_VALUE_DEFAULT@));
        },
        _ => {},
    }
}

proof fn lemma_first_list(c: Column, elements: Seq<Scalar>, n: nat)
    requires
        n >= 1,
        append_lists(c, elements, n).error is None,
    ensures
        append_each(*c->List_values, elements, elements.len()).error is None,
    decreases n,
{
    if n > 1 {
        lemma_first_list(c, elements, (n - 1) as nat);
    } else {
        assert(append_lists(c, elements, 0) == (Appended { column: c, error: None }));
    }
}

/// Every row of the array of a list is the array of its elements: it is not null, has their type, and
/// its elements say what the rows of that array say.
pub proof fn law_list_rows(d: ArrayData, n: nat)
    requires
        well_typed(Scalar::Array(d)),
        n >= 1,
        scalar_column(Scalar::Array(d), n) is Ok,
    ensures
        elements_column(d) is Ok,
        ({
            let l = scalar_column(Scalar::Array(d), n)->Ok_0;
            let a = elements_column(d)->Ok_0;
            &&& l is List
            &&& l->List_field.data_type == a.data_type()
            &&& l.len() == n
            &&& forall|i: int|
                0 <= i < n ==> !(#[trigger] l.is_null(i)) && row(l, i) == Row::List(
                    Seq::new(a.len(), |j: int| row(a, j)),
                )
        }),
{
    let s = Scalar::Array(d);
    let e = d.tpe.element_type@;
    lemma_path_free(e, dotted(""@, LIST_ARRAY_ROOT@), ""@);
    law_to_array_rows(s, n);
    let l = scalar_column(s, n)->Ok_0;
    let c = empty_column(arrow_type(scalar_type(s), None, ""@)->Ok_0);
    lemma_first_list(c, d.elements@, n);
    assert(well_typed_elements(d));
    law_to_arrow_rows(d);
    let a = elements_column(d)->Ok_0;
    assert forall|i: int| 0 <= i < n implies !(#[trigger] l.is_null(i)) && row(l, i) == Row::List(
        Seq::new(a.len(), |j: int| row(a, j)),
    ) by {
        assert(row(l, i) == value(s));
        assert(value(s)->List_0 =~= Seq::new(a.len(), |j: int| row(a, j)));
    }
}

} // verus!

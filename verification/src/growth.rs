//! Appending only ever extends what a builder holds.
use crate::append::{
    append, append_each, append_fields, append_leaf, append_lists, append_maps, append_null,
    append_null_fields, append_pairs, with_map_rows,
};
use crate::arrow_builders::{
    is_map, map_keys, map_values, with_child, with_entries, with_list_rows, with_map_row,
    with_struct_rows, with_values,
};
use crate::model::{byte_count, times, within_limits, Column, Cell};
use crate::scalars::{scalar_cell, scalar_primitive, Scalar};
use crate::schema::{FieldView, PrimitiveType, TypeView};
use vstd::prelude::*;

verus! {

/// Whether `b` begins with `a`.
pub open spec fn extends<A>(a: Seq<A>, b: Seq<A>) -> bool {
    &&& a.len() <= b.len()
    &&& forall|i: int| 0 <= i < a.len() ==> #[trigger] b[i] == a[i]
}

/// Whether `b` is `a` with more rows behind the old ones, in the column itself and in its children.
pub open spec fn grown(a: Column, b: Column) -> bool
    decreases a,
{
    match (a, b) {
        (Column::Leaf { data_type: t, cells: x }, Column::Leaf { data_type: u, cells: y }) => {
            &&& t == u
            &&& extends(x, y)
        },
        (
            Column::Struct { fields: f, columns: p, validity: x },
            Column::Struct { fields: g, columns: q, validity: y },
        ) => {
            &&& f == g
            &&& p.len() == q.len()
            &&& extends(x, y)
            &&& forall|i: int| 0 <= i < p.len() ==> grown(#[trigger] p[i], q[i])
        },
        (
            Column::List { field: f, offsets: o, values: p, validity: x },
            Column::List { field: g, offsets: u, values: q, validity: y },
        ) => {
            &&& f == g
            &&& extends(o, u)
            &&& extends(x, y)
            &&& grown(*p, *q)
        },
        (
            Column::MapOf { field: f, offsets: o, entries: p, validity: x, ordered: m },
            Column::MapOf { field: g, offsets: u, entries: q, validity: y, ordered: n },
        ) => {
            &&& f == g
            &&& m == n
            &&& extends(o, u)
            &&& extends(x, y)
            &&& grown(*p, *q)
        },
        _ => false,
    }
}

/// Whether `offsets` cut a child of `end` rows into `rows` consecutive stretches.
pub open spec fn in_order(offsets: Seq<int>, rows: nat, end: nat) -> bool {
    &&& offsets.len() == rows + 1
    &&& forall|i: int, j: int|
        #![trigger offsets[i], offsets[j]]
        0 <= i <= j < offsets.len() ==> 0 <= offsets[i] <= offsets[j] <= end
}

/// What holds of every builder: only types without fields have no children, the rows of lists and
/// maps are consecutive stretches of their children, and there are as many entries of a map as
/// there are keys.
pub open spec fn sound_builder(c: Column) -> bool
    decreases c,
{
    match c {
        Column::Leaf { data_type, .. } => !(data_type is Struct || data_type is List
            || data_type is MapOf),
        Column::Struct { columns, .. } => forall|i: int|
            0 <= i < columns.len() ==> sound_builder(#[trigger] columns[i]),
        Column::List { values, offsets, validity, .. } => {
            &&& in_order(offsets, validity.len(), values.len())
            &&& sound_builder(*values)
        },
        Column::MapOf { entries, offsets, validity, .. } => {
            &&& is_map(c)
            &&& in_order(offsets, validity.len(), entries.len())
            &&& entries->Struct_validity == times(true, map_keys(c).len())
            &&& sound_builder(*entries)
        },
    }
}

pub proof fn lemma_grown_refl(a: Column)
    ensures
        grown(a, a),
    decreases a,
{
    match a {
        Column::Leaf { .. } => {},
        Column::Struct { columns, .. } => {
            assert forall|i: int| 0 <= i < columns.len() implies grown(
                #[trigger] columns[i],
                columns[i],
            ) by {
                lemma_grown_refl(columns[i]);
            }
        },
        Column::List { values, .. } => {
            lemma_grown_refl(*values);
        },
        Column::MapOf { entries, .. } => {
            lemma_grown_refl(*entries);
        },
    }
}

pub proof fn lemma_grown_trans(a: Column, b: Column, c: Column)
    requires
        grown(a, b),
        grown(b, c),
    ensures
        grown(a, c),
    decreases a,
{
    match a {
        Column::Leaf { cells, .. } => {
            assert(extends(cells, c->Leaf_cells)) by {
                assert forall|i: int| 0 <= i < cells.len() implies #[trigger] c->Leaf_cells[i]
                    == cells[i] by {
                    assert(b->Leaf_cells[i] == cells[i]);
                }
            }
        },
        Column::Struct { columns, validity, .. } => {
            assert forall|i: int| 0 <= i < columns.len() implies grown(
                #[trigger] columns[i],
                c->Struct_columns[i],
            ) by {
                assert(grown(b->Struct_columns[i], c->Struct_columns[i]));
                lemma_grown_trans(columns[i], b->Struct_columns[i], c->Struct_columns[i]);
            }
            assert forall|i: int| 0 <= i < validity.len() implies #[trigger] c->Struct_validity[i]
                == validity[i] by {
                assert(b->Struct_validity[i] == validity[i]);
            }
        },
        Column::List { values, validity, offsets, .. } => {
            lemma_grown_trans(*values, *b->List_values, *c->List_values);
            assert forall|i: int| 0 <= i < validity.len() implies #[trigger] c->List_validity[i]
                == validity[i] by {
                assert(b->List_validity[i] == validity[i]);
            }
            assert forall|i: int| 0 <= i < offsets.len() implies #[trigger] c->List_offsets[i]
                == offsets[i] by {
                assert(b->List_offsets[i] == offsets[i]);
            }
        },
        Column::MapOf { entries, validity, offsets, .. } => {
            lemma_grown_trans(*entries, *b->MapOf_entries, *c->MapOf_entries);
            assert forall|i: int| 0 <= i < validity.len() implies #[trigger] c->MapOf_validity[i]
                == validity[i] by {
                assert(b->MapOf_validity[i] == validity[i]);
            }
            assert forall|i: int| 0 <= i < offsets.len() implies #[trigger] c->MapOf_offsets[i]
                == offsets[i] by {
                assert(b->MapOf_offsets[i] == offsets[i]);
            }
        },
    }
}

proof fn lemma_byte_count_extends(a: Seq<Cell>, b: Seq<Cell>)
    requires
        extends(a, b),
    ensures
        byte_count(a) <= byte_count(b),
    decreases b.len(),
{
    if a.len() == b.len() {
        assert(a =~= b);
    } else {
        lemma_byte_count_extends(a, b.drop_last());
    }
}

/// What a builder can hold, every earlier state of it could hold.
pub proof fn lemma_grown_limits(a: Column, b: Column)
    requires
        grown(a, b),
        within_limits(b),
    ensures
        within_limits(a),
    decreases a,
{
    match a {
        Column::Leaf { cells, .. } => {
            lemma_byte_count_extends(cells, b->Leaf_cells);
        },
        Column::Struct { columns, .. } => {
            assert forall|i: int| 0 <= i < columns.len() implies within_limits(
                #[trigger] columns[i],
            ) by {
                assert(grown(columns[i], b->Struct_columns[i]));
                assert(within_limits(b->Struct_columns[i]));
                lemma_grown_limits(columns[i], b->Struct_columns[i]);
            }
        },
        Column::List { values, .. } => {
            lemma_grown_limits(*values, *b->List_values);
            lemma_grown_len(*values, *b->List_values);
        },
        Column::MapOf { entries, .. } => {
            lemma_grown_limits(*entries, *b->MapOf_entries);
            lemma_grown_len(*entries, *b->MapOf_entries);
        },
    }
}

pub proof fn lemma_grown_len(a: Column, b: Column)
    requires
        grown(a, b),
    ensures
        a.len() <= b.len(),
        a.data_type() == b.data_type(),
{
}

pub proof fn lemma_grow_leaf(c: Column, p: PrimitiveType, cell: Cell, n: nat)
    requires
        sound_builder(c),
    ensures
        grown(c, append_leaf(c, p, cell, n).column),
        sound_builder(append_leaf(c, p, cell, n).column),
{
    lemma_grown_refl(c);
}

pub proof fn lemma_grow_child(c: Column, i: int, child: Column)
    requires
        c is Struct,
        0 <= i < c->Struct_columns.len(),
        sound_builder(c),
        sound_builder(child),
        grown(c->Struct_columns[i], child),
    ensures
        grown(c, with_child(c, i, child)),
        sound_builder(with_child(c, i, child)),
{
    let columns = c->Struct_columns;
    assert forall|j: int| 0 <= j < columns.len() implies grown(
        #[trigger] columns[j],
        columns.update(i, child)[j],
    ) by {
        lemma_grown_refl(columns[j]);
    }
    assert forall|j: int| 0 <= j < columns.len() implies sound_builder(
        #[trigger] columns.update(i, child)[j],
    ) by {
        assert(sound_builder(columns[j]));
    }
}

pub proof fn lemma_grow_struct_rows(c: Column, valid: bool, n: nat)
    requires
        c is Struct,
        sound_builder(c),
    ensures
        grown(c, with_struct_rows(c, valid, n)),
        sound_builder(with_struct_rows(c, valid, n)),
{
    lemma_grown_refl(c);
    assert forall|j: int| 0 <= j < c->Struct_columns.len() implies grown(
        #[trigger] c->Struct_columns[j],
        c->Struct_columns[j],
    ) by {
        lemma_grown_refl(c->Struct_columns[j]);
    }
}

pub proof fn lemma_grow_list(c: Column, values: Column, valid: bool, n: nat)
    requires
        c is List,
        sound_builder(c),
        sound_builder(values),
        grown(*c->List_values, values),
    ensures
        grown(c, with_values(c, values)),
        sound_builder(with_values(c, values)),
        grown(c, with_list_rows(with_values(c, values), valid, n)),
        sound_builder(with_list_rows(with_values(c, values), valid, n)),
{
}

pub proof fn lemma_grow_entries(c: Column, keys: Column, values: Column)
    requires
        is_map(c),
        sound_builder(c),
        sound_builder(keys),
        sound_builder(values),
        grown(map_keys(c), keys),
        grown(map_values(c), values),
    ensures
        grown(c, with_entries(c, keys, values)),
        sound_builder(with_entries(c, keys, values)),
        is_map(with_entries(c, keys, values)),
        map_keys(with_entries(c, keys, values)) == keys,
        map_values(with_entries(c, keys, values)) == values,
{
    let e = *with_entries(c, keys, values)->MapOf_entries;
    lemma_grown_len(map_keys(c), keys);
    assert(grown(*c->MapOf_entries, e)) by {
        assert forall|i: int| 0 <= i < 2 implies grown(
            #[trigger] c->MapOf_entries->Struct_columns[i],
            e->Struct_columns[i],
        ) by {}
    }
    assert(sound_builder(e));
}

pub proof fn lemma_sound_map(c: Column)
    requires
        is_map(c),
        sound_builder(c),
    ensures
        sound_builder(map_keys(c)),
        sound_builder(map_values(c)),
        c->MapOf_entries.len() == map_keys(c).len(),
{
    assert(sound_builder(*c->MapOf_entries));
}

pub proof fn lemma_grow_map_rows(c: Column, valid: bool, n: nat)
    requires
        is_map(c),
        sound_builder(c),
    ensures
        grown(c, with_map_rows(c, valid, n)),
        sound_builder(with_map_rows(c, valid, n)),
        grown(c, with_map_row(c, valid)),
        sound_builder(with_map_row(c, valid)),
{
    lemma_grown_refl(*c->MapOf_entries);
}

/// Appending null rows only extends a builder, also where it fails halfway.
pub proof fn lemma_append_null_grows(c: Column, t: TypeView, n: nat)
    requires
        sound_builder(c),
    ensures
        grown(c, append_null(c, t, n).column),
        sound_builder(append_null(c, t, n).column),
    decreases t, 0nat,
{
    lemma_grown_refl(c);
    match t {
        TypeView::Primitive(p) => {
            lemma_grow_leaf(c, p, Cell::Null, n);
        },
        TypeView::Struct(fs) => {
            if c is Struct && c->Struct_columns.len() == fs.len() {
                lemma_append_null_fields_grows(c, fs, fs.len(), n);
                let r = append_null_fields(c, fs, fs.len(), n);
                lemma_grow_struct_rows(r.column, false, n);
                lemma_grown_trans(c, r.column, with_struct_rows(r.column, false, n));
            }
        },
        TypeView::Array(_, _) => {
            if c is List {
                lemma_grown_refl(*c->List_values);
                lemma_grow_list(c, *c->List_values, false, n);
                assert(with_values(c, *c->List_values) == c);
            }
        },
        TypeView::MapOf(_, _, _) => {
            if is_map(c) {
                lemma_grow_map_rows(c, false, n);
            }
        },
        TypeView::Variant(_) => {},
    }
}

pub proof fn lemma_append_null_fields_grows(c: Column, fs: Seq<FieldView>, k: nat, n: nat)
    requires
        sound_builder(c),
        c is Struct,
        c->Struct_columns.len() == fs.len(),
        k <= fs.len(),
    ensures
        grown(c, append_null_fields(c, fs, k, n).column),
        sound_builder(append_null_fields(c, fs, k, n).column),
    decreases fs, k,
{
    lemma_grown_refl(c);
    if k > 0 {
        lemma_append_null_fields_grows(c, fs, (k - 1) as nat, n);
        let r = append_null_fields(c, fs, (k - 1) as nat, n);
        if r.error is None {
            let child = r.column->Struct_columns[k - 1];
            lemma_append_null_grows(child, fs[k - 1].data_type, n);
            let a = append_null(child, fs[k - 1].data_type, n);
            lemma_grow_child(r.column, k - 1, a.column);
            lemma_grown_trans(c, r.column, with_child(r.column, k - 1, a.column));
        }
    }
}

/// Appending a scalar only extends a builder, also where it fails halfway.
pub proof fn lemma_append_grows(c: Column, s: Scalar, n: nat)
    requires
        sound_builder(c),
    ensures
        grown(c, append(c, s, n).column),
        sound_builder(append(c, s, n).column),
    decreases s, 0nat, 0nat,
{
    lemma_grown_refl(c);
    match s {
        Scalar::Struct(d) => {
            if c is Struct && c->Struct_columns.len() == d.fields@.len() {
                let k = if d.values@.len() < d.fields@.len() {
                    d.values@.len()
                } else {
                    d.fields@.len()
                };
                lemma_append_fields_grows(c, d.values@, k, n);
                let r = append_fields(c, d.values@, k, n);
                lemma_grow_struct_rows(r.column, true, n);
                lemma_grown_trans(c, r.column, with_struct_rows(r.column, true, n));
            }
        },
        Scalar::Array(d) => {
            if c is List {
                lemma_append_lists_grows(c, d.elements@, n);
            }
        },
        Scalar::MapOf(d) => {
            if is_map(c) {
                lemma_append_maps_grows(c, d.pairs@, n);
            }
        },
        Scalar::Null(t) => {
            lemma_append_null_grows(c, t@, n);
        },
        _ => {
            lemma_grow_leaf(c, scalar_primitive(s), scalar_cell(s), n);
        },
    }
}

pub proof fn lemma_append_fields_grows(c: Column, values: Seq<Scalar>, k: nat, n: nat)
    requires
        sound_builder(c),
        c is Struct,
        k <= c->Struct_columns.len(),
        k <= values.len(),
    ensures
        grown(c, append_fields(c, values, k, n).column),
        sound_builder(append_fields(c, values, k, n).column),
    decreases values, 0nat, k,
{
    lemma_grown_refl(c);
    if k > 0 {
        lemma_append_fields_grows(c, values, (k - 1) as nat, n);
        let r = append_fields(c, values, (k - 1) as nat, n);
        if r.error is None {
            let child = r.column->Struct_columns[k - 1];
            lemma_append_grows(child, values[k - 1], n);
            let a = append(child, values[k - 1], n);
            lemma_grow_child(r.column, k - 1, a.column);
            lemma_grown_trans(c, r.column, with_child(r.column, k - 1, a.column));
        }
    }
}

pub proof fn lemma_append_each_grows(c: Column, values: Seq<Scalar>, k: nat)
    requires
        sound_builder(c),
        k <= values.len(),
    ensures
        grown(c, append_each(c, values, k).column),
        sound_builder(append_each(c, values, k).column),
    decreases values, 0nat, k,
{
    lemma_grown_refl(c);
    if k > 0 {
        lemma_append_each_grows(c, values, (k - 1) as nat);
        let r = append_each(c, values, (k - 1) as nat);
        if r.error is None {
            lemma_append_grows(r.column, values[k - 1], 1);
            lemma_grown_trans(c, r.column, append(r.column, values[k - 1], 1).column);
        }
    }
}

pub proof fn lemma_append_lists_grows(c: Column, elements: Seq<Scalar>, n: nat)
    requires
        sound_builder(c),
        c is List,
    ensures
        grown(c, append_lists(c, elements, n).column),
        sound_builder(append_lists(c, elements, n).column),
    decreases elements, 1nat, n,
{
    lemma_grown_refl(c);
    if n > 0 {
        lemma_append_lists_grows(c, elements, (n - 1) as nat);
        let r = append_lists(c, elements, (n - 1) as nat);
        if r.error is None {
            lemma_append_each_grows(*r.column->List_values, elements, elements.len());
            let v = append_each(*r.column->List_values, elements, elements.len());
            lemma_grow_list(r.column, v.column, true, 1);
            lemma_grown_trans(c, r.column, append_lists(c, elements, n).column);
        }
    }
}

pub proof fn lemma_append_pairs_grows(c: Column, pairs: Seq<(Scalar, Scalar)>, k: nat)
    requires
        sound_builder(c),
        is_map(c),
        k <= pairs.len(),
    ensures
        grown(c, append_pairs(c, pairs, k).column),
        sound_builder(append_pairs(c, pairs, k).column),
        is_map(append_pairs(c, pairs, k).column),
    decreases pairs, 0nat, k,
{
    lemma_grown_refl(c);
    if k > 0 {
        lemma_append_pairs_grows(c, pairs, (k - 1) as nat);
        let r = append_pairs(c, pairs, (k - 1) as nat);
        if r.error is None {
            let keys = map_keys(r.column);
            let values = map_values(r.column);
            lemma_sound_map(r.column);
            lemma_append_grows(keys, pairs[k - 1].0, 1);
            lemma_append_grows(values, pairs[k - 1].1, 1);
            lemma_grown_refl(values);
            let a = append(keys, pairs[k - 1].0, 1);
            let b = append(values, pairs[k - 1].1, 1);
            lemma_grow_entries(r.column, a.column, values);
            lemma_grow_entries(r.column, a.column, b.column);
            lemma_grown_trans(c, r.column, append_pairs(c, pairs, k).column);
        }
    }
}

pub proof fn lemma_append_maps_grows(c: Column, pairs: Seq<(Scalar, Scalar)>, n: nat)
    requires
        sound_builder(c),
        is_map(c),
    ensures
        grown(c, append_maps(c, pairs, n).column),
        sound_builder(append_maps(c, pairs, n).column),
        is_map(append_maps(c, pairs, n).column),
    decreases pairs, 1nat, n,
{
    lemma_grown_refl(c);
    if n > 0 {
        lemma_append_maps_grows(c, pairs, (n - 1) as nat);
        let r = append_maps(c, pairs, (n - 1) as nat);
        if r.error is None {
            lemma_append_pairs_grows(r.column, pairs, pairs.len());
            let e = append_pairs(r.column, pairs, pairs.len());
            lemma_grow_map_rows(e.column, true, 1);
            lemma_grown_trans(c, r.column, e.column);
            lemma_grown_trans(c, e.column, with_map_row(e.column, true));
        }
    }
}

} // verus!

//! How much room scalars take.
use crate::append::{
    append, append_each, append_fields, append_leaf, append_lists, append_maps, append_null,
    append_null_fields, append_pairs,
};
use crate::arrow_builders::{is_map, map_keys, map_values, with_child};
use crate::conversion::{arrow_type, lemma_arrow_type_buildable};
use crate::model::{
    buildable, byte_count, cell_bytes, empty_column, empty_columns, lemma_byte_count_times,
    max_bytes, max_slots, within_limits, ArrowType, Cell, Column,
};
use crate::scalars::{scalar_cell, scalar_primitive, scalar_type, Scalar};
use crate::schema::{FieldView, PrimitiveType, TypeView};
use crate::to_array::scalar_fits;
use vstd::prelude::*;

verus! {

/// A number of slots and bytes that any column can hold.
pub open spec fn small() -> int {
    if max_slots() < max_bytes() {
        max_slots()
    } else {
        max_bytes()
    }
}

/// The slots that one null row of a type takes, in the column and its children.
pub open spec fn null_weight(t: TypeView) -> nat
    decreases t, 0nat,
{
    match t {
        TypeView::Struct(fs) => 1 + null_weights(fs, fs.len()),
        _ => 1,
    }
}

pub open spec fn null_weights(fs: Seq<FieldView>, k: nat) -> nat
    decreases fs, k,
{
    if k == 0 || k > fs.len() {
        0
    } else {
        null_weights(fs, (k - 1) as nat) + null_weight(fs[k - 1].data_type)
    }
}

/// The slots and bytes that one row of a scalar takes, in the column and its children.
pub open spec fn weight(s: Scalar) -> nat
    decreases s, 0nat,
{
    match s {
        Scalar::Struct(d) => 1 + weights(d.values@, d.values@.len()),
        Scalar::Array(d) => 1 + weights(d.elements@, d.elements@.len()),
        Scalar::MapOf(d) => 1 + pair_weights(d.pairs@, d.pairs@.len()),
        Scalar::Null(t) => null_weight(t@),
        _ => 1 + cell_bytes(scalar_cell(s)),
    }
}

/// What the first `k` scalars take together.
pub open spec fn weights(values: Seq<Scalar>, k: nat) -> nat
    decreases values, k,
{
    if k == 0 || k > values.len() {
        0
    } else {
        weights(values, (k - 1) as nat) + weight(values[k - 1])
    }
}

/// What the first `k` entries take together.
pub open spec fn pair_weights(pairs: Seq<(Scalar, Scalar)>, k: nat) -> nat
    decreases pairs, k,
{
    if k == 0 || k > pairs.len() {
        0
    } else {
        pair_weights(pairs, (k - 1) as nat) + weight(pairs[k - 1].0) + weight(pairs[k - 1].1)
    }
}

/// Whether no column in `c` has more than `m` rows, or more than `m` bytes of texts.
pub open spec fn bounded(c: Column, m: nat) -> bool
    decreases c,
{
    &&& c.len() <= m
    &&& match c {
        Column::Leaf { cells, .. } => byte_count(cells) <= m,
        Column::Struct { columns, .. } => forall|i: int|
            0 <= i < columns.len() ==> bounded(#[trigger] columns[i], m),
        Column::List { values, .. } => bounded(*values, m),
        Column::MapOf { entries, .. } => bounded(*entries, m),
    }
}

pub proof fn lemma_bounded_more(c: Column, m: nat, n: nat)
    requires
        bounded(c, m),
        m <= n,
    ensures
        bounded(c, n),
    decreases c,
{
    match c {
        Column::Leaf { .. } => {},
        Column::Struct { columns, .. } => {
            assert forall|i: int| 0 <= i < columns.len() implies bounded(#[trigger] columns[i], n) by {
                lemma_bounded_more(columns[i], m, n);
            }
        },
        Column::List { values, .. } => {
            lemma_bounded_more(*values, m, n);
        },
        Column::MapOf { entries, .. } => {
            lemma_bounded_more(*entries, m, n);
        },
    }
}

proof fn lemma_bounded_limits(c: Column, m: nat)
    requires
        bounded(c, m),
        m <= small(),
    ensures
        within_limits(c),
    decreases c,
{
    match c {
        Column::Leaf { .. } => {},
        Column::Struct { columns, .. } => {
            assert forall|i: int| 0 <= i < columns.len() implies within_limits(
                #[trigger] columns[i],
            ) by {
                lemma_bounded_limits(columns[i], m);
            }
        },
        Column::List { values, .. } => {
            assert(bounded(*values, m));
            lemma_bounded_limits(*values, m);
        },
        Column::MapOf { entries, .. } => {
            assert(bounded(*entries, m));
            lemma_bounded_limits(*entries, m);
        },
    }
}

/// A new builder takes nothing.
pub proof fn lemma_bounded_empty(t: ArrowType)
    requires
        buildable(t),
    ensures
        bounded(empty_column(t), 0),
    decreases t,
{
    assert(byte_count(Seq::<Cell>::empty()) == 0);
    match t {
        ArrowType::Struct(fs) => {
            assert(empty_column(t)->Struct_columns == empty_columns(fs));
            assert forall|i: int| 0 <= i < fs.len() implies bounded(
                #[trigger] empty_columns(fs)[i],
                0,
            ) by {
                assert(buildable(fs[i].data_type));
                lemma_bounded_empty(fs[i].data_type);
            }
        },
        ArrowType::List(f) => {
            lemma_bounded_empty(f.data_type);
        },
        ArrowType::MapOf(f, _) => {
            match f.data_type {
                ArrowType::Struct(fs) => {
                    let e = Column::Struct {
                        fields: fs,
                        columns: empty_columns(fs),
                        validity: seq![],
                    };
                    lemma_bounded_empty(fs[0].data_type);
                    lemma_bounded_empty(fs[1].data_type);
                    assert forall|i: int| 0 <= i < fs.len() implies bounded(
                        #[trigger] empty_columns(fs)[i],
                        0,
                    ) by {
                        assert(i == 0 || i == 1);
                    }
                    assert(bounded(e, 0));
                    assert(*empty_column(t)->MapOf_entries == e);
                },
                _ => {},
            }
        },
        _ => {},
    }
}

proof fn lemma_times_more(n: nat, a: nat, b: nat)
    requires
        a <= b,
    ensures
        n * a <= n * b,
        n * (a + 1) == n * a + n,
{
    assert(n * a <= n * b) by (nonlinear_arith)
        requires
            a <= b,
    ;
    assert(n * (a + 1) == n * a + n) by (nonlinear_arith);
}

proof fn lemma_bounded_leaf(c: Column, p: PrimitiveType, cell: Cell, n: nat, m: nat)
    requires
        bounded(c, m),
    ensures
        bounded(append_leaf(c, p, cell, n).column, m + n * (1 + cell_bytes(cell))),
{
    let w = cell_bytes(cell);
    lemma_times_more(n, 0, w);
    lemma_times_more(n, w, w);
    lemma_bounded_more(c, m, m + n * (1 + w));
    if c is Leaf {
        lemma_byte_count_times(c->Leaf_cells, cell, n);
    }
}

pub proof fn lemma_append_null_bounded(c: Column, t: TypeView, n: nat, m: nat)
    requires
        bounded(c, m),
    ensures
        bounded(append_null(c, t, n).column, m + n * null_weight(t)),
    decreases t, 0nat,
{
    let w = null_weight(t);
    lemma_times_more(n, 1, w);
    lemma_bounded_more(c, m, m + n * w);
    match t {
        TypeView::Primitive(p) => {
            lemma_bounded_leaf(c, p, Cell::Null, n, m);
        },
        TypeView::Struct(fs) => {
            if c is Struct && c->Struct_columns.len() == fs.len() {
                lemma_append_null_fields_bounded(c, fs, fs.len(), n, m);
                let r = append_null_fields(c, fs, fs.len(), n).column;
                lemma_times_more(n, null_weights(fs, fs.len()), w);
                lemma_bounded_more(r, m + n * null_weights(fs, fs.len()), m + n * w);
            }
        },
        _ => {},
    }
}

proof fn lemma_append_null_fields_bounded(c: Column, fs: Seq<FieldView>, k: nat, n: nat, m: nat)
    requires
        c is Struct,
        c->Struct_columns.len() == fs.len(),
        bounded(c, m),
        k <= fs.len(),
    ensures
        ({
            let r = append_null_fields(c, fs, k, n).column;
            &&& r is Struct
            &&& r->Struct_validity == c->Struct_validity
            &&& r->Struct_columns.len() == fs.len()
            &&& bounded(r, m + n * null_weights(fs, k))
            &&& forall|i: int|
                k <= i < fs.len() ==> #[trigger] r->Struct_columns[i] == c->Struct_columns[i]
        }),
    decreases fs, k,
{
    lemma_times_more(n, 0, null_weights(fs, k));
    lemma_bounded_more(c, m, m + n * null_weights(fs, k));
    if k > 0 {
        let before = null_weights(fs, (k - 1) as nat);
        let here = null_weight(fs[k - 1].data_type);
        let bound = m + n * (before + here);
        lemma_append_null_fields_bounded(c, fs, (k - 1) as nat, n, m);
        let p = append_null_fields(c, fs, (k - 1) as nat, n);
        lemma_times_more(n, before, before + here);
        lemma_times_more(n, here, before + here);
        lemma_bounded_more(p.column, m + n * before, bound);
        if p.error is None {
            let child = c->Struct_columns[k - 1];
            assert(p.column->Struct_columns[k - 1] == child);
            assert(bounded(child, m));
            lemma_append_null_bounded(child, fs[k - 1].data_type, n, m);
            let a = append_null(child, fs[k - 1].data_type, n).column;
            lemma_bounded_more(a, m + n * here, bound);
            lemma_bounded_child(p.column, k - 1, a, bound);
        }
    }
}

proof fn lemma_bounded_child(c: Column, i: int, child: Column, m: nat)
    requires
        c is Struct,
        bounded(c, m),
        bounded(child, m),
        0 <= i < c->Struct_columns.len(),
    ensures
        bounded(with_child(c, i, child), m),
{
    let r = with_child(c, i, child);
    assert forall|j: int| 0 <= j < r->Struct_columns.len() implies bounded(
        #[trigger] r->Struct_columns[j],
        m,
    ) by {
        if j != i {
            assert(r->Struct_columns[j] == c->Struct_columns[j]);
        }
    }
}

/// Appending rows of a scalar takes no more than its weight for each.
pub proof fn lemma_append_bounded(c: Column, s: Scalar, n: nat, m: nat)
    requires
        bounded(c, m),
    ensures
        bounded(append(c, s, n).column, m + n * weight(s)),
    decreases s, 0nat, 0nat,
{
    let w = weight(s);
    lemma_times_more(n, 0, w);
    lemma_bounded_more(c, m, m + n * w);
    match s {
        Scalar::Struct(d) => {
            let vs = d.values@;
            if c is Struct && c->Struct_columns.len() == d.fields@.len() {
                let k = if vs.len() < d.fields@.len() {
                    vs.len()
                } else {
                    d.fields@.len()
                };
                lemma_append_fields_bounded(c, vs, k, n, m);
                lemma_weights_more(vs, k, vs.len());
                let r = append_fields(c, vs, k, n).column;
                lemma_times_more(n, weights(vs, k), w);
                lemma_times_more(n, 1, w);
                lemma_bounded_more(r, m + n * weights(vs, k), m + n * w);
            }
        },
        Scalar::Array(d) => {
            if c is List {
                lemma_append_lists_bounded(c, d.elements@, n, m);
            }
        },
        Scalar::MapOf(d) => {
            if is_map(c) {
                lemma_append_maps_bounded(c, d.pairs@, n, m);
            }
        },
        Scalar::Null(t) => {
            lemma_append_null_bounded(c, t@, n, m);
        },
        _ => {
            lemma_bounded_leaf(c, scalar_primitive(s), scalar_cell(s), n, m);
        },
    }
}

/// More scalars take no less.
pub proof fn lemma_weights_more(values: Seq<Scalar>, j: nat, k: nat)
    requires
        j <= k <= values.len(),
    ensures
        weights(values, j) <= weights(values, k),
    decreases k,
{
    if j < k {
        lemma_weights_more(values, j, (k - 1) as nat);
    }
}

proof fn lemma_append_fields_bounded(c: Column, values: Seq<Scalar>, k: nat, n: nat, m: nat)
    requires
        c is Struct,
        bounded(c, m),
        k <= c->Struct_columns.len(),
        k <= values.len(),
    ensures
        ({
            let r = append_fields(c, values, k, n).column;
            &&& r is Struct
            &&& r->Struct_validity == c->Struct_validity
            &&& r->Struct_columns.len() == c->Struct_columns.len()
            &&& bounded(r, m + n * weights(values, k))
            &&& forall|i: int|
                k <= i < c->Struct_columns.len() ==> #[trigger] r->Struct_columns[i]
                    == c->Struct_columns[i]
        }),
    decreases values, 0nat, k,
{
    lemma_times_more(n, 0, weights(values, k));
    lemma_bounded_more(c, m, m + n * weights(values, k));
    if k > 0 {
        let before = weights(values, (k - 1) as nat);
        let here = weight(values[k - 1]);
        let bound = m + n * (before + here);
        lemma_append_fields_bounded(c, values, (k - 1) as nat, n, m);
        let p = append_fields(c, values, (k - 1) as nat, n);
        lemma_times_more(n, before, before + here);
        lemma_times_more(n, here, before + here);
        lemma_bounded_more(p.column, m + n * before, bound);
        if p.error is None {
            let child = c->Struct_columns[k - 1];
            assert(p.column->Struct_columns[k - 1] == child);
            assert(bounded(child, m));
            lemma_append_bounded(child, values[k - 1], n, m);
            let a = append(child, values[k - 1], n).column;
            lemma_bounded_more(a, m + n * here, bound);
            lemma_bounded_child(p.column, k - 1, a, bound);
        }
    }
}

/// Appending scalars one by one takes no more than their weight.
pub proof fn lemma_append_each_bounded(c: Column, values: Seq<Scalar>, k: nat, m: nat)
    requires
        bounded(c, m),
        k <= values.len(),
    ensures
        bounded(append_each(c, values, k).column, m + weights(values, k)),
    decreases values, 0nat, k,
{
    if k > 0 {
        let before = weights(values, (k - 1) as nat);
        lemma_append_each_bounded(c, values, (k - 1) as nat, m);
        let p = append_each(c, values, (k - 1) as nat);
        lemma_bounded_more(p.column, m + before, m + weights(values, k));
        if p.error is None {
            lemma_append_bounded(p.column, values[k - 1], 1, m + before);
            assert(1 * weight(values[k - 1]) == weight(values[k - 1]));
        }
    }
}

proof fn lemma_append_lists_bounded(c: Column, elements: Seq<Scalar>, n: nat, m: nat)
    requires
        c is List,
        bounded(c, m),
    ensures
        ({
            let r = append_lists(c, elements, n).column;
            let w = weights(elements, elements.len());
            &&& r is List
            &&& r.len() <= c.len() + n
            &&& bounded(*r->List_values, m + n * w)
            &&& bounded(r, m + n * (1 + w))
        }),
    decreases elements, 1nat, n,
{
    let w = weights(elements, elements.len());
    lemma_times_more(n, w, w);
    if n > 0 {
        let k = (n - 1) as nat;
        lemma_append_lists_bounded(c, elements, k, m);
        let p = append_lists(c, elements, k);
        assert(n * w == k * w + w) by (nonlinear_arith)
            requires
                n == k + 1,
        ;
        lemma_times_more(k, w, w);
        lemma_bounded_more(*p.column->List_values, m + k * w, m + n * w);
        if p.error is None {
            lemma_append_each_bounded(
                *p.column->List_values,
                elements,
                elements.len(),
                m + k * w,
            );
        }
        let r = append_lists(c, elements, n).column;
        lemma_bounded_more(*r->List_values, m + n * w, m + n * (1 + w));
    } else {
        assert(0 * w == 0);
        assert(0 * (1 + w) == 0);
    }
}

proof fn lemma_append_pairs_bounded(
    c: Column,
    pairs: Seq<(Scalar, Scalar)>,
    k: nat,
    m: nat,
)
    requires
        is_map(c),
        bounded(map_keys(c), m),
        bounded(map_values(c), m),
        c->MapOf_entries.len() <= m,
        k <= pairs.len(),
    ensures
        ({
            let r = append_pairs(c, pairs, k).column;
            let bound = m + pair_weights(pairs, k);
            &&& is_map(r)
            &&& r->MapOf_validity == c->MapOf_validity
            &&& bounded(map_keys(r), bound)
            &&& bounded(map_values(r), bound)
            &&& r->MapOf_entries.len() <= bound
        }),
    decreases pairs, 0nat, k,
{
    if k > 0 {
        let before = pair_weights(pairs, (k - 1) as nat);
        let bound = m + pair_weights(pairs, k);
        lemma_append_pairs_bounded(c, pairs, (k - 1) as nat, m);
        let p = append_pairs(c, pairs, (k - 1) as nat);
        lemma_bounded_more(map_keys(p.column), m + before, bound);
        lemma_bounded_more(map_values(p.column), m + before, bound);
        if p.error is None {
            let (x, y) = pairs[k - 1];
            lemma_append_bounded(map_keys(p.column), x, 1, m + before);
            lemma_append_bounded(map_values(p.column), y, 1, m + before);
            assert(1 * weight(x) == weight(x));
            assert(1 * weight(y) == weight(y));
            let a = append(map_keys(p.column), x, 1).column;
            let b = append(map_values(p.column), y, 1).column;
            lemma_bounded_more(a, m + before + weight(x), bound);
            lemma_bounded_more(b, m + before + weight(y), bound);
        }
    }
}

proof fn lemma_bounded_entries(c: Column, m: nat)
    requires
        is_map(c),
    ensures
        bounded(*c->MapOf_entries, m) == (bounded(map_keys(c), m) && bounded(map_values(c), m)
            && c->MapOf_entries.len() <= m),
{
    let e = *c->MapOf_entries;
    if bounded(map_keys(c), m) && bounded(map_values(c), m) && e.len() <= m {
        assert forall|i: int| 0 <= i < 2 implies bounded(#[trigger] e->Struct_columns[i], m) by {
            assert(i == 0 || i == 1);
        }
    }
    if bounded(e, m) {
        assert(bounded(e->Struct_columns[0], m));
        assert(bounded(e->Struct_columns[1], m));
    }
}

proof fn lemma_append_maps_bounded(c: Column, pairs: Seq<(Scalar, Scalar)>, n: nat, m: nat)
    requires
        is_map(c),
        bounded(c, m),
    ensures
        ({
            let r = append_maps(c, pairs, n).column;
            let w = pair_weights(pairs, pairs.len());
            &&& is_map(r)
            &&& r.len() <= c.len() + n
            &&& bounded(*r->MapOf_entries, m + n * w)
            &&& bounded(r, m + n * (1 + w))
        }),
    decreases pairs, 1nat, n,
{
    let w = pair_weights(pairs, pairs.len());
    lemma_times_more(n, w, w);
    if n > 0 {
        let k = (n - 1) as nat;
        lemma_append_maps_bounded(c, pairs, k, m);
        let p = append_maps(c, pairs, k);
        assert(n * w == k * w + w) by (nonlinear_arith)
            requires
                n == k + 1,
        ;
        lemma_times_more(k, w, w);
        lemma_bounded_more(*p.column->MapOf_entries, m + k * w, m + n * w);
        if p.error is None {
            lemma_bounded_entries(p.column, m + k * w);
            lemma_append_pairs_bounded(p.column, pairs, pairs.len(), m + k * w);
            let e = append_pairs(p.column, pairs, pairs.len()).column;
            lemma_bounded_entries(e, m + n * w);
        }
        let r = append_maps(c, pairs, n).column;
        lemma_bounded_more(*r->MapOf_entries, m + n * w, m + n * (1 + w));
    } else {
        assert(0 * w == 0);
        assert(0 * (1 + w) == 0);
    }
}

/// Rows of a scalar can be allocated and indexed where they take no more than any column can hold.
pub proof fn law_small_scalars_fit(s: Scalar, n: nat)
    requires
        n * weight(s) <= small(),
        n <= small(),
    ensures
        scalar_fits(s, n),
{
    if arrow_type(scalar_type(s), None, ""@) is Ok {
        let t = arrow_type(scalar_type(s), None, ""@)->Ok_0;
        lemma_arrow_type_buildable(scalar_type(s), None, ""@);
        lemma_bounded_empty(t);
        lemma_append_bounded(empty_column(t), s, n, 0);
        lemma_bounded_limits(append(empty_column(t), s, n).column, 0 + n * weight(s));
    }
}

/// Scalars in one column can be allocated and indexed where they take no more than any column can
/// hold.
pub proof fn lemma_small_column_fits(t: ArrowType, values: Seq<Scalar>)
    requires
        buildable(t),
        weights(values, values.len()) <= small(),
    ensures
        within_limits(append_each(empty_column(t), values, values.len()).column),
{
    lemma_bounded_empty(t);
    lemma_append_each_bounded(empty_column(t), values, values.len(), 0);
    lemma_bounded_limits(
        append_each(empty_column(t), values, values.len()).column,
        0 + weights(values, values.len()),
    );
}

} // verus!

//! Appending scalars to array builders.
use crate::arrow_builders::{
    appended_if, is_decimal_leaf, is_leaf_of, is_map, is_timestamp_leaf, map_keys, map_values,
    with_cells, with_child, with_entries, with_list_rows, with_map_row, with_struct_rows,
    with_values, ColumnBuilder,
};
use crate::error::{Error, ErrorView};
use crate::growth::{
    grown, lemma_append_each_grows, lemma_append_fields_grows, lemma_append_grows,
    lemma_append_lists_grows, lemma_append_maps_grows, lemma_append_null_fields_grows,
    lemma_append_null_grows, lemma_append_pairs_grows, lemma_grown_limits, lemma_grown_refl,
    lemma_grown_trans, lemma_grow_child, lemma_grow_entries, lemma_grow_list, lemma_grow_map_rows,
    lemma_grow_struct_rows, lemma_sound_map, sound_builder,
};
use crate::model::{
    byte_count, cell_bytes, lemma_byte_count_times, max_slots, times, within_limits, ArrowType,
    Cell, Column, TimeUnit,
};
use crate::scalars::{scalar_cell, scalar_primitive, scalar_type, Scalar};
use crate::schema::{
    fields_view, lemma_fields_view, FieldView, KernelDataType, PrimitiveType, StructField, TypeView,
};
use vstd::prelude::*;

verus! {

/// What a builder holds after an attempt to append to it, and why the attempt failed if it did.
pub struct Appended {
    pub column: Column,
    pub error: Option<ErrorView>,
}

/// Whether a builder that holds `c` is one for values of type `p`. The time zone of a timestamp and
/// the precision and scale of a decimal are the builder's own.
pub open spec fn builder_accepts(p: PrimitiveType, c: Column) -> bool {
    match p {
        PrimitiveType::Integer => is_leaf_of(c, ArrowType::Int32),
        PrimitiveType::Long => is_leaf_of(c, ArrowType::Int64),
        PrimitiveType::Short => is_leaf_of(c, ArrowType::Int16),
        PrimitiveType::Byte => is_leaf_of(c, ArrowType::Int8),
        PrimitiveType::Float => is_leaf_of(c, ArrowType::Float32),
        PrimitiveType::Double => is_leaf_of(c, ArrowType::Float64),
        PrimitiveType::String => is_leaf_of(c, ArrowType::Utf8),
        PrimitiveType::Boolean => is_leaf_of(c, ArrowType::Boolean),
        PrimitiveType::Timestamp => is_timestamp_leaf(c, TimeUnit::Microsecond),
        PrimitiveType::TimestampNtz => is_timestamp_leaf(c, TimeUnit::Microsecond),
        PrimitiveType::TimestampNanos => is_timestamp_leaf(c, TimeUnit::Nanosecond),
        PrimitiveType::Date => is_leaf_of(c, ArrowType::Date32),
        PrimitiveType::Binary => is_leaf_of(c, ArrowType::Binary),
        PrimitiveType::Decimal(_) => is_decimal_leaf(c),
        PrimitiveType::Void => is_leaf_of(c, ArrowType::Null),
    }
}

/// Appending `n` times the cell `cell`, a value of type `p`.
pub open spec fn append_leaf(c: Column, p: PrimitiveType, cell: Cell, n: nat) -> Appended {
    if builder_accepts(p, c) {
        Appended { column: with_cells(c, cell, n), error: None }
    } else {
        Appended { column: c, error: Some(ErrorView::InvalidBuilder(TypeView::Primitive(p))) }
    }
}

/// The map column `c` with `n` more rows, all of which end where its entries end now.
pub open spec fn with_map_rows(c: Column, valid: bool, n: nat) -> Column {
    Column::MapOf {
        field: c->MapOf_field,
        offsets: c->MapOf_offsets + times(c->MapOf_entries.len() as int, n),
        entries: c->MapOf_entries,
        validity: c->MapOf_validity + times(valid, n),
        ordered: c->MapOf_ordered,
    }
}

/// Appending `n` null rows of type `t`.
///
/// Null rows of a struct have a row in every child, those of a list or map have none.
pub open spec fn append_null(c: Column, t: TypeView, n: nat) -> Appended
    decreases t, 0nat,
{
    match t {
        TypeView::Primitive(p) => append_leaf(c, p, Cell::Null, n),
        TypeView::Struct(fs) => if !(c is Struct) {
            Appended { column: c, error: Some(ErrorView::InvalidBuilder(t)) }
        } else if c->Struct_columns.len() != fs.len() {
            Appended { column: c, error: Some(ErrorView::WrongFieldCount) }
        } else {
            let r = append_null_fields(c, fs, fs.len(), n);
            if r.error is Some {
                r
            } else {
                Appended { column: with_struct_rows(r.column, false, n), error: None }
            }
        },
        TypeView::Array(_, _) => if c is List {
            Appended { column: with_list_rows(c, false, n), error: None }
        } else {
            Appended { column: c, error: Some(ErrorView::InvalidBuilder(t)) }
        },
        TypeView::MapOf(_, _, _) => if !is_map(c) {
            Appended { column: c, error: Some(ErrorView::InvalidBuilder(t)) }
        } else if n > 0 && map_keys(c).len() != map_values(c).len() {
            Appended { column: c, error: Some(ErrorView::Arrow) }
        } else {
            Appended { column: with_map_rows(c, false, n), error: None }
        },
        TypeView::Variant(_) => Appended {
            column: c,
            error: Some(ErrorView::UnsupportedVariant),
        },
    }
}

/// Appending `n` null rows to the first `k` children of a struct, one after the other, up to the
/// first that fails.
pub open spec fn append_null_fields(c: Column, fs: Seq<FieldView>, k: nat, n: nat) -> Appended
    decreases fs, k,
{
    if k == 0 || k > fs.len() {
        Appended { column: c, error: None }
    } else {
        let r = append_null_fields(c, fs, (k - 1) as nat, n);
        if r.error is Some {
            r
        } else {
            let a = append_null(r.column->Struct_columns[k - 1], fs[k - 1].data_type, n);
            Appended { column: with_child(r.column, k - 1, a.column), error: a.error }
        }
    }
}

/// Appending `n` rows that hold `s`.
pub open spec fn append(c: Column, s: Scalar, n: nat) -> Appended
    decreases s, 0nat, 0nat,
{
    match s {
        Scalar::Struct(d) => if !(c is Struct) {
            Appended { column: c, error: Some(ErrorView::InvalidBuilder(scalar_type(s))) }
        } else if c->Struct_columns.len() != d.fields@.len() {
            Appended { column: c, error: Some(ErrorView::WrongFieldCount) }
        } else {
            let k = if d.values@.len() < d.fields@.len() {
                d.values@.len()
            } else {
                d.fields@.len()
            };
            let r = append_fields(c, d.values@, k, n);
            if r.error is Some {
                r
            } else {
                Appended { column: with_struct_rows(r.column, true, n), error: None }
            }
        },
        Scalar::Array(d) => if !(c is List) {
            Appended { column: c, error: Some(ErrorView::InvalidBuilder(scalar_type(s))) }
        } else {
            append_lists(c, d.elements@, n)
        },
        Scalar::MapOf(d) => if !is_map(c) {
            Appended { column: c, error: Some(ErrorView::InvalidBuilder(scalar_type(s))) }
        } else {
            append_maps(c, d.pairs@, n)
        },
        Scalar::Null(t) => append_null(c, t@, n),
        _ => append_leaf(c, scalar_primitive(s), scalar_cell(s), n),
    }
}

/// Appending `n` rows of the first `k` values to the first `k` children of a struct, one after the
/// other, up to the first that fails.
pub open spec fn append_fields(c: Column, values: Seq<Scalar>, k: nat, n: nat) -> Appended
    decreases values, 0nat, k,
{
    if k == 0 || k > values.len() {
        Appended { column: c, error: None }
    } else {
        let r = append_fields(c, values, (k - 1) as nat, n);
        if r.error is Some {
            r
        } else {
            let a = append(r.column->Struct_columns[k - 1], values[k - 1], n);
            Appended { column: with_child(r.column, k - 1, a.column), error: a.error }
        }
    }
}

/// Appending the first `k` values, one row each, up to the first that fails.
pub open spec fn append_each(c: Column, values: Seq<Scalar>, k: nat) -> Appended
    decreases values, 0nat, k,
{
    if k == 0 || k > values.len() {
        Appended { column: c, error: None }
    } else {
        let r = append_each(c, values, (k - 1) as nat);
        if r.error is Some {
            r
        } else {
            append(r.column, values[k - 1], 1)
        }
    }
}

/// Appending `n` lists of the same elements, one after the other, up to the first that fails.
pub open spec fn append_lists(c: Column, elements: Seq<Scalar>, n: nat) -> Appended
    decreases elements, 1nat, n,
{
    if n == 0 {
        Appended { column: c, error: None }
    } else {
        let r = append_lists(c, elements, (n - 1) as nat);
        if r.error is Some {
            r
        } else {
            let v = append_each(*r.column->List_values, elements, elements.len());
            if v.error is Some {
                Appended { column: with_values(r.column, v.column), error: v.error }
            } else {
                Appended {
                    column: with_list_rows(with_values(r.column, v.column), true, 1),
                    error: None,
                }
            }
        }
    }
}

/// Appending the first `k` entries to the keys and values of a map, one after the other, up to the
/// first key or value that fails.
pub open spec fn append_pairs(c: Column, pairs: Seq<(Scalar, Scalar)>, k: nat) -> Appended
    decreases pairs, 0nat, k,
{
    if k == 0 || k > pairs.len() {
        Appended { column: c, error: None }
    } else {
        let r = append_pairs(c, pairs, (k - 1) as nat);
        if r.error is Some {
            r
        } else {
            let a = append(map_keys(r.column), pairs[k - 1].0, 1);
            if a.error is Some {
                Appended {
                    column: with_entries(r.column, a.column, map_values(r.column)),
                    error: a.error,
                }
            } else {
                let b = append(map_values(r.column), pairs[k - 1].1, 1);
                Appended { column: with_entries(r.column, a.column, b.column), error: b.error }
            }
        }
    }
}

/// Appending `n` maps of the same entries, one after the other, up to the first that fails.
pub open spec fn append_maps(c: Column, pairs: Seq<(Scalar, Scalar)>, n: nat) -> Appended
    decreases pairs, 1nat, n,
{
    if n == 0 {
        Appended { column: c, error: None }
    } else {
        let r = append_maps(c, pairs, (n - 1) as nat);
        if r.error is Some {
            r
        } else {
            let e = append_pairs(r.column, pairs, pairs.len());
            if e.error is Some {
                e
            } else if map_keys(e.column).len() != map_values(e.column).len() {
                Appended { column: e.column, error: Some(ErrorView::Arrow) }
            } else {
                Appended { column: with_map_row(e.column, true), error: None }
            }
        }
    }
}

/// Whether a result and what a builder holds after a call are those of `a`.
pub open spec fn is_outcome(r: Result<(), Error>, after: Column, a: Appended) -> bool {
    &&& after == a.column
    &&& match r {
        Ok(_) => a.error is None,
        Err(e) => a.error == Some(e@),
    }
}

proof fn lemma_byte_count_prefix(cells: Seq<Cell>, cell: Cell, i: nat, n: nat)
    requires
        i < n,
    ensures
        byte_count(cells + times(cell, i)) + cell_bytes(cell) <= byte_count(
            cells + times(cell, n),
        ),
{
    lemma_byte_count_times(cells, cell, i);
    lemma_byte_count_times(cells, cell, n);
    assert((i + 1) * cell_bytes(cell) <= n * cell_bytes(cell)) by (nonlinear_arith)
        requires
            i < n,
            cell_bytes(cell) >= 0,
    ;
    assert((i + 1) * cell_bytes(cell) == i * cell_bytes(cell) + cell_bytes(cell))
        by (nonlinear_arith);
}

/// Appends a text `n` times.
fn append_text(builder: &mut ColumnBuilder, text: &str, n: usize) -> (ok: bool)
    requires
        is_leaf_of(old(builder)@, ArrowType::Utf8) ==> within_limits(
            with_cells(old(builder)@, Cell::Text(text@), n as nat),
        ),
    ensures
        ok == is_leaf_of(old(builder)@, ArrowType::Utf8),
        appended_if(ok, old(builder)@, final(builder)@, Cell::Text(text@), n as nat),
{
    if !builder.holds_str() {
        return false;
    }
    let ghost before = builder@;
    let ghost cell = Cell::Text(text@);
    let mut i: usize = 0;
    assert(before->Leaf_cells + times(cell, 0) =~= before->Leaf_cells);
    while i < n
        invariant
            i <= n,
            cell == Cell::Text(text@),
            is_leaf_of(before, ArrowType::Utf8),
            within_limits(with_cells(before, cell, n as nat)),
            builder@ == with_cells(before, cell, i as nat),
        decreases n - i,
    {
        proof {
            lemma_byte_count_prefix(before->Leaf_cells, cell, i as nat, n as nat);
        }
        builder.append_str(text);
        assert(before->Leaf_cells + times(cell, i as nat) + times(cell, 1)
            =~= before->Leaf_cells + times(cell, (i + 1) as nat));
        i += 1;
    }
    true
}

/// Appends a byte string `n` times.
fn append_binary(builder: &mut ColumnBuilder, bytes: &Vec<u8>, n: usize) -> (ok: bool)
    requires
        is_leaf_of(old(builder)@, ArrowType::Binary) ==> within_limits(
            with_cells(old(builder)@, Cell::Bytes(bytes@), n as nat),
        ),
    ensures
        ok == is_leaf_of(old(builder)@, ArrowType::Binary),
        appended_if(ok, old(builder)@, final(builder)@, Cell::Bytes(bytes@), n as nat),
{
    if !builder.holds_bytes() {
        return false;
    }
    let ghost before = builder@;
    let ghost cell = Cell::Bytes(bytes@);
    let mut i: usize = 0;
    assert(before->Leaf_cells + times(cell, 0) =~= before->Leaf_cells);
    while i < n
        invariant
            i <= n,
            cell == Cell::Bytes(bytes@),
            is_leaf_of(before, ArrowType::Binary),
            within_limits(with_cells(before, cell, n as nat)),
            builder@ == with_cells(before, cell, i as nat),
        decreases n - i,
    {
        proof {
            lemma_byte_count_prefix(before->Leaf_cells, cell, i as nat, n as nat);
        }
        builder.append_bytes(bytes);
        assert(before->Leaf_cells + times(cell, i as nat) + times(cell, 1)
            =~= before->Leaf_cells + times(cell, (i + 1) as nat));
        i += 1;
    }
    true
}

/// Appends `n` valid rows to a struct whose children have theirs already.
fn append_struct_rows(builder: &mut ColumnBuilder, n: usize)
    requires
        old(builder)@ is Struct,
        old(builder)@.len() + n <= max_slots(),
    ensures
        final(builder)@ == with_struct_rows(old(builder)@, true, n as nat),
{
    let ghost before = builder@;
    let mut i: usize = 0;
    assert(before->Struct_validity + times(true, 0) =~= before->Struct_validity);
    while i < n
        invariant
            i <= n,
            before is Struct,
            before.len() + n <= max_slots(),
            builder@ == with_struct_rows(before, true, i as nat),
        decreases n - i,
    {
        builder.append_struct(true);
        assert(before->Struct_validity + times(true, i as nat) + times(true, 1)
            =~= before->Struct_validity + times(true, (i + 1) as nat));
        i += 1;
    }
}

/// Appends `n` null rows to a map.
fn append_map_nulls(builder: &mut ColumnBuilder, n: usize) -> (r: Result<(), Error>)
    requires
        is_map(old(builder)@),
        sound_builder(old(builder)@),
        within_limits(
            if n > 0 && map_keys(old(builder)@).len() != map_values(old(builder)@).len() {
                old(builder)@
            } else {
                with_map_rows(old(builder)@, false, n as nat)
            },
        ),
    ensures
        is_outcome(
            r,
            final(builder)@,
            if n > 0 && map_keys(old(builder)@).len() != map_values(old(builder)@).len() {
                Appended { column: old(builder)@, error: Some(ErrorView::Arrow) }
            } else {
                Appended { column: with_map_rows(old(builder)@, false, n as nat), error: None }
            },
        ),
{
    let ghost before = builder@;
    let ghost end = before->MapOf_entries.len() as int;
    let mut i: usize = 0;
    assert(before->MapOf_validity + times(false, 0) =~= before->MapOf_validity);
    assert(before->MapOf_offsets + times(end, 0) =~= before->MapOf_offsets);
    while i < n
        invariant
            i <= n,
            before == old(builder)@,
            is_map(before),
            sound_builder(before),
            end == before->MapOf_entries.len(),
            before->MapOf_entries.len() <= i32::MAX,
            i > 0 ==> map_keys(before).len() == map_values(before).len(),
            n > 0 && map_keys(before).len() == map_values(before).len() ==> within_limits(
                with_map_rows(before, false, n as nat),
            ),
            builder@ == with_map_rows(before, false, i as nat),
        decreases n - i,
    {
        match builder.append_map(false) {
            Ok(()) => {},
            Err(e) => {
                assert(before->MapOf_validity + times(false, 0) =~= before->MapOf_validity);
                assert(before->MapOf_offsets + times(end, 0) =~= before->MapOf_offsets);
                return Err(Error::Arrow(e));
            },
        }
        assert((before->MapOf_validity + times(false, i as nat)).push(false)
            =~= before->MapOf_validity + times(false, (i + 1) as nat));
        assert((before->MapOf_offsets + times(end, i as nat)).push(end)
            =~= before->MapOf_offsets + times(end, (i + 1) as nat));
        i += 1;
    }
    Ok(())
}

impl Scalar {
    /// Appends `num_rows` null rows of type `data_type` to `builder`.
    fn append_null(builder: &mut ColumnBuilder, data_type: &KernelDataType, num_rows: usize) -> (r:
        Result<(), Error>)
        requires
            sound_builder(old(builder)@),
            within_limits(append_null(old(builder)@, data_type@, num_rows as nat).column),
        ensures
            is_outcome(
                r,
                final(builder)@,
                append_null(old(builder)@, data_type@, num_rows as nat),
            ),
        decreases data_type, 0nat,
    {
        let ghost before = builder@;
        match data_type {
            KernelDataType::Primitive(p) => {
                let ok = match *p {
                    PrimitiveType::Integer => builder.append_i32_nulls(num_rows),
                    PrimitiveType::Long => builder.append_i64_nulls(num_rows),
                    PrimitiveType::Short => builder.append_i16_nulls(num_rows),
                    PrimitiveType::Byte => builder.append_i8_nulls(num_rows),
                    PrimitiveType::Float => builder.append_f32_nulls(num_rows),
                    PrimitiveType::Double => builder.append_f64_nulls(num_rows),
                    PrimitiveType::String => builder.append_str_nulls(num_rows),
                    PrimitiveType::Boolean => builder.append_bool_nulls(num_rows),
                    PrimitiveType::Timestamp => builder.append_micros_nulls(num_rows),
                    PrimitiveType::TimestampNtz => builder.append_micros_nulls(num_rows),
                    PrimitiveType::TimestampNanos => builder.append_nanos_nulls(num_rows),
                    PrimitiveType::Date => builder.append_date_nulls(num_rows),
                    PrimitiveType::Binary => builder.append_bytes_nulls(num_rows),
                    PrimitiveType::Decimal(_) => builder.append_decimal_nulls(num_rows),
                    PrimitiveType::Void => builder.append_void_nulls(num_rows),
                };
                if ok {
                    Ok(())
                } else {
                    Err(Error::InvalidBuilder(data_type.clone()))
                }
            },
            KernelDataType::Struct(stype) => {
                let num_fields: usize = match builder.num_fields() {
                    Some(n) => n,
                    None => {
                        return Err(Error::InvalidBuilder(data_type.clone()));
                    },
                };
                proof {
                    lemma_fields_view(stype.fields@);
                }
                if num_fields != stype.fields.len() {
                    return Err(Error::WrongFieldCount);
                }
                proof {
                    let fs = fields_view(stype.fields@);
                    let n = num_rows as nat;
                    lemma_append_null_fields_grows(before, fs, fs.len(), n);
                    let r = append_null_fields(before, fs, fs.len(), n);
                    lemma_grow_struct_rows(r.column, false, n);
                    if r.error is None {
                        lemma_grown_limits(r.column, with_struct_rows(r.column, false, n));
                    }
                }
                Scalar::append_null_to_fields(builder, &stype.fields, num_rows)?;
                builder.append_struct_nulls(num_rows);
                Ok(())
            },
            KernelDataType::Array(_) => {
                if builder.append_list_nulls(num_rows) {
                    Ok(())
                } else {
                    Err(Error::InvalidBuilder(data_type.clone()))
                }
            },
            KernelDataType::MapOf(_) => {
                if !builder.holds_maps() {
                    return Err(Error::InvalidBuilder(data_type.clone()));
                }
                append_map_nulls(builder, num_rows)
            },
            KernelDataType::Variant(_) => Err(Error::UnsupportedVariant),
        }
    }

    /// Appends `num_rows` null rows to each child of a struct builder.
    fn append_null_to_fields(
        builder: &mut ColumnBuilder,
        fields: &Vec<StructField>,
        num_rows: usize,
    ) -> (r: Result<(), Error>)
        requires
            sound_builder(old(builder)@),
            old(builder)@ is Struct,
            old(builder)@->Struct_columns.len() == fields@.len(),
            within_limits(
                append_null_fields(
                    old(builder)@,
                    fields_view(fields@),
                    fields@.len(),
                    num_rows as nat,
                ).column,
            ),
        ensures
            is_outcome(
                r,
                final(builder)@,
                append_null_fields(
                    old(builder)@,
                    fields_view(fields@),
                    fields@.len(),
                    num_rows as nat,
                ),
            ),
        decreases fields, 1nat,
    {
        let ghost before = builder@;
        let ghost fs = fields_view(fields@);
        let ghost n = num_rows as nat;
        let mut i: usize = 0;
        while i < fields.len()
            invariant
                i <= fields.len(),
                n == num_rows,
                before == old(builder)@,
                fs == fields_view(fields@),
                fs.len() == fields@.len(),
                sound_builder(before),
                before is Struct,
                before->Struct_columns.len() == fs.len(),
                within_limits(append_null_fields(before, fs, fs.len(), n).column),
                append_null_fields(before, fs, i as nat, n).error is None,
                builder@ == append_null_fields(before, fs, i as nat, n).column,
            decreases fields.len() - i,
        {
            proof {
                lemma_fields_view(fields@);
                lemma_append_null_fields_grows(before, fs, i as nat, n);
                lemma_append_null_fields_grows(before, fs, (i + 1) as nat, n);
                lemma_null_fields_step(before, fs, (i + 1) as nat, n);
            }
            let ghost mid = builder@;
            assert(within_limits(
                append_null_fields(before, fs, (i + 1) as nat, n).column->Struct_columns[i as int],
            ));
            let mut child = ColumnBuilder::placeholder();
            builder.swap_field(i, &mut child);
            assert(decreases_to!(*fields => fields@[i as int]));
            let r = Scalar::append_null(&mut child, &fields[i].data_type, num_rows);
            builder.swap_field(i, &mut child);
            assert(mid->Struct_columns.update(
                i as int,
                builder@->Struct_columns[i as int],
            ) =~= builder@->Struct_columns);
            match r {
                Ok(()) => {},
                Err(e) => {
                    proof {
                        lemma_null_fields_stop(before, fs, (i + 1) as nat, fs.len(), n);
                    }
                    return Err(e);
                },
            }
            i += 1;
        }
        Ok(())
    }
}

/// What the children of a struct hold after the first `k` appends is within limits where the end of
/// it is.
proof fn lemma_null_fields_step(c: Column, fs: Seq<FieldView>, k: nat, n: nat)
    requires
        sound_builder(c),
        c is Struct,
        c->Struct_columns.len() == fs.len(),
        k <= fs.len(),
        within_limits(append_null_fields(c, fs, fs.len(), n).column),
    ensures
        within_limits(append_null_fields(c, fs, k, n).column),
    decreases fs.len() - k,
{
    if k < fs.len() {
        lemma_null_fields_step(c, fs, k + 1, n);
        lemma_append_null_fields_grows(c, fs, k, n);
        let r = append_null_fields(c, fs, k, n);
        if r.error is None {
            let child = r.column->Struct_columns[k as int];
            lemma_append_null_grows(child, fs[k as int].data_type, n);
            let a = append_null(child, fs[k as int].data_type, n);
            lemma_grow_child(r.column, k as int, a.column);
            lemma_grown_limits(r.column, with_child(r.column, k as int, a.column));
        }
    }
}

/// An append that failed stays failed.
proof fn lemma_null_fields_stop(c: Column, fs: Seq<FieldView>, j: nat, k: nat, n: nat)
    requires
        j <= k <= fs.len(),
        append_null_fields(c, fs, j, n).error is Some,
    ensures
        append_null_fields(c, fs, k, n) == append_null_fields(c, fs, j, n),
    decreases k,
{
    if j < k {
        lemma_null_fields_stop(c, fs, j, (k - 1) as nat, n);
    }
}

proof fn lemma_fields_step(c: Column, values: Seq<Scalar>, k: nat, m: nat, n: nat)
    requires
        sound_builder(c),
        c is Struct,
        k <= m <= values.len(),
        m <= c->Struct_columns.len(),
        within_limits(append_fields(c, values, m, n).column),
    ensures
        within_limits(append_fields(c, values, k, n).column),
    decreases m - k,
{
    if k < m {
        lemma_fields_step(c, values, k + 1, m, n);
        lemma_append_fields_grows(c, values, k, n);
        let r = append_fields(c, values, k, n);
        if r.error is None {
            let child = r.column->Struct_columns[k as int];
            lemma_append_grows(child, values[k as int], n);
            let a = append(child, values[k as int], n);
            lemma_grow_child(r.column, k as int, a.column);
            lemma_grown_limits(r.column, with_child(r.column, k as int, a.column));
        }
    }
}

proof fn lemma_fields_stop(c: Column, values: Seq<Scalar>, j: nat, k: nat, n: nat)
    requires
        j <= k <= values.len(),
        append_fields(c, values, j, n).error is Some,
    ensures
        append_fields(c, values, k, n) == append_fields(c, values, j, n),
    decreases k,
{
    if j < k {
        lemma_fields_stop(c, values, j, (k - 1) as nat, n);
    }
}

/// What a builder holds after the first `k` values is within limits where the end of it is.
pub proof fn lemma_each_step(c: Column, values: Seq<Scalar>, k: nat)
    requires
        sound_builder(c),
        k <= values.len(),
        within_limits(append_each(c, values, values.len()).column),
    ensures
        within_limits(append_each(c, values, k).column),
    decreases values.len() - k,
{
    if k < values.len() {
        lemma_each_step(c, values, k + 1);
        lemma_append_each_grows(c, values, k);
        let r = append_each(c, values, k);
        if r.error is None {
            lemma_append_grows(r.column, values[k as int], 1);
            lemma_grown_limits(r.column, append(r.column, values[k as int], 1).column);
        }
    }
}

proof fn lemma_each_stop(c: Column, values: Seq<Scalar>, j: nat, k: nat)
    requires
        j <= k <= values.len(),
        append_each(c, values, j).error is Some,
    ensures
        append_each(c, values, k) == append_each(c, values, j),
    decreases k,
{
    if j < k {
        lemma_each_stop(c, values, j, (k - 1) as nat);
    }
}

proof fn lemma_lists_step(c: Column, elements: Seq<Scalar>, k: nat, n: nat)
    requires
        sound_builder(c),
        c is List,
        k <= n,
        within_limits(append_lists(c, elements, n).column),
    ensures
        within_limits(append_lists(c, elements, k).column),
    decreases n - k,
{
    if k < n {
        lemma_lists_step(c, elements, k + 1, n);
        lemma_append_lists_grows(c, elements, k);
        let r = append_lists(c, elements, k);
        if r.error is None {
            lemma_append_each_grows(*r.column->List_values, elements, elements.len());
            let v = append_each(*r.column->List_values, elements, elements.len());
            lemma_grow_list(r.column, v.column, true, 1);
            lemma_grown_limits(r.column, append_lists(c, elements, k + 1).column);
        }
    }
}

proof fn lemma_lists_stop(c: Column, elements: Seq<Scalar>, j: nat, k: nat)
    requires
        j <= k,
        append_lists(c, elements, j).error is Some,
    ensures
        append_lists(c, elements, k) == append_lists(c, elements, j),
    decreases k,
{
    if j < k {
        lemma_lists_stop(c, elements, j, (k - 1) as nat);
    }
}

proof fn lemma_pairs_step(c: Column, pairs: Seq<(Scalar, Scalar)>, k: nat)
    requires
        sound_builder(c),
        is_map(c),
        k <= pairs.len(),
        within_limits(append_pairs(c, pairs, pairs.len()).column),
    ensures
        within_limits(append_pairs(c, pairs, k).column),
    decreases pairs.len() - k,
{
    if k < pairs.len() {
        lemma_pairs_step(c, pairs, k + 1);
        lemma_append_pairs_grows(c, pairs, k);
        let r = append_pairs(c, pairs, k);
        if r.error is None {
            lemma_append_pairs_step_grows(r.column, pairs[k as int]);
            lemma_grown_limits(r.column, append_pairs(c, pairs, k + 1).column);
        }
    }
}

/// Appending one entry only extends a map.
proof fn lemma_append_pairs_step_grows(c: Column, pair: (Scalar, Scalar))
    requires
        sound_builder(c),
        is_map(c),
    ensures
        ({
            let a = append(map_keys(c), pair.0, 1);
            let b = append(map_values(c), pair.1, 1);
            &&& grown(c, with_entries(c, a.column, map_values(c)))
            &&& grown(c, with_entries(c, a.column, b.column))
            &&& grown(
                with_entries(c, a.column, map_values(c)),
                with_entries(c, a.column, b.column),
            )
            &&& sound_builder(with_entries(c, a.column, map_values(c)))
            &&& sound_builder(a.column)
            &&& sound_builder(b.column)
        }),
{
    lemma_sound_map(c);
    lemma_append_grows(map_keys(c), pair.0, 1);
    lemma_append_grows(map_values(c), pair.1, 1);
    lemma_grown_refl(map_values(c));
    let a = append(map_keys(c), pair.0, 1);
    let b = append(map_values(c), pair.1, 1);
    lemma_grow_entries(c, a.column, map_values(c));
    lemma_grow_entries(c, a.column, b.column);
    lemma_grown_refl(a.column);
    lemma_grow_entries(with_entries(c, a.column, map_values(c)), a.column, b.column);
}

proof fn lemma_pairs_stop(c: Column, pairs: Seq<(Scalar, Scalar)>, j: nat, k: nat)
    requires
        j <= k <= pairs.len(),
        append_pairs(c, pairs, j).error is Some,
    ensures
        append_pairs(c, pairs, k) == append_pairs(c, pairs, j),
    decreases k,
{
    if j < k {
        lemma_pairs_stop(c, pairs, j, (k - 1) as nat);
    }
}

proof fn lemma_maps_step(c: Column, pairs: Seq<(Scalar, Scalar)>, k: nat, n: nat)
    requires
        sound_builder(c),
        is_map(c),
        k <= n,
        within_limits(append_maps(c, pairs, n).column),
    ensures
        within_limits(append_maps(c, pairs, k).column),
    decreases n - k,
{
    if k < n {
        lemma_maps_step(c, pairs, k + 1, n);
        lemma_append_maps_grows(c, pairs, k);
        let r = append_maps(c, pairs, k);
        if r.error is None {
            lemma_append_pairs_grows(r.column, pairs, pairs.len());
            let e = append_pairs(r.column, pairs, pairs.len());
            lemma_grow_map_rows(e.column, true, 1);
            lemma_grown_trans(r.column, e.column, with_map_row(e.column, true));
            lemma_grown_limits(r.column, append_maps(c, pairs, k + 1).column);
        }
    }
}

proof fn lemma_maps_stop(c: Column, pairs: Seq<(Scalar, Scalar)>, j: nat, k: nat)
    requires
        j <= k,
        append_maps(c, pairs, j).error is Some,
    ensures
        append_maps(c, pairs, k) == append_maps(c, pairs, j),
    decreases k,
{
    if j < k {
        lemma_maps_stop(c, pairs, j, (k - 1) as nat);
    }
}

impl Scalar {
    /// Appends `num_rows` rows that hold this scalar to `builder`.
    pub(crate) fn append_to(&self, builder: &mut ColumnBuilder, num_rows: usize) -> (r: Result<
        (),
        Error,
    >)
        requires
            sound_builder(old(builder)@),
            within_limits(append(old(builder)@, *self, num_rows as nat).column),
        ensures
            is_outcome(r, final(builder)@, append(old(builder)@, *self, num_rows as nat)),
        decreases self, 0nat,
    {
        let ghost before = builder@;
        let ghost n = num_rows as nat;
        let ok = match self {
            Scalar::Integer(val) => builder.append_i32(*val, num_rows),
            Scalar::Long(val) => builder.append_i64(*val, num_rows),
            Scalar::Short(val) => builder.append_i16(*val, num_rows),
            Scalar::Byte(val) => builder.append_i8(*val, num_rows),
            Scalar::Float(val) => builder.append_f32(*val, num_rows),
            Scalar::Double(val) => builder.append_f64(*val, num_rows),
            Scalar::String(val) => append_text(builder, val.as_str(), num_rows),
            Scalar::Boolean(val) => builder.append_bool(*val, num_rows),
            Scalar::Timestamp(val) => builder.append_micros(*val, num_rows),
            Scalar::TimestampNtz(val) => builder.append_micros(*val, num_rows),
            Scalar::TimestampNanos(val) => builder.append_nanos(*val, num_rows),
            Scalar::Date(val) => builder.append_date(*val, num_rows),
            Scalar::Binary(val) => append_binary(builder, val, num_rows),
            Scalar::Decimal(val) => builder.append_decimal(val.bits, num_rows),
            Scalar::Struct(data) => match builder.num_fields() {
                Some(num_fields) => {
                    if num_fields != data.fields.len() {
                        return Err(Error::WrongFieldCount);
                    }
                    let count: usize = if data.values.len() < data.fields.len() {
                        data.values.len()
                    } else {
                        data.fields.len()
                    };
                    proof {
                        lemma_append_fields_grows(before, data.values@, count as nat, n);
                        let r = append_fields(before, data.values@, count as nat, n);
                        lemma_grow_struct_rows(r.column, true, n);
                        if r.error is None {
                            lemma_grown_limits(r.column, with_struct_rows(r.column, true, n));
                        }
                    }
                    Scalar::append_to_fields(builder, &data.values, count, num_rows)?;
                    append_struct_rows(builder, num_rows);
                    true
                },
                None => false,
            },
            Scalar::Array(data) => if builder.holds_lists() {
                return Scalar::append_list_rows(builder, &data.elements, num_rows);
            } else {
                false
            },
            Scalar::MapOf(data) => if builder.holds_maps() {
                return Scalar::append_map_rows(builder, &data.pairs, num_rows);
            } else {
                false
            },
            Scalar::Null(data_type) => {
                return Scalar::append_null(builder, data_type, num_rows);
            },
        };
        if ok {
            Ok(())
        } else {
            Err(Error::InvalidBuilder(self.data_type()))
        }
    }

    /// Appends `num_rows` rows of each of the first `count` values to the child of its position.
    fn append_to_fields(
        builder: &mut ColumnBuilder,
        values: &Vec<Scalar>,
        count: usize,
        num_rows: usize,
    ) -> (r: Result<(), Error>)
        requires
            sound_builder(old(builder)@),
            old(builder)@ is Struct,
            count <= old(builder)@->Struct_columns.len(),
            count <= values@.len(),
            within_limits(
                append_fields(old(builder)@, values@, count as nat, num_rows as nat).column,
            ),
        ensures
            is_outcome(
                r,
                final(builder)@,
                append_fields(old(builder)@, values@, count as nat, num_rows as nat),
            ),
        decreases values, 1nat,
    {
        let ghost before = builder@;
        let ghost vs = values@;
        let ghost n = num_rows as nat;
        let ghost m = count as nat;
        let mut i: usize = 0;
        while i < count
            invariant
                i <= count,
                n == num_rows,
                m == count,
                vs == values@,
                before == old(builder)@,
                sound_builder(before),
                before is Struct,
                m <= before->Struct_columns.len(),
                m <= vs.len(),
                within_limits(append_fields(before, vs, m, n).column),
                append_fields(before, vs, i as nat, n).error is None,
                builder@ == append_fields(before, vs, i as nat, n).column,
            decreases count - i,
        {
            proof {
                lemma_append_fields_grows(before, vs, i as nat, n);
                lemma_append_fields_grows(before, vs, (i + 1) as nat, n);
                lemma_fields_step(before, vs, (i + 1) as nat, m, n);
            }
            let ghost mid = builder@;
            assert(within_limits(
                append_fields(before, vs, (i + 1) as nat, n).column->Struct_columns[i as int],
            ));
            let mut child = ColumnBuilder::placeholder();
            builder.swap_field(i, &mut child);
            assert(decreases_to!(*values => values@[i as int]));
            let r = values[i].append_to(&mut child, num_rows);
            builder.swap_field(i, &mut child);
            assert(mid->Struct_columns.update(
                i as int,
                builder@->Struct_columns[i as int],
            ) =~= builder@->Struct_columns);
            match r {
                Ok(()) => {},
                Err(e) => {
                    proof {
                        lemma_fields_stop(before, vs, (i + 1) as nat, m, n);
                    }
                    return Err(e);
                },
            }
            i += 1;
        }
        Ok(())
    }

    /// Appends the values one after the other, one row each.
    pub(crate) fn append_all(builder: &mut ColumnBuilder, values: &Vec<Scalar>) -> (r: Result<
        (),
        Error,
    >)
        requires
            sound_builder(old(builder)@),
            within_limits(append_each(old(builder)@, values@, values@.len()).column),
        ensures
            is_outcome(r, final(builder)@, append_each(old(builder)@, values@, values@.len())),
        decreases values, 1nat,
    {
        let ghost before = builder@;
        let ghost vs = values@;
        let mut i: usize = 0;
        while i < values.len()
            invariant
                i <= values.len(),
                vs == values@,
                before == old(builder)@,
                sound_builder(before),
                within_limits(append_each(before, vs, vs.len()).column),
                append_each(before, vs, i as nat).error is None,
                builder@ == append_each(before, vs, i as nat).column,
            decreases values.len() - i,
        {
            proof {
                lemma_append_each_grows(before, vs, i as nat);
                lemma_each_step(before, vs, (i + 1) as nat);
            }
            assert(decreases_to!(*values => values@[i as int]));
            match values[i].append_to(builder, 1) {
                Ok(()) => {},
                Err(e) => {
                    proof {
                        lemma_each_stop(before, vs, (i + 1) as nat, vs.len());
                    }
                    return Err(e);
                },
            }
            i += 1;
        }
        Ok(())
    }

    /// Appends `num_rows` lists of the same elements.
    fn append_list_rows(builder: &mut ColumnBuilder, elements: &Vec<Scalar>, num_rows: usize) -> (r:
        Result<(), Error>)
        requires
            sound_builder(old(builder)@),
            old(builder)@ is List,
            within_limits(append_lists(old(builder)@, elements@, num_rows as nat).column),
        ensures
            is_outcome(
                r,
                final(builder)@,
                append_lists(old(builder)@, elements@, num_rows as nat),
            ),
        decreases elements, 2nat,
    {
        let ghost before = builder@;
        let ghost es = elements@;
        let ghost n = num_rows as nat;
        let mut i: usize = 0;
        while i < num_rows
            invariant
                i <= num_rows,
                n == num_rows,
                es == elements@,
                before == old(builder)@,
                sound_builder(before),
                before is List,
                within_limits(append_lists(before, es, n).column),
                append_lists(before, es, i as nat).error is None,
                builder@ == append_lists(before, es, i as nat).column,
            decreases num_rows - i,
        {
            let ghost mid = builder@;
            proof {
                lemma_append_lists_grows(before, es, i as nat);
                lemma_lists_step(before, es, (i + 1) as nat, n);
                lemma_append_each_grows(*mid->List_values, es, es.len());
            }
            let mut child = ColumnBuilder::placeholder();
            builder.swap_list_values(&mut child);
            let r = Scalar::append_all(&mut child, elements);
            builder.swap_list_values(&mut child);
            match r {
                Ok(()) => {},
                Err(e) => {
                    proof {
                        lemma_lists_stop(before, es, (i + 1) as nat, n);
                    }
                    return Err(e);
                },
            }
            builder.append_list(true);
            i += 1;
        }
        Ok(())
    }

    /// Appends `num_rows` maps of the same entries.
    fn append_map_rows(
        builder: &mut ColumnBuilder,
        pairs: &Vec<(Scalar, Scalar)>,
        num_rows: usize,
    ) -> (r: Result<(), Error>)
        requires
            sound_builder(old(builder)@),
            is_map(old(builder)@),
            within_limits(append_maps(old(builder)@, pairs@, num_rows as nat).column),
        ensures
            is_outcome(r, final(builder)@, append_maps(old(builder)@, pairs@, num_rows as nat)),
        decreases pairs, 2nat,
    {
        let ghost before = builder@;
        let ghost ps = pairs@;
        let ghost n = num_rows as nat;
        let mut i: usize = 0;
        while i < num_rows
            invariant
                i <= num_rows,
                n == num_rows,
                ps == pairs@,
                before == old(builder)@,
                sound_builder(before),
                is_map(before),
                within_limits(append_maps(before, ps, n).column),
                append_maps(before, ps, i as nat).error is None,
                builder@ == append_maps(before, ps, i as nat).column,
            decreases num_rows - i,
        {
            let ghost mid = builder@;
            proof {
                lemma_append_maps_grows(before, ps, i as nat);
                lemma_maps_step(before, ps, (i + 1) as nat, n);
                lemma_append_pairs_grows(mid, ps, ps.len());
                let e = append_pairs(mid, ps, ps.len());
                lemma_grow_map_rows(e.column, true, 1);
                lemma_sound_map(e.column);
                if e.error is None && map_keys(e.column).len() == map_values(e.column).len() {
                    lemma_grown_limits(e.column, with_map_row(e.column, true));
                }
            }
            match Scalar::append_entries(builder, pairs) {
                Ok(()) => {},
                Err(e) => {
                    proof {
                        lemma_maps_stop(before, ps, (i + 1) as nat, n);
                    }
                    return Err(e);
                },
            }
            match builder.append_map(true) {
                Ok(()) => {},
                Err(e) => {
                    proof {
                        lemma_maps_stop(before, ps, (i + 1) as nat, n);
                    }
                    return Err(Error::Arrow(e));
                },
            }
            i += 1;
        }
        Ok(())
    }

    /// Appends the entries one after the other to the keys and values of a map.
    fn append_entries(builder: &mut ColumnBuilder, pairs: &Vec<(Scalar, Scalar)>) -> (r: Result<
        (),
        Error,
    >)
        requires
            sound_builder(old(builder)@),
            is_map(old(builder)@),
            within_limits(append_pairs(old(builder)@, pairs@, pairs@.len()).column),
        ensures
            is_outcome(r, final(builder)@, append_pairs(old(builder)@, pairs@, pairs@.len())),
        decreases pairs, 1nat,
    {
        let ghost before = builder@;
        let ghost ps = pairs@;
        let mut i: usize = 0;
        while i < pairs.len()
            invariant
                i <= pairs.len(),
                ps == pairs@,
                before == old(builder)@,
                sound_builder(before),
                is_map(before),
                within_limits(append_pairs(before, ps, ps.len()).column),
                append_pairs(before, ps, i as nat).error is None,
                builder@ == append_pairs(before, ps, i as nat).column,
            decreases pairs.len() - i,
        {
            let ghost mid = builder@;
            proof {
                lemma_append_pairs_grows(before, ps, i as nat);
                lemma_pairs_step(before, ps, (i + 1) as nat);
                lemma_append_pairs_step_grows(mid, ps[i as int]);
                lemma_sound_map(mid);
            }
            let ghost a = append(map_keys(mid), ps[i as int].0, 1);
            let ghost b = append(map_values(mid), ps[i as int].1, 1);
            let ghost keyed = with_entries(mid, a.column, map_values(mid));
            proof {
                if a.error is None {
                    lemma_grown_limits(keyed, with_entries(mid, a.column, b.column));
                }
                assert(within_limits(*keyed->MapOf_entries));
                assert(within_limits(keyed->MapOf_entries->Struct_columns[0]));
            }
            assert(decreases_to!(*pairs => pairs@[i as int]));
            assert(decreases_to!(pairs@[i as int] => pairs@[i as int].0));
            assert(decreases_to!(pairs@[i as int] => pairs@[i as int].1));
            let mut child = ColumnBuilder::placeholder();
            builder.swap_map_keys(&mut child);
            let r = pairs[i].0.append_to(&mut child, 1);
            builder.swap_map_keys(&mut child);
            assert(builder@ == keyed);
            match r {
                Ok(()) => {},
                Err(e) => {
                    proof {
                        lemma_pairs_stop(before, ps, (i + 1) as nat, ps.len());
                    }
                    return Err(e);
                },
            }
            proof {
                let whole = with_entries(mid, a.column, b.column);
                assert(within_limits(*whole->MapOf_entries));
                assert(within_limits(whole->MapOf_entries->Struct_columns[1]));
            }
            let mut child = ColumnBuilder::placeholder();
            builder.swap_map_values(&mut child);
            let r = pairs[i].1.append_to(&mut child, 1);
            builder.swap_map_values(&mut child);
            assert(builder@ == with_entries(mid, a.column, b.column));
            match r {
                Ok(()) => {},
                Err(e) => {
                    proof {
                        lemma_pairs_stop(before, ps, (i + 1) as nat, ps.len());
                    }
                    return Err(e);
                },
            }
            i += 1;
        }
        Ok(())
    }
}

} // verus!

//! Arrow's array builders, as the library sees them.
//!
//! A [`ColumnBuilder`] holds one builder tree, and its view is what the tree holds. Everything in
//! this file that carries `external_body` is trusted: its contract says what the Arrow function
//! that it calls does to the tree. A builder tree is typed at run time; the functions that append
//! report by their result whether the builder is one for such values, and leave it as it is where
//! it is not.
use crate::arrow_arrays::{array_contents, ArrowArray};
use crate::arrow_types::type_of;
use crate::model::{
    buildable, byte_count, cell_bytes, empty_column, finishable, max_bytes, max_slots, times,
    ArrowType, Cell, Column, TimeUnit,
};
use arrow::array::{
    make_builder, ArrayBuilder, BinaryBuilder, BooleanBuilder, Date32Builder, Decimal128Builder,
    Float32Builder, Float64Builder, Int16Builder, Int32Builder, Int64Builder, Int8Builder,
    ListBuilder, MapBuilder, NullBuilder, StringBuilder, StructBuilder, TimestampMicrosecondBuilder,
    TimestampNanosecondBuilder,
};
use arrow::buffer::{Buffer, ScalarBuffer};
use arrow::datatypes::{ArrowPrimitiveType, DataType, Float32Type, Float64Type};
use arrow::error::ArrowError;
use vstd::prelude::*;

verus! {

/// An Arrow array builder of any type: a `Box<dyn ArrayBuilder>`.
#[verifier::external_body]
pub struct ColumnBuilder {
    inner: Box<dyn ArrayBuilder>,
}

/// What a builder holds.
pub uninterp spec fn builder_contents(b: ColumnBuilder) -> Column;

impl View for ColumnBuilder {
    type V = Column;

    open spec fn view(&self) -> Column {
        builder_contents(*self)
    }
}

/// Whether the column is a leaf of this type.
pub open spec fn is_leaf_of(c: Column, t: ArrowType) -> bool {
    c is Leaf && c.data_type() == t
}

/// Whether the column is a leaf of timestamps in this unit.
pub open spec fn is_timestamp_leaf(c: Column, unit: TimeUnit) -> bool {
    c is Leaf && match c.data_type() {
        ArrowType::Timestamp(u, _) => u == unit,
        _ => false,
    }
}

/// Whether the column is a leaf of 128-bit decimals.
pub open spec fn is_decimal_leaf(c: Column) -> bool {
    c is Leaf && c.data_type() is Decimal128
}

/// The leaf column `c` with `n` more cells.
pub open spec fn with_cells(c: Column, cell: Cell, n: nat) -> Column {
    Column::Leaf { data_type: c.data_type(), cells: c->Leaf_cells + times(cell, n) }
}

/// What appending `n` times `cell` makes of `before`, where the builder is one for such cells.
pub open spec fn appended_if(ok: bool, before: Column, after: Column, cell: Cell, n: nat) -> bool {
    after == if ok {
        with_cells(before, cell, n)
    } else {
        before
    }
}

/// The struct column `c` with another child at `i`.
pub open spec fn with_child(c: Column, i: int, child: Column) -> Column {
    Column::Struct {
        fields: c->Struct_fields,
        columns: c->Struct_columns.update(i, child),
        validity: c->Struct_validity,
    }
}

/// The list column `c` with other values.
pub open spec fn with_values(c: Column, values: Column) -> Column {
    Column::List {
        field: c->List_field,
        offsets: c->List_offsets,
        values: Box::new(values),
        validity: c->List_validity,
    }
}

/// The map column `c` with other keys and values. There are as many entries as keys.
pub open spec fn with_entries(c: Column, keys: Column, values: Column) -> Column {
    Column::MapOf {
        field: c->MapOf_field,
        offsets: c->MapOf_offsets,
        entries: Box::new(
            Column::Struct {
                fields: c->MapOf_entries->Struct_fields,
                columns: seq![keys, values],
                validity: times(true, keys.len()),
            },
        ),
        validity: c->MapOf_validity,
        ordered: c->MapOf_ordered,
    }
}

/// Whether the column is a map whose entries have a key and a value column.
pub open spec fn is_map(c: Column) -> bool {
    &&& c is MapOf
    &&& *c->MapOf_entries is Struct
    &&& c->MapOf_entries->Struct_columns.len() == 2
}

/// The keys of a map column.
pub open spec fn map_keys(c: Column) -> Column {
    c->MapOf_entries->Struct_columns[0]
}

/// The values of a map column.
pub open spec fn map_values(c: Column) -> Column {
    c->MapOf_entries->Struct_columns[1]
}

/// The struct column `c` with `n` more rows, null or not. Its children stay as they are.
pub open spec fn with_struct_rows(c: Column, valid: bool, n: nat) -> Column {
    Column::Struct {
        fields: c->Struct_fields,
        columns: c->Struct_columns,
        validity: c->Struct_validity + times(valid, n),
    }
}

/// The list column `c` with `n` more rows: the first ends where its values end now, the others are
/// empty.
pub open spec fn with_list_rows(c: Column, valid: bool, n: nat) -> Column {
    Column::List {
        field: c->List_field,
        offsets: c->List_offsets + times(c->List_values.len() as int, n),
        values: c->List_values,
        validity: c->List_validity + times(valid, n),
    }
}

/// The map column `c` with one more row, which ends where its entries end now.
pub open spec fn with_map_row(c: Column, valid: bool) -> Column {
    Column::MapOf {
        field: c->MapOf_field,
        offsets: c->MapOf_offsets.push(c->MapOf_entries.len() as int),
        entries: c->MapOf_entries,
        validity: c->MapOf_validity.push(valid),
        ordered: c->MapOf_ordered,
    }
}

impl ColumnBuilder {
    /// `make_builder`.
    ///
    /// Trusted: the builder is an empty one for the type. `make_builder` panics where there is none.
    #[verifier::external_body]
    pub(crate) fn new(data_type: &DataType, capacity: usize) -> (r: ColumnBuilder)
        requires
            buildable(type_of(*data_type)),
            capacity <= max_slots(),
        ensures
            builder_contents(r) == empty_column(type_of(*data_type)),
    {
        ColumnBuilder { inner: make_builder(data_type, capacity) }
    }

    /// `NullBuilder::new`: a builder that stands in for a child while the child is out of its
    /// parent.
    ///
    /// Trusted: the builder is an empty one of the null type.
    #[verifier::external_body]
    pub(crate) fn placeholder() -> (r: ColumnBuilder)
        ensures
            builder_contents(r) == empty_column(ArrowType::Null),
    {
        ColumnBuilder { inner: Box::new(NullBuilder::new()) }
    }

    /// `ArrayBuilder::finish`.
    ///
    /// Trusted: the array holds what the builder held. `finish` panics where no array can be made
    /// of that.
    #[verifier::external_body]
    pub(crate) fn finish(self) -> (r: ArrowArray)
        requires
            finishable(builder_contents(self)),
        ensures
            array_contents(r) == builder_contents(self),
    {
        let mut builder = self.inner;
        ArrowArray { inner: builder.finish() }
    }

    /// `Int8Builder::append_value_n`.
    ///
    /// Trusted: a builder of 8-bit integers gets `n` times `v`.
    #[verifier::external_body]
    pub(crate) fn append_i8(&mut self, v: i8, n: usize) -> (ok: bool)
        requires
            is_leaf_of(old(self)@, ArrowType::Int8) ==> old(self)@.len() + n <= max_slots(),
        ensures
            ok == is_leaf_of(builder_contents(*old(self)), ArrowType::Int8),
            appended_if(
                ok,
                builder_contents(*old(self)),
                builder_contents(*final(self)),
                Cell::Int(v as int),
                n as nat,
            ),
    {
        match self.inner.as_any_mut().downcast_mut::<Int8Builder>() {
            Some(b) => { b.append_value_n(v, n); true },
            None => false,
        }
    }

    /// `Int16Builder::append_value_n`.
    ///
    /// Trusted: a builder of 16-bit integers gets `n` times `v`.
    #[verifier::external_body]
    pub(crate) fn append_i16(&mut self, v: i16, n: usize) -> (ok: bool)
        requires
            is_leaf_of(old(self)@, ArrowType::Int16) ==> old(self)@.len() + n <= max_slots(),
        ensures
            ok == is_leaf_of(builder_contents(*old(self)), ArrowType::Int16),
            appended_if(
                ok,
                builder_contents(*old(self)),
                builder_contents(*final(self)),
                Cell::Int(v as int),
                n as nat,
            ),
    {
        match self.inner.as_any_mut().downcast_mut::<Int16Builder>() {
            Some(b) => { b.append_value_n(v, n); true },
            None => false,
        }
    }

    /// `Int32Builder::append_value_n`.
    ///
    /// Trusted: a builder of 32-bit integers gets `n` times `v`.
    #[verifier::external_body]
    pub(crate) fn append_i32(&mut self, v: i32, n: usize) -> (ok: bool)
        requires
            is_leaf_of(old(self)@, ArrowType::Int32) ==> old(self)@.len() + n <= max_slots(),
        ensures
            ok == is_leaf_of(builder_contents(*old(self)), ArrowType::Int32),
            appended_if(
                ok,
                builder_contents(*old(self)),
                builder_contents(*final(self)),
                Cell::Int(v as int),
                n as nat,
            ),
    {
        match self.inner.as_any_mut().downcast_mut::<Int32Builder>() {
            Some(b) => { b.append_value_n(v, n); true },
            None => false,
        }
    }

    /// `Int64Builder::append_value_n`.
    ///
    /// Trusted: a builder of 64-bit integers gets `n` times `v`.
    #[verifier::external_body]
    pub(crate) fn append_i64(&mut self, v: i64, n: usize) -> (ok: bool)
        requires
            is_leaf_of(old(self)@, ArrowType::Int64) ==> old(self)@.len() + n <= max_slots(),
        ensures
            ok == is_leaf_of(builder_contents(*old(self)), ArrowType::Int64),
            appended_if(
                ok,
                builder_contents(*old(self)),
                builder_contents(*final(self)),
                Cell::Int(v as int),
                n as nat,
            ),
    {
        match self.inner.as_any_mut().downcast_mut::<Int64Builder>() {
            Some(b) => { b.append_value_n(v, n); true },
            None => false,
        }
    }

    /// `Date32Builder::append_value_n`.
    ///
    /// Trusted: a builder of dates gets `n` times `days`.
    #[verifier::external_body]
    pub(crate) fn append_date(&mut self, days: i32, n: usize) -> (ok: bool)
        requires
            is_leaf_of(old(self)@, ArrowType::Date32) ==> old(self)@.len() + n <= max_slots(),
        ensures
            ok == is_leaf_of(builder_contents(*old(self)), ArrowType::Date32),
            appended_if(
                ok,
                builder_contents(*old(self)),
                builder_contents(*final(self)),
                Cell::Int(days as int),
                n as nat,
            ),
    {
        match self.inner.as_any_mut().downcast_mut::<Date32Builder>() {
            Some(b) => { b.append_value_n(days, n); true },
            None => false,
        }
    }

    /// `Float32Builder::append_value_n`.
    ///
    /// Trusted: a builder of 32-bit floating-point numbers gets `n` times the number with that bit
    /// pattern.
    #[verifier::external_body]
    pub(crate) fn append_f32(&mut self, bits: u32, n: usize) -> (ok: bool)
        requires
            is_leaf_of(old(self)@, ArrowType::Float32) ==> old(self)@.len() + n <= max_slots(),
        ensures
            ok == is_leaf_of(builder_contents(*old(self)), ArrowType::Float32),
            appended_if(
                ok,
                builder_contents(*old(self)),
                builder_contents(*final(self)),
                Cell::Bits(bits as nat),
                n as nat,
            ),
    {
        let v: ScalarBuffer<<Float32Type as ArrowPrimitiveType>::Native> = Buffer::from_vec(vec![bits]).into();
        match self.inner.as_any_mut().downcast_mut::<Float32Builder>() {
            Some(b) => { b.append_value_n(v[0], n); true },
            None => false,
        }
    }

    /// `Float64Builder::append_value_n`.
    ///
    /// Trusted: a builder of 64-bit floating-point numbers gets `n` times the number with that bit
    /// pattern.
    #[verifier::external_body]
    pub(crate) fn append_f64(&mut self, bits: u64, n: usize) -> (ok: bool)
        requires
            is_leaf_of(old(self)@, ArrowType::Float64) ==> old(self)@.len() + n <= max_slots(),
        ensures
            ok == is_leaf_of(builder_contents(*old(self)), ArrowType::Float64),
            appended_if(
                ok,
                builder_contents(*old(self)),
                builder_contents(*final(self)),
                Cell::Bits(bits as nat),
                n as nat,
            ),
    {
        let v: ScalarBuffer<<Float64Type as ArrowPrimitiveType>::Native> = Buffer::from_vec(vec![bits]).into();
        match self.inner.as_any_mut().downcast_mut::<Float64Builder>() {
            Some(b) => { b.append_value_n(v[0], n); true },
            None => false,
        }
    }

    /// `BooleanBuilder::append_n`.
    ///
    /// Trusted: a builder of booleans gets `n` times `v`.
    #[verifier::external_body]
    pub(crate) fn append_bool(&mut self, v: bool, n: usize) -> (ok: bool)
        requires
            is_leaf_of(old(self)@, ArrowType::Boolean) ==> old(self)@.len() + n <= max_slots(),
        ensures
            ok == is_leaf_of(builder_contents(*old(self)), ArrowType::Boolean),
            appended_if(
                ok,
                builder_contents(*old(self)),
                builder_contents(*final(self)),
                Cell::Boolean(v),
                n as nat,
            ),
    {
        match self.inner.as_any_mut().downcast_mut::<BooleanBuilder>() {
            Some(b) => { b.append_n(n, v); true },
            None => false,
        }
    }

    /// `TimestampMicrosecondBuilder::append_value_n`.
    ///
    /// Trusted: a builder of timestamps in microseconds, of any time zone, gets `n` times `v`.
    #[verifier::external_body]
    pub(crate) fn append_micros(&mut self, v: i64, n: usize) -> (ok: bool)
        requires
            is_timestamp_leaf(old(self)@, TimeUnit::Microsecond) ==> old(self)@.len() + n <= max_slots(),
        ensures
            ok == is_timestamp_leaf(builder_contents(*old(self)), TimeUnit::Microsecond),
            appended_if(
                ok,
                builder_contents(*old(self)),
                builder_contents(*final(self)),
                Cell::Int(v as int),
                n as nat,
            ),
    {
        match self.inner.as_any_mut().downcast_mut::<TimestampMicrosecondBuilder>() {
            Some(b) => { b.append_value_n(v, n); true },
            None => false,
        }
    }

    /// `TimestampNanosecondBuilder::append_value_n`.
    ///
    /// Trusted: a builder of timestamps in nanoseconds, of any time zone, gets `n` times `v`.
    #[verifier::external_body]
    pub(crate) fn append_nanos(&mut self, v: i64, n: usize) -> (ok: bool)
        requires
            is_timestamp_leaf(old(self)@, TimeUnit::Nanosecond) ==> old(self)@.len() + n <= max_slots(),
        ensures
            ok == is_timestamp_leaf(builder_contents(*old(self)), TimeUnit::Nanosecond),
            appended_if(
                ok,
                builder_contents(*old(self)),
                builder_contents(*final(self)),
                Cell::Int(v as int),
                n as nat,
            ),
    {
        match self.inner.as_any_mut().downcast_mut::<TimestampNanosecondBuilder>() {
            Some(b) => { b.append_value_n(v, n); true },
            None => false,
        }
    }

    /// `Decimal128Builder::append_value_n`.
    ///
    /// Trusted: a builder of 128-bit decimals, of any precision and scale, gets `n` times the
    /// unscaled value `v`.
    #[verifier::external_body]
    pub(crate) fn append_decimal(&mut self, v: i128, n: usize) -> (ok: bool)
        requires
            is_decimal_leaf(old(self)@) ==> old(self)@.len() + n <= max_slots(),
        ensures
            ok == is_decimal_leaf(builder_contents(*old(self))),
            appended_if(
                ok,
                builder_contents(*old(self)),
                builder_contents(*final(self)),
                Cell::Int(v as int),
                n as nat,
            ),
    {
        match self.inner.as_any_mut().downcast_mut::<Decimal128Builder>() {
            Some(b) => { b.append_value_n(v, n); true },
            None => false,
        }
    }

    /// `Int8Builder::append_nulls`.
    ///
    /// Trusted: a builder of 8-bit integers gets `n` nulls.
    #[verifier::external_body]
    pub(crate) fn append_i8_nulls(&mut self, n: usize) -> (ok: bool)
        requires
            is_leaf_of(old(self)@, ArrowType::Int8) ==> old(self)@.len() + n <= max_slots(),
        ensures
            ok == is_leaf_of(builder_contents(*old(self)), ArrowType::Int8),
            appended_if(
                ok,
                builder_contents(*old(self)),
                builder_contents(*final(self)),
                Cell::Null,
                n as nat,
            ),
    {
        match self.inner.as_any_mut().downcast_mut::<Int8Builder>() {
            Some(b) => { b.append_nulls(n); true },
            None => false,
        }
    }

    /// `Int16Builder::append_nulls`.
    ///
    /// Trusted: a builder of 16-bit integers gets `n` nulls.
    #[verifier::external_body]
    pub(crate) fn append_i16_nulls(&mut self, n: usize) -> (ok: bool)
        requires
            is_leaf_of(old(self)@, ArrowType::Int16) ==> old(self)@.len() + n <= max_slots(),
        ensures
            ok == is_leaf_of(builder_contents(*old(self)), ArrowType::Int16),
            appended_if(
                ok,
                builder_contents(*old(self)),
                builder_contents(*final(self)),
                Cell::Null,
                n as nat,
            ),
    {
        match self.inner.as_any_mut().downcast_mut::<Int16Builder>() {
            Some(b) => { b.append_nulls(n); true },
            None => false,
        }
    }

    /// `Int32Builder::append_nulls`.
    ///
    /// Trusted: a builder of 32-bit integers gets `n` nulls.
    #[verifier::external_body]
    pub(crate) fn append_i32_nulls(&mut self, n: usize) -> (ok: bool)
        requires
            is_leaf_of(old(self)@, ArrowType::Int32) ==> old(self)@.len() + n <= max_slots(),
        ensures
            ok == is_leaf_of(builder_contents(*old(self)), ArrowType::Int32),
            appended_if(
                ok,
                builder_contents(*old(self)),
                builder_contents(*final(self)),
                Cell::Null,
                n as nat,
            ),
    {
        match self.inner.as_any_mut().downcast_mut::<Int32Builder>() {
            Some(b) => { b.append_nulls(n); true },
            None => false,
        }
    }

    /// `Int64Builder::append_nulls`.
    ///
    /// Trusted: a builder of 64-bit integers gets `n` nulls.
    #[verifier::external_body]
    pub(crate) fn append_i64_nulls(&mut self, n: usize) -> (ok: bool)
        requires
            is_leaf_of(old(self)@, ArrowType::Int64) ==> old(self)@.len() + n <= max_slots(),
        ensures
            ok == is_leaf_of(builder_contents(*old(self)), ArrowType::Int64),
            appended_if(
                ok,
                builder_contents(*old(self)),
                builder_contents(*final(self)),
                Cell::Null,
                n as nat,
            ),
    {
        match self.inner.as_any_mut().downcast_mut::<Int64Builder>() {
            Some(b) => { b.append_nulls(n); true },
            None => false,
        }
    }

    /// `Float32Builder::append_nulls`.
    ///
    /// Trusted: a builder of 32-bit floating-point numbers gets `n` nulls.
    #[verifier::external_body]
    pub(crate) fn append_f32_nulls(&mut self, n: usize) -> (ok: bool)
        requires
            is_leaf_of(old(self)@, ArrowType::Float32) ==> old(self)@.len() + n <= max_slots(),
        ensures
            ok == is_leaf_of(builder_contents(*old(self)), ArrowType::Float32),
            appended_if(
                ok,
                builder_contents(*old(self)),
                builder_contents(*final(self)),
                Cell::Null,
                n as nat,
            ),
    {
        match self.inner.as_any_mut().downcast_mut::<Float32Builder>() {
            Some(b) => { b.append_nulls(n); true },
            None => false,
        }
    }

    /// `Float64Builder::append_nulls`.
    ///
    /// Trusted: a builder of 64-bit floating-point numbers gets `n` nulls.
    #[verifier::external_body]
    pub(crate) fn append_f64_nulls(&mut self, n: usize) -> (ok: bool)
        requires
            is_leaf_of(old(self)@, ArrowType::Float64) ==> old(self)@.len() + n <= max_slots(),
        ensures
            ok == is_leaf_of(builder_contents(*old(self)), ArrowType::Float64),
            appended_if(
                ok,
                builder_contents(*old(self)),
                builder_contents(*final(self)),
                Cell::Null,
                n as nat,
            ),
    {
        match self.inner.as_any_mut().downcast_mut::<Float64Builder>() {
            Some(b) => { b.append_nulls(n); true },
            None => false,
        }
    }

    /// `BooleanBuilder::append_nulls`.
    ///
    /// Trusted: a builder of booleans gets `n` nulls.
    #[verifier::external_body]
    pub(crate) fn append_bool_nulls(&mut self, n: usize) -> (ok: bool)
        requires
            is_leaf_of(old(self)@, ArrowType::Boolean) ==> old(self)@.len() + n <= max_slots(),
        ensures
            ok == is_leaf_of(builder_contents(*old(self)), ArrowType::Boolean),
            appended_if(
                ok,
                builder_contents(*old(self)),
                builder_contents(*final(self)),
                Cell::Null,
                n as nat,
            ),
    {
        match self.inner.as_any_mut().downcast_mut::<BooleanBuilder>() {
            Some(b) => { b.append_nulls(n); true },
            None => false,
        }
    }

    /// `StringBuilder::append_nulls`.
    ///
    /// Trusted: a builder of strings gets `n` nulls.
    #[verifier::external_body]
    pub(crate) fn append_str_nulls(&mut self, n: usize) -> (ok: bool)
        requires
            is_leaf_of(old(self)@, ArrowType::Utf8) ==> old(self)@.len() + n <= max_slots(),
        ensures
            ok == is_leaf_of(builder_contents(*old(self)), ArrowType::Utf8),
            appended_if(
                ok,
                builder_contents(*old(self)),
                builder_contents(*final(self)),
                Cell::Null,
                n as nat,
            ),
    {
        match self.inner.as_any_mut().downcast_mut::<StringBuilder>() {
            Some(b) => { b.append_nulls(n); true },
            None => false,
        }
    }

    /// `BinaryBuilder::append_nulls`.
    ///
    /// Trusted: a builder of byte strings gets `n` nulls.
    #[verifier::external_body]
    pub(crate) fn append_bytes_nulls(&mut self, n: usize) -> (ok: bool)
        requires
            is_leaf_of(old(self)@, ArrowType::Binary) ==> old(self)@.len() + n <= max_slots(),
        ensures
            ok == is_leaf_of(builder_contents(*old(self)), ArrowType::Binary),
            appended_if(
                ok,
                builder_contents(*old(self)),
                builder_contents(*final(self)),
                Cell::Null,
                n as nat,
            ),
    {
        match self.inner.as_any_mut().downcast_mut::<BinaryBuilder>() {
            Some(b) => { b.append_nulls(n); true },
            None => false,
        }
    }

    /// `Date32Builder::append_nulls`.
    ///
    /// Trusted: a builder of dates gets `n` nulls.
    #[verifier::external_body]
    pub(crate) fn append_date_nulls(&mut self, n: usize) -> (ok: bool)
        requires
            is_leaf_of(old(self)@, ArrowType::Date32) ==> old(self)@.len() + n <= max_slots(),
        ensures
            ok == is_leaf_of(builder_contents(*old(self)), ArrowType::Date32),
            appended_if(
                ok,
                builder_contents(*old(self)),
                builder_contents(*final(self)),
                Cell::Null,
                n as nat,
            ),
    {
        match self.inner.as_any_mut().downcast_mut::<Date32Builder>() {
            Some(b) => { b.append_nulls(n); true },
            None => false,
        }
    }

    /// `TimestampMicrosecondBuilder::append_nulls`.
    ///
    /// Trusted: a builder of timestamps in microseconds gets `n` nulls.
    #[verifier::external_body]
    pub(crate) fn append_micros_nulls(&mut self, n: usize) -> (ok: bool)
        requires
            is_timestamp_leaf(old(self)@, TimeUnit::Microsecond) ==> old(self)@.len() + n <= max_slots(),
        ensures
            ok == is_timestamp_leaf(builder_contents(*old(self)), TimeUnit::Microsecond),
            appended_if(
                ok,
                builder_contents(*old(self)),
                builder_contents(*final(self)),
                Cell::Null,
                n as nat,
            ),
    {
        match self.inner.as_any_mut().downcast_mut::<TimestampMicrosecondBuilder>() {
            Some(b) => { b.append_nulls(n); true },
            None => false,
        }
    }

    /// `TimestampNanosecondBuilder::append_nulls`.
    ///
    /// Trusted: a builder of timestamps in nanoseconds gets `n` nulls.
    #[verifier::external_body]
    pub(crate) fn append_nanos_nulls(&mut self, n: usize) -> (ok: bool)
        requires
            is_timestamp_leaf(old(self)@, TimeUnit::Nanosecond) ==> old(self)@.len() + n <= max_slots(),
        ensures
            ok == is_timestamp_leaf(builder_contents(*old(self)), TimeUnit::Nanosecond),
            appended_if(
                ok,
                builder_contents(*old(self)),
                builder_contents(*final(self)),
                Cell::Null,
                n as nat,
            ),
    {
        match self.inner.as_any_mut().downcast_mut::<TimestampNanosecondBuilder>() {
            Some(b) => { b.append_nulls(n); true },
            None => false,
        }
    }

    /// `Decimal128Builder::append_nulls`.
    ///
    /// Trusted: a builder of 128-bit decimals gets `n` nulls.
    #[verifier::external_body]
    pub(crate) fn append_decimal_nulls(&mut self, n: usize) -> (ok: bool)
        requires
            is_decimal_leaf(old(self)@) ==> old(self)@.len() + n <= max_slots(),
        ensures
            ok == is_decimal_leaf(builder_contents(*old(self))),
            appended_if(
                ok,
                builder_contents(*old(self)),
                builder_contents(*final(self)),
                Cell::Null,
                n as nat,
            ),
    {
        match self.inner.as_any_mut().downcast_mut::<Decimal128Builder>() {
            Some(b) => { b.append_nulls(n); true },
            None => false,
        }
    }

    /// `NullBuilder::append_nulls`.
    ///
    /// Trusted: a builder of the null type gets `n` nulls.
    #[verifier::external_body]
    pub(crate) fn append_void_nulls(&mut self, n: usize) -> (ok: bool)
        requires
            is_leaf_of(old(self)@, ArrowType::Null) ==> old(self)@.len() + n <= max_slots(),
        ensures
            ok == is_leaf_of(builder_contents(*old(self)), ArrowType::Null),
            appended_if(
                ok,
                builder_contents(*old(self)),
                builder_contents(*final(self)),
                Cell::Null,
                n as nat,
            ),
    {
        match self.inner.as_any_mut().downcast_mut::<NullBuilder>() {
            Some(b) => { b.append_nulls(n); true },
            None => false,
        }
    }

    /// Whether the builder is a `StringBuilder`.
    ///
    /// Trusted: that is a builder of strings with 32-bit offsets.
    #[verifier::external_body]
    pub(crate) fn holds_str(&self) -> (r: bool)
        ensures
            r == is_leaf_of(builder_contents(*self), ArrowType::Utf8),
    {
        self.inner.as_any().is::<StringBuilder>()
    }

    /// `StringBuilder::append_value`.
    ///
    /// Trusted: a builder of strings gets `v`.
    #[verifier::external_body]
    pub(crate) fn append_str(&mut self, v: &str) -> (ok: bool)
        requires
            is_leaf_of(old(self)@, ArrowType::Utf8) ==> {
                &&& old(self)@.len() < max_slots()
                &&& byte_count(old(self)@->Leaf_cells) + cell_bytes(Cell::Text(v@)) <= max_bytes()
            },
        ensures
            ok == is_leaf_of(builder_contents(*old(self)), ArrowType::Utf8),
            appended_if(
                ok,
                builder_contents(*old(self)),
                builder_contents(*final(self)),
                Cell::Text(v@),
                1,
            ),
    {
        match self.inner.as_any_mut().downcast_mut::<StringBuilder>() {
            Some(b) => { b.append_value(v); true },
            None => false,
        }
    }

    /// Whether the builder is a `BinaryBuilder`.
    ///
    /// Trusted: that is a builder of byte strings with 32-bit offsets.
    #[verifier::external_body]
    pub(crate) fn holds_bytes(&self) -> (r: bool)
        ensures
            r == is_leaf_of(builder_contents(*self), ArrowType::Binary),
    {
        self.inner.as_any().is::<BinaryBuilder>()
    }

    /// `BinaryBuilder::append_value`.
    ///
    /// Trusted: a builder of byte strings gets `v`.
    #[verifier::external_body]
    pub(crate) fn append_bytes(&mut self, v: &Vec<u8>) -> (ok: bool)
        requires
            is_leaf_of(old(self)@, ArrowType::Binary) ==> {
                &&& old(self)@.len() < max_slots()
                &&& byte_count(old(self)@->Leaf_cells) + cell_bytes(Cell::Bytes(v@)) <= max_bytes()
            },
        ensures
            ok == is_leaf_of(builder_contents(*old(self)), ArrowType::Binary),
            appended_if(
                ok,
                builder_contents(*old(self)),
                builder_contents(*final(self)),
                Cell::Bytes(v@),
                1,
            ),
    {
        match self.inner.as_any_mut().downcast_mut::<BinaryBuilder>() {
            Some(b) => { b.append_value(v); true },
            None => false,
        }
    }

    /// `StructBuilder::num_fields`.
    ///
    /// Trusted: a struct builder, and only such, has a number of child builders.
    #[verifier::external_body]
    pub(crate) fn num_fields(&self) -> (r: Option<usize>)
        ensures
            r is Some <==> builder_contents(*self) is Struct,
            r matches Some(n) ==> n == builder_contents(*self)->Struct_columns.len(),
    {
        Some(self.inner.as_any().downcast_ref::<StructBuilder>()?.num_fields())
    }

    /// `StructBuilder::field_builders_mut`, to trade the child at `i` for another builder.
    ///
    /// Trusted: the child and the other builder change places, and nothing else changes.
    #[verifier::external_body]
    pub(crate) fn swap_field(&mut self, i: usize, child: &mut ColumnBuilder)
        requires
            old(self)@ is Struct,
            i < old(self)@->Struct_columns.len(),
        ensures
            builder_contents(*final(child)) == builder_contents(
                *old(self),
            )->Struct_columns[i as int],
            builder_contents(*final(self)) == with_child(
                builder_contents(*old(self)),
                i as int,
                builder_contents(*old(child)),
            ),
    {
        let b = self.inner.as_any_mut().downcast_mut::<StructBuilder>().unwrap();
        std::mem::swap(&mut b.field_builders_mut()[i], &mut child.inner);
    }

    /// `StructBuilder::append`.
    ///
    /// Trusted: the struct gets one more row, and its children none.
    #[verifier::external_body]
    pub(crate) fn append_struct(&mut self, valid: bool)
        requires
            old(self)@ is Struct,
            old(self)@.len() < max_slots(),
        ensures
            builder_contents(*final(self)) == with_struct_rows(
                builder_contents(*old(self)),
                valid,
                1,
            ),
    {
        self.inner.as_any_mut().downcast_mut::<StructBuilder>().unwrap().append(valid);
    }

    /// `StructBuilder::append_nulls`.
    ///
    /// Trusted: the struct gets `n` more null rows, and its children none.
    #[verifier::external_body]
    pub(crate) fn append_struct_nulls(&mut self, n: usize)
        requires
            old(self)@ is Struct,
            old(self)@.len() + n <= max_slots(),
        ensures
            builder_contents(*final(self)) == with_struct_rows(
                builder_contents(*old(self)),
                false,
                n as nat,
            ),
    {
        self.inner.as_any_mut().downcast_mut::<StructBuilder>().unwrap().append_nulls(n);
    }

    /// Whether the builder is a `ListBuilder` over boxed builders.
    ///
    /// Trusted: that is a builder of lists with 32-bit offsets.
    #[verifier::external_body]
    pub(crate) fn holds_lists(&self) -> (r: bool)
        ensures
            r == (builder_contents(*self) is List),
    {
        self.inner.as_any().is::<ListBuilder<Box<dyn ArrayBuilder>>>()
    }

    /// `ListBuilder::values`, to trade the values for another builder.
    ///
    /// Trusted: the values and the other builder change places, and nothing else changes.
    #[verifier::external_body]
    pub(crate) fn swap_list_values(&mut self, child: &mut ColumnBuilder)
        requires
            old(self)@ is List,
        ensures
            builder_contents(*final(child)) == *builder_contents(*old(self))->List_values,
            builder_contents(*final(self)) == with_values(
                builder_contents(*old(self)),
                builder_contents(*old(child)),
            ),
    {
        let b = self.inner.as_any_mut().downcast_mut::<ListBuilder<Box<dyn ArrayBuilder>>>();
        std::mem::swap(b.unwrap().values(), &mut child.inner);
    }

    /// `ListBuilder::append`.
    ///
    /// Trusted: the list gets one more row, which ends where its values end. `append` panics where
    /// that is beyond 32 bits.
    #[verifier::external_body]
    pub(crate) fn append_list(&mut self, valid: bool)
        requires
            old(self)@ is List,
            old(self)@.len() < max_slots(),
            old(self)@->List_values.len() <= i32::MAX,
        ensures
            builder_contents(*final(self)) == with_list_rows(
                builder_contents(*old(self)),
                valid,
                1,
            ),
    {
        let b = self.inner.as_any_mut().downcast_mut::<ListBuilder<Box<dyn ArrayBuilder>>>();
        b.unwrap().append(valid);
    }

    /// `ListBuilder::append_nulls`.
    ///
    /// Trusted: a builder of lists gets `n` null rows, which end where its values end.
    /// `append_nulls` panics where that is beyond 32 bits.
    #[verifier::external_body]
    pub(crate) fn append_list_nulls(&mut self, n: usize) -> (ok: bool)
        requires
            old(self)@ is List ==> {
                &&& old(self)@.len() + n <= max_slots()
                &&& old(self)@->List_values.len() <= i32::MAX
            },
        ensures
            ok == (builder_contents(*old(self)) is List),
            builder_contents(*final(self)) == if ok {
                with_list_rows(builder_contents(*old(self)), false, n as nat)
            } else {
                builder_contents(*old(self))
            },
    {
        match self.inner.as_any_mut().downcast_mut::<ListBuilder<Box<dyn ArrayBuilder>>>() {
            Some(b) => { b.append_nulls(n); true },
            None => false,
        }
    }

    /// Whether the builder is a `MapBuilder` over boxed builders.
    ///
    /// Trusted: that is a builder of maps, with a builder for the keys and one for the values.
    #[verifier::external_body]
    pub(crate) fn holds_maps(&self) -> (r: bool)
        ensures
            r == is_map(builder_contents(*self)),
            r == (builder_contents(*self) is MapOf),
    {
        self.inner.as_any().is::<MapBuilder<Box<dyn ArrayBuilder>, Box<dyn ArrayBuilder>>>()
    }

    /// `MapBuilder::keys`, to trade the keys for another builder.
    ///
    /// Trusted: the keys and the other builder change places, and nothing else changes.
    #[verifier::external_body]
    pub(crate) fn swap_map_keys(&mut self, child: &mut ColumnBuilder)
        requires
            is_map(old(self)@),
        ensures
            builder_contents(*final(child)) == map_keys(builder_contents(*old(self))),
            builder_contents(*final(self)) == with_entries(
                builder_contents(*old(self)),
                builder_contents(*old(child)),
                map_values(builder_contents(*old(self))),
            ),
    {
        let b = self.inner.as_any_mut().downcast_mut::<MapBuilder<Box<dyn ArrayBuilder>, Box<dyn ArrayBuilder>>>();
        std::mem::swap(b.unwrap().keys(), &mut child.inner);
    }

    /// `MapBuilder::values`, to trade the values for another builder.
    ///
    /// Trusted: the values and the other builder change places, and nothing else changes.
    #[verifier::external_body]
    pub(crate) fn swap_map_values(&mut self, child: &mut ColumnBuilder)
        requires
            is_map(old(self)@),
        ensures
            builder_contents(*final(child)) == map_values(builder_contents(*old(self))),
            builder_contents(*final(self)) == with_entries(
                builder_contents(*old(self)),
                map_keys(builder_contents(*old(self))),
                builder_contents(*old(child)),
            ),
    {
        let b = self.inner.as_any_mut().downcast_mut::<MapBuilder<Box<dyn ArrayBuilder>, Box<dyn ArrayBuilder>>>();
        std::mem::swap(b.unwrap().values(), &mut child.inner);
    }

    /// `MapBuilder::append`.
    ///
    /// Trusted: where there are as many keys as values, the map gets one more row, which ends where
    /// they end. Otherwise nothing changes and an error is reported.
    #[verifier::external_body]
    pub(crate) fn append_map(&mut self, valid: bool) -> (r: Result<(), ArrowError>)
        requires
            is_map(old(self)@),
            map_keys(old(self)@).len() == map_values(old(self)@).len() ==> {
                &&& old(self)@.len() < max_slots()
                &&& map_keys(old(self)@).len() <= i32::MAX
            },
        ensures
            r is Ok <==> map_keys(builder_contents(*old(self))).len() == map_values(
                builder_contents(*old(self)),
            ).len(),
            builder_contents(*final(self)) == if r is Ok {
                with_map_row(builder_contents(*old(self)), valid)
            } else {
                builder_contents(*old(self))
            },
    {
        let b = self.inner.as_any_mut().downcast_mut::<MapBuilder<Box<dyn ArrayBuilder>, Box<dyn ArrayBuilder>>>();
        b.unwrap().append(valid)
    }
}

} // verus!

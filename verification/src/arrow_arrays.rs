//! Arrow's arrays and record batches, as the library sees them.
//!
//! Everything in this file that carries `external_body` is trusted: its contract says what the
//! Arrow function that it calls does.
use crate::arrow_types::{displayed_type, field_of, fields_of, invalid_argument, type_of};
use crate::model::{
    batch_accepts, list_accepts, map_accepts, new_columns, struct_accepts, times, ArrowField,
    ArrowType, BatchView, Cell, Column,
};
use crate::text::decimal;
use arrow::array::{Array, ArrayRef, AsArray, ListArray, MapArray, RecordBatch, StructArray};
use arrow::buffer::{NullBuffer, OffsetBuffer};
use arrow::compute::kernels::boolean;
use arrow::datatypes::{DataType, Field, Fields, Schema};
use arrow::error::ArrowError;
use std::sync::Arc;
use vstd::prelude::*;

verus! {

/// An Arrow array of any type: an `ArrayRef`.
#[verifier::external_body]
pub struct ArrowArray {
    pub inner: ArrayRef,
}

/// An Arrow `RecordBatch`.
#[verifier::external_body]
pub struct ArrowBatch {
    pub inner: RecordBatch,
}

/// Where the rows of a list or map array begin and end: an `OffsetBuffer<i32>`.
#[verifier::external_body]
pub struct Offsets {
    inner: OffsetBuffer<i32>,
}

/// Arrow's `NullBuffer`.
#[verifier::external_type_specification]
#[verifier::external_body]
pub struct ExNullBuffer(arrow::buffer::NullBuffer);

/// What an array holds.
pub uninterp spec fn array_contents(a: ArrowArray) -> Column;

/// What a record batch holds.
pub uninterp spec fn batch_contents(b: ArrowBatch) -> BatchView;

/// The offsets in an offset buffer, in order.
pub uninterp spec fn offsets_of(o: Offsets) -> Seq<int>;

/// Which rows a null buffer marks as valid.
pub uninterp spec fn null_bits(n: NullBuffer) -> Seq<bool>;

impl View for ArrowArray {
    type V = Column;

    open spec fn view(&self) -> Column {
        array_contents(*self)
    }
}

impl View for ArrowBatch {
    type V = BatchView;

    open spec fn view(&self) -> BatchView {
        batch_contents(*self)
    }
}

/// Which of `len` rows are valid. Without a null buffer all are.
pub open spec fn validity_of(nulls: Option<NullBuffer>, len: nat) -> Seq<bool> {
    match nulls {
        Some(n) => null_bits(n),
        None => times(true, len),
    }
}

pub open spec fn columns_of(arrays: Seq<ArrowArray>) -> Seq<Column> {
    Seq::new(arrays.len(), |i: int| array_contents(arrays[i]))
}

/// The number of rows of the first column, which is the number of rows of a struct or batch.
pub open spec fn first_len(columns: Seq<Column>) -> nat {
    if columns.len() == 0 {
        0
    } else {
        columns[0].len()
    }
}

/// Whether the types are ones for which Arrow's null count and nullability agree with the rows
/// that are null.
pub open spec fn all_known(columns: Seq<Column>) -> bool {
    forall|i: int| 0 <= i < columns.len() ==> !((#[trigger] columns[i]).data_type() is Other)
}

/// Whether every column has such a type, or another one than its field declares.
pub open spec fn known_or_mistyped(fields: Seq<ArrowField>, columns: Seq<Column>) -> bool {
    forall|i: int|
        0 <= i < columns.len() && (#[trigger] columns[i]).data_type() is Other ==> i >= fields.len()
            || fields[i].data_type != columns[i].data_type()
}

/// Whether a column holds a null that its field does not admit.
pub open spec fn holds_stray_null(field: ArrowField, column: Column) -> bool {
    !field.nullable && column.has_stored_null()
}

/// Whether column `i` is the first that holds a null that its field does not admit, among columns
/// of types whose nulls are known.
pub open spec fn first_stray_null(
    fields: Seq<ArrowField>,
    columns: Seq<Column>,
    i: int,
) -> bool {
    &&& 0 <= i < columns.len()
    &&& fields.len() == columns.len()
    &&& holds_stray_null(fields[i], columns[i])
    &&& forall|j: int|
        #![trigger columns[j]]
        0 <= j <= i ==> {
            &&& !(columns[j].data_type() is Other)
            &&& j < i ==> !holds_stray_null(fields[j], columns[j])
        }
}

/// Whether column `i` is the first that has another type than its field.
pub open spec fn first_mistyped(fields: Seq<ArrowField>, columns: Seq<Column>, i: int) -> bool {
    &&& 0 <= i < columns.len()
    &&& columns[i].data_type() != fields[i].data_type
    &&& forall|j: int|
        #![trigger columns[j]]
        0 <= j < i ==> columns[j].data_type() == fields[j].data_type
}

/// Whether all columns have as many rows as the first.
pub open spec fn same_lengths(columns: Seq<Column>) -> bool {
    forall|i: int| 0 <= i < columns.len() ==> (#[trigger] columns[i]).len() == columns[0].len()
}

/// Whether no column holds a null that its field does not admit, and the types of all columns are
/// ones whose nulls are known.
pub open spec fn no_stray_null(fields: Seq<ArrowField>, columns: Seq<Column>) -> bool {
    &&& all_known(columns)
    &&& forall|i: int|
        0 <= i < columns.len() ==> !holds_stray_null(fields[i], #[trigger] columns[i])
}

/// What is said of a field that is never null and whose column holds a null.
pub open spec fn stray_null_text(name: Seq<char>) -> Seq<char> {
    "Column '"@ + name + "' is declared as non-nullable but contains null values"@
}

/// What is said where there are no columns.
pub open spec fn no_columns_text() -> Seq<char> {
    "must either specify a row count or at least one column"@
}

/// Whether `said` is why no record batch can be made of these parts. The number of columns is
/// looked at first, then nulls, lengths and types.
pub open spec fn says_refusal(
    said: Option<Seq<char>>,
    fields: Seq<ArrowField>,
    columns: Seq<Column>,
) -> bool {
    &&& fields.len() != columns.len() ==> said == Some(
        "number of columns("@ + decimal(columns.len()) + ") must match number of fields("@
            + decimal(fields.len()) + ") in schema"@,
    )
    &&& fields.len() == 0 && columns.len() == 0 ==> said == Some(no_columns_text())
    &&& forall|i: int| #[trigger]
        first_stray_null(fields, columns, i) ==> said == Some(stray_null_text(fields[i].name))
    &&& fields.len() == columns.len() && no_stray_null(fields, columns) ==> {
        &&& !same_lengths(columns) ==> said == Some(
            "all columns in a record batch must have the same length"@,
        )
        &&& same_lengths(columns) ==> forall|i: int| #[trigger]
            first_mistyped(fields, columns, i) ==> said == Some(
                "column types must match schema types, expected "@ + displayed_type(
                    fields[i].data_type,
                ) + " but found "@ + displayed_type(columns[i].data_type())
                    + " at column index "@ + decimal(i as nat),
            )
    }
}

/// The parts of a struct array.
pub struct StructParts {
    pub fields: Fields,
    pub columns: Vec<ArrowArray>,
    pub nulls: Option<NullBuffer>,
}

/// The parts of a list array.
pub struct ListParts {
    pub field: Field,
    pub offsets: Offsets,
    pub values: ArrowArray,
    pub nulls: Option<NullBuffer>,
}

/// The parts of a map array. The entries are a struct array.
pub struct MapParts {
    pub field: Field,
    pub offsets: Offsets,
    pub entries: ArrowArray,
    pub nulls: Option<NullBuffer>,
    pub ordered: bool,
}

impl ArrowArray {
    /// `Array::data_type`.
    ///
    /// Trusted: this is the type of the array.
    #[verifier::external_body]
    pub(crate) fn data_type(&self) -> (r: DataType)
        ensures
            type_of(r) == array_contents(*self).data_type(),
    {
        self.inner.data_type().clone()
    }

    /// `ArrayRef`'s `Clone`, which shares the array.
    ///
    /// Trusted: the copy holds the same.
    #[verifier::external_body]
    pub(crate) fn share(&self) -> (r: ArrowArray)
        ensures
            array_contents(r) == array_contents(*self),
    {
        ArrowArray { inner: self.inner.clone() }
    }

    /// `AsArray::as_struct_opt` and `StructArray::into_parts`.
    ///
    /// Trusted: a struct array, and only such, comes apart into its fields, columns and null
    /// buffer. It has one column per field, with the length of the struct. Nothing is claimed of the
    /// types of the columns: a struct array that is made from a record batch keeps the fields of the
    /// batch, which may declare other nested fields than the columns have.
    #[verifier::external_body]
    pub(crate) fn struct_parts(&self) -> (r: Option<StructParts>)
        ensures
            r is Some <==> array_contents(*self) is Struct,
            r matches Some(p) ==> {
                let c = array_contents(*self);
                &&& c->Struct_fields == fields_of(p.fields)
                &&& c->Struct_columns == columns_of(p.columns@)
                &&& c->Struct_validity == match p.nulls {
                    Some(n) => null_bits(n),
                    None => times(true, c.len()),
                }
                &&& p.columns@.len() == fields_of(p.fields).len()
                &&& forall|i: int|
                    #![trigger p.columns@[i]]
                    0 <= i < p.columns@.len() ==> array_contents(p.columns@[i]).len() == c.len()
            },
    {
        let (fields, columns, nulls) = self.inner.as_struct_opt()?.clone().into_parts();
        let columns = columns.into_iter().map(|inner| ArrowArray { inner }).collect();
        Some(StructParts { fields, columns, nulls })
    }

    /// `StructArray::try_new`.
    ///
    /// Trusted: it makes the struct array of these parts exactly where the parts fit together.
    #[verifier::external_body]
    pub(crate) fn struct_from_parts(
        fields: Fields,
        columns: Vec<ArrowArray>,
        nulls: Option<NullBuffer>,
    ) -> (r: Result<ArrowArray, ArrowError>)
        ensures
            r is Ok <==> struct_accepts(
                fields_of(fields),
                columns_of(columns@),
                validity_of(nulls, first_len(columns_of(columns@))),
            ),
            r matches Ok(a) ==> array_contents(a) == (Column::Struct {
                fields: fields_of(fields),
                columns: columns_of(columns@),
                validity: validity_of(nulls, first_len(columns_of(columns@))),
            }),
    {
        let columns = columns.into_iter().map(|c| c.inner).collect();
        Ok(ArrowArray { inner: Arc::new(StructArray::try_new(fields, columns, nulls)?) })
    }

    /// `AsArray::as_list_opt` and `ListArray::into_parts`.
    ///
    /// Trusted: a list array with 32-bit offsets, and only such, comes apart into its element
    /// field, offsets, values and null buffer. Its values have the element field's type.
    #[verifier::external_body]
    pub(crate) fn list_parts(&self) -> (r: Option<ListParts>)
        ensures
            r is Some <==> array_contents(*self) is List,
            r matches Some(p) ==> {
                let c = array_contents(*self);
                &&& c->List_field == field_of(p.field)
                &&& c->List_offsets == offsets_of(p.offsets)
                &&& *c->List_values == array_contents(p.values)
                &&& c->List_validity == validity_of(p.nulls, c.len())
                &&& offsets_of(p.offsets).len() == c.len() + 1
                &&& offsets_of(p.offsets).last() <= array_contents(p.values).len()
                &&& array_contents(p.values).data_type() == field_of(p.field).data_type
            },
    {
        let list: &ListArray = self.inner.as_list_opt()?;
        let (field, offsets, values, nulls) = list.clone().into_parts();
        let (offsets, values) = (Offsets { inner: offsets }, ArrowArray { inner: values });
        Some(ListParts { field: field.as_ref().clone(), offsets, values, nulls })
    }

    /// `ListArray::try_new`.
    ///
    /// Trusted: it makes the list array of these parts exactly where the parts fit together.
    #[verifier::external_body]
    pub(crate) fn list_from_parts(p: ListParts) -> (r: Result<ArrowArray, ArrowError>)
        requires
            !(array_contents(p.values).data_type() is Other),
        ensures
            r is Ok <==> list_accepts(
                field_of(p.field),
                offsets_of(p.offsets),
                array_contents(p.values),
                validity_of(p.nulls, (offsets_of(p.offsets).len() - 1) as nat),
            ),
            r matches Ok(a) ==> array_contents(a) == (Column::List {
                field: field_of(p.field),
                offsets: offsets_of(p.offsets),
                values: Box::new(array_contents(p.values)),
                validity: validity_of(p.nulls, (offsets_of(p.offsets).len() - 1) as nat),
            }),
    {
        let list = ListArray::try_new(Arc::new(p.field), p.offsets.inner, p.values.inner, p.nulls)?;
        Ok(ArrowArray { inner: Arc::new(list) })
    }

    /// `AsArray::as_map_opt` and `MapArray::into_parts`.
    ///
    /// Trusted: a map array, and only such, comes apart into its entries field, offsets, entries,
    /// null buffer and order flag. Its entries are a struct array without null rows and with two
    /// columns, and have the entries field's type.
    #[verifier::external_body]
    pub(crate) fn map_parts(&self) -> (r: Option<MapParts>)
        ensures
            r is Some <==> array_contents(*self) is MapOf,
            r matches Some(p) ==> {
                let c = array_contents(*self);
                &&& c->MapOf_field == field_of(p.field)
                &&& c->MapOf_offsets == offsets_of(p.offsets)
                &&& *c->MapOf_entries == array_contents(p.entries)
                &&& c->MapOf_validity == validity_of(p.nulls, c.len())
                &&& c->MapOf_ordered == p.ordered
                &&& offsets_of(p.offsets).len() == c.len() + 1
                &&& offsets_of(p.offsets).last() <= array_contents(p.entries).len()
                &&& array_contents(p.entries).data_type() == field_of(p.field).data_type
                &&& array_contents(p.entries) is Struct
                &&& array_contents(p.entries)->Struct_columns.len() == 2
            },
    {
        let map = self.inner.as_map_opt()?;
        let (field, offsets, entries, nulls, ordered) = map.clone().into_parts();
        let entries = ArrowArray { inner: Arc::new(entries) };
        let (field, offsets) = (field.as_ref().clone(), Offsets { inner: offsets });
        Some(MapParts { field, offsets, entries, nulls, ordered })
    }

    /// `MapArray::try_new`.
    ///
    /// Trusted: it makes the map array of these parts exactly where the parts fit together.
    #[verifier::external_body]
    pub(crate) fn map_from_parts(p: MapParts) -> (r: Result<ArrowArray, ArrowError>)
        requires
            array_contents(p.entries) is Struct,
        ensures
            r is Ok <==> map_accepts(
                field_of(p.field),
                offsets_of(p.offsets),
                array_contents(p.entries),
                validity_of(p.nulls, (offsets_of(p.offsets).len() - 1) as nat),
            ),
            r matches Ok(a) ==> array_contents(a) == (Column::MapOf {
                field: field_of(p.field),
                offsets: offsets_of(p.offsets),
                entries: Box::new(array_contents(p.entries)),
                validity: validity_of(p.nulls, (offsets_of(p.offsets).len() - 1) as nat),
                ordered: p.ordered,
            }),
    {
        let (field, entries) = (Arc::new(p.field), p.entries.inner.as_struct().clone());
        let map = MapArray::try_new(field, p.offsets.inner, entries, p.nulls, p.ordered)?;
        Ok(ArrowArray { inner: Arc::new(map) })
    }
}

/// The result of `and` on two truth values of which either may be unknown.
pub open spec fn kleene_and(a: Cell, b: Cell) -> Cell {
    if a == Cell::Boolean(false) || b == Cell::Boolean(false) {
        Cell::Boolean(false)
    } else if a == Cell::Boolean(true) && b == Cell::Boolean(true) {
        Cell::Boolean(true)
    } else {
        Cell::Null
    }
}

/// The result of `or` on two truth values of which either may be unknown.
pub open spec fn kleene_or(a: Cell, b: Cell) -> Cell {
    if a == Cell::Boolean(true) || b == Cell::Boolean(true) {
        Cell::Boolean(true)
    } else if a == Cell::Boolean(false) && b == Cell::Boolean(false) {
        Cell::Boolean(false)
    } else {
        Cell::Null
    }
}

/// The result of `not` on a truth value that may be unknown.
pub open spec fn kleene_not(a: Cell) -> Cell {
    match a {
        Cell::Boolean(b) => Cell::Boolean(!b),
        _ => Cell::Null,
    }
}

/// Whether the column holds truth values.
pub open spec fn is_boolean(c: Column) -> bool {
    c is Leaf && c.data_type() == ArrowType::Boolean
}

/// The column of these truth values.
pub open spec fn boolean_column(cells: Seq<Cell>) -> Column {
    Column::Leaf { data_type: ArrowType::Boolean, cells }
}

impl ArrowArray {
    /// Whether the array is a `BooleanArray`.
    ///
    /// Trusted: that is an array of truth values.
    #[verifier::external_body]
    pub(crate) fn holds_booleans(&self) -> (r: bool)
        ensures
            r == is_boolean(array_contents(*self)),
    {
        self.inner.as_boolean_opt().is_some()
    }

    /// `boolean::and_kleene`.
    ///
    /// Trusted: row by row this is `and` on truth values of which either may be unknown. It fails
    /// where the arrays have different lengths.
    #[verifier::external_body]
    pub(crate) fn and(&self, other: &ArrowArray) -> (r: Result<ArrowArray, ArrowError>)
        requires
            is_boolean(self@),
            is_boolean(other@),
        ensures
            r is Ok <==> array_contents(*self).len() == array_contents(*other).len(),
            r matches Ok(a) ==> array_contents(a) == boolean_column(
                Seq::new(
                    array_contents(*self).len(),
                    |i: int|
                        kleene_and(
                            array_contents(*self)->Leaf_cells[i],
                            array_contents(*other)->Leaf_cells[i],
                        ),
                ),
            ),
    {
        let out = boolean::and_kleene(self.inner.as_boolean(), other.inner.as_boolean())?;
        Ok(ArrowArray { inner: Arc::new(out) })
    }

    /// `boolean::or_kleene`.
    ///
    /// Trusted: row by row this is `or` on truth values of which either may be unknown. It fails
    /// where the arrays have different lengths.
    #[verifier::external_body]
    pub(crate) fn or(&self, other: &ArrowArray) -> (r: Result<ArrowArray, ArrowError>)
        requires
            is_boolean(self@),
            is_boolean(other@),
        ensures
            r is Ok <==> array_contents(*self).len() == array_contents(*other).len(),
            r matches Ok(a) ==> array_contents(a) == boolean_column(
                Seq::new(
                    array_contents(*self).len(),
                    |i: int|
                        kleene_or(
                            array_contents(*self)->Leaf_cells[i],
                            array_contents(*other)->Leaf_cells[i],
                        ),
                ),
            ),
    {
        let out = boolean::or_kleene(self.inner.as_boolean(), other.inner.as_boolean())?;
        Ok(ArrowArray { inner: Arc::new(out) })
    }

    /// `boolean::not`.
    ///
    /// Trusted: row by row this is `not` on a truth value that may be unknown. It never fails.
    #[verifier::external_body]
    pub(crate) fn not(&self) -> (r: Result<ArrowArray, ArrowError>)
        requires
            is_boolean(self@),
        ensures
            r is Ok,
            r matches Ok(a) ==> array_contents(a) == boolean_column(
                Seq::new(
                    array_contents(*self).len(),
                    |i: int| kleene_not(array_contents(*self)->Leaf_cells[i]),
                ),
            ),
    {
        Ok(ArrowArray { inner: Arc::new(boolean::not(self.inner.as_boolean())?) })
    }
}

impl ArrowBatch {
    /// `RecordBatch::try_new`, with a schema that has no metadata.
    ///
    /// Trusted: it makes the batch of these columns exactly where they fit the fields. The batch
    /// has as many rows as its columns. Where they do not fit, the error is one about an invalid
    /// argument, and its description says what was found first.
    #[verifier::external_body]
    pub(crate) fn from_columns(fields: Fields, columns: Vec<ArrowArray>) -> (r: Result<
        ArrowBatch,
        ArrowError,
    >)
        requires
            known_or_mistyped(fields_of(fields), columns_of(columns@)),
        ensures
            r is Ok <==> batch_accepts(fields_of(fields), columns_of(columns@)),
            r matches Ok(b) ==> batch_contents(b) == (BatchView {
                fields: fields_of(fields),
                columns: columns_of(columns@),
                rows: first_len(columns_of(columns@)),
            }),
            r matches Err(e) ==> says_refusal(
                invalid_argument(e),
                fields_of(fields),
                columns_of(columns@),
            ),
    {
        let columns = columns.into_iter().map(|c| c.inner).collect();
        Ok(ArrowBatch { inner: RecordBatch::try_new(Arc::new(Schema::new(fields)), columns)? })
    }

    /// `RecordBatch::new_empty`, with a schema that has no metadata.
    ///
    /// Trusted: the batch has one column without rows per field, of the field's type.
    #[verifier::external_body]
    pub(crate) fn empty(fields: Fields) -> (r: ArrowBatch)
        requires
            forall|i: int|
                0 <= i < fields_of(fields).len() ==> crate::model::buildable(
                    (#[trigger] fields_of(fields)[i]).data_type,
                ),
        ensures
            batch_contents(r) == (BatchView {
                fields: fields_of(fields),
                columns: new_columns(fields_of(fields)),
                rows: 0,
            }),
    {
        ArrowBatch { inner: RecordBatch::new_empty(Arc::new(Schema::new(fields))) }
    }

    /// `RecordBatch::schema_ref` and `Schema::fields`.
    ///
    /// Trusted: these are the fields of the batch, sharing the batch's allocation.
    #[verifier::external_body]
    pub(crate) fn fields(&self) -> (r: Fields)
        ensures
            fields_of(r) == batch_contents(*self).fields,
    {
        self.inner.schema_ref().fields().clone()
    }

    /// `RecordBatch::num_rows`.
    ///
    /// Trusted: this is the number of rows.
    #[verifier::external_body]
    pub(crate) fn num_rows(&self) -> (r: usize)
        ensures
            r == batch_contents(*self).rows,
    {
        self.inner.num_rows()
    }

    /// `StructArray::from`.
    ///
    /// Trusted: the struct array has the fields, columns and rows of the batch, and no null row.
    #[verifier::external_body]
    pub(crate) fn to_struct(&self) -> (r: ArrowArray)
        ensures
            array_contents(r) == (Column::Struct {
                fields: batch_contents(*self).fields,
                columns: batch_contents(*self).columns,
                validity: times(true, batch_contents(*self).rows),
            }),
    {
        ArrowArray { inner: Arc::new(StructArray::from(self.inner.clone())) }
    }
}

} // verus!

//! The mathematical model of Arrow types, columns and record batches.
use vstd::prelude::*;
use vstd::utf8::encode_utf8;

verus! {

/// The unit that a timestamp counts in.
#[derive(Clone, Copy, Debug, PartialEq, Eq, Structural)]
pub enum TimeUnit {
    Second,
    Millisecond,
    Microsecond,
    Nanosecond,
}

/// An Arrow data type. `Other` stands for the types that no kernel type maps to; its number tells
/// them apart.
pub enum ArrowType {
    Null,
    Boolean,
    Int8,
    Int16,
    Int32,
    Int64,
    Float32,
    Float64,
    Utf8,
    LargeUtf8,
    Utf8View,
    Binary,
    LargeBinary,
    BinaryView,
    Date32,
    Timestamp(TimeUnit, Option<Seq<char>>),
    Decimal128(u8, i8),
    List(Box<ArrowField>),
    Struct(Seq<ArrowField>),
    MapOf(Box<ArrowField>, bool),
    Other(nat),
}

/// An Arrow field: a named and typed slot of a schema.
pub struct ArrowField {
    pub name: Seq<char>,
    pub data_type: ArrowType,
    pub nullable: bool,
    pub metadata: Map<Seq<char>, Seq<char>>,
}

/// One slot of a column that has no child columns. `Null` is a slot that Arrow counts as a logical
/// null, whether or not a null buffer says so. Integers, dates, timestamps and the unscaled
/// value of a decimal are `Int`; a floating-point number is its bit pattern.
pub enum Cell {
    Null,
    Boolean(bool),
    Int(int),
    Bits(nat),
    Text(Seq<char>),
    Bytes(Seq<u8>),
}

/// What an Arrow array or an array builder holds, child by child.
///
/// Row `i` of a list or map column spans the child slots from `offsets[i]` up to `offsets[i + 1]`.
/// A slot of a struct, list or map column is null where `validity` is false.
pub enum Column {
    Leaf { data_type: ArrowType, cells: Seq<Cell> },
    Struct { fields: Seq<ArrowField>, columns: Seq<Column>, validity: Seq<bool> },
    List { field: ArrowField, offsets: Seq<int>, values: Box<Column>, validity: Seq<bool> },
    MapOf {
        field: ArrowField,
        offsets: Seq<int>,
        entries: Box<Column>,
        validity: Seq<bool>,
        ordered: bool,
    },
}

/// What a record batch holds.
pub struct BatchView {
    pub fields: Seq<ArrowField>,
    pub columns: Seq<Column>,
    pub rows: nat,
}

/// `n` times the same element.
pub open spec fn times<A>(a: A, n: nat) -> Seq<A> {
    Seq::new(n, |i: int| a)
}

impl Column {
    /// The Arrow type of the column.
    pub open spec fn data_type(self) -> ArrowType {
        match self {
            Column::Leaf { data_type, .. } => data_type,
            Column::Struct { fields, .. } => ArrowType::Struct(fields),
            Column::List { field, .. } => ArrowType::List(Box::new(field)),
            Column::MapOf { field, ordered, .. } => ArrowType::MapOf(Box::new(field), ordered),
        }
    }

    /// The number of rows.
    pub open spec fn len(self) -> nat {
        match self {
            Column::Leaf { cells, .. } => cells.len(),
            Column::Struct { validity, .. } => validity.len(),
            Column::List { validity, .. } => validity.len(),
            Column::MapOf { validity, .. } => validity.len(),
        }
    }

    /// Whether row `i` is null.
    pub open spec fn is_null(self, i: int) -> bool {
        match self {
            Column::Leaf { cells, .. } => cells[i] is Null,
            Column::Struct { validity, .. } => !validity[i],
            Column::List { validity, .. } => !validity[i],
            Column::MapOf { validity, .. } => !validity[i],
        }
    }

    /// Whether any row is null.
    pub open spec fn has_null(self) -> bool {
        exists|i: int| 0 <= i < self.len() && #[trigger] self.is_null(i)
    }

    /// Whether a null buffer marks some row as null. A column of type `Null` has no null buffer.
    pub open spec fn has_stored_null(self) -> bool {
        self.has_null() && self.data_type() != ArrowType::Null
    }

    /// Whether every null row is also null in `validity`.
    pub open spec fn masked_by(self, validity: Seq<bool>) -> bool {
        forall|i: int| 0 <= i < self.len() && #[trigger] self.is_null(i) ==> !validity[i]
    }
}

/// The slot counts up to which the buffers of a builder can be allocated: no builder needs more
/// than 32 bytes of address space for one slot, with room to double its buffers.
pub open spec fn max_slots() -> int {
    isize::MAX / 32 - 4
}

/// The bytes that the texts or byte strings of one column may take together.
pub open spec fn max_bytes() -> int {
    if isize::MAX / 4 < i32::MAX {
        isize::MAX / 4
    } else {
        i32::MAX as int
    }
}

/// The bytes that the texts and byte strings among `cells` take.
pub open spec fn byte_count(cells: Seq<Cell>) -> nat
    decreases cells.len(),
{
    if cells.len() == 0 {
        0
    } else {
        byte_count(cells.drop_last()) + cell_bytes(cells.last())
    }
}

pub open spec fn cell_bytes(cell: Cell) -> nat {
    match cell {
        Cell::Text(s) => encode_utf8(s).len(),
        Cell::Bytes(b) => b.len(),
        _ => 0,
    }
}

/// Whether a column stays within what 32-bit offsets and the address space can hold.
pub open spec fn within_limits(c: Column) -> bool
    decreases c,
{
    &&& c.len() <= max_slots()
    &&& match c {
        Column::Leaf { cells, .. } => byte_count(cells) <= max_bytes(),
        Column::Struct { columns, .. } => forall|i: int|
            0 <= i < columns.len() ==> within_limits(#[trigger] columns[i]),
        Column::List { values, .. } => values.len() <= i32::MAX && within_limits(*values),
        Column::MapOf { entries, .. } => entries.len() <= i32::MAX && within_limits(*entries),
    }
}

/// Whether an array builder exists for the type.
pub open spec fn buildable(t: ArrowType) -> bool
    decreases t,
{
    match t {
        ArrowType::List(f) => buildable(f.data_type),
        ArrowType::Struct(fs) => forall|i: int|
            0 <= i < fs.len() ==> buildable((#[trigger] fs[i]).data_type),
        ArrowType::MapOf(f, _) => match f.data_type {
            ArrowType::Struct(fs) => {
                &&& fs.len() == 2
                &&& buildable(fs[0].data_type)
                &&& buildable(fs[1].data_type)
            },
            _ => false,
        },
        ArrowType::Other(_) => false,
        _ => true,
    }
}

/// The column that a new builder for type `t` holds. Builders for maps drop the order flag, and
/// the metadata and nullability of the entries field.
pub open spec fn empty_column(t: ArrowType) -> Column
    decreases t,
{
    match t {
        ArrowType::Struct(fs) => Column::Struct {
            fields: fs,
            columns: empty_columns(fs),
            validity: seq![],
        },
        ArrowType::List(f) => Column::List {
            field: *f,
            offsets: seq![0],
            values: Box::new(empty_column(f.data_type)),
            validity: seq![],
        },
        ArrowType::MapOf(f, _) => match f.data_type {
            ArrowType::Struct(fs) => Column::MapOf {
                field: ArrowField { nullable: false, metadata: Map::empty(), ..*f },
                offsets: seq![0],
                entries: Box::new(
                    Column::Struct { fields: fs, columns: empty_columns(fs), validity: seq![] },
                ),
                validity: seq![],
                ordered: false,
            },
            _ => Column::Leaf { data_type: t, cells: seq![] },
        },
        _ => Column::Leaf { data_type: t, cells: seq![] },
    }
}

pub open spec fn empty_columns(fs: Seq<ArrowField>) -> Seq<Column>
    decreases fs,
{
    Seq::new(
        fs.len(),
        |i: int|
            if 0 <= i < fs.len() {
                empty_column(fs[i].data_type)
            } else {
                arbitrary()
            },
    )
}

/// The column without rows that Arrow makes for type `t`.
pub open spec fn new_column(t: ArrowType) -> Column
    decreases t,
{
    match t {
        ArrowType::Struct(fs) => Column::Struct {
            fields: fs,
            columns: new_columns(fs),
            validity: seq![],
        },
        ArrowType::List(f) => Column::List {
            field: *f,
            offsets: seq![0],
            values: Box::new(new_column(f.data_type)),
            validity: seq![],
        },
        ArrowType::MapOf(f, ordered) => match f.data_type {
            ArrowType::Struct(fs) => Column::MapOf {
                field: *f,
                offsets: seq![0],
                entries: Box::new(
                    Column::Struct { fields: fs, columns: new_columns(fs), validity: seq![] },
                ),
                validity: seq![],
                ordered,
            },
            _ => Column::Leaf { data_type: t, cells: seq![] },
        },
        _ => Column::Leaf { data_type: t, cells: seq![] },
    }
}

pub open spec fn new_columns(fs: Seq<ArrowField>) -> Seq<Column>
    decreases fs,
{
    Seq::new(
        fs.len(),
        |i: int|
            if 0 <= i < fs.len() {
                new_column(fs[i].data_type)
            } else {
                arbitrary()
            },
    )
}

/// Whether a struct array can be made of these parts: at least one column, one field per column
/// with the column's type, columns and validity of one length, and no null of a non-nullable field
/// outside the null rows of the struct.
pub open spec fn struct_accepts(
    fields: Seq<ArrowField>,
    columns: Seq<Column>,
    validity: Seq<bool>,
) -> bool {
    &&& columns.len() > 0
    &&& fields.len() == columns.len()
    &&& forall|i: int|
        #![trigger columns[i]]
        0 <= i < columns.len() ==> {
            &&& columns[i].len() == validity.len()
            &&& columns[i].data_type() == fields[i].data_type
            &&& fields[i].nullable || columns[i].masked_by(validity)
        }
}

/// Whether a list array can be made of these parts.
pub open spec fn list_accepts(
    field: ArrowField,
    offsets: Seq<int>,
    values: Column,
    validity: Seq<bool>,
) -> bool {
    &&& offsets.len() == validity.len() + 1
    &&& offsets.last() <= values.len()
    &&& field.nullable || !values.has_null()
    &&& field.data_type == values.data_type()
}

/// Whether a map array can be made of these parts.
pub open spec fn map_accepts(
    field: ArrowField,
    offsets: Seq<int>,
    entries: Column,
    validity: Seq<bool>,
) -> bool {
    &&& entries is Struct
    &&& entries->Struct_columns.len() == 2
    &&& offsets.len() == validity.len() + 1
    &&& offsets.last() <= entries.len()
    &&& !field.nullable
    &&& !entries.has_null()
    &&& field.data_type == entries.data_type()
}

/// Whether a record batch can be made of these parts: at least one column, one field per column
/// with the column's type, columns of one length, and no stored null under a non-nullable field.
pub open spec fn batch_accepts(fields: Seq<ArrowField>, columns: Seq<Column>) -> bool {
    &&& columns.len() > 0
    &&& fields.len() == columns.len()
    &&& forall|i: int|
        #![trigger columns[i]]
        0 <= i < columns.len() ==> {
            &&& columns[i].len() == columns[0].len()
            &&& columns[i].data_type() == fields[i].data_type
            &&& fields[i].nullable || !columns[i].has_stored_null()
        }
}

/// Whether a builder that holds `c` can be finished: every struct, list and map in it is one that
/// an array can be made of, a struct without fields included.
pub open spec fn finishable(c: Column) -> bool
    decreases c,
{
    match c {
        Column::Leaf { .. } => true,
        Column::Struct { fields, columns, validity } => {
            &&& columns.len() == 0 ==> fields.len() == 0
            &&& columns.len() > 0 ==> struct_accepts(fields, columns, validity)
            &&& forall|i: int| 0 <= i < columns.len() ==> finishable(#[trigger] columns[i])
        },
        Column::List { field, offsets, values, validity } => {
            &&& list_accepts(field, offsets, *values, validity)
            &&& finishable(*values)
        },
        Column::MapOf { field, offsets, entries, validity, .. } => {
            &&& map_accepts(field, offsets, *entries, validity)
            &&& !entries->Struct_fields[0].nullable
            &&& finishable(*entries)
        },
    }
}

pub proof fn lemma_byte_count_push(cells: Seq<Cell>, cell: Cell)
    ensures
        byte_count(cells.push(cell)) == byte_count(cells) + cell_bytes(cell),
{
    assert(cells.push(cell).drop_last() =~= cells);
}

/// Appending the same cell several times adds its bytes as often.
pub proof fn lemma_byte_count_times(cells: Seq<Cell>, cell: Cell, n: nat)
    ensures
        byte_count(cells + times(cell, n)) == byte_count(cells) + n * cell_bytes(cell),
    decreases n,
{
    if n == 0 {
        assert(cells + times(cell, 0) =~= cells);
    } else {
        let before = cells + times(cell, (n - 1) as nat);
        lemma_byte_count_times(cells, cell, (n - 1) as nat);
        assert(cells + times(cell, n) =~= before.push(cell));
        lemma_byte_count_push(before, cell);
        assert(n * cell_bytes(cell) == (n - 1) * cell_bytes(cell) + cell_bytes(cell))
            by (nonlinear_arith)
            requires
                n > 0,
        ;
    }
}

} // verus!

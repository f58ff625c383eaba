//! Record batches made of scalars.
use crate::append::{append, append_each, append_null, append_null_fields, lemma_each_step};
use crate::apply_schema::is_batch_result;
use crate::arrow_arrays::{
    all_known, columns_of, first_len, says_refusal, ArrowArray, ArrowBatch,
};
use crate::arrow_builders::ColumnBuilder;
use crate::arrow_types::{
    field_data_type, field_of, fields_of, fields_seq, invalid_argument, list_fields,
};
use crate::building::{admitted, lemma_append_each_finishable};
use crate::conversion::{
    arrow_fields, arrow_fields_of, arrow_type, lemma_arrow_fields, lemma_arrow_type_buildable,
};
use crate::error::{Error, ErrorView};
use crate::growth::{lemma_append_each_grows, sound_builder};
use crate::model::{
    batch_accepts, buildable, byte_count, empty_column, empty_columns, finishable,
    lemma_byte_count_times, max_slots, new_columns, within_limits, ArrowField, ArrowType, BatchView,
    Cell, Column,
};
use crate::rows::{law_to_array_rows, lemma_append_each_values, row, value};
use crate::scalars::{scalar_type, Scalar};
use crate::schema::{
    fields_view, lemma_fields_view, FieldView, KernelDataType, Schema, StructField, TypeView,
};
use crate::to_array::{built, is_new_builder, lemma_new_builder, scalar_column};
use arrow::datatypes::Field;
use vstd::prelude::*;

verus! {

/// Makes record batches and evaluators.
#[derive(Debug)]
pub struct ArrowEvaluationHandler;

/// The column of `n` null rows of type `t`.
pub open spec fn null_column(t: TypeView, n: nat) -> Result<Column, ErrorView> {
    match arrow_type(t, None, ""@) {
        Ok(a) => built(append_null(empty_column(a), t, n)),
        Err(e) => Err(e),
    }
}

/// One null row of each of the first `k` fields' types, unless one of them has none.
pub open spec fn null_columns(fs: Seq<FieldView>, k: nat) -> Result<Seq<Column>, ErrorView>
    decreases k,
{
    if k == 0 || k > fs.len() {
        Ok(seq![])
    } else {
        match (null_columns(fs, (k - 1) as nat), null_column(fs[k - 1].data_type, 1)) {
            (Err(e), _) => Err(e),
            (Ok(_), Err(e)) => Err(e),
            (Ok(columns), Ok(c)) => Ok(columns.push(c)),
        }
    }
}

/// The batch of these columns, if they fit the fields.
pub open spec fn batch_of(fields: Seq<ArrowField>, columns: Seq<Column>) -> Result<
    BatchView,
    ErrorView,
> {
    if batch_accepts(fields, columns) {
        Ok(BatchView { fields, columns, rows: first_len(columns) })
    } else {
        Err(ErrorView::Arrow)
    }
}

/// The batch of one row that is null in every field of a schema.
pub open spec fn null_row_batch(fs: Seq<FieldView>) -> Result<BatchView, ErrorView> {
    match (null_columns(fs, fs.len()), arrow_fields(fs, fs.len())) {
        (Err(e), _) => Err(e),
        (Ok(_), Err(e)) => Err(e),
        (Ok(columns), Ok(fields)) => batch_of(fields, columns),
    }
}

/// Whether a result is Arrow's error that says `text` of an invalid argument.
pub open spec fn is_refused(r: Result<ArrowBatch, Error>, text: Seq<char>) -> bool {
    match r {
        Err(Error::Arrow(e)) => invalid_argument(e) == Some(text),
        _ => false,
    }
}

/// Whether a result is Arrow's error that says why these columns do not fit the fields, unless they
/// fit.
pub open spec fn tells_refusal(
    r: Result<ArrowBatch, Error>,
    fields: Seq<ArrowField>,
    columns: Seq<Column>,
) -> bool {
    batch_accepts(fields, columns) || match r {
        Err(Error::Arrow(e)) => says_refusal(invalid_argument(e), fields, columns),
        _ => false,
    }
}

/// Whether a result tells why the null columns of a schema do not fit its fields, where there are
/// both.
pub open spec fn null_row_tells(fs: Seq<FieldView>, r: Result<ArrowBatch, Error>) -> bool {
    match (null_columns(fs, fs.len()), arrow_fields(fs, fs.len())) {
        (Ok(columns), Ok(fields)) => tells_refusal(r, fields, columns),
        _ => true,
    }
}

/// The scalars of one column of a table, from the first row down.
pub open spec fn column_scalars(rows: Seq<Seq<Scalar>>, column: int) -> Seq<Scalar> {
    Seq::new(rows.len(), |r: int| rows[r][column])
}

/// The column that the first `k` scalars make, or the position of the first that cannot be
/// appended and why.
pub open spec fn append_rows(c: Column, scalars: Seq<Scalar>, k: nat) -> Result<
    Column,
    (nat, ErrorView),
>
    decreases k,
{
    if k == 0 || k > scalars.len() {
        Ok(c)
    } else {
        match append_rows(c, scalars, (k - 1) as nat) {
            Err(e) => Err(e),
            Ok(d) => {
                let a = append(d, scalars[k - 1], 1);
                match a.error {
                    Some(e) => Err(((k - 1) as nat, e)),
                    None => Ok(a.column),
                }
            },
        }
    }
}

/// The columns of the first `k` fields, or the error at the first scalar that cannot be appended,
/// column by column.
pub open spec fn table_columns(
    fs: Seq<FieldView>,
    fields: Seq<ArrowField>,
    rows: Seq<Seq<Scalar>>,
    k: nat,
) -> Result<Seq<Column>, ErrorView>
    decreases k,
{
    if k == 0 || k > fs.len() {
        Ok(seq![])
    } else {
        let i = (k - 1) as int;
        let scalars = column_scalars(rows, i);
        match (
            table_columns(fs, fields, rows, (k - 1) as nat),
            append_rows(empty_column(fields[i].data_type), scalars, rows.len()),
        ) {
            (Err(e), _) => Err(e),
            (Ok(_), Err((row, cause))) => Err(
                ErrorView::RowScalar {
                    row,
                    field: fs[i].name,
                    expected: fs[i].data_type,
                    actual: scalar_type(rows[row as int][i]),
                    cause: Box::new(cause),
                },
            ),
            (Ok(columns), Ok(c)) => Ok(columns.push(c)),
        }
    }
}

/// Whether `r` is the first row that does not have `width` scalars.
pub open spec fn first_odd_row(rows: Seq<Seq<Scalar>>, width: nat, r: int) -> bool {
    &&& 0 <= r < rows.len()
    &&& rows[r].len() != width
    &&& forall|q: int| 0 <= q < r ==> (#[trigger] rows[q]).len() == width
}

/// Whether every row has `width` scalars.
pub open spec fn is_table(rows: Seq<Seq<Scalar>>, width: nat) -> bool {
    forall|r: int| 0 <= r < rows.len() ==> (#[trigger] rows[r]).len() == width
}

/// The batch of these rows.
pub open spec fn table_batch(fs: Seq<FieldView>, rows: Seq<Seq<Scalar>>) -> Result<
    BatchView,
    ErrorView,
> {
    match arrow_fields(fs, fs.len()) {
        Err(e) => Err(e),
        Ok(fields) => if rows.len() == 0 {
            Ok(BatchView { fields, columns: new_columns(fields), rows: 0 })
        } else if !is_table(rows, fs.len()) {
            let r = choose|r: int| first_odd_row(rows, fs.len(), r);
            Err(ErrorView::RowLength { row: r as nat, scalars: rows[r].len(), fields: fs.len() })
        } else {
            match table_columns(fs, fields, rows, fs.len()) {
                Err(e) => Err(e),
                Ok(columns) => batch_of(fields, columns),
            }
        },
    }
}

/// Whether a result tells why the columns of a table do not fit the fields, where there are both.
pub open spec fn table_tells(
    fs: Seq<FieldView>,
    rows: Seq<Seq<Scalar>>,
    r: Result<ArrowBatch, Error>,
) -> bool {
    rows.len() > 0 && is_table(rows, fs.len()) ==> match arrow_fields(fs, fs.len()) {
        Ok(fields) => match table_columns(fs, fields, rows, fs.len()) {
            Ok(columns) => tells_refusal(r, fields, columns),
            Err(_) => true,
        },
        Err(_) => true,
    }
}

/// Whether the scalars of a table can stand in their columns. The buffers of each column can be
/// allocated and indexed, unless a column before it fails. Where all columns can be built, each
/// scalar is admitted by the type of its field.
pub open spec fn table_fits(fs: Seq<FieldView>, rows: Seq<Seq<Scalar>>) -> bool {
    &&& rows.len() <= max_slots()
    &&& is_table(rows, fs.len()) ==> (arrow_fields(fs, fs.len()) matches Ok(fields) ==> {
        &&& forall|i: int|
            #![trigger fields[i]]
            0 <= i < fs.len() && table_columns(fs, fields, rows, i as nat) is Ok ==> within_limits(
                append_each(
                    empty_column(fields[i].data_type),
                    column_scalars(rows, i),
                    rows.len(),
                ).column,
            )
        &&& table_columns(fs, fields, rows, fs.len()) is Ok ==> forall|i: int, r: int|
            #![trigger column_scalars(rows, i)[r]]
            0 <= i < fs.len() && 0 <= r < rows.len() ==> admitted(
                column_scalars(rows, i)[r],
                fields[i].data_type,
            )
    })
}

pub open spec fn rows_view(rows: Seq<&[Scalar]>) -> Seq<Seq<Scalar>> {
    Seq::new(rows.len(), |r: int| rows[r]@)
}

/// Appending rows one by one is appending each.
pub proof fn lemma_append_rows(c: Column, scalars: Seq<Scalar>, k: nat)
    requires
        k <= scalars.len(),
    ensures
        append_rows(c, scalars, k) matches Ok(d) ==> append_each(c, scalars, k)
            == (crate::append::Appended { column: d, error: None }),
        append_rows(c, scalars, k) is Err ==> append_each(c, scalars, k).error is Some,
    decreases k,
{
    if k > 0 {
        lemma_append_rows(c, scalars, (k - 1) as nat);
    }
}

proof fn lemma_append_rows_stop(c: Column, scalars: Seq<Scalar>, j: nat, k: nat)
    requires
        j <= k <= scalars.len(),
        append_rows(c, scalars, j) is Err,
    ensures
        append_rows(c, scalars, k) == append_rows(c, scalars, j),
    decreases k,
{
    if j < k {
        lemma_append_rows_stop(c, scalars, j, (k - 1) as nat);
    }
}

proof fn lemma_table_columns_stop(
    fs: Seq<FieldView>,
    fields: Seq<ArrowField>,
    rows: Seq<Seq<Scalar>>,
    j: nat,
    k: nat,
)
    requires
        j <= k <= fs.len(),
        table_columns(fs, fields, rows, j) is Err,
    ensures
        table_columns(fs, fields, rows, k) == table_columns(fs, fields, rows, j),
    decreases k,
{
    if j < k {
        lemma_table_columns_stop(fs, fields, rows, j, (k - 1) as nat);
    }
}

proof fn lemma_null_columns_stop(fs: Seq<FieldView>, j: nat, k: nat)
    requires
        j <= k <= fs.len(),
        null_columns(fs, j) is Err,
    ensures
        null_columns(fs, k) == null_columns(fs, j),
    decreases k,
{
    if j < k {
        lemma_null_columns_stop(fs, j, (k - 1) as nat);
    }
}

/// Whether a column has no more than `n` rows anywhere and takes no bytes for texts.
pub open spec fn hollow(c: Column, n: nat) -> bool
    decreases c,
{
    &&& c.len() <= n
    &&& match c {
        Column::Leaf { cells, .. } => byte_count(cells) == 0,
        Column::Struct { columns, .. } => forall|i: int|
            0 <= i < columns.len() ==> hollow(#[trigger] columns[i], n),
        Column::List { values, .. } => hollow(*values, n) && values.len() == 0,
        Column::MapOf { entries, .. } => hollow(*entries, n) && entries.len() == 0,
    }
}

proof fn lemma_hollow_more(c: Column, m: nat, n: nat)
    requires
        hollow(c, m),
        m <= n,
    ensures
        hollow(c, n),
    decreases c,
{
    match c {
        Column::Leaf { .. } => {},
        Column::Struct { columns, .. } => {
            assert forall|i: int| 0 <= i < columns.len() implies hollow(#[trigger] columns[i], n) by {
                lemma_hollow_more(columns[i], m, n);
            }
        },
        Column::List { values, .. } => {
            lemma_hollow_more(*values, m, n);
        },
        Column::MapOf { entries, .. } => {
            lemma_hollow_more(*entries, m, n);
        },
    }
}

proof fn lemma_hollow_limits(c: Column, n: nat)
    requires
        hollow(c, n),
        n <= max_slots(),
    ensures
        within_limits(c),
    decreases c,
{
    match c {
        Column::Leaf { .. } => {},
        Column::Struct { columns, .. } => {
            assert forall|i: int| 0 <= i < columns.len() implies within_limits(
                #[trigger] columns[i],
            ) by {
                lemma_hollow_limits(columns[i], n);
            }
        },
        Column::List { values, .. } => {
            lemma_hollow_limits(*values, n);
        },
        Column::MapOf { entries, .. } => {
            lemma_hollow_limits(*entries, n);
        },
    }
}

proof fn lemma_hollow_empty(t: ArrowType)
    requires
        buildable(t),
    ensures
        hollow(empty_column(t), 0),
    decreases t,
{
    assert(byte_count(Seq::<Cell>::empty()) == 0);
    match t {
        ArrowType::Struct(fs) => {
            assert(empty_column(t)->Struct_columns == empty_columns(fs));
            assert forall|i: int| 0 <= i < fs.len() implies hollow(
                #[trigger] empty_columns(fs)[i],
                0,
            ) by {
                assert(buildable(fs[i].data_type));
                lemma_hollow_empty(fs[i].data_type);
            }
        },
        ArrowType::List(f) => {
            lemma_hollow_empty(f.data_type);
        },
        ArrowType::MapOf(f, _) => {
            match f.data_type {
                ArrowType::Struct(fs) => {
                    let e = Column::Struct {
                        fields: fs,
                        columns: empty_columns(fs),
                        validity: seq![],
                    };
                    lemma_hollow_empty(fs[0].data_type);
                    lemma_hollow_empty(fs[1].data_type);
                    assert forall|i: int| 0 <= i < fs.len() implies hollow(
                        #[trigger] empty_columns(fs)[i],
                        0,
                    ) by {
                        assert(i == 0 || i == 1);
                    }
                    assert(hollow(e, 0));
                    assert(*empty_column(t)->MapOf_entries == e);
                },
                _ => {},
            }
        },
        _ => {},
    }
}

proof fn lemma_append_null_hollow(c: Column, t: TypeView, n: nat)
    requires
        hollow(c, 0),
    ensures
        hollow(append_null(c, t, n).column, n),
    decreases t, 0nat,
{
    lemma_hollow_more(c, 0, n);
    match t {
        TypeView::Primitive(_) => {
            if c is Leaf {
                lemma_byte_count_times(c->Leaf_cells, Cell::Null, n);
                assert(n * 0 == 0) by (nonlinear_arith);
            }
        },
        TypeView::Struct(fs) => {
            if c is Struct && c->Struct_columns.len() == fs.len() {
                lemma_append_null_fields_hollow(c, fs, fs.len(), n);
            }
        },
        _ => {},
    }
}

proof fn lemma_append_null_fields_hollow(c: Column, fs: Seq<FieldView>, k: nat, n: nat)
    requires
        c is Struct,
        c->Struct_columns.len() == fs.len(),
        hollow(c, 0),
        k <= fs.len(),
    ensures
        ({
            let r = append_null_fields(c, fs, k, n).column;
            &&& r is Struct
            &&& r->Struct_validity == c->Struct_validity
            &&& r->Struct_columns.len() == fs.len()
            &&& hollow(r, n)
            &&& forall|i: int|
                k <= i < fs.len() ==> #[trigger] r->Struct_columns[i] == c->Struct_columns[i]
        }),
    decreases fs, k,
{
    lemma_hollow_more(c, 0, n);
    if k > 0 {
        lemma_append_null_fields_hollow(c, fs, (k - 1) as nat, n);
        let p = append_null_fields(c, fs, (k - 1) as nat, n);
        if p.error is None {
            let child = c->Struct_columns[k - 1];
            assert(p.column->Struct_columns[k - 1] == child);
            lemma_append_null_hollow(child, fs[k - 1].data_type, n);
            let r = append_null_fields(c, fs, k, n).column;
            assert forall|i: int| 0 <= i < fs.len() implies hollow(
                #[trigger] r->Struct_columns[i],
                n,
            ) by {
                if i != k - 1 {
                    assert(r->Struct_columns[i] == p.column->Struct_columns[i]);
                }
            }
        }
    }
}

/// Null rows take no memory that could run out but their slots.
proof fn lemma_null_fits(t: TypeView, n: nat)
    requires
        n <= max_slots(),
        arrow_type(t, None, ""@) is Ok,
    ensures
        within_limits(append_null(empty_column(arrow_type(t, None, ""@)->Ok_0), t, n).column),
{
    let a = arrow_type(t, None, ""@)->Ok_0;
    lemma_arrow_type_buildable(t, None, ""@);
    lemma_hollow_empty(a);
    lemma_append_null_hollow(empty_column(a), t, n);
    lemma_hollow_limits(append_null(empty_column(a), t, n).column, n);
}

/// The column of null rows of a type has the Arrow type of it.
proof fn lemma_null_column_type(t: KernelDataType, n: nat)
    requires
        null_column(t@, n) is Ok,
    ensures
        scalar_column(Scalar::Null(t), n) == null_column(t@, n),
        !(null_column(t@, n)->Ok_0.data_type() is Other),
{
    law_to_array_rows(Scalar::Null(t), n);
    lemma_arrow_type_buildable(t@, None, ""@);
}

/// The column that scalars make of a new builder can be finished, and has the builder's type.
proof fn lemma_column_finishable(t: ArrowType, scalars: Seq<Scalar>)
    requires
        sound_builder(empty_column(t)),
        finishable(empty_column(t)),
        empty_column(t).data_type() == t,
        empty_column(t).len() == 0,
        forall|r: int| 0 <= r < scalars.len() ==> admitted(#[trigger] scalars[r], t),
        append_rows(empty_column(t), scalars, scalars.len()) is Ok,
    ensures
        ({
            let c = append_rows(empty_column(t), scalars, scalars.len())->Ok_0;
            finishable(c) && c.data_type() == t && c.len() == scalars.len()
        }),
{
    lemma_append_rows(empty_column(t), scalars, scalars.len());
    lemma_append_each_finishable(empty_column(t), scalars, scalars.len(), true);
}

impl ArrowEvaluationHandler {
    /// Creates a batch of one row that is null in every field. A struct is null as a whole, rather
    /// than a struct of nulls. Where a field is never null, Arrow's error names the first.
    pub fn null_row(&self, output_schema: &Schema) -> (r: Result<ArrowBatch, Error>)
        ensures
            is_batch_result(r, null_row_batch(output_schema@)),
            null_row_tells(output_schema@, r),
    {
        let ghost fs = output_schema@;
        let fields = &output_schema.fields;
        let mut arrays: Vec<ArrowArray> = Vec::new();
        let mut i: usize = 0;
        proof {
            lemma_fields_view(fields@);
            assert(columns_of(arrays@) =~= seq![]);
        }
        while i < fields.len()
            invariant
                i <= fields.len(),
                fs == output_schema@,
                fs == fields_view(fields@),
                fs.len() == fields@.len(),
                arrays@.len() == i,
                null_columns(fs, i as nat) == Ok::<Seq<Column>, ErrorView>(columns_of(arrays@)),
                all_known(columns_of(arrays@)),
            decreases fields.len() - i,
        {
            proof {
                lemma_fields_view(fields@);
            }
            let data_type = fields[i].data_type.clone();
            let ghost t = data_type@;
            let scalar = Scalar::Null(data_type);
            proof {
                assert(t == fs[i as int].data_type);
                assert(scalar_type(scalar) == t);
                if arrow_type(t, None, ""@) is Ok {
                    lemma_null_fits(t, 1);
                }
                assert(scalar_column(scalar, 1) == null_column(t, 1));
            }
            let array = match scalar.to_array(1) {
                Ok(array) => array,
                Err(e) => {
                    proof {
                        lemma_null_columns_stop(fs, (i + 1) as nat, fs.len());
                    }
                    return Err(e);
                },
            };
            proof {
                lemma_null_column_type(scalar->Null_0, 1);
            }
            let ghost before = columns_of(arrays@);
            arrays.push(array);
            assert(columns_of(arrays@) =~= before.push(array@));
            assert forall|j: int| 0 <= j < arrays@.len() implies !((
            #[trigger] columns_of(arrays@)[j]).data_type() is Other) by {
                if j < i {
                    assert(columns_of(arrays@)[j] == before[j]);
                }
            }
            i += 1;
        }
        let arrow_schema = match arrow_fields_of(fields) {
            Ok(arrow_schema) => arrow_schema,
            Err(e) => {
                return Err(e);
            },
        };
        match ArrowBatch::from_columns(arrow_schema, arrays) {
            Ok(batch) => Ok(batch),
            Err(e) => Err(Error::Arrow(e)),
        }
    }

    /// Creates a batch of the given rows.
    ///
    /// A row that does not hold one scalar per field is reported first. A scalar that cannot stand
    /// in its column is reported with its row and field. Where columns do not fit their fields,
    /// Arrow's error says why.
    pub fn create_many(&self, schema: &Schema, rows: &[&[Scalar]]) -> (r: Result<ArrowBatch, Error>)
        requires
            table_fits(schema@, rows_view(rows@)),
        ensures
            is_batch_result(r, table_batch(schema@, rows_view(rows@))),
            table_tells(schema@, rows_view(rows@), r),
    {
        let ghost fs = schema@;
        let ghost table = rows_view(rows@);
        let arrow_schema = match arrow_fields_of(&schema.fields) {
            Ok(arrow_schema) => arrow_schema,
            Err(e) => {
                return Err(e);
            },
        };
        let ghost fields = fields_of(arrow_schema);
        proof {
            lemma_fields_view(schema.fields@);
            lemma_arrow_fields(fs, fs.len());
            assert forall|i: int| 0 <= i < fields.len() implies buildable(
                (#[trigger] fields[i]).data_type,
            ) by {
                lemma_arrow_type_buildable(fs[i].data_type, Some(fs[i]), fs[i].name);
            }
        }
        if rows.len() == 0 {
            return Ok(ArrowBatch::empty(arrow_schema));
        }
        let num_fields: usize = schema.fields.len();
        let mut row: usize = 0;
        while row < rows.len()
            invariant
                row <= rows.len(),
                table == rows_view(rows@),
                num_fields == fs.len(),
                fs == schema@,
                arrow_fields(fs, fs.len()) is Ok,
                table.len() > 0,
                forall|q: int| 0 <= q < row ==> (#[trigger] table[q]).len() == num_fields,
            decreases rows.len() - row,
        {
            let scalars: usize = rows[row].len();
            assert(table[row as int] == rows@[row as int]@);
            if scalars != num_fields {
                proof {
                    assert(first_odd_row(table, fs.len(), row as int));
                    let r = choose|r: int| first_odd_row(table, fs.len(), r);
                    assert(!(r < row));
                    assert(!(row < r));
                }
                return Err(Error::RowLength { row, scalars, fields: num_fields });
            }
            row += 1;
        }
        assert(is_table(table, fs.len()));
        let builders = match build_columns(schema, &list_fields(&arrow_schema), rows) {
            Ok(builders) => builders,
            Err(e) => {
                return Err(e);
            },
        };
        proof {
            lemma_table_finishable(fs, fields, table);
        }
        let arrays = finish_columns(builders);
        match ArrowBatch::from_columns(arrow_schema, arrays) {
            Ok(batch) => Ok(batch),
            Err(e) => Err(Error::Arrow(e)),
        }
    }
}

/// The columns of a table that fits can be finished, and have the types of their fields.
proof fn lemma_table_finishable(
    fs: Seq<FieldView>,
    fields: Seq<ArrowField>,
    rows: Seq<Seq<Scalar>>,
)
    requires
        table_fits(fs, rows),
        is_table(rows, fs.len()),
        arrow_fields(fs, fs.len()) == Ok::<Seq<ArrowField>, ErrorView>(fields),
        table_columns(fs, fields, rows, fs.len()) is Ok,
    ensures
        ({
            let columns = table_columns(fs, fields, rows, fs.len())->Ok_0;
            &&& columns.len() == fs.len()
            &&& forall|i: int|
                #![trigger columns[i]]
                0 <= i < fs.len() ==> {
                    &&& finishable(columns[i])
                    &&& columns[i].data_type() == fields[i].data_type
                    &&& !(columns[i].data_type() is Other)
                }
        }),
{
    let columns = table_columns(fs, fields, rows, fs.len())->Ok_0;
    lemma_arrow_fields(fs, fs.len());
    lemma_table_columns(fs, fields, rows, fs.len());
    assert forall|i: int| #![trigger columns[i]] 0 <= i < fs.len() implies {
        &&& finishable(columns[i])
        &&& columns[i].data_type() == fields[i].data_type
        &&& !(columns[i].data_type() is Other)
    } by {
        let t = fields[i].data_type;
        let scalars = column_scalars(rows, i);
        lemma_arrow_type_buildable(fs[i].data_type, Some(fs[i]), fs[i].name);
        lemma_new_builder(fs[i].data_type, Some(fs[i]), fs[i].name);
        assert(columns[i] == table_columns(fs, fields, rows, fs.len())->Ok_0[i]);
        assert(forall|r: int| 0 <= r < scalars.len() ==> admitted(#[trigger] scalars[r], t));
        lemma_column_finishable(t, scalars);
    }
}

/// Fills one builder per column of a table.
fn build_columns(schema: &Schema, column_fields: &Vec<Field>, rows: &[&[Scalar]]) -> (r: Result<
    Vec<ColumnBuilder>,
    Error,
>)
    requires
        rows@.len() > 0,
        is_table(rows_view(rows@), schema@.len()),
        table_fits(schema@, rows_view(rows@)),
        arrow_fields(schema@, schema@.len()) == Ok::<Seq<ArrowField>, ErrorView>(
            fields_seq(column_fields@),
        ),
    ensures
        match r {
            Ok(builders) => table_columns(
                schema@,
                fields_seq(column_fields@),
                rows_view(rows@),
                schema@.len(),
            ) == Ok::<Seq<Column>, ErrorView>(builders_of(builders@)),
            Err(e) => table_columns(
                schema@,
                fields_seq(column_fields@),
                rows_view(rows@),
                schema@.len(),
            ) == Err::<Seq<Column>, ErrorView>(e@),
        },
{
    let ghost fs = schema@;
    let ghost table = rows_view(rows@);
    let ghost fields = fields_seq(column_fields@);
    let num_fields: usize = schema.fields.len();
    let mut builders: Vec<ColumnBuilder> = Vec::new();
    let mut i: usize = 0;
    proof {
        lemma_fields_view(schema.fields@);
        lemma_arrow_fields(fs, fs.len());
        assert(builders_of(builders@) =~= seq![]);
    }
    while i < num_fields
        invariant
            i <= num_fields,
            fs == schema@,
            fs == fields_view(schema.fields@),
            fs.len() == schema.fields@.len(),
            num_fields == fs.len(),
            table == rows_view(rows@),
            is_table(table, fs.len()),
            table_fits(fs, table),
            fields == fields_seq(column_fields@),
            fields.len() == fs.len(),
            arrow_fields(fs, fs.len()) == Ok::<Seq<ArrowField>, ErrorView>(fields),
            builders@.len() == i,
            table_columns(fs, fields, table, i as nat) == Ok::<Seq<Column>, ErrorView>(
                builders_of(builders@),
            ),
        decreases num_fields - i,
    {
        proof {
            lemma_fields_view(schema.fields@);
            lemma_arrow_fields(fs, fs.len());
            assert(fields[i as int] == field_of(column_fields@[i as int]));
        }
        let builder = match build_column(
            &schema.fields[i],
            &column_fields[i],
            rows,
            i,
            num_fields,
        ) {
            Ok(builder) => builder,
            Err(e) => {
                proof {
                    lemma_table_columns_stop(fs, fields, table, (i + 1) as nat, fs.len());
                }
                return Err(e);
            },
        };
        let ghost before = builders_of(builders@);
        builders.push(builder);
        assert(builders_of(builders@) =~= before.push(builder@));
        i += 1;
    }
    Ok(builders)
}

pub open spec fn builders_of(builders: Seq<ColumnBuilder>) -> Seq<Column> {
    Seq::new(builders.len(), |i: int| builders[i]@)
}

/// Finishes all builders, in order.
fn finish_columns(builders: Vec<ColumnBuilder>) -> (r: Vec<ArrowArray>)
    requires
        forall|i: int| 0 <= i < builders@.len() ==> finishable(#[trigger] builders_of(builders@)[i]),
    ensures
        columns_of(r@) == builders_of(builders@),
{
    let ghost all = builders_of(builders@);
    let mut left = builders;
    let mut arrays: Vec<ArrowArray> = Vec::new();
    assert(columns_of(arrays@) =~= all.take(0));
    assert(builders_of(left@) =~= all.skip(0));
    while left.len() > 0
        invariant
            left@.len() <= all.len(),
            arrays@.len() == all.len() - left@.len(),
            forall|i: int| 0 <= i < all.len() ==> finishable(#[trigger] all[i]),
            columns_of(arrays@) == all.take(all.len() - left@.len()),
            builders_of(left@) == all.skip(all.len() - left@.len()),
        decreases left.len(),
    {
        let ghost k = all.len() - left@.len();
        let ghost before = left@;
        assert(all.skip(k)[0] == all[k]);
        assert(builders_of(left@)[0] == left@[0]@);
        let builder = left.remove(0);
        let array = builder.finish();
        let ghost done = columns_of(arrays@);
        arrays.push(array);
        assert(columns_of(arrays@) =~= done.push(array@));
        assert(all.take(k + 1) =~= all.take(k).push(all[k]));
        assert forall|i: int| 0 <= i < left@.len() implies #[trigger] builders_of(left@)[i]
            == all.skip(k + 1)[i] by {
            assert(left@[i] == before[i + 1]);
            assert(builders_of(before)[i + 1] == all.skip(k)[i + 1]);
        }
        assert(builders_of(left@) =~= all.skip(k + 1));
    }
    assert(all.take(all.len() as int) =~= all);
    arrays
}

/// The outcome of building one column of a table.
pub open spec fn column_result(f: FieldView, a: ArrowField, rows: Seq<Seq<Scalar>>, i: int) -> Result<
    Column,
    ErrorView,
> {
    match append_rows(empty_column(a.data_type), column_scalars(rows, i), rows.len()) {
        Ok(c) => Ok(c),
        Err((row, cause)) => Err(
            ErrorView::RowScalar {
                row,
                field: f.name,
                expected: f.data_type,
                actual: scalar_type(rows[row as int][i]),
                cause: Box::new(cause),
            },
        ),
    }
}

/// Fills a builder with column `i` of a table.
fn build_column(
    field: &StructField,
    arrow_field: &Field,
    rows: &[&[Scalar]],
    i: usize,
    width: usize,
) -> (r: Result<ColumnBuilder, Error>)
    requires
        i < width,
        is_table(rows_view(rows@), width as nat),
        rows@.len() <= max_slots(),
        arrow_type(field@.data_type, Some(field@), field@.name) == Ok::<ArrowType, ErrorView>(
            field_of(*arrow_field).data_type,
        ),
        within_limits(
            append_each(
                empty_column(field_of(*arrow_field).data_type),
                column_scalars(rows_view(rows@), i as int),
                rows@.len(),
            ).column,
        ),
    ensures
        match r {
            Ok(builder) => column_result(
                field@,
                field_of(*arrow_field),
                rows_view(rows@),
                i as int,
            ) == Ok::<Column, ErrorView>(builder@),
            Err(e) => column_result(field@, field_of(*arrow_field), rows_view(rows@), i as int)
                == Err::<Column, ErrorView>(e@),
        },
{
    let ghost table = rows_view(rows@);
    let ghost scalars = column_scalars(table, i as int);
    let ghost t = field_of(*arrow_field).data_type;
    let ghost empty = empty_column(t);
    proof {
        lemma_arrow_type_buildable(field@.data_type, Some(field@), field@.name);
        lemma_new_builder(field@.data_type, Some(field@), field@.name);
    }
    let mut builder = ColumnBuilder::new(&field_data_type(arrow_field), rows.len());
    let mut row: usize = 0;
    while row < rows.len()
        invariant
            row <= rows.len(),
            i < width,
            table == rows_view(rows@),
            is_table(table, width as nat),
            scalars == column_scalars(table, i as int),
            t == field_of(*arrow_field).data_type,
            empty == empty_column(t),
            sound_builder(empty),
            within_limits(append_each(empty, scalars, scalars.len()).column),
            append_rows(empty, scalars, row as nat) == Ok::<Column, (nat, ErrorView)>(builder@),
        decreases rows.len() - row,
    {
        proof {
            lemma_append_rows(empty, scalars, row as nat);
            lemma_append_each_grows(empty, scalars, row as nat);
            lemma_each_step(empty, scalars, (row + 1) as nat);
            assert(table[row as int].len() == width);
            assert(table[row as int] == rows@[row as int]@);
            assert(scalars[row as int] == rows@[row as int]@[i as int]);
        }
        match rows[row][i].append_to(&mut builder, 1) {
            Ok(()) => {},
            Err(e) => {
                proof {
                    lemma_append_rows_stop(empty, scalars, (row + 1) as nat, scalars.len());
                }
                return Err(
                    Error::RowScalar {
                        row,
                        field: field.name.clone(),
                        expected: field.data_type.clone(),
                        actual: rows[row][i].data_type(),
                        cause: Box::new(e),
                    },
                );
            },
        }
        row += 1;
    }
    Ok(builder)
}

/// What the first `k` columns of a table are.
pub proof fn lemma_table_columns(
    fs: Seq<FieldView>,
    fields: Seq<ArrowField>,
    rows: Seq<Seq<Scalar>>,
    k: nat,
)
    requires
        k <= fs.len(),
        table_columns(fs, fields, rows, k) is Ok,
    ensures
        table_columns(fs, fields, rows, k)->Ok_0.len() == k,
        forall|i: int|
            #![trigger table_columns(fs, fields, rows, k)->Ok_0[i]]
            0 <= i < k ==> append_rows(
                empty_column(fields[i].data_type),
                column_scalars(rows, i),
                rows.len(),
            ) == Ok::<Column, (nat, ErrorView)>(table_columns(fs, fields, rows, k)->Ok_0[i]),
    decreases k,
{
    if k > 0 {
        lemma_table_columns(fs, fields, rows, (k - 1) as nat);
    }
}

/// A batch of rows has the fields of the schema and the rows that were given, and each of them says
/// in each field what its scalar says.
pub proof fn law_create_many_rows(fs: Seq<FieldView>, rows: Seq<Seq<Scalar>>)
    requires
        table_fits(fs, rows),
        table_batch(fs, rows) is Ok,
    ensures
        ({
            let b = table_batch(fs, rows)->Ok_0;
            &&& arrow_fields(fs, fs.len()) == Ok::<Seq<ArrowField>, ErrorView>(b.fields)
            &&& b.columns.len() == fs.len()
            &&& b.rows == rows.len()
            &&& forall|i: int, r: int|
                #![trigger rows[r][i]]
                0 <= i < fs.len() && 0 <= r < rows.len() ==> row(b.columns[i], r) == value(
                    rows[r][i],
                )
        }),
{
    let b = table_batch(fs, rows)->Ok_0;
    let fields = arrow_fields(fs, fs.len())->Ok_0;
    lemma_arrow_fields(fs, fs.len());
    if rows.len() > 0 {
        if !is_table(rows, fs.len()) {
            assert(false);
        }
        lemma_table_columns(fs, fields, rows, fs.len());
        assert forall|i: int| 0 <= i < fs.len() implies column_says(
            #[trigger] b.columns[i],
            column_scalars(rows, i),
        ) by {
            assert(b.columns[i] == table_columns(fs, fields, rows, fs.len())->Ok_0[i]);
            lemma_new_builder(fs[i].data_type, Some(fs[i]), fs[i].name);
            assert(fields[i].data_type == arrow_type(
                fs[i].data_type,
                Some(fs[i]),
                fs[i].name,
            )->Ok_0);
            lemma_column_says(fields[i].data_type, column_scalars(rows, i));
        }
        assert forall|i: int, r: int|
            #![trigger rows[r][i]]
            0 <= i < fs.len() && 0 <= r < rows.len() implies row(b.columns[i], r) == value(
            rows[r][i],
        ) by {
            assert(column_says(b.columns[i], column_scalars(rows, i)));
            assert(column_scalars(rows, i)[r] == rows[r][i]);
        }
        assert(batch_accepts(b.fields, b.columns));
        assert(column_says(b.columns[0], column_scalars(rows, 0)));
    }
}

/// Whether a column has one row per scalar, and each says what its scalar says.
pub open spec fn column_says(c: Column, scalars: Seq<Scalar>) -> bool {
    &&& c.len() == scalars.len()
    &&& forall|r: int|
        0 <= r < scalars.len() ==> row(c, r) == value(#[trigger] scalars[r])
}

/// The column that scalars make of a new builder says what they say.
pub proof fn lemma_column_says(t: ArrowType, scalars: Seq<Scalar>)
    requires
        is_new_builder(empty_column(t), t),
        forall|r: int| 0 <= r < scalars.len() ==> admitted(#[trigger] scalars[r], t),
        append_rows(empty_column(t), scalars, scalars.len()) is Ok,
    ensures
        column_says(append_rows(empty_column(t), scalars, scalars.len())->Ok_0, scalars),
        append_rows(empty_column(t), scalars, scalars.len())->Ok_0.data_type() == t,
{
    let empty = empty_column(t);
    lemma_column_finishable(t, scalars);
    lemma_append_rows(empty, scalars, scalars.len());
    lemma_append_each_values(empty, scalars, scalars.len());
    let c = append_rows(empty, scalars, scalars.len())->Ok_0;
    assert forall|r: int| 0 <= r < scalars.len() implies row(c, r) == value(
        #[trigger] scalars[r],
    ) by {
        assert(empty.len() + r == r);
    }
}

} // verus!

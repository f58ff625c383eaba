//! What is promised of tables of scalars, and of which scalars can stand in which columns.
use crate::append::{append, append_each};
use crate::apply_schema::is_batch_result;
use crate::arrow_arrays::ArrowBatch;
use crate::conversion::{arrow_fields, lemma_arrow_fields};
use crate::error::{Error, ErrorView};
use crate::growth::{lemma_append_each_grows, sound_builder};
use crate::handler::{
    append_rows, column_scalars, first_odd_row, is_table, lemma_append_rows, table_batch,
    table_columns,
};
use crate::model::{empty_column, new_column, new_columns, ArrowField, ArrowType, Column, TimeUnit};
use crate::scalars::{scalar_type, Scalar};
use crate::schema::FieldView;
use crate::to_array::lemma_new_builder;
use vstd::prelude::*;

verus! {

/// The first row that does not have one scalar for each field is reported, with its position, its
/// number of scalars and the number of fields, whatever the rows hold.
pub proof fn law_odd_row(
    fs: Seq<FieldView>,
    rows: Seq<Seq<Scalar>>,
    q: int,
    r: Result<ArrowBatch, Error>,
)
    requires
        is_batch_result(r, table_batch(fs, rows)),
        arrow_fields(fs, fs.len()) is Ok,
        0 <= q < rows.len(),
        rows[q].len() != fs.len(),
        forall|p: int| 0 <= p < q ==> (#[trigger] rows[p]).len() == fs.len(),
    ensures
        r is Err,
        r->Err_0@ == (ErrorView::RowLength {
            row: q as nat,
            scalars: rows[q].len(),
            fields: fs.len(),
        }),
{
    assert(first_odd_row(rows, fs.len(), q));
    let p = choose|p: int| first_odd_row(rows, fs.len(), p);
    if p < q {
        assert(rows[p].len() == fs.len());
    } else if q < p {
        assert(rows[q].len() == fs.len());
    }
}

/// A table without rows is a batch without rows, with one column of the Arrow type of each field.
pub proof fn law_empty_table(fs: Seq<FieldView>, r: Result<ArrowBatch, Error>)
    requires
        is_batch_result(r, table_batch(fs, seq![])),
    ensures
        match arrow_fields(fs, fs.len()) {
            Ok(fields) => {
                &&& r is Ok
                &&& r->Ok_0@.rows == 0
                &&& r->Ok_0@.fields == fields
                &&& r->Ok_0@.columns.len() == fs.len()
                &&& forall|i: int|
                    #![trigger r->Ok_0@.columns[i]]
                    0 <= i < fs.len() ==> {
                        &&& r->Ok_0@.columns[i].len() == 0
                        &&& r->Ok_0@.columns[i].data_type() == fields[i].data_type
                    }
            },
            Err(e) => r is Err && r->Err_0@ == e,
        },
{
    if arrow_fields(fs, fs.len()) is Ok {
        lemma_arrow_fields(fs, fs.len());
        let fields = arrow_fields(fs, fs.len())->Ok_0;
        assert forall|i: int| 0 <= i < fs.len() implies {
            &&& (#[trigger] new_columns(fields)[i]).len() == 0
            &&& new_columns(fields)[i].data_type() == fields[i].data_type
        } by {
            lemma_new_column(fields[i].data_type);
        }
    }
}

proof fn lemma_new_column(t: ArrowType)
    ensures
        new_column(t).len() == 0,
        new_column(t).data_type() == t,
{
}

/// Whether an error names the scalar in row `q` of column `i` and why it cannot be appended, all
/// scalars above it having been.
pub open spec fn names_scalar(
    e: ErrorView,
    fs: Seq<FieldView>,
    fields: Seq<ArrowField>,
    rows: Seq<Seq<Scalar>>,
    i: int,
    q: int,
) -> bool {
    let above = append_each(
        empty_column(fields[i].data_type),
        column_scalars(rows, i),
        q as nat,
    );
    let own = append(above.column, rows[q][i], 1);
    &&& 0 <= i < fs.len()
    &&& 0 <= q < rows.len()
    &&& above.error is None
    &&& own.error is Some
    &&& e == (ErrorView::RowScalar {
        row: q as nat,
        field: fs[i].name,
        expected: fs[i].data_type,
        actual: scalar_type(rows[q][i]),
        cause: Box::new(own.error->Some_0),
    })
}

/// Whether all scalars of a column can be appended.
pub open spec fn column_passes(
    fields: Seq<ArrowField>,
    rows: Seq<Seq<Scalar>>,
    i: int,
) -> bool {
    append_each(
        empty_column(fields[i].data_type),
        column_scalars(rows, i),
        rows.len(),
    ).error is None
}

proof fn lemma_append_rows_error(c: Column, scalars: Seq<Scalar>, k: nat)
    requires
        k <= scalars.len(),
    ensures
        append_rows(c, scalars, k) matches Err((q, cause)) ==> {
            let above = append_each(c, scalars, q);
            &&& q < k
            &&& above.error is None
            &&& append(above.column, scalars[q as int], 1).error == Some(cause)
        },
    decreases k,
{
    if k > 0 {
        lemma_append_rows_error(c, scalars, (k - 1) as nat);
        lemma_append_rows(c, scalars, (k - 1) as nat);
    }
}

proof fn lemma_table_error(
    fs: Seq<FieldView>,
    fields: Seq<ArrowField>,
    rows: Seq<Seq<Scalar>>,
    k: nat,
)
    requires
        k <= fs.len(),
    ensures
        table_columns(fs, fields, rows, k) matches Err(e) ==> exists|i: int, q: int|
            i < k && #[trigger] names_scalar(e, fs, fields, rows, i, q) && (forall|j: int|
                0 <= j < i ==> #[trigger] column_passes(fields, rows, j)),
        table_columns(fs, fields, rows, k) is Ok ==> forall|j: int|
            0 <= j < k ==> #[trigger] column_passes(fields, rows, j),
    decreases k,
{
    if k > 0 {
        lemma_table_error(fs, fields, rows, (k - 1) as nat);
        let i = k - 1;
        let empty = empty_column(fields[i].data_type);
        let scalars = column_scalars(rows, i);
        lemma_append_rows_error(empty, scalars, rows.len());
        lemma_append_rows(empty, scalars, rows.len());
        if table_columns(fs, fields, rows, (k - 1) as nat) is Ok {
            if let Err((q, cause)) = append_rows(empty, scalars, rows.len()) {
                let e = table_columns(fs, fields, rows, k)->Err_0;
                assert(scalars[q as int] == rows[q as int][i]);
                assert(names_scalar(e, fs, fields, rows, i, q as int));
            }
        }
    }
}

/// Where a scalar of a table cannot stand in its column, it is named: the first from the top in the
/// first such column from the left. Where there is none, the columns are built.
pub proof fn law_bad_scalar(
    fs: Seq<FieldView>,
    rows: Seq<Seq<Scalar>>,
    r: Result<ArrowBatch, Error>,
)
    requires
        is_batch_result(r, table_batch(fs, rows)),
        arrow_fields(fs, fs.len()) is Ok,
        rows.len() > 0,
        is_table(rows, fs.len()),
    ensures
        ({
            let fields = arrow_fields(fs, fs.len())->Ok_0;
            if forall|j: int| 0 <= j < fs.len() ==> #[trigger] column_passes(fields, rows, j) {
                r is Ok || r->Err_0@ == ErrorView::Arrow
            } else {
                &&& r is Err
                &&& exists|i: int, q: int| #[trigger]
                    names_scalar(r->Err_0@, fs, fields, rows, i, q) && (forall|j: int|
                        0 <= j < i ==> #[trigger] column_passes(fields, rows, j))
            }
        }),
{
    let fields = arrow_fields(fs, fs.len())->Ok_0;
    lemma_table_error(fs, fields, rows, fs.len());
    if let Err(e) = table_columns(fs, fields, rows, fs.len()) {
        let (i, q) = choose|i: int, q: int|
            i < fs.len() && #[trigger] names_scalar(e, fs, fields, rows, i, q) && (forall|j: int|
                0 <= j < i ==> #[trigger] column_passes(fields, rows, j));
        lemma_failing_column(fields, rows, i, q);
    }
}

proof fn lemma_failing_column(
    fields: Seq<ArrowField>,
    rows: Seq<Seq<Scalar>>,
    i: int,
    q: int,
)
    requires
        0 <= q < rows.len(),
        ({
            let c = empty_column(fields[i].data_type);
            let above = append_each(c, column_scalars(rows, i), q as nat);
            above.error is None && append(above.column, rows[q][i], 1).error is Some
        }),
    ensures
        !column_passes(fields, rows, i),
{
    let c = empty_column(fields[i].data_type);
    let scalars = column_scalars(rows, i);
    assert(scalars[q] == rows[q][i]);
    assert(append_each(c, scalars, (q + 1) as nat).error is Some);
    lemma_failing_stays(c, scalars, (q + 1) as nat, rows.len());
}

proof fn lemma_failing_stays(c: Column, scalars: Seq<Scalar>, j: nat, k: nat)
    requires
        j <= k <= scalars.len(),
        append_each(c, scalars, j).error is Some,
    ensures
        append_each(c, scalars, k).error is Some,
    decreases k,
{
    if j < k {
        lemma_failing_stays(c, scalars, j, (k - 1) as nat);
    }
}

/// Whether a scalar without parts is of the kind of an Arrow type. The time zone of timestamps and
/// the precision and scale of decimals do not matter, but the unit of timestamps does.
pub open spec fn is_kind_of(s: Scalar, t: ArrowType) -> bool {
    match s {
        Scalar::Integer(_) => t is Int32,
        Scalar::Long(_) => t is Int64,
        Scalar::Short(_) => t is Int16,
        Scalar::Byte(_) => t is Int8,
        Scalar::Float(_) => t is Float32,
        Scalar::Double(_) => t is Float64,
        Scalar::String(_) => t is Utf8,
        Scalar::Boolean(_) => t is Boolean,
        Scalar::Timestamp(_) => t matches ArrowType::Timestamp(unit, _) && unit
            == TimeUnit::Microsecond,
        Scalar::TimestampNtz(_) => t matches ArrowType::Timestamp(unit, _) && unit
            == TimeUnit::Microsecond,
        Scalar::TimestampNanos(_) => t matches ArrowType::Timestamp(unit, _) && unit
            == TimeUnit::Nanosecond,
        Scalar::Date(_) => t is Date32,
        Scalar::Binary(_) => t is Binary,
        Scalar::Decimal(_) => t is Decimal128,
        Scalar::Struct(_) => t is Struct,
        Scalar::Array(_) => t is List,
        Scalar::MapOf(_) => t is MapOf,
        Scalar::Null(_) => true,
    }
}

/// A scalar goes only to a builder of its kind. To one of another kind nothing is appended, and the
/// type of the scalar is reported. A scalar without parts goes to every builder of its kind.
pub proof fn law_builder_kinds(c: Column, s: Scalar, n: nat)
    requires
        sound_builder(c),
        !(s is Null),
    ensures
        !is_kind_of(s, c.data_type()) ==> append(c, s, n).column == c && append(c, s, n).error
            == Some(ErrorView::InvalidBuilder(scalar_type(s))),
        is_kind_of(s, c.data_type()) && !(s is Struct || s is Array || s is MapOf) ==> append(
            c,
            s,
            n,
        ).error is None,
{
}

/// A scalar of another kind than its column is refused.
pub proof fn law_wrong_kind(
    fs: Seq<FieldView>,
    rows: Seq<Seq<Scalar>>,
    i: int,
    q: int,
    r: Result<ArrowBatch, Error>,
)
    requires
        is_batch_result(r, table_batch(fs, rows)),
        arrow_fields(fs, fs.len()) is Ok,
        is_table(rows, fs.len()),
        0 <= i < fs.len(),
        0 <= q < rows.len(),
        !(rows[q][i] is Null),
        !is_kind_of(rows[q][i], arrow_fields(fs, fs.len())->Ok_0[i].data_type),
    ensures
        r is Err,
{
    let fields = arrow_fields(fs, fs.len())->Ok_0;
    let empty = empty_column(fields[i].data_type);
    let scalars = column_scalars(rows, i);
    lemma_arrow_fields(fs, fs.len());
    lemma_table_error(fs, fields, rows, fs.len());
    lemma_new_builder(fs[i].data_type, Some(fs[i]), fs[i].name);
    let above = append_each(empty, scalars, q as nat);
    lemma_append_each_grows(empty, scalars, q as nat);
    assert(scalars[q] == rows[q][i]);
    if above.error is None {
        law_builder_kinds(above.column, rows[q][i], 1);
        lemma_failing_column(fields, rows, i, q);
    } else {
        lemma_failing_stays(empty, scalars, q as nat, rows.len());
    }
}

} // verus!

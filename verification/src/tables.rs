//! When rows of scalars become record batches.
use crate::append::{append_each, append_null, append_null_fields};
use crate::arrow_arrays::{first_stray_null, holds_stray_null, stray_null_text, ArrowBatch};
use crate::building::{
    admitted, lemma_append_each_finishable, lemma_append_null_finishable, lemma_append_null_rows,
};
use crate::conversion::{arrow_fields, arrow_type, lemma_arrow_fields, lemma_arrow_type_buildable};
use crate::create_one::{all_writable, are_values};
use crate::error::{Error, ErrorView};
use crate::growth::lemma_append_each_grows;
use crate::handler::{
    append_rows, column_scalars, is_refused, is_table, lemma_append_rows, lemma_column_says,
    lemma_table_columns, null_columns, null_row_batch, null_row_tells, table_batch, table_columns,
    table_fits, table_tells,
};
use crate::model::{batch_accepts, empty_column, within_limits, ArrowField, ArrowType, Column};
use crate::rows::{lemma_append_error, lemma_append_null_error, row, value, writable_null};
use crate::scalars::{scalar_type, well_typed, Scalar};
use crate::schema::{FieldView, PrimitiveType, TypeView};
use crate::sizes::{lemma_small_column_fits, small, weights};
use crate::to_array::{lemma_new_builder, lemma_well_typed_admitted};
use vstd::prelude::*;

verus! {

/// Whether a scalar has no parts, is of another kind than the type `t`, or a struct with another
/// number of fields.
pub open spec fn is_misshapen(s: Scalar, t: TypeView) -> bool {
    match (s, t) {
        (Scalar::Struct(d), TypeView::Struct(fs)) => d.fields@.len() != fs.len(),
        (Scalar::Struct(d), TypeView::Variant(fs)) => d.fields@.len() != fs.len(),
        (Scalar::Array(_), TypeView::Array(_, _)) => false,
        (Scalar::MapOf(_), TypeView::MapOf(_, _, _)) => false,
        _ => true,
    }
}

proof fn lemma_misshapen_admitted(s: Scalar, t: TypeView, ancestor: Option<FieldView>, path: Seq<char>)
    requires
        is_misshapen(s, t),
        arrow_type(t, ancestor, path) is Ok,
    ensures
        admitted(s, arrow_type(t, ancestor, path)->Ok_0),
{
    match t {
        TypeView::Struct(fs) => {
            lemma_arrow_fields(fs, fs.len());
        },
        TypeView::Variant(fs) => {
            lemma_arrow_fields(fs, fs.len());
        },
        _ => {},
    }
}

/// A table can be asked for where its scalars have no parts, are well-typed values of their fields,
/// or have another shape, which is reported, and where those of one field take no more together than
/// any column can hold.
pub proof fn law_small_tables_fit(fs: Seq<FieldView>, rows: Seq<Seq<Scalar>>)
    requires
        rows.len() <= small(),
        is_table(rows, fs.len()) ==> forall|i: int, r: int|
            #![trigger rows[r][i]]
            0 <= i < fs.len() && 0 <= r < rows.len() ==> {
                ||| well_typed(rows[r][i]) && scalar_type(rows[r][i]) == fs[i].data_type
                ||| is_misshapen(rows[r][i], fs[i].data_type)
            },
        is_table(rows, fs.len()) ==> forall|i: int|
            0 <= i < fs.len() ==> weights(#[trigger] column_scalars(rows, i), rows.len())
                <= small(),
    ensures
        table_fits(fs, rows),
{
    if is_table(rows, fs.len()) && arrow_fields(fs, fs.len()) is Ok {
        let fields = arrow_fields(fs, fs.len())->Ok_0;
        lemma_arrow_fields(fs, fs.len());
        assert forall|i: int|
            #![trigger fields[i]]
            0 <= i < fs.len() implies within_limits(
            append_each(
                empty_column(fields[i].data_type),
                column_scalars(rows, i),
                rows.len(),
            ).column,
        ) by {
            lemma_arrow_type_buildable(fs[i].data_type, Some(fs[i]), fs[i].name);
            lemma_small_column_fits(fields[i].data_type, column_scalars(rows, i));
        }
        assert forall|i: int, r: int|
            #![trigger column_scalars(rows, i)[r]]
            0 <= i < fs.len() && 0 <= r < rows.len() implies admitted(
            column_scalars(rows, i)[r],
            fields[i].data_type,
        ) by {
            let s = column_scalars(rows, i)[r];
            assert(s == rows[r][i]);
            if is_misshapen(s, fs[i].data_type) {
                lemma_misshapen_admitted(s, fs[i].data_type, Some(fs[i]), fs[i].name);
            } else {
                lemma_well_typed_admitted(s, Some(fs[i]), fs[i].name);
            }
        }
    }
}

/// Values of the type of a column can be appended to it, all of them.
proof fn lemma_values_appended(t: ArrowType, f: FieldView, scalars: Seq<Scalar>, k: nat)
    requires
        arrow_type(f.data_type, Some(f), f.name) == Ok::<ArrowType, ErrorView>(t),
        forall|r: int|
            #![trigger scalars[r]]
            0 <= r < scalars.len() ==> well_typed(scalars[r]) && scalar_type(scalars[r])
                == f.data_type && admitted(scalars[r], t),
        all_writable(scalars),
        k <= scalars.len(),
    ensures
        append_rows(empty_column(t), scalars, k) is Ok,
    decreases k,
{
    if k > 0 {
        let empty = empty_column(t);
        lemma_values_appended(t, f, scalars, (k - 1) as nat);
        lemma_new_builder(f.data_type, Some(f), f.name);
        lemma_append_rows(empty, scalars, (k - 1) as nat);
        lemma_append_each_finishable(empty, scalars, (k - 1) as nat, true);
        lemma_append_each_grows(empty, scalars, (k - 1) as nat);
        let c = append_rows(empty, scalars, (k - 1) as nat)->Ok_0;
        lemma_append_error(c, scalars[k - 1], 1, Some(f), f.name);
    }
}

proof fn lemma_columns_appended(
    fs: Seq<FieldView>,
    fields: Seq<ArrowField>,
    rows: Seq<Seq<Scalar>>,
    k: nat,
)
    requires
        arrow_fields(fs, fs.len()) == Ok::<Seq<ArrowField>, ErrorView>(fields),
        forall|r: int|
            #![trigger rows[r]]
            0 <= r < rows.len() ==> are_values(fs, rows[r]) && all_writable(rows[r]),
        k <= fs.len(),
    ensures
        table_columns(fs, fields, rows, k) is Ok,
    decreases k,
{
    if k > 0 {
        let i = k - 1;
        let f = fs[i];
        let column = column_scalars(rows, i);
        lemma_columns_appended(fs, fields, rows, (k - 1) as nat);
        lemma_arrow_fields(fs, fs.len());
        let t = fields[i].data_type;
        assert forall|r: int| #![trigger column[r]] 0 <= r < column.len() implies well_typed(
            column[r],
        ) && scalar_type(column[r]) == f.data_type && admitted(column[r], t)
            && crate::rows::writable(column[r]) by {
            assert(column[r] == rows[r][i]);
            lemma_well_typed_admitted(rows[r][i], Some(f), f.name);
        }
        lemma_values_appended(t, f, column, column.len());
    }
}

/// Rows of well-typed values become a batch, unless the schema has no fields or does not convert, a
/// value is null in a field that is never null, or a null variant is among them.
pub proof fn law_create_many_succeeds(fs: Seq<FieldView>, rows: Seq<Seq<Scalar>>)
    requires
        arrow_fields(fs, fs.len()) is Ok,
        fs.len() > 0,
        forall|r: int|
            #![trigger rows[r]]
            0 <= r < rows.len() ==> are_values(fs, rows[r]) && all_writable(rows[r]),
        forall|i: int, r: int|
            #![trigger rows[r][i]]
            0 <= i < fs.len() && 0 <= r < rows.len() ==> fs[i].nullable || !(rows[r][i] is Null),
    ensures
        table_batch(fs, rows) is Ok,
{
    let fields = arrow_fields(fs, fs.len())->Ok_0;
    assert(is_table(rows, fs.len()));
    if rows.len() > 0 {
        lemma_arrow_fields(fs, fs.len());
        lemma_columns_appended(fs, fields, rows, fs.len());
        lemma_table_columns(fs, fields, rows, fs.len());
        let columns = table_columns(fs, fields, rows, fs.len())->Ok_0;
        assert forall|i: int| 0 <= i < fs.len() implies {
            &&& (#[trigger] columns[i]).len() == rows.len()
            &&& columns[i].data_type() == fields[i].data_type
            &&& fields[i].nullable || !columns[i].has_null()
        } by {
            let column = column_scalars(rows, i);
            let t = fields[i].data_type;
            assert(columns[i] == table_columns(fs, fields, rows, fs.len())->Ok_0[i]);
            lemma_new_builder(fs[i].data_type, Some(fs[i]), fs[i].name);
            assert forall|r: int| 0 <= r < column.len() implies admitted(
                #[trigger] column[r],
                t,
            ) by {
                assert(column[r] == rows[r][i]);
                assert(are_values(fs, rows[r]));
                lemma_well_typed_admitted(rows[r][i], Some(fs[i]), fs[i].name);
            }
            lemma_column_says(t, column);
            if !fields[i].nullable && columns[i].has_null() {
                let r = choose|r: int|
                    0 <= r < columns[i].len() && #[trigger] columns[i].is_null(r);
                assert(row(columns[i], r) == value(column[r]));
                assert(column[r] == rows[r][i]);
            }
        }
        assert(batch_accepts(fields, columns));
    }
}

/// What the first `k` columns of a row of nulls are.
proof fn lemma_null_columns(fs: Seq<FieldView>, k: nat)
    requires
        k <= fs.len(),
        null_columns(fs, k) is Ok,
    ensures
        null_columns(fs, k)->Ok_0.len() == k,
        forall|i: int|
            #![trigger null_columns(fs, k)->Ok_0[i]]
            0 <= i < k ==> {
                let c = null_columns(fs, k)->Ok_0[i];
                &&& c.len() == 1
                &&& c.is_null(0)
                &&& arrow_type(fs[i].data_type, None, ""@) == Ok::<ArrowType, ErrorView>(
                    c.data_type(),
                )
            },
    decreases k,
{
    if k > 0 {
        lemma_null_columns(fs, (k - 1) as nat);
        let t = fs[k - 1].data_type;
        let c = empty_column(arrow_type(t, None, ""@)->Ok_0);
        lemma_new_builder(t, None, ""@);
        lemma_append_null_rows(c, t, 1);
        lemma_append_null_finishable(c, t, 1);
        assert(append_null(c, t, 1).column.is_null(0));
    }
}

proof fn lemma_null_columns_made(fs: Seq<FieldView>, k: nat)
    requires
        k <= fs.len(),
        forall|i: int|
            #![trigger fs[i]]
            0 <= i < fs.len() ==> arrow_type(fs[i].data_type, None, ""@) is Ok && writable_null(
                fs[i].data_type,
            ),
    ensures
        null_columns(fs, k) is Ok,
    decreases k,
{
    if k > 0 {
        lemma_null_columns_made(fs, (k - 1) as nat);
        let t = fs[k - 1].data_type;
        lemma_new_builder(t, None, ""@);
        lemma_append_null_error(
            empty_column(arrow_type(t, None, ""@)->Ok_0),
            t,
            1,
            None,
            ""@,
        );
    }
}

/// Whether a column under the field cannot hold a null: the field is never null, and not of the null
/// type, whose nulls need no null buffer.
pub open spec fn is_required(f: FieldView) -> bool {
    !f.nullable && f.data_type != TypeView::Primitive(PrimitiveType::Void)
}

/// Whether a field can be null, null rows of its type can be written, and they are of the type that
/// the Arrow field declares, which has the field ids of fields inside lists and maps.
pub open spec fn admits_null_row(f: FieldView) -> bool {
    &&& !is_required(f)
    &&& writable_null(f.data_type)
    &&& arrow_type(f.data_type, None, ""@) == arrow_type(f.data_type, Some(f), f.name)
}

/// A row of nulls has one row under the fields of the schema, and every column is null in it: a
/// struct as a whole. There is one exactly where there are fields and each of them has an Arrow
/// field, may be null or is of the null type, holds no variant where a null struct has rows, and has
/// the same Arrow type with and without field ids inside its lists and maps.
pub proof fn law_null_row(fs: Seq<FieldView>)
    ensures
        null_row_batch(fs) matches Ok(b) ==> {
            &&& arrow_fields(fs, fs.len()) == Ok::<Seq<ArrowField>, ErrorView>(b.fields)
            &&& b.rows == 1
            &&& b.columns.len() == fs.len()
            &&& forall|i: int|
                0 <= i < fs.len() ==> (#[trigger] b.columns[i]).len() == 1 && b.columns[i].is_null(
                    0,
                )
        },
        null_row_batch(fs) is Ok <==> {
            &&& fs.len() > 0
            &&& arrow_fields(fs, fs.len()) is Ok
            &&& forall|i: int| 0 <= i < fs.len() ==> admits_null_row(#[trigger] fs[i])
        },
{
    if arrow_fields(fs, fs.len()) is Ok {
        lemma_arrow_fields(fs, fs.len());
        let fields = arrow_fields(fs, fs.len())->Ok_0;
        if null_columns(fs, fs.len()) is Ok {
            lemma_null_row_columns(fs);
            let columns = null_columns(fs, fs.len())->Ok_0;
            if null_row_batch(fs) is Ok {
                lemma_null_columns_written(fs, fs.len());
                assert forall|i: int| 0 <= i < fs.len() implies admits_null_row(
                    #[trigger] fs[i],
                ) by {
                    assert(fields[i].nullable || !columns[i].has_stored_null());
                    assert(columns[i].data_type() == fields[i].data_type);
                }
            }
            if fs.len() > 0 && forall|i: int|
                0 <= i < fs.len() ==> admits_null_row(#[trigger] fs[i]) {
                assert forall|i: int| 0 <= i < fs.len() implies {
                    &&& (#[trigger] columns[i]).data_type() == fields[i].data_type
                    &&& fields[i].nullable || !columns[i].has_stored_null()
                } by {
                    assert(admits_null_row(fs[i]));
                }
                assert(batch_accepts(fields, columns));
            }
        } else if forall|i: int| 0 <= i < fs.len() ==> admits_null_row(#[trigger] fs[i]) {
            assert forall|i: int| #![trigger fs[i]] 0 <= i < fs.len() implies arrow_type(
                fs[i].data_type,
                None,
                ""@,
            ) is Ok && writable_null(fs[i].data_type) by {
                assert(fields[i].name == fs[i].name);
                assert(admits_null_row(fs[i]));
            }
            lemma_null_columns_made(fs, fs.len());
        }
    }
}

/// Where null rows of a type were written, they can be.
proof fn lemma_null_written(c: Column, t: TypeView, n: nat)
    requires
        append_null(c, t, n).error is None,
    ensures
        writable_null(t),
    decreases t, 0nat,
{
    if let TypeView::Struct(fs) = t {
        lemma_null_fields_written(c, fs, fs.len(), n);
    }
}

proof fn lemma_null_fields_written(c: Column, fs: Seq<FieldView>, k: nat, n: nat)
    requires
        k <= fs.len(),
        append_null_fields(c, fs, k, n).error is None,
    ensures
        forall|i: int| 0 <= i < k ==> writable_null((#[trigger] fs[i]).data_type),
    decreases fs, k,
{
    if k > 0 {
        lemma_null_fields_written(c, fs, (k - 1) as nat, n);
        let before = append_null_fields(c, fs, (k - 1) as nat, n).column;
        lemma_null_written(before->Struct_columns[k - 1], fs[k - 1].data_type, n);
    }
}

proof fn lemma_null_columns_written(fs: Seq<FieldView>, k: nat)
    requires
        k <= fs.len(),
        null_columns(fs, k) is Ok,
    ensures
        forall|i: int| 0 <= i < k ==> writable_null((#[trigger] fs[i]).data_type),
    decreases k,
{
    if k > 0 {
        lemma_null_columns_written(fs, (k - 1) as nat);
        let t = fs[k - 1].data_type;
        lemma_null_written(empty_column(arrow_type(t, None, ""@)->Ok_0), t, 1);
    }
}

/// Which columns of a row of nulls hold a null that their fields do not admit.
proof fn lemma_null_row_columns(fs: Seq<FieldView>)
    requires
        null_columns(fs, fs.len()) is Ok,
        arrow_fields(fs, fs.len()) is Ok,
    ensures
        ({
            let columns = null_columns(fs, fs.len())->Ok_0;
            let fields = arrow_fields(fs, fs.len())->Ok_0;
            &&& columns.len() == fs.len()
            &&& fields.len() == fs.len()
            &&& forall|i: int|
                #![trigger columns[i]]
                0 <= i < fs.len() ==> {
                    &&& columns[i].len() == 1
                    &&& columns[i].is_null(0)
                    &&& !(columns[i].data_type() is Other)
                    &&& arrow_type(fs[i].data_type, None, ""@) == Ok::<ArrowType, ErrorView>(
                        columns[i].data_type(),
                    )
                    &&& fields[i].name == fs[i].name
                    &&& holds_stray_null(fields[i], columns[i]) == is_required(fs[i])
                }
        }),
{
    let columns = null_columns(fs, fs.len())->Ok_0;
    let fields = arrow_fields(fs, fs.len())->Ok_0;
    lemma_arrow_fields(fs, fs.len());
    lemma_null_columns(fs, fs.len());
    assert forall|i: int| #![trigger columns[i]] 0 <= i < fs.len() implies {
        &&& columns[i].len() == 1
        &&& columns[i].is_null(0)
        &&& !(columns[i].data_type() is Other)
        &&& arrow_type(fs[i].data_type, None, ""@) == Ok::<ArrowType, ErrorView>(
            columns[i].data_type(),
        )
        &&& fields[i].name == fs[i].name
        &&& holds_stray_null(fields[i], columns[i]) == is_required(fs[i])
    } by {
        assert(columns[i] == null_columns(fs, fs.len())->Ok_0[i]);
        assert(fields[i] == arrow_fields(fs, fs.len())->Ok_0[i]);
        lemma_arrow_type_buildable(fs[i].data_type, None, ""@);
        lemma_null_type(fs[i].data_type, None, ""@);
    }
}

/// Only the kernel's null type has the Arrow type of nulls.
pub proof fn lemma_null_type(t: TypeView, ancestor: Option<FieldView>, path: Seq<char>)
    ensures
        arrow_type(t, ancestor, path) == Ok::<ArrowType, ErrorView>(ArrowType::Null) <==> t
            == TypeView::Primitive(PrimitiveType::Void),
{
}

/// A row of nulls is refused for the first field that is never null, by its name.
pub proof fn law_null_row_refused(fs: Seq<FieldView>, i: int, r: Result<ArrowBatch, Error>)
    requires
        null_row_tells(fs, r),
        null_columns(fs, fs.len()) is Ok,
        arrow_fields(fs, fs.len()) is Ok,
        0 <= i < fs.len(),
        is_required(fs[i]),
        forall|j: int| 0 <= j < i ==> !is_required(#[trigger] fs[j]),
    ensures
        is_refused(r, stray_null_text(fs[i].name)),
{
    let columns = null_columns(fs, fs.len())->Ok_0;
    let fields = arrow_fields(fs, fs.len())->Ok_0;
    lemma_null_row_columns(fs);
    assert(holds_stray_null(fields[i], columns[i]));
    assert(first_stray_null(fields, columns, i));
}

/// Whether some row of a table is null in the column.
pub open spec fn has_null_scalar(rows: Seq<Seq<Scalar>>, column: int) -> bool {
    exists|r: int| 0 <= r < rows.len() && (#[trigger] rows[r])[column] is Null
}

/// Whether column `i` is the first in which a row is null though the field cannot be.
pub open spec fn first_missing(fs: Seq<FieldView>, rows: Seq<Seq<Scalar>>, i: int) -> bool {
    &&& 0 <= i < fs.len()
    &&& is_required(fs[i])
    &&& has_null_scalar(rows, i)
    &&& forall|j: int|
        #![trigger fs[j]]
        0 <= j < i ==> !(is_required(fs[j]) && has_null_scalar(rows, j))
}

/// A table that is null in a field that is never null is refused for the first such field, by its
/// name.
pub proof fn law_create_many_refused(
    fs: Seq<FieldView>,
    rows: Seq<Seq<Scalar>>,
    i: int,
    r: Result<ArrowBatch, Error>,
)
    requires
        table_tells(fs, rows, r),
        table_fits(fs, rows),
        is_table(rows, fs.len()),
        arrow_fields(fs, fs.len()) is Ok,
        table_columns(fs, arrow_fields(fs, fs.len())->Ok_0, rows, fs.len()) is Ok,
        first_missing(fs, rows, i),
    ensures
        is_refused(r, stray_null_text(fs[i].name)),
{
    let fields = arrow_fields(fs, fs.len())->Ok_0;
    let columns = table_columns(fs, fields, rows, fs.len())->Ok_0;
    lemma_arrow_fields(fs, fs.len());
    lemma_table_columns(fs, fields, rows, fs.len());
    assert forall|j: int| #![trigger columns[j]] 0 <= j < fs.len() implies {
        &&& !(columns[j].data_type() is Other)
        &&& holds_stray_null(fields[j], columns[j]) == (is_required(fs[j]) && has_null_scalar(
            rows,
            j,
        ))
    } by {
        let column = column_scalars(rows, j);
        let t = fields[j].data_type;
        let c = columns[j];
        assert(c == table_columns(fs, fields, rows, fs.len())->Ok_0[j]);
        lemma_new_builder(fs[j].data_type, Some(fs[j]), fs[j].name);
        lemma_arrow_type_buildable(fs[j].data_type, Some(fs[j]), fs[j].name);
        lemma_null_type(fs[j].data_type, Some(fs[j]), fs[j].name);
        assert(forall|q: int| 0 <= q < column.len() ==> admitted(#[trigger] column[q], t));
        lemma_column_says(t, column);
        assert(c.has_null() == has_null_scalar(rows, j)) by {
            if c.has_null() {
                let q = choose|q: int| 0 <= q < c.len() && #[trigger] c.is_null(q);
                assert(row(c, q) == value(column[q]));
                assert(rows[q][j] is Null);
            }
            if has_null_scalar(rows, j) {
                let q = choose|q: int| 0 <= q < rows.len() && (#[trigger] rows[q])[j] is Null;
                assert(column[q] == rows[q][j]);
                assert(row(c, q) == value(column[q]));
                assert(c.is_null(q));
            }
        }
    }
    assert(holds_stray_null(fields[i], columns[i]));
    assert(first_stray_null(fields, columns, i));
}

} // verus!

//! A record batch of one row, made of the values at the leaves of its schema.
use crate::append::append;
use crate::apply_schema::is_batch_result;
use crate::arrow_arrays::{no_columns_text, stray_null_text, ArrowBatch};
use crate::building::admitted;
use crate::conversion::{arrow_fields, arrow_type, lemma_arrow_fields};
use crate::error::{Error, ErrorView};
use crate::handler::{
    append_rows, column_scalars, is_refused, lemma_column_says, lemma_table_columns, rows_view,
    table_batch, table_columns, table_fits, table_tells, ArrowEvaluationHandler,
};
use crate::model::{batch_accepts, empty_column, ArrowField, ArrowType, BatchView, Column};
use crate::rows::{lemma_append_error, row, value, writable, writable_null, Row};
use crate::scalars::{scalar_type, well_typed, Scalar, StructData};
use crate::schema::{
    clone_fields, fields_view, lemma_fields_view, FieldView, KernelDataType, Schema, StructField,
    TypeView,
};
use crate::sizes::{lemma_weights_more, null_weight, null_weights, small, weight, weights};
use crate::tables::{
    first_missing, has_null_scalar, is_required, law_create_many_refused, law_small_tables_fit,
};
use crate::to_array::lemma_new_builder;
use vstd::prelude::*;

verus! {

/// Whether some value is null in a field that is never null.
pub open spec fn lacks_value(fs: Seq<FieldView>, rows: Seq<Row>) -> bool {
    exists|i: int|
        #![trigger fs[i]]
        #![trigger rows[i]]
        0 <= i < fs.len() && !fs[i].nullable && rows[i] is Null
}

/// Whether field `i` is the first that cannot be null and whose value is.
pub open spec fn first_lack(fs: Seq<FieldView>, rows: Seq<Row>, i: int) -> bool {
    &&& 0 <= i < fs.len()
    &&& is_required(fs[i])
    &&& rows[i] is Null
    &&& forall|j: int|
        #![trigger fs[j]]
        0 <= j < i ==> !(is_required(fs[j]) && rows[j] is Null)
}

/// Whether a result is an error that Arrow reported.
pub open spec fn is_arrow_error(r: Result<ArrowBatch, Error>) -> bool {
    r is Err && r->Err_0@ == ErrorView::Arrow
}

/// Whether a result is Arrow's error that names the first field that cannot be null and whose value
/// is, if there is one, or that says that there are no fields.
pub open spec fn tells_lack(
    fs: Seq<FieldView>,
    rows: Seq<Row>,
    r: Result<ArrowBatch, Error>,
) -> bool {
    &&& fs.len() == 0 ==> is_refused(r, no_columns_text())
    &&& forall|i: int| #[trigger]
        first_lack(fs, rows, i) ==> is_refused(r, stray_null_text(fs[i].name))
}

/// Whether every value is null.
pub open spec fn is_all_null(rows: Seq<Row>) -> bool {
    forall|i: int| 0 <= i < rows.len() ==> (#[trigger] rows[i]) is Null
}

/// The value of type `t` that begins the sequence of leaf values, and the leaf values behind it.
///
/// A struct takes the values of its fields in order. Where all of them are null though one of the
/// fields is never null, the struct itself is null.
pub open spec fn nested(t: TypeView, leaves: Seq<Scalar>) -> Result<(Row, Seq<Scalar>), ErrorView>
    decreases t, 0nat,
{
    match t {
        TypeView::Struct(fs) => match nested_fields(fs, leaves, fs.len()) {
            Err(e) => Err(e),
            Ok((rows, rest)) => if !lacks_value(fs, rows) {
                Ok((Row::Struct(rows), rest))
            } else if is_all_null(rows) {
                Ok((Row::Null, rest))
            } else {
                Err(ErrorView::NullInStruct)
            },
        },
        _ => if leaves.len() == 0 {
            Err(ErrorView::TooFewScalars)
        } else if scalar_type(leaves[0]) != t {
            Err(ErrorView::MismatchedScalar { expected: t, actual: scalar_type(leaves[0]) })
        } else {
            Ok((value(leaves[0]), leaves.drop_first()))
        },
    }
}

/// The values of the first `k` fields, and the leaf values behind them.
pub open spec fn nested_fields(fs: Seq<FieldView>, leaves: Seq<Scalar>, k: nat) -> Result<
    (Seq<Row>, Seq<Scalar>),
    ErrorView,
>
    decreases fs, k,
{
    if k == 0 || k > fs.len() {
        Ok((seq![], leaves))
    } else {
        match nested_fields(fs, leaves, (k - 1) as nat) {
            Err(e) => Err(e),
            Ok((rows, rest)) => match nested(fs[k - 1].data_type, rest) {
                Err(e) => Err(e),
                Ok((v, rest)) => Ok((rows.push(v), rest)),
            },
        }
    }
}

/// The values of the fields of a schema, which take all leaf values.
pub open spec fn nested_row(fs: Seq<FieldView>, leaves: Seq<Scalar>) -> Result<
    Seq<Row>,
    ErrorView,
> {
    match nested_fields(fs, leaves, fs.len()) {
        Err(e) => Err(e),
        Ok((rows, rest)) => if lacks_value(fs, rows) && !is_all_null(rows) {
            Err(ErrorView::NullInStruct)
        } else if rest.len() > 0 {
            Err(ErrorView::TooManyScalars)
        } else {
            Ok(rows)
        },
    }
}

/// The number of structs in a type.
pub open spec fn struct_count(t: TypeView) -> nat
    decreases t, 0nat,
{
    match t {
        TypeView::Struct(fs) => 1 + struct_counts(fs, fs.len()),
        _ => 0,
    }
}

pub open spec fn struct_counts(fs: Seq<FieldView>, k: nat) -> nat
    decreases fs, k,
{
    if k == 0 || k > fs.len() {
        0
    } else {
        struct_counts(fs, (k - 1) as nat) + struct_count(fs[k - 1].data_type)
    }
}

/// Whether the leaf values are well-typed and take, with the structs around them, no more than any
/// column can hold.
pub open spec fn leaves_fit(fs: Seq<FieldView>, leaves: Seq<Scalar>) -> bool {
    &&& forall|i: int| 0 <= i < leaves.len() ==> well_typed(#[trigger] leaves[i])
    &&& struct_counts(fs, fs.len()) + weights(leaves, leaves.len()) <= small()
}

/// Whether every scalar can be written.
pub open spec fn all_writable(scalars: Seq<Scalar>) -> bool {
    forall|i: int| 0 <= i < scalars.len() ==> writable(#[trigger] scalars[i])
}

proof fn lemma_weights_drop_first(values: Seq<Scalar>, k: nat)
    requires
        1 <= k <= values.len(),
    ensures
        weights(values, k) == weight(values[0]) + weights(values.drop_first(), (k - 1) as nat),
    decreases k,
{
    let rest = values.drop_first();
    if k > 1 {
        lemma_weights_drop_first(values, (k - 1) as nat);
        assert(rest[k - 2] == values[k - 1]);
        assert(weights(rest, (k - 1) as nat) == weights(rest, (k - 2) as nat) + weight(rest[k - 2]));
    } else {
        assert(weights(values, 0) == 0);
        assert(weights(rest, 0) == 0);
    }
}

proof fn lemma_weight_positive(s: Scalar)
    ensures
        weight(s) >= 1,
{
}

proof fn lemma_nested_fields_stop(fs: Seq<FieldView>, leaves: Seq<Scalar>, j: nat, k: nat)
    requires
        j <= k <= fs.len(),
        nested_fields(fs, leaves, j) is Err,
    ensures
        nested_fields(fs, leaves, k) == nested_fields(fs, leaves, j),
    decreases k,
{
    if j < k {
        lemma_nested_fields_stop(fs, leaves, j, (k - 1) as nat);
    }
}

/// A value is null exactly where its scalar is.
proof fn lemma_null_value(s: Scalar)
    ensures
        value(s) is Null <==> s is Null,
{
}

pub open spec fn values_of(scalars: Seq<Scalar>) -> Seq<Row> {
    Seq::new(scalars.len(), |i: int| value(scalars[i]))
}

/// Whether each scalar is a well-typed value of the type of its field.
pub open spec fn are_values(fs: Seq<FieldView>, scalars: Seq<Scalar>) -> bool {
    &&& scalars.len() == fs.len()
    &&& forall|i: int|
        #![trigger scalars[i]]
        0 <= i < scalars.len() ==> well_typed(scalars[i]) && scalar_type(scalars[i])
            == fs[i].data_type
}

/// Whether no field is a struct.
pub open spec fn is_flat(fs: Seq<FieldView>) -> bool {
    forall|i: int| 0 <= i < fs.len() ==> !((#[trigger] fs[i]).data_type is Struct)
}

fn is_null(s: &Scalar) -> (r: bool)
    ensures
        r == (s is Null),
{
    match s {
        Scalar::Null(_) => true,
        _ => false,
    }
}

/// Whether some value is null in a field that is never null.
fn finds_lack(fields: &Vec<StructField>, scalars: &Vec<Scalar>) -> (r: bool)
    requires
        fields@.len() == scalars@.len(),
    ensures
        r == lacks_value(fields_view(fields@), values_of(scalars@)),
{
    let ghost fs = fields_view(fields@);
    let ghost rows = values_of(scalars@);
    proof {
        lemma_fields_view(fields@);
    }
    let mut i: usize = 0;
    while i < fields.len()
        invariant
            i <= fields.len(),
            fields@.len() == scalars@.len(),
            fs == fields_view(fields@),
            fs.len() == fields@.len(),
            rows == values_of(scalars@),
            forall|j: int| 0 <= j < i ==> (#[trigger] fs[j]).nullable || !(rows[j] is Null),
        decreases fields.len() - i,
    {
        proof {
            lemma_fields_view(fields@);
            lemma_null_value(scalars@[i as int]);
            assert(rows[i as int] == value(scalars@[i as int]));
        }
        if !fields[i].nullable && is_null(&scalars[i]) {
            assert(!fs[i as int].nullable);
            return true;
        }
        i += 1;
    }
    false
}

/// Whether every value is null.
fn finds_all_null(scalars: &Vec<Scalar>) -> (r: bool)
    ensures
        r == is_all_null(values_of(scalars@)),
{
    let ghost rows = values_of(scalars@);
    let mut i: usize = 0;
    while i < scalars.len()
        invariant
            i <= scalars.len(),
            rows == values_of(scalars@),
            forall|j: int| 0 <= j < i ==> (#[trigger] rows[j]) is Null,
        decreases scalars.len() - i,
    {
        proof {
            lemma_null_value(scalars@[i as int]);
            assert(rows[i as int] == value(scalars@[i as int]));
        }
        if !is_null(&scalars[i]) {
            return false;
        }
        i += 1;
    }
    true
}

/// Takes the value of type `t` from the front of the leaf values.
fn nest_value(t: &KernelDataType, leaves: &mut Vec<Scalar>) -> (r: Result<Scalar, Error>)
    requires
        forall|i: int| 0 <= i < old(leaves)@.len() ==> well_typed(#[trigger] old(leaves)@[i]),
    ensures
        forall|i: int| 0 <= i < final(leaves)@.len() ==> well_typed(#[trigger] final(leaves)@[i]),
        match r {
            Ok(s) => {
                let before = weights(old(leaves)@, old(leaves)@.len());
                let after = weights(final(leaves)@, final(leaves)@.len());
                &&& nested(t@, old(leaves)@) == Ok::<(Row, Seq<Scalar>), ErrorView>(
                    (value(s), final(leaves)@),
                )
                &&& !(t@ is Struct) ==> old(leaves)@.len() > 0 && s == old(leaves)@[0]
                    && final(leaves)@ == old(leaves)@.drop_first()
                &&& well_typed(s)
                &&& scalar_type(s) == t@
                &&& weight(s) + after <= struct_count(t@) + before
                &&& null_weight(t@) + after <= struct_count(t@) + before
                &&& all_writable(old(leaves)@) ==> {
                    &&& all_writable(final(leaves)@)
                    &&& writable(s)
                    &&& writable_null(t@)
                }
            },
            Err(e) => nested(t@, old(leaves)@) == Err::<(Row, Seq<Scalar>), ErrorView>(e@),
        },
    decreases t, 0nat,
{
    match t {
        KernelDataType::Struct(stype) => {
            let ghost fs = fields_view(stype.fields@);
            let values = match nest_fields(&stype.fields, leaves) {
                Ok(values) => values,
                Err(e) => {
                    return Err(e);
                },
            };
            proof {
                lemma_fields_view(stype.fields@);
            }
            if finds_lack(&stype.fields, &values) {
                if finds_all_null(&values) {
                    Ok(Scalar::Null(t.clone()))
                } else {
                    Err(Error::NullInStruct)
                }
            } else {
                let data = StructData { fields: clone_fields(&stype.fields), values };
                let s = Scalar::Struct(data);
                proof {
                    lemma_fields_view(data.fields@);
                    assert(fields_view(data.fields@) == fs);
                    assert forall|i: int| 0 <= i < data.values@.len() implies {
                        &&& well_typed(#[trigger] data.values@[i])
                        &&& scalar_type(data.values@[i]) == data.fields@[i].data_type@
                        &&& data.values@[i] is Null ==> data.fields@[i].nullable
                    } by {
                        assert(fs[i] == data.fields@[i]@);
                        lemma_null_value(data.values@[i]);
                        assert(values_of(data.values@)[i] == value(data.values@[i]));
                        if data.values@[i] is Null && !data.fields@[i].nullable {
                            assert(!fs[i].nullable);
                        }
                    }
                    assert(value(s)->Struct_0 =~= values_of(data.values@));
                }
                Ok(s)
            }
        },
        _ => {
            if leaves.len() == 0 {
                return Err(Error::TooFewScalars);
            }
            if !leaves[0].data_type().same_as(t) {
                return Err(
                    Error::MismatchedScalar { expected: t.clone(), actual: leaves[0].data_type() },
                );
            }
            let ghost all = leaves@;
            let s = leaves.remove(0);
            proof {
                assert(leaves@ =~= all.drop_first());
                lemma_weights_drop_first(all, all.len());
                lemma_weight_positive(s);
                assert forall|i: int| 0 <= i < leaves@.len() implies well_typed(
                    #[trigger] leaves@[i],
                ) by {
                    assert(leaves@[i] == all[i + 1]);
                }
                if all_writable(all) {
                    assert(writable(all[0]));
                    assert forall|i: int| 0 <= i < leaves@.len() implies writable(
                        #[trigger] leaves@[i],
                    ) by {
                        assert(leaves@[i] == all[i + 1]);
                    }
                }
            }
            Ok(s)
        },
    }
}

/// Takes the values of the fields from the front of the leaf values, in order.
fn nest_fields(fields: &Vec<StructField>, leaves: &mut Vec<Scalar>) -> (r: Result<
    Vec<Scalar>,
    Error,
>)
    requires
        forall|i: int| 0 <= i < old(leaves)@.len() ==> well_typed(#[trigger] old(leaves)@[i]),
    ensures
        forall|i: int| 0 <= i < final(leaves)@.len() ==> well_typed(#[trigger] final(leaves)@[i]),
        match r {
            Ok(values) => {
                let fs = fields_view(fields@);
                let before = weights(old(leaves)@, old(leaves)@.len());
                let after = weights(final(leaves)@, final(leaves)@.len());
                &&& nested_fields(fs, old(leaves)@, fs.len()) == Ok::<
                    (Seq<Row>, Seq<Scalar>),
                    ErrorView,
                >((values_of(values@), final(leaves)@))
                &&& is_flat(fs) ==> fs.len() <= old(leaves)@.len() && values@ == old(leaves)@.take(
                    fs.len() as int,
                ) && final(leaves)@ == old(leaves)@.skip(fs.len() as int)
                &&& are_values(fs, values@)
                &&& weights(values@, values@.len()) + after <= struct_counts(fs, fs.len()) + before
                &&& null_weights(fs, fs.len()) + after <= struct_counts(fs, fs.len()) + before
                &&& all_writable(old(leaves)@) ==> {
                    &&& all_writable(final(leaves)@)
                    &&& all_writable(values@)
                    &&& writable_null(TypeView::Struct(fs))
                }
            },
            Err(e) => nested_fields(
                fields_view(fields@),
                old(leaves)@,
                fields@.len(),
            ) == Err::<(Seq<Row>, Seq<Scalar>), ErrorView>(e@),
        },
    decreases fields, 1nat,
{
    let ghost fs = fields_view(fields@);
    let ghost all = leaves@;
    let ghost before = weights(all, all.len());
    let mut values: Vec<Scalar> = Vec::new();
    let mut i: usize = 0;
    proof {
        lemma_fields_view(fields@);
        assert(values_of(values@) =~= seq![]);
        assert(values@ =~= all.take(0));
        assert(leaves@ =~= all.skip(0));
    }
    while i < fields.len()
        invariant
            i <= fields.len(),
            all == old(leaves)@,
            is_flat(fs) ==> i <= all.len() && values@ == all.take(i as int) && leaves@ == all.skip(
                i as int,
            ),
            before == weights(all, all.len()),
            fs == fields_view(fields@),
            fs.len() == fields@.len(),
            values@.len() == i,
            forall|j: int| 0 <= j < leaves@.len() ==> well_typed(#[trigger] leaves@[j]),
            nested_fields(fs, all, i as nat) == Ok::<(Seq<Row>, Seq<Scalar>), ErrorView>(
                (values_of(values@), leaves@),
            ),
            forall|j: int|
                #![trigger values@[j]]
                0 <= j < i ==> well_typed(values@[j]) && scalar_type(values@[j])
                    == fs[j].data_type,
            weights(values@, i as nat) + weights(leaves@, leaves@.len()) <= struct_counts(
                fs,
                i as nat,
            ) + before,
            null_weights(fs, i as nat) + weights(leaves@, leaves@.len()) <= struct_counts(
                fs,
                i as nat,
            ) + before,
            all_writable(all) ==> {
                &&& all_writable(leaves@)
                &&& all_writable(values@)
                &&& forall|j: int|
                    0 <= j < i ==> writable_null((#[trigger] fs[j]).data_type)
            },
        decreases fields.len() - i,
    {
        proof {
            lemma_fields_view(fields@);
        }
        assert(decreases_to!(*fields => fields@[i as int]));
        let ghost rest = leaves@;
        match nest_value(&fields[i].data_type, leaves) {
            Ok(v) => {
                let ghost done = values@;
                values.push(v);
                proof {
                    if is_flat(fs) {
                        assert(!(fs[i as int].data_type is Struct));
                        assert(rest[0] == all[i as int]);
                        assert(values@ =~= all.take(i + 1));
                        assert(leaves@ =~= all.skip(i + 1));
                    }
                    assert(values_of(values@) =~= values_of(done).push(value(v)));
                    lemma_weights_push(done, v);
                }
            },
            Err(e) => {
                proof {
                    lemma_nested_fields_stop(fs, all, (i + 1) as nat, fs.len());
                }
                return Err(e);
            },
        }
        i += 1;
    }
    Ok(values)
}

proof fn lemma_weights_prefix(a: Seq<Scalar>, b: Seq<Scalar>, k: nat)
    requires
        k <= a.len(),
        k <= b.len(),
        forall|i: int| 0 <= i < k ==> #[trigger] a[i] == b[i],
    ensures
        weights(a, k) == weights(b, k),
    decreases k,
{
    if k > 0 {
        lemma_weights_prefix(a, b, (k - 1) as nat);
    }
}

proof fn lemma_weights_push(values: Seq<Scalar>, v: Scalar)
    ensures
        weights(values.push(v), values.len() + 1) == weights(values, values.len()) + weight(v),
{
    lemma_weights_prefix(values.push(v), values, values.len());
}

/// Whether a batch has one row under the fields of a schema, and that row says `values`.
pub open spec fn is_one_row(b: BatchView, fs: Seq<FieldView>, values: Seq<Row>) -> bool {
    &&& arrow_fields(fs, fs.len()) == Ok::<Seq<ArrowField>, ErrorView>(b.fields)
    &&& b.rows == 1
    &&& b.columns.len() == fs.len()
    &&& forall|i: int|
        0 <= i < fs.len() ==> row(#[trigger] b.columns[i], 0) == values[i]
}

/// Whether an error says that a variant was to be written.
pub open spec fn is_variant_error(e: ErrorView) -> bool {
    match e {
        ErrorView::RowScalar { cause, .. } => *cause == ErrorView::UnsupportedVariant,
        _ => false,
    }
}

/// What can go wrong once the values of a row are in place, and when.
pub open spec fn is_row_error(fs: Seq<FieldView>, values: Seq<Row>, e: ErrorView) -> bool {
    ||| arrow_fields(fs, fs.len()) == Err::<Seq<ArrowField>, ErrorView>(e)
    ||| is_variant_error(e)
    ||| e == ErrorView::Arrow && (fs.len() == 0 || lacks_value(fs, values))
}

/// A table of one row fits where its values do.
proof fn lemma_one_row_fits(fs: Seq<FieldView>, scalars: Seq<Scalar>)
    requires
        are_values(fs, scalars),
        weights(scalars, scalars.len()) <= small(),
    ensures
        table_fits(fs, seq![scalars]),
{
    let rows = seq![scalars];
    assert forall|i: int| 0 <= i < fs.len() implies weights(
        #[trigger] column_scalars(rows, i),
        rows.len(),
    ) <= small() by {
        let column = column_scalars(rows, i);
        assert(column =~= seq![scalars[i]]);
        lemma_weights_more(scalars, (i + 1) as nat, scalars.len());
        assert(weights(column, 0) == 0);
        assert(weights(column, 1) == weight(scalars[i]));
    }
    if fs.len() > 0 {
        assert(weights(column_scalars(rows, 0), 0) == 0);
        lemma_weight_positive(scalars[0]);
        assert(weights(column_scalars(rows, 0), 1) >= 1) by {
            assert(column_scalars(rows, 0) =~= seq![scalars[0]]);
        }
    }
    law_small_tables_fit(fs, rows);
}

/// Which errors a table of one row can give, and when it gives none.
proof fn lemma_one_row_errors(fs: Seq<FieldView>, scalars: Seq<Scalar>)
    requires
        are_values(fs, scalars),
        table_fits(fs, seq![scalars]),
    ensures
        ({
            let r = table_batch(fs, seq![scalars]);
            let values = values_of(scalars);
            &&& r matches Ok(b) ==> is_one_row(b, fs, values)
            &&& r matches Err(e) ==> is_row_error(fs, values, e)
            &&& arrow_fields(fs, fs.len()) is Ok && fs.len() > 0 && !lacks_value(fs, values)
                && all_writable(scalars) ==> r is Ok
        }),
{
    let rows = seq![scalars];
    let values = values_of(scalars);
    if arrow_fields(fs, fs.len()) is Ok {
        let fields = arrow_fields(fs, fs.len())->Ok_0;
        lemma_arrow_fields(fs, fs.len());
        lemma_one_row_columns(fs, fields, scalars, fs.len());
        match table_columns(fs, fields, rows, fs.len()) {
            Ok(columns) => {
                lemma_table_columns(fs, fields, rows, fs.len());
                assert forall|i: int| 0 <= i < fs.len() implies {
                    &&& (#[trigger] columns[i]).len() == 1
                    &&& columns[i].data_type() == fields[i].data_type
                    &&& columns[i].is_null(0) <==> values[i] is Null
                    &&& row(columns[i], 0) == values[i]
                } by {
                    let column = column_scalars(rows, i);
                    assert(columns[i] == table_columns(fs, fields, rows, fs.len())->Ok_0[i]);
                    lemma_new_builder(fs[i].data_type, Some(fs[i]), fs[i].name);
                    assert(column =~= seq![scalars[i]]);
                    assert(forall|r: int|
                        0 <= r < rows.len() ==> admitted(
                            #[trigger] column[r],
                            fields[i].data_type,
                        ));
                    lemma_column_says(fields[i].data_type, column);
                    assert(row(columns[i], 0) == value(column[0]));
                    lemma_row_null(columns[i], 0);
                }
                assert forall|i: int| 0 <= i < fs.len() implies (
                (#[trigger] columns[i]).has_null() <==> values[i] is Null) by {
                    if columns[i].has_null() {
                        let j = choose|j: int|
                            0 <= j < columns[i].len() && #[trigger] columns[i].is_null(j);
                        assert(j == 0);
                    }
                }
                if fs.len() > 0 && !lacks_value(fs, values) {
                    assert(batch_accepts(fields, columns));
                }
                if !lacks_value(fs, values) && fs.len() > 0 {
                } else if lacks_value(fs, values) {
                } else {
                    assert(fs.len() == 0);
                }
            },
            Err(_) => {},
        }
    }
}

/// Which field a table of one row is refused for.
proof fn lemma_one_row_tells(
    fs: Seq<FieldView>,
    scalars: Seq<Scalar>,
    r: Result<ArrowBatch, Error>,
)
    requires
        are_values(fs, scalars),
        table_fits(fs, seq![scalars]),
        is_batch_result(r, table_batch(fs, seq![scalars])),
        table_tells(fs, seq![scalars], r),
    ensures
        arrow_fields(fs, fs.len()) is Ok && (all_writable(scalars) || is_arrow_error(r))
            ==> tells_lack(fs, values_of(scalars), r),
{
    let rows = seq![scalars];
    let values = values_of(scalars);
    if arrow_fields(fs, fs.len()) is Ok {
        let fields = arrow_fields(fs, fs.len())->Ok_0;
        lemma_arrow_fields(fs, fs.len());
        lemma_one_row_columns(fs, fields, scalars, fs.len());
        if table_columns(fs, fields, rows, fs.len()) is Ok {
            lemma_table_columns(fs, fields, rows, fs.len());
            assert forall|i: int| #[trigger] first_lack(fs, values, i) implies is_refused(
                r,
                stray_null_text(fs[i].name),
            ) by {
                assert(rows[0][i] is Null);
                assert(has_null_scalar(rows, i));
                assert(first_missing(fs, rows, i));
                law_create_many_refused(fs, rows, i, r);
            }
        }
    }
}

/// A row is null exactly where it says null.
proof fn lemma_row_null(c: Column, i: int)
    ensures
        c.is_null(i) <==> row(c, i) is Null,
{
}

/// The columns of a table of one row can fail on variants alone.
proof fn lemma_one_row_columns(
    fs: Seq<FieldView>,
    fields: Seq<ArrowField>,
    scalars: Seq<Scalar>,
    k: nat,
)
    requires
        are_values(fs, scalars),
        arrow_fields(fs, fs.len()) == Ok::<Seq<ArrowField>, ErrorView>(fields),
        k <= fs.len(),
    ensures
        table_columns(fs, fields, seq![scalars], k) matches Err(e) ==> is_variant_error(e),
        all_writable(scalars) ==> table_columns(fs, fields, seq![scalars], k) is Ok,
    decreases k,
{
    if k > 0 {
        let rows = seq![scalars];
        let i = k - 1;
        lemma_one_row_columns(fs, fields, scalars, (k - 1) as nat);
        lemma_arrow_fields(fs, fs.len());
        let f = fs[i];
        let t = fields[i].data_type;
        let empty = empty_column(t);
        let column = column_scalars(rows, i);
        assert(column =~= seq![scalars[i]]);
        assert(arrow_type(f.data_type, Some(f), f.name) == Ok::<ArrowType, ErrorView>(t));
        lemma_new_builder(f.data_type, Some(f), f.name);
        lemma_append_error(empty, scalars[i], 1, Some(f), f.name);
        assert(append_rows(empty, column, 0) == Ok::<Column, (nat, ErrorView)>(empty));
        assert(rows.len() == 1);
        assert(append_rows(empty, column, 1) == match append(empty, scalars[i], 1).error {
            Some(e) => Err::<Column, (nat, ErrorView)>((0nat, e)),
            None => Ok::<Column, (nat, ErrorView)>(append(empty, scalars[i], 1).column),
        });
    }
}

/// Whether a result is that of creating one row from these leaf values.
pub open spec fn is_created(
    fs: Seq<FieldView>,
    leaves: Seq<Scalar>,
    r: Result<ArrowBatch, Error>,
) -> bool {
    match nested_row(fs, leaves) {
        Err(e) => r is Err && r->Err_0@ == e,
        Ok(values) => {
            &&& match r {
                Ok(b) => is_one_row(b@, fs, values),
                Err(e) => is_row_error(fs, values, e@),
            }
            &&& arrow_fields(fs, fs.len()) is Ok && fs.len() > 0 && !lacks_value(fs, values)
                && all_writable(leaves) ==> r is Ok
            &&& arrow_fields(fs, fs.len()) is Ok && (all_writable(leaves) || is_arrow_error(r))
                ==> tells_lack(fs, values, r)
            &&& is_flat(fs) ==> is_batch_result(r, table_batch(fs, seq![leaves]))
        },
    }
}

impl ArrowEvaluationHandler {
    /// Creates a batch of one row from the values at the leaves of the schema, in order.
    ///
    /// A struct whose leaves are all null, one of them in a field that is never null, is null itself.
    /// Where every value is null, Arrow's error names the first field that is never null.
    pub fn create_one(&self, schema: &Schema, values: Vec<Scalar>) -> (r: Result<ArrowBatch, Error>)
        requires
            leaves_fit(schema@, values@),
        ensures
            is_created(schema@, values@, r),
    {
        let ghost fs = schema@;
        let mut leaves = values;
        let row = match nest_fields(&schema.fields, &mut leaves) {
            Ok(row) => row,
            Err(e) => {
                proof {
                    lemma_fields_view(schema.fields@);
                }
                return Err(e);
            },
        };
        proof {
            lemma_fields_view(schema.fields@);
        }
        if finds_lack(&schema.fields, &row) && !finds_all_null(&row) {
            return Err(Error::NullInStruct);
        }
        if leaves.len() > 0 {
            return Err(Error::TooManyScalars);
        }
        let mut rows: Vec<&[Scalar]> = Vec::new();
        rows.push(row.as_slice());
        proof {
            assert(rows_view(rows@) =~= seq![row@]);
            if is_flat(fs) {
                assert(row@ =~= values@);
            }
            lemma_one_row_fits(fs, row@);
            lemma_one_row_errors(fs, row@);
        }
        let batch = self.create_many(schema, rows.as_slice());
        proof {
            lemma_one_row_tells(fs, row@, batch);
        }
        batch
    }
}

/// Where no field is a struct, one row of leaf values becomes the batch that a table of that one row
/// becomes. They differ only where a value is null in a field that is never null and others are not:
/// that is reported before the table is built.
pub proof fn law_create_one_flat(
    fs: Seq<FieldView>,
    leaves: Seq<Scalar>,
    r: Result<ArrowBatch, Error>,
)
    requires
        is_flat(fs),
        is_created(fs, leaves, r),
    ensures
        r matches Ok(b) ==> table_batch(fs, seq![leaves]) == Ok::<BatchView, ErrorView>(b@),
        are_values(fs, leaves) ==> {
            ||| is_batch_result(r, table_batch(fs, seq![leaves]))
            ||| r is Err && r->Err_0@ == ErrorView::NullInStruct && lacks_value(
                fs,
                values_of(leaves),
            )
        },
{
    if are_values(fs, leaves) {
        lemma_flat_fields(fs, leaves, fs.len());
        assert(values_of(leaves).take(fs.len() as int) =~= values_of(leaves));
        assert(leaves.skip(fs.len() as int) =~= seq![]);
    }
}

proof fn lemma_flat_fields(fs: Seq<FieldView>, leaves: Seq<Scalar>, k: nat)
    requires
        are_values(fs, leaves),
        is_flat(fs),
        k <= fs.len(),
    ensures
        nested_fields(fs, leaves, k) == Ok::<(Seq<Row>, Seq<Scalar>), ErrorView>(
            (values_of(leaves).take(k as int), leaves.skip(k as int)),
        ),
    decreases k,
{
    if k == 0 {
        assert(values_of(leaves).take(0) =~= seq![]);
        assert(leaves.skip(0) =~= leaves);
    } else {
        lemma_flat_fields(fs, leaves, (k - 1) as nat);
        let rest = leaves.skip(k - 1);
        assert(rest[0] == leaves[k - 1]);
        assert(rest.drop_first() =~= leaves.skip(k as int));
        assert(!(fs[k - 1].data_type is Struct));
        assert(nested(fs[k - 1].data_type, rest) == Ok::<(Row, Seq<Scalar>), ErrorView>(
            (value(leaves[k - 1]), leaves.skip(k as int)),
        ));
        assert(values_of(leaves).take(k as int) =~= values_of(leaves).take(k - 1).push(
            value(leaves[k - 1]),
        ));
    }
}

} // verus!
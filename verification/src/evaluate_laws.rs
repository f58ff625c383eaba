//! What evaluating expressions promises.
use crate::apply_laws::{
    law_applied_fields, law_same_data_rows, law_transform_keeps_data, lemma_same_data_refl,
    same_data,
};
use crate::apply_schema::{fewer, is_batch_result, lemma_transform_len, transform};
use crate::arrow_arrays::ArrowBatch;
use crate::conversion::arrow_type;
use crate::error::{Error, ErrorView};
use crate::evaluate::{
    batch_struct, column_at, evaluated, evaluated_each, expression_fits, first_named, names_view,
    position, struct_fields, Expression,
};
use crate::evaluators::{evaluated_batch, output_batch, output_field, DefaultExpressionEvaluator};
use crate::identity::{sound_column, EntryView};
use crate::model::{batch_accepts, struct_accepts, times, ArrowField, ArrowType, BatchView, Column};
use crate::rows::{law_to_array_rows, row, value};
use crate::scalars::{well_typed, Scalar};
use crate::schema::{FieldView, TypeView};
use crate::to_array::scalar_column;
use vstd::prelude::*;

verus! {

/// Whether `i` is the first of the fields that bears a name.
pub open spec fn is_first_of_name(fields: Seq<ArrowField>, name: Seq<char>, i: int) -> bool {
    &&& 0 <= i < fields.len()
    &&& fields[i].name == name
    &&& forall|j: int| 0 <= j < i ==> (#[trigger] fields[j]).name != name
}

proof fn lemma_position_found(fields: Seq<ArrowField>, name: Seq<char>)
    ensures
        position(fields, name) matches Some(i) ==> is_first_of_name(fields, name, i),
        position(fields, name) is None ==> forall|i: int|
            0 <= i < fields.len() ==> (#[trigger] fields[i]).name != name,
{
    if position(fields, name) is None {
        assert forall|i: int| 0 <= i < fields.len() implies (#[trigger] fields[i]).name != name by {
            lemma_no_name(fields, name, i);
        }
    } else {
        let i = position(fields, name)->Some_0;
        assert(first_named(fields, name, i));
    }
}

proof fn lemma_no_name(fields: Seq<ArrowField>, name: Seq<char>, i: int)
    requires
        position(fields, name) is None,
        0 <= i < fields.len(),
    ensures
        fields[i].name != name,
    decreases i,
{
    assert forall|j: int| 0 <= j < i implies (#[trigger] fields[j]).name != name by {
        lemma_no_name(fields, name, j);
    }
    if fields[i].name == name {
        assert(first_named(fields, name, i));
    }
}

/// A column of a struct is found by its name: it is the column under the first field of that name.
pub proof fn law_column_by_name(c: Column, name: Seq<char>)
    ensures
        match column_at(c, seq![name]) {
            Ok(x) => exists|i: int| #[trigger]
                is_first_of_name(c->Struct_fields, name, i) && x == c->Struct_columns[i],
            Err(e) => e == ErrorView::NoSuchField(name) && forall|i: int|
                0 <= i < c->Struct_fields.len() ==> (#[trigger] c->Struct_fields[i]).name != name,
        },
{
    lemma_position_found(c->Struct_fields, name);
    assert(seq![name][0] == name);
}

/// A longer path leads on from where the path without its last name leads. It fails where that path
/// fails, where that is no struct, and where the struct has no field of the last name. The empty path
/// leads nowhere.
pub proof fn law_column_path(c: Column, path: Seq<Seq<char>>)
    ensures
        path.len() == 0 ==> column_at(c, path) == Err::<Column, ErrorView>(
            ErrorView::EmptyColumnPath,
        ),
        path.len() > 1 ==> match column_at(c, path.drop_last()) {
            Err(e) => column_at(c, path) == Err::<Column, ErrorView>(e),
            Ok(parent) => if parent is Struct {
                column_at(c, path) == column_at(parent, seq![path.last()])
            } else {
                column_at(c, path) == Err::<Column, ErrorView>(
                    ErrorView::NotAStruct(path.last()),
                )
            },
        },
    decreases path.len(),
{
    if path.len() > 1 {
        let front = path.drop_last();
        let rest = path.drop_first();
        assert(front[0] == path[0]);
        match position(c->Struct_fields, path[0]) {
            None => {},
            Some(i) => {
                let child = c->Struct_columns[i];
                if path.len() == 2 {
                    assert(rest =~= seq![path.last()]);
                    assert(path[1] == path.last());
                } else {
                    assert(front.drop_first() =~= rest.drop_last());
                    assert(front[1] == path[1]);
                    assert(rest.last() == path.last());
                    if child is Struct {
                        law_column_path(child, rest);
                    }
                }
            },
        }
    }
}

/// A column expression gives the column of the batch at its path, whatever type is asked for.
pub proof fn law_column_expression(path: Vec<String>, b: BatchView, t: Option<TypeView>)
    ensures
        evaluated(Expression::Column(path), b, t) == column_at(
            batch_struct(b),
            names_view(path@),
        ),
        path@.len() == 1 ==> match evaluated(Expression::Column(path), b, t) {
            Ok(x) => exists|i: int| #[trigger]
                is_first_of_name(b.fields, path@[0]@, i) && x == b.columns[i],
            Err(e) => e == ErrorView::NoSuchField(path@[0]@) && forall|i: int|
                0 <= i < b.fields.len() ==> (#[trigger] b.fields[i]).name != path@[0]@,
        },
{
    if path@.len() == 1 {
        assert(names_view(path@) =~= seq![path@[0]@]);
        law_column_by_name(batch_struct(b), path@[0]@);
    }
}

/// A literal gives one row for each row of the batch, and each of them says what the scalar says.
pub proof fn law_literal(s: Scalar, b: BatchView, t: Option<TypeView>)
    requires
        well_typed(s),
    ensures
        evaluated(Expression::Literal(s), b, t) == scalar_column(s, b.rows),
        evaluated(Expression::Literal(s), b, t) matches Ok(c) ==> {
            &&& c.len() == b.rows
            &&& forall|i: int| 0 <= i < b.rows ==> #[trigger] row(c, i) == value(s)
        },
{
    if evaluated(Expression::Literal(s), b, t) is Ok {
        law_to_array_rows(s, b.rows);
    }
}

proof fn lemma_evaluated_each(es: Seq<Expression>, b: BatchView, fs: Seq<FieldView>, k: nat)
    requires
        k <= es.len(),
    ensures
        match evaluated_each(es, b, fs, k) {
            Ok(columns) => {
                &&& columns.len() == k
                &&& forall|i: int|
                    #![trigger es[i]]
                    #![trigger columns[i]]
                    0 <= i < k ==> evaluated(es[i], b, Some(fs[i].data_type)) == Ok::<
                        Column,
                        ErrorView,
                    >(columns[i])
            },
            Err(e) => exists|i: int| i < k && #[trigger] first_part_failing(es, b, fs, i, e),
        },
    decreases k,
{
    if k > 0 {
        lemma_evaluated_each(es, b, fs, (k - 1) as nat);
        match (
            evaluated_each(es, b, fs, (k - 1) as nat),
            evaluated(es[k - 1], b, Some(fs[k - 1].data_type)),
        ) {
            (Ok(_), Err(e)) => {
                assert(first_part_failing(es, b, fs, k - 1, e));
            },
            _ => {},
        }
    }
}

/// Whether expression `i` is the first that fails, and with this error.
pub open spec fn first_part_failing(
    es: Seq<Expression>,
    b: BatchView,
    fs: Seq<FieldView>,
    i: int,
    e: ErrorView,
) -> bool {
    &&& 0 <= i < es.len()
    &&& evaluated(es[i], b, Some(fs[i].data_type)) == Err::<Column, ErrorView>(e)
    &&& forall|j: int|
        #![trigger es[j]]
        0 <= j < i ==> evaluated(es[j], b, Some(fs[j].data_type)) is Ok
}

/// Where a struct expression evaluates, each of its columns is what the expression at its place
/// evaluates to by itself, for the type of the field at its place, under the name and nullability of
/// that field. There are as many columns as the fewer of expressions and fields. No row of it is
/// null. Where an expression fails, the first that does is reported. Otherwise it fails only where
/// there are no columns, where they differ in length, and where one has a null under a field that is
/// never null.
pub proof fn law_struct_expression(expressions: Vec<Expression>, b: BatchView, fs: Seq<FieldView>)
    ensures
        ({
            let es = expressions@;
            match evaluated(Expression::Struct(expressions), b, Some(TypeView::Struct(fs))) {
                Ok(c) => {
                    &&& c is Struct
                    &&& c->Struct_columns.len() <= es.len()
                    &&& c->Struct_columns.len() <= fs.len()
                    &&& c->Struct_columns.len() == es.len() || c->Struct_columns.len() == fs.len()
                    &&& c->Struct_fields.len() == c->Struct_columns.len()
                    &&& forall|i: int|
                        #![trigger es[i]]
                        #![trigger c->Struct_columns[i]]
                        0 <= i < c->Struct_columns.len() ==> {
                            &&& evaluated(es[i], b, Some(fs[i].data_type)) == Ok::<
                                Column,
                                ErrorView,
                            >(c->Struct_columns[i])
                            &&& c->Struct_columns[i].len() == c.len()
                            &&& c->Struct_fields[i].name == fs[i].name
                            &&& c->Struct_fields[i].nullable == fs[i].nullable
                            &&& c->Struct_fields[i].data_type == c->Struct_columns[i].data_type()
                            &&& c->Struct_fields[i].metadata == Map::<
                                Seq<char>,
                                Seq<char>,
                            >::empty()
                        }
                    &&& forall|i: int| 0 <= i < c.len() ==> !#[trigger] c.is_null(i)
                },
                Err(e) => {
                    ||| exists|i: int| #[trigger] first_part_failing(es, b, fs, i, e)
                    ||| e == ErrorView::Arrow && parts_clash(es, b, fs)
                },
            }
        }),
{
    let es = expressions@;
    let count = fewer(es.len(), fs.len());
    lemma_evaluated_each(es, b, fs, count);
    match evaluated_each(es, b, fs, count) {
        Ok(columns) => {
            let r = evaluated(Expression::Struct(expressions), b, Some(TypeView::Struct(fs)));
            if r is Err && count > 0 && !parts_clash(es, b, fs) {
                assert(columns[0] == evaluated(es[0], b, Some(fs[0].data_type))->Ok_0);
                let fields = struct_fields(fs, columns);
                let validity = times(true, columns[0].len());
                assert forall|i: int| 0 <= i < columns.len() implies {
                    &&& (#[trigger] columns[i]).len() == validity.len()
                    &&& columns[i].data_type() == fields[i].data_type
                    &&& fields[i].nullable || columns[i].masked_by(validity)
                } by {
                    assert(evaluated(es[i], b, Some(fs[i].data_type)) == Ok::<Column, ErrorView>(
                        columns[i],
                    ));
                    if !fields[i].nullable {
                        assert forall|q: int|
                            0 <= q < columns[i].len() && #[trigger] columns[i].is_null(
                                q,
                            ) implies !validity[q] by {
                            assert(columns[i].has_null());
                        }
                    }
                }
                assert(struct_accepts(fields, columns, validity));
            }
        },
        Err(_) => {},
    }
}

/// Whether the columns that expressions evaluate to cannot make a struct.
pub open spec fn parts_clash(es: Seq<Expression>, b: BatchView, fs: Seq<FieldView>) -> bool {
    ||| es.len() == 0 || fs.len() == 0
    ||| exists|i: int|
        #![trigger es[i]]
        0 <= i < es.len() && i < fs.len() && {
            let own = evaluated(es[i], b, Some(fs[i].data_type))->Ok_0;
            ||| own.len() != evaluated(es[0], b, Some(fs[0].data_type))->Ok_0.len()
            ||| !fs[i].nullable && own.has_null()
        }
}

/// The batch that a struct expression gives has one column for each of its expressions, which says in
/// every row what that expression says by itself, under the name, nullability and metadata of the
/// field at its place.
pub proof fn law_struct_batch(expressions: Vec<Expression>, b: BatchView, fs: Seq<FieldView>)
    requires
        expressions@.len() == fs.len(),
    ensures
        ({
            let es = expressions@;
            evaluated_batch(Expression::Struct(expressions), b, TypeView::Struct(fs)) matches Ok(
                out,
            ) ==> {
                &&& out.columns.len() == es.len()
                &&& out.fields.len() == es.len()
                &&& forall|i: int|
                    #![trigger es[i]]
                    #![trigger out.columns[i]]
                    0 <= i < es.len() ==> {
                        let own = evaluated(es[i], b, Some(fs[i].data_type));
                        &&& own is Ok
                        &&& same_data(own->Ok_0, out.columns[i])
                        &&& out.columns[i].len() == out.rows
                        &&& out.fields[i].name == fs[i].name
                        &&& out.fields[i].nullable == fs[i].nullable
                    }
                &&& forall|i: int, q: int|
                    #![trigger row(out.columns[i], q)]
                    0 <= i < es.len() ==> row(out.columns[i], q) == row(
                        evaluated(es[i], b, Some(fs[i].data_type))->Ok_0,
                        q,
                    )
            }
        }),
{
    let es = expressions@;
    let t = TypeView::Struct(fs);
    law_struct_expression(expressions, b, fs);
    if evaluated_batch(Expression::Struct(expressions), b, t) is Ok {
        let out = evaluated_batch(Expression::Struct(expressions), b, t)->Ok_0;
        let c = evaluated(Expression::Struct(expressions), b, Some(t))->Ok_0;
        law_applied_fields(c, fs);
        assert forall|i: int|
            #![trigger es[i]]
            #![trigger out.columns[i]]
            0 <= i < es.len() implies {
            let own = evaluated(es[i], b, Some(fs[i].data_type));
            &&& own is Ok
            &&& same_data(own->Ok_0, out.columns[i])
            &&& out.columns[i].len() == out.rows
            &&& out.fields[i].name == fs[i].name
            &&& out.fields[i].nullable == fs[i].nullable
        } by {
            assert(out.fields[i].name == fs[i].name);
            assert(c->Struct_columns[i] == evaluated(es[i], b, Some(fs[i].data_type))->Ok_0);
            law_same_data_rows(c->Struct_columns[i], out.columns[i], 0);
        }
        assert forall|i: int, q: int|
            #![trigger row(out.columns[i], q)]
            0 <= i < es.len() implies row(out.columns[i], q) == row(
            evaluated(es[i], b, Some(fs[i].data_type))->Ok_0,
            q,
        ) by {
            assert(same_data(evaluated(es[i], b, Some(fs[i].data_type))->Ok_0, out.columns[i]));
            law_same_data_rows(
                evaluated(es[i], b, Some(fs[i].data_type))->Ok_0,
                out.columns[i],
                q,
            );
        }
    }
}

/// A result of any other type than a struct is a batch of one nullable column under the name of the
/// output, which has the Arrow type of the output type and the data that was evaluated.
pub proof fn law_single_output(c: Column, t: TypeView)
    requires
        !(t is Struct),
    ensures
        output_batch(c, t) matches Ok(out) ==> {
            &&& out.rows == c.len()
            &&& out.fields.len() == 1
            &&& out.columns.len() == 1
            &&& out.fields[0].name == "output"@
            &&& out.fields[0].nullable
            &&& out.fields[0].metadata == Map::<Seq<char>, Seq<char>>::empty()
            &&& arrow_type(t, None, ""@) == Ok::<ArrowType, ErrorView>(out.fields[0].data_type)
            &&& out.columns[0].data_type() == out.fields[0].data_type
            &&& same_data(c, out.columns[0])
            &&& forall|i: int| #[trigger] row(out.columns[0], i) == row(c, i)
        },
{
    if output_batch(c, t) is Ok {
        let out = output_batch(c, t)->Ok_0;
        law_transform_keeps_data(c, t, None, ""@);
        lemma_transform_len(c, t, None, ""@);
        assert forall|i: int| #[trigger] row(out.columns[0], i) == row(c, i) by {
            law_same_data_rows(c, out.columns[0], i);
        }
    }
}

/// There is such a batch exactly where the data can be brought in line with the output type and then
/// has the Arrow type of it. What stands in the way is reported in this order.
pub proof fn law_single_output_when(c: Column, t: TypeView)
    requires
        !(t is Struct),
    ensures
        match (transform(c, t, None, ""@), arrow_type(t, None, ""@)) {
            (Err(e), _) => output_batch(c, t) == Err::<BatchView, ErrorView>(e),
            (Ok(_), Err(e)) => output_batch(c, t) == Err::<BatchView, ErrorView>(e),
            (Ok(q), Ok(a)) => if q.data_type() == a {
                output_batch(c, t) is Ok
            } else {
                output_batch(c, t) == Err::<BatchView, ErrorView>(ErrorView::Arrow)
            },
        },
{
    if let (Ok(q), Ok(a)) = (transform(c, t, None, ""@), arrow_type(t, None, ""@)) {
        let fields = seq![output_field(a)];
        let columns = seq![q];
        assert(columns[0] == q);
        if q.data_type() == a {
            assert(batch_accepts(fields, columns));
        }
    }
}

/// A struct expression or a patch needs a struct type to be asked for. A patch of the struct at a
/// path gives what that column gives, and one without a path the whole batch.
pub proof fn law_struct_type_required(
    expressions: Vec<Expression>,
    path: Vec<String>,
    b: BatchView,
    t: Option<TypeView>,
)
    ensures
        ({
            let whole = Expression::StructPatch { input_path: None };
            let inner = Expression::StructPatch { input_path: Some(path) };
            if t is Some && t->Some_0 is Struct {
                &&& evaluated(whole, b, t) == Ok::<Column, ErrorView>(batch_struct(b))
                &&& evaluated(inner, b, t) == evaluated(Expression::Column(path), b, t)
            } else {
                let refused = Err::<Column, ErrorView>(ErrorView::StructTypeRequired);
                &&& evaluated(Expression::Struct(expressions), b, t) == refused
                &&& evaluated(whole, b, t) == refused
                &&& evaluated(inner, b, t) == refused
            }
        }),
{
}

/// The rows of a batch as a struct are its fields, columns and rows, none of them null.
pub proof fn law_batch_struct(b: BatchView)
    ensures
        batch_struct(b) is Struct,
        batch_struct(b)->Struct_fields == b.fields,
        batch_struct(b)->Struct_columns == b.columns,
        batch_struct(b).len() == b.rows,
        forall|i: int| 0 <= i < b.rows ==> !#[trigger] batch_struct(b).is_null(i),
{
}

/// Whatever an evaluator remembers, the batch that it makes of an evaluated struct has the columns of
/// that struct, in order and with the same data.
pub proof fn law_output_columns(
    evaluator: DefaultExpressionEvaluator,
    after: DefaultExpressionEvaluator,
    cache: Seq<EntryView>,
    cache_after: Seq<EntryView>,
    b: BatchView,
    c: Column,
    r: Result<ArrowBatch, Error>,
)
    requires
        evaluator.output_view() is Struct,
        evaluator.is_output(&after, cache, cache_after, b, c, r),
    ensures
        r matches Ok(out) ==> {
            &&& c is Struct
            &&& out@.columns.len() == c->Struct_columns.len()
            &&& forall|i: int|
                #![trigger out@.columns[i]]
                0 <= i < out@.columns.len() ==> same_data(c->Struct_columns[i], out@.columns[i])
        },
{
    if let Ok(out) = r {
        let fs = evaluator.output_view()->Struct_0;
        if is_batch_result(r, output_batch(c, evaluator.output_view())) {
            law_applied_fields(c, fs);
            assert forall|i: int|
                #![trigger out@.columns[i]]
                0 <= i < out@.columns.len() implies same_data(
                c->Struct_columns[i],
                out@.columns[i],
            ) by {
                assert(out@.fields[i].name == fs[i].name);
            }
        } else {
            assert forall|i: int|
                #![trigger out@.columns[i]]
                0 <= i < out@.columns.len() implies same_data(
                c->Struct_columns[i],
                out@.columns[i],
            ) by {
                lemma_same_data_refl(out@.columns[i]);
            }
        }
    }
}

/// The first batch that succeeds for a struct is remembered by its fields, and the fields that were
/// evaluated with it exactly where the output type changed none of them. Nothing that comes later
/// changes that, and a failure leaves nothing. Of patches nothing is remembered.
pub proof fn law_memo(
    evaluator: DefaultExpressionEvaluator,
    after: DefaultExpressionEvaluator,
    cache: Seq<EntryView>,
    cache_after: Seq<EntryView>,
    b: BatchView,
    c: Column,
    r: Result<ArrowBatch, Error>,
)
    requires
        evaluator.is_output(&after, cache, cache_after, b, c, r),
    ensures
        evaluator.memo() is Some || r is Err ==> after.memo() == evaluator.memo(),
        evaluator.expression_view() is StructPatch || !(evaluator.output_view() is Struct)
            ==> after.memo() == evaluator.memo(),
        evaluator.memo() is None && !(evaluator.expression_view() is StructPatch)
            && evaluator.output_view() is Struct ==> (r matches Ok(out) ==> {
            &&& after.memo() is Some
            &&& after.memo()->Some_0.0 == b.fields
            &&& after.memo()->Some_0.1 is Some <==> c->Struct_fields == out@.fields
            &&& after.memo()->Some_0.1 matches Some(fields) ==> fields == c->Struct_fields
        }),
        after.expression_view() == evaluator.expression_view(),
        after.output_view() == evaluator.output_view(),
{
    if evaluator.output_view() is Struct {
        law_output_columns(evaluator, after, cache, cache_after, b, c, r);
    }
}

/// Whatever two evaluators of one output type and their caches remember, they make the same batch of
/// a sound struct, or the same error.
pub proof fn law_memo_makes_no_difference(
    first: DefaultExpressionEvaluator,
    first_after: DefaultExpressionEvaluator,
    second: DefaultExpressionEvaluator,
    second_after: DefaultExpressionEvaluator,
    caches: (Seq<EntryView>, Seq<EntryView>, Seq<EntryView>, Seq<EntryView>),
    b: BatchView,
    c: Column,
    r: Result<ArrowBatch, Error>,
    s: Result<ArrowBatch, Error>,
)
    requires
        sound_column(c),
        c is Struct,
        first.output_view() == second.output_view(),
        first.is_output(&first_after, caches.0, caches.1, b, c, r),
        second.is_output(&second_after, caches.2, caches.3, b, c, s),
    ensures
        match (r, s) {
            (Ok(x), Ok(y)) => x@ == y@,
            (Err(x), Err(y)) => x@ == y@,
            _ => false,
        },
{
}

/// Whether every column of a batch is a sound array with a row for each row of the batch.
pub open spec fn sound_batch(b: BatchView) -> bool {
    &&& b.fields.len() == b.columns.len()
    &&& forall|i: int|
        #![trigger b.columns[i]]
        0 <= i < b.columns.len() ==> sound_column(b.columns[i]) && b.columns[i].len() == b.rows
}

proof fn lemma_column_rows(c: Column, path: Seq<Seq<char>>)
    requires
        c is Struct,
        c->Struct_fields.len() == c->Struct_columns.len(),
        forall|i: int|
            #![trigger c->Struct_columns[i]]
            0 <= i < c->Struct_columns.len() ==> sound_column(c->Struct_columns[i])
                && c->Struct_columns[i].len() == c.len(),
    ensures
        column_at(c, path) matches Ok(x) ==> x.len() == c.len() && sound_column(x),
    decreases path.len(),
{
    if path.len() > 0 {
        lemma_position_found(c->Struct_fields, path[0]);
        if let Some(i) = position(c->Struct_fields, path[0]) {
            let child = c->Struct_columns[i];
            assert(sound_column(child));
            if path.len() > 1 && child is Struct {
                lemma_column_rows(child, path.drop_first());
            }
        }
    }
}

/// What an expression evaluates to has as many rows as the batch.
pub proof fn law_evaluated_rows(e: Expression, b: BatchView, t: Option<TypeView>)
    requires
        sound_batch(b),
        expression_fits(e, b.rows),
    ensures
        evaluated(e, b, t) matches Ok(c) ==> c.len() == b.rows,
    decreases e,
{
    match e {
        Expression::Literal(s) => {
            law_literal(s, b, t);
        },
        Expression::Column(path) => {
            lemma_column_rows(batch_struct(b), names_view(path@));
        },
        Expression::Struct(es) => {
            if let Some(TypeView::Struct(fs)) = t {
                let k = fewer(es@.len(), fs.len());
                lemma_evaluated_each(es@, b, fs, k);
                if evaluated(e, b, t) is Ok {
                    assert(k > 0);
                    assert(expression_fits(es@[0], b.rows));
                    law_evaluated_rows(es@[0], b, Some(fs[0].data_type));
                }
            }
        },
        Expression::StructPatch { input_path } => {
            if let Some(path) = input_path {
                lemma_column_rows(batch_struct(b), names_view(path@));
            }
        },
    }
}

} // verus!

//! Evaluators: an expression or a predicate, ready to be evaluated on many record batches.
use crate::apply_laws::{law_applied_fields, same_data};
use crate::apply_schema::{
    applied, apply_schema_to, is_batch_result, lemma_transform_known, struct_batch, transform,
};
use crate::arrow_arrays::{boolean_column, columns_of, ArrowArray, ArrowBatch};
use crate::arrow_types::{
    collect_fields, fields_of, fields_seq, new_field, same_allocation, same_fields, simple_type,
    type_of, SimpleType,
};
use crate::conversion::{arrow_type, arrow_type_of};
use crate::error::{Error, ErrorView};
use crate::evaluate::{
    batch_struct, evaluate_expression, evaluated, expression_fits, Expression, Predicate,
};
use crate::handler::{batch_of, ArrowEvaluationHandler};
use crate::identity::{
    apply_schema, is_applied, is_identity, knows_identity, law_identity_batch,
    lemma_identity_known, records, sound_column, EntryView, IdentityCache,
};
use crate::model::{batch_accepts, ArrowField, ArrowType, BatchView, Column};
use crate::predicates::{evaluate_predicate, predicate_fits, truth};
use crate::schema::{FieldView, KernelDataType, Schema, TypeView};
use arrow::datatypes::{DataType, Field, Fields};
use vstd::prelude::*;

verus! {

/// The name of the one column that evaluating to something else than a struct gives.
pub const OUTPUT_NAME: &'static str = "output";

/// The field of that column.
pub open spec fn output_field(t: ArrowType) -> ArrowField {
    ArrowField { name: OUTPUT_NAME@, data_type: t, nullable: true, metadata: Map::empty() }
}

/// The batch that an evaluated column gives for results of type `t`: the columns of a struct, or one
/// column of anything else, in line with `t`.
pub open spec fn output_batch(c: Column, t: TypeView) -> Result<BatchView, ErrorView> {
    if t is Struct {
        applied(c, t)
    } else {
        match (transform(c, t, None, ""@), arrow_type(t, None, ""@)) {
            (Err(err), _) => Err(err),
            (Ok(_), Err(err)) => Err(err),
            (Ok(q), Ok(a)) => batch_of(seq![output_field(a)], seq![q]),
        }
    }
}

/// The batch that evaluating an expression for a result of type `t` gives.
pub open spec fn evaluated_batch(e: Expression, b: BatchView, t: TypeView) -> Result<
    BatchView,
    ErrorView,
> {
    match evaluated(e, b, Some(t)) {
        Err(err) => Err(err),
        Ok(c) => output_batch(c, t),
    }
}

/// The batch that evaluating a predicate gives: one column of truth values.
pub open spec fn truth_batch(p: Predicate, b: BatchView) -> Result<BatchView, ErrorView> {
    match truth(p, b, false) {
        Err(e) => Err(e),
        Ok(cells) => Ok(
            BatchView {
                fields: seq![output_field(ArrowType::Boolean)],
                columns: seq![boolean_column(cells)],
                rows: cells.len(),
            },
        ),
    }
}

/// The record batch of a struct column as it is.
pub open spec fn taken_over(c: Column) -> Result<BatchView, ErrorView> {
    if c is Struct {
        struct_batch(c)
    } else {
        Err(ErrorView::NotStructOutput)
    }
}

/// What an evaluator remembers of its first batch: the fields of the batch, and where the output
/// type changed nothing, the fields of what was evaluated.
pub type Memo = Option<(Seq<ArrowField>, Option<Seq<ArrowField>>)>;

/// What is remembered after a batch: the first batch that succeeds leaves something, and it stays.
pub open spec fn next_memo(memo: Memo, b: BatchView, c: Column, r: Result<ArrowBatch, Error>) -> Memo {
    match (memo, r) {
        (None, Ok(out)) => if c is Struct && c->Struct_fields == out@.fields {
            Some((b.fields, Some(c->Struct_fields)))
        } else {
            Some((b.fields, None))
        },
        _ => memo,
    }
}

/// Evaluates one expression on many batches.
#[derive(Debug)]
pub struct DefaultExpressionEvaluator {
    _input_schema: Schema,
    expression: Expression,
    output_type: KernelDataType,
    /// The fields of the first batch, and where applying the output type changed nothing on it, the
    /// fields of what was evaluated.
    ///
    /// A batch that shares its fields with the first one is as a rule evaluated to the same fields.
    /// Where it is, it needs no rebuilding if the first one needed none.
    apply_is_identity: Option<(Fields, Option<Fields>)>,
}

/// Evaluates one predicate on many batches.
#[derive(Debug)]
pub struct DefaultPredicateEvaluator {
    _input_schema: Schema,
    predicate: Predicate,
}

impl ArrowEvaluationHandler {
    /// An evaluator for an expression on batches of this schema, for results of this type.
    pub fn new_expression_evaluator(
        &self,
        schema: Schema,
        expression: Expression,
        output_type: KernelDataType,
    ) -> (r: Result<DefaultExpressionEvaluator, Error>)
        ensures
            r matches Ok(e) && e.well_formed() && e.expression_view() == expression
                && e.output_view() == output_type@ && e.memo() is None,
    {
        Ok(
            DefaultExpressionEvaluator {
                _input_schema: schema,
                expression,
                output_type,
                apply_is_identity: None,
            },
        )
    }

    /// An evaluator for a predicate on batches of this schema.
    pub fn new_predicate_evaluator(&self, schema: Schema, predicate: Predicate) -> (r: Result<
        DefaultPredicateEvaluator,
        Error,
    >)
        ensures
            r matches Ok(e) && e.predicate_view() == predicate,
    {
        Ok(DefaultPredicateEvaluator { _input_schema: schema, predicate })
    }
}

/// Makes a record batch of one column.
fn single_column(data_type: DataType, column: ArrowArray) -> (r: Result<ArrowBatch, Error>)
    requires
        !(column@.data_type() is Other),
    ensures
        is_batch_result(r, batch_of(seq![output_field(type_of(data_type))], seq![column@])),
{
    let ghost c = column@;
    let mut fields: Vec<Field> = Vec::new();
    fields.push(new_field(OUTPUT_NAME, data_type, true));
    let mut columns: Vec<ArrowArray> = Vec::new();
    columns.push(column);
    assert(fields_seq(fields@) =~= seq![output_field(type_of(data_type))]);
    assert(columns_of(columns@) =~= seq![c]);
    match ArrowBatch::from_columns(collect_fields(fields), columns) {
        Ok(batch) => Ok(batch),
        Err(e) => Err(Error::Arrow(e)),
    }
}

impl DefaultExpressionEvaluator {
    pub closed spec fn expression_view(&self) -> Expression {
        self.expression
    }

    pub closed spec fn output_view(&self) -> TypeView {
        self.output_type@
    }

    /// What is remembered of the first batch.
    pub closed spec fn memo(&self) -> Memo {
        match self.apply_is_identity {
            Some((inputs, Some(fields))) => Some((fields_of(inputs), Some(fields_of(fields)))),
            Some((inputs, None)) => Some((fields_of(inputs), None)),
            None => None,
        }
    }

    /// What holds of every evaluator: the output type leaves fields as they are of which that is
    /// remembered, and of patches nothing is.
    pub open spec fn well_formed(&self) -> bool {
        &&& self.memo() matches Some((_, Some(fields))) ==> self.output_view() is Struct
            && is_identity(fields, self.output_view()->Struct_0)
        &&& self.expression_view() is StructPatch ==> self.memo() is None
    }

    /// Whether what is remembered speaks of this batch, and of what was evaluated on it if that is a
    /// struct.
    pub open spec fn remembers(&self, b: BatchView, c: Column) -> bool {
        self.memo() matches Some((inputs, Some(fields))) && inputs == b.fields && (c is Struct
            ==> c->Struct_fields == fields)
    }

    /// Whether the batch can be answered without rebuilding columns: it is known, to the evaluator
    /// or to the cache, that the output type leaves the evaluated fields as they are.
    pub open spec fn knows(&self, cache: Seq<EntryView>, b: BatchView, c: Column) -> bool {
        &&& self.output_view() is Struct
        &&& self.remembers(b, c) || (c is Struct && knows_identity(
            cache,
            c->Struct_fields,
            self.output_view()->Struct_0,
        ))
    }

    /// Whether a result and what an evaluator and a cache became are those of bringing `c`, which was
    /// evaluated on the batch `b`, in line with the output type.
    pub open spec fn is_output(
        &self,
        after: &Self,
        cache: Seq<EntryView>,
        cache_after: Seq<EntryView>,
        b: BatchView,
        c: Column,
        r: Result<ArrowBatch, Error>,
    ) -> bool {
        let e = self.expression_view();
        let t = self.output_view();
        &&& after.expression_view() == e
        &&& after.output_view() == t
        &&& after.memo() == if e is StructPatch || !(t is Struct) {
            self.memo()
        } else {
            next_memo(self.memo(), b, c, r)
        }
        &&& records(cache, cache_after, c, t) || (self.remembers(b, c) && cache_after == cache)
        &&& sound_column(c) && c is Struct ==> is_batch_result(r, output_batch(c, t))
        &&& is_batch_result(r, output_batch(c, t)) || (self.knows(cache, b, c) && is_batch_result(
            r,
            taken_over(c),
        ))
        &&& e is StructPatch && t is Struct ==> is_applied(cache, c, t, r) && records(
            cache,
            cache_after,
            c,
            t,
        )
    }

    /// Evaluates the expression on a batch, and brings the result in line with the output type.
    pub fn evaluate(&mut self, batch: &ArrowBatch, cache: &mut IdentityCache) -> (r: Result<
        ArrowBatch,
        Error,
    >)
        requires
            old(self).well_formed(),
            old(cache).well_formed(),
            expression_fits(old(self).expression_view(), batch@.rows),
        ensures
            final(self).well_formed(),
            final(cache).well_formed(),
            match evaluated(
                old(self).expression_view(),
                batch@,
                Some(old(self).output_view()),
            ) {
                Ok(c) => old(self).is_output(
                    final(self),
                    old(cache)@,
                    final(cache)@,
                    batch@,
                    c,
                    r,
                ),
                Err(e) => {
                    &&& is_batch_result(r, Err(e))
                    &&& final(cache)@ == old(cache)@
                    &&& final(self).expression_view() == old(self).expression_view()
                    &&& final(self).output_view() == old(self).output_view()
                    &&& final(self).memo() == old(self).memo()
                },
            },
    {
        let array = match evaluate_expression(
            &self.expression,
            batch,
            Some(&self.output_type),
        ) {
            Ok(array) => array,
            Err(e) => {
                return Err(e);
            },
        };
        self.apply_output(batch, array, cache)
    }

    /// Brings an array that was evaluated on a batch in line with the output type.
    ///
    /// The first batch that is evaluated to a struct is remembered, and whether the output type
    /// changed anything. Where it did not, batches that share their fields with the first one, and
    /// are evaluated to the same fields, are not rebuilt. For sound arrays that makes no difference.
    pub fn apply_output(
        &mut self,
        batch: &ArrowBatch,
        array: ArrowArray,
        cache: &mut IdentityCache,
    ) -> (r: Result<ArrowBatch, Error>)
        requires
            old(self).well_formed(),
            old(cache).well_formed(),
        ensures
            final(self).well_formed(),
            final(cache).well_formed(),
            old(self).is_output(final(self), old(cache)@, final(cache)@, batch@, array@, r),
    {
        match (&self.expression, &self.output_type) {
            (Expression::StructPatch { .. }, KernelDataType::Struct(_)) => apply_schema(
                &array,
                &self.output_type,
                cache,
            ),
            (_, KernelDataType::Struct(_)) => self.apply_struct_output(batch, array, cache),
            _ => {
                let plain = array;
                let array = match apply_schema_to(&plain, &self.output_type) {
                    Ok(array) => array,
                    Err(e) => {
                        return Err(e);
                    },
                };
                let data_type = match arrow_type_of(&self.output_type) {
                    Ok(data_type) => data_type,
                    Err(e) => {
                        return Err(e);
                    },
                };
                proof {
                    lemma_transform_known(plain@, self.output_type@, None, ""@);
                }
                single_column(data_type, array)
            },
        }
    }

    /// Brings an evaluated struct in line with the output type, or takes it over as it is where the
    /// first batch showed that this is the same.
    fn apply_struct_output(
        &mut self,
        batch: &ArrowBatch,
        array: ArrowArray,
        cache: &mut IdentityCache,
    ) -> (r: Result<ArrowBatch, Error>)
        requires
            old(self).well_formed(),
            old(cache).well_formed(),
            old(self).output_view() is Struct,
            !(old(self).expression_view() is StructPatch),
        ensures
            final(self).well_formed(),
            final(cache).well_formed(),
            old(self).is_output(final(self), old(cache)@, final(cache)@, batch@, array@, r),
    {
        let ghost c = array@;
        let ghost fs = self.output_view()->Struct_0;
        let input_fields = batch.fields();
        let parts = array.struct_parts();
        let mut known = false;
        if let Some((inputs, Some(fields))) = &self.apply_is_identity {
            if same_allocation(inputs, &input_fields) {
                known = match &parts {
                    Some(parts) => same_fields(fields, &parts.fields),
                    None => true,
                };
            }
        }
        if known {
            let parts = match parts {
                Some(parts) => parts,
                None => {
                    return Err(Error::NotStructOutput);
                },
            };
            proof {
                lemma_identity_known(c->Struct_fields, fs);
                if sound_column(c) {
                    law_identity_batch(c, fs);
                }
            }
            return match ArrowBatch::from_columns(parts.fields, parts.columns) {
                Ok(out) => Ok(out),
                Err(e) => Err(Error::Arrow(e)),
            };
        }
        let out = match apply_schema(&array, &self.output_type, cache) {
            Ok(out) => out,
            Err(e) => {
                return Err(e);
            },
        };
        if self.apply_is_identity.is_none() {
            let fields = match parts {
                Some(parts) => if same_fields(&parts.fields, &out.fields()) {
                    Some(parts.fields)
                } else {
                    None
                },
                None => None,
            };
            self.apply_is_identity = Some((input_fields, fields));
        }
        Ok(out)
    }
}

/// An empty patch of the whole row applies the output type to the batch as it is. So where that
/// succeeds, the rows and the data of the columns are those of the batch.
pub proof fn law_empty_patch(b: BatchView, fs: Seq<FieldView>)
    ensures
        ({
            let e = Expression::StructPatch { input_path: None };
            let t = TypeView::Struct(fs);
            &&& evaluated(e, b, Some(t)) == Ok::<Column, ErrorView>(batch_struct(b))
            &&& evaluated_batch(e, b, t) == applied(batch_struct(b), t)
            &&& evaluated_batch(e, b, t) matches Ok(out) ==> {
                &&& out.rows == b.rows
                &&& out.columns.len() == b.columns.len()
                &&& forall|i: int|
                    0 <= i < b.columns.len() ==> same_data(#[trigger] b.columns[i], out.columns[i])
            }
        }),
{
    let t = TypeView::Struct(fs);
    let c = batch_struct(b);
    if applied(c, t) is Ok {
        law_applied_fields(c, fs);
        let out = applied(c, t)->Ok_0;
        assert forall|i: int| 0 <= i < b.columns.len() implies same_data(
            #[trigger] b.columns[i],
            out.columns[i],
        ) by {
            assert(out.fields[i].name == fs[i].name);
        }
    }
}

impl DefaultPredicateEvaluator {
    pub closed spec fn predicate_view(&self) -> Predicate {
        self.predicate
    }

    /// Evaluates the predicate on a batch. The result has one column of truth values, which are null
    /// where the predicate is unknown.
    pub fn evaluate(&self, batch: &ArrowBatch) -> (r: Result<ArrowBatch, Error>)
        requires
            predicate_fits(self.predicate_view(), batch@.rows),
        ensures
            is_batch_result(r, truth_batch(self.predicate_view(), batch@)),
    {
        let array = match evaluate_predicate(&self.predicate, batch, false) {
            Ok(array) => array,
            Err(e) => {
                return Err(e);
            },
        };
        let ghost c = array@;
        let r = single_column(simple_type(SimpleType::Boolean), array);
        proof {
            let fields = seq![output_field(ArrowType::Boolean)];
            let columns = seq![c];
            assert(batch_accepts(fields, columns));
            assert(c == boolean_column(c->Leaf_cells));
        }
        r
    }
}

} // verus!

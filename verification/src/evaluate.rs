//! Evaluating expressions and predicates on record batches.
use crate::apply_schema::fewer;
use crate::arrow_arrays::{columns_of, first_len, ArrowArray, ArrowBatch, StructParts};
use crate::arrow_types::{collect_fields, field_name, field_of, fields_seq, list_fields, new_field};
use crate::error::{Error, ErrorView};
use crate::model::{struct_accepts, times, ArrowField, BatchView, Column};
use crate::scalars::{well_typed, Scalar};
use crate::schema::{
    fields_view, lemma_fields_view, FieldView, KernelDataType, StructField, TypeView,
};
use crate::to_array::{is_array_result, scalar_column, scalar_fits};
use arrow::datatypes::Field;
use vstd::prelude::*;

verus! {

/// What is computed from each row of a record batch.
#[derive(Debug)]
pub enum Expression {
    /// The same value in every row.
    Literal(Scalar),
    /// The column at a path of names, from the outermost in.
    Column(Vec<String>),
    /// A struct of these values.
    Struct(Vec<Expression>),
    /// A patch that changes no field of the struct at a path, or of the whole row.
    StructPatch { input_path: Option<Vec<String>> },
}

/// How the parts of a junction combine.
#[derive(Clone, Copy, Debug, PartialEq, Eq, Structural)]
pub enum JunctionOp {
    And,
    Or,
}

/// A condition on each row of a record batch. Where it depends on a null it may be unknown.
#[derive(Debug)]
pub enum Predicate {
    /// The truth value that an expression says.
    BooleanExpression(Expression),
    Not(Box<Predicate>),
    Junction(JunctionOp, Vec<Predicate>),
}

pub open spec fn names_view(names: Seq<String>) -> Seq<Seq<char>> {
    Seq::new(names.len(), |i: int| names[i]@)
}

/// The rows of a batch as a struct column.
pub open spec fn batch_struct(b: BatchView) -> Column {
    Column::Struct { fields: b.fields, columns: b.columns, validity: times(true, b.rows) }
}

/// Whether `i` is the first of the fields with this name.
pub open spec fn first_named(fields: Seq<ArrowField>, name: Seq<char>, i: int) -> bool {
    &&& 0 <= i < fields.len()
    &&& fields[i].name == name
    &&& forall|j: int| 0 <= j < i ==> (#[trigger] fields[j]).name != name
}

/// The position of the first field with this name.
pub open spec fn position(fields: Seq<ArrowField>, name: Seq<char>) -> Option<int> {
    if exists|i: int| first_named(fields, name, i) {
        Some(choose|i: int| first_named(fields, name, i))
    } else {
        None
    }
}

/// The column at a path within a struct.
pub open spec fn column_at(c: Column, path: Seq<Seq<char>>) -> Result<Column, ErrorView>
    decreases path.len(),
{
    if path.len() == 0 {
        Err(ErrorView::EmptyColumnPath)
    } else {
        match position(c->Struct_fields, path[0]) {
            None => Err(ErrorView::NoSuchField(path[0])),
            Some(i) => {
                let child = c->Struct_columns[i];
                if path.len() == 1 {
                    Ok(child)
                } else if child is Struct {
                    column_at(child, path.drop_first())
                } else {
                    Err(ErrorView::NotAStruct(path[1]))
                }
            },
        }
    }
}

/// The type that is asked for, if any.
pub open spec fn wanted(t: Option<&KernelDataType>) -> Option<TypeView> {
    match t {
        Some(t) => Some(t@),
        None => None,
    }
}

/// The column that an expression says on a batch. Structs take their field names and nullability
/// from the type that is asked for, so they need one.
pub open spec fn evaluated(e: Expression, b: BatchView, t: Option<TypeView>) -> Result<
    Column,
    ErrorView,
>
    decreases e, 0nat,
{
    match e {
        Expression::Literal(s) => scalar_column(s, b.rows),
        Expression::Column(path) => column_at(batch_struct(b), names_view(path@)),
        Expression::Struct(es) => match t {
            Some(TypeView::Struct(fs)) => {
                let count = fewer(es@.len(), fs.len());
                match evaluated_each(es@, b, fs, count) {
                    Err(err) => Err(err),
                    Ok(columns) => struct_of(struct_fields(fs, columns), columns),
                }
            },
            _ => Err(ErrorView::StructTypeRequired),
        },
        Expression::StructPatch { input_path } => match (t, input_path) {
            (Some(TypeView::Struct(_)), None) => Ok(batch_struct(b)),
            (Some(TypeView::Struct(_)), Some(path)) => column_at(
                batch_struct(b),
                names_view(path@),
            ),
            _ => Err(ErrorView::StructTypeRequired),
        },
    }
}

/// The columns that the first `k` expressions say, unless one of them fails.
pub open spec fn evaluated_each(
    es: Seq<Expression>,
    b: BatchView,
    fs: Seq<FieldView>,
    k: nat,
) -> Result<Seq<Column>, ErrorView>
    decreases es, k,
{
    if k == 0 || k > es.len() {
        Ok(seq![])
    } else {
        match (
            evaluated_each(es, b, fs, (k - 1) as nat),
            evaluated(es[k - 1], b, Some(fs[k - 1].data_type)),
        ) {
            (Err(err), _) => Err(err),
            (Ok(_), Err(err)) => Err(err),
            (Ok(columns), Ok(c)) => Ok(columns.push(c)),
        }
    }
}

/// The fields of a struct that is made of these columns.
pub open spec fn struct_fields(fs: Seq<FieldView>, columns: Seq<Column>) -> Seq<ArrowField> {
    Seq::new(
        columns.len(),
        |i: int|
            ArrowField {
                name: fs[i].name,
                data_type: columns[i].data_type(),
                nullable: fs[i].nullable,
                metadata: Map::empty(),
            },
    )
}

/// The struct without null rows that is made of these columns.
pub open spec fn struct_of(fields: Seq<ArrowField>, columns: Seq<Column>) -> Result<
    Column,
    ErrorView,
> {
    let validity = times(true, first_len(columns));
    if struct_accepts(fields, columns, validity) {
        Ok(Column::Struct { fields, columns, validity })
    } else {
        Err(ErrorView::Arrow)
    }
}

/// Whether every literal in an expression is well-typed, and `n` rows of it can be allocated.
pub open spec fn expression_fits(e: Expression, n: nat) -> bool
    decreases e,
{
    match e {
        Expression::Literal(s) => well_typed(s) && scalar_fits(s, n),
        Expression::Struct(es) => forall|i: int|
            0 <= i < es@.len() ==> expression_fits(#[trigger] es@[i], n),
        _ => true,
    }
}

proof fn lemma_position(fields: Seq<ArrowField>, name: Seq<char>, i: int)
    requires
        first_named(fields, name, i),
    ensures
        position(fields, name) == Some(i),
{
    let j = choose|j: int| first_named(fields, name, j);
    if j < i {
        assert(fields[j].name != name);
    } else if i < j {
        assert(fields[i].name != name);
    }
}

/// Finds the first field with this name.
fn find_field(fields: &Vec<Field>, name: &String) -> (r: Option<usize>)
    ensures
        match r {
            Some(i) => position(fields_seq(fields@), name@) == Some(i as int)
                && i < fields@.len(),
            None => position(fields_seq(fields@), name@) is None,
        },
{
    let ghost all = fields_seq(fields@);
    let mut i: usize = 0;
    while i < fields.len()
        invariant
            i <= fields.len(),
            all == fields_seq(fields@),
            forall|j: int| 0 <= j < i ==> (#[trigger] all[j]).name != name@,
        decreases fields.len() - i,
    {
        assert(all[i as int] == field_of(fields@[i as int]));
        if field_name(&fields[i]) == *name {
            proof {
                lemma_position(all, name@, i as int);
            }
            return Some(i);
        }
        i += 1;
    }
    proof {
        if exists|k: int| first_named(all, name@, k) {
            let k = choose|k: int| first_named(all, name@, k);
            assert(all[k].name != name@);
        }
    }
    None
}

/// Extracts the column at a path of names from a batch.
pub fn extract_column(batch: &ArrowBatch, path: &Vec<String>) -> (r: Result<ArrowArray, Error>)
    ensures
        is_array_result(r, column_at(batch_struct(batch@), names_view(path@))),
{
    let ghost names = names_view(path@);
    let ghost whole = batch_struct(batch@);
    let mut parent = batch.to_struct();
    let mut i: usize = 0;
    assert(names.skip(0) =~= names);
    loop
        invariant
            i <= path.len(),
            i > 0 ==> i < path.len(),
            names == names_view(path@),
            whole == batch_struct(batch@),
            parent@ is Struct,
            column_at(whole, names) == column_at(parent@, names.skip(i as int)),
        decreases path.len() - i,
    {
        if i >= path.len() {
            return Err(Error::EmptyColumnPath);
        }
        let ghost rest = names.skip(i as int);
        assert(rest[0] == path@[i as int]@);
        assert(rest.drop_first() =~= names.skip(i + 1));
        let StructParts { fields, columns, .. } = match parent.struct_parts() {
            Some(parts) => parts,
            None => {
                return Err(Error::EmptyColumnPath);
            },
        };
        let fields = list_fields(&fields);
        let k: usize = match find_field(&fields, &path[i]) {
            Some(k) => k,
            None => {
                return Err(Error::NoSuchField(path[i].clone()));
            },
        };
        assert(parent@->Struct_columns[k as int] == columns@[k as int]@);
        let child = columns[k].share();
        if i + 1 >= path.len() {
            return Ok(child);
        }
        assert(rest[1] == path@[i + 1]@);
        if child.struct_parts().is_none() {
            return Err(Error::NotAStruct(path[i + 1].clone()));
        }
        parent = child;
        i += 1;
    }
}

proof fn lemma_evaluated_each_stop(
    es: Seq<Expression>,
    b: BatchView,
    fs: Seq<FieldView>,
    j: nat,
    k: nat,
)
    requires
        j <= k <= es.len(),
        evaluated_each(es, b, fs, j) is Err,
    ensures
        evaluated_each(es, b, fs, k) == evaluated_each(es, b, fs, j),
    decreases k,
{
    if j < k {
        lemma_evaluated_each_stop(es, b, fs, j, (k - 1) as nat);
    }
}

/// Evaluates an expression on a batch, for a result of type `result_type` where one is given.
pub fn evaluate_expression(
    expression: &Expression,
    batch: &ArrowBatch,
    result_type: Option<&KernelDataType>,
) -> (r: Result<ArrowArray, Error>)
    requires
        expression_fits(*expression, batch@.rows),
    ensures
        is_array_result(r, evaluated(*expression, batch@, wanted(result_type))),
    decreases expression, 0nat,
{
    match expression {
        Expression::Literal(scalar) => {
            let rows: usize = batch.num_rows();
            scalar.to_array(rows)
        },
        Expression::Column(path) => extract_column(batch, path),
        Expression::Struct(expressions) => match result_type {
            Some(KernelDataType::Struct(stype)) => evaluate_struct(
                expressions,
                batch,
                &stype.fields,
            ),
            _ => Err(Error::StructTypeRequired),
        },
        Expression::StructPatch { input_path } => match result_type {
            Some(KernelDataType::Struct(_)) => match input_path {
                None => Ok(batch.to_struct()),
                Some(path) => extract_column(batch, path),
            },
            _ => Err(Error::StructTypeRequired),
        },
    }
}

/// Evaluates expressions on a batch and makes a struct of them.
fn evaluate_struct(
    expressions: &Vec<Expression>,
    batch: &ArrowBatch,
    target: &Vec<StructField>,
) -> (r: Result<ArrowArray, Error>)
    requires
        forall|i: int|
            0 <= i < expressions@.len() ==> expression_fits(
                #[trigger] expressions@[i],
                batch@.rows,
            ),
    ensures
        is_array_result(
            r,
            match evaluated_each(
                expressions@,
                batch@,
                fields_view(target@),
                fewer(expressions@.len(), target@.len()),
            ) {
                Err(err) => Err(err),
                Ok(columns) => struct_of(struct_fields(fields_view(target@), columns), columns),
            },
        ),
    decreases expressions, 1nat,
{
    let ghost b = batch@;
    let ghost es = expressions@;
    let ghost fs = fields_view(target@);
    let ghost count = fewer(es.len(), fs.len());
    let mut columns: Vec<ArrowArray> = Vec::new();
    let mut fields: Vec<Field> = Vec::new();
    let mut i: usize = 0;
    proof {
        lemma_fields_view(target@);
        assert(columns_of(columns@) =~= seq![]);
        assert(fields_seq(fields@) =~= seq![]);
        assert(struct_fields(fs, seq![]) =~= seq![]);
    }
    while i < expressions.len() && i < target.len()
        invariant
            i <= count,
            b == batch@,
            es == expressions@,
            fs == fields_view(target@),
            fs.len() == target@.len(),
            count == fewer(es.len(), fs.len()),
            forall|j: int| 0 <= j < es.len() ==> expression_fits(#[trigger] es[j], b.rows),
            columns@.len() == i,
            evaluated_each(es, b, fs, i as nat) == Ok::<Seq<Column>, ErrorView>(
                columns_of(columns@),
            ),
            fields_seq(fields@) == struct_fields(fs, columns_of(columns@)),
        decreases expressions.len() - i,
    {
        proof {
            lemma_fields_view(target@);
        }
        assert(decreases_to!(*expressions => expressions@[i as int]));
        let column = match evaluate_expression(&expressions[i], batch, Some(&target[i].data_type)) {
            Ok(column) => column,
            Err(e) => {
                proof {
                    lemma_evaluated_each_stop(es, b, fs, (i + 1) as nat, count);
                }
                return Err(e);
            },
        };
        let field = new_field(target[i].name.as_str(), column.data_type(), target[i].nullable);
        let ghost before = columns_of(columns@);
        let ghost before_fields = fields_seq(fields@);
        columns.push(column);
        fields.push(field);
        proof {
            assert(columns_of(columns@) =~= before.push(column@));
            assert(fields_seq(fields@) =~= before_fields.push(field_of(field)));
            assert(struct_fields(fs, columns_of(columns@)) =~= fields_seq(fields@));
        }
        i += 1;
    }
    match ArrowArray::struct_from_parts(collect_fields(fields), columns, None) {
        Ok(out) => Ok(out),
        Err(e) => Err(Error::Arrow(e)),
    }
}

} // verus!

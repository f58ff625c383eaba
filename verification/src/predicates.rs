//! Evaluating predicates on record batches.
use crate::append::append;
use crate::arrow_arrays::{
    boolean_column, is_boolean, kleene_and, kleene_not, kleene_or, ArrowArray, ArrowBatch,
};
use crate::error::{Error, ErrorView};
use crate::evaluate::{evaluate_expression, evaluated, expression_fits, JunctionOp, Predicate};
use crate::model::{
    empty_column, lemma_byte_count_times, max_slots, times, ArrowType, BatchView, Cell, Column,
};
use crate::scalars::{well_typed, Scalar};
use crate::schema::{KernelDataType, PrimitiveType, TypeView};
use crate::to_array::{scalar_column, scalar_fits};
use vstd::prelude::*;

verus! {

/// `not`, row by row.
pub open spec fn negated(cells: Seq<Cell>) -> Seq<Cell> {
    Seq::new(cells.len(), |i: int| kleene_not(cells[i]))
}

/// `and` or `or`, row by row.
pub open spec fn combined(conjunction: bool, a: Seq<Cell>, b: Seq<Cell>) -> Seq<Cell> {
    Seq::new(
        a.len(),
        |i: int|
            if conjunction {
                kleene_and(a[i], b[i])
            } else {
                kleene_or(a[i], b[i])
            },
    )
}

/// Whether the parts of a junction are joined by `and`. An inverted junction has inverted parts and
/// the other operator.
pub open spec fn joins_by_and(op: JunctionOp, inverted: bool) -> bool {
    (op == JunctionOp::And) != inverted
}

/// What a predicate, or where `inverted` its opposite, says in each row of a batch.
pub open spec fn truth(p: Predicate, b: BatchView, inverted: bool) -> Result<Seq<Cell>, ErrorView>
    decreases p, 0nat,
{
    match p {
        Predicate::BooleanExpression(e) => match evaluated(
            e,
            b,
            Some(TypeView::Primitive(PrimitiveType::Boolean)),
        ) {
            Err(err) => Err(err),
            Ok(c) => if !is_boolean(c) {
                Err(ErrorView::NotBoolean)
            } else if inverted {
                Ok(negated(c->Leaf_cells))
            } else {
                Ok(c->Leaf_cells)
            },
        },
        Predicate::Not(q) => truth(*q, b, !inverted),
        Predicate::Junction(op, ps) => if ps@.len() == 0 {
            Ok(times(Cell::Boolean(joins_by_and(op, inverted)), b.rows))
        } else {
            joined(ps@, b, inverted, joins_by_and(op, inverted), ps@.len())
        },
    }
}

/// What the first `k` predicates say together, `k` being at least one.
pub open spec fn joined(
    ps: Seq<Predicate>,
    b: BatchView,
    inverted: bool,
    conjunction: bool,
    k: nat,
) -> Result<Seq<Cell>, ErrorView>
    decreases ps, k,
{
    if k == 0 || k > ps.len() {
        Ok(seq![])
    } else if k == 1 {
        truth(ps[0], b, inverted)
    } else {
        match (
            joined(ps, b, inverted, conjunction, (k - 1) as nat),
            truth(ps[k - 1], b, inverted),
        ) {
            (Err(e), _) => Err(e),
            (Ok(_), Err(e)) => Err(e),
            (Ok(x), Ok(y)) => if x.len() != y.len() {
                Err(ErrorView::Arrow)
            } else {
                Ok(combined(conjunction, x, y))
            },
        }
    }
}

/// Whether the literals in a predicate are well-typed, and `n` rows of them can be allocated.
pub open spec fn predicate_fits(p: Predicate, n: nat) -> bool
    decreases p,
{
    match p {
        Predicate::BooleanExpression(e) => expression_fits(e, n),
        Predicate::Not(q) => predicate_fits(*q, n),
        Predicate::Junction(_, ps) => {
            &&& n <= max_slots()
            &&& forall|i: int| 0 <= i < ps@.len() ==> predicate_fits(#[trigger] ps@[i], n)
        },
    }
}

/// Whether a result is the truth values that `expected` says.
pub open spec fn is_truth_result(
    r: Result<ArrowArray, Error>,
    expected: Result<Seq<Cell>, ErrorView>,
) -> bool {
    match r {
        Ok(a) => is_boolean(a@) && expected == Ok::<Seq<Cell>, ErrorView>(a@->Leaf_cells),
        Err(e) => expected == Err::<Seq<Cell>, ErrorView>(e@),
    }
}

proof fn lemma_boolean_scalar(v: bool, n: nat)
    requires
        n <= max_slots(),
    ensures
        well_typed(Scalar::Boolean(v)),
        scalar_fits(Scalar::Boolean(v), n),
        scalar_column(Scalar::Boolean(v), n) == Ok::<Column, ErrorView>(
            boolean_column(times(Cell::Boolean(v), n)),
        ),
{
    let cells = Seq::<Cell>::empty();
    lemma_byte_count_times(cells, Cell::Boolean(v), n);
    assert(n * 0 == 0) by (nonlinear_arith);
    assert(cells + times(Cell::Boolean(v), n) =~= times(Cell::Boolean(v), n));
    let c = empty_column(ArrowType::Boolean);
    assert(c == Column::Leaf { data_type: ArrowType::Boolean, cells });
    assert(append(c, Scalar::Boolean(v), n).column == boolean_column(
        times(Cell::Boolean(v), n),
    ));
}

proof fn lemma_joined_stop(
    ps: Seq<Predicate>,
    b: BatchView,
    inverted: bool,
    conjunction: bool,
    j: nat,
    k: nat,
)
    requires
        1 <= j <= k <= ps.len(),
        joined(ps, b, inverted, conjunction, j) is Err,
    ensures
        joined(ps, b, inverted, conjunction, k) == joined(ps, b, inverted, conjunction, j),
    decreases k,
{
    if j < k {
        lemma_joined_stop(ps, b, inverted, conjunction, j, (k - 1) as nat);
    }
}

/// Evaluates a predicate, or where `inverted` its opposite, on a batch.
pub fn evaluate_predicate(predicate: &Predicate, batch: &ArrowBatch, inverted: bool) -> (r: Result<
    ArrowArray,
    Error,
>)
    requires
        predicate_fits(*predicate, batch@.rows),
    ensures
        is_truth_result(r, truth(*predicate, batch@, inverted)),
    decreases predicate, 0nat,
{
    match predicate {
        Predicate::BooleanExpression(expression) => {
            let boolean = KernelDataType::Primitive(PrimitiveType::Boolean);
            let array = match evaluate_expression(expression, batch, Some(&boolean)) {
                Ok(array) => array,
                Err(e) => {
                    return Err(e);
                },
            };
            if !array.holds_booleans() {
                return Err(Error::NotBoolean);
            }
            if !inverted {
                return Ok(array);
            }
            match array.not() {
                Ok(out) => {
                    assert(out@->Leaf_cells =~= negated(array@->Leaf_cells));
                    Ok(out)
                },
                Err(e) => Err(Error::Arrow(e)),
            }
        },
        Predicate::Not(inner) => evaluate_predicate(inner, batch, !inverted),
        Predicate::Junction(op, predicates) => {
            let conjunction = (*op == JunctionOp::And) != inverted;
            if predicates.len() == 0 {
                let rows: usize = batch.num_rows();
                proof {
                    lemma_boolean_scalar(conjunction, rows as nat);
                }
                return Scalar::Boolean(conjunction).to_array(rows);
            }
            evaluate_junction(predicates, batch, inverted, conjunction)
        },
    }
}

/// Evaluates predicates on a batch and joins what they say.
fn evaluate_junction(
    predicates: &Vec<Predicate>,
    batch: &ArrowBatch,
    inverted: bool,
    conjunction: bool,
) -> (r: Result<ArrowArray, Error>)
    requires
        predicates@.len() > 0,
        forall|i: int|
            0 <= i < predicates@.len() ==> predicate_fits(
                #[trigger] predicates@[i],
                batch@.rows,
            ),
    ensures
        is_truth_result(
            r,
            joined(predicates@, batch@, inverted, conjunction, predicates@.len()),
        ),
    decreases predicates, 1nat,
{
    let ghost ps = predicates@;
    let ghost b = batch@;
    assert(decreases_to!(*predicates => predicates@[0]));
    let mut out = match evaluate_predicate(&predicates[0], batch, inverted) {
        Ok(out) => out,
        Err(e) => {
            proof {
                lemma_joined_stop(ps, b, inverted, conjunction, 1, ps.len());
            }
            return Err(e);
        },
    };
    let mut i: usize = 1;
    while i < predicates.len()
        invariant
            1 <= i <= predicates.len(),
            ps == predicates@,
            b == batch@,
            forall|j: int| 0 <= j < ps.len() ==> predicate_fits(#[trigger] ps[j], b.rows),
            is_boolean(out@),
            joined(ps, b, inverted, conjunction, i as nat) == Ok::<Seq<Cell>, ErrorView>(
                out@->Leaf_cells,
            ),
        decreases predicates.len() - i,
    {
        assert(decreases_to!(*predicates => predicates@[i as int]));
        let next = match evaluate_predicate(&predicates[i], batch, inverted) {
            Ok(next) => next,
            Err(e) => {
                proof {
                    lemma_joined_stop(ps, b, inverted, conjunction, (i + 1) as nat, ps.len());
                }
                return Err(e);
            },
        };
        let both = if conjunction {
            out.and(&next)
        } else {
            out.or(&next)
        };
        match both {
            Ok(both) => {
                assert(both@->Leaf_cells =~= combined(
                    conjunction,
                    out@->Leaf_cells,
                    next@->Leaf_cells,
                ));
                out = both;
            },
            Err(e) => {
                proof {
                    lemma_joined_stop(ps, b, inverted, conjunction, (i + 1) as nat, ps.len());
                }
                return Err(Error::Arrow(e));
            },
        }
        i += 1;
    }
    Ok(out)
}

/// Whether the cells are truth values, of which any may be unknown.
pub open spec fn are_truths(cells: Seq<Cell>) -> bool {
    forall|i: int|
        0 <= i < cells.len() ==> (#[trigger] cells[i]) is Boolean || cells[i] is Null
}

/// Whether the boolean columns that a predicate reads hold truth values.
pub open spec fn reads_truths(p: Predicate, b: BatchView) -> bool
    decreases p,
{
    match p {
        Predicate::BooleanExpression(e) => match evaluated(
            e,
            b,
            Some(TypeView::Primitive(PrimitiveType::Boolean)),
        ) {
            Ok(c) => is_boolean(c) ==> are_truths(c->Leaf_cells),
            Err(_) => true,
        },
        Predicate::Not(q) => reads_truths(*q, b),
        Predicate::Junction(_, ps) => forall|i: int|
            0 <= i < ps@.len() ==> reads_truths(#[trigger] ps@[i], b),
    }
}

/// Whether one outcome is the opposite of the other, row by row, or both are the same error.
pub open spec fn opposite(
    x: Result<Seq<Cell>, ErrorView>,
    y: Result<Seq<Cell>, ErrorView>,
) -> bool {
    match x {
        Ok(cells) => are_truths(cells) && y == Ok::<Seq<Cell>, ErrorView>(negated(cells)),
        Err(e) => y == Err::<Seq<Cell>, ErrorView>(e),
    }
}

/// An inverted predicate says the opposite in every row: where the predicate is unknown, so is its
/// opposite.
pub proof fn law_inversion(p: Predicate, b: BatchView, inverted: bool)
    requires
        reads_truths(p, b),
    ensures
        opposite(truth(p, b, inverted), truth(p, b, !inverted)),
    decreases p, 0nat,
{
    match p {
        Predicate::BooleanExpression(e) => {
            match evaluated(e, b, Some(TypeView::Primitive(PrimitiveType::Boolean))) {
                Ok(c) => {
                    if is_boolean(c) {
                        assert(negated(negated(c->Leaf_cells)) =~= c->Leaf_cells);
                    }
                },
                Err(_) => {},
            }
        },
        Predicate::Not(q) => {
            law_inversion(*q, b, !inverted);
        },
        Predicate::Junction(op, ps) => {
            if ps@.len() == 0 {
                let x = times(Cell::Boolean(joins_by_and(op, inverted)), b.rows);
                assert(negated(x) =~= times(
                    Cell::Boolean(joins_by_and(op, !inverted)),
                    b.rows,
                ));
            } else {
                lemma_inversion_joined(ps@, b, inverted, joins_by_and(op, inverted), ps@.len());
            }
        },
    }
}

proof fn lemma_inversion_joined(
    ps: Seq<Predicate>,
    b: BatchView,
    inverted: bool,
    conjunction: bool,
    k: nat,
)
    requires
        1 <= k <= ps.len(),
        forall|i: int| 0 <= i < ps.len() ==> reads_truths(#[trigger] ps[i], b),
    ensures
        opposite(
            joined(ps, b, inverted, conjunction, k),
            joined(ps, b, !inverted, !conjunction, k),
        ),
    decreases ps, k,
{
    law_inversion(ps[k - 1], b, inverted);
    if k > 1 {
        lemma_inversion_joined(ps, b, inverted, conjunction, (k - 1) as nat);
        match (
            joined(ps, b, inverted, conjunction, (k - 1) as nat),
            truth(ps[k - 1], b, inverted),
        ) {
            (Ok(x), Ok(y)) => {
                if x.len() == y.len() {
                    assert(negated(combined(conjunction, x, y)) =~= combined(
                        !conjunction,
                        negated(x),
                        negated(y),
                    ));
                }
            },
            _ => {},
        }
    }
}

} // verus!

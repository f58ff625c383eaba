//! What predicates promise, row by row.
use crate::apply_schema::is_batch_result;
use crate::arrow_arrays::ArrowBatch;
use crate::error::{Error, ErrorView};
use crate::evaluate::{evaluated, Expression, JunctionOp, Predicate};
use crate::evaluate_laws::{law_evaluated_rows, sound_batch};
use crate::evaluators::truth_batch;
use crate::model::{ArrowType, BatchView, Cell, Column};
use crate::predicates::{
    are_truths, joined, joins_by_and, law_inversion, predicate_fits, reads_truths, truth,
};
use crate::schema::{PrimitiveType, TypeView};
use vstd::prelude::*;

verus! {

/// What the parts of a junction say, each by itself, in row `i`.
pub open spec fn part_says(
    ps: Seq<Predicate>,
    b: BatchView,
    inverted: bool,
    j: int,
    i: int,
) -> Cell {
    truth(ps[j], b, inverted)->Ok_0[i]
}

/// Whether a cell is what `and` says of all parts in row `i`: false where some part is false, true
/// where all parts are true, and otherwise unknown.
pub open spec fn says_all(
    cell: Cell,
    ps: Seq<Predicate>,
    b: BatchView,
    inverted: bool,
    k: nat,
    i: int,
) -> bool {
    &&& cell == Cell::Boolean(false) <==> exists|j: int|
        0 <= j < k && #[trigger] part_says(ps, b, inverted, j, i) == Cell::Boolean(false)
    &&& cell == Cell::Boolean(true) <==> forall|j: int|
        0 <= j < k ==> #[trigger] part_says(ps, b, inverted, j, i) == Cell::Boolean(true)
    &&& cell is Boolean || cell is Null
}

/// Whether a cell is what `or` says of all parts in row `i`: true where some part is true, false
/// where all parts are false, and otherwise unknown.
pub open spec fn says_some(
    cell: Cell,
    ps: Seq<Predicate>,
    b: BatchView,
    inverted: bool,
    k: nat,
    i: int,
) -> bool {
    &&& cell == Cell::Boolean(true) <==> exists|j: int|
        0 <= j < k && #[trigger] part_says(ps, b, inverted, j, i) == Cell::Boolean(true)
    &&& cell == Cell::Boolean(false) <==> forall|j: int|
        0 <= j < k ==> #[trigger] part_says(ps, b, inverted, j, i) == Cell::Boolean(false)
    &&& cell is Boolean || cell is Null
}

/// Whether no part says anything but truth values.
pub open spec fn parts_are_truths(ps: Seq<Predicate>, b: BatchView, inverted: bool) -> bool {
    forall|j: int|
        #![trigger ps[j]]
        0 <= j < ps.len() ==> (truth(ps[j], b, inverted) matches Ok(cells) ==> are_truths(cells))
}

/// Whether each of the first `k` parts says something in `n` rows.
pub open spec fn parts_say(
    ps: Seq<Predicate>,
    b: BatchView,
    inverted: bool,
    k: nat,
    n: nat,
) -> bool {
    forall|j: int|
        #![trigger ps[j]]
        0 <= j < k ==> truth(ps[j], b, inverted) is Ok && truth(ps[j], b, inverted)->Ok_0.len() == n
}

/// Whether part `j` is the first that fails, and with this error.
pub open spec fn first_failing(
    ps: Seq<Predicate>,
    b: BatchView,
    inverted: bool,
    j: int,
    e: ErrorView,
) -> bool {
    &&& 0 <= j < ps.len()
    &&& truth(ps[j], b, inverted) == Err::<Seq<Cell>, ErrorView>(e)
    &&& forall|l: int| #![trigger ps[l]] 0 <= l < j ==> truth(ps[l], b, inverted) is Ok
}

/// Whether two parts say something in different numbers of rows.
pub open spec fn parts_differ(ps: Seq<Predicate>, b: BatchView, inverted: bool) -> bool {
    exists|j: int|
        #![trigger ps[j]]
        0 <= j < ps.len() && truth(ps[j], b, inverted) is Ok && truth(ps[0], b, inverted) is Ok
            && truth(ps[j], b, inverted)->Ok_0.len() != truth(ps[0], b, inverted)->Ok_0.len()
}

proof fn lemma_joined(
    ps: Seq<Predicate>,
    b: BatchView,
    inverted: bool,
    conjunction: bool,
    k: nat,
)
    requires
        1 <= k <= ps.len(),
        parts_are_truths(ps, b, inverted),
    ensures
        match joined(ps, b, inverted, conjunction, k) {
            Ok(cells) => {
                &&& parts_say(ps, b, inverted, k, cells.len())
                &&& forall|i: int|
                    #![trigger cells[i]]
                    0 <= i < cells.len() ==> if conjunction {
                        says_all(cells[i], ps, b, inverted, k, i)
                    } else {
                        says_some(cells[i], ps, b, inverted, k, i)
                    }
            },
            Err(e) => {
                ||| exists|j: int| j < k && #[trigger] first_failing(ps, b, inverted, j, e)
                ||| e == ErrorView::Arrow && parts_differ(ps, b, inverted)
            },
        },
    decreases k,
{
    let own = truth(ps[k - 1], b, inverted);
    if k == 1 {
        match own {
            Ok(cells) => {
                assert forall|i: int| #![trigger cells[i]] 0 <= i < cells.len() implies if conjunction {
                    says_all(cells[i], ps, b, inverted, k, i)
                } else {
                    says_some(cells[i], ps, b, inverted, k, i)
                } by {
                    assert(part_says(ps, b, inverted, 0, i) == cells[i]);
                }
            },
            Err(e) => {
                assert(first_failing(ps, b, inverted, 0, e));
            },
        }
    } else {
        let before = joined(ps, b, inverted, conjunction, (k - 1) as nat);
        lemma_joined(ps, b, inverted, conjunction, (k - 1) as nat);
        match (before, own) {
            (Ok(x), Ok(y)) => {
                assert(truth(ps[0], b, inverted)->Ok_0.len() == x.len());
                if x.len() == y.len() {
                    let cells = joined(ps, b, inverted, conjunction, k)->Ok_0;
                    assert forall|i: int|
                        #![trigger cells[i]]
                        0 <= i < cells.len() implies if conjunction {
                        says_all(cells[i], ps, b, inverted, k, i)
                    } else {
                        says_some(cells[i], ps, b, inverted, k, i)
                    } by {
                        assert(part_says(ps, b, inverted, k - 1, i) == y[i]);
                        assert(y[i] is Boolean || y[i] is Null);
                        if conjunction {
                            assert(says_all(x[i], ps, b, inverted, (k - 1) as nat, i));
                        } else {
                            assert(says_some(x[i], ps, b, inverted, (k - 1) as nat, i));
                        }
                    }
                } else {
                    assert(parts_differ(ps, b, inverted));
                }
            },
            (Ok(_), Err(e)) => {
                assert(first_failing(ps, b, inverted, k - 1, e));
            },
            (Err(_), _) => {},
        }
    }
}

/// A junction says something exactly where all of its parts do, in equally many rows. In each row an
/// `and` is false where some part is false, true where all parts are true, and otherwise unknown. An
/// `or` is true where some part is true, false where all parts are false, and otherwise unknown.
/// What is said of no parts is said of every row of the batch. Where a part fails, the first that
/// does is reported.
pub proof fn law_junction(op: JunctionOp, parts: Vec<Predicate>, b: BatchView)
    requires
        parts_are_truths(parts@, b, false),
    ensures
        match truth(Predicate::Junction(op, parts), b, false) {
            Ok(cells) => {
                &&& parts_say(parts@, b, false, parts@.len(), cells.len())
                &&& parts@.len() == 0 ==> cells.len() == b.rows
                &&& forall|i: int|
                    #![trigger cells[i]]
                    0 <= i < cells.len() ==> match op {
                        JunctionOp::And => says_all(
                            cells[i],
                            parts@,
                            b,
                            false,
                            parts@.len(),
                            i,
                        ),
                        JunctionOp::Or => says_some(cells[i], parts@, b, false, parts@.len(), i),
                    }
            },
            Err(e) => {
                ||| exists|j: int| #[trigger] first_failing(parts@, b, false, j, e)
                ||| e == ErrorView::Arrow && parts_differ(parts@, b, false)
            },
        },
{
    if parts@.len() > 0 {
        lemma_joined(parts@, b, false, op == JunctionOp::And, parts@.len());
    }
}

/// A negated junction says the opposite of its parts joined by the other operator: an `and` is then
/// true where the opposite of some part is, an `or` where the opposites of all parts are.
pub proof fn law_negated_junction(op: JunctionOp, parts: Vec<Predicate>, b: BatchView)
    requires
        parts_are_truths(parts@, b, true),
    ensures
        match truth(Predicate::Junction(op, parts), b, true) {
            Ok(cells) => {
                &&& parts_say(parts@, b, true, parts@.len(), cells.len())
                &&& parts@.len() == 0 ==> cells.len() == b.rows
                &&& forall|i: int|
                    #![trigger cells[i]]
                    0 <= i < cells.len() ==> match op {
                        JunctionOp::And => says_some(cells[i], parts@, b, true, parts@.len(), i),
                        JunctionOp::Or => says_all(cells[i], parts@, b, true, parts@.len(), i),
                    }
            },
            Err(e) => {
                ||| exists|j: int| #[trigger] first_failing(parts@, b, true, j, e)
                ||| e == ErrorView::Arrow && parts_differ(parts@, b, true)
            },
        },
{
    if parts@.len() > 0 {
        lemma_joined(parts@, b, true, op == JunctionOp::Or, parts@.len());
    }
}

/// A negated predicate is true where the predicate is false, false where it is true, and unknown
/// where it is unknown. It fails where the predicate does. Negating twice changes nothing.
pub proof fn law_not(p: Box<Predicate>, b: BatchView)
    requires
        reads_truths(*p, b),
    ensures
        match truth(*p, b, false) {
            Ok(cells) => {
                let r = truth(Predicate::Not(p), b, false);
                &&& r is Ok
                &&& r->Ok_0.len() == cells.len()
                &&& forall|i: int|
                    #![trigger cells[i]]
                    0 <= i < cells.len() ==> {
                        ||| cells[i] == Cell::Boolean(true) && r->Ok_0[i] == Cell::Boolean(false)
                        ||| cells[i] == Cell::Boolean(false) && r->Ok_0[i] == Cell::Boolean(true)
                        ||| cells[i] == Cell::Null && r->Ok_0[i] == Cell::Null
                    }
            },
            Err(e) => truth(Predicate::Not(p), b, false) == Err::<Seq<Cell>, ErrorView>(e),
        },
        truth(Predicate::Not(Box::new(Predicate::Not(p))), b, false) == truth(*p, b, false),
{
    law_inversion(*p, b, false);
    assert(truth(Predicate::Not(p), b, true) == truth(*p, b, false));
}

/// A predicate that is an expression says what the expression says for a result of truth values, in
/// as many rows, and fails where that is something else.
pub proof fn law_boolean_expression(e: Expression, b: BatchView)
    ensures
        ({
            let own = evaluated(e, b, Some(TypeView::Primitive(PrimitiveType::Boolean)));
            let p = truth(Predicate::BooleanExpression(e), b, false);
            &&& own matches Err(err) ==> p == Err::<Seq<Cell>, ErrorView>(err)
            &&& own matches Ok(c) ==> match c {
                Column::Leaf { data_type: ArrowType::Boolean, cells } => p == Ok::<
                    Seq<Cell>,
                    ErrorView,
                >(cells),
                _ => p == Err::<Seq<Cell>, ErrorView>(ErrorView::NotBoolean),
            }
        }),
{
}

/// A predicate says something in each row of the batch.
pub proof fn law_truth_rows(p: Predicate, b: BatchView, inverted: bool)
    requires
        sound_batch(b),
        predicate_fits(p, b.rows),
    ensures
        truth(p, b, inverted) matches Ok(cells) ==> cells.len() == b.rows,
    decreases p, 0nat,
{
    match p {
        Predicate::BooleanExpression(e) => {
            law_evaluated_rows(e, b, Some(TypeView::Primitive(PrimitiveType::Boolean)));
        },
        Predicate::Not(q) => {
            law_truth_rows(*q, b, !inverted);
        },
        Predicate::Junction(op, ps) => {
            if ps@.len() > 0 {
                assert(predicate_fits(ps@[0], b.rows));
                law_truth_rows(ps@[0], b, inverted);
                lemma_joined_rows(ps@, b, inverted, joins_by_and(op, inverted), ps@.len());
            }
        },
    }
}

proof fn lemma_joined_rows(
    ps: Seq<Predicate>,
    b: BatchView,
    inverted: bool,
    conjunction: bool,
    k: nat,
)
    requires
        1 <= k <= ps.len(),
        truth(ps[0], b, inverted) matches Ok(cells) ==> cells.len() == b.rows,
    ensures
        joined(ps, b, inverted, conjunction, k) matches Ok(cells) ==> cells.len() == b.rows,
    decreases k,
{
    if k > 1 {
        lemma_joined_rows(ps, b, inverted, conjunction, (k - 1) as nat);
    }
}

/// Evaluating a predicate on a batch gives one nullable column of truth values under the name of the
/// output, with what the predicate says in each row, or the error that it fails with.
pub proof fn law_predicate_batch(p: Predicate, b: BatchView, r: Result<ArrowBatch, Error>)
    requires
        is_batch_result(r, truth_batch(p, b)),
    ensures
        match r {
            Ok(out) => {
                let cells = truth(p, b, false)->Ok_0;
                &&& truth(p, b, false) is Ok
                &&& out@.rows == cells.len()
                &&& out@.fields.len() == 1
                &&& out@.fields[0].name == "output"@
                &&& out@.fields[0].data_type == ArrowType::Boolean
                &&& out@.fields[0].nullable
                &&& out@.fields[0].metadata == Map::<Seq<char>, Seq<char>>::empty()
                &&& out@.columns.len() == 1
                &&& out@.columns[0] == (Column::Leaf { data_type: ArrowType::Boolean, cells })
            },
            Err(e) => truth(p, b, false) == Err::<Seq<Cell>, ErrorView>(e@),
        },
{
}

} // verus!

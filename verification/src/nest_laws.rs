//! What is promised of a row that is made of the values at the leaves of its schema.
use crate::arrow_arrays::ArrowBatch;
use crate::conversion::arrow_fields;
use crate::create_one::{
    all_writable, is_all_null, is_created, lacks_value, nested, nested_fields, nested_row,
};
use crate::error::{Error, ErrorView};
use crate::rows::{row, value, Row};
use crate::scalar_laws::law_value;
use crate::scalars::{scalar_type, Scalar};
use crate::schema::{FieldView, TypeView};
use vstd::prelude::*;

verus! {

/// The types of the leaves of a type, in order: a struct has the leaves of its fields, and anything
/// else is a leaf itself.
pub open spec fn leaf_types(t: TypeView) -> Seq<TypeView>
    decreases t, 0nat,
{
    match t {
        TypeView::Struct(fs) => field_leaf_types(fs, fs.len()),
        _ => seq![t],
    }
}

/// The types of the leaves of the first `k` fields, in order.
pub open spec fn field_leaf_types(fs: Seq<FieldView>, k: nat) -> Seq<TypeView>
    decreases fs, k,
{
    if k == 0 || k > fs.len() {
        seq![]
    } else {
        field_leaf_types(fs, (k - 1) as nat) + leaf_types(fs[k - 1].data_type)
    }
}

/// The number of leaves in front of field `i`.
pub open spec fn leaf_start(fs: Seq<FieldView>, i: int) -> int {
    field_leaf_types(fs, i as nat).len() as int
}

/// The leaf values of field `i`.
pub open spec fn own_leaves(fs: Seq<FieldView>, leaves: Seq<Scalar>, i: int) -> Seq<Scalar> {
    leaves.subrange(leaf_start(fs, i), leaf_start(fs, i + 1))
}

/// Whether a value of type `t` has each of the leaf values at its own leaf. A struct that is null is
/// null at all of its leaves.
pub open spec fn stands_in(v: Row, t: TypeView, leaves: Seq<Scalar>) -> bool
    decreases t,
{
    match t {
        TypeView::Struct(fs) => {
            &&& leaves.len() == field_leaf_types(fs, fs.len()).len()
            &&& match v {
                Row::Null => forall|k: int|
                    0 <= k < leaves.len() ==> (#[trigger] leaves[k]) is Null,
                Row::Struct(rows) => {
                    &&& rows.len() == fs.len()
                    &&& forall|i: int|
                        #![trigger rows[i]]
                        0 <= i < fs.len() ==> stands_in(
                            rows[i],
                            fs[i].data_type,
                            own_leaves(fs, leaves, i),
                        )
                },
                _ => false,
            }
        },
        _ => leaves.len() == 1 && v == value(leaves[0]),
    }
}

/// Whether the structs in a value of type `t` are null only where they have a field that is never
/// null, and where they are not, no such field is.
pub open spec fn null_where_forced(v: Row, t: TypeView) -> bool
    decreases t,
{
    match t {
        TypeView::Struct(fs) => match v {
            Row::Null => exists|i: int| 0 <= i < fs.len() && !(#[trigger] fs[i]).nullable,
            Row::Struct(rows) => {
                &&& rows.len() == fs.len()
                &&& forall|i: int|
                    #![trigger rows[i]]
                    0 <= i < fs.len() ==> (rows[i] is Null ==> fs[i].nullable)
                        && null_where_forced(rows[i], fs[i].data_type)
            },
            _ => false,
        },
        _ => true,
    }
}

/// What field `i` of a struct takes from the leaf values by itself.
pub open spec fn part(fs: Seq<FieldView>, leaves: Seq<Scalar>, i: int) -> Result<
    (Row, Seq<Scalar>),
    ErrorView,
> {
    nested(fs[i].data_type, leaves.skip(leaf_start(fs, i)))
}

proof fn lemma_leaf_start(fs: Seq<FieldView>, i: int, j: int)
    requires
        0 <= i <= j <= fs.len(),
    ensures
        0 <= leaf_start(fs, i) <= leaf_start(fs, j),
        i < fs.len() ==> leaf_start(fs, i + 1) == leaf_start(fs, i) + leaf_types(
            fs[i].data_type,
        ).len(),
    decreases j - i,
{
    if i < j {
        lemma_leaf_start(fs, i, j - 1);
    }
}

proof fn lemma_parts(fs: Seq<FieldView>, leaves: Seq<Scalar>, k: nat)
    requires
        k <= fs.len(),
    ensures
        match nested_fields(fs, leaves, k) {
            Ok((rows, rest)) => {
                &&& leaf_start(fs, k as int) <= leaves.len()
                &&& rest == leaves.skip(leaf_start(fs, k as int))
                &&& rows.len() == k
                &&& forall|i: int|
                    #![trigger rows[i]]
                    #![trigger fs[i]]
                    0 <= i < k ==> part(fs, leaves, i) is Ok && rows[i] == part(
                        fs,
                        leaves,
                        i,
                    )->Ok_0.0
            },
            Err(e) => exists|i: int| i < k && #[trigger] first_stuck(fs, leaves, i, e),
        },
    decreases fs, k,
{
    if k == 0 {
        assert(leaves.skip(0) =~= leaves);
    } else {
        lemma_parts(fs, leaves, (k - 1) as nat);
        lemma_taken_fields(fs, leaves, k);
        match nested_fields(fs, leaves, (k - 1) as nat) {
            Ok((rows, rest)) => {
                assert(nested(fs[k - 1].data_type, rest) == part(fs, leaves, k - 1));
                match part(fs, leaves, k - 1) {
                    Ok((v, left)) => {
                        assert(nested_fields(fs, leaves, k)->Ok_0.0 == rows.push(v));
                    },
                    Err(e) => {
                        assert(first_stuck(fs, leaves, k - 1, e));
                    },
                }
            },
            Err(e) => {
                assert(nested_fields(fs, leaves, k) == Err::<(Seq<Row>, Seq<Scalar>), ErrorView>(
                    e,
                ));
            },
        }
    }
}

/// Whether field `i` is the first that cannot take its leaf values, and why.
pub open spec fn first_stuck(
    fs: Seq<FieldView>,
    leaves: Seq<Scalar>,
    i: int,
    e: ErrorView,
) -> bool {
    &&& 0 <= i < fs.len()
    &&& part(fs, leaves, i) == Err::<(Row, Seq<Scalar>), ErrorView>(e)
    &&& forall|j: int| #![trigger fs[j]] 0 <= j < i ==> part(fs, leaves, j) is Ok
}

proof fn lemma_taken(t: TypeView, leaves: Seq<Scalar>)
    ensures
        nested(t, leaves) matches Ok((_, rest)) ==> leaf_types(t).len() <= leaves.len() && rest
            == leaves.skip(leaf_types(t).len() as int),
    decreases t, 0nat,
{
    match t {
        TypeView::Struct(fs) => {
            lemma_taken_fields(fs, leaves, fs.len());
        },
        _ => {
            if leaves.len() > 0 {
                assert(leaves.drop_first() =~= leaves.skip(1));
            }
        },
    }
}

proof fn lemma_taken_fields(fs: Seq<FieldView>, leaves: Seq<Scalar>, k: nat)
    requires
        k <= fs.len(),
    ensures
        nested_fields(fs, leaves, k) matches Ok((_, rest)) ==> field_leaf_types(fs, k).len()
            <= leaves.len() && rest == leaves.skip(field_leaf_types(fs, k).len() as int),
    decreases fs, k,
{
    if k == 0 {
        assert(leaves.skip(0) =~= leaves);
    } else {
        lemma_taken_fields(fs, leaves, (k - 1) as nat);
        if let Ok((_, rest)) = nested_fields(fs, leaves, (k - 1) as nat) {
            lemma_taken(fs[k - 1].data_type, rest);
            if let Ok((_, left)) = nested(fs[k - 1].data_type, rest) {
                assert(left =~= leaves.skip(field_leaf_types(fs, k).len() as int));
            }
        }
    }
}

/// A struct takes its values field by field, each what it would take by itself from where the fields
/// before it end. It is null exactly where all of these are null and one of its fields is never null;
/// otherwise it is the struct of these, and no field that is never null has a null. The first field
/// that cannot take its value is reported, and a null beside other values in a field that is never
/// null.
pub proof fn law_nested_struct(fs: Seq<FieldView>, leaves: Seq<Scalar>)
    ensures
        match nested(TypeView::Struct(fs), leaves) {
            Ok((v, rest)) => {
                &&& leaf_start(fs, fs.len() as int) <= leaves.len()
                &&& rest == leaves.skip(leaf_start(fs, fs.len() as int))
                &&& forall|i: int| #![trigger fs[i]] 0 <= i < fs.len() ==> part(fs, leaves, i) is Ok
                &&& v is Null <==> {
                    &&& exists|i: int| 0 <= i < fs.len() && !(#[trigger] fs[i]).nullable
                    &&& forall|i: int|
                        #![trigger fs[i]]
                        0 <= i < fs.len() ==> part(fs, leaves, i)->Ok_0.0 is Null
                }
                &&& !(v is Null) ==> {
                    &&& v is Struct
                    &&& v->Struct_0.len() == fs.len()
                    &&& forall|i: int|
                        #![trigger v->Struct_0[i]]
                        0 <= i < fs.len() ==> v->Struct_0[i] == part(fs, leaves, i)->Ok_0.0 && (
                        v->Struct_0[i] is Null ==> fs[i].nullable)
                }
            },
            Err(e) => {
                ||| exists|i: int| #[trigger] first_stuck(fs, leaves, i, e)
                ||| {
                    &&& e == ErrorView::NullInStruct
                    &&& exists|i: int|
                        #![trigger fs[i]]
                        0 <= i < fs.len() && !fs[i].nullable && part(
                            fs,
                            leaves,
                            i,
                        )->Ok_0.0 is Null
                    &&& exists|i: int|
                        #![trigger fs[i]]
                        0 <= i < fs.len() && !(part(fs, leaves, i)->Ok_0.0 is Null)
                }
            },
        },
{
    lemma_parts(fs, leaves, fs.len());
    if let Ok((rows, rest)) = nested_fields(fs, leaves, fs.len()) {
        if lacks_value(fs, rows) {
            let i = choose|i: int|
                #![trigger fs[i]]
                0 <= i < fs.len() && !fs[i].nullable && rows[i] is Null;
            assert(!fs[i].nullable);
            assert(rows[i] == part(fs, leaves, i)->Ok_0.0);
            if !is_all_null(rows) {
                let j = choose|j: int| 0 <= j < rows.len() && !((#[trigger] rows[j]) is Null);
                let f = fs[j];
                assert(rows[j] == part(fs, leaves, j)->Ok_0.0);
            }
        } else {
            assert(forall|i: int|
                0 <= i < fs.len() && (#[trigger] rows[i]) is Null ==> fs[i].nullable);
        }
    }
}

/// Whether what field `i` of a struct takes stands at the leaves of that field.
spec fn field_stands(fs: Seq<FieldView>, leaves: Seq<Scalar>, i: int) -> bool {
    let x = part(fs, leaves, i)->Ok_0.0;
    &&& stands_in(x, fs[i].data_type, own_leaves(fs, leaves, i))
    &&& null_where_forced(x, fs[i].data_type)
    &&& forall|k: int|
        leaf_start(fs, i) <= k < leaf_start(fs, i + 1) ==> scalar_type(#[trigger] leaves[k])
            == leaf_types(fs[i].data_type)[k - leaf_start(fs, i)]
}

proof fn lemma_field_stands(fs: Seq<FieldView>, leaves: Seq<Scalar>, i: int)
    requires
        0 <= i < fs.len(),
        leaf_start(fs, i) <= leaves.len(),
        part(fs, leaves, i) is Ok,
    ensures
        field_stands(fs, leaves, i),
    decreases fs, 0nat,
{
    let start = leaf_start(fs, i);
    let tail = leaves.skip(start);
    let m = leaf_types(fs[i].data_type).len() as int;
    lemma_leaf_start(fs, i, i);
    law_leaves_stand(fs[i].data_type, tail);
    assert(tail.take(m) =~= own_leaves(fs, leaves, i));
    assert forall|k: int| start <= k < start + m implies scalar_type(#[trigger] leaves[k])
        == leaf_types(fs[i].data_type)[k - start] by {
        assert(tail[k - start] == leaves[k]);
    }
}

/// What all fields of a struct take stands at their leaves.
proof fn lemma_fields_stand(fs: Seq<FieldView>, leaves: Seq<Scalar>)
    requires
        nested_fields(fs, leaves, fs.len()) is Ok,
    ensures
        leaf_start(fs, fs.len() as int) <= leaves.len(),
        nested_fields(fs, leaves, fs.len())->Ok_0.0.len() == fs.len(),
        forall|i: int|
            #![trigger fs[i]]
            0 <= i < fs.len() ==> {
                &&& field_stands(fs, leaves, i)
                &&& part(fs, leaves, i) is Ok
                &&& nested_fields(fs, leaves, fs.len())->Ok_0.0[i] == part(fs, leaves, i)->Ok_0.0
            },
        forall|k: int|
            0 <= k < leaf_start(fs, fs.len() as int) ==> scalar_type(#[trigger] leaves[k])
                == field_leaf_types(fs, fs.len())[k],
    decreases fs, 1nat,
{
    lemma_parts(fs, leaves, fs.len());
    assert forall|i: int| #![trigger fs[i]] 0 <= i < fs.len() implies field_stands(
        fs,
        leaves,
        i,
    ) by {
        lemma_leaf_start(fs, i, fs.len() as int);
        lemma_field_stands(fs, leaves, i);
    }
    assert forall|k: int| 0 <= k < leaf_start(fs, fs.len() as int) implies scalar_type(
        #[trigger] leaves[k],
    ) == field_leaf_types(fs, fs.len())[k] by {
        let i = lemma_leaf_at(fs, fs.len(), k);
        let f = fs[i];
        assert(field_stands(fs, leaves, i));
    }
}

/// The values that a type takes from the front of the leaf values stand each at its own leaf, with
/// the type of that leaf, and none of them is lost: the leaf values behind them are left. Structs are
/// null only where they have a field that is never null.
pub proof fn law_leaves_stand(t: TypeView, leaves: Seq<Scalar>)
    ensures
        nested(t, leaves) matches Ok((v, rest)) ==> {
            let n = leaf_types(t).len() as int;
            &&& n <= leaves.len()
            &&& rest == leaves.skip(n)
            &&& stands_in(v, t, leaves.take(n))
            &&& null_where_forced(v, t)
            &&& forall|k: int| 0 <= k < n ==> scalar_type(#[trigger] leaves[k]) == leaf_types(t)[k]
        },
    decreases t, 2nat,
{
    lemma_taken(t, leaves);
    if nested(t, leaves) is Ok {
        match t {
            TypeView::Struct(fs) => {
                lemma_fields_stand(fs, leaves);
                lemma_struct_stands(fs, leaves);
            },
            _ => {
                assert(leaves.take(1)[0] == leaves[0]);
            },
        }
    }
}

proof fn lemma_struct_stands(fs: Seq<FieldView>, leaves: Seq<Scalar>)
    requires
        nested(TypeView::Struct(fs), leaves) is Ok,
        leaf_start(fs, fs.len() as int) <= leaves.len(),
        nested_fields(fs, leaves, fs.len())->Ok_0.0.len() == fs.len(),
        forall|i: int|
            #![trigger fs[i]]
            0 <= i < fs.len() ==> {
                &&& field_stands(fs, leaves, i)
                &&& part(fs, leaves, i) is Ok
                &&& nested_fields(fs, leaves, fs.len())->Ok_0.0[i] == part(fs, leaves, i)->Ok_0.0
            },
    ensures
        ({
            let t = TypeView::Struct(fs);
            let v = nested(t, leaves)->Ok_0.0;
            &&& stands_in(v, t, leaves.take(leaf_start(fs, fs.len() as int)))
            &&& null_where_forced(v, t)
        }),
{
    let t = TypeView::Struct(fs);
    let v = nested(t, leaves)->Ok_0.0;
    let rows = nested_fields(fs, leaves, fs.len())->Ok_0.0;
    let n = leaf_start(fs, fs.len() as int);
    let own = leaves.take(n);
    assert forall|i: int| #![trigger fs[i]] 0 <= i < fs.len() implies {
        &&& own_leaves(fs, own, i) == own_leaves(fs, leaves, i)
        &&& 0 <= leaf_start(fs, i) <= leaf_start(fs, i + 1) <= n
    } by {
        lemma_leaf_start(fs, i, i);
        lemma_leaf_start(fs, i + 1, fs.len() as int);
        assert(own_leaves(fs, own, i) =~= own_leaves(fs, leaves, i));
    }
    if lacks_value(fs, rows) {
        let j = choose|j: int|
            #![trigger fs[j]]
            0 <= j < fs.len() && !fs[j].nullable && rows[j] is Null;
        assert(!fs[j].nullable);
        assert(v is Null);
        assert forall|k: int| 0 <= k < own.len() implies (#[trigger] own[k]) is Null by {
            let i = lemma_leaf_at(fs, fs.len(), k);
            let f = fs[i];
            assert(rows[i] is Null);
            assert(field_stands(fs, leaves, i));
            lemma_null_leaves(f.data_type, own_leaves(fs, leaves, i));
            assert(own_leaves(fs, leaves, i)[k - leaf_start(fs, i)] == own[k]);
        }
    } else {
        assert(v == Row::Struct(rows));
        assert forall|i: int| #![trigger rows[i]] 0 <= i < fs.len() implies {
            &&& stands_in(rows[i], fs[i].data_type, own_leaves(fs, own, i))
            &&& null_where_forced(rows[i], fs[i].data_type)
            &&& rows[i] is Null ==> fs[i].nullable
        } by {
            let f = fs[i];
            assert(field_stands(fs, leaves, i));
        }
    }
}

/// Where a value is null, so are all of its leaves.
proof fn lemma_null_leaves(t: TypeView, leaves: Seq<Scalar>)
    requires
        stands_in(Row::Null, t, leaves),
    ensures
        forall|k: int| 0 <= k < leaves.len() ==> (#[trigger] leaves[k]) is Null,
{
    if !(t is Struct) {
        law_value(leaves[0]);
    }
}

/// The field that leaf `k` belongs to.
proof fn lemma_leaf_at(fs: Seq<FieldView>, upto: nat, k: int) -> (i: int)
    requires
        upto <= fs.len(),
        0 <= k < leaf_start(fs, upto as int),
    ensures
        0 <= i < upto,
        leaf_start(fs, i) <= k < leaf_start(fs, i + 1),
        leaf_start(fs, i + 1) == leaf_start(fs, i) + leaf_types(fs[i].data_type).len(),
        field_leaf_types(fs, upto)[k] == leaf_types(fs[i].data_type)[k - leaf_start(fs, i)],
    decreases upto,
{
    let last = upto - 1;
    lemma_leaf_start(fs, last, last);
    if k < leaf_start(fs, last) {
        lemma_leaf_at(fs, last as nat, k)
    } else {
        last
    }
}

/// The row that is created has each leaf value at its own leaf, column by column, and takes all of
/// them. Structs are null only where all of their leaf values are and one of their fields is never
/// null.
pub proof fn law_create_one_leaves(
    fs: Seq<FieldView>,
    leaves: Seq<Scalar>,
    r: Result<ArrowBatch, Error>,
)
    requires
        is_created(fs, leaves, r),
    ensures
        r matches Ok(b) ==> {
            &&& b@.rows == 1
            &&& b@.columns.len() == fs.len()
            &&& leaves.len() == field_leaf_types(fs, fs.len()).len()
            &&& forall|k: int|
                0 <= k < leaves.len() ==> scalar_type(#[trigger] leaves[k]) == field_leaf_types(
                    fs,
                    fs.len(),
                )[k]
            &&& forall|i: int|
                #![trigger b@.columns[i]]
                0 <= i < fs.len() ==> {
                    let v = row(b@.columns[i], 0);
                    &&& stands_in(v, fs[i].data_type, own_leaves(fs, leaves, i))
                    &&& null_where_forced(v, fs[i].data_type)
                }
        },
{
    if let Ok(b) = r {
        let rows = nested_row(fs, leaves)->Ok_0;
        lemma_fields_stand(fs, leaves);
        lemma_taken_fields(fs, leaves, fs.len());
        assert forall|i: int| #![trigger b@.columns[i]] 0 <= i < fs.len() implies {
            let v = row(b@.columns[i], 0);
            &&& stands_in(v, fs[i].data_type, own_leaves(fs, leaves, i))
            &&& null_where_forced(v, fs[i].data_type)
        } by {
            let f = fs[i];
            assert(row(b@.columns[i], 0) == rows[i]);
            assert(field_stands(fs, leaves, i));
        }
    }
}

/// Whether each of the leaves of the first `k` fields may be null, in order.
pub open spec fn field_leaf_flags(fs: Seq<FieldView>, k: nat) -> Seq<bool>
    decreases fs, k,
{
    if k == 0 || k > fs.len() {
        seq![]
    } else {
        field_leaf_flags(fs, (k - 1) as nat) + match fs[k - 1].data_type {
            TypeView::Struct(gs) => field_leaf_flags(gs, gs.len()),
            _ => seq![fs[k - 1].nullable],
        }
    }
}

/// Whether each leaf value is there, has the type of its leaf, and is null only where its leaf may
/// be.
pub open spec fn leaves_given(
    types: Seq<TypeView>,
    flags: Seq<bool>,
    leaves: Seq<Scalar>,
) -> bool {
    forall|k: int|
        #![trigger leaves[k]]
        0 <= k < types.len() ==> (leaves[k] is Null ==> flags[k]) && scalar_type(leaves[k])
            == types[k]
}

proof fn lemma_flags(fs: Seq<FieldView>, k: nat)
    requires
        k <= fs.len(),
    ensures
        field_leaf_flags(fs, k).len() == field_leaf_types(fs, k).len(),
    decreases fs, k,
{
    if k > 0 {
        lemma_flags(fs, (k - 1) as nat);
        let t = fs[k - 1].data_type;
        match t {
            TypeView::Struct(gs) => {
                lemma_flags(gs, gs.len());
                assert(leaf_types(t) == field_leaf_types(gs, gs.len()));
            },
            _ => {
                assert(leaf_types(t).len() == 1);
            },
        }
    }
}

proof fn lemma_given_fields(fs: Seq<FieldView>, leaves: Seq<Scalar>, k: nat)
    requires
        k <= fs.len(),
        field_leaf_types(fs, k).len() <= leaves.len(),
        leaves_given(field_leaf_types(fs, k), field_leaf_flags(fs, k), leaves),
    ensures
        nested_fields(fs, leaves, k) is Ok,
        nested_fields(fs, leaves, k)->Ok_0.0.len() == k,
        forall|i: int|
            #![trigger nested_fields(fs, leaves, k)->Ok_0.0[i]]
            0 <= i < k && nested_fields(fs, leaves, k)->Ok_0.0[i] is Null ==> fs[i].nullable,
    decreases fs, k,
{
    if k > 0 {
        let f = fs[k - 1];
        let front = field_leaf_types(fs, (k - 1) as nat);
        let front_flags = field_leaf_flags(fs, (k - 1) as nat);
        let own = leaf_types(f.data_type);
        let own_flags = match f.data_type {
            TypeView::Struct(gs) => field_leaf_flags(gs, gs.len()),
            _ => seq![f.nullable],
        };
        let all = field_leaf_types(fs, k);
        let all_flags = field_leaf_flags(fs, k);
        let tail = leaves.skip(front.len() as int);
        assert(all == front + own);
        assert(all_flags == front_flags + own_flags);
        lemma_flags(fs, (k - 1) as nat);
        lemma_flags(fs, k);
        assert(leaves_given(front, front_flags, leaves)) by {
            assert forall|j: int| #![trigger leaves[j]] 0 <= j < front.len() implies (
            leaves[j] is Null ==> front_flags[j]) && scalar_type(leaves[j]) == front[j] by {
                assert(all[j] == front[j]);
                assert(all_flags[j] == front_flags[j]);
            }
        }
        assert(leaves_given(own, own_flags, tail)) by {
            assert forall|j: int| #![trigger tail[j]] 0 <= j < own.len() implies (tail[j] is Null
                ==> own_flags[j]) && scalar_type(tail[j]) == own[j] by {
                assert(tail[j] == leaves[front.len() + j]);
                assert(all[front.len() + j] == own[j]);
                assert(all_flags[front.len() + j] == own_flags[j]);
            }
        }
        lemma_given_fields(fs, leaves, (k - 1) as nat);
        lemma_taken_fields(fs, leaves, (k - 1) as nat);
        lemma_given_value(f, own_flags, tail);
    }
}

/// What a field takes from leaf values that fit it.
proof fn lemma_given_value(f: FieldView, flags: Seq<bool>, leaves: Seq<Scalar>)
    requires
        leaf_types(f.data_type).len() <= leaves.len(),
        flags == match f.data_type {
            TypeView::Struct(gs) => field_leaf_flags(gs, gs.len()),
            _ => seq![f.nullable],
        },
        leaves_given(leaf_types(f.data_type), flags, leaves),
    ensures
        nested(f.data_type, leaves) is Ok,
        nested(f.data_type, leaves)->Ok_0.0 is Null ==> f.nullable,
    decreases f, 0nat,
{
    match f.data_type {
        TypeView::Struct(gs) => {
            lemma_given_fields(gs, leaves, gs.len());
            lemma_no_lack(gs, nested_fields(gs, leaves, gs.len())->Ok_0.0);
        },
        _ => {
            assert(leaf_types(f.data_type)[0] == f.data_type);
            assert(flags[0] == f.nullable);
            assert(scalar_type(leaves[0]) == f.data_type);
            law_value(leaves[0]);
        },
    }
}

proof fn lemma_no_lack(fs: Seq<FieldView>, rows: Seq<Row>)
    requires
        rows.len() == fs.len(),
        forall|i: int|
            #![trigger rows[i]]
            0 <= i < fs.len() && rows[i] is Null ==> fs[i].nullable,
    ensures
        !lacks_value(fs, rows),
{
    if lacks_value(fs, rows) {
        let i = choose|i: int|
            #![trigger fs[i]]
            0 <= i < fs.len() && !fs[i].nullable && rows[i] is Null;
        assert(rows[i] is Null);
    }
}

/// A row is created wherever there is one leaf value for each leaf, of the type of that leaf and null
/// only where the leaf may be, if the fields have Arrow types and the values can be
/// written.
pub proof fn law_create_one_succeeds(
    fs: Seq<FieldView>,
    leaves: Seq<Scalar>,
    r: Result<ArrowBatch, Error>,
)
    requires
        is_created(fs, leaves, r),
        fs.len() > 0,
        arrow_fields(fs, fs.len()) is Ok,
        all_writable(leaves),
        leaves.len() == field_leaf_types(fs, fs.len()).len(),
        leaves_given(field_leaf_types(fs, fs.len()), field_leaf_flags(fs, fs.len()), leaves),
    ensures
        r is Ok,
{
    lemma_given_fields(fs, leaves, fs.len());
    lemma_taken_fields(fs, leaves, fs.len());
    lemma_no_lack(fs, nested_fields(fs, leaves, fs.len())->Ok_0.0);
}

/// Whether an error says what is wrong with the leaf values of a type: the first that has another
/// type than its leaf, that one is missing, or that one is null beside others that are not.
pub open spec fn says_wrong_leaf(e: ErrorView, types: Seq<TypeView>, leaves: Seq<Scalar>) -> bool {
    match e {
        ErrorView::MismatchedScalar { expected, actual } => exists|k: int|
            #![trigger leaves[k]]
            0 <= k < types.len() && k < leaves.len() && expected == types[k] && actual
                == scalar_type(leaves[k]) && expected != actual && (forall|j: int|
                #![trigger leaves[j]]
                0 <= j < k ==> scalar_type(leaves[j]) == types[j]),
        ErrorView::TooFewScalars => {
            &&& leaves.len() < types.len()
            &&& forall|j: int|
                #![trigger leaves[j]]
                0 <= j < leaves.len() ==> scalar_type(leaves[j]) == types[j]
        },
        ErrorView::NullInStruct => exists|k: int|
            0 <= k < types.len() && k < leaves.len() && (#[trigger] leaves[k]) is Null,
        _ => false,
    }
}

proof fn lemma_wrong_leaf(t: TypeView, leaves: Seq<Scalar>)
    ensures
        nested(t, leaves) matches Err(e) ==> says_wrong_leaf(e, leaf_types(t), leaves),
    decreases t, 0nat,
{
    match t {
        TypeView::Struct(fs) => {
            lemma_wrong_field_leaf(fs, leaves, fs.len());
            if let Ok((rows, rest)) = nested_fields(fs, leaves, fs.len()) {
                if nested(t, leaves) is Err {
                    lemma_null_among(fs, leaves, fs.len());
                }
            }
        },
        _ => {
            assert(leaf_types(t)[0] == t);
        },
    }
}

/// Where a field's value is null, some leaf value is, or the field has no leaves.
proof fn lemma_null_among(fs: Seq<FieldView>, leaves: Seq<Scalar>, k: nat)
    requires
        k == fs.len(),
        nested_fields(fs, leaves, k) is Ok,
        lacks_value(fs, nested_fields(fs, leaves, k)->Ok_0.0),
    ensures
        exists|j: int|
            0 <= j < field_leaf_types(fs, k).len() && j < leaves.len() && (
            #[trigger] leaves[j]) is Null,
{
    let i = lemma_null_part(fs, leaves);
    let tail = leaves.skip(leaf_start(fs, i));
    lemma_null_has_leaf(fs[i].data_type, tail);
    lemma_taken_fields(fs, leaves, k);
    lemma_leaf_start(fs, i, i);
    lemma_leaf_start(fs, i + 1, k as int);
    let j = choose|j: int|
        0 <= j < leaf_types(fs[i].data_type).len() && j < tail.len() && (
        #[trigger] tail[j]) is Null;
    assert(leaves[leaf_start(fs, i) + j] == tail[j]);
}

proof fn lemma_null_has_leaf(t: TypeView, leaves: Seq<Scalar>)
    requires
        nested(t, leaves) is Ok,
        nested(t, leaves)->Ok_0.0 is Null,
    ensures
        exists|j: int|
            0 <= j < leaf_types(t).len() && j < leaves.len() && (#[trigger] leaves[j]) is Null,
{
    let n = leaf_types(t).len() as int;
    law_leaves_stand(t, leaves);
    lemma_null_leaves(t, leaves.take(n));
    lemma_null_count(t, leaves);
    assert(leaves.take(n)[0] == leaves[0]);
    assert(leaves[0] is Null);
}

/// What is null has leaves.
proof fn lemma_null_count(t: TypeView, leaves: Seq<Scalar>)
    requires
        nested(t, leaves) is Ok,
        nested(t, leaves)->Ok_0.0 is Null,
    ensures
        leaf_types(t).len() > 0,
    decreases t,
{
    if let TypeView::Struct(fs) = t {
        let i = lemma_null_part(fs, leaves);
        lemma_null_count(fs[i].data_type, leaves.skip(leaf_start(fs, i)));
        lemma_leaf_start(fs, i, i);
        lemma_leaf_start(fs, i + 1, fs.len() as int);
    }
}

/// A struct that lacks a value has a field that is null.
proof fn lemma_null_part(fs: Seq<FieldView>, leaves: Seq<Scalar>) -> (i: int)
    requires
        nested_fields(fs, leaves, fs.len()) is Ok,
        lacks_value(fs, nested_fields(fs, leaves, fs.len())->Ok_0.0),
    ensures
        0 <= i < fs.len(),
        part(fs, leaves, i) is Ok,
        part(fs, leaves, i)->Ok_0.0 is Null,
{
    let rows = nested_fields(fs, leaves, fs.len())->Ok_0.0;
    lemma_parts(fs, leaves, fs.len());
    let i = choose|i: int|
        #![trigger fs[i]]
        0 <= i < fs.len() && !fs[i].nullable && rows[i] is Null;
    let f = fs[i];
    assert(rows[i] == part(fs, leaves, i)->Ok_0.0);
    i
}

proof fn lemma_wrong_field_leaf(fs: Seq<FieldView>, leaves: Seq<Scalar>, k: nat)
    requires
        k <= fs.len(),
    ensures
        nested_fields(fs, leaves, k) matches Err(e) ==> says_wrong_leaf(
            e,
            field_leaf_types(fs, k),
            leaves,
        ),
        nested_fields(fs, leaves, k) is Ok ==> field_leaf_types(fs, k).len() <= leaves.len() && (
        forall|j: int|
            #![trigger leaves[j]]
            0 <= j < field_leaf_types(fs, k).len() ==> scalar_type(leaves[j]) == field_leaf_types(
                fs,
                k,
            )[j]),
    decreases fs, k,
{
    if k > 0 {
        let front = field_leaf_types(fs, (k - 1) as nat);
        let own = leaf_types(fs[k - 1].data_type);
        let all = field_leaf_types(fs, k);
        assert(all == front + own);
        lemma_wrong_field_leaf(fs, leaves, (k - 1) as nat);
        lemma_taken_fields(fs, leaves, (k - 1) as nat);
        match nested_fields(fs, leaves, (k - 1) as nat) {
            Err(e) => {
                lemma_longer(e, front, own, leaves);
            },
            Ok((_, tail)) => {
                lemma_wrong_leaf(fs[k - 1].data_type, tail);
                law_leaves_stand(fs[k - 1].data_type, tail);
                assert(tail == leaves.skip(front.len() as int));
                match nested(fs[k - 1].data_type, tail) {
                    Err(e) => {
                        lemma_behind(e, front, own, leaves);
                    },
                    Ok(_) => {
                        assert forall|j: int|
                            #![trigger leaves[j]]
                            0 <= j < all.len() implies scalar_type(leaves[j]) == all[j] by {
                            if j >= front.len() {
                                assert(tail[j - front.len()] == leaves[j]);
                            }
                        }
                    },
                }
            },
        }
    }
}

proof fn lemma_longer(
    e: ErrorView,
    front: Seq<TypeView>,
    own: Seq<TypeView>,
    leaves: Seq<Scalar>,
)
    requires
        says_wrong_leaf(e, front, leaves),
    ensures
        says_wrong_leaf(e, front + own, leaves),
{
    let all = front + own;
    assert forall|j: int| 0 <= j < front.len() implies #[trigger] all[j] == front[j] by {}
    match e {
        ErrorView::MismatchedScalar { expected, actual } => {
            let k = choose|k: int|
                #![trigger leaves[k]]
                0 <= k < front.len() && k < leaves.len() && expected == front[k] && actual
                    == scalar_type(leaves[k]) && expected != actual && (forall|j: int|
                    #![trigger leaves[j]]
                    0 <= j < k ==> scalar_type(leaves[j]) == front[j]);
            assert(all[k] == front[k]);
            assert forall|j: int| #![trigger leaves[j]] 0 <= j < k implies scalar_type(leaves[j])
                == all[j] by {
                assert(all[j] == front[j]);
            }
        },
        ErrorView::TooFewScalars => {
            assert forall|j: int| #![trigger leaves[j]] 0 <= j < leaves.len() implies scalar_type(
                leaves[j],
            ) == all[j] by {
                assert(all[j] == front[j]);
            }
        },
        _ => {},
    }
}

proof fn lemma_behind(
    e: ErrorView,
    front: Seq<TypeView>,
    own: Seq<TypeView>,
    leaves: Seq<Scalar>,
)
    requires
        front.len() <= leaves.len(),
        forall|j: int|
            #![trigger leaves[j]]
            0 <= j < front.len() ==> scalar_type(leaves[j]) == front[j],
        says_wrong_leaf(e, own, leaves.skip(front.len() as int)),
    ensures
        says_wrong_leaf(e, front + own, leaves),
{
    let all = front + own;
    let n = front.len() as int;
    let tail = leaves.skip(n);
    match e {
        ErrorView::MismatchedScalar { expected, actual } => {
            let k = choose|k: int|
                #![trigger tail[k]]
                0 <= k < own.len() && k < tail.len() && expected == own[k] && actual == scalar_type(
                    tail[k],
                ) && expected != actual && (forall|j: int|
                    #![trigger tail[j]]
                    0 <= j < k ==> scalar_type(tail[j]) == own[j]);
            assert(leaves[n + k] == tail[k]);
            assert(all[n + k] == own[k]);
            assert forall|j: int| #![trigger leaves[j]] 0 <= j < n + k implies scalar_type(
                leaves[j],
            ) == all[j] by {
                if j >= n {
                    assert(tail[j - n] == leaves[j]);
                }
            }
        },
        ErrorView::TooFewScalars => {
            assert forall|j: int| #![trigger leaves[j]] 0 <= j < leaves.len() implies scalar_type(
                leaves[j],
            ) == all[j] by {
                if j >= n {
                    assert(tail[j - n] == leaves[j]);
                }
            }
        },
        ErrorView::NullInStruct => {
            let k = choose|k: int|
                0 <= k < own.len() && k < tail.len() && (#[trigger] tail[k]) is Null;
            assert(leaves[n + k] == tail[k]);
        },
        _ => {},
    }
}

/// Where the leaf values do not make a row, the error says what is wrong with them: a value of
/// another type than its leaf, the first of them; too few or too many values; or a null beside other
/// values in a field that is never null.
pub proof fn law_create_one_refused(
    fs: Seq<FieldView>,
    leaves: Seq<Scalar>,
    r: Result<ArrowBatch, Error>,
)
    requires
        is_created(fs, leaves, r),
        nested_row(fs, leaves) is Err,
    ensures
        r is Err,
        r->Err_0@ == ErrorView::TooManyScalars ==> leaves.len() > field_leaf_types(
            fs,
            fs.len(),
        ).len(),
        r->Err_0@ != ErrorView::TooManyScalars ==> says_wrong_leaf(
            r->Err_0@,
            field_leaf_types(fs, fs.len()),
            leaves,
        ),
{
    lemma_wrong_field_leaf(fs, leaves, fs.len());
    lemma_taken_fields(fs, leaves, fs.len());
    if let Ok((rows, _)) = nested_fields(fs, leaves, fs.len()) {
        if lacks_value(fs, rows) {
            lemma_null_among(fs, leaves, fs.len());
        }
    }
}

} // verus!

//! What scalars promise of the rows that are made of them.
use crate::arrow_arrays::ArrowArray;
use crate::error::{Error, ErrorView};
use crate::model::{ArrowType, Cell, Column, TimeUnit};
use crate::rows::{value, Row};
use crate::scalars::{array_problem, map_problem, scalar_type, struct_problem, well_typed, Scalar};
use crate::schema::{
    fields_view, lemma_fields_view, ArrayType, MapType, PrimitiveType, StructField, TypeView,
};
use crate::to_array::{is_array_result, scalar_column};
use vstd::prelude::*;

verus! {

/// Whether a column has `n` rows of type `t`, each of which holds this cell.
pub open spec fn holds(c: Column, t: ArrowType, n: nat, cell: Cell) -> bool {
    &&& c is Leaf
    &&& c->Leaf_data_type == t
    &&& c->Leaf_cells.len() == n
    &&& forall|i: int| 0 <= i < n ==> #[trigger] c->Leaf_cells[i] == cell
}

/// The array of a scalar without parts has as many rows as were asked for, of the Arrow type that
/// stands for the scalar's type, and every row holds the scalar's own number, text, bytes or truth
/// value: all bits of a number, whatever its size.
pub proof fn law_array_of_scalar(s: Scalar, n: nat, r: Result<ArrowArray, Error>)
    requires
        is_array_result(r, scalar_column(s, n)),
    ensures
        match s {
            Scalar::Integer(v) => r matches Ok(a) && holds(
                a@,
                ArrowType::Int32,
                n,
                Cell::Int(v as int),
            ),
            Scalar::Long(v) => r matches Ok(a) && holds(
                a@,
                ArrowType::Int64,
                n,
                Cell::Int(v as int),
            ),
            Scalar::Short(v) => r matches Ok(a) && holds(
                a@,
                ArrowType::Int16,
                n,
                Cell::Int(v as int),
            ),
            Scalar::Byte(v) => r matches Ok(a) && holds(a@, ArrowType::Int8, n, Cell::Int(v as int)),
            Scalar::Float(v) => r matches Ok(a) && holds(
                a@,
                ArrowType::Float32,
                n,
                Cell::Bits(v as nat),
            ),
            Scalar::Double(v) => r matches Ok(a) && holds(
                a@,
                ArrowType::Float64,
                n,
                Cell::Bits(v as nat),
            ),
            Scalar::String(v) => r matches Ok(a) && holds(a@, ArrowType::Utf8, n, Cell::Text(v@)),
            Scalar::Boolean(v) => r matches Ok(a) && holds(
                a@,
                ArrowType::Boolean,
                n,
                Cell::Boolean(v),
            ),
            Scalar::Timestamp(v) => r matches Ok(a) && holds(
                a@,
                ArrowType::Timestamp(TimeUnit::Microsecond, Some("UTC"@)),
                n,
                Cell::Int(v as int),
            ),
            Scalar::TimestampNtz(v) => r matches Ok(a) && holds(
                a@,
                ArrowType::Timestamp(TimeUnit::Microsecond, None),
                n,
                Cell::Int(v as int),
            ),
            Scalar::TimestampNanos(v) => r matches Ok(a) && holds(
                a@,
                ArrowType::Timestamp(TimeUnit::Nanosecond, Some("UTC"@)),
                n,
                Cell::Int(v as int),
            ),
            Scalar::Date(v) => r matches Ok(a) && holds(
                a@,
                ArrowType::Date32,
                n,
                Cell::Int(v as int),
            ),
            Scalar::Binary(v) => r matches Ok(a) && holds(a@, ArrowType::Binary, n, Cell::Bytes(v@)),
            Scalar::Decimal(d) => r matches Ok(a) && holds(
                a@,
                ArrowType::Decimal128(d.ty.precision, d.ty.scale as i8),
                n,
                Cell::Int(d.bits as int),
            ),
            Scalar::Null(t) => t@ matches TypeView::Primitive(p) ==> (r matches Ok(a)
                && holds_null(a@, n)),
            _ => true,
        },
{
}

/// Whether a column has `n` rows, all of them null.
pub open spec fn holds_null(c: Column, n: nat) -> bool {
    &&& c is Leaf
    &&& c->Leaf_cells.len() == n
    &&& forall|i: int| 0 <= i < n ==> #[trigger] c->Leaf_cells[i] == Cell::Null
}

/// What a row says of a scalar without parts is the scalar's own number, text, bytes or truth value.
/// Of a scalar with parts it says what each of its parts says, in order, and of null it says null.
pub proof fn law_value(s: Scalar)
    ensures
        match s {
            Scalar::Integer(v) => value(s) == Row::Cell(Cell::Int(v as int)),
            Scalar::Long(v) => value(s) == Row::Cell(Cell::Int(v as int)),
            Scalar::Short(v) => value(s) == Row::Cell(Cell::Int(v as int)),
            Scalar::Byte(v) => value(s) == Row::Cell(Cell::Int(v as int)),
            Scalar::Float(v) => value(s) == Row::Cell(Cell::Bits(v as nat)),
            Scalar::Double(v) => value(s) == Row::Cell(Cell::Bits(v as nat)),
            Scalar::String(v) => value(s) == Row::Cell(Cell::Text(v@)),
            Scalar::Boolean(v) => value(s) == Row::Cell(Cell::Boolean(v)),
            Scalar::Timestamp(v) => value(s) == Row::Cell(Cell::Int(v as int)),
            Scalar::TimestampNtz(v) => value(s) == Row::Cell(Cell::Int(v as int)),
            Scalar::TimestampNanos(v) => value(s) == Row::Cell(Cell::Int(v as int)),
            Scalar::Date(v) => value(s) == Row::Cell(Cell::Int(v as int)),
            Scalar::Binary(v) => value(s) == Row::Cell(Cell::Bytes(v@)),
            Scalar::Decimal(d) => value(s) == Row::Cell(Cell::Int(d.bits as int)),
            Scalar::Struct(d) => {
                &&& value(s) is Struct
                &&& value(s)->Struct_0.len() == d.values@.len()
                &&& forall|j: int|
                    0 <= j < d.values@.len() ==> #[trigger] value(s)->Struct_0[j] == value(
                        d.values@[j],
                    )
            },
            Scalar::Array(d) => {
                &&& value(s) is List
                &&& value(s)->List_0.len() == d.elements@.len()
                &&& forall|j: int|
                    0 <= j < d.elements@.len() ==> #[trigger] value(s)->List_0[j] == value(
                        d.elements@[j],
                    )
            },
            Scalar::MapOf(d) => {
                &&& value(s) is MapOf
                &&& value(s)->MapOf_0.len() == d.pairs@.len()
                &&& forall|j: int|
                    0 <= j < d.pairs@.len() ==> #[trigger] value(s)->MapOf_0[j] == (
                        value(d.pairs@[j].0),
                        value(d.pairs@[j].1),
                    )
            },
            Scalar::Null(_) => value(s) == Row::Null,
        },
{
}

/// Whether two scalars hold the same, part by part.
pub open spec fn alike(s: Scalar, t: Scalar) -> bool
    decreases s,
{
    match (s, t) {
        (Scalar::Integer(a), Scalar::Integer(b)) => a == b,
        (Scalar::Long(a), Scalar::Long(b)) => a == b,
        (Scalar::Short(a), Scalar::Short(b)) => a == b,
        (Scalar::Byte(a), Scalar::Byte(b)) => a == b,
        (Scalar::Float(a), Scalar::Float(b)) => a == b,
        (Scalar::Double(a), Scalar::Double(b)) => a == b,
        (Scalar::String(a), Scalar::String(b)) => a@ == b@,
        (Scalar::Boolean(a), Scalar::Boolean(b)) => a == b,
        (Scalar::Timestamp(a), Scalar::Timestamp(b)) => a == b,
        (Scalar::TimestampNtz(a), Scalar::TimestampNtz(b)) => a == b,
        (Scalar::TimestampNanos(a), Scalar::TimestampNanos(b)) => a == b,
        (Scalar::Date(a), Scalar::Date(b)) => a == b,
        (Scalar::Binary(a), Scalar::Binary(b)) => a@ == b@,
        (Scalar::Decimal(a), Scalar::Decimal(b)) => a == b,
        (Scalar::Struct(d), Scalar::Struct(e)) => {
            &&& d.values@.len() == e.values@.len()
            &&& forall|i: int|
                0 <= i < d.values@.len() ==> alike(#[trigger] d.values@[i], e.values@[i])
        },
        (Scalar::Array(d), Scalar::Array(e)) => {
            &&& d.elements@.len() == e.elements@.len()
            &&& forall|i: int|
                0 <= i < d.elements@.len() ==> alike(#[trigger] d.elements@[i], e.elements@[i])
        },
        (Scalar::MapOf(d), Scalar::MapOf(e)) => {
            &&& d.pairs@.len() == e.pairs@.len()
            &&& forall|i: int|
                #![trigger d.pairs@[i]]
                0 <= i < d.pairs@.len() ==> alike(d.pairs@[i].0, e.pairs@[i].0) && alike(
                    d.pairs@[i].1,
                    e.pairs@[i].1,
                )
        },
        (Scalar::Null(_), Scalar::Null(_)) => true,
        _ => false,
    }
}

/// Two scalars of one type that differ in any part, however deep, make different rows.
pub proof fn law_rows_tell_apart(s: Scalar, t: Scalar)
    requires
        well_typed(s),
        well_typed(t),
        scalar_type(s) == scalar_type(t),
        value(s) == value(t),
    ensures
        alike(s, t),
    decreases s,
{
    law_value(s);
    law_value(t);
    match (s, t) {
        (Scalar::Struct(d), Scalar::Struct(e)) => {
            lemma_fields_view(d.fields@);
            lemma_fields_view(e.fields@);
            assert(fields_view(d.fields@) == fields_view(e.fields@));
            assert forall|i: int| 0 <= i < d.values@.len() implies alike(
                #[trigger] d.values@[i],
                e.values@[i],
            ) by {
                assert(value(s)->Struct_0[i] == value(d.values@[i]));
                assert(value(t)->Struct_0[i] == value(e.values@[i]));
                assert(fields_view(d.fields@)[i] == d.fields@[i]@);
                assert(fields_view(e.fields@)[i] == e.fields@[i]@);
                law_rows_tell_apart(d.values@[i], e.values@[i]);
            }
        },
        (Scalar::Array(d), Scalar::Array(e)) => {
            assert forall|i: int| 0 <= i < d.elements@.len() implies alike(
                #[trigger] d.elements@[i],
                e.elements@[i],
            ) by {
                assert(value(s)->List_0[i] == value(d.elements@[i]));
                assert(value(t)->List_0[i] == value(e.elements@[i]));
                law_rows_tell_apart(d.elements@[i], e.elements@[i]);
            }
        },
        (Scalar::MapOf(d), Scalar::MapOf(e)) => {
            assert forall|i: int| #![trigger d.pairs@[i]] 0 <= i < d.pairs@.len() implies alike(
                d.pairs@[i].0,
                e.pairs@[i].0,
            ) && alike(d.pairs@[i].1, e.pairs@[i].1) by {
                assert(value(s)->MapOf_0[i] == (value(d.pairs@[i].0), value(d.pairs@[i].1)));
                assert(value(t)->MapOf_0[i] == (value(e.pairs@[i].0), value(e.pairs@[i].1)));
                assert(well_typed(e.pairs@[i].0));
                law_rows_tell_apart(d.pairs@[i].0, e.pairs@[i].0);
                law_rows_tell_apart(d.pairs@[i].1, e.pairs@[i].1);
            }
        },
        _ => {},
    }
}

/// The type of a scalar is the one that its variant is named after; a decimal's has its precision
/// and scale, and a null has the type that it was given.
pub proof fn law_scalar_type(s: Scalar)
    ensures
        match s {
            Scalar::Integer(_) => scalar_type(s) == TypeView::Primitive(PrimitiveType::Integer),
            Scalar::Long(_) => scalar_type(s) == TypeView::Primitive(PrimitiveType::Long),
            Scalar::Short(_) => scalar_type(s) == TypeView::Primitive(PrimitiveType::Short),
            Scalar::Byte(_) => scalar_type(s) == TypeView::Primitive(PrimitiveType::Byte),
            Scalar::Float(_) => scalar_type(s) == TypeView::Primitive(PrimitiveType::Float),
            Scalar::Double(_) => scalar_type(s) == TypeView::Primitive(PrimitiveType::Double),
            Scalar::String(_) => scalar_type(s) == TypeView::Primitive(PrimitiveType::String),
            Scalar::Boolean(_) => scalar_type(s) == TypeView::Primitive(PrimitiveType::Boolean),
            Scalar::Timestamp(_) => scalar_type(s) == TypeView::Primitive(
                PrimitiveType::Timestamp,
            ),
            Scalar::TimestampNtz(_) => scalar_type(s) == TypeView::Primitive(
                PrimitiveType::TimestampNtz,
            ),
            Scalar::TimestampNanos(_) => scalar_type(s) == TypeView::Primitive(
                PrimitiveType::TimestampNanos,
            ),
            Scalar::Date(_) => scalar_type(s) == TypeView::Primitive(PrimitiveType::Date),
            Scalar::Binary(_) => scalar_type(s) == TypeView::Primitive(PrimitiveType::Binary),
            Scalar::Decimal(d) => scalar_type(s) == TypeView::Primitive(
                PrimitiveType::Decimal(d.ty),
            ),
            Scalar::Struct(d) => {
                &&& scalar_type(s) is Struct
                &&& scalar_type(s)->Struct_0.len() == d.fields@.len()
                &&& forall|i: int|
                    0 <= i < d.fields@.len() ==> #[trigger] scalar_type(s)->Struct_0[i]
                        == d.fields@[i]@
            },
            Scalar::Array(d) => scalar_type(s) == TypeView::Array(
                Box::new(d.tpe.element_type@),
                d.tpe.contains_null,
            ),
            Scalar::MapOf(d) => scalar_type(s) == TypeView::MapOf(
                Box::new(d.tpe.key_type@),
                Box::new(d.tpe.value_type@),
                d.tpe.value_contains_null,
            ),
            Scalar::Null(t) => scalar_type(s) == t@,
        },
{
    if let Scalar::Struct(d) = s {
        lemma_fields_view(d.fields@);
    }
}

/// Whether a part is of the type that is declared for it, and null only where it may be.
pub open spec fn part_fits(s: Scalar, t: TypeView, nullable: bool) -> bool {
    scalar_type(s) == t && (s is Null ==> nullable)
}

/// Whether an error says why a part does not fit: another type is named before a null.
pub open spec fn says_misfit(e: ErrorView, s: Scalar, t: TypeView, nullable: bool) -> bool {
    &&& !part_fits(s, t, nullable)
    &&& scalar_type(s) != t ==> e == (ErrorView::PartType { expected: t, actual: scalar_type(s) })
    &&& scalar_type(s) == t ==> e == ErrorView::NullPart
}

/// A struct value is refused exactly where one of its values does not fit its field, and for the
/// first that does not.
pub proof fn law_struct_parts(fields: Seq<StructField>, values: Seq<Scalar>, k: nat)
    requires
        k <= values.len(),
        values.len() == fields.len(),
    ensures
        match struct_problem(fields, values, k) {
            None => forall|i: int|
                #![trigger values[i]]
                0 <= i < k ==> part_fits(values[i], fields[i].data_type@, fields[i].nullable),
            Some(e) => exists|i: int|
                #![trigger values[i]]
                0 <= i < k && says_misfit(e, values[i], fields[i].data_type@, fields[i].nullable) && (
                forall|j: int|
                    #![trigger values[j]]
                    0 <= j < i ==> part_fits(values[j], fields[j].data_type@, fields[j].nullable)),
        },
    decreases k,
{
    if k > 0 {
        law_struct_parts(fields, values, (k - 1) as nat);
    }
}

/// A list value is refused exactly where one of its elements does not fit, and for the first that
/// does not.
pub proof fn law_array_parts(tpe: ArrayType, elements: Seq<Scalar>, k: nat)
    requires
        k <= elements.len(),
    ensures
        match array_problem(tpe, elements, k) {
            None => forall|i: int|
                #![trigger elements[i]]
                0 <= i < k ==> part_fits(elements[i], tpe.element_type@, tpe.contains_null),
            Some(e) => exists|i: int|
                #![trigger elements[i]]
                0 <= i < k && says_misfit(e, elements[i], tpe.element_type@, tpe.contains_null) && (
                forall|j: int|
                    #![trigger elements[j]]
                    0 <= j < i ==> part_fits(elements[j], tpe.element_type@, tpe.contains_null)),
        },
    decreases k,
{
    if k > 0 {
        law_array_parts(tpe, elements, (k - 1) as nat);
    }
}

/// Whether the key and the value of an entry fit. A key is never null.
pub open spec fn entry_fits(tpe: MapType, pair: (Scalar, Scalar)) -> bool {
    part_fits(pair.0, tpe.key_type@, false) && part_fits(
        pair.1,
        tpe.value_type@,
        tpe.value_contains_null,
    )
}

/// A map value is refused exactly where a key or value of it does not fit, and for the first that
/// does not, the key of an entry before its value.
pub proof fn law_map_parts(tpe: MapType, pairs: Seq<(Scalar, Scalar)>, k: nat)
    requires
        k <= pairs.len(),
    ensures
        match map_problem(tpe, pairs, k) {
            None => forall|i: int|
                #![trigger pairs[i]]
                0 <= i < k ==> entry_fits(tpe, pairs[i]),
            Some(e) => exists|i: int|
                #![trigger pairs[i]]
                0 <= i < k && (if part_fits(pairs[i].0, tpe.key_type@, false) {
                    says_misfit(e, pairs[i].1, tpe.value_type@, tpe.value_contains_null)
                } else {
                    says_misfit(e, pairs[i].0, tpe.key_type@, false)
                }) && (forall|j: int|
                    #![trigger pairs[j]]
                    0 <= j < i ==> entry_fits(tpe, pairs[j])),
        },
    decreases k,
{
    if k > 0 {
        law_map_parts(tpe, pairs, (k - 1) as nat);
    }
}

/// A well-typed value is one whose parts fit, all the way down.
pub proof fn law_well_typed(s: Scalar)
    ensures
        match s {
            Scalar::Struct(d) => well_typed(s) <==> d.values@.len() == d.fields@.len() && (forall|
                i: int,
            |
                #![trigger d.values@[i]]
                0 <= i < d.values@.len() ==> well_typed(d.values@[i]) && part_fits(
                    d.values@[i],
                    d.fields@[i].data_type@,
                    d.fields@[i].nullable,
                )),
            Scalar::Array(d) => well_typed(s) <==> forall|i: int|
                #![trigger d.elements@[i]]
                0 <= i < d.elements@.len() ==> well_typed(d.elements@[i]) && part_fits(
                    d.elements@[i],
                    d.tpe.element_type@,
                    d.tpe.contains_null,
                ),
            Scalar::MapOf(d) => well_typed(s) <==> forall|i: int|
                #![trigger d.pairs@[i]]
                0 <= i < d.pairs@.len() ==> well_typed(d.pairs@[i].0) && well_typed(d.pairs@[i].1)
                    && entry_fits(d.tpe, d.pairs@[i]),
            _ => well_typed(s),
        },
{
}

} // verus!

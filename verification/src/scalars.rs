//! Kernel scalars: single values of any kernel type.
use crate::error::{Error, ErrorView};
use crate::model::Cell;
use crate::schema::{
    clone_fields, fields_view, ArrayType, KernelDataType, DecimalType, MapType, PrimitiveType,
    StructField, StructType, TypeView,
};
use vstd::prelude::*;

verus! {

/// A decimal: its unscaled value, and where the decimal point stands.
#[derive(Clone, Copy, Debug, PartialEq, Eq, Structural)]
pub struct DecimalData {
    pub bits: i128,
    pub ty: DecimalType,
}

/// The fields of a struct value and one value per field.
#[derive(Debug)]
pub struct StructData {
    pub fields: Vec<StructField>,
    pub values: Vec<Scalar>,
}

/// The elements of a list value.
#[derive(Debug)]
pub struct ArrayData {
    pub tpe: ArrayType,
    pub elements: Vec<Scalar>,
}

/// The entries of a map value, in order.
#[derive(Debug)]
pub struct MapData {
    pub tpe: MapType,
    pub pairs: Vec<(Scalar, Scalar)>,
}

/// A single value. A `Float` or `Double` is given by its IEEE 754 bit pattern, a `Timestamp` or
/// `TimestampNtz` by its microseconds, a `TimestampNanos` by its nanoseconds and a `Date` by its
/// days since the epoch.
#[derive(Debug)]
pub enum Scalar {
    Integer(i32),
    Long(i64),
    Short(i16),
    Byte(i8),
    Float(u32),
    Double(u64),
    String(String),
    Boolean(bool),
    Timestamp(i64),
    TimestampNtz(i64),
    TimestampNanos(i64),
    Date(i32),
    Binary(Vec<u8>),
    Decimal(DecimalData),
    Struct(StructData),
    Array(ArrayData),
    MapOf(MapData),
    Null(KernelDataType),
}

/// The kernel type of a scalar.
pub open spec fn scalar_type(s: Scalar) -> TypeView {
    match s {
        Scalar::Struct(d) => TypeView::Struct(fields_view(d.fields@)),
        Scalar::Array(d) => TypeView::Array(
            Box::new(d.tpe.element_type@),
            d.tpe.contains_null,
        ),
        Scalar::MapOf(d) => TypeView::MapOf(
            Box::new(d.tpe.key_type@),
            Box::new(d.tpe.value_type@),
            d.tpe.value_contains_null,
        ),
        Scalar::Null(t) => t@,
        _ => TypeView::Primitive(scalar_primitive(s)),
    }
}

/// The primitive type of a scalar that has no parts.
pub open spec fn scalar_primitive(s: Scalar) -> PrimitiveType {
    match s {
        Scalar::Integer(_) => PrimitiveType::Integer,
        Scalar::Long(_) => PrimitiveType::Long,
        Scalar::Short(_) => PrimitiveType::Short,
        Scalar::Byte(_) => PrimitiveType::Byte,
        Scalar::Float(_) => PrimitiveType::Float,
        Scalar::Double(_) => PrimitiveType::Double,
        Scalar::String(_) => PrimitiveType::String,
        Scalar::Boolean(_) => PrimitiveType::Boolean,
        Scalar::Timestamp(_) => PrimitiveType::Timestamp,
        Scalar::TimestampNtz(_) => PrimitiveType::TimestampNtz,
        Scalar::TimestampNanos(_) => PrimitiveType::TimestampNanos,
        Scalar::Date(_) => PrimitiveType::Date,
        Scalar::Binary(_) => PrimitiveType::Binary,
        Scalar::Decimal(d) => PrimitiveType::Decimal(d.ty),
        _ => PrimitiveType::Void,
    }
}

/// The cell that stands for a scalar that has no parts.
pub open spec fn scalar_cell(s: Scalar) -> Cell {
    match s {
        Scalar::Integer(v) => Cell::Int(v as int),
        Scalar::Long(v) => Cell::Int(v as int),
        Scalar::Short(v) => Cell::Int(v as int),
        Scalar::Byte(v) => Cell::Int(v as int),
        Scalar::Float(v) => Cell::Bits(v as nat),
        Scalar::Double(v) => Cell::Bits(v as nat),
        Scalar::String(v) => Cell::Text(v@),
        Scalar::Boolean(v) => Cell::Boolean(v),
        Scalar::Timestamp(v) => Cell::Int(v as int),
        Scalar::TimestampNtz(v) => Cell::Int(v as int),
        Scalar::TimestampNanos(v) => Cell::Int(v as int),
        Scalar::Date(v) => Cell::Int(v as int),
        Scalar::Binary(v) => Cell::Bytes(v@),
        Scalar::Decimal(d) => Cell::Int(d.bits as int),
        _ => Cell::Null,
    }
}

/// Whether every part of a scalar has the type that the scalar declares for it, and is null only
/// where that type admits null.
pub open spec fn well_typed(s: Scalar) -> bool
    decreases s,
{
    match s {
        Scalar::Struct(d) => {
            &&& d.values@.len() == d.fields@.len()
            &&& forall|i: int|
                #![trigger d.values@[i]]
                0 <= i < d.values@.len() ==> {
                    &&& well_typed(d.values@[i])
                    &&& scalar_type(d.values@[i]) == d.fields@[i].data_type@
                    &&& d.values@[i] is Null ==> d.fields@[i].nullable
                }
        },
        Scalar::Array(d) => forall|i: int|
            #![trigger d.elements@[i]]
            0 <= i < d.elements@.len() ==> {
                &&& well_typed(d.elements@[i])
                &&& scalar_type(d.elements@[i]) == d.tpe.element_type@
                &&& d.elements@[i] is Null ==> d.tpe.contains_null
            },
        Scalar::MapOf(d) => forall|i: int|
            #![trigger d.pairs@[i]]
            0 <= i < d.pairs@.len() ==> {
                &&& well_typed(d.pairs@[i].0)
                &&& well_typed(d.pairs@[i].1)
                &&& scalar_type(d.pairs@[i].0) == d.tpe.key_type@
                &&& scalar_type(d.pairs@[i].1) == d.tpe.value_type@
                &&& !(d.pairs@[i].0 is Null)
                &&& d.pairs@[i].1 is Null ==> d.tpe.value_contains_null
            },
        _ => true,
    }
}

impl Scalar {
    /// The kernel type of the scalar.
    pub fn data_type(&self) -> (r: KernelDataType)
        ensures
            r@ == scalar_type(*self),
    {
        match self {
            Scalar::Integer(_) => KernelDataType::Primitive(PrimitiveType::Integer),
            Scalar::Long(_) => KernelDataType::Primitive(PrimitiveType::Long),
            Scalar::Short(_) => KernelDataType::Primitive(PrimitiveType::Short),
            Scalar::Byte(_) => KernelDataType::Primitive(PrimitiveType::Byte),
            Scalar::Float(_) => KernelDataType::Primitive(PrimitiveType::Float),
            Scalar::Double(_) => KernelDataType::Primitive(PrimitiveType::Double),
            Scalar::String(_) => KernelDataType::Primitive(PrimitiveType::String),
            Scalar::Boolean(_) => KernelDataType::Primitive(PrimitiveType::Boolean),
            Scalar::Timestamp(_) => KernelDataType::Primitive(PrimitiveType::Timestamp),
            Scalar::TimestampNtz(_) => KernelDataType::Primitive(PrimitiveType::TimestampNtz),
            Scalar::TimestampNanos(_) => KernelDataType::Primitive(PrimitiveType::TimestampNanos),
            Scalar::Date(_) => KernelDataType::Primitive(PrimitiveType::Date),
            Scalar::Binary(_) => KernelDataType::Primitive(PrimitiveType::Binary),
            Scalar::Decimal(d) => KernelDataType::Primitive(PrimitiveType::Decimal(d.ty)),
            Scalar::Struct(d) => KernelDataType::Struct(Box::new(
                StructType { fields: clone_fields(&d.fields) },
            )),
            Scalar::Array(d) => KernelDataType::Array(Box::new(d.tpe.clone())),
            Scalar::MapOf(d) => KernelDataType::MapOf(Box::new(d.tpe.clone())),
            Scalar::Null(t) => t.clone(),
        }
    }
}

/// What is wrong with a part of a value that is declared to be of type `t`.
pub open spec fn part_problem(s: Scalar, t: TypeView, nullable: bool) -> Option<ErrorView> {
    if scalar_type(s) != t {
        Some(ErrorView::PartType { expected: t, actual: scalar_type(s) })
    } else if s is Null && !nullable {
        Some(ErrorView::NullPart)
    } else {
        None
    }
}

/// The first problem among the first `k` values of a struct.
pub open spec fn struct_problem(fields: Seq<StructField>, values: Seq<Scalar>, k: nat) -> Option<
    ErrorView,
>
    decreases k,
{
    if k == 0 {
        None
    } else {
        match struct_problem(fields, values, (k - 1) as nat) {
            Some(e) => Some(e),
            None => part_problem(
                values[k - 1],
                fields[k - 1].data_type@,
                fields[k - 1].nullable,
            ),
        }
    }
}

/// The first problem among the first `k` elements of a list.
pub open spec fn array_problem(tpe: ArrayType, elements: Seq<Scalar>, k: nat) -> Option<ErrorView>
    decreases k,
{
    if k == 0 {
        None
    } else {
        match array_problem(tpe, elements, (k - 1) as nat) {
            Some(e) => Some(e),
            None => part_problem(elements[k - 1], tpe.element_type@, tpe.contains_null),
        }
    }
}

/// The first problem among the first `k` entries of a map.
pub open spec fn map_problem(tpe: MapType, pairs: Seq<(Scalar, Scalar)>, k: nat) -> Option<
    ErrorView,
>
    decreases k,
{
    if k == 0 {
        None
    } else {
        match map_problem(tpe, pairs, (k - 1) as nat) {
            Some(e) => Some(e),
            None => match part_problem(pairs[k - 1].0, tpe.key_type@, false) {
                Some(e) => Some(e),
                None => part_problem(
                    pairs[k - 1].1,
                    tpe.value_type@,
                    tpe.value_contains_null,
                ),
            },
        }
    }
}

/// Reports what is wrong with a part of a value.
fn check_part(s: &Scalar, t: &KernelDataType, nullable: bool) -> (r: Result<(), Error>)
    ensures
        match r {
            Ok(_) => part_problem(*s, t@, nullable) is None,
            Err(e) => part_problem(*s, t@, nullable) == Some(e@),
        },
{
    let actual = s.data_type();
    if !actual.same_as(t) {
        return Err(Error::PartType { expected: t.clone(), actual });
    }
    match s {
        Scalar::Null(_) => if nullable {
            Ok(())
        } else {
            Err(Error::NullPart)
        },
        _ => Ok(()),
    }
}

impl StructData {
    /// A struct value, if there is one value per field, of the field's type and null only where the
    /// field may be.
    pub fn try_new(fields: Vec<StructField>, values: Vec<Scalar>) -> (r: Result<StructData, Error>)
        ensures
            match r {
                Ok(d) => {
                    &&& d.fields@ == fields@
                    &&& d.values@ == values@
                    &&& fields@.len() == values@.len()
                    &&& struct_problem(fields@, values@, values@.len()) is None
                },
                Err(e) => if fields@.len() != values@.len() {
                    e@ == (ErrorView::StructLength {
                        fields: fields@.len(),
                        values: values@.len(),
                    })
                } else {
                    struct_problem(fields@, values@, values@.len()) == Some(e@)
                },
            },
    {
        if fields.len() != values.len() {
            return Err(Error::StructLength { fields: fields.len(), values: values.len() });
        }
        let mut i: usize = 0;
        while i < values.len()
            invariant
                i <= values.len(),
                fields@.len() == values@.len(),
                struct_problem(fields@, values@, i as nat) is None,
            decreases values.len() - i,
        {
            match check_part(&values[i], &fields[i].data_type, fields[i].nullable) {
                Ok(()) => {},
                Err(e) => {
                    proof {
                        lemma_struct_problem_stays(
                            fields@,
                            values@,
                            (i + 1) as nat,
                            values@.len(),
                        );
                    }
                    return Err(e);
                },
            }
            i += 1;
        }
        Ok(StructData { fields, values })
    }
}

impl ArrayData {
    /// A list value, if each element has the element type and is null only where the type admits it.
    pub fn try_new(tpe: ArrayType, elements: Vec<Scalar>) -> (r: Result<ArrayData, Error>)
        ensures
            match r {
                Ok(d) => {
                    &&& d.tpe == tpe
                    &&& d.elements@ == elements@
                    &&& array_problem(tpe, elements@, elements@.len()) is None
                },
                Err(e) => array_problem(tpe, elements@, elements@.len()) == Some(e@),
            },
    {
        let mut i: usize = 0;
        while i < elements.len()
            invariant
                i <= elements.len(),
                array_problem(tpe, elements@, i as nat) is None,
            decreases elements.len() - i,
        {
            match check_part(&elements[i], &tpe.element_type, tpe.contains_null) {
                Ok(()) => {},
                Err(e) => {
                    proof {
                        lemma_array_problem_stays(tpe, elements@, (i + 1) as nat, elements@.len());
                    }
                    return Err(e);
                },
            }
            i += 1;
        }
        Ok(ArrayData { tpe, elements })
    }
}

impl MapData {
    /// A map value, if each key and value has its type, no key is null, and values are null only
    /// where the type admits it.
    pub fn try_new(tpe: MapType, pairs: Vec<(Scalar, Scalar)>) -> (r: Result<MapData, Error>)
        ensures
            match r {
                Ok(d) => {
                    &&& d.tpe == tpe
                    &&& d.pairs@ == pairs@
                    &&& map_problem(tpe, pairs@, pairs@.len()) is None
                },
                Err(e) => map_problem(tpe, pairs@, pairs@.len()) == Some(e@),
            },
    {
        let mut i: usize = 0;
        while i < pairs.len()
            invariant
                i <= pairs.len(),
                map_problem(tpe, pairs@, i as nat) is None,
            decreases pairs.len() - i,
        {
            match check_part(&pairs[i].0, &tpe.key_type, false) {
                Ok(()) => {},
                Err(e) => {
                    proof {
                        lemma_map_problem_stays(tpe, pairs@, (i + 1) as nat, pairs@.len());
                    }
                    return Err(e);
                },
            }
            match check_part(&pairs[i].1, &tpe.value_type, tpe.value_contains_null) {
                Ok(()) => {},
                Err(e) => {
                    proof {
                        lemma_map_problem_stays(tpe, pairs@, (i + 1) as nat, pairs@.len());
                    }
                    return Err(e);
                },
            }
            i += 1;
        }
        Ok(MapData { tpe, pairs })
    }
}

proof fn lemma_struct_problem_stays(
    fields: Seq<StructField>,
    values: Seq<Scalar>,
    j: nat,
    k: nat,
)
    requires
        j <= k,
        struct_problem(fields, values, j) is Some,
    ensures
        struct_problem(fields, values, k) == struct_problem(fields, values, j),
    decreases k,
{
    if j < k {
        lemma_struct_problem_stays(fields, values, j, (k - 1) as nat);
    }
}

proof fn lemma_array_problem_stays(tpe: ArrayType, elements: Seq<Scalar>, j: nat, k: nat)
    requires
        j <= k,
        array_problem(tpe, elements, j) is Some,
    ensures
        array_problem(tpe, elements, k) == array_problem(tpe, elements, j),
    decreases k,
{
    if j < k {
        lemma_array_problem_stays(tpe, elements, j, (k - 1) as nat);
    }
}

proof fn lemma_map_problem_stays(tpe: MapType, pairs: Seq<(Scalar, Scalar)>, j: nat, k: nat)
    requires
        j <= k,
        map_problem(tpe, pairs, j) is Some,
    ensures
        map_problem(tpe, pairs, k) == map_problem(tpe, pairs, j),
    decreases k,
{
    if j < k {
        lemma_map_problem_stays(tpe, pairs, j, (k - 1) as nat);
    }
}

proof fn lemma_struct_problem_none(fields: Seq<StructField>, values: Seq<Scalar>, k: nat)
    requires
        struct_problem(fields, values, k) is None,
    ensures
        forall|i: int|
            #![trigger values[i]]
            0 <= i < k ==> part_problem(
                values[i],
                fields[i].data_type@,
                fields[i].nullable,
            ) is None,
    decreases k,
{
    if k > 0 {
        lemma_struct_problem_none(fields, values, (k - 1) as nat);
    }
}

proof fn lemma_array_problem_none(tpe: ArrayType, elements: Seq<Scalar>, k: nat)
    requires
        array_problem(tpe, elements, k) is None,
    ensures
        forall|i: int|
            #![trigger elements[i]]
            0 <= i < k ==> part_problem(elements[i], tpe.element_type@, tpe.contains_null) is None,
    decreases k,
{
    if k > 0 {
        lemma_array_problem_none(tpe, elements, (k - 1) as nat);
    }
}

proof fn lemma_map_problem_none(tpe: MapType, pairs: Seq<(Scalar, Scalar)>, k: nat)
    requires
        map_problem(tpe, pairs, k) is None,
    ensures
        forall|i: int|
            #![trigger pairs[i]]
            0 <= i < k ==> part_problem(pairs[i].0, tpe.key_type@, false) is None && part_problem(
                pairs[i].1,
                tpe.value_type@,
                tpe.value_contains_null,
            ) is None,
    decreases k,
{
    if k > 0 {
        lemma_map_problem_none(tpe, pairs, (k - 1) as nat);
    }
}

/// A struct of well-typed values without a problem is well-typed.
pub proof fn law_struct_well_typed(d: StructData)
    requires
        d.fields@.len() == d.values@.len(),
        struct_problem(d.fields@, d.values@, d.values@.len()) is None,
        forall|i: int| 0 <= i < d.values@.len() ==> well_typed(#[trigger] d.values@[i]),
    ensures
        well_typed(Scalar::Struct(d)),
{
    lemma_struct_problem_none(d.fields@, d.values@, d.values@.len());
}

/// A list of well-typed elements without a problem is well-typed.
pub proof fn law_array_well_typed(d: ArrayData)
    requires
        array_problem(d.tpe, d.elements@, d.elements@.len()) is None,
        forall|i: int| 0 <= i < d.elements@.len() ==> well_typed(#[trigger] d.elements@[i]),
    ensures
        well_typed(Scalar::Array(d)),
{
    lemma_array_problem_none(d.tpe, d.elements@, d.elements@.len());
}

/// A map of well-typed keys and values without a problem is well-typed.
pub proof fn law_map_well_typed(d: MapData)
    requires
        map_problem(d.tpe, d.pairs@, d.pairs@.len()) is None,
        forall|i: int|
            #![trigger d.pairs@[i]]
            0 <= i < d.pairs@.len() ==> well_typed(d.pairs@[i].0) && well_typed(d.pairs@[i].1),
    ensures
        well_typed(Scalar::MapOf(d)),
{
    lemma_map_problem_none(d.tpe, d.pairs@, d.pairs@.len());
}

} // verus!

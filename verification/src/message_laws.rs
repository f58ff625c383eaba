//! What is promised of types and errors in words.
use crate::arrow_types::displayed_type;
use crate::error::{Error, ErrorView};
use crate::messages::{ends_in_arrow_text, fields_text, leaf_text, message_text, type_text};
use crate::schema::{DecimalType, FieldView, PrimitiveType, TypeView};
use crate::text::decimal;
use crate::text_laws::{law_decimal, number};
use vstd::prelude::*;

verus! {

proof fn lemma_fields_text_of(fs: Seq<FieldView>, gs: Seq<FieldView>, k: nat)
    requires
        k <= fs.len(),
        k <= gs.len(),
        forall|i: int| 0 <= i < k ==> #[trigger] fs[i] == gs[i],
    ensures
        fields_text(fs, k) == fields_text(gs, k),
    decreases k,
{
    if k > 0 {
        lemma_fields_text_of(fs, gs, (k - 1) as nat);
        assert(fs[k - 1] == gs[k - 1]);
    }
}

/// One more field of a struct is written behind the others, after a comma where there are any, by its
/// name and its type.
pub proof fn law_fields_text(fs: Seq<FieldView>, f: FieldView)
    ensures
        fields_text(fs.push(f), fs.len() + 1) == if fs.len() == 0 {
            f.name + ": "@ + type_text(f.data_type)
        } else {
            fields_text(fs, fs.len()) + ", "@ + f.name + ": "@ + type_text(f.data_type)
        },
        type_text(TypeView::Struct(fs)) == "struct<"@ + fields_text(fs, fs.len()) + ">"@,
{
    let more = fs.push(f);
    lemma_fields_text_of(more, fs, fs.len());
    assert(more[fs.len() as int] == f);
    if fs.len() == 0 {
        assert(fields_text(more, 0) == Seq::<char>::empty());
        assert(fields_text(more, 1) =~= f.name + ": "@ + type_text(f.data_type));
    } else {
        assert(fields_text(fs, fs.len()) + ", "@ =~= fields_text(more, fs.len()) + ", "@);
    }
}

/// A decimal is written with its precision and scale, which read back as they are.
pub proof fn law_decimal_text(d: DecimalType)
    ensures
        type_text(TypeView::Primitive(PrimitiveType::Decimal(d))) == "decimal("@ + decimal(
            d.precision as nat,
        ) + ","@ + decimal(d.scale as nat) + ")"@,
        number(decimal(d.precision as nat)) == d.precision,
        number(decimal(d.scale as nat)) == d.scale,
{
    law_decimal(d.precision as nat);
    law_decimal(d.scale as nat);
}

/// The other types without parts are written by their names, which begin with a capital letter where a
/// leaf value has the wrong type.
pub proof fn law_primitive_text(p: PrimitiveType)
    ensures
        ({
            let t = TypeView::Primitive(p);
            (type_text(t), leaf_text(t)) == match p {
                PrimitiveType::String => ("string"@, "String"@),
                PrimitiveType::Long => ("long"@, "Long"@),
                PrimitiveType::Integer => ("integer"@, "Integer"@),
                PrimitiveType::Short => ("short"@, "Short"@),
                PrimitiveType::Byte => ("byte"@, "Byte"@),
                PrimitiveType::Float => ("float"@, "Float"@),
                PrimitiveType::Double => ("double"@, "Double"@),
                PrimitiveType::Boolean => ("boolean"@, "Boolean"@),
                PrimitiveType::Binary => ("binary"@, "Binary"@),
                PrimitiveType::Date => ("date"@, "Date"@),
                PrimitiveType::Timestamp => ("timestamp"@, "Timestamp"@),
                PrimitiveType::TimestampNtz => ("timestamp_ntz"@, "TimestampNtz"@),
                PrimitiveType::TimestampNanos => ("timestamp_nanos"@, "TimestampNanos"@),
                PrimitiveType::Void => ("void"@, "Void"@),
                PrimitiveType::Decimal(_) => (type_text(t), type_text(t)),
            }
        }),
{
}

/// A list is written with the type of its elements, a map with those of its keys and values, in that
/// order.
pub proof fn law_nested_text(a: Box<TypeView>, b: Box<TypeView>, nullable: bool)
    ensures
        type_text(TypeView::Array(a, nullable)) == "array<"@ + type_text(*a) + ">"@,
        type_text(TypeView::MapOf(a, b, nullable)) == "map<"@ + type_text(*a) + ", "@ + type_text(
            *b,
        ) + ">"@,
{
}

/// Errors about rows, columns and field ids say which they are about, by numbers that read back as
/// they are and by names as they are.
pub proof fn law_messages_tell(e: ErrorView)
    ensures
        match e {
            ErrorView::RowLength { row, scalars, fields } => {
                &&& message_text(e) == "Row "@ + decimal(row) + " has "@ + decimal(scalars)
                    + " scalars but schema has "@ + decimal(fields) + " fields"@
                &&& number(decimal(row)) == row
                &&& number(decimal(scalars)) == scalars
                &&& number(decimal(fields)) == fields
            },
            ErrorView::RowScalar { row, field, expected, actual, cause } => {
                &&& message_text(e) == "Row "@ + decimal(row) + ", field '"@ + field
                    + "' (expected type "@ + type_text(expected) + ", got "@ + type_text(actual)
                    + "): "@ + message_text(*cause)
                &&& number(decimal(row)) == row
                &&& ends_in_arrow_text(e) == ends_in_arrow_text(*cause)
            },
            ErrorView::FieldIdConflict { field, input_id, target_id } => message_text(e)
                == "Field '"@ + field + "': input field ID "@ + input_id
                + " conflicts with target field ID "@ + target_id,
            ErrorView::ColumnCount { input, transformed } => {
                &&& message_text(e) == "Passed struct had "@ + decimal(input)
                    + " columns, but transformed column has "@ + decimal(transformed)
                &&& number(decimal(input)) == input
                &&& number(decimal(transformed)) == transformed
            },
            ErrorView::MapEntryColumns(n) => {
                &&& message_text(e)
                    == "Map entries struct must have exactly 2 columns (key, value), got "@
                    + decimal(n)
                &&& number(decimal(n)) == n
            },
            ErrorView::InvalidBuilder(t) => message_text(e)
                == "Invalid expression evaluation: Invalid builder for "@ + type_text(t),
            ErrorView::MismatchedScalar { expected, actual } => message_text(e)
                == "Schema error: Mismatched scalar type while creating Expression: expected "@
                + leaf_text(expected) + ", got "@ + leaf_text(actual),
            ErrorView::IncorrectType { expected, found } => {
                &&& message_text(e) == "Incorrect datatype. Expected "@ + type_text(expected)
                    + ", got "@ + displayed_type(found)
                &&& !ends_in_arrow_text(e)
            },
            ErrorView::WrongFieldCount => message_text(e)
                == "Struct builder has wrong number of fields"@,
            ErrorView::UnsupportedVariant => message_text(e)
                == "Variant is not supported as scalar yet."@,
            ErrorView::NotStructSchema => message_text(e)
                == "apply_schema at top-level must be passed a struct schema"@,
            ErrorView::NotStructArray => message_text(e)
                == "Arrow claimed to be a struct but isn't a StructArray"@,
            ErrorView::NotListArray => message_text(e)
                == "Arrow claimed to be a list but isn't a ListArray"@,
            ErrorView::NotMapArray => message_text(e)
                == "Arrow claimed to be a map but isn't a MapArray"@,
            ErrorView::NotStructOutput => message_text(e)
                == "expression output claimed struct but is not a StructArray"@,
            _ => true,
        },
{
    match e {
        ErrorView::RowLength { row, scalars, fields } => {
            law_decimal(row);
            law_decimal(scalars);
            law_decimal(fields);
        },
        ErrorView::RowScalar { row, .. } => {
            law_decimal(row);
        },
        ErrorView::ColumnCount { input, transformed } => {
            law_decimal(input);
            law_decimal(transformed);
        },
        ErrorView::MapEntryColumns(n) => {
            law_decimal(n);
        },
        _ => {},
    }
}

/// What an error says of itself is what it holds.
pub proof fn law_error_view(e: Error)
    ensures
        match e {
            Error::RowLength { row, scalars, fields } => e@ == (ErrorView::RowLength {
                row: row as nat,
                scalars: scalars as nat,
                fields: fields as nat,
            }),
            Error::RowScalar { row, field, expected, actual, cause } => e@ == (
            ErrorView::RowScalar {
                row: row as nat,
                field: field@,
                expected: expected@,
                actual: actual@,
                cause: Box::new((*cause)@),
            }),
            Error::ColumnCount { input, transformed } => e@ == (ErrorView::ColumnCount {
                input: input as nat,
                transformed: transformed as nat,
            }),
            Error::FieldIdConflict { field, input_id, target_id } => e@ == (
            ErrorView::FieldIdConflict {
                field: field@,
                input_id: input_id@,
                target_id: target_id@,
            }),
            Error::MismatchedScalar { expected, actual } => e@ == (ErrorView::MismatchedScalar {
                expected: expected@,
                actual: actual@,
            }),
            Error::PartType { expected, actual } => e@ == (ErrorView::PartType {
                expected: expected@,
                actual: actual@,
            }),
            Error::StructLength { fields, values } => e@ == (ErrorView::StructLength {
                fields: fields as nat,
                values: values as nat,
            }),
            Error::NestedIdNotInteger { field, path } => e@ == (ErrorView::NestedIdNotInteger {
                field: field@,
                path: path@,
            }),
            Error::NestedIdsNotObject(field) => e@ == ErrorView::NestedIdsNotObject(field@),
            Error::MapEntryColumns(n) => e@ == ErrorView::MapEntryColumns(n as nat),
            Error::InvalidBuilder(t) => e@ == ErrorView::InvalidBuilder(t@),
            Error::NoSuchField(name) => e@ == ErrorView::NoSuchField(name@),
            Error::NotAStruct(name) => e@ == ErrorView::NotAStruct(name@),
            _ => true,
        },
{
}

} // verus!

//! Kernel types and errors in words.
use crate::arrow_types::{
    arrow_error_text, arrow_type_text, displayed_type, invalid_argument, invalid_argument_text,
};
use crate::error::{Error, ErrorView};
use crate::growth::extends;
use crate::schema::{
    fields_view, lemma_fields_view, FieldView, KernelDataType, PrimitiveType, StructField, TypeView,
};
use crate::text::{decimal, u64_text};
use vstd::prelude::*;

verus! {

/// The name of a type without parts.
pub open spec fn primitive_text(p: PrimitiveType) -> Seq<char> {
    match p {
        PrimitiveType::String => "string"@,
        PrimitiveType::Long => "long"@,
        PrimitiveType::Integer => "integer"@,
        PrimitiveType::Short => "short"@,
        PrimitiveType::Byte => "byte"@,
        PrimitiveType::Float => "float"@,
        PrimitiveType::Double => "double"@,
        PrimitiveType::Boolean => "boolean"@,
        PrimitiveType::Binary => "binary"@,
        PrimitiveType::Date => "date"@,
        PrimitiveType::Timestamp => "timestamp"@,
        PrimitiveType::TimestampNtz => "timestamp_ntz"@,
        PrimitiveType::TimestampNanos => "timestamp_nanos"@,
        PrimitiveType::Decimal(d) => "decimal("@ + decimal(d.precision as nat) + ","@ + decimal(
            d.scale as nat,
        ) + ")"@,
        PrimitiveType::Void => "void"@,
    }
}

/// A kernel type in words.
pub open spec fn type_text(t: TypeView) -> Seq<char>
    decreases t, 0nat,
{
    match t {
        TypeView::Primitive(p) => primitive_text(p),
        TypeView::Array(element, _) => "array<"@ + type_text(*element) + ">"@,
        TypeView::Struct(fs) => "struct<"@ + fields_text(fs, fs.len()) + ">"@,
        TypeView::MapOf(key, value, _) => "map<"@ + type_text(*key) + ", "@ + type_text(*value)
            + ">"@,
        TypeView::Variant(_) => "variant"@,
    }
}

/// The first `k` fields of a struct in words.
pub open spec fn fields_text(fs: Seq<FieldView>, k: nat) -> Seq<char>
    decreases fs, k,
{
    if k == 0 || k > fs.len() {
        Seq::empty()
    } else {
        fields_text(fs, (k - 1) as nat) + (if k == 1 {
            Seq::empty()
        } else {
            ", "@
        }) + fs[k - 1].name + ": "@ + type_text(fs[k - 1].data_type)
    }
}

/// How a type is written where a leaf value has the wrong one: the capitalised name of a type
/// without parts.
pub open spec fn leaf_text(t: TypeView) -> Seq<char> {
    match t {
        TypeView::Primitive(p) => match p {
            PrimitiveType::String => "String"@,
            PrimitiveType::Long => "Long"@,
            PrimitiveType::Integer => "Integer"@,
            PrimitiveType::Short => "Short"@,
            PrimitiveType::Byte => "Byte"@,
            PrimitiveType::Float => "Float"@,
            PrimitiveType::Double => "Double"@,
            PrimitiveType::Boolean => "Boolean"@,
            PrimitiveType::Binary => "Binary"@,
            PrimitiveType::Date => "Date"@,
            PrimitiveType::Timestamp => "Timestamp"@,
            PrimitiveType::TimestampNtz => "TimestampNtz"@,
            PrimitiveType::TimestampNanos => "TimestampNanos"@,
            PrimitiveType::Decimal(_) => primitive_text(p),
            PrimitiveType::Void => "Void"@,
        },
        _ => type_text(t),
    }
}

/// Whether the message of an error ends in a text that Arrow writes.
pub open spec fn ends_in_arrow_text(e: ErrorView) -> bool
    decreases e,
{
    match e {
        ErrorView::Arrow => true,
        ErrorView::RowScalar { cause, .. } => ends_in_arrow_text(*cause),
        _ => false,
    }
}

/// What Arrow writes at the end of the message of an error, where the error that Arrow reported is
/// one about an invalid argument.
pub open spec fn arrow_text(e: Error) -> Option<Seq<char>>
    decreases e,
{
    match e {
        Error::Arrow(a) => match invalid_argument(a) {
            Some(description) => Some(invalid_argument_text(description)),
            None => None,
        },
        Error::RowScalar { cause, .. } => arrow_text(*cause),
        _ => None,
    }
}

/// The message of an error, up to where Arrow writes it.
pub open spec fn message_text(e: ErrorView) -> Seq<char>
    decreases e,
{
    match e {
        ErrorView::InvalidBuilder(t) => "Invalid expression evaluation: Invalid builder for "@
            + type_text(t),
        ErrorView::WrongFieldCount => "Struct builder has wrong number of fields"@,
        ErrorView::UnsupportedVariant => "Variant is not supported as scalar yet."@,
        ErrorView::RowLength { row, scalars, fields } => "Row "@ + decimal(row) + " has "@
            + decimal(scalars) + " scalars but schema has "@ + decimal(fields) + " fields"@,
        ErrorView::RowScalar { row, field, expected, actual, cause } => "Row "@ + decimal(row)
            + ", field '"@ + field + "' (expected type "@ + type_text(expected) + ", got "@
            + type_text(actual) + "): "@ + message_text(*cause),
        ErrorView::NotStructSchema => "apply_schema at top-level must be passed a struct schema"@,
        ErrorView::NotStructArray => "Arrow claimed to be a struct but isn't a StructArray"@,
        ErrorView::NotListArray => "Arrow claimed to be a list but isn't a ListArray"@,
        ErrorView::NotMapArray => "Arrow claimed to be a map but isn't a MapArray"@,
        ErrorView::FieldIdConflict { field, input_id, target_id } => "Field '"@ + field
            + "': input field ID "@ + input_id + " conflicts with target field ID "@ + target_id,
        ErrorView::ColumnCount { input, transformed } => "Passed struct had "@ + decimal(input)
            + " columns, but transformed column has "@ + decimal(transformed),
        ErrorView::MapEntryColumns(n) =>
            "Map entries struct must have exactly 2 columns (key, value), got "@ + decimal(n),
        ErrorView::NestedIdsNotObject(field) => "Nested field IDs of field '"@ + field
            + "' must be a JSON object"@,
        ErrorView::NestedIdNotInteger { field, path } => "Nested field ID '"@ + path
            + "' of field '"@ + field + "' must be an integer"@,
        ErrorView::IncorrectType { expected, found } => "Incorrect datatype. Expected "@
            + type_text(expected) + ", got "@ + displayed_type(found),
        ErrorView::NotStructOutput =>
            "expression output claimed struct but is not a StructArray"@,
        ErrorView::MismatchedScalar { expected, actual } =>
            "Schema error: Mismatched scalar type while creating Expression: expected "@
            + leaf_text(expected) + ", got "@ + leaf_text(actual),
        ErrorView::NullInStruct => "Null in a non-nullable field of a struct with other values"@,
        ErrorView::TooFewScalars => "Not enough scalars for the leaf fields of the schema"@,
        ErrorView::TooManyScalars => "Too many scalars for the leaf fields of the schema"@,
        ErrorView::StructLength { fields, values } => "Struct has "@ + decimal(fields)
            + " fields but "@ + decimal(values) + " values"@,
        ErrorView::PartType { expected, actual } => "Expected a value of type "@ + type_text(
            expected,
        ) + ", got "@ + type_text(actual),
        ErrorView::NullPart => "Null where the type does not admit it"@,
        ErrorView::EmptyColumnPath => "Empty column path"@,
        ErrorView::NoSuchField(name) => "No such field: "@ + name,
        ErrorView::NotAStruct(name) => "Not a struct: "@ + name,
        ErrorView::StructTypeRequired => "Data type is required to evaluate struct expressions"@,
        ErrorView::NotBoolean => "expected BooleanArray"@,
        ErrorView::Arrow => "Arrow error: "@,
    }
}

fn primitive_name(p: PrimitiveType) -> (r: String)
    ensures
        r@ == primitive_text(p),
{
    match p {
        PrimitiveType::String => "string".to_owned(),
        PrimitiveType::Long => "long".to_owned(),
        PrimitiveType::Integer => "integer".to_owned(),
        PrimitiveType::Short => "short".to_owned(),
        PrimitiveType::Byte => "byte".to_owned(),
        PrimitiveType::Float => "float".to_owned(),
        PrimitiveType::Double => "double".to_owned(),
        PrimitiveType::Boolean => "boolean".to_owned(),
        PrimitiveType::Binary => "binary".to_owned(),
        PrimitiveType::Date => "date".to_owned(),
        PrimitiveType::Timestamp => "timestamp".to_owned(),
        PrimitiveType::TimestampNtz => "timestamp_ntz".to_owned(),
        PrimitiveType::TimestampNanos => "timestamp_nanos".to_owned(),
        PrimitiveType::Decimal(d) => {
            let mut text = "decimal(".to_owned();
            text.append(u64_text(d.precision as u64).as_str());
            text.append(",");
            text.append(u64_text(d.scale as u64).as_str());
            text.append(")");
            text
        },
        PrimitiveType::Void => "void".to_owned(),
    }
}

fn write_fields(fields: &Vec<StructField>) -> (r: String)
    ensures
        r@ == fields_text(fields_view(fields@), fields@.len()),
    decreases fields, 1nat,
{
    let ghost fs = fields_view(fields@);
    let mut text = "".to_owned();
    let mut i: usize = 0;
    proof {
        lemma_fields_view(fields@);
        reveal_strlit("");
        assert(text@ =~= fields_text(fs, 0));
    }
    while i < fields.len()
        invariant
            i <= fields.len(),
            fs == fields_view(fields@),
            fs.len() == fields@.len(),
            text@ == fields_text(fs, i as nat),
        decreases fields.len() - i,
    {
        proof {
            lemma_fields_view(fields@);
        }
        let ghost before = text@;
        assert(decreases_to!(*fields => fields@[i as int]));
        if i > 0 {
            text.append(", ");
        } else {
            assert(before + Seq::<char>::empty() =~= before);
        }
        text.append(fields[i].name.as_str());
        text.append(": ");
        text.append(fields[i].data_type.text().as_str());
        i += 1;
    }
    text
}

impl KernelDataType {
    /// The type in words.
    pub fn text(&self) -> (r: String)
        ensures
            r@ == type_text(self@),
        decreases self, 0nat,
    {
        match self {
            KernelDataType::Primitive(p) => primitive_name(*p),
            KernelDataType::Array(a) => {
                let mut text = "array<".to_owned();
                text.append(a.element_type.text().as_str());
                text.append(">");
                text
            },
            KernelDataType::Struct(s) => {
                let mut text = "struct<".to_owned();
                text.append(write_fields(&s.fields).as_str());
                text.append(">");
                proof {
                    lemma_fields_view(s.fields@);
                }
                text
            },
            KernelDataType::MapOf(m) => {
                let mut text = "map<".to_owned();
                text.append(m.key_type.text().as_str());
                text.append(", ");
                text.append(m.value_type.text().as_str());
                text.append(">");
                text
            },
            KernelDataType::Variant(_) => "variant".to_owned(),
        }
    }

    fn leaf_name(&self) -> (r: String)
        ensures
            r@ == leaf_text(self@),
    {
        match self {
            KernelDataType::Primitive(p) => match *p {
                PrimitiveType::String => "String".to_owned(),
                PrimitiveType::Long => "Long".to_owned(),
                PrimitiveType::Integer => "Integer".to_owned(),
                PrimitiveType::Short => "Short".to_owned(),
                PrimitiveType::Byte => "Byte".to_owned(),
                PrimitiveType::Float => "Float".to_owned(),
                PrimitiveType::Double => "Double".to_owned(),
                PrimitiveType::Boolean => "Boolean".to_owned(),
                PrimitiveType::Binary => "Binary".to_owned(),
                PrimitiveType::Date => "Date".to_owned(),
                PrimitiveType::Timestamp => "Timestamp".to_owned(),
                PrimitiveType::TimestampNtz => "TimestampNtz".to_owned(),
                PrimitiveType::TimestampNanos => "TimestampNanos".to_owned(),
                PrimitiveType::Decimal(_) => primitive_name(*p),
                PrimitiveType::Void => "Void".to_owned(),
            },
            _ => self.text(),
        }
    }
}

impl Error {
    /// The message of the error. Where Arrow reported an error about anything but an invalid
    /// argument, only what stands before Arrow's own text is fixed.
    pub fn message(&self) -> (r: String)
        ensures
            extends(message_text(self@), r@),
            !ends_in_arrow_text(self@) ==> r@ == message_text(self@),
            arrow_text(*self) matches Some(text) ==> r@ == message_text(self@) + text,
        decreases self,
    {
        match self {
            Error::InvalidBuilder(t) => {
                let mut text = "Invalid expression evaluation: Invalid builder for ".to_owned();
                text.append(t.text().as_str());
                text
            },
            Error::WrongFieldCount => "Struct builder has wrong number of fields".to_owned(),
            Error::UnsupportedVariant => "Variant is not supported as scalar yet.".to_owned(),
            Error::RowLength { row, scalars, fields } => {
                let mut text = "Row ".to_owned();
                text.append(u64_text(*row as u64).as_str());
                text.append(" has ");
                text.append(u64_text(*scalars as u64).as_str());
                text.append(" scalars but schema has ");
                text.append(u64_text(*fields as u64).as_str());
                text.append(" fields");
                text
            },
            Error::RowScalar { row, field, expected, actual, cause } => {
                let mut text = "Row ".to_owned();
                text.append(u64_text(*row as u64).as_str());
                text.append(", field '");
                text.append(field.as_str());
                text.append("' (expected type ");
                text.append(expected.text().as_str());
                text.append(", got ");
                text.append(actual.text().as_str());
                text.append("): ");
                let ghost before = text@;
                let cause_text = cause.message();
                text.append(cause_text.as_str());
                proof {
                    if let Some(end) = arrow_text(**cause) {
                        assert(before + (message_text(cause@) + end) =~= before + message_text(
                            cause@,
                        ) + end);
                    }
                }
                text
            },
            Error::NotStructSchema =>
                "apply_schema at top-level must be passed a struct schema".to_owned(),
            Error::NotStructArray =>
                "Arrow claimed to be a struct but isn't a StructArray".to_owned(),
            Error::NotListArray => "Arrow claimed to be a list but isn't a ListArray".to_owned(),
            Error::NotMapArray => "Arrow claimed to be a map but isn't a MapArray".to_owned(),
            Error::FieldIdConflict { field, input_id, target_id } => {
                let mut text = "Field '".to_owned();
                text.append(field.as_str());
                text.append("': input field ID ");
                text.append(input_id.as_str());
                text.append(" conflicts with target field ID ");
                text.append(target_id.as_str());
                text
            },
            Error::ColumnCount { input, transformed } => {
                let mut text = "Passed struct had ".to_owned();
                text.append(u64_text(*input as u64).as_str());
                text.append(" columns, but transformed column has ");
                text.append(u64_text(*transformed as u64).as_str());
                text
            },
            Error::MapEntryColumns(n) => {
                let mut text =
                    "Map entries struct must have exactly 2 columns (key, value), got ".to_owned();
                text.append(u64_text(*n as u64).as_str());
                text
            },
            Error::NestedIdsNotObject(field) => {
                let mut text = "Nested field IDs of field '".to_owned();
                text.append(field.as_str());
                text.append("' must be a JSON object");
                text
            },
            Error::NestedIdNotInteger { field, path } => {
                let mut text = "Nested field ID '".to_owned();
                text.append(path.as_str());
                text.append("' of field '");
                text.append(field.as_str());
                text.append("' must be an integer");
                text
            },
            Error::IncorrectType { expected, found } => {
                let mut text = "Incorrect datatype. Expected ".to_owned();
                text.append(expected.text().as_str());
                text.append(", got ");
                text.append(arrow_type_text(found).as_str());
                text
            },
            Error::NotStructOutput =>
                "expression output claimed struct but is not a StructArray".to_owned(),
            Error::MismatchedScalar { expected, actual } => {
                let mut text =
                    "Schema error: Mismatched scalar type while creating Expression: expected "
                    .to_owned();
                text.append(expected.leaf_name().as_str());
                text.append(", got ");
                text.append(actual.leaf_name().as_str());
                text
            },
            Error::NullInStruct =>
                "Null in a non-nullable field of a struct with other values".to_owned(),
            Error::TooFewScalars =>
                "Not enough scalars for the leaf fields of the schema".to_owned(),
            Error::TooManyScalars =>
                "Too many scalars for the leaf fields of the schema".to_owned(),
            Error::StructLength { fields, values } => {
                let mut text = "Struct has ".to_owned();
                text.append(u64_text(*fields as u64).as_str());
                text.append(" fields but ");
                text.append(u64_text(*values as u64).as_str());
                text.append(" values");
                text
            },
            Error::PartType { expected, actual } => {
                let mut text = "Expected a value of type ".to_owned();
                text.append(expected.text().as_str());
                text.append(", got ");
                text.append(actual.text().as_str());
                text
            },
            Error::NullPart => "Null where the type does not admit it".to_owned(),
            Error::EmptyColumnPath => "Empty column path".to_owned(),
            Error::NoSuchField(name) => {
                let mut text = "No such field: ".to_owned();
                text.append(name.as_str());
                text
            },
            Error::NotAStruct(name) => {
                let mut text = "Not a struct: ".to_owned();
                text.append(name.as_str());
                text
            },
            Error::StructTypeRequired =>
                "Data type is required to evaluate struct expressions".to_owned(),
            Error::NotBoolean => "expected BooleanArray".to_owned(),
            Error::Arrow(e) => {
                let mut text = "Arrow error: ".to_owned();
                text.append(arrow_error_text(e).as_str());
                text
            },
        }
    }
}

} // verus!

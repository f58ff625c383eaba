//! Bringing Arrow data in line with a kernel schema.
//!
//! Applying a schema rebuilds an array so that the names, nullability and metadata of its fields are
//! those of the schema. Values, offsets and null buffers pass through unchanged.
use crate::arrow_arrays::{
    columns_of, first_len, ArrowArray, ArrowBatch, ListParts, MapParts, StructParts,
};
use crate::arrow_types::{
    clone_type, collect_fields, field_metadata, field_name, field_nullable, field_of, fields_seq,
    list_fields, metadata_of, new_field, share_fields, struct_type, type_of, with_metadata,
};
use crate::conversion::{
    ancestor_id, find_ancestor_id, id_field, lemma_arrow_type_buildable, new_id_field,
    optional_field_view, pair_fields, LIST_ARRAY_ROOT, MAP_KEY_DEFAULT, MAP_VALUE_DEFAULT,
};
use crate::data_types::{ensure_data_types, primitive_reads, reads};
use crate::error::{Error, ErrorView};
use crate::metadata::{
    arrow_metadata, is_result, kernel_metadata_to_arrow, PARQUET_FIELD_ID_META_KEY,
};
use crate::model::{
    batch_accepts, list_accepts, map_accepts, struct_accepts, ArrowField, ArrowType, BatchView,
    Column,
};
use crate::schema::{
    fields_view, lemma_fields_view, ArrayType, FieldView, KernelDataType, MapType, StructField,
    StructType, TypeView,
};
use crate::text::{dotted, dotted_text, same_text};
use crate::to_array::is_array_result;
use arrow::datatypes::{DataType, Field};
use vstd::prelude::*;

verus! {

/// What applying a field to a column makes of the two, or of a struct's first fields and columns.
pub struct Parts {
    pub fields: Seq<ArrowField>,
    pub columns: Seq<Column>,
}

/// The fewer of two counts.
pub open spec fn fewer(a: nat, b: nat) -> nat {
    if a < b {
        a
    } else {
        b
    }
}

/// Whether data that carries one field id would be given another.
pub open spec fn ids_conflict(input: ArrowField, target: Map<Seq<char>, Seq<char>>) -> bool {
    let key = PARQUET_FIELD_ID_META_KEY@;
    input.metadata.contains_key(key) && target.contains_key(key) && input.metadata[key]
        != target[key]
}

/// The error that two different field ids cause.
pub open spec fn id_conflict(
    name: Seq<char>,
    input: ArrowField,
    target: Map<Seq<char>, Seq<char>>,
) -> ErrorView {
    ErrorView::FieldIdConflict {
        field: name,
        input_id: input.metadata[PARQUET_FIELD_ID_META_KEY@],
        target_id: target[PARQUET_FIELD_ID_META_KEY@],
    }
}

/// The Arrow field that a kernel field becomes over data of type `data_type`.
pub open spec fn target_field(f: FieldView, data_type: ArrowType) -> ArrowField {
    ArrowField {
        name: f.name,
        data_type,
        nullable: f.nullable,
        metadata: arrow_metadata(f.metadata),
    }
}

/// The entries field of a map over rebuilt keys and values. It keeps its name and nullability.
pub open spec fn rebuilt_entries(
    entries: ArrowField,
    key: ArrowField,
    value: ArrowField,
) -> ArrowField {
    ArrowField {
        name: entries.name,
        data_type: ArrowType::Struct(seq![key, value]),
        nullable: entries.nullable,
        metadata: Map::empty(),
    }
}

/// The column that applying the kernel type `t` makes of `c`.
///
/// The field of a struct takes name, nullability and metadata from the kernel field. The fields of
/// list elements, map keys and map values have no kernel field: they keep their names, take their
/// nullability from the kernel type, and their metadata is the field id that the struct field
/// `ancestor` holds for their path from it.
pub open spec fn transform(
    c: Column,
    t: TypeView,
    ancestor: Option<FieldView>,
    path: Seq<char>,
) -> Result<Column, ErrorView>
    decreases t, 0nat,
{
    match t {
        TypeView::Struct(fs) => transform_struct(c, fs),
        TypeView::Array(element, contains_null) => {
            let element_path = dotted(path, LIST_ARRAY_ROOT@);
            match c {
                Column::List { field, offsets, values, validity } => match (
                    ancestor_id(ancestor, element_path),
                    transform(*values, *element, ancestor, element_path),
                ) {
                    (Err(e), _) => Err(e),
                    (Ok(_), Err(e)) => Err(e),
                    (Ok(id), Ok(v)) => {
                        let f = id_field(field.name, v.data_type(), contains_null, id);
                        if list_accepts(f, offsets, v, validity) {
                            Ok(
                                Column::List {
                                    field: f,
                                    offsets,
                                    values: Box::new(v),
                                    validity,
                                },
                            )
                        } else {
                            Err(ErrorView::Arrow)
                        }
                    },
                },
                _ => Err(ErrorView::NotListArray),
            }
        },
        TypeView::MapOf(key, value, value_contains_null) => {
            let key_path = dotted(path, MAP_KEY_DEFAULT@);
            let value_path = dotted(path, MAP_VALUE_DEFAULT@);
            match c {
                Column::MapOf { field, offsets, entries, validity, ordered } => match *entries {
                    Column::Struct { fields, columns, validity: present } => if columns.len() != 2
                        || fields.len() != 2 {
                        Err(ErrorView::MapEntryColumns(columns.len()))
                    } else {
                        match (
                            ancestor_id(ancestor, key_path),
                            ancestor_id(ancestor, value_path),
                            transform(columns[0], *key, ancestor, key_path),
                            transform(columns[1], *value, ancestor, value_path),
                        ) {
                            (Err(e), _, _, _) => Err(e),
                            (Ok(_), Err(e), _, _) => Err(e),
                            (Ok(_), Ok(_), Err(e), _) => Err(e),
                            (Ok(_), Ok(_), Ok(_), Err(e)) => Err(e),
                            (Ok(key_id), Ok(value_id), Ok(k), Ok(v)) => {
                                let kf = id_field(fields[0].name, k.data_type(), false, key_id);
                                let vf = id_field(
                                    fields[1].name,
                                    v.data_type(),
                                    value_contains_null,
                                    value_id,
                                );
                                let whole = Column::Struct {
                                    fields: seq![kf, vf],
                                    columns: seq![k, v],
                                    validity: present,
                                };
                                let f = rebuilt_entries(field, kf, vf);
                                if struct_accepts(seq![kf, vf], seq![k, v], present)
                                    && map_accepts(f, offsets, whole, validity) {
                                    Ok(
                                        Column::MapOf {
                                            field: f,
                                            offsets,
                                            entries: Box::new(whole),
                                            validity,
                                            ordered,
                                        },
                                    )
                                } else {
                                    Err(ErrorView::Arrow)
                                }
                            },
                        }
                    },
                    _ => Err(ErrorView::NotMapArray),
                },
                _ => Err(ErrorView::NotMapArray),
            }
        },
        _ => match reads(t, c.data_type()) {
            Ok(_) => Ok(c),
            Err(e) => Err(e),
        },
    }
}

/// The struct column that applying kernel fields makes of `c`, field by field in order. There have to
/// be as many kernel fields as columns.
pub open spec fn transform_struct(c: Column, fs: Seq<FieldView>) -> Result<Column, ErrorView>
    decreases fs, 1nat + fs.len(),
{
    match c {
        Column::Struct { columns, validity, .. } => {
            let count = fewer(columns.len(), fs.len());
            match transform_fields(c, fs, count) {
                Err(e) => Err(e),
                Ok(p) => if fs.len() != columns.len() {
                    Err(ErrorView::ColumnCount { input: columns.len(), transformed: fs.len() })
                } else if struct_accepts(p.fields, p.columns, validity) {
                    Ok(Column::Struct { fields: p.fields, columns: p.columns, validity })
                } else {
                    Err(ErrorView::Arrow)
                },
            }
        },
        _ => Err(ErrorView::NotStructArray),
    }
}

/// What applying the first `k` kernel fields makes of the first `k` fields and columns of a struct.
pub open spec fn transform_fields(c: Column, fs: Seq<FieldView>, k: nat) -> Result<Parts, ErrorView>
    decreases fs, k,
{
    if k == 0 || k > fs.len() {
        Ok(Parts { fields: seq![], columns: seq![] })
    } else {
        let f = fs[k - 1];
        let input = c->Struct_fields[k - 1];
        match (
            transform_fields(c, fs, (k - 1) as nat),
            transform(c->Struct_columns[k - 1], fs[k - 1].data_type, Some(f), f.name),
        ) {
            (Err(e), _) => Err(e),
            (Ok(_), Err(e)) => Err(e),
            (Ok(p), Ok(q)) => if ids_conflict(input, arrow_metadata(f.metadata)) {
                Err(id_conflict(f.name, input, arrow_metadata(f.metadata)))
            } else {
                Ok(
                    Parts {
                        fields: p.fields.push(target_field(f, q.data_type())),
                        columns: p.columns.push(q),
                    },
                )
            },
        }
    }
}

/// The record batch of a struct column. The null rows of the struct itself are dropped: its columns
/// are expected to be null there.
pub open spec fn struct_batch(c: Column) -> Result<BatchView, ErrorView> {
    if batch_accepts(c->Struct_fields, c->Struct_columns) {
        Ok(
            BatchView {
                fields: c->Struct_fields,
                columns: c->Struct_columns,
                rows: first_len(c->Struct_columns),
            },
        )
    } else {
        Err(ErrorView::Arrow)
    }
}

/// The record batch that applying the schema `t` makes of `c`.
pub open spec fn applied(c: Column, t: TypeView) -> Result<BatchView, ErrorView> {
    match t {
        TypeView::Struct(fs) => match transform_struct(c, fs) {
            Ok(q) => struct_batch(q),
            Err(e) => Err(e),
        },
        _ => Err(ErrorView::NotStructSchema),
    }
}

/// Whether a result is the batch that `expected` says.
pub open spec fn is_batch_result(
    r: Result<ArrowBatch, Error>,
    expected: Result<BatchView, ErrorView>,
) -> bool {
    match r {
        Ok(b) => expected == Ok::<BatchView, ErrorView>(b@),
        Err(e) => expected == Err::<BatchView, ErrorView>(e@),
    }
}

/// Whether the columns that the kernel type `t` reaches have the types that their fields declare,
/// and as many rows as they should.
pub open spec fn typed(c: Column, t: TypeView) -> bool
    decreases t,
{
    match (c, t) {
        (Column::Struct { fields, columns, validity }, TypeView::Struct(fs)) => {
            &&& fields.len() == columns.len()
            &&& forall|i: int|
                #![trigger columns[i]]
                0 <= i < columns.len() ==> {
                    &&& columns[i].data_type() == fields[i].data_type
                    &&& columns[i].len() == validity.len()
                    &&& i < fs.len() ==> typed(columns[i], fs[i].data_type)
                }
        },
        (Column::List { field, values, .. }, TypeView::Array(element, _)) => {
            &&& values.data_type() == field.data_type
            &&& typed(*values, *element)
        },
        (Column::MapOf { field, entries, .. }, TypeView::MapOf(key, value, _)) => {
            &&& entries.data_type() == field.data_type
            &&& *entries is Struct
            &&& entries->Struct_columns.len() == 2
            &&& entries->Struct_fields.len() == 2
            &&& entries->Struct_columns[0].data_type() == entries->Struct_fields[0].data_type
            &&& entries->Struct_columns[1].data_type() == entries->Struct_fields[1].data_type
            &&& typed(entries->Struct_columns[0], *key)
            &&& typed(entries->Struct_columns[1], *value)
        },
        _ => true,
    }
}

/// What comes out of a transform has a type that kernel types can be read from.
pub proof fn lemma_transform_known(
    c: Column,
    t: TypeView,
    ancestor: Option<FieldView>,
    path: Seq<char>,
)
    requires
        transform(c, t, ancestor, path) is Ok,
    ensures
        !(transform(c, t, ancestor, path)->Ok_0.data_type() is Other),
{
    match t {
        TypeView::Variant(_) => {
            assert(reads(t, c.data_type()) is Ok);
            lemma_arrow_type_buildable(t, None, ""@);
        },
        TypeView::Primitive(p) => {
            assert(primitive_reads(p, c.data_type()));
        },
        TypeView::Struct(fs) => {
            assert(transform_struct(c, fs) is Ok);
        },
        _ => {},
    }
}

/// What the first `k` fields and columns of a transformed struct are.
pub proof fn lemma_transform_fields(c: Column, fs: Seq<FieldView>, k: nat)
    requires
        k <= fs.len(),
        transform_fields(c, fs, k) is Ok,
    ensures
        transform_fields(c, fs, k)->Ok_0.fields.len() == k,
        transform_fields(c, fs, k)->Ok_0.columns.len() == k,
        forall|i: int|
            #![trigger transform_fields(c, fs, k)->Ok_0.columns[i]]
            0 <= i < k ==> {
                let p = transform_fields(c, fs, k)->Ok_0;
                &&& transform(c->Struct_columns[i], fs[i].data_type, Some(fs[i]), fs[i].name)
                    == Ok::<Column, ErrorView>(p.columns[i])
                &&& p.fields[i] == target_field(fs[i], p.columns[i].data_type())
                &&& !ids_conflict(c->Struct_fields[i], arrow_metadata(fs[i].metadata))
                &&& !(p.columns[i].data_type() is Other)
            },
    decreases k,
{
    if k > 0 {
        lemma_transform_fields(c, fs, (k - 1) as nat);
        lemma_transform_known(
            c->Struct_columns[k - 1],
            fs[k - 1].data_type,
            Some(fs[k - 1]),
            fs[k - 1].name,
        );
    }
}

proof fn lemma_transform_fields_stop(c: Column, fs: Seq<FieldView>, j: nat, k: nat)
    requires
        j <= k <= fs.len(),
        transform_fields(c, fs, j) is Err,
    ensures
        transform_fields(c, fs, k) == transform_fields(c, fs, j),
    decreases k,
{
    if j < k {
        lemma_transform_fields_stop(c, fs, j, (k - 1) as nat);
    }
}

/// An Arrow field of this name, type and nullability, with this metadata if there is any.
pub fn new_field_with_metadata(
    name: &str,
    data_type: &DataType,
    nullable: bool,
    metadata: Option<Vec<(String, String)>>,
) -> (r: Field)
    ensures
        field_of(r) == (ArrowField {
            name: name@,
            data_type: type_of(*data_type),
            nullable,
            metadata: match metadata {
                Some(pairs) => metadata_of(pairs@),
                None => Map::empty(),
            },
        }),
{
    let field = new_field(name, clone_type(data_type), nullable);
    match metadata {
        Some(pairs) => with_metadata(field, pairs),
        None => field,
    }
}

/// The value that pairs of key and value hold under `key`: the last one.
fn find_pair<'a>(pairs: &'a Vec<(String, String)>, key: &str) -> (r: Option<&'a String>)
    ensures
        match r {
            Some(v) => metadata_of(pairs@).contains_key(key@) && metadata_of(pairs@)[key@] == v@,
            None => !metadata_of(pairs@).contains_key(key@),
        },
{
    let mut i: usize = pairs.len();
    assert(pairs@.take(i as int) =~= pairs@);
    while i > 0
        invariant
            i <= pairs.len(),
            metadata_of(pairs@).contains_key(key@) == metadata_of(
                pairs@.take(i as int),
            ).contains_key(key@),
            metadata_of(pairs@.take(i as int)).contains_key(key@) ==> metadata_of(pairs@)[key@]
                == metadata_of(pairs@.take(i as int))[key@],
        decreases i,
    {
        assert(pairs@.take(i as int).drop_last() =~= pairs@.take(i - 1));
        i -= 1;
        if same_text(pairs[i].0.as_str(), key) {
            return Some(&pairs[i].1);
        }
    }
    None
}

/// Reports an error where data that carries one field id would be given another.
fn check_field_ids(name: &str, input: &Field, target: &Vec<(String, String)>) -> (r: Result<
    (),
    Error,
>)
    ensures
        is_result(
            r,
            if ids_conflict(field_of(*input), metadata_of(target@)) {
                Err(id_conflict(name@, field_of(*input), metadata_of(target@)))
            } else {
                Ok(())
            },
        ),
{
    let input_id = match field_metadata(input, PARQUET_FIELD_ID_META_KEY) {
        Some(id) => id,
        None => {
            return Ok(());
        },
    };
    match find_pair(target, PARQUET_FIELD_ID_META_KEY) {
        Some(target_id) => if input_id == *target_id {
            Ok(())
        } else {
            Err(
                Error::FieldIdConflict {
                    field: name.to_owned(),
                    input_id,
                    target_id: target_id.clone(),
                },
            )
        },
        None => Ok(()),
    }
}

/// A transform keeps the number of rows.
pub proof fn lemma_transform_len(
    c: Column,
    t: TypeView,
    ancestor: Option<FieldView>,
    path: Seq<char>,
)
    requires
        transform(c, t, ancestor, path) is Ok,
    ensures
        transform(c, t, ancestor, path)->Ok_0.len() == c.len(),
{
    match t {
        TypeView::Struct(fs) => {
            assert(transform_struct(c, fs) is Ok);
        },
        _ => {},
    }
}

/// Rebuilds `array` so that its fields are in line with the kernel type `schema`.
///
/// `ancestor` is the nearest struct field around the array, and `relative_path` the dotted path from
/// it, rooted at its name. At the top level there is none, and the path is empty.
fn apply_schema_to_inner(
    array: &ArrowArray,
    schema: &KernelDataType,
    ancestor: Option<&StructField>,
    relative_path: &str,
) -> (r: Result<ArrowArray, Error>)
    ensures
        is_array_result(
            r,
            transform(array@, schema@, optional_field_view(ancestor), relative_path@),
        ),
    decreases schema, 0nat,
{
    match schema {
        KernelDataType::Struct(stype) => apply_schema_to_struct(array, stype),
        KernelDataType::Array(atype) => apply_schema_to_list(array, atype, ancestor, relative_path),
        KernelDataType::MapOf(mtype) => apply_schema_to_map(array, mtype, ancestor, relative_path),
        _ => match ensure_data_types(schema, &array.data_type()) {
            Ok(()) => Ok(array.share()),
            Err(e) => Err(e),
        },
    }
}

/// Rebuilds a struct array, field by field in order.
pub fn apply_schema_to_struct(array: &ArrowArray, kernel_fields: &StructType) -> (r: Result<
    ArrowArray,
    Error,
>)
    ensures
        is_array_result(r, transform_struct(array@, kernel_fields@)),
    decreases kernel_fields, 0nat,
{
    let StructParts { fields, columns, nulls } = match array.struct_parts() {
        Some(parts) => parts,
        None => {
            return Err(Error::NotStructArray);
        },
    };
    let input_fields = list_fields(&fields);
    let ghost c = array@;
    let ghost fs = kernel_fields@;
    let ghost count = fewer(columns@.len(), fs.len());
    let mut out_fields: Vec<Field> = Vec::new();
    let mut out_columns: Vec<ArrowArray> = Vec::new();
    let mut i: usize = 0;
    assert(fields_seq(out_fields@) =~= seq![]);
    assert(columns_of(out_columns@) =~= seq![]);
    proof {
        lemma_fields_view(kernel_fields.fields@);
    }
    while i < columns.len() && i < kernel_fields.fields.len()
        invariant
            i <= count,
            c == array@,
            c is Struct,
            fs == fields_view(kernel_fields.fields@),
            fs == kernel_fields@,
            fs.len() == kernel_fields.fields@.len(),
            count == fewer(columns@.len(), fs.len()),
            c->Struct_columns == columns_of(columns@),
            c->Struct_fields == fields_seq(input_fields@),
            input_fields@.len() == columns@.len(),
            out_columns@.len() == i,
            transform_fields(c, fs, i as nat) == Ok::<Parts, ErrorView>(
                Parts { fields: fields_seq(out_fields@), columns: columns_of(out_columns@) },
            ),
        decreases columns.len() - i,
    {
        proof {
            lemma_fields_view(kernel_fields.fields@);
        }
        let target = &kernel_fields.fields[i];
        assert(decreases_to!(*kernel_fields => kernel_fields.fields));
        assert(decreases_to!(kernel_fields.fields => kernel_fields.fields@[i as int]));
        assert(c->Struct_columns[i as int] == columns@[i as int]@);
        assert(c->Struct_fields[i as int] == field_of(input_fields@[i as int]));
        let column = match apply_schema_to_inner(
            &columns[i],
            &target.data_type,
            Some(target),
            target.name.as_str(),
        ) {
            Ok(column) => column,
            Err(e) => {
                proof {
                    lemma_transform_fields_stop(c, fs, (i + 1) as nat, count);
                }
                return Err(e);
            },
        };
        let metadata = kernel_metadata_to_arrow(target);
        match check_field_ids(target.name.as_str(), &input_fields[i], &metadata) {
            Ok(()) => {},
            Err(e) => {
                proof {
                    lemma_transform_fields_stop(c, fs, (i + 1) as nat, count);
                }
                return Err(e);
            },
        }
        let field = new_field_with_metadata(
            target.name.as_str(),
            &column.data_type(),
            target.nullable,
            Some(metadata),
        );
        let ghost before_fields = fields_seq(out_fields@);
        let ghost before_columns = columns_of(out_columns@);
        out_fields.push(field);
        out_columns.push(column);
        assert(fields_seq(out_fields@) =~= before_fields.push(field_of(field)));
        assert(columns_of(out_columns@) =~= before_columns.push(column@));
        i += 1;
    }
    proof {
        lemma_transform_fields(c, fs, count);
    }
    if kernel_fields.fields.len() != columns.len() {
        return Err(
            Error::ColumnCount { input: columns.len(), transformed: kernel_fields.fields.len() },
        );
    }
    proof {
        if columns@.len() > 0 {
            let f = fs[0];
            assert(columns_of(out_columns@)[0] == out_columns@[0]@);
            assert(transform(c->Struct_columns[0], f.data_type, Some(f), f.name) is Ok);
            lemma_transform_len(c->Struct_columns[0], f.data_type, Some(f), f.name);
        }
    }
    match ArrowArray::struct_from_parts(collect_fields(out_fields), out_columns, nulls) {
        Ok(out) => Ok(out),
        Err(e) => Err(Error::Arrow(e)),
    }
}

/// Rebuilds a list array. The element field keeps its name, and its field id, if it has one, is the
/// one that `ancestor` holds for its path.
fn apply_schema_to_list(
    array: &ArrowArray,
    target_inner_type: &ArrayType,
    ancestor: Option<&StructField>,
    relative_path: &str,
) -> (r: Result<ArrowArray, Error>)
    ensures
        is_array_result(
            r,
            transform(
                array@,
                TypeView::Array(
                    Box::new(target_inner_type.element_type@),
                    target_inner_type.contains_null,
                ),
                optional_field_view(ancestor),
                relative_path@,
            ),
        ),
    decreases target_inner_type, 0nat,
{
    let ListParts { field, offsets, values, nulls } = match array.list_parts() {
        Some(parts) => parts,
        None => {
            return Err(Error::NotListArray);
        },
    };
    let element_path = dotted_text(relative_path, LIST_ARRAY_ROOT);
    let element_id = match find_ancestor_id(ancestor, element_path.as_str()) {
        Ok(id) => id,
        Err(e) => {
            return Err(e);
        },
    };
    let values = match apply_schema_to_inner(
        &values,
        &target_inner_type.element_type,
        ancestor,
        element_path.as_str(),
    ) {
        Ok(values) => values,
        Err(e) => {
            return Err(e);
        },
    };
    proof {
        lemma_transform_known(
            *array@->List_values,
            target_inner_type.element_type@,
            optional_field_view(ancestor),
            element_path@,
        );
    }
    let name = field_name(&field);
    let field = new_id_field(
        name.as_str(),
        values.data_type(),
        target_inner_type.contains_null,
        element_id,
    );
    match ArrowArray::list_from_parts(ListParts { field, offsets, values, nulls }) {
        Ok(out) => Ok(out),
        Err(e) => Err(Error::Arrow(e)),
    }
}

/// Rebuilds a map array. The entries, key and value fields keep their names, and the field ids of
/// the latter two, if they have any, are those that `ancestor` holds for their paths.
fn apply_schema_to_map(
    array: &ArrowArray,
    kernel_map_type: &MapType,
    ancestor: Option<&StructField>,
    relative_path: &str,
) -> (r: Result<ArrowArray, Error>)
    ensures
        is_array_result(
            r,
            transform(
                array@,
                TypeView::MapOf(
                    Box::new(kernel_map_type.key_type@),
                    Box::new(kernel_map_type.value_type@),
                    kernel_map_type.value_contains_null,
                ),
                optional_field_view(ancestor),
                relative_path@,
            ),
        ),
    decreases kernel_map_type, 0nat,
{
    let MapParts { field: map_field, offsets, entries, nulls, ordered } = match array.map_parts() {
        Some(parts) => parts,
        None => {
            return Err(Error::NotMapArray);
        },
    };
    let StructParts { fields: entry_fields, columns, nulls: entry_nulls } =
        match entries.struct_parts() {
        Some(parts) => parts,
        None => {
            return Err(Error::NotMapArray);
        },
    };
    let ghost whole = entries@;
    let input_fields = list_fields(&entry_fields);
    assert(whole->Struct_fields == fields_seq(input_fields@));
    if columns.len() != 2 || input_fields.len() != 2 {
        return Err(Error::MapEntryColumns(columns.len()));
    }
    let key_path = dotted_text(relative_path, MAP_KEY_DEFAULT);
    let value_path = dotted_text(relative_path, MAP_VALUE_DEFAULT);
    let key_id = match find_ancestor_id(ancestor, key_path.as_str()) {
        Ok(id) => id,
        Err(e) => {
            return Err(e);
        },
    };
    let value_id = match find_ancestor_id(ancestor, value_path.as_str()) {
        Ok(id) => id,
        Err(e) => {
            return Err(e);
        },
    };
    assert(whole->Struct_columns[0] == columns@[0]@);
    assert(whole->Struct_columns[1] == columns@[1]@);
    let key = match apply_schema_to_inner(
        &columns[0],
        &kernel_map_type.key_type,
        ancestor,
        key_path.as_str(),
    ) {
        Ok(key) => key,
        Err(e) => {
            return Err(e);
        },
    };
    let value = match apply_schema_to_inner(
        &columns[1],
        &kernel_map_type.value_type,
        ancestor,
        value_path.as_str(),
    ) {
        Ok(value) => value,
        Err(e) => {
            return Err(e);
        },
    };
    let ghost anc = optional_field_view(ancestor);
    proof {
        lemma_transform_known(columns@[0]@, kernel_map_type.key_type@, anc, key_path@);
        lemma_transform_known(columns@[1]@, kernel_map_type.value_type@, anc, value_path@);
        lemma_transform_len(columns@[0]@, kernel_map_type.key_type@, anc, key_path@);
    }
    let key_name = field_name(&input_fields[0]);
    let value_name = field_name(&input_fields[1]);
    let key_field = new_id_field(key_name.as_str(), key.data_type(), false, key_id);
    let value_field = new_id_field(
        value_name.as_str(),
        value.data_type(),
        kernel_map_type.value_contains_null,
        value_id,
    );
    let fields = pair_fields(key_field, value_field);
    let ghost (k, v) = (key@, value@);
    let mut out_columns: Vec<ArrowArray> = Vec::new();
    out_columns.push(key);
    out_columns.push(value);
    assert(columns_of(out_columns@) =~= seq![k, v]);
    let entries = match ArrowArray::struct_from_parts(
        share_fields(&fields),
        out_columns,
        entry_nulls,
    ) {
        Ok(entries) => entries,
        Err(e) => {
            return Err(Error::Arrow(e));
        },
    };
    let entries_name = field_name(&map_field);
    let field = new_field(
        entries_name.as_str(),
        struct_type(fields),
        field_nullable(&map_field),
    );
    match ArrowArray::map_from_parts(MapParts { field, offsets, entries, nulls, ordered }) {
        Ok(out) => Ok(out),
        Err(e) => Err(Error::Arrow(e)),
    }
}

/// Applies a kernel type to an array: renames its fields and sets their nullability and metadata.
/// Where the data has another type, an error is reported.
pub fn apply_schema_to(array: &ArrowArray, schema: &KernelDataType) -> (r: Result<
    ArrowArray,
    Error,
>)
    ensures
        is_array_result(r, transform(array@, schema@, None, ""@)),
{
    apply_schema_to_inner(array, schema, None, "")
}

} // verus!

//! When applying a schema changes nothing, and a cache of such verdicts.
//!
//! Applying a schema never touches values, so what it does to the fields of an array depends on the
//! schema and the fields alone, where the columns have the types that the fields declare. Where it
//! leaves the fields of one array as they are, it does so for every such array with the same fields.
use crate::apply_laws::law_transform_idempotent;
use crate::apply_schema::{
    applied, fewer, id_conflict, ids_conflict, is_batch_result, lemma_transform_fields,
    rebuilt_entries, struct_batch, target_field, transform, transform_fields, transform_struct,
    typed, Parts, apply_schema_to_struct,
};
use crate::arrow_arrays::{columns_of, known_or_mistyped, ArrowArray, ArrowBatch, StructParts};
use crate::arrow_types::{fields_of, same_allocation, same_fields};
use crate::conversion::{
    ancestor_id, id_field, lemma_arrow_type_buildable, LIST_ARRAY_ROOT, MAP_KEY_DEFAULT,
    MAP_VALUE_DEFAULT,
};
use crate::data_types::{primitive_reads, reads};
use crate::error::{Error, ErrorView};
use crate::metadata::arrow_metadata;
use crate::model::{list_accepts, map_accepts, struct_accepts, ArrowField, ArrowType, Column};
use crate::schema::{FieldView, KernelDataType, Schema, TypeView};
use crate::text::dotted;
use arrow::datatypes::Fields;
use vstd::prelude::*;

verus! {

/// The Arrow type that applying the kernel type `t` makes of the Arrow type `a`, where nothing but
/// types can stand in the way.
pub open spec fn retype(
    a: ArrowType,
    t: TypeView,
    ancestor: Option<FieldView>,
    path: Seq<char>,
) -> Result<ArrowType, ErrorView>
    decreases t, 0nat,
{
    match t {
        TypeView::Struct(fs) => match a {
            ArrowType::Struct(inputs) => match retype_struct(inputs, fs) {
                Ok(fields) => Ok(ArrowType::Struct(fields)),
                Err(e) => Err(e),
            },
            _ => Err(ErrorView::NotStructArray),
        },
        TypeView::Array(element, contains_null) => {
            let element_path = dotted(path, LIST_ARRAY_ROOT@);
            match a {
                ArrowType::List(field) => match (
                    ancestor_id(ancestor, element_path),
                    retype(field.data_type, *element, ancestor, element_path),
                ) {
                    (Err(e), _) => Err(e),
                    (Ok(_), Err(e)) => Err(e),
                    (Ok(id), Ok(v)) => Ok(
                        ArrowType::List(Box::new(id_field(field.name, v, contains_null, id))),
                    ),
                },
                _ => Err(ErrorView::NotListArray),
            }
        },
        TypeView::MapOf(key, value, value_contains_null) => {
            let key_path = dotted(path, MAP_KEY_DEFAULT@);
            let value_path = dotted(path, MAP_VALUE_DEFAULT@);
            match a {
                ArrowType::MapOf(field, ordered) => match field.data_type {
                    ArrowType::Struct(fields) => if fields.len() != 2 {
                        Err(ErrorView::MapEntryColumns(fields.len()))
                    } else {
                        match (
                            ancestor_id(ancestor, key_path),
                            ancestor_id(ancestor, value_path),
                            retype(fields[0].data_type, *key, ancestor, key_path),
                            retype(fields[1].data_type, *value, ancestor, value_path),
                        ) {
                            (Err(e), _, _, _) => Err(e),
                            (Ok(_), Err(e), _, _) => Err(e),
                            (Ok(_), Ok(_), Err(e), _) => Err(e),
                            (Ok(_), Ok(_), Ok(_), Err(e)) => Err(e),
                            (Ok(key_id), Ok(value_id), Ok(k), Ok(v)) => Ok(
                                ArrowType::MapOf(
                                    Box::new(
                                        rebuilt_entries(
                                            *field,
                                            id_field(fields[0].name, k, false, key_id),
                                            id_field(
                                                fields[1].name,
                                                v,
                                                value_contains_null,
                                                value_id,
                                            ),
                                        ),
                                    ),
                                    ordered,
                                ),
                            ),
                        }
                    },
                    _ => Err(ErrorView::NotMapArray),
                },
                _ => Err(ErrorView::NotMapArray),
            }
        },
        _ => match reads(t, a) {
            Ok(_) => Ok(a),
            Err(e) => Err(e),
        },
    }
}

/// The Arrow fields that applying kernel fields makes of the fields of a struct. A struct without
/// fields cannot be rebuilt.
pub open spec fn retype_struct(inputs: Seq<ArrowField>, fs: Seq<FieldView>) -> Result<
    Seq<ArrowField>,
    ErrorView,
>
    decreases fs, 1nat + fs.len(),
{
    let count = fewer(inputs.len(), fs.len());
    match retype_fields(inputs, fs, count) {
        Err(e) => Err(e),
        Ok(fields) => if fs.len() != inputs.len() {
            Err(ErrorView::ColumnCount { input: inputs.len(), transformed: fs.len() })
        } else if count == 0 {
            Err(ErrorView::Arrow)
        } else {
            Ok(fields)
        },
    }
}

/// The Arrow fields that applying the first `k` kernel fields makes of the first `k` fields.
pub open spec fn retype_fields(inputs: Seq<ArrowField>, fs: Seq<FieldView>, k: nat) -> Result<
    Seq<ArrowField>,
    ErrorView,
>
    decreases fs, k,
{
    if k == 0 || k > fs.len() {
        Ok(seq![])
    } else {
        let f = fs[k - 1];
        let input = inputs[k - 1];
        match (
            retype_fields(inputs, fs, (k - 1) as nat),
            retype(input.data_type, fs[k - 1].data_type, Some(f), f.name),
        ) {
            (Err(e), _) => Err(e),
            (Ok(_), Err(e)) => Err(e),
            (Ok(fields), Ok(t)) => if ids_conflict(input, arrow_metadata(f.metadata)) {
                Err(id_conflict(f.name, input, arrow_metadata(f.metadata)))
            } else {
                Ok(fields.push(target_field(f, t)))
            },
        }
    }
}

/// Whether applying the kernel fields `fs` leaves Arrow fields as they are.
pub open spec fn is_identity(fields: Seq<ArrowField>, fs: Seq<FieldView>) -> bool {
    retype_struct(fields, fs) == Ok::<Seq<ArrowField>, ErrorView>(fields)
}

/// Whether an array holds what Arrow demands of it, in all of its children: columns of the declared
/// types and lengths, and no null where none may be.
pub open spec fn sound_column(c: Column) -> bool
    decreases c,
{
    match c {
        Column::Leaf { data_type, .. } => !(data_type is Struct || data_type is List
            || data_type is MapOf),
        Column::Struct { fields, columns, validity } => {
            &&& columns.len() > 0 ==> struct_accepts(fields, columns, validity)
            &&& columns.len() == 0 ==> fields.len() == 0
            &&& forall|i: int| 0 <= i < columns.len() ==> sound_column(#[trigger] columns[i])
        },
        Column::List { field, offsets, values, validity } => {
            &&& list_accepts(field, offsets, *values, validity)
            &&& sound_column(*values)
        },
        Column::MapOf { field, offsets, entries, validity, .. } => {
            &&& map_accepts(field, offsets, *entries, validity)
            &&& sound_column(*entries)
        },
    }
}

/// What applying a schema does to the type of an array depends on the type alone, where the columns
/// have the types that their fields declare.
pub proof fn law_transform_type(
    c: Column,
    t: TypeView,
    ancestor: Option<FieldView>,
    path: Seq<char>,
)
    requires
        typed(c, t),
        transform(c, t, ancestor, path) is Ok,
    ensures
        retype(c.data_type(), t, ancestor, path) == Ok::<ArrowType, ErrorView>(
            transform(c, t, ancestor, path)->Ok_0.data_type(),
        ),
    decreases t, 0nat,
{
    match t {
        TypeView::Struct(fs) => {
            lemma_transform_struct_type(c, fs);
        },
        TypeView::Array(element, _) => {
            law_transform_type(
                *c->List_values,
                *element,
                ancestor,
                dotted(path, LIST_ARRAY_ROOT@),
            );
        },
        TypeView::MapOf(key, value, _) => {
            let columns = c->MapOf_entries->Struct_columns;
            law_transform_type(columns[0], *key, ancestor, dotted(path, MAP_KEY_DEFAULT@));
            law_transform_type(columns[1], *value, ancestor, dotted(path, MAP_VALUE_DEFAULT@));
        },
        _ => {},
    }
}

proof fn lemma_transform_struct_type(c: Column, fs: Seq<FieldView>)
    requires
        typed(c, TypeView::Struct(fs)),
        transform_struct(c, fs) is Ok,
    ensures
        c is Struct,
        retype_struct(c->Struct_fields, fs) == Ok::<Seq<ArrowField>, ErrorView>(
            transform_struct(c, fs)->Ok_0->Struct_fields,
        ),
    decreases fs, 1nat + fs.len(),
{
    let count = fewer(c->Struct_columns.len(), fs.len());
    lemma_transform_fields_type(c, fs, count);
    lemma_transform_fields(c, fs, count);
}

proof fn lemma_transform_fields_type(c: Column, fs: Seq<FieldView>, k: nat)
    requires
        c is Struct,
        typed(c, TypeView::Struct(fs)),
        k <= fs.len(),
        k <= c->Struct_columns.len(),
        transform_fields(c, fs, k) is Ok,
    ensures
        retype_fields(c->Struct_fields, fs, k) == Ok::<Seq<ArrowField>, ErrorView>(
            transform_fields(c, fs, k)->Ok_0.fields,
        ),
    decreases fs, k,
{
    if k > 0 {
        lemma_transform_fields_type(c, fs, (k - 1) as nat);
        let f = fs[k - 1];
        assert(typed(c->Struct_columns[k - 1], fs[k - 1].data_type));
        law_transform_type(c->Struct_columns[k - 1], fs[k - 1].data_type, Some(f), f.name);
    }
}

/// What comes out of a transform has the types that its fields declare.
proof fn lemma_transform_typed(
    c: Column,
    t: TypeView,
    ancestor: Option<FieldView>,
    path: Seq<char>,
)
    requires
        transform(c, t, ancestor, path) is Ok,
    ensures
        typed(transform(c, t, ancestor, path)->Ok_0, t),
    decreases t,
{
    let q = transform(c, t, ancestor, path)->Ok_0;
    match t {
        TypeView::Struct(fs) => {
            assert(transform_struct(c, fs) == Ok::<Column, ErrorView>(q));
            let count = fewer(c->Struct_columns.len(), fs.len());
            lemma_transform_fields(c, fs, count);
            assert forall|i: int| 0 <= i < fs.len() implies typed(
                #[trigger] q->Struct_columns[i],
                fs[i].data_type,
            ) by {
                assert(q->Struct_columns[i] == transform_fields(c, fs, count)->Ok_0.columns[i]);
                lemma_transform_typed(
                    c->Struct_columns[i],
                    fs[i].data_type,
                    Some(fs[i]),
                    fs[i].name,
                );
            }
        },
        TypeView::Array(element, _) => {
            lemma_transform_typed(
                *c->List_values,
                *element,
                ancestor,
                dotted(path, LIST_ARRAY_ROOT@),
            );
        },
        TypeView::MapOf(key, value, _) => {
            let columns = c->MapOf_entries->Struct_columns;
            lemma_transform_typed(columns[0], *key, ancestor, dotted(path, MAP_KEY_DEFAULT@));
            lemma_transform_typed(columns[1], *value, ancestor, dotted(path, MAP_VALUE_DEFAULT@));
            let e = *q->MapOf_entries;
            assert(e->Struct_columns[0].data_type() == e->Struct_fields[0].data_type);
            assert(e->Struct_columns[1].data_type() == e->Struct_fields[1].data_type);
        },
        _ => {},
    }
}

/// A schema leaves the fields that it made as they are.
pub proof fn law_made_fields(c: Column, fs: Seq<FieldView>)
    requires
        transform_struct(c, fs) is Ok,
    ensures
        is_identity(transform_struct(c, fs)->Ok_0->Struct_fields, fs),
{
    let t = TypeView::Struct(fs);
    let q = transform_struct(c, fs)->Ok_0;
    assert(transform(c, t, None, ""@) == Ok::<Column, ErrorView>(q));
    lemma_transform_typed(c, t, None, ""@);
    law_transform_idempotent(c, t, None, ""@);
    assert(transform(q, t, None, ""@) == transform_struct(q, fs));
    lemma_transform_struct_type(q, fs);
}

/// What the fields of a retyped struct are.
proof fn lemma_retype_fields(inputs: Seq<ArrowField>, fs: Seq<FieldView>, k: nat)
    requires
        k <= fs.len(),
        retype_fields(inputs, fs, k) is Ok,
    ensures
        retype_fields(inputs, fs, k)->Ok_0.len() == k,
        forall|i: int|
            #![trigger retype_fields(inputs, fs, k)->Ok_0[i]]
            0 <= i < k ==> {
                let r = retype(inputs[i].data_type, fs[i].data_type, Some(fs[i]), fs[i].name);
                &&& r is Ok
                &&& retype_fields(inputs, fs, k)->Ok_0[i] == target_field(fs[i], r->Ok_0)
                &&& !ids_conflict(inputs[i], arrow_metadata(fs[i].metadata))
            },
    decreases k,
{
    if k > 0 {
        lemma_retype_fields(inputs, fs, (k - 1) as nat);
    }
}

/// Where a schema leaves the type of a sound array as it is, it leaves the array as it is.
pub proof fn law_identity(c: Column, t: TypeView, ancestor: Option<FieldView>, path: Seq<char>)
    requires
        sound_column(c),
        retype(c.data_type(), t, ancestor, path) == Ok::<ArrowType, ErrorView>(c.data_type()),
    ensures
        transform(c, t, ancestor, path) == Ok::<Column, ErrorView>(c),
    decreases t, 0nat,
{
    match t {
        TypeView::Struct(fs) => {
            lemma_identity_struct(c, fs);
        },
        TypeView::Array(element, _) => {
            law_identity(*c->List_values, *element, ancestor, dotted(path, LIST_ARRAY_ROOT@));
        },
        TypeView::MapOf(key, value, _) => {
            let e = *c->MapOf_entries;
            assert(sound_column(e));
            assert(sound_column(e->Struct_columns[0]));
            assert(sound_column(e->Struct_columns[1]));
            law_identity(
                e->Struct_columns[0],
                *key,
                ancestor,
                dotted(path, MAP_KEY_DEFAULT@),
            );
            law_identity(
                e->Struct_columns[1],
                *value,
                ancestor,
                dotted(path, MAP_VALUE_DEFAULT@),
            );
            assert(seq![e->Struct_columns[0], e->Struct_columns[1]] =~= e->Struct_columns);
        },
        _ => {},
    }
}

proof fn lemma_identity_struct(c: Column, fs: Seq<FieldView>)
    requires
        c is Struct,
        sound_column(c),
        is_identity(c->Struct_fields, fs),
    ensures
        transform_struct(c, fs) == Ok::<Column, ErrorView>(c),
    decreases fs, 1nat + fs.len(),
{
    let count = fewer(c->Struct_columns.len(), fs.len());
    lemma_retype_fields(c->Struct_fields, fs, count);
    lemma_identity_fields(c, fs, count);
    assert(c->Struct_fields.take(count as int) =~= c->Struct_fields);
    assert(c->Struct_columns.take(count as int) =~= c->Struct_columns);
}

proof fn lemma_identity_fields(c: Column, fs: Seq<FieldView>, k: nat)
    requires
        c is Struct,
        sound_column(c),
        is_identity(c->Struct_fields, fs),
        k <= c->Struct_columns.len(),
    ensures
        k <= fs.len(),
        transform_fields(c, fs, k) == Ok::<Parts, ErrorView>(
            Parts {
                fields: c->Struct_fields.take(k as int),
                columns: c->Struct_columns.take(k as int),
            },
        ),
    decreases fs, k,
{
    let inputs = c->Struct_fields;
    lemma_retype_fields(inputs, fs, inputs.len());
    if k > 0 {
        lemma_identity_fields(c, fs, (k - 1) as nat);
        let f = fs[k - 1];
        let column = c->Struct_columns[k - 1];
        assert(retype_fields(inputs, fs, inputs.len())->Ok_0[k - 1] == inputs[k - 1]);
        assert(column.data_type() == inputs[k - 1].data_type);
        assert(sound_column(column));
        law_identity(column, fs[k - 1].data_type, Some(f), f.name);
        assert(inputs.take(k as int) =~= inputs.take(k - 1).push(inputs[k - 1]));
        assert(c->Struct_columns.take(k as int) =~= c->Struct_columns.take(k - 1).push(column));
    } else {
        assert(inputs.take(0) =~= seq![]);
        assert(c->Struct_columns.take(0) =~= seq![]);
    }
}

/// Where a schema leaves the fields of a sound struct array as they are, applying it gives the
/// record batch of the array itself.
pub proof fn law_identity_batch(c: Column, fs: Seq<FieldView>)
    requires
        c is Struct,
        sound_column(c),
        is_identity(c->Struct_fields, fs),
    ensures
        applied(c, TypeView::Struct(fs)) == struct_batch(c),
{
    lemma_identity_struct(c, fs);
}

/// What comes out of a retyping is a type that kernel types can be read from.
proof fn lemma_retype_known(
    a: ArrowType,
    t: TypeView,
    ancestor: Option<FieldView>,
    path: Seq<char>,
)
    requires
        retype(a, t, ancestor, path) is Ok,
    ensures
        !(retype(a, t, ancestor, path)->Ok_0 is Other),
{
    match t {
        TypeView::Variant(_) => {
            assert(reads(t, a) is Ok);
            lemma_arrow_type_buildable(t, None, ""@);
        },
        TypeView::Primitive(p) => {
            assert(primitive_reads(p, a));
        },
        _ => {},
    }
}

pub proof fn lemma_identity_known(fields: Seq<ArrowField>, fs: Seq<FieldView>)
    requires
        is_identity(fields, fs),
    ensures
        forall|i: int| 0 <= i < fields.len() ==> !((#[trigger] fields[i]).data_type is Other),
{
    lemma_retype_fields(fields, fs, fields.len());
    assert forall|i: int| 0 <= i < fields.len() implies !(
    (#[trigger] fields[i]).data_type is Other) by {
        assert(retype_fields(fields, fs, fields.len())->Ok_0[i] == fields[i]);
        lemma_retype_known(fields[i].data_type, fs[i].data_type, Some(fs[i]), fs[i].name);
    }
}

/// The number of verdicts that the cache keeps.
pub const IDENTITY_CACHE_MAX: usize = 32;

/// Whether applying a schema to arrays with certain fields leaves them as they are.
pub struct IdentityEntry {
    input_fields: Fields,
    schema: Schema,
    identity: bool,
}

/// What an [`IdentityEntry`] says.
pub struct EntryView {
    pub fields: Seq<ArrowField>,
    pub schema: Seq<FieldView>,
    pub identity: bool,
}

/// The latest verdicts, oldest first.
///
/// A verdict is found again by the allocation of the fields, which the cache keeps alive, and by the
/// schema, which has to be equal in every detail.
pub struct IdentityCache {
    entries: Vec<IdentityEntry>,
}

impl View for IdentityEntry {
    type V = EntryView;

    closed spec fn view(&self) -> EntryView {
        EntryView {
            fields: fields_of(self.input_fields),
            schema: self.schema@,
            identity: self.identity,
        }
    }
}

impl View for IdentityCache {
    type V = Seq<EntryView>;

    closed spec fn view(&self) -> Seq<EntryView> {
        Seq::new(self.entries@.len(), |i: int| self.entries@[i]@)
    }
}

impl IdentityEntry {
    /// Whether the entry says that nothing changes only where that is so.
    pub open spec fn is_true(&self) -> bool {
        self@.identity ==> is_identity(self@.fields, self@.schema)
    }
}

/// Whether the cache holds the verdict that this schema leaves these fields as they are.
pub open spec fn knows_identity(
    cache: Seq<EntryView>,
    fields: Seq<ArrowField>,
    schema: Seq<FieldView>,
) -> bool {
    exists|i: int|
        0 <= i < cache.len() && (#[trigger] cache[i]).identity && cache[i].fields == fields
            && cache[i].schema == schema
}

/// Whether `shares` can say of each verdict whether it is on the allocation of these fields: one
/// that is has these fields.
pub open spec fn can_share(
    cache: Seq<EntryView>,
    shares: Seq<bool>,
    fields: Seq<ArrowField>,
) -> bool {
    &&& shares.len() == cache.len()
    &&& forall|i: int| 0 <= i < cache.len() && shares[i] ==> (#[trigger] cache[i]).fields == fields
}

/// Whether the verdict at `i` is the first on this schema among those that `shares` marks.
pub open spec fn first_shared(
    cache: Seq<EntryView>,
    shares: Seq<bool>,
    schema: Seq<FieldView>,
    i: int,
) -> bool {
    &&& 0 <= i < cache.len()
    &&& shares[i]
    &&& cache[i].schema == schema
    &&& forall|j: int| 0 <= j < i && shares[j] ==> (#[trigger] cache[j]).schema != schema
}

/// Whether the first verdict on this schema, among those that `shares` marks, is that nothing
/// changes.
pub open spec fn says_identity(
    cache: Seq<EntryView>,
    shares: Seq<bool>,
    schema: Seq<FieldView>,
) -> bool {
    exists|i: int| #[trigger] first_shared(cache, shares, schema, i) && cache[i].identity
}

/// The verdicts after one more. Beyond the limit the oldest goes.
pub open spec fn remembered(cache: Seq<EntryView>, entry: EntryView) -> Seq<EntryView> {
    if cache.len() >= IDENTITY_CACHE_MAX {
        cache.drop_first().push(entry)
    } else {
        cache.push(entry)
    }
}

/// Whether a verdict on this schema is among those that `shares` marks.
pub open spec fn has_shared(
    cache: Seq<EntryView>,
    shares: Seq<bool>,
    schema: Seq<FieldView>,
) -> bool {
    exists|i: int|
        0 <= i < shares.len() && shares[i] && (#[trigger] cache[i]).schema == schema
}

/// The verdicts after one more, unless there is one on its allocation and schema already: one that
/// `shares` marks. The first verdict stays, whatever the later one says.
pub open spec fn inserted(
    cache: Seq<EntryView>,
    shares: Seq<bool>,
    entry: EntryView,
) -> Seq<EntryView> {
    if has_shared(cache, shares, entry.schema) {
        cache
    } else {
        remembered(cache, entry)
    }
}

/// Whether `after` is what inserting a verdict makes of a cache, for some way in which the verdict
/// can share the allocation of its fields with those that are there.
pub open spec fn may_insert(
    before: Seq<EntryView>,
    after: Seq<EntryView>,
    entry: EntryView,
) -> bool {
    exists|shares: Seq<bool>| #[trigger]
        can_share(before, shares, entry.fields) && after == inserted(before, shares, entry)
}

/// The verdict on a struct array that becomes `q`.
pub open spec fn verdict(c: Column, fs: Seq<FieldView>, q: Column) -> EntryView {
    EntryView {
        fields: c->Struct_fields,
        schema: fs,
        identity: q->Struct_fields == c->Struct_fields,
    }
}

/// What applying a schema to an array leaves in the cache: a verdict, unless there is one already
/// or the array cannot be brought in line with the schema.
pub open spec fn records(
    before: Seq<EntryView>,
    after: Seq<EntryView>,
    c: Column,
    t: TypeView,
) -> bool {
    match (c, t) {
        (Column::Struct { .. }, TypeView::Struct(fs)) => match transform_struct(c, fs) {
            Ok(q) => may_insert(before, after, verdict(c, fs, q)),
            Err(_) => after == before,
        },
        _ => after == before,
    }
}

impl IdentityCache {
    /// What holds of every cache: it is within its limit, and its verdicts are true.
    pub open spec fn well_formed(&self) -> bool {
        &&& self@.len() <= IDENTITY_CACHE_MAX
        &&& forall|i: int|
            0 <= i < self@.len() && (#[trigger] self@[i]).identity ==> is_identity(
                self@[i].fields,
                self@[i].schema,
            )
    }

    /// A cache without verdicts.
    pub fn new() -> (r: IdentityCache)
        ensures
            r.well_formed(),
            r@ == Seq::<EntryView>::empty(),
    {
        let r = IdentityCache { entries: Vec::new() };
        assert(r@ =~= Seq::empty());
        r
    }

    /// The number of verdicts.
    pub fn len(&self) -> (r: usize)
        ensures
            r == self@.len(),
    {
        self.entries.len()
    }

    /// Which verdicts are on this allocation of fields.
    fn shares_with(&self, fields: &Fields) -> (r: Vec<bool>)
        ensures
            can_share(self@, r@, fields_of(*fields)),
    {
        let mut shares: Vec<bool> = Vec::new();
        let mut i: usize = 0;
        while i < self.entries.len()
            invariant
                i <= self.entries.len(),
                shares@.len() == i,
                forall|j: int|
                    0 <= j < i && shares@[j] ==> (#[trigger] self@[j]).fields == fields_of(*fields),
            decreases self.entries.len() - i,
        {
            let entry = &self.entries[i];
            assert(self@[i as int] == entry@);
            shares.push(same_allocation(&entry.input_fields, fields));
            i += 1;
        }
        shares
    }

    /// Whether the first verdict on this schema, among those that `shares` marks, is that nothing
    /// changes.
    pub fn hit_among(&self, shares: &Vec<bool>, schema: &Schema) -> (r: bool)
        requires
            shares@.len() == self@.len(),
        ensures
            r == says_identity(self@, shares@, schema@),
    {
        let mut i: usize = 0;
        while i < self.entries.len()
            invariant
                i <= self.entries.len(),
                shares@.len() == self@.len(),
                forall|j: int|
                    0 <= j < i && shares@[j] ==> (#[trigger] self@[j]).schema != schema@,
            decreases self.entries.len() - i,
        {
            let entry = &self.entries[i];
            assert(self@[i as int] == entry@);
            if shares[i] && entry.schema.same_as(schema) {
                proof {
                    assert(first_shared(self@, shares@, schema@, i as int));
                    assert forall|k: int| #[trigger]
                        first_shared(self@, shares@, schema@, k) implies k == i by {
                        if i < k {
                            assert(self@[i as int].schema != schema@);
                        } else if k < i {
                            assert(self@[k].schema != schema@);
                        }
                    }
                }
                return entry.identity;
            }
            i += 1;
        }
        proof {
            assert forall|k: int| !(#[trigger] first_shared(self@, shares@, schema@, k)) by {
                if 0 <= k < self@.len() && shares@[k] {
                    assert(self@[k].schema != schema@);
                }
            }
        }
        false
    }

    /// Whether the first verdict on this allocation of fields and this schema is that nothing
    /// changes.
    ///
    /// Which verdicts are on this allocation depends on where the fields lie in memory. Nothing is
    /// said of it but that a verdict on the same allocation is one on the same fields;
    /// [`IdentityCache::hit_among`] says what comes of it.
    pub fn hit(&self, fields: &Fields, schema: &Schema) -> (r: bool)
        ensures
            exists|shares: Seq<bool>| #[trigger]
                can_share(self@, shares, fields_of(*fields)) && r == says_identity(
                    self@,
                    shares,
                    schema@,
                ),
            r ==> knows_identity(self@, fields_of(*fields), schema@),
    {
        let shares = self.shares_with(fields);
        let r = self.hit_among(&shares, schema);
        proof {
            if r {
                let i = choose|i: int| #[trigger]
                    first_shared(self@, shares@, schema@, i) && self@[i].identity;
                assert(self@[i].fields == fields_of(*fields));
            }
        }
        r
    }

    /// Adds a verdict, unless there is one on this schema among those that `shares` marks.
    pub fn insert_among(&mut self, shares: &Vec<bool>, entry: IdentityEntry)
        requires
            old(self).well_formed(),
            entry.is_true(),
            shares@.len() == old(self)@.len(),
        ensures
            final(self).well_formed(),
            final(self)@ == inserted(old(self)@, shares@, entry@),
    {
        let mut i: usize = 0;
        while i < self.entries.len()
            invariant
                i <= self.entries.len(),
                *self == *old(self),
                old(self).well_formed(),
                shares@.len() == self@.len(),
                forall|j: int|
                    0 <= j < i && shares@[j] ==> (#[trigger] self@[j]).schema != entry@.schema,
            decreases self.entries.len() - i,
        {
            let known = &self.entries[i];
            assert(self@[i as int] == known@);
            if shares[i] && known.schema.same_as(&entry.schema) {
                return ;
            }
            i += 1;
        }
        assert(!has_shared(self@, shares@, entry@.schema));
        let ghost before = self@;
        if self.entries.len() >= IDENTITY_CACHE_MAX {
            self.entries.remove(0);
            assert(self@ =~= before.drop_first());
        }
        let ghost kept = self@;
        self.entries.push(entry);
        assert(self@ =~= kept.push(entry@));
        assert forall|i: int|
            0 <= i < self@.len() && (#[trigger] self@[i]).identity implies is_identity(
            self@[i].fields,
            self@[i].schema,
        ) by {
            if i < kept.len() {
                let j = if kept.len() < before.len() {
                    i + 1
                } else {
                    i
                };
                assert(self@[i] == before[j]);
                assert(before[j].identity);
            }
        }
    }

    /// Adds a verdict, unless there is one on this allocation of fields and this schema already.
    ///
    /// Which verdicts are on this allocation depends on where the fields lie in memory, as in
    /// [`IdentityCache::hit`]; [`IdentityCache::insert_among`] says what comes of it.
    pub fn insert(&mut self, entry: IdentityEntry)
        requires
            old(self).well_formed(),
            entry.is_true(),
        ensures
            final(self).well_formed(),
            may_insert(old(self)@, final(self)@, entry@),
    {
        let shares = self.shares_with(&entry.input_fields);
        self.insert_among(&shares, entry);
        assert(can_share(old(self)@, shares@, entry@.fields));
    }
}

/// Makes a record batch of the parts of a struct array.
fn batch_of(parts: StructParts) -> (r: Result<ArrowBatch, Error>)
    requires
        known_or_mistyped(fields_of(parts.fields), columns_of(parts.columns@)),
    ensures
        is_batch_result(
            r,
            struct_batch(
                Column::Struct {
                    fields: fields_of(parts.fields),
                    columns: columns_of(parts.columns@),
                    validity: seq![],
                },
            ),
        ),
{
    match ArrowBatch::from_columns(parts.fields, parts.columns) {
        Ok(b) => Ok(b),
        Err(e) => Err(Error::Arrow(e)),
    }
}

/// Takes a struct array over as it is, without rebuilding its columns, where `hit` says that the
/// schema leaves its fields as they are.
pub fn take_over(array: &ArrowArray, schema: &KernelDataType, hit: bool) -> (r: Option<
    Result<ArrowBatch, Error>,
>)
    requires
        hit ==> array@ is Struct && schema@ is Struct && is_identity(
            array@->Struct_fields,
            schema@->Struct_0,
        ),
    ensures
        r is Some <==> hit,
        r matches Some(out) ==> {
            &&& is_batch_result(out, struct_batch(array@))
            &&& sound_column(array@) ==> is_batch_result(out, applied(array@, schema@))
        },
{
    if !hit {
        return None;
    }
    let ghost c = array@;
    let ghost fs = schema@->Struct_0;
    let parts = match array.struct_parts() {
        Some(parts) => parts,
        None => {
            return None;
        },
    };
    proof {
        lemma_identity_known(c->Struct_fields, fs);
        if sound_column(c) {
            law_identity_batch(c, fs);
        }
    }
    Some(batch_of(parts))
}

/// Whether `known` says that the cache has the verdict that nothing changes, for some way in which
/// the array can share the allocation of its fields with the verdicts.
pub open spec fn may_know(cache: Seq<EntryView>, c: Column, t: TypeView, known: bool) -> bool {
    match (c, t) {
        (Column::Struct { fields, .. }, TypeView::Struct(fs)) => exists|shares: Seq<bool>|
            #[trigger] can_share(cache, shares, fields) && known == says_identity(
                cache,
                shares,
                fs,
            ),
        _ => !known,
    }
}

/// Applies a schema to a struct array where the cache says that it leaves the fields as they are: the
/// columns are taken over without being rebuilt.
///
/// The verdict is found by the allocation of the fields, as in [`IdentityCache::hit`];
/// [`take_over`] says what comes of it.
pub fn apply_known(array: &ArrowArray, schema: &KernelDataType, cache: &IdentityCache) -> (r: Option<
    Result<ArrowBatch, Error>,
>)
    requires
        cache.well_formed(),
    ensures
        may_know(cache@, array@, schema@, r is Some),
        r matches Some(out) ==> {
            &&& array@ is Struct
            &&& schema@ is Struct
            &&& knows_identity(cache@, array@->Struct_fields, schema@->Struct_0)
            &&& is_identity(array@->Struct_fields, schema@->Struct_0)
            &&& is_batch_result(out, struct_batch(array@))
            &&& sound_column(array@) ==> is_batch_result(out, applied(array@, schema@))
        },
{
    let struct_schema = match schema {
        KernelDataType::Struct(s) => s,
        _ => {
            return None;
        },
    };
    let ghost c = array@;
    let ghost fs = struct_schema@;
    let parts = match array.struct_parts() {
        Some(parts) => parts,
        None => {
            return None;
        },
    };
    let hit = cache.hit(&parts.fields, struct_schema);
    proof {
        if hit {
            let i = choose|i: int|
                0 <= i < cache@.len() && (#[trigger] cache@[i]).identity && cache@[i].fields
                    == c->Struct_fields && cache@[i].schema == fs;
            assert(is_identity(c->Struct_fields, fs));
        }
    }
    take_over(array, schema, hit)
}

/// Applies a schema to a struct array without a cache. Beside the record batch comes a verdict for
/// the cache, where the array could be brought in line with the schema.
pub fn apply_unknown(array: &ArrowArray, schema: &KernelDataType) -> (r: (
    Result<ArrowBatch, Error>,
    Option<IdentityEntry>,
))
    ensures
        is_batch_result(r.0, applied(array@, schema@)),
        r.0 matches Ok(b) ==> schema@ is Struct && is_identity(b@.fields, schema@->Struct_0),
        r.1 matches Some(entry) ==> entry.is_true(),
        match (array@, schema@) {
            (Column::Struct { .. }, TypeView::Struct(fs)) => match transform_struct(array@, fs) {
                Ok(q) => r.1 matches Some(entry) && entry@ == verdict(array@, fs, q),
                Err(_) => r.1 is None,
            },
            _ => r.1 is None,
        },
{
    let struct_schema = match schema {
        KernelDataType::Struct(s) => s,
        _ => {
            return (Err(Error::NotStructSchema), None);
        },
    };
    let ghost c = array@;
    let ghost fs = struct_schema@;
    let parts = match array.struct_parts() {
        Some(parts) => parts,
        None => {
            return (Err(Error::NotStructArray), None);
        },
    };
    let transformed = match apply_schema_to_struct(array, struct_schema) {
        Ok(transformed) => transformed,
        Err(e) => {
            return (Err(e), None);
        },
    };
    let out = match transformed.struct_parts() {
        Some(out) => out,
        None => {
            return (Err(Error::NotStructArray), None);
        },
    };
    proof {
        law_made_fields(c, fs);
        let count = fewer(c->Struct_columns.len(), fs.len());
        lemma_transform_fields(c, fs, count);
        assert(transform_struct(c, fs) == Ok::<Column, ErrorView>(transformed@));
    }
    let entry = IdentityEntry {
        identity: same_fields(&out.fields, &parts.fields),
        input_fields: parts.fields,
        schema: (**struct_schema).clone(),
    };
    (batch_of(out), Some(entry))
}

/// Whether a result is that of applying the schema `t` to `c` with these verdicts. For a sound array
/// they make no difference. Another one may be taken over as it is, where there is the verdict that
/// nothing changes.
pub open spec fn is_applied(
    cache: Seq<EntryView>,
    c: Column,
    t: TypeView,
    r: Result<ArrowBatch, Error>,
) -> bool {
    &&& sound_column(c) ==> is_batch_result(r, applied(c, t))
    &&& is_batch_result(r, applied(c, t)) || {
        &&& c is Struct
        &&& t is Struct
        &&& knows_identity(cache, c->Struct_fields, t->Struct_0)
        &&& is_batch_result(r, struct_batch(c))
    }
}

/// Applies a schema to a struct array. The result is a record batch whose fields have the names,
/// nullability and metadata that the schema says.
///
/// Null rows of the struct itself are dropped, since a record batch has none: the columns are
/// expected to be null there.
///
/// Where the cache says that the schema leaves the fields as they are, the columns are taken over
/// without being rebuilt. For a sound array that makes no difference.
pub fn apply_schema(array: &ArrowArray, schema: &KernelDataType, cache: &mut IdentityCache) -> (r:
    Result<ArrowBatch, Error>)
    requires
        old(cache).well_formed(),
    ensures
        final(cache).well_formed(),
        records(old(cache)@, final(cache)@, array@, schema@),
        is_applied(old(cache)@, array@, schema@, r),
        r matches Ok(b) ==> schema@ is Struct && is_identity(b@.fields, schema@->Struct_0),
{
    if let Some(out) = apply_known(array, schema, cache) {
        proof {
            let (c, fs) = (array@, schema@->Struct_0);
            let shares = choose|shares: Seq<bool>| #[trigger]
                can_share(cache@, shares, c->Struct_fields) && says_identity(cache@, shares, fs);
            let i = choose|i: int| #[trigger]
                first_shared(cache@, shares, fs, i) && cache@[i].identity;
            assert(cache@[i].schema == fs);
            assert(has_shared(cache@, shares, fs));
            if transform_struct(c, fs) is Ok {
                let entry = verdict(c, fs, transform_struct(c, fs)->Ok_0);
                assert(can_share(cache@, shares, entry.fields));
                assert(inserted(cache@, shares, entry) == cache@);
            }
        }
        return out;
    }
    let (out, entry) = apply_unknown(array, schema);
    if let Some(entry) = entry {
        cache.insert(entry);
    }
    out
}

} // verus!

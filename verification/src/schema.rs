//! Kernel schemas: the types, fields and metadata that Arrow data is brought in line with.
use vstd::prelude::*;

verus! {

/// The key under which a kernel field keeps its Parquet field id.
pub const PARQUET_FIELD_ID_KEY: &'static str = "parquet.field.id";

/// The key under which a kernel field keeps the field ids of the unnamed fields that its list and
/// map types contain: a JSON object from dotted paths to integers.
pub const NESTED_IDS_KEY: &'static str = "delta.columnMapping.nested.ids";

/// Precision and scale of a decimal.
#[derive(Clone, Copy, Debug, PartialEq, Eq, Structural)]
pub struct DecimalType {
    pub precision: u8,
    pub scale: u8,
}

/// A kernel type without parts.
#[derive(Clone, Copy, Debug, PartialEq, Eq, Structural)]
pub enum PrimitiveType {
    String,
    Long,
    Integer,
    Short,
    Byte,
    Float,
    Double,
    Boolean,
    Binary,
    Date,
    Timestamp,
    TimestampNtz,
    TimestampNanos,
    Decimal(DecimalType),
    Void,
}

/// A kernel data type.
#[derive(Debug)]
pub enum KernelDataType {
    Primitive(PrimitiveType),
    Array(Box<ArrayType>),
    Struct(Box<StructType>),
    MapOf(Box<MapType>),
    Variant(Box<StructType>),
}

/// A list type: what its elements are, and whether they may be null.
#[derive(Debug)]
pub struct ArrayType {
    pub element_type: KernelDataType,
    pub contains_null: bool,
}

/// A map type. Its keys are never null.
#[derive(Debug)]
pub struct MapType {
    pub key_type: KernelDataType,
    pub value_type: KernelDataType,
    pub value_contains_null: bool,
}

/// A value in a field's metadata. `Other` is a JSON text.
#[derive(Debug)]
pub enum MetadataValue {
    Number(i64),
    String(String),
    Boolean(bool),
    Other(String),
}

/// A named field of a struct.
#[derive(Debug)]
pub struct StructField {
    pub name: String,
    pub data_type: KernelDataType,
    pub nullable: bool,
    pub metadata: Vec<(String, MetadataValue)>,
}

/// A struct type: its fields, in order.
#[derive(Debug)]
pub struct StructType {
    pub fields: Vec<StructField>,
}

/// A schema is the struct type of a row.
pub type Schema = StructType;

/// What a [`MetadataValue`] stands for.
pub enum MetaView {
    Number(i64),
    Text(Seq<char>),
    Boolean(bool),
    Json(Seq<char>),
}

/// What a [`KernelDataType`] stands for.
pub enum TypeView {
    Primitive(PrimitiveType),
    Array(Box<TypeView>, bool),
    Struct(Seq<FieldView>),
    MapOf(Box<TypeView>, Box<TypeView>, bool),
    Variant(Seq<FieldView>),
}

/// What a [`StructField`] stands for.
pub struct FieldView {
    pub name: Seq<char>,
    pub data_type: TypeView,
    pub nullable: bool,
    pub metadata: Map<Seq<char>, MetaView>,
}

impl View for MetadataValue {
    type V = MetaView;

    open spec fn view(&self) -> MetaView {
        match self {
            MetadataValue::Number(n) => MetaView::Number(*n),
            MetadataValue::String(s) => MetaView::Text(s@),
            MetadataValue::Boolean(b) => MetaView::Boolean(*b),
            MetadataValue::Other(s) => MetaView::Json(s@),
        }
    }
}

/// The metadata that a list of entries makes: of two entries with one key the later counts.
pub open spec fn metadata_view(m: Seq<(String, MetadataValue)>) -> Map<Seq<char>, MetaView>
    decreases m.len(),
{
    if m.len() == 0 {
        Map::empty()
    } else {
        metadata_view(m.drop_last()).insert(m.last().0@, m.last().1@)
    }
}

pub open spec fn type_view(t: KernelDataType) -> TypeView
    decreases t,
{
    match t {
        KernelDataType::Primitive(p) => TypeView::Primitive(p),
        KernelDataType::Array(a) => TypeView::Array(
            Box::new(type_view(a.element_type)),
            a.contains_null,
        ),
        KernelDataType::Struct(s) => TypeView::Struct(fields_view(s.fields@)),
        KernelDataType::MapOf(m) => TypeView::MapOf(
            Box::new(type_view(m.key_type)),
            Box::new(type_view(m.value_type)),
            m.value_contains_null,
        ),
        KernelDataType::Variant(s) => TypeView::Variant(fields_view(s.fields@)),
    }
}

pub open spec fn field_view(f: StructField) -> FieldView
    decreases f,
{
    FieldView {
        name: f.name@,
        data_type: type_view(f.data_type),
        nullable: f.nullable,
        metadata: metadata_view(f.metadata@),
    }
}

pub open spec fn fields_view(fs: Seq<StructField>) -> Seq<FieldView>
    decreases fs,
{
    Seq::new(
        fs.len(),
        |i: int|
            if 0 <= i < fs.len() {
                field_view(fs[i])
            } else {
                arbitrary()
            },
    )
}

impl View for KernelDataType {
    type V = TypeView;

    open spec fn view(&self) -> TypeView {
        type_view(*self)
    }
}

impl View for StructField {
    type V = FieldView;

    open spec fn view(&self) -> FieldView {
        field_view(*self)
    }
}

impl View for StructType {
    type V = Seq<FieldView>;

    open spec fn view(&self) -> Seq<FieldView> {
        fields_view(self.fields@)
    }
}

pub proof fn lemma_fields_view(fs: Seq<StructField>)
    ensures
        fields_view(fs).len() == fs.len(),
        forall|i: int| 0 <= i < fs.len() ==> #[trigger] fields_view(fs)[i] == fs[i]@,
{
}

impl Clone for MetadataValue {
    fn clone(&self) -> (r: Self)
        ensures
            r@ == self@,
    {
        match self {
            MetadataValue::Number(n) => MetadataValue::Number(*n),
            MetadataValue::String(s) => MetadataValue::String(s.clone()),
            MetadataValue::Boolean(b) => MetadataValue::Boolean(*b),
            MetadataValue::Other(s) => MetadataValue::Other(s.clone()),
        }
    }
}

fn clone_metadata(m: &Vec<(String, MetadataValue)>) -> (r: Vec<(String, MetadataValue)>)
    ensures
        metadata_view(r@) == metadata_view(m@),
{
    let mut out: Vec<(String, MetadataValue)> = Vec::new();
    let mut i: usize = 0;
    assert(m@.take(0) =~= out@);
    while i < m.len()
        invariant
            i <= m.len(),
            metadata_view(out@) == metadata_view(m@.take(i as int)),
        decreases m.len() - i,
    {
        let ghost before = out@;
        out.push((m[i].0.clone(), m[i].1.clone()));
        assert(out@.drop_last() =~= before);
        assert(m@.take(i + 1).drop_last() =~= m@.take(i as int));
        i += 1;
    }
    assert(m@.take(i as int) =~= m@);
    out
}

/// The value that `m` holds under `key`.
fn find_metadata<'a>(m: &'a Vec<(String, MetadataValue)>, key: &str) -> (r: Option<
    &'a MetadataValue,
>)
    ensures
        match r {
            Some(v) => metadata_view(m@).contains_key(key@) && metadata_view(m@)[key@] == v@,
            None => !metadata_view(m@).contains_key(key@),
        },
{
    let wanted = key.to_owned();
    let mut i: usize = m.len();
    assert(m@.take(i as int) =~= m@);
    while i > 0
        invariant
            i <= m.len(),
            wanted@ == key@,
            metadata_view(m@).contains_key(key@) == metadata_view(m@.take(i as int)).contains_key(
                key@,
            ),
            metadata_view(m@.take(i as int)).contains_key(key@) ==> metadata_view(m@)[key@]
                == metadata_view(m@.take(i as int))[key@],
        decreases i,
    {
        assert(m@.take(i as int).drop_last() =~= m@.take(i - 1));
        i -= 1;
        if m[i].0 == wanted {
            return Some(&m[i].1);
        }
    }
    None
}

impl Clone for KernelDataType {
    fn clone(&self) -> (r: Self)
        ensures
            r@ == self@,
        decreases self,
    {
        match self {
            KernelDataType::Primitive(p) => KernelDataType::Primitive(*p),
            KernelDataType::Array(a) => KernelDataType::Array(Box::new(
                ArrayType { element_type: a.element_type.clone(), contains_null: a.contains_null },
            )),
            KernelDataType::Struct(s) => KernelDataType::Struct(Box::new(
                StructType { fields: clone_fields(&s.fields) },
            )),
            KernelDataType::MapOf(m) => KernelDataType::MapOf(Box::new(
                MapType {
                    key_type: m.key_type.clone(),
                    value_type: m.value_type.clone(),
                    value_contains_null: m.value_contains_null,
                },
            )),
            KernelDataType::Variant(s) => KernelDataType::Variant(Box::new(
                StructType { fields: clone_fields(&s.fields) },
            )),
        }
    }
}

pub(crate) fn clone_fields(fs: &Vec<StructField>) -> (r: Vec<StructField>)
    ensures
        fields_view(r@) == fields_view(fs@),
    decreases fs,
{
    let mut out: Vec<StructField> = Vec::new();
    let mut i: usize = 0;
    while i < fs.len()
        invariant
            i <= fs.len(),
            out.len() == i,
            forall|j: int| 0 <= j < i ==> (#[trigger] out@[j])@ == fs@[j]@,
        decreases fs.len() - i,
    {
        assert(decreases_to!(*fs => fs@[i as int]));
        out.push(fs[i].clone());
        i += 1;
    }
    assert(fields_view(out@) =~= fields_view(fs@)) by {
        lemma_fields_view(out@);
        lemma_fields_view(fs@);
    }
    out
}

impl Clone for StructField {
    fn clone(&self) -> (r: Self)
        ensures
            r@ == self@,
        decreases self,
    {
        StructField {
            name: self.name.clone(),
            data_type: self.data_type.clone(),
            nullable: self.nullable,
            metadata: clone_metadata(&self.metadata),
        }
    }
}

impl Clone for StructType {
    fn clone(&self) -> (r: Self)
        ensures
            r@ == self@,
    {
        StructType { fields: clone_fields(&self.fields) }
    }
}

impl Clone for ArrayType {
    fn clone(&self) -> (r: Self)
        ensures
            r.element_type@ == self.element_type@,
            r.contains_null == self.contains_null,
    {
        ArrayType { element_type: self.element_type.clone(), contains_null: self.contains_null }
    }
}

impl Clone for MapType {
    fn clone(&self) -> (r: Self)
        ensures
            r.key_type@ == self.key_type@,
            r.value_type@ == self.value_type@,
            r.value_contains_null == self.value_contains_null,
    {
        MapType {
            key_type: self.key_type.clone(),
            value_type: self.value_type.clone(),
            value_contains_null: self.value_contains_null,
        }
    }
}

impl MetadataValue {
    fn same_as(&self, other: &MetadataValue) -> (r: bool)
        ensures
            r == (self@ == other@),
    {
        match (self, other) {
            (MetadataValue::Number(a), MetadataValue::Number(b)) => *a == *b,
            (MetadataValue::String(a), MetadataValue::String(b)) => *a == *b,
            (MetadataValue::Boolean(a), MetadataValue::Boolean(b)) => *a == *b,
            (MetadataValue::Other(a), MetadataValue::Other(b)) => *a == *b,
            _ => false,
        }
    }
}

/// Whether `b` holds all that `a` holds.
fn holds_metadata(a: &Vec<(String, MetadataValue)>, b: &Vec<(String, MetadataValue)>) -> (r: bool)
    ensures
        r == (forall|k: Seq<char>| #[trigger]
            metadata_view(a@).contains_key(k) ==> metadata_view(b@).contains_key(k)
                && metadata_view(b@)[k] == metadata_view(a@)[k]),
{
    let ghost am = metadata_view(a@);
    let ghost bm = metadata_view(b@);
    let mut i: usize = 0;
    while i < a.len()
        invariant
            i <= a.len(),
            am == metadata_view(a@),
            bm == metadata_view(b@),
            forall|k: Seq<char>| #[trigger]
                metadata_view(a@.take(i as int)).contains_key(k) ==> am.contains_key(k)
                    && bm.contains_key(k) && bm[k] == am[k],
        decreases a.len() - i,
    {
        proof {
            lemma_metadata_entry(a@, i as int);
        }
        let key = a[i].0.as_str();
        let ours = find_metadata(a, key);
        let theirs = find_metadata(b, key);
        match (ours, theirs) {
            (Some(x), Some(y)) => {
                if !x.same_as(y) {
                    return false;
                }
            },
            _ => {
                return false;
            },
        }
        assert(a@.take(i + 1).drop_last() =~= a@.take(i as int));
        assert forall|k: Seq<char>| #[trigger]
            metadata_view(a@.take(i + 1)).contains_key(k) implies am.contains_key(k)
            && bm.contains_key(k) && bm[k] == am[k] by {
            if k != a@[i as int].0@ {
                assert(metadata_view(a@.take(i as int)).contains_key(k));
            }
        }
        i += 1;
    }
    assert(a@.take(i as int) =~= a@);
    true
}

/// Every key of the list is a key of the metadata that it makes.
proof fn lemma_metadata_entry(m: Seq<(String, MetadataValue)>, i: int)
    requires
        0 <= i < m.len(),
    ensures
        metadata_view(m).contains_key(m[i].0@),
    decreases m.len(),
{
    if i < m.len() - 1 {
        lemma_metadata_entry(m.drop_last(), i);
    }
}

fn same_metadata(a: &Vec<(String, MetadataValue)>, b: &Vec<(String, MetadataValue)>) -> (r: bool)
    ensures
        r == (metadata_view(a@) == metadata_view(b@)),
{
    let r = holds_metadata(a, b) && holds_metadata(b, a);
    proof {
        if r {
            assert(metadata_view(a@) =~= metadata_view(b@));
        }
    }
    r
}

impl KernelDataType {
    /// Whether two types are the same, metadata included.
    pub fn same_as(&self, other: &KernelDataType) -> (r: bool)
        ensures
            r == (self@ == other@),
        decreases self,
    {
        match (self, other) {
            (KernelDataType::Primitive(p), KernelDataType::Primitive(q)) => *p == *q,
            (KernelDataType::Array(p), KernelDataType::Array(q)) => p.contains_null == q.contains_null
                && p.element_type.same_as(&q.element_type),
            (KernelDataType::Struct(p), KernelDataType::Struct(q)) => same_fields(&p.fields, &q.fields),
            (KernelDataType::MapOf(p), KernelDataType::MapOf(q)) => p.value_contains_null
                == q.value_contains_null && p.key_type.same_as(&q.key_type)
                && p.value_type.same_as(&q.value_type),
            (KernelDataType::Variant(p), KernelDataType::Variant(q)) => same_fields(&p.fields, &q.fields),
            _ => false,
        }
    }
}

fn same_fields(a: &Vec<StructField>, b: &Vec<StructField>) -> (r: bool)
    ensures
        r == (fields_view(a@) == fields_view(b@)),
    decreases a,
{
    proof {
        lemma_fields_view(a@);
        lemma_fields_view(b@);
    }
    if a.len() != b.len() {
        assert(fields_view(a@).len() != fields_view(b@).len());
        return false;
    }
    let mut i: usize = 0;
    while i < a.len()
        invariant
            i <= a.len(),
            a.len() == b.len(),
            forall|j: int| 0 <= j < i ==> (#[trigger] a@[j])@ == b@[j]@,
        decreases a.len() - i,
    {
        assert(decreases_to!(*a => a@[i as int]));
        if !a[i].same_as(&b[i]) {
            proof {
                lemma_fields_view(a@);
                lemma_fields_view(b@);
            }
            assert(fields_view(a@)[i as int] != fields_view(b@)[i as int]);
            return false;
        }
        i += 1;
    }
    assert(fields_view(a@) =~= fields_view(b@));
    true
}

impl StructField {
    fn same_as(&self, other: &StructField) -> (r: bool)
        ensures
            r == (self@ == other@),
        decreases self,
    {
        self.name == other.name && self.nullable == other.nullable && self.data_type.same_as(
            &other.data_type,
        ) && same_metadata(&self.metadata, &other.metadata)
    }

    /// A field without metadata.
    pub fn new(name: &str, data_type: KernelDataType, nullable: bool) -> (r: StructField)
        ensures
            r@ == (FieldView {
                name: name@,
                data_type: data_type@,
                nullable,
                metadata: Map::empty(),
            }),
    {
        let r = StructField {
            name: name.to_owned(),
            data_type,
            nullable,
            metadata: Vec::new(),
        };
        r
    }

    /// A field that may be null.
    pub fn nullable(name: &str, data_type: KernelDataType) -> (r: StructField)
        ensures
            r@ == (FieldView {
                name: name@,
                data_type: data_type@,
                nullable: true,
                metadata: Map::empty(),
            }),
    {
        StructField::new(name, data_type, true)
    }

    /// A field that is never null.
    pub fn not_null(name: &str, data_type: KernelDataType) -> (r: StructField)
        ensures
            r@ == (FieldView {
                name: name@,
                data_type: data_type@,
                nullable: false,
                metadata: Map::empty(),
            }),
    {
        StructField::new(name, data_type, false)
    }

    /// The same field with the given metadata in place of its own.
    pub fn with_metadata(self, metadata: Vec<(String, MetadataValue)>) -> (r: StructField)
        ensures
            r@ == (FieldView { metadata: metadata_view(metadata@), ..self@ }),
    {
        StructField {
            name: self.name,
            data_type: self.data_type,
            nullable: self.nullable,
            metadata,
        }
    }
}

impl StructType {
    /// Whether two schemas hold the same fields in the same order.
    pub fn same_as(&self, other: &StructType) -> (r: bool)
        ensures
            r == (self@ == other@),
    {
        same_fields(&self.fields, &other.fields)
    }
}

impl StructField {
    /// The metadata value under `key`.
    pub fn metadata_value(&self, key: &str) -> (r: Option<&MetadataValue>)
        ensures
            match r {
                Some(v) => self@.metadata.contains_key(key@) && self@.metadata[key@] == v@,
                None => !self@.metadata.contains_key(key@),
            },
    {
        find_metadata(&self.metadata, key)
    }
}

} // verus!

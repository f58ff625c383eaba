//! Field metadata on its way from kernel fields to Arrow fields, and field ids in it.
use crate::arrow_types::metadata_of;
use crate::error::{Error, ErrorView};
use crate::schema::{
    metadata_view, FieldView, MetaView, MetadataValue, StructField, NESTED_IDS_KEY,
    PARQUET_FIELD_ID_KEY,
};
use crate::text::{i64_text, same_text, signed_decimal};
use vstd::prelude::*;

verus! {

/// The key under which an Arrow field keeps its Parquet field id.
pub const PARQUET_FIELD_ID_META_KEY: &'static str = "PARQUET:field_id";

/// A metadata value as Arrow keeps it: a string as it is, all else as JSON.
pub open spec fn metadata_text(v: MetaView) -> Seq<char> {
    match v {
        MetaView::Number(n) => signed_decimal(n as int),
        MetaView::Text(s) => s,
        MetaView::Boolean(b) => if b {
            "true"@
        } else {
            "false"@
        },
        MetaView::Json(s) => s,
    }
}

/// The metadata of a kernel field that Arrow keeps under the same key: all but the field ids.
pub open spec fn plain_metadata(m: Map<Seq<char>, MetaView>) -> Map<Seq<char>, Seq<char>> {
    Map::new(
        |k: Seq<char>| m.contains_key(k) && k != PARQUET_FIELD_ID_KEY@ && k != NESTED_IDS_KEY@,
        |k: Seq<char>| metadata_text(m[k]),
    )
}

/// The Arrow metadata of a kernel field. The field id moves to the key that Parquet readers and
/// writers know, and the nested field ids, which belong to other Arrow fields, are left out.
pub open spec fn arrow_metadata(m: Map<Seq<char>, MetaView>) -> Map<Seq<char>, Seq<char>> {
    if m.contains_key(PARQUET_FIELD_ID_KEY@) {
        plain_metadata(m).insert(
            PARQUET_FIELD_ID_META_KEY@,
            metadata_text(m[PARQUET_FIELD_ID_KEY@]),
        )
    } else {
        plain_metadata(m)
    }
}

/// The Arrow metadata of a field that has nothing but a field id, or nothing.
pub open spec fn id_metadata(id: Option<i64>) -> Map<Seq<char>, Seq<char>> {
    match id {
        Some(n) => Map::empty().insert(PARQUET_FIELD_ID_META_KEY@, signed_decimal(n as int)),
        None => Map::empty(),
    }
}

fn value_text(v: &MetadataValue) -> (r: String)
    ensures
        r@ == metadata_text(v@),
{
    match v {
        MetadataValue::Number(n) => i64_text(*n),
        MetadataValue::String(s) => s.clone(),
        MetadataValue::Boolean(b) => if *b {
            "true".to_owned()
        } else {
            "false".to_owned()
        },
        MetadataValue::Other(s) => s.clone(),
    }
}

/// The Arrow metadata of a kernel field, as pairs of key and value.
pub fn kernel_metadata_to_arrow(field: &StructField) -> (r: Vec<(String, String)>)
    ensures
        metadata_of(r@) == arrow_metadata(field@.metadata),
{
    let ghost all = field.metadata@;
    let mut out: Vec<(String, String)> = Vec::new();
    let mut i: usize = 0;
    assert(metadata_of(out@) =~= plain_metadata(metadata_view(all.take(0))));
    while i < field.metadata.len()
        invariant
            i <= field.metadata.len(),
            all == field.metadata@,
            metadata_of(out@) == plain_metadata(metadata_view(all.take(i as int))),
        decreases field.metadata.len() - i,
    {
        let ghost before = out@;
        let key = field.metadata[i].0.as_str();
        assert(all.take(i + 1).drop_last() =~= all.take(i as int));
        if !same_text(key, PARQUET_FIELD_ID_KEY) && !same_text(key, NESTED_IDS_KEY) {
            out.push((field.metadata[i].0.clone(), value_text(&field.metadata[i].1)));
            assert(out@.drop_last() =~= before);
        }
        assert(metadata_of(out@) =~= plain_metadata(metadata_view(all.take(i + 1))));
        i += 1;
    }
    assert(all.take(i as int) =~= all);
    match field.metadata_value(PARQUET_FIELD_ID_KEY) {
        Some(id) => {
            let ghost before = out@;
            out.push((PARQUET_FIELD_ID_META_KEY.to_owned(), value_text(id)));
            assert(out@.drop_last() =~= before);
        },
        None => {},
    }
    out
}

/// The metadata that holds a field id, as pairs of key and value.
pub fn parquet_field_id_metadata(id: Option<i64>) -> (r: Vec<(String, String)>)
    ensures
        metadata_of(r@) == id_metadata(id),
{
    let mut out: Vec<(String, String)> = Vec::new();
    assert(metadata_of(out@) =~= Map::<Seq<char>, Seq<char>>::empty());
    if let Some(n) = id {
        let ghost before = out@;
        out.push((PARQUET_FIELD_ID_META_KEY.to_owned(), i64_text(n)));
        assert(out@.drop_last() =~= before);
    }
    out
}

/// The entries of the JSON object that `text` holds, each value reduced to the 64-bit integer that
/// it is, if it is one; nothing where `text` holds no JSON object.
pub uninterp spec fn json_object(text: Seq<char>) -> Option<Seq<(Seq<char>, Option<i64>)>>;

pub open spec fn entries_view(entries: Seq<(String, Option<i64>)>) -> Seq<
    (Seq<char>, Option<i64>),
> {
    Seq::new(entries.len(), |i: int| (entries[i].0@, entries[i].1))
}

pub open spec fn object_view(object: Option<Vec<(String, Option<i64>)>>) -> Option<
    Seq<(Seq<char>, Option<i64>)>,
> {
    match object {
        Some(entries) => Some(entries_view(entries@)),
        None => None,
    }
}

/// `serde_json::from_str` for an object, and `Value::as_i64` on each of its values.
///
/// Trusted: what comes back is a function of the text alone.
#[verifier::external_body]
fn parse_object(text: &str) -> (r: Option<Vec<(String, Option<i64>)>>)
    ensures
        object_view(r) == json_object(text@),
{
    let object: serde_json::Map<String, serde_json::Value> = serde_json::from_str(text).ok()?;
    Some(object.into_iter().map(|(key, value)| (key, value.as_i64())).collect())
}

/// The first value under `path`.
pub open spec fn entry_at(entries: Seq<(Seq<char>, Option<i64>)>, path: Seq<char>) -> Option<
    Option<i64>,
>
    decreases entries.len(),
{
    if entries.len() == 0 {
        None
    } else if entries[0].0 == path {
        Some(entries[0].1)
    } else {
        entry_at(entries.drop_first(), path)
    }
}

/// The field id that `object`, the nested field ids of the field `name`, holds at `path`.
pub open spec fn id_at(
    name: Seq<char>,
    object: Option<Seq<(Seq<char>, Option<i64>)>>,
    path: Seq<char>,
) -> Result<Option<i64>, ErrorView> {
    match object {
        None => Err(ErrorView::NestedIdsNotObject(name)),
        Some(entries) => match entry_at(entries, path) {
            None => Ok(None),
            Some(None) => Err(ErrorView::NestedIdNotInteger { field: name, path }),
            Some(Some(id)) => Ok(Some(id)),
        },
    }
}

/// The nested field id of `field` at `path`. A field without nested field ids has none anywhere.
pub open spec fn nested_id(field: FieldView, path: Seq<char>) -> Result<Option<i64>, ErrorView> {
    if !field.metadata.contains_key(NESTED_IDS_KEY@) {
        Ok(None)
    } else {
        match field.metadata[NESTED_IDS_KEY@] {
            MetaView::Json(text) => id_at(field.name, json_object(text), path),
            _ => id_at(field.name, None, path),
        }
    }
}

/// Whether a result is the one that `expected` says.
pub open spec fn is_result<A>(r: Result<A, Error>, expected: Result<A, ErrorView>) -> bool {
    match r {
        Ok(v) => expected == Ok::<A, ErrorView>(v),
        Err(e) => expected == Err::<A, ErrorView>(e@),
    }
}

/// Looks up a path among the nested field ids of the field `name`. `object` is `None` where they
/// are not a JSON object, and otherwise its entries.
pub fn nested_field_id_in(
    name: &str,
    object: &Option<Vec<(String, Option<i64>)>>,
    path: &str,
) -> (r: Result<Option<i64>, Error>)
    ensures
        is_result(r, id_at(name@, object_view(*object), path@)),
{
    let entries = match object {
        Some(entries) => entries,
        None => {
            return Err(Error::NestedIdsNotObject(name.to_owned()));
        },
    };
    let wanted = path.to_owned();
    let ghost all = entries_view(entries@);
    let mut i: usize = 0;
    assert(all.skip(0) =~= all);
    while i < entries.len()
        invariant
            i <= entries.len(),
            wanted@ == path@,
            all == entries_view(entries@),
            object_view(*object) == Some(all),
            entry_at(all, path@) == entry_at(all.skip(i as int), path@),
        decreases entries.len() - i,
    {
        assert(all.skip(i as int)[0] == all[i as int]);
        if entries[i].0 == wanted {
            return match entries[i].1 {
                Some(id) => Ok(Some(id)),
                None => Err(
                    Error::NestedIdNotInteger { field: name.to_owned(), path: path.to_owned() },
                ),
            };
        }
        assert(all.skip(i as int).drop_first() =~= all.skip(i + 1));
        i += 1;
    }
    Ok(None)
}

/// Looks up the field id of an unnamed field that `field` contains at `path`.
pub fn lookup_nested_field_id(field: &StructField, path: &str) -> (r: Result<Option<i64>, Error>)
    ensures
        is_result(r, nested_id(field@, path@)),
{
    match field.metadata_value(NESTED_IDS_KEY) {
        None => Ok(None),
        Some(MetadataValue::Other(text)) => nested_field_id_in(
            field.name.as_str(),
            &parse_object(text.as_str()),
            path,
        ),
        Some(_) => nested_field_id_in(field.name.as_str(), &None, path),
    }
}

} // verus!

//! What is promised of field metadata.
use crate::apply_laws::law_field_id_key;
use crate::conversion::ancestor_id;
use crate::error::ErrorView;
use crate::metadata::{
    arrow_metadata, entry_at, id_at, id_metadata, json_object, metadata_text, nested_id,
};
use crate::schema::{metadata_view, FieldView, MetaView, MetadataValue};
use crate::text::signed_decimal;
use vstd::prelude::*;

verus! {

/// Text and JSON in metadata go to Arrow as they are, truth values by their name, and numbers in
/// decimal.
pub proof fn law_metadata_text(v: MetaView)
    ensures
        match v {
            MetaView::Text(s) => metadata_text(v) == s,
            MetaView::Json(s) => metadata_text(v) == s,
            MetaView::Boolean(true) => metadata_text(v) == "true"@,
            MetaView::Boolean(false) => metadata_text(v) == "false"@,
            MetaView::Number(n) => metadata_text(v) == signed_decimal(n as int),
        },
{
}

/// Every key of a kernel field's metadata but the two for field ids is kept by Arrow with its value
/// in words, and nothing is added but the field id.
pub proof fn law_metadata_kept(m: Map<Seq<char>, MetaView>, key: Seq<char>)
    requires
        key != "parquet.field.id"@,
        key != "delta.columnMapping.nested.ids"@,
        key != "PARQUET:field_id"@,
    ensures
        arrow_metadata(m).contains_key(key) <==> m.contains_key(key),
        m.contains_key(key) ==> arrow_metadata(m)[key] == metadata_text(m[key]),
{
}

/// The field id of a kernel field is under the key of Parquet in Arrow's metadata, and under no
/// other. A field without one keeps what it has there.
pub proof fn law_metadata_ids(m: Map<Seq<char>, MetaView>)
    ensures
        ({
            let a = arrow_metadata(m);
            &&& !a.contains_key("parquet.field.id"@)
            &&& !a.contains_key("delta.columnMapping.nested.ids"@)
            &&& if m.contains_key("parquet.field.id"@) {
                a.contains_key("PARQUET:field_id"@) && a["PARQUET:field_id"@] == metadata_text(
                    m["parquet.field.id"@],
                )
            } else {
                &&& a.contains_key("PARQUET:field_id"@) <==> m.contains_key("PARQUET:field_id"@)
                &&& m.contains_key("PARQUET:field_id"@) ==> a["PARQUET:field_id"@]
                    == metadata_text(m["PARQUET:field_id"@])
            }
        }),
{
    law_field_id_key(m);
    reveal_strlit("parquet.field.id");
    reveal_strlit("PARQUET:field_id");
    reveal_strlit("delta.columnMapping.nested.ids");
    assert("PARQUET:field_id"@[0] != "parquet.field.id"@[0]);
    assert("PARQUET:field_id"@[0] != "delta.columnMapping.nested.ids"@[0]);
}

/// The metadata of a field that has nothing but a field id holds that id in decimal, under the key of
/// Parquet, and nothing else.
pub proof fn law_id_metadata(id: Option<i64>)
    ensures
        match id {
            Some(n) => forall|key: Seq<char>|
                #![trigger id_metadata(id).contains_key(key)]
                (id_metadata(id).contains_key(key) <==> key == "PARQUET:field_id"@) && (
                id_metadata(id).contains_key(key) ==> id_metadata(id)[key] == signed_decimal(
                    n as int,
                )),
            None => forall|key: Seq<char>| !#[trigger] id_metadata(id).contains_key(key),
        },
{
}

/// Whether entry `i` is the first under this path.
pub open spec fn first_entry(
    entries: Seq<(Seq<char>, Option<i64>)>,
    path: Seq<char>,
    i: int,
) -> bool {
    &&& 0 <= i < entries.len()
    &&& entries[i].0 == path
    &&& forall|j: int| 0 <= j < i ==> (#[trigger] entries[j]).0 != path
}

/// A path is looked up by its own entry, the first under it.
pub proof fn law_entry_at(entries: Seq<(Seq<char>, Option<i64>)>, path: Seq<char>)
    ensures
        match entry_at(entries, path) {
            Some(v) => exists|i: int| #[trigger] first_entry(entries, path, i) && entries[i].1 == v,
            None => forall|i: int| 0 <= i < entries.len() ==> (#[trigger] entries[i]).0 != path,
        },
    decreases entries.len(),
{
    if entries.len() > 0 {
        let rest = entries.drop_first();
        if entries[0].0 == path {
            assert(first_entry(entries, path, 0));
        } else {
            law_entry_at(rest, path);
            match entry_at(rest, path) {
                Some(v) => {
                    let i = choose|i: int| #[trigger]
                        first_entry(rest, path, i) && rest[i].1 == v;
                    assert(entries[i + 1] == rest[i]);
                    assert forall|j: int| 0 <= j < i + 1 implies (#[trigger] entries[j]).0 != path by {
                        if j > 0 {
                            assert(entries[j] == rest[j - 1]);
                        }
                    }
                    assert(first_entry(entries, path, i + 1));
                },
                None => {
                    assert forall|i: int| 0 <= i < entries.len() implies (#[trigger] entries[i]).0
                        != path by {
                        if i > 0 {
                            assert(entries[i] == rest[i - 1]);
                        }
                    }
                },
            }
        }
    }
}

/// The nested field id at a path is the integer of the entry under that path. There is none where no
/// entry is under it. What is no integer, and what is no JSON object, is reported by the field's
/// name.
pub proof fn law_nested_id_at(
    name: Seq<char>,
    entries: Seq<(Seq<char>, Option<i64>)>,
    path: Seq<char>,
)
    ensures
        match id_at(name, Some(entries), path) {
            Ok(Some(id)) => exists|i: int| #[trigger]
                first_entry(entries, path, i) && entries[i].1 == Some(id),
            Ok(None) => forall|i: int|
                0 <= i < entries.len() ==> (#[trigger] entries[i]).0 != path,
            Err(e) => {
                &&& e == (ErrorView::NestedIdNotInteger { field: name, path })
                &&& exists|i: int| #[trigger]
                    first_entry(entries, path, i) && entries[i].1 is None
            },
        },
        id_at(name, None, path) == Err::<Option<i64>, ErrorView>(
            ErrorView::NestedIdsNotObject(name),
        ),
{
    law_entry_at(entries, path);
}

/// A field without nested field ids has none anywhere, and one whose nested field ids are no JSON
/// reports that.
pub proof fn law_no_nested_ids(field: FieldView, path: Seq<char>)
    ensures
        !field.metadata.contains_key("delta.columnMapping.nested.ids"@) ==> nested_id(field, path)
            == Ok::<Option<i64>, ErrorView>(None),
        field.metadata.contains_key("delta.columnMapping.nested.ids"@)
            && !(field.metadata["delta.columnMapping.nested.ids"@] is Json) ==> nested_id(
            field,
            path,
        ) == Err::<Option<i64>, ErrorView>(ErrorView::NestedIdsNotObject(field.name)),
{
}

/// The nested field ids of a field are looked up in the JSON object that its metadata holds, and those
/// of the unnamed fields in a type in the nearest struct field around it. Without one there are none.
pub proof fn law_nested_ids(field: FieldView, path: Seq<char>)
    ensures
        field.metadata.contains_key("delta.columnMapping.nested.ids"@) ==> (
        field.metadata["delta.columnMapping.nested.ids"@] matches MetaView::Json(text)
            ==> nested_id(field, path) == id_at(field.name, json_object(text), path)),
        ancestor_id(Some(field), path) == nested_id(field, path),
        ancestor_id(None, path) == Ok::<Option<i64>, ErrorView>(None),
{
}

/// Whether entry `i` is the last under this key.
pub open spec fn last_entry(m: Seq<(String, MetadataValue)>, key: Seq<char>, i: int) -> bool {
    &&& 0 <= i < m.len()
    &&& m[i].0@ == key
    &&& forall|j: int| i < j < m.len() ==> (#[trigger] m[j]).0@ != key
}

/// Metadata holds under a key the value of the last entry with that key, and nothing under a key
/// without an entry.
pub proof fn law_metadata_view(m: Seq<(String, MetadataValue)>, key: Seq<char>)
    ensures
        if metadata_view(m).contains_key(key) {
            exists|i: int| #[trigger] last_entry(m, key, i) && metadata_view(m)[key] == m[i].1@
        } else {
            forall|i: int| 0 <= i < m.len() ==> (#[trigger] m[i]).0@ != key
        },
    decreases m.len(),
{
    if m.len() > 0 {
        let front = m.drop_last();
        if m.last().0@ == key {
            assert(last_entry(m, key, m.len() - 1));
        } else {
            law_metadata_view(front, key);
            if metadata_view(m).contains_key(key) {
                let i = choose|i: int| #[trigger]
                    last_entry(front, key, i) && metadata_view(front)[key] == front[i].1@;
                assert forall|j: int| i < j < m.len() implies (#[trigger] m[j]).0@ != key by {
                    if j < front.len() {
                        assert(front[j] == m[j]);
                    }
                }
                assert(last_entry(m, key, i));
            } else {
                assert forall|i: int| 0 <= i < m.len() implies (#[trigger] m[i]).0@ != key by {
                    if i < front.len() {
                        assert(front[i] == m[i]);
                    }
                }
            }
        }
    }
}

} // verus!

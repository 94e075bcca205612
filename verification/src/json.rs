use vstd::prelude::*;

use crate::services::deployment::ComponentRequest;
use std::collections::HashMap;

verus! {

/// The views of the keys of a path into a JSON document.
pub open spec fn path_view(path: Seq<String>) -> Seq<Seq<char>> {
    path.map_values(|key: String| key@)
}

/// Whether `doc` is a JSON document that `serde_json::from_slice` reads.
pub uninterp spec fn json_parses(doc: Seq<u8>) -> bool;

/// The JSON text (`Value::to_string`) of what indexing the document `doc`
/// by the keys of `path` in turn gives (`Value::Null` where a key is
/// missing); `None` where `doc` does not parse.
pub uninterp spec fn json_text_at(doc: Seq<u8>, path: Seq<Seq<char>>) -> Option<Seq<char>>;

/// The contents of the JSON string that indexing the document `doc` by the
/// keys of `path` gives; `None` where `doc` does not parse or that value is
/// not a string.
pub uninterp spec fn json_str_at(doc: Seq<u8>, path: Seq<Seq<char>>) -> Option<Seq<char>>;

/// The keys of the object that indexing the document `doc` by the keys of
/// `path` gives, where that object's values are all objects (so that it
/// reads as a `HashMap<String, HashMap<String, Value>>`); `None` where `doc`
/// does not parse or the value is not such an object.
pub uninterp spec fn json_object_of_objects_keys_at(doc: Seq<u8>, path: Seq<Seq<char>>) -> Option<
    Set<Seq<char>>,
>;

/// `serde_json::from_slice` into a `Value`, indexed (`Index<&str>`) by each
/// key of `path` in turn and written back as JSON text (`to_string`).
#[verifier::external_body]
pub(crate) fn json_text_at_exec(doc: &[u8], path: &Vec<String>) -> (r: Option<String>)
    ensures
        r is Some <==> json_parses(doc@),
        r matches Some(t) ==> json_text_at(doc@, path_view(path@)) == Some(t@),
        r is None ==> json_text_at(doc@, path_view(path@)) is None,
{
    let v: serde_json::Value = serde_json::from_slice(doc).ok()?;
    Some(path.iter().fold(&v, |cur, key| &cur[key.as_str()]).to_string())
}

/// `serde_json::from_slice` into a `Value`, indexed by each key of `path` in
/// turn, read with `Value::as_str`.
#[verifier::external_body]
pub(crate) fn json_str_at_exec(doc: &[u8], path: &Vec<String>) -> (r: Option<String>)
    ensures
        r is Some ==> json_parses(doc@),
        r matches Some(t) ==> json_str_at(doc@, path_view(path@)) == Some(t@),
        r is None ==> json_str_at(doc@, path_view(path@)) is None,
{
    let v: serde_json::Value = serde_json::from_slice(doc).ok()?;
    path.iter().fold(&v, |cur, key| &cur[key.as_str()]).as_str().map(|s| s.to_string())
}

/// The names of a list of components.
pub open spec fn component_names(cs: Seq<ComponentRequest>) -> Seq<Seq<char>> {
    cs.map_values(|c: ComponentRequest| c.name@)
}

/// Whether the version that `c` carries is the JSON text of the `version`
/// entry of the object under `c`'s name in the object at `path` of `doc`;
/// where `c` carries none, that entry is missing and indexes to `null`.
pub open spec fn version_entry_read(doc: Seq<u8>, path: Seq<Seq<char>>, c: ComponentRequest) -> bool {
    json_text_at(doc, path.push(c.name@).push("version"@)) == match c.version {
        Some(v) => Some(v@),
        None => Some("null"@),
    }
}

/// `serde_json::from_slice` into a `Value`, indexed by each key of `path` in
/// turn, read with `serde_json::from_value` as a
/// `HashMap<String, HashMap<String, Value>>` and walked in the map's order:
/// for each entry its key, and the JSON text of its `version` entry if it
/// has one. The order of the walk is that of a hash map, so no more is
/// stated of it than that each key of the object comes once.
#[verifier::external_body]
pub(crate) fn json_components_at_exec(doc: &[u8], path: &Vec<String>) -> (r: Option<
    Vec<ComponentRequest>,
>)
    ensures
        r is Some <==> json_object_of_objects_keys_at(doc@, path_view(path@)) is Some,
        r is Some ==> json_parses(doc@),
        r matches Some(cs) ==> component_names(cs@).no_duplicates(),
        r matches Some(cs) ==> component_names(cs@).to_set() == json_object_of_objects_keys_at(
            doc@,
            path_view(path@),
        )->0,
        r matches Some(cs) ==> forall|i: int|
            0 <= i < cs@.len() ==> version_entry_read(doc@, path_view(path@), #[trigger] cs@[i]),
{
    let v: serde_json::Value = serde_json::from_slice(doc).ok()?;
    let at = path.iter().fold(&v, |cur, key| &cur[key.as_str()]).clone();
    let map: HashMap<String, HashMap<String, serde_json::Value>> = serde_json::from_value(at).ok()?;
    Some(map.into_iter().map(|(name, entry)| ComponentRequest { name, version: entry.get("version").map(|v| v.to_string()) }).collect())
}

} // verus!

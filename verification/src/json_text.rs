//! JSON text, read and written by `serde_json`.

use vstd::prelude::*;

use crate::string_map::StringMap;

verus! {

/// The key by which `serde_json` marks an object that stands for raw JSON text. An object that
/// begins with it is not read as an object into a value of any kind.
pub const RAW_VALUE_KEY: &'static str = "$serde_json::private::RawValue";

/// The map that a text denotes as a JSON object whose values are all strings, where it denotes
/// one, as `serde_json::from_str` reads it.
pub uninterp spec fn string_object(text: Seq<char>) -> Option<Map<Seq<char>, Seq<char>>>;

/// The JSON object that `serde_json::to_string` writes for a map with its keys in order.
pub uninterp spec fn string_object_text(map: Map<Seq<char>, Seq<char>>) -> Seq<char>;

/// Whether a text is JSON, as `serde_json::from_str` reads it into a value of any kind.
pub uninterp spec fn is_json(text: Seq<char>) -> bool;

/// The list that a text denotes as a JSON array of strings, where it denotes one, as
/// `serde_json::from_str` reads it.
pub uninterp spec fn string_array(text: Seq<char>) -> Option<Seq<Seq<char>>>;

/// How `{:?}` shows a map with its keys in order.
pub uninterp spec fn debug_text(map: Map<Seq<char>, Seq<char>>) -> Seq<char>;

/// Reads a JSON object of strings with `serde_json::from_str`.
///
/// Trusted: what is read depends on the text alone, and no key is read twice.
#[verifier::external_body]
fn read_entries(text: &str) -> (entries: Option<Vec<(String, String)>>)
    ensures
        match entries {
            Some(list) => string_object(text@) == Some(
                crate::string_map::entries_map(list@),
            ) && crate::string_map::distinct_keys(list@),
            None => string_object(text@) is None,
        },
{
    let read = serde_json::from_str::<std::collections::BTreeMap<String, String>>(text);
    read.ok().map(|map| map.into_iter().collect())
}

/// Writes a JSON object of strings with `serde_json::to_string`, its keys in order.
///
/// Trusted: what is written depends on the map alone; it opens with a brace, and reading it gives
/// the map back. It is read into a value of any kind, too, unless the map has the key that marks
/// raw JSON text. Writing text into memory does not fail.
#[verifier::external_body]
fn write_entries(entries: &Vec<(String, String)>) -> (text: String)
    requires
        crate::string_map::distinct_keys(entries@),
    ensures
        text@ == string_object_text(crate::string_map::entries_map(entries@)),
        string_object(text@) == Some(crate::string_map::entries_map(entries@)),
        !crate::string_map::entries_map(entries@).contains_key(RAW_VALUE_KEY@) ==> is_json(text@),
        text@.len() > 0 && text@[0] == '{',
{
    let map: std::collections::BTreeMap<&String, &String> =
        entries.iter().map(|(key, value)| (key, value)).collect();
    serde_json::to_string(&map).unwrap_or_default()
}

/// Asks `serde_json::from_str` whether a text is JSON.
///
/// Trusted: the answer depends on the text alone.
#[verifier::external_body]
pub(crate) fn check_json(text: &str) -> (valid: bool)
    ensures
        valid == is_json(text@),
{
    serde_json::from_str::<serde_json::Value>(text).is_ok()
}

/// Reads a JSON array of strings with `serde_json::from_str`.
///
/// Trusted: what is read depends on the text alone.
#[verifier::external_body]
pub(crate) fn parse_string_array(text: &str) -> (items: Option<Vec<String>>)
    ensures
        items.deep_view() == string_array(text@),
{
    serde_json::from_str::<Vec<String>>(text).ok()
}

/// Shows entries with `{:?}`, as a map with its keys in order.
///
/// Trusted: what is shown depends on the map alone.
#[verifier::external_body]
fn debug_entries(entries: &Vec<(String, String)>) -> (text: String)
    requires
        crate::string_map::distinct_keys(entries@),
    ensures
        text@ == debug_text(crate::string_map::entries_map(entries@)),
{
    let map: std::collections::BTreeMap<&String, &String> =
        entries.iter().map(|(key, value)| (key, value)).collect();
    format!("{:?}", map)
}

/// Reads a JSON object whose values are all strings.
pub fn parse_string_object(text: &str) -> (map: Option<StringMap<String>>)
    ensures
        map.deep_view() == string_object(text@),
{
    match read_entries(text) {
        Some(entries) => Some(StringMap::from_entries(entries)),
        None => None,
    }
}

/// Writes a JSON object whose values are all strings; reading it gives the map back.
pub fn write_string_object(map: &StringMap<String>) -> (text: String)
    ensures
        text@ == string_object_text(map.deep_view()),
        string_object(text@) == Some(map.deep_view()),
        !map.deep_view().contains_key(RAW_VALUE_KEY@) ==> is_json(text@),
        text@.len() > 0 && text@[0] == '{',
{
    write_entries(map.as_entries())
}

/// Shows a map as `{:?}` does.
pub fn debug_string_map(map: &StringMap<String>) -> (text: String)
    ensures
        text@ == debug_text(map.deep_view()),
{
    debug_entries(map.as_entries())
}

} // verus!

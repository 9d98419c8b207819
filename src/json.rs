//! The JSON texts that the library reads and writes, through serde_json.
use vstd::prelude::*;
use crate::cache::{distinct_keys, entry_views, map_of};

verus! {

#[verifier::external_type_specification]
#[verifier::external_body]
pub struct ExJsonError(serde_json::Error);

/// The JSON object text that serde_json writes for the verdicts `m`.
pub uninterp spec fn verdicts_json(m: Map<Seq<char>, bool>) -> Seq<char>;

/// The verdicts that the JSON object text `text` holds, if it is one that
/// maps strings to booleans.
pub uninterp spec fn verdicts_from_json(text: Seq<char>) -> Option<Map<Seq<char>, bool>>;

/// What `text` holds under `field`, if `text` is a JSON object with that
/// field: the integer there, where it is one that fits in an `i64`.
pub uninterp spec fn json_integer_field(text: Seq<char>, field: Seq<char>) -> Option<Option<i64>>;

/// Relies on serde_json::to_string on a `BTreeMap<&String, bool>`: one JSON
/// object of the pairs, keys in order. It cannot fail, as the keys are
/// strings and the values booleans, and serde_json reads the text back as
/// the same pairs.
#[verifier::external_body]
pub(crate) fn encode_verdicts(entries: &Vec<(String, bool)>) -> (r: Result<String, serde_json::Error>)
    requires
        distinct_keys(entry_views(entries@)),
    ensures
        r is Ok,
        r matches Ok(s) ==> s@ == verdicts_json(map_of(entry_views(entries@))),
        r matches Ok(s) ==> verdicts_from_json(s@) == Some(map_of(entry_views(entries@))),
        r matches Ok(s) ==> s@.len() > 0,
{
    let m: std::collections::BTreeMap<&String, bool> = entries.iter().map(|e| (&e.0, e.1)).collect();
    serde_json::to_string(&m)
}

/// Relies on serde_json::from_str into a `BTreeMap<String, bool>`, whose keys
/// are distinct.
#[verifier::external_body]
pub(crate) fn decode_verdicts(text: &str) -> (r: Result<Vec<(String, bool)>, serde_json::Error>)
    ensures
        r is Ok <==> verdicts_from_json(text@) is Some,
        r matches Ok(v) ==> distinct_keys(entry_views(v@)) && verdicts_from_json(text@) == Some(
            map_of(entry_views(v@)),
        ),
{
    let m: std::collections::BTreeMap<String, bool> = serde_json::from_str(text)?;
    Ok(m.into_iter().collect())
}

/// Relies on serde_json::from_str into a `serde_json::Value`, then
/// `Value::get` and `Value::as_i64`.
#[verifier::external_body]
pub(crate) fn integer_field(text: &str, field: &str) -> (r: Option<Option<i64>>)
    ensures
        r == json_integer_field(text@, field@),
{
    let v: serde_json::Value = serde_json::from_str(text).ok()?;
    Some(v.get(field)?.as_i64())
}

} // verus!

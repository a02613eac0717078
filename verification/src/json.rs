//! JSON texts: reading a field, and writing an object of strings.
use crate::models::{opt_text, pair_views};
use vstd::prelude::*;

verus! {

/// What `serde_json::from_str` and `serde_json::Value::get` give for a JSON
/// text and a key: the string under that key where the text is a JSON object
/// that holds one, else `None`.
pub uninterp spec fn json_field(json: Seq<char>, key: Seq<char>) -> Option<Seq<char>>;

/// The text that `serde_json` writes for the object that holds the given
/// values, all strings, under the given names.
pub uninterp spec fn json_object(pairs: Seq<(Seq<char>, Seq<char>)>) -> Seq<char>;

/// Reads a JSON text with `serde_json::from_str` and takes the string under
/// `key` with `Value::get` and `Value::as_str`. The contract names the result
/// and claims that it depends on the two texts alone.
#[verifier::external_body]
pub(crate) fn json_text_field(json: &str, key: &str) -> (r: Option<String>)
    ensures
        opt_text(r) == json_field(json@, key@),
{
    match serde_json::from_str::<serde_json::Value>(json) {
        Ok(v) => v.get(key).and_then(|x| x.as_str()).map(|s| s.to_string()),
        Err(_) => None,
    }
}

/// Writes the JSON object that holds the given values, as strings, under the
/// given names: they are put into a `serde_json::Map` with `Map::insert`, in
/// order, and the object is written by the `Display` of `serde_json::Value`.
/// The contract names the result and claims that it depends on the names and
/// values alone.
#[verifier::external_body]
fn json_object_text(pairs: &Vec<(String, String)>) -> (r: String)
    ensures
        r@ == json_object(pair_views(pairs@)),
{
    let mut m = serde_json::Map::new();
    for (k, v) in pairs.iter() {
        m.insert(k.clone(), serde_json::Value::String(v.clone()));
    }
    serde_json::Value::Object(m).to_string()
}

/// The JSON text that goes with a rename in the event queue: the object with
/// the old key under `from` and the new key under `to`.
pub open spec fn rename_json(from: Seq<char>, to: Seq<char>) -> Seq<char> {
    json_object(seq![("from"@, from), ("to"@, to)])
}

/// Writes the JSON text that goes with a rename from `from` to `to`.
pub fn rename_extra(from: &str, to: &str) -> (r: String)
    ensures
        r@ == rename_json(from@, to@),
{
    let mut pairs: Vec<(String, String)> = Vec::new();
    pairs.push((String::from_str("from"), String::from_str(from)));
    pairs.push((String::from_str("to"), String::from_str(to)));
    assert(pair_views(pairs@) =~= seq![("from"@, from@), ("to"@, to@)]);
    json_object_text(&pairs)
}

} // verus!

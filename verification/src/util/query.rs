//! Query strings.
use crate::json;
use crate::json::{from_value, Json, JsonView};
use vstd::prelude::*;

verus! {

/// What `serde_qs` reads from a query string: an object of what the query
/// names, its flat values as strings; nothing where it cannot be read.
pub uninterp spec fn query_tree(query: Seq<char>) -> Option<JsonView>;

/// `serde_qs::from_str`, read into an object of `serde_json` values. The
/// contract names what comes out.
#[verifier::external_body]
fn read_query(query: &str) -> (r: Option<serde_json::Value>)
    ensures
        match r {
            Some(v) => query_tree(query@) == Some(json::value_tree(v)),
            None => query_tree(query@) is None,
        },
{
    serde_qs::from_str::<serde_json::Map<String, serde_json::Value>>(query)
        .ok()
        .map(serde_json::Value::Object)
}

/// What a query string names.
pub fn parse_query(query: &str) -> (r: Option<Json>)
    ensures
        match r {
            Some(j) => query_tree(query@) == Some(j@),
            None => query_tree(query@) is None,
        },
{
    match read_query(query) {
        Some(v) => Some(from_value(v)),
        None => None,
    }
}

} // verus!

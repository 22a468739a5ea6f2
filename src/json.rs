use vstd::prelude::*;

verus! {

/// The members of the JSON object that `b` holds, each as its key and the JSON
/// text of its value, as serde_json reads them; `None` where serde_json finds
/// no such object in `b`.
pub uninterp spec fn json_members(b: Seq<u8>) -> Option<Seq<(Seq<char>, Seq<char>)>>;

/// The unsigned integer that the JSON text `s` denotes, as serde_json reads it;
/// `None` where `s` is no JSON number that fits in a `u64`.
pub uninterp spec fn json_u64(s: Seq<char>) -> Option<u64>;

/// The string that the JSON text `s` denotes, its escapes resolved, as
/// serde_json reads it; `None` where `s` is no JSON string.
pub uninterp spec fn json_string(s: Seq<char>) -> Option<Seq<char>>;

/// Relies on `serde_json::from_slice` into a `BTreeMap<String, Box<RawValue>>`:
/// it reads `b` as one JSON object and keeps each member's key and the JSON
/// text of its value (`RawValue::get`). Its result depends on `b` alone.
#[verifier::external_body]
pub(crate) fn parse_members(b: &[u8]) -> (r: Result<Vec<(String, String)>, serde_json::Error>)
    ensures
        r is Err <==> json_members(b@) is None,
        r matches Ok(ms) ==> json_members(b@) == Some(ms.deep_view()),
{
    serde_json::from_slice::<std::collections::BTreeMap<String, Box<serde_json::value::RawValue>>>(b)
        .map(|m| m.into_iter().map(|(k, v)| (k, v.get().to_string())).collect())
}

/// Relies on `serde_json::from_str::<u64>`: it reads the JSON text `s` as an
/// unsigned integer. Its result depends on `s` alone.
#[verifier::external_body]
pub(crate) fn parse_u64(s: &str) -> (r: Result<u64, serde_json::Error>)
    ensures
        r is Err <==> json_u64(s@) is None,
        r matches Ok(n) ==> json_u64(s@) == Some(n),
{
    serde_json::from_str::<u64>(s)
}

/// Relies on `serde_json::from_str::<String>`: it reads the JSON text `s` as a
/// string. Its result depends on `s` alone.
#[verifier::external_body]
pub(crate) fn parse_string(s: &str) -> (r: Result<String, serde_json::Error>)
    ensures
        r is Err <==> json_string(s@) is None,
        r matches Ok(t) ==> json_string(s@) == Some(t@),
{
    serde_json::from_str::<String>(s)
}

} // verus!

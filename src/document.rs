use vstd::prelude::*;

use crate::error::{DecodeError, Fault};
use crate::json::{json_members, json_string, json_u64, parse_members, parse_string, parse_u64};
use crate::types::{Edge, EdgeModel, Vertex, VertexModel};

verus! {

/// The members of a JSON object: each key with the JSON text of its value.
pub type Members = Seq<(Seq<char>, Seq<char>)>;

/// The value text of the first member of `ms`, from index `i` on, whose key is
/// `key`.
pub open spec fn member_from(ms: Members, key: Seq<char>, i: int) -> Option<Seq<char>>
    decreases ms.len() - i,
{
    if i < 0 || i >= ms.len() {
        None
    } else if ms[i].0 == key {
        Some(ms[i].1)
    } else {
        member_from(ms, key, i + 1)
    }
}

/// The value text of the first member of `ms` whose key is `key`.
pub open spec fn member(ms: Members, key: Seq<char>) -> Option<Seq<char>> {
    member_from(ms, key, 0)
}

/// The member `key` of `ms`, read as an unsigned integer.
pub open spec fn u64_member(ms: Members, key: Seq<char>) -> Result<u64, Fault> {
    match member(ms, key) {
        None => Err(Fault::MissingField(key)),
        Some(t) => match json_u64(t) {
            None => Err(Fault::Json),
            Some(n) => Ok(n),
        },
    }
}

/// The member `key` of `ms`, read as a string.
pub open spec fn string_member(ms: Members, key: Seq<char>) -> Result<Seq<char>, Fault> {
    match member(ms, key) {
        None => Err(Fault::MissingField(key)),
        Some(t) => match json_string(t) {
            None => Err(Fault::Json),
            Some(s) => Ok(s),
        },
    }
}

/// The member `key` of `ms`, kept as JSON text.
pub open spec fn raw_member(ms: Members, key: Seq<char>) -> Result<Seq<char>, Fault> {
    match member(ms, key) {
        None => Err(Fault::MissingField(key)),
        Some(t) => Ok(t),
    }
}

/// The vertex that the JSON document `doc` describes: an object with the
/// members `id`, `label` and `properties`, the last kept as JSON text.
pub open spec fn vertex_document(doc: Seq<u8>) -> Result<VertexModel<Seq<char>>, Fault> {
    match json_members(doc) {
        None => Err(Fault::Json),
        Some(ms) => match u64_member(ms, "id"@) {
            Err(f) => Err(f),
            Ok(id) => match string_member(ms, "label"@) {
                Err(f) => Err(f),
                Ok(label) => match raw_member(ms, "properties"@) {
                    Err(f) => Err(f),
                    Ok(properties) => Ok(VertexModel { id, label, properties }),
                },
            },
        },
    }
}

/// The edge that the JSON document `doc` describes: an object with the
/// members `id`, `label`, `properties`, `start_id` and `end_id`, the
/// properties kept as JSON text.
pub open spec fn edge_document(doc: Seq<u8>) -> Result<EdgeModel<Seq<char>>, Fault> {
    match json_members(doc) {
        None => Err(Fault::Json),
        Some(ms) => match u64_member(ms, "id"@) {
            Err(f) => Err(f),
            Ok(id) => match string_member(ms, "label"@) {
                Err(f) => Err(f),
                Ok(label) => match raw_member(ms, "properties"@) {
                    Err(f) => Err(f),
                    Ok(properties) => match u64_member(ms, "start_id"@) {
                        Err(f) => Err(f),
                        Ok(start_id) => match u64_member(ms, "end_id"@) {
                            Err(f) => Err(f),
                            Ok(end_id) => Ok(
                                EdgeModel { id, label, properties, start_id, end_id },
                            ),
                        },
                    },
                },
            },
        },
    }
}

/// The index in `ms` of the first member whose key is `key`.
fn find_member(ms: &Vec<(String, String)>, key: &str) -> (r: Option<usize>)
    ensures
        r is None <==> member(ms.deep_view(), key@) is None,
        r matches Some(i) ==> i < ms@.len() && member(ms.deep_view(), key@) == Some(
            ms@[i as int].1@,
        ),
{
    let k = String::from_str(key);
    let ghost dv = ms.deep_view();
    let mut i: usize = 0;
    while i < ms.len()
        invariant
            i <= ms@.len(),
            dv == ms.deep_view(),
            k@ == key@,
            member(dv, key@) == member_from(dv, key@, i as int),
        decreases ms@.len() - i,
    {
        assert(dv[i as int] == (ms@[i as int].0@, ms@[i as int].1@));
        if ms[i].0 == k {
            return Some(i);
        }
        i = i + 1;
    }
    None
}

/// Takes the member `key` of `ms` as JSON text.
fn take_raw(ms: &Vec<(String, String)>, key: &str) -> (r: Result<String, DecodeError>)
    ensures
        r matches Ok(t) ==> raw_member(ms.deep_view(), key@) == Ok::<Seq<char>, Fault>(t@),
        r matches Err(e) ==> raw_member(ms.deep_view(), key@) == Err::<Seq<char>, Fault>(e.fault()),
{
    match find_member(ms, key) {
        None => Err(DecodeError::MissingField(String::from_str(key))),
        Some(i) => Ok(ms[i].1.clone()),
    }
}

/// Reads the member `key` of `ms` as an unsigned integer.
fn take_u64(ms: &Vec<(String, String)>, key: &str) -> (r: Result<u64, DecodeError>)
    ensures
        r matches Ok(n) ==> u64_member(ms.deep_view(), key@) == Ok::<u64, Fault>(n),
        r matches Err(e) ==> u64_member(ms.deep_view(), key@) == Err::<u64, Fault>(e.fault()),
{
    match find_member(ms, key) {
        None => Err(DecodeError::MissingField(String::from_str(key))),
        Some(i) => match parse_u64(ms[i].1.as_str()) {
            Ok(n) => Ok(n),
            Err(e) => Err(DecodeError::Json(e)),
        },
    }
}

/// Reads the member `key` of `ms` as a string.
fn take_string(ms: &Vec<(String, String)>, key: &str) -> (r: Result<String, DecodeError>)
    ensures
        r matches Ok(s) ==> string_member(ms.deep_view(), key@) == Ok::<Seq<char>, Fault>(s@),
        r matches Err(e) ==> string_member(ms.deep_view(), key@) == Err::<Seq<char>, Fault>(
            e.fault(),
        ),
{
    match find_member(ms, key) {
        None => Err(DecodeError::MissingField(String::from_str(key))),
        Some(i) => match parse_string(ms[i].1.as_str()) {
            Ok(s) => Ok(s),
            Err(e) => Err(DecodeError::Json(e)),
        },
    }
}

/// Decodes the JSON document of a vertex, its properties kept as JSON text.
pub fn decode_vertex_document(doc: &[u8]) -> (r: Result<Vertex<String>, DecodeError>)
    ensures
        r matches Ok(v) ==> vertex_document(doc@) == Ok::<VertexModel<Seq<char>>, Fault>(v@),
        r matches Err(e) ==> vertex_document(doc@) == Err::<VertexModel<Seq<char>>, Fault>(
            e.fault(),
        ),
{
    let ms = match parse_members(doc) {
        Ok(ms) => ms,
        Err(e) => return Err(DecodeError::Json(e)),
    };
    let id = match take_u64(&ms, "id") {
        Ok(n) => n,
        Err(e) => return Err(e),
    };
    let label = match take_string(&ms, "label") {
        Ok(s) => s,
        Err(e) => return Err(e),
    };
    let properties = match take_raw(&ms, "properties") {
        Ok(t) => t,
        Err(e) => return Err(e),
    };
    Ok(Vertex::new(id, label, properties))
}

/// Decodes the JSON document of an edge, its properties kept as JSON text.
pub fn decode_edge_document(doc: &[u8]) -> (r: Result<Edge<String>, DecodeError>)
    ensures
        r matches Ok(v) ==> edge_document(doc@) == Ok::<EdgeModel<Seq<char>>, Fault>(v@),
        r matches Err(e) ==> edge_document(doc@) == Err::<EdgeModel<Seq<char>>, Fault>(
            e.fault(),
        ),
{
    let ms = match parse_members(doc) {
        Ok(ms) => ms,
        Err(e) => return Err(DecodeError::Json(e)),
    };
    let id = match take_u64(&ms, "id") {
        Ok(n) => n,
        Err(e) => return Err(e),
    };
    let label = match take_string(&ms, "label") {
        Ok(s) => s,
        Err(e) => return Err(e),
    };
    let properties = match take_raw(&ms, "properties") {
        Ok(t) => t,
        Err(e) => return Err(e),
    };
    let start_id = match take_u64(&ms, "start_id") {
        Ok(n) => n,
        Err(e) => return Err(e),
    };
    let end_id = match take_u64(&ms, "end_id") {
        Ok(n) => n,
        Err(e) => return Err(e),
    };
    Ok(Edge::new(id, label, properties, start_id, end_id))
}

} // verus!

//! Tags of the workspace: how the sync server's answers about the workspace's
//! root document read.
use vstd::prelude::*;
use crate::json::{Json, JsonV, get_field, str_of};
use crate::sync::{SyncError, ack_error, data_or_self};

verus! {

/// The value that an acknowledgement read for the tag operations stands for:
/// a one-element array stands for its element, any other array for itself.
pub open spec fn unwrapped_ack(v: JsonV) -> JsonV {
    match v {
        JsonV::Array(xs) => if xs.len() == 1 {
            data_or_self(xs[0])
        } else {
            v
        },
        _ => data_or_self(v),
    }
}

/// The tag operations read an acknowledgement as the plain reading does
/// (its `data`, or all of it when it has none), after taking a lone element
/// out of a one-element array; an acknowledgement with `data` stands for that
/// data, alone or as the only element of an array.
pub proof fn law_tag_ack_reading(v: JsonV, d: JsonV)
    ensures
        !(v is Array) ==> unwrapped_ack(v) == data_or_self(v),
        unwrapped_ack(JsonV::Array(seq![v])) == data_or_self(v),
        get_field(v, "data"@) == Some(d) ==> unwrapped_ack(v) == d,
        get_field(v, "data"@) == Some(d) ==> unwrapped_ack(JsonV::Array(seq![v])) == d,
{
    assert(seq![v][0] == v);
    match v {
        JsonV::Array(_) => {
            assert(get_field(v, "data"@) is None);
        },
        _ => {},
    }
}

/// Reads an acknowledgement of `event` as the tag operations do: its error
/// when it reports one; else a one-element array stands for its element, and
/// the `data` of what remains (or all of it) is the answer; an array of any
/// other length is the answer as is.
pub fn read_ack_unwrapping(event: &str, value: Json) -> (r: Result<Json, SyncError>)
    ensures
        match ack_error(value@) {
            Some(e) => r matches Err(SyncError::AckFailed { event: ev, error }) && ev@ == event@
                && error@ == e,
            None => r matches Ok(d) && d@ == unwrapped_ack(value@),
        },
{
    let failed = match value.get("error") {
        Some(e) => !e.is_null(),
        None => false,
    };
    if failed {
        let error = match value.take_field("error") {
            Some(e) => e,
            None => Json::Null,
        };
        return Err(SyncError::AckFailed { event: event.to_owned(), error });
    }
    match value {
        Json::Array(items) => {
            proof {
                crate::json::lemma_views_of(items@);
            }
            if items.len() == 1 {
                let mut items = items;
                let first = items.remove(0);
                Ok(first.into_field_or_self("data"))
            } else {
                Ok(Json::Array(items))
            }
        },
        other => Ok(other.into_field_or_self("data")),
    }
}

/// The document (base64) in an answer to `space:load-doc`, and whether it came
/// from the `missing` field.
#[derive(Debug, PartialEq)]
pub struct DocBinary {
    pub b64: String,
    pub from_missing: bool,
}

/// A non-empty string field of a value.
pub open spec fn nonempty_str_field(v: JsonV, k: Seq<char>) -> Option<Seq<char>> {
    match get_field(v, k) {
        Some(x) => match str_of(x) {
            Some(s) => if s.len() > 0 {
                Some(s)
            } else {
                None
            },
            None => None,
        },
        None => None,
    }
}

fn nonempty_str_of(v: &Json, k: &str) -> (r: Option<String>)
    ensures
        match r {
            Some(s) => nonempty_str_field(v@, k@) == Some(s@),
            None => nonempty_str_field(v@, k@) is None,
        },
{
    match v.get(k) {
        Some(x) => match x.as_str() {
            Some(s) => if s.as_str().is_empty() {
                None
            } else {
                Some(s.clone())
            },
            None => None,
        },
        None => None,
    }
}

/// The root document in an answer to `space:load-doc`: the non-empty `missing`
/// field, else the non-empty `state` field.
pub fn extract_doc_base64(response: Json) -> (r: Result<DocBinary, SyncError>)
    ensures
        match nonempty_str_field(response@, "missing"@) {
            Some(m) => r matches Ok(d) && d.b64@ == m && d.from_missing,
            None => match nonempty_str_field(response@, "state"@) {
                Some(s) => r matches Ok(d) && d.b64@ == s && !d.from_missing,
                None => r matches Err(SyncError::NoDocBinary { response: x }) && x@ == response@,
            },
        },
{
    if let Some(b64) = nonempty_str_of(&response, "missing") {
        return Ok(DocBinary { b64, from_missing: true });
    }
    if let Some(b64) = nonempty_str_of(&response, "state") {
        return Ok(DocBinary { b64, from_missing: false });
    }
    Err(SyncError::NoDocBinary { response })
}

} // verus!

//! The real-time sync endpoint (Socket.IO): where to connect, what the events
//! carry, and how their acknowledgements read.
use vstd::prelude::*;
use crate::json::{Json, JsonV, field_views, get_field, push_field, views_of};
use crate::text::chars_of;

verus! {

/// What `url` gives for a base URL: the ASCII serialization of its origin
/// (`Url::parse(..)?.origin().ascii_serialization()`), or the text of the
/// parse error.
pub uninterp spec fn url_origin(base_url: Seq<char>) -> Result<Seq<char>, Seq<char>>;

/// Parses a URL and serializes its origin (`url::Url::parse`, then
/// `Url::origin` and `Origin::ascii_serialization`), or gives the text of the
/// parse error. The result depends on the text alone; what it is, is the
/// WHATWG URL standard as `url` implements it, and is left unsaid here.
#[verifier::external_body]
fn parse_origin(base_url: &str) -> (r: Result<String, String>)
    ensures
        match r {
            Ok(o) => url_origin(base_url@) == Ok::<Seq<char>, Seq<char>>(o@),
            Err(e) => url_origin(base_url@) == Err::<Seq<char>, Seq<char>>(e@),
        },
{
    match url::Url::parse(base_url) {
        Ok(url) => Ok(url.origin().ascii_serialization()),
        Err(e) => Err(e.to_string()),
    }
}

/// Why a sync operation failed.
#[derive(Debug, PartialEq)]
pub enum SyncError {
    /// The base URL is not a URL.
    InvalidBaseUrl { base_url: String, reason: String },
    /// The server acknowledged an event with an error.
    AckFailed { event: String, error: Json },
    /// The server's answer to `space:load-doc` holds no document.
    NoDocBinary { response: Json },
}

/// The Socket.IO endpoint for a server: the origin of its base URL.
pub fn socket_io_url(base_url: &str) -> (r: Result<String, SyncError>)
    ensures
        match url_origin(base_url@) {
            Ok(o) => r matches Ok(u) && u@ == o,
            Err(e) => r matches Err(SyncError::InvalidBaseUrl { base_url: b, reason }) && b@
                == base_url@ && reason@ == e,
        },
{
    match parse_origin(base_url) {
        Ok(o) => Ok(o),
        Err(reason) => Err(SyncError::InvalidBaseUrl { base_url: base_url.to_owned(), reason }),
    }
}

/// The fields that name a workspace space.
pub open spec fn space_fields(workspace_id: Seq<char>) -> Seq<(Seq<char>, JsonV)> {
    seq![("spaceType"@, JsonV::Str("workspace"@)), ("spaceId"@, JsonV::Str(workspace_id))]
}

fn space_object(workspace_id: &str) -> (r: Vec<(String, Json)>)
    ensures
        field_views(r@) == space_fields(workspace_id@),
{
    let mut fields: Vec<(String, Json)> = Vec::new();
    proof {
        assert(field_views(fields@) =~= Seq::empty());
    }
    push_field(&mut fields, "spaceType", Json::string("workspace"));
    push_field(&mut fields, "spaceId", Json::string(workspace_id));
    proof {
        assert(field_views(fields@) =~= space_fields(workspace_id@));
    }
    fields
}

/// The payload of `space:join`: the space and the client version.
pub fn join_payload(workspace_id: &str, client_version: &str) -> (r: Json)
    ensures
        r@ == JsonV::Object(
            space_fields(workspace_id@).push(("clientVersion"@, JsonV::Str(client_version@))),
        ),
{
    let mut fields = space_object(workspace_id);
    push_field(&mut fields, "clientVersion", Json::string(client_version));
    Json::Object(fields)
}

/// The payload of `space:leave`: the space.
pub fn leave_payload(workspace_id: &str) -> (r: Json)
    ensures
        r@ == JsonV::Object(space_fields(workspace_id@)),
{
    Json::Object(space_object(workspace_id))
}

/// The payload of `space:delete-doc`: the space and the document.
pub fn delete_doc_payload(workspace_id: &str, doc_id: &str) -> (r: Json)
    ensures
        r@ == JsonV::Object(space_fields(workspace_id@).push(("docId"@, JsonV::Str(doc_id@)))),
{
    let mut fields = space_object(workspace_id);
    push_field(&mut fields, "docId", Json::string(doc_id));
    Json::Object(fields)
}

/// The payload of `space:load-doc` for the workspace's root document.
pub fn load_doc_payload(workspace_id: &str) -> (r: Json)
    ensures
        r@ == JsonV::Object(
            space_fields(workspace_id@).push(("docId"@, JsonV::Str(workspace_id@))),
        ),
{
    let mut fields = space_object(workspace_id);
    push_field(&mut fields, "docId", Json::string(workspace_id));
    Json::Object(fields)
}

/// The payload of `space:push-doc-update` for the workspace's root document.
pub fn push_doc_update_payload(workspace_id: &str, state_b64: &str) -> (r: Json)
    ensures
        r@ == JsonV::Object(
            space_fields(workspace_id@).push(("docId"@, JsonV::Str(workspace_id@))).push(
                ("update"@, JsonV::Str(state_b64@)),
            ),
        ),
{
    let mut fields = space_object(workspace_id);
    push_field(&mut fields, "docId", Json::string(workspace_id));
    push_field(&mut fields, "update", Json::string(state_b64));
    Json::Object(fields)
}

/// What an acknowledgement carries: the data of the acknowledgement, by shape.
pub enum AckPayload {
    /// JSON values.
    Text(Vec<Json>),
    /// Binary data of the given length.
    Binary(usize),
    /// A raw string, with the value it parses to as JSON if it does.
    Raw { text: String, parsed: Option<Json> },
}

/// The JSON value of an acknowledgement: a single value as is, several as an
/// array, binary data as `{"binary_len": n}`, a raw string as the JSON it
/// parses to, else as a string.
pub open spec fn payload_json(p: AckPayload) -> JsonV {
    match p {
        AckPayload::Text(values) => if values@.len() == 1 {
            values@[0]@
        } else {
            JsonV::Array(views_of(values@))
        },
        AckPayload::Binary(n) => JsonV::Object(
            seq![("binary_len"@, if n <= i64::MAX {
                JsonV::Int(n as int)
            } else {
                JsonV::UInt(n as nat)
            })],
        ),
        AckPayload::Raw { text, parsed } => match parsed {
            Some(v) => v@,
            None => JsonV::Str(text@),
        },
    }
}

/// Turns the payload of an acknowledgement into one JSON value.
pub fn payload_to_json(payload: AckPayload) -> (r: Json)
    ensures
        r@ == payload_json(payload),
{
    match payload {
        AckPayload::Text(values) => {
            if values.len() == 1 {
                let mut values = values;
                values.remove(0)
            } else {
                Json::Array(values)
            }
        },
        AckPayload::Binary(n) => {
            let wide = n as u64;
            let v = if wide <= 0x7fff_ffff_ffff_ffffu64 {
                Json::Int(n as i64)
            } else {
                Json::UInt(wide)
            };
            let mut fields: Vec<(String, Json)> = Vec::new();
            proof {
                assert(field_views(fields@) =~= Seq::empty());
            }
            let ghost vv = v@;
            push_field(&mut fields, "binary_len", v);
            proof {
                assert(field_views(fields@) =~= seq![("binary_len"@, vv)]);
            }
            Json::Object(fields)
        },
        AckPayload::Raw { text, parsed } => match parsed {
            Some(v) => v,
            None => Json::Str(text),
        },
    }
}

/// The error an acknowledgement reports: its `error` field when that is not `null`.
pub open spec fn ack_error(v: JsonV) -> Option<JsonV> {
    match get_field(v, "error"@) {
        Some(e) => if e is Null {
            None
        } else {
            Some(e)
        },
        None => None,
    }
}

/// The `data` field of an acknowledgement, or the acknowledgement itself.
pub open spec fn data_or_self(v: JsonV) -> JsonV {
    match get_field(v, "data"@) {
        Some(d) => d,
        None => v,
    }
}

/// Reads an acknowledgement of `event`: its error when it reports one, else
/// its `data` (or the whole acknowledgement when it has none).
pub fn read_ack(event: &str, value: Json) -> (r: Result<Json, SyncError>)
    ensures
        match ack_error(value@) {
            Some(e) => r matches Err(SyncError::AckFailed { event: ev, error }) && ev@ == event@
                && error@ == e,
            None => r matches Ok(d) && d@ == data_or_self(value@),
        },
{
    let failed = match value.get("error") {
        Some(e) => !e.is_null(),
        None => false,
    };
    if failed {
        let error = match value.take_field("error") {
            Some(e) => e,
            None => Json::Null,
        };
        return Err(SyncError::AckFailed { event: event.to_owned(), error });
    }
    Ok(value.into_field_or_self("data"))
}

/// Whether `pat` occurs in `s`.
pub open spec fn contains_text(s: Seq<char>, pat: Seq<char>) -> bool {
    exists|i: int| 0 <= i <= s.len() - pat.len() && #[trigger] s.subrange(i, i + pat.len()) == pat
}

/// Whether an error text says that an acknowledgement timed out. Deleting a
/// document counts such a time-out as success: the server often applies the
/// delete and broadcasts it without acknowledging.
pub fn is_timeout_message(message: &str) -> (b: bool)
    ensures
        b == contains_text(message@, "timed out"@),
{
    let s = chars_of(message);
    let pat = chars_of("timed out");
    if pat.len() > s.len() {
        proof {
            assert forall|i: int| 0 <= i <= s@.len() - pat@.len() implies #[trigger] s@.subrange(
                i,
                i + pat@.len(),
            ) != pat@ by {}
        }
        return false;
    }
    let mut i: usize = 0;
    let last = s.len() - pat.len();
    while i <= last
        invariant
            last == s@.len() - pat@.len(),
            pat@.len() <= s@.len(),
            s@ == message@,
            pat@ == "timed out"@,
            i <= last + 1,
            forall|k: int| 0 <= k < i ==> #[trigger] s@.subrange(k, k + pat@.len()) != pat@,
        decreases last + 1 - i,
    {
        let mut j: usize = 0;
        while j < pat.len() && s[i + j] == pat[j]
            invariant
                i + pat.len() <= s.len(),
                0 <= j <= pat@.len(),
                forall|m: int| 0 <= m < j ==> s@[i + m] == pat@[m],
            decreases pat.len() - j,
        {
            j += 1;
        }
        if j == pat.len() {
            proof {
                assert(s@.subrange(i as int, i + pat@.len()) =~= pat@);
            }
            return true;
        }
        proof {
            assert(s@.subrange(i as int, i + pat@.len())[j as int] != pat@[j as int]);
        }
        i += 1;
    }
    false
}

/// The outcome of the acknowledgement of `space:delete-doc`: what it read
/// as, or `null` when waiting for it timed out (the server often applies the
/// delete without acknowledging it); any other failure stays a failure.
pub fn delete_ack_outcome(ack: Result<Json, String>) -> (r: Result<Json, String>)
    ensures
        match ack {
            Ok(v) => r matches Ok(w) && w@ == v@,
            Err(m) => if contains_text(m@, "timed out"@) {
                r matches Ok(w) && w@ == JsonV::Null
            } else {
                r matches Err(n) && n@ == m@
            },
        },
{
    match ack {
        Ok(v) => Ok(v),
        Err(m) => {
            if is_timeout_message(m.as_str()) {
                Ok(Json::Null)
            } else {
                Err(m)
            }
        },
    }
}

} // verus!

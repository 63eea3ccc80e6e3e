//! What the HTTP client decides: the base URL, the headers it sends, the bodies
//! of its requests, and how it reads the server's answers.
use vstd::prelude::*;
use vstd::string::StringSliceAdditionalSpecFns;
use crate::cookies::{CookieJar, header_text, pairs_to_map, strictly_sorted};
use crate::json::{
    Json,
    JsonV,
    field_views,
    json_view,
    lemma_field_views,
    push_field,
    push_item,
    set_field,
    set_field_in,
    str_field,
    views_of,
};
use crate::text::{
    chars_of,
    decimal,
    ends_with_at,
    find_char,
    join,
    prefix_before,
    push_char,
    push_decimal,
    push_str,
    string_from_chars,
    strip_suffix,
    trim,
    trim_bounds,
    trim_end_char,
    trim_end_char_bound,
};

verus! {

/// How requests authenticate.
#[derive(Debug, PartialEq)]
pub enum AuthState {
    NoAuth,
    Bearer(String),
    Cookies(CookieJar),
}

/// Whether two credentials are the same: both none, the same token, or the
/// same cookies.
pub open spec fn same_auth(a: AuthState, b: AuthState) -> bool {
    match (a, b) {
        (AuthState::NoAuth, AuthState::NoAuth) => true,
        (AuthState::Bearer(t), AuthState::Bearer(u)) => t@ == u@,
        (AuthState::Cookies(c), AuthState::Cookies(d)) => c@ == d@,
        _ => false,
    }
}

impl Clone for AuthState {
    fn clone(&self) -> (r: AuthState)
        ensures
            same_auth(r, *self),
    {
        match self {
            AuthState::NoAuth => AuthState::NoAuth,
            AuthState::Bearer(t) => AuthState::Bearer(t.clone()),
            AuthState::Cookies(c) => AuthState::Cookies(c.duplicate()),
        }
    }
}

/// What a successful sign-in returned: the response body and the cookies set.
#[derive(Debug, PartialEq)]
pub struct SignInResponse {
    pub body: Json,
    pub cookies: CookieJar,
}

/// A downloaded blob.
#[derive(Debug, PartialEq)]
pub struct BlobDownload {
    pub bytes: Vec<u8>,
    pub content_type: Option<String>,
}

/// The `extensions` of a GraphQL error.
pub struct GraphQlExtensions {
    pub code: Option<String>,
}

/// One GraphQL error.
pub struct GraphQlError {
    pub message: String,
    pub extensions: Option<GraphQlExtensions>,
}

/// The envelope of a GraphQL response.
pub struct GraphQlEnvelope {
    pub data: Option<Json>,
    pub errors: Option<Vec<GraphQlError>>,
}

/// Why a request failed.
#[derive(Debug, PartialEq)]
pub enum ClientError {
    /// A `Set-Cookie` header held a byte that is not visible ASCII.
    NonUtf8SetCookie,
    /// The server answered with an error status.
    Http { status: u16, message: String, code: String },
    /// A GraphQL request got an error status.
    GraphQlHttp { status: u16, errors: String },
    /// A GraphQL response listed errors.
    GraphQl { errors: String },
    /// A GraphQL response had neither errors nor data.
    NoGraphQlData,
    /// The client version cannot be sent as a header value.
    InvalidClientVersion { version: String },
    /// The variables of an upload are not a JSON object.
    UploadVariablesNotObject,
}

/// The text that describes an error.
pub open spec fn client_error_text(e: ClientError) -> Seq<char> {
    match e {
        ClientError::NonUtf8SetCookie => "received non-UTF-8 Set-Cookie header"@,
        ClientError::Http { status, message, code } => if code@.len() == 0 {
            "HTTP "@ + decimal(status as nat) + ": "@ + message@
        } else {
            "HTTP "@ + decimal(status as nat) + ": "@ + message@ + " ("@ + code@ + ")"@
        },
        ClientError::GraphQlHttp { status, errors } => "GraphQL HTTP error "@ + decimal(
            status as nat,
        ) + ": "@ + errors@,
        ClientError::GraphQl { errors } => errors@,
        ClientError::NoGraphQlData => "GraphQL response did not include data"@,
        ClientError::InvalidClientVersion { version } => "invalid client version header value "@
            + version@,
        ClientError::UploadVariablesNotObject => "upload variables must be a JSON object"@,
    }
}

impl ClientError {
    /// The text that describes the error.
    pub fn message(&self) -> (r: String)
        ensures
            r@ == client_error_text(*self),
    {
        match self {
            ClientError::NonUtf8SetCookie => "received non-UTF-8 Set-Cookie header".to_owned(),
            ClientError::Http { status, message, code } => {
                let mut r = "HTTP ".to_owned();
                push_decimal(&mut r, *status as u64);
                push_str(&mut r, ": ");
                push_str(&mut r, message.as_str());
                if !code.as_str().is_empty() {
                    push_str(&mut r, " (");
                    push_str(&mut r, code.as_str());
                    push_str(&mut r, ")");
                }
                r
            },
            ClientError::GraphQlHttp { status, errors } => {
                let mut r = "GraphQL HTTP error ".to_owned();
                push_decimal(&mut r, *status as u64);
                push_str(&mut r, ": ");
                push_str(&mut r, errors.as_str());
                r
            },
            ClientError::GraphQl { errors } => errors.clone(),
            ClientError::NoGraphQlData => "GraphQL response did not include data".to_owned(),
            ClientError::InvalidClientVersion { version } => {
                let mut r = "invalid client version header value ".to_owned();
                push_str(&mut r, version.as_str());
                r
            },
            ClientError::UploadVariablesNotObject => "upload variables must be a JSON object".to_owned(),
        }
    }
}

// ---------------------------------------------------------------------------
// Base URL and paths
// ---------------------------------------------------------------------------

/// The base URL the client uses for a server address: surrounding white
/// space and trailing slashes dropped, then a trailing `/graphql` dropped.
pub open spec fn normalized_base_url(s: Seq<char>) -> Seq<char> {
    let t = trim_end_char(trim(s), '/');
    match strip_suffix(t, "/graphql"@) {
        Some(p) => p,
        None => t,
    }
}

/// Reduces a server address to the base URL that request paths are appended to.
pub fn normalize_base_url(base_url: &str) -> (r: String)
    ensures
        r@ == normalized_base_url(base_url@),
{
    let v = chars_of(base_url);
    let (i, j) = trim_bounds(&v);
    let e = trim_end_char_bound(&v, i, j, '/');
    let suffix = chars_of("/graphql");
    if ends_with_at(&v, i, e, &suffix) {
        proof {
            let t = v@.subrange(i as int, e as int);
            assert(t.subrange(0, t.len() - suffix@.len()) =~= v@.subrange(
                i as int,
                e - suffix@.len(),
            ));
        }
        string_from_chars(&v, i, e - suffix.len())
    } else {
        string_from_chars(&v, i, e)
    }
}

/// `base_url` followed by `path`.
pub fn join_path(base_url: &str, path: &str) -> (r: String)
    ensures
        r@ == base_url@ + path@,
{
    let mut r = base_url.to_owned();
    push_str(&mut r, path);
    r
}

/// The REST path of a blob: `/api/workspaces/{workspace_id}/blobs/{key}`.
pub fn blob_path(workspace_id: &str, key: &str) -> (r: String)
    ensures
        r@ == "/api/workspaces/"@ + workspace_id@ + "/blobs/"@ + key@,
{
    let mut r = "/api/workspaces/".to_owned();
    push_str(&mut r, workspace_id);
    push_str(&mut r, "/blobs/");
    push_str(&mut r, key);
    r
}

// ---------------------------------------------------------------------------
// Headers
// ---------------------------------------------------------------------------

/// The value of the `Cookie` header for a set of cookies: `name=value` for each
/// cookie in ascending order of name, joined by `"; "`.
pub fn cookie_header_value(cookies: &CookieJar) -> (r: String)
    ensures
        r@ == header_text(cookies.pairs()),
        strictly_sorted(cookies.pairs()),
        pairs_to_map(cookies.pairs()) == cookies@,
{
    cookies.header_value()
}

/// The authentication header a request carries, as (name, value).
pub open spec fn auth_header_spec(auth: AuthState) -> Option<(Seq<char>, Seq<char>)> {
    match auth {
        AuthState::NoAuth => None,
        AuthState::Bearer(token) => Some(("authorization"@, "Bearer "@ + token@)),
        AuthState::Cookies(cookies) => if cookies@ == Map::<Seq<char>, Seq<char>>::empty() {
            None
        } else {
            Some(("cookie"@, header_text(cookies.pairs())))
        },
    }
}

/// The authentication header to add to a request: a bearer token, or the
/// cookies when there are any.
pub fn auth_header(auth: &AuthState) -> (r: Option<(String, String)>)
    ensures
        match r {
            Some(h) => auth_header_spec(*auth) == Some((h.0@, h.1@)),
            None => auth_header_spec(*auth) is None,
        },
{
    match auth {
        AuthState::NoAuth => None,
        AuthState::Bearer(token) => {
            let mut v = "Bearer ".to_owned();
            push_str(&mut v, token.as_str());
            Some(("authorization".to_owned(), v))
        },
        AuthState::Cookies(cookies) => {
            if cookies.is_empty() {
                None
            } else {
                Some(("cookie".to_owned(), cookie_header_value(cookies)))
            }
        },
    }
}

/// A byte that an HTTP header value may hold (`HeaderValue::from_str`).
pub open spec fn header_value_byte(b: u8) -> bool {
    (b >= 32 && b != 127) || b == 9
}

/// A byte of visible ASCII, or a tab (`HeaderValue::to_str`).
pub open spec fn visible_byte(b: u8) -> bool {
    (32 <= b && b < 127) || b == 9
}

/// Checks that the client version can be sent as the value of the
/// `x-affine-client-version` and `x-affine-version` headers.
pub fn check_client_version(version: &str) -> (r: Result<(), ClientError>)
    ensures
        r is Ok <==> (forall|i: int|
            0 <= i < version.spec_bytes().len() ==> header_value_byte(
                #[trigger] version.spec_bytes()[i],
            )),
        r is Err ==> (r->Err_0 is InvalidClientVersion && r->Err_0->version@ == version@),
{
    let bytes = version.as_bytes();
    let mut i: usize = 0;
    while i < bytes.len()
        invariant
            bytes@ == version.spec_bytes(),
            0 <= i <= bytes@.len(),
            forall|j: int| 0 <= j < i ==> header_value_byte(#[trigger] bytes@[j]),
        decreases bytes.len() - i,
    {
        let b = bytes[i];
        if !((b >= 32 && b != 127) || b == 9) {
            return Err(ClientError::InvalidClientVersion { version: version.to_owned() });
        }
        i += 1;
    }
    Ok(())
}

// ---------------------------------------------------------------------------
// Cookies set by the server
// ---------------------------------------------------------------------------

/// What one `Set-Cookie` header does to the cookies: `name=value` (the part
/// before the first `;`) sets the cookie, `name=` removes it, anything without
/// `=` changes nothing.
pub open spec fn set_cookie_update(m: Map<Seq<char>, Seq<char>>, text: Seq<char>) -> Map<
    Seq<char>,
    Seq<char>,
> {
    let pair = prefix_before(text, ';');
    let name = prefix_before(pair, '=');
    if name.len() < pair.len() {
        let raw = pair.skip(name.len() as int + 1);
        if raw.len() == 0 {
            m.remove(name)
        } else {
            m.insert(name, raw)
        }
    } else {
        m
    }
}

/// Whether every byte of a header value is visible ASCII (or a tab).
pub open spec fn header_is_visible(h: Seq<u8>) -> bool {
    forall|i: int| 0 <= i < h.len() ==> visible_byte(#[trigger] h[i])
}

/// The text of a header value of visible ASCII.
pub open spec fn header_chars(h: Seq<u8>) -> Seq<char> {
    h.map_values(|b: u8| b as char)
}

/// The cookies after applying `Set-Cookie` headers in order, up to the first
/// one that is not visible ASCII.
pub open spec fn merge_headers(m: Map<Seq<char>, Seq<char>>, hs: Seq<Seq<u8>>) -> Map<
    Seq<char>,
    Seq<char>,
>
    decreases hs.len(),
{
    if hs.len() == 0 {
        m
    } else if !header_is_visible(hs[0]) {
        m
    } else {
        merge_headers(set_cookie_update(m, header_chars(hs[0])), hs.drop_first())
    }
}

/// The byte contents of a list of header values.
pub open spec fn header_views(hs: Seq<Vec<u8>>) -> Seq<Seq<u8>> {
    hs.map_values(|h: Vec<u8>| h@)
}

/// Applying two batches of `Set-Cookie` headers one after the other does what
/// applying them as one batch does, when every header of the first batch is
/// visible ASCII.
pub proof fn law_merge_headers_in_batches(
    m: Map<Seq<char>, Seq<char>>,
    h1: Seq<Seq<u8>>,
    h2: Seq<Seq<u8>>,
)
    requires
        forall|i: int| 0 <= i < h1.len() ==> header_is_visible(#[trigger] h1[i]),
    ensures
        merge_headers(m, h1 + h2) == merge_headers(merge_headers(m, h1), h2),
    decreases h1.len(),
{
    if h1.len() == 0 {
        assert(h1 + h2 =~= h2);
    } else {
        assert((h1 + h2)[0] == h1[0]);
        assert((h1 + h2).drop_first() =~= h1.drop_first() + h2);
        assert(header_is_visible(h1[0]));
        let rest = h1.drop_first();
        assert forall|i: int| 0 <= i < rest.len() implies header_is_visible(#[trigger] rest[i]) by {
            assert(rest[i] == h1[i + 1]);
        }
        law_merge_headers_in_batches(set_cookie_update(m, header_chars(h1[0])), rest, h2);
    }
}

fn header_to_chars(h: &Vec<u8>) -> (r: Option<Vec<char>>)
    ensures
        r is Some <==> header_is_visible(h@),
        r matches Some(v) ==> v@ == header_chars(h@),
{
    let mut v: Vec<char> = Vec::new();
    let mut i: usize = 0;
    while i < h.len()
        invariant
            0 <= i <= h@.len(),
            v@ == header_chars(h@.take(i as int)),
            forall|j: int| 0 <= j < i ==> visible_byte(#[trigger] h@[j]),
        decreases h.len() - i,
    {
        let b = h[i];
        if !((32 <= b && b < 127) || b == 9) {
            return None;
        }
        v.push(b as char);
        proof {
            assert(header_chars(h@.take(i + 1)) =~= header_chars(h@.take(i as int)).push(
                b as char,
            ));
        }
        i += 1;
    }
    proof {
        assert(h@.take(i as int) =~= h@);
    }
    Some(v)
}

fn apply_set_cookie(cookies: &mut CookieJar, text: &Vec<char>)
    ensures
        final(cookies)@ == set_cookie_update(old(cookies)@, text@),
{
    let n = text.len();
    let end = find_char(text, 0, n, ';');
    let eq = find_char(text, 0, end, '=');
    proof {
        assert(text@.subrange(0, n as int) =~= text@);
    }
    let ghost pair = text@.subrange(0, end as int);
    assert(prefix_before(pair, '=') == text@.subrange(0, eq as int)) by {
        assert(text@.subrange(0, end as int) == pair);
    }
    if eq < end {
        let name = string_from_chars(text, 0, eq);
        let raw = string_from_chars(text, eq + 1, end);
        proof {
            assert(pair.skip(eq + 1) =~= text@.subrange(eq + 1, end as int));
        }
        if eq + 1 == end {
            cookies.remove(name.as_str());
        } else {
            cookies.insert(name, raw);
        }
    }
}

/// Applies `Set-Cookie` header values to the cookies, in order. Fails on the
/// first value that is not visible ASCII, keeping what the earlier ones did.
pub fn merge_set_cookie_headers(cookies: &mut CookieJar, headers: &Vec<Vec<u8>>) -> (r: Result<
    (),
    ClientError,
>)
    ensures
        final(cookies)@ == merge_headers(old(cookies)@, header_views(headers@)),
        r is Ok <==> (forall|i: int|
            0 <= i < headers@.len() ==> header_is_visible(#[trigger] headers@[i]@)),
        r is Err ==> (r->Err_0 is NonUtf8SetCookie),
{
    let ghost hs = header_views(headers@);
    let ghost start = cookies@;
    let mut i: usize = 0;
    assert(hs.skip(0) =~= hs);
    while i < headers.len()
        invariant
            0 <= i <= headers@.len(),
            hs == header_views(headers@),
            start == old(cookies)@,
            merge_headers(start, hs) == merge_headers(cookies@, hs.skip(i as int)),
            forall|j: int| 0 <= j < i ==> header_is_visible(#[trigger] headers@[j]@),
        decreases headers.len() - i,
    {
        proof {
            assert(hs.skip(i as int)[0] == headers@[i as int]@);
            assert(hs.skip(i as int).drop_first() =~= hs.skip(i + 1));
        }
        match header_to_chars(&headers[i]) {
            None => {
                proof {
                    assert(hs.skip(i as int).len() > 0);
                    assert(!header_is_visible(hs.skip(i as int)[0]));
                    assert(merge_headers(cookies@, hs.skip(i as int)) == cookies@);
                    assert(merge_headers(start, hs) == cookies@);
                    assert(start == old(cookies)@);
                }
                return Err(ClientError::NonUtf8SetCookie);
            },
            Some(text) => {
                apply_set_cookie(cookies, &text);
            },
        }
        i += 1;
    }
    proof {
        assert(hs.skip(i as int) =~= Seq::<Seq<u8>>::empty());
    }
    Ok(())
}

// ---------------------------------------------------------------------------
// Reading responses
// ---------------------------------------------------------------------------

/// Whether an HTTP status is a success (2xx).
pub open spec fn is_success_status(status: u16) -> bool {
    200 <= status <= 299
}

/// Whether an HTTP status is a success (2xx).
pub fn is_success(status: u16) -> (b: bool)
    ensures
        b == is_success_status(status),
{
    200 <= status && status <= 299
}

/// The text of the body field `key` when it is a string, or `default`.
pub open spec fn str_field_or(body: JsonV, key: Seq<char>, default: Seq<char>) -> Seq<char> {
    match str_field(body, key) {
        Some(s) => s,
        None => default,
    }
}

fn str_field_or_default(body: &Json, key: &str, default: &str) -> (r: String)
    ensures
        r@ == str_field_or(body@, key@, default@),
{
    match body.get(key) {
        Some(v) => match v.as_str() {
            Some(s) => s.clone(),
            None => default.to_owned(),
        },
        None => default.to_owned(),
    }
}

/// Whether `e` is the error for an HTTP error status with a JSON body: the
/// body's `message` (or "request failed") and `name` (or nothing).
pub open spec fn is_http_error_for(e: ClientError, status: u16, body: JsonV) -> bool {
    e matches ClientError::Http { status: s, message, code } && s == status && message@
        == str_field_or(body, "message"@, "request failed"@) && code@ == str_field_or(
        body,
        "name"@,
        ""@,
    )
}

/// The error for an HTTP error status with a JSON body: the body's `message`
/// (or "request failed") and `name`.
pub fn http_json_error(status: u16, body: &Json) -> (e: ClientError)
    ensures
        is_http_error_for(e, status, body@),
{
    let message = str_field_or_default(body, "message", "request failed");
    let code = str_field_or_default(body, "name", "");
    ClientError::Http { status, message, code }
}

/// The text of one GraphQL error: its message, then its code in parentheses
/// when it has one.
pub open spec fn graphql_error_text(e: GraphQlError) -> Seq<char> {
    match e.extensions {
        Some(ext) => match ext.code {
            Some(code) => e.message@ + " ("@ + code@ + ")"@,
            None => e.message@,
        },
        None => e.message@,
    }
}

/// GraphQL errors joined by `"; "`.
pub open spec fn graphql_errors_text(es: Seq<GraphQlError>) -> Seq<char> {
    join(es.map_values(|e: GraphQlError| graphql_error_text(e)), seq![';', ' '])
}

/// Describes GraphQL errors: each message, with its code when there is one,
/// joined by `"; "`.
pub fn format_graphql_errors(errors: &Vec<GraphQlError>) -> (r: String)
    ensures
        r@ == graphql_errors_text(errors@),
{
    let ghost es = errors@;
    let mut out = String::new();
    let mut i: usize = 0;
    while i < errors.len()
        invariant
            0 <= i <= errors@.len(),
            es == errors@,
            out@ == graphql_errors_text(es.take(i as int)),
        decreases errors.len() - i,
    {
        let ghost before = out@;
        if i > 0 {
            push_char(&mut out, ';');
            push_char(&mut out, ' ');
        }
        let ghost mid = out@;
        let e = &errors[i];
        push_str(&mut out, e.message.as_str());
        match &e.extensions {
            Some(ext) => match &ext.code {
                Some(code) => {
                    push_str(&mut out, " (");
                    push_str(&mut out, code.as_str());
                    push_str(&mut out, ")");
                },
                None => {},
            },
            None => {},
        }
        proof {
            let t = es.take(i + 1).map_values(|e: GraphQlError| graphql_error_text(e));
            assert(out@ =~= mid + graphql_error_text(es[i as int]));
            assert(t.last() == graphql_error_text(es[i as int]));
            if i == 0 {
                assert(t.len() == 1);
                assert(out@ =~= graphql_error_text(es[0]));
            } else {
                assert(t.drop_last() =~= es.take(i as int).map_values(
                    |e: GraphQlError| graphql_error_text(e),
                ));
                assert(out@ =~= before + seq![';', ' '] + graphql_error_text(es[i as int]));
            }
        }
        i += 1;
    }
    proof {
        assert(es.take(i as int) =~= es);
    }
    out
}

/// Reads a decoded GraphQL response.
pub fn graphql_response(status: u16, envelope: GraphQlEnvelope) -> (r: Result<Json, ClientError>)
    ensures
        match r {
            Ok(d) => is_success_status(status) && envelope.errors is None && envelope.data is Some
                && d@ == json_view(envelope.data->0),
            Err(ClientError::GraphQlHttp { status: s, errors }) => !is_success_status(status) && s
                == status && errors@ == (match envelope.errors {
                Some(es) => graphql_errors_text(es@),
                None => "request failed"@,
            }),
            Err(ClientError::GraphQl { errors }) => is_success_status(status) && envelope.errors is Some
                && errors@ == graphql_errors_text(envelope.errors->0@),
            Err(ClientError::NoGraphQlData) => is_success_status(status) && envelope.errors is None
                && envelope.data is None,
            Err(_) => false,
        },
{
    if !is_success(status) {
        let errors = match &envelope.errors {
            Some(es) => format_graphql_errors(es),
            None => "request failed".to_owned(),
        };
        return Err(ClientError::GraphQlHttp { status, errors });
    }
    if let Some(es) = &envelope.errors {
        return Err(ClientError::GraphQl { errors: format_graphql_errors(es) });
    }
    match envelope.data {
        Some(d) => Ok(d),
        None => Err(ClientError::NoGraphQlData),
    }
}

// ---------------------------------------------------------------------------
// Request bodies and their answers
// ---------------------------------------------------------------------------

/// The text of an optional string slice.
pub open spec fn opt_text(o: Option<&str>) -> Option<Seq<char>> {
    match o {
        Some(s) => Some(s@),
        None => None,
    }
}

/// `fields` with `key: value` appended when `value` is present.
pub open spec fn push_opt_str(
    fields: Seq<(Seq<char>, JsonV)>,
    key: Seq<char>,
    value: Option<Seq<char>>,
) -> Seq<(Seq<char>, JsonV)> {
    match value {
        Some(v) => fields.push((key, JsonV::Str(v))),
        None => fields,
    }
}

/// The body of a sign-in request: the e-mail, and the password and callback
/// URL when given.
pub open spec fn sign_in_payload_spec(
    email: Seq<char>,
    password: Option<Seq<char>>,
    callback_url: Option<Seq<char>>,
) -> JsonV {
    JsonV::Object(
        push_opt_str(
            push_opt_str(seq![("email"@, JsonV::Str(email))], "password"@, password),
            "callbackUrl"@,
            callback_url,
        ),
    )
}

fn push_opt_str_field(fields: &mut Vec<(String, Json)>, key: &str, value: Option<&str>)
    ensures
        field_views(final(fields)@) == push_opt_str(field_views(old(fields)@), key@, opt_text(value)),
{
    if let Some(v) = value {
        push_field(fields, key, Json::string(v));
    }
}

/// The body of a sign-in request.
pub fn sign_in_payload(email: &str, password: Option<&str>, callback_url: Option<&str>) -> (r: Json)
    ensures
        r@ == sign_in_payload_spec(email@, opt_text(password), opt_text(callback_url)),
{
    let mut fields: Vec<(String, Json)> = Vec::new();
    proof {
        assert(field_views(fields@) =~= Seq::empty());
    }
    push_field(&mut fields, "email", Json::string(email));
    push_opt_str_field(&mut fields, "password", password);
    push_opt_str_field(&mut fields, "callbackUrl", callback_url);
    Json::Object(fields)
}

/// Whether all headers of a list are visible ASCII.
pub open spec fn all_headers_visible(hs: Seq<Vec<u8>>) -> bool {
    forall|i: int| 0 <= i < hs.len() ==> header_is_visible(#[trigger] hs[i]@)
}

/// Reads the answer to a sign-in request: an error status gives the body's
/// error; otherwise the body and the cookies that the `Set-Cookie` headers set.
pub fn sign_in_outcome(status: u16, body: Json, set_cookies: &Vec<Vec<u8>>) -> (r: Result<
    SignInResponse,
    ClientError,
>)
    ensures
        match r {
            Ok(resp) => is_success_status(status) && all_headers_visible(set_cookies@)
                && resp.body@ == body@ && resp.cookies@ == merge_headers(
                Map::empty(),
                header_views(set_cookies@),
            ),
            Err(e) => if is_success_status(status) {
                !all_headers_visible(set_cookies@) && e is NonUtf8SetCookie
            } else {
                is_http_error_for(e, status, body@)
            },
        },
{
    if !is_success(status) {
        return Err(http_json_error(status, &body));
    }
    let mut cookies = CookieJar::new();
    match merge_set_cookie_headers(&mut cookies, set_cookies) {
        Ok(()) => Ok(SignInResponse { body, cookies }),
        Err(e) => Err(e),
    }
}

/// The CSRF token to send with a sign-out request: the `affine_csrf_token` cookie.
pub fn csrf_token(cookies: &CookieJar) -> (r: Option<String>)
    ensures
        match r {
            Some(t) => cookies@.contains_key("affine_csrf_token"@) && cookies@["affine_csrf_token"@]
                == t@,
            None => !cookies@.contains_key("affine_csrf_token"@),
        },
{
    match cookies.get("affine_csrf_token") {
        Some(t) => Some(t.clone()),
        None => None,
    }
}

/// Reads the answer to a sign-out request: an error status gives the body's
/// error; otherwise the existing cookies updated by the `Set-Cookie` headers.
pub fn sign_out_outcome(
    status: u16,
    body: &Json,
    existing: &CookieJar,
    set_cookies: &Vec<Vec<u8>>,
) -> (r: Result<CookieJar, ClientError>)
    ensures
        match r {
            Ok(c) => is_success_status(status) && all_headers_visible(set_cookies@) && c@
                == merge_headers(existing@, header_views(set_cookies@)),
            Err(e) => if is_success_status(status) {
                !all_headers_visible(set_cookies@) && e is NonUtf8SetCookie
            } else {
                is_http_error_for(e, status, body@)
            },
        },
{
    if !is_success(status) {
        return Err(http_json_error(status, body));
    }
    let mut cookies = existing.duplicate();
    match merge_set_cookie_headers(&mut cookies, set_cookies) {
        Ok(()) => Ok(cookies),
        Err(e) => Err(e),
    }
}

/// The body of a GraphQL request: the query, the variables and, when given,
/// the operation name.
pub open spec fn graphql_body_spec(
    query: Seq<char>,
    operation_name: Option<Seq<char>>,
    variables: JsonV,
) -> JsonV {
    JsonV::Object(
        push_opt_str(
            seq![("query"@, JsonV::Str(query)), ("variables"@, variables)],
            "operationName"@,
            operation_name,
        ),
    )
}

/// The body of a GraphQL request.
pub fn graphql_body(query: &str, operation_name: Option<&str>, variables: Json) -> (r: Json)
    ensures
        r@ == graphql_body_spec(query@, opt_text(operation_name), variables@),
{
    let mut fields: Vec<(String, Json)> = Vec::new();
    proof {
        assert(field_views(fields@) =~= Seq::empty());
    }
    let ghost vv = variables@;
    push_field(&mut fields, "query", Json::string(query));
    push_field(&mut fields, "variables", variables);
    proof {
        assert(field_views(fields@) =~= seq![("query"@, JsonV::Str(query@)), ("variables"@, vv)]);
    }
    push_opt_str_field(&mut fields, "operationName", operation_name);
    Json::Object(fields)
}

/// The `operations` and `map` fields of a GraphQL multipart upload.
#[derive(Debug, PartialEq)]
pub struct UploadForm {
    pub operations: Json,
    pub map: Json,
}

/// The `operations` field of an upload: the query, the operation name, and the
/// variables with the file variable set to `null`.
pub open spec fn upload_operations_spec(
    query: Seq<char>,
    operation_name: Seq<char>,
    variables: Seq<(Seq<char>, JsonV)>,
    file_variable: Seq<char>,
) -> JsonV {
    JsonV::Object(
        seq![
            ("query"@, JsonV::Str(query)),
            ("operationName"@, JsonV::Str(operation_name)),
            ("variables"@, JsonV::Object(set_field(variables, file_variable, JsonV::Null))),
        ],
    )
}

/// The `map` field of an upload: part `0` is `variables.<file variable>`.
pub open spec fn upload_map_spec(file_variable: Seq<char>) -> JsonV {
    JsonV::Object(seq![("0"@, JsonV::Array(seq![JsonV::Str("variables."@ + file_variable)]))])
}

/// Prepares the form of a GraphQL multipart upload; the variables must be a
/// JSON object.
pub fn upload_form(query: &str, operation_name: &str, variables: Json, file_variable: &str) -> (r:
    Result<UploadForm, ClientError>)
    ensures
        match variables@ {
            JsonV::Object(fs) => r matches Ok(f) && f.operations@ == upload_operations_spec(
                query@,
                operation_name@,
                fs,
                file_variable@,
            ) && f.map@ == upload_map_spec(file_variable@),
            _ => r matches Err(ClientError::UploadVariablesNotObject),
        },
{
    match variables {
        Json::Object(vars) => {
            let mut vars = vars;
            set_field_in(&mut vars, file_variable, Json::Null);
            let mut ops: Vec<(String, Json)> = Vec::new();
            proof {
                assert(field_views(ops@) =~= Seq::empty());
            }
            push_field(&mut ops, "query", Json::string(query));
            push_field(&mut ops, "operationName", Json::string(operation_name));
            let ghost mapped = Json::Object(vars)@;
            push_field(&mut ops, "variables", Json::Object(vars));
            let mut target = "variables.".to_owned();
            push_str(&mut target, file_variable);
            let mut parts: Vec<Json> = Vec::new();
            proof {
                assert(views_of(parts@) =~= Seq::empty());
            }
            push_item(&mut parts, Json::Str(target));
            let mut map: Vec<(String, Json)> = Vec::new();
            proof {
                assert(field_views(map@) =~= Seq::empty());
            }
            push_field(&mut map, "0", Json::Array(parts));
            let r = UploadForm { operations: Json::Object(ops), map: Json::Object(map) };
            proof {
                assert(field_views(ops@) =~= seq![
                    ("query"@, JsonV::Str(query@)),
                    ("operationName"@, JsonV::Str(operation_name@)),
                    ("variables"@, mapped),
                ]);
                assert(views_of(parts@) =~= seq![JsonV::Str("variables."@ + file_variable@)]);
                assert(field_views(map@) =~= seq![("0"@, JsonV::Array(views_of(parts@)))]);
            }
            Ok(r)
        },
        _ => Err(ClientError::UploadVariablesNotObject),
    }
}

/// The body used when a failed blob download carries no JSON body.
pub open spec fn blob_download_fallback() -> JsonV {
    JsonV::Object(seq![("message"@, JsonV::Str("blob download failed"@))])
}

/// The error for a failed blob download: from its JSON body, or saying that the
/// download failed when the body is not JSON.
pub fn blob_download_error(status: u16, body: Option<Json>) -> (e: ClientError)
    ensures
        match body {
            Some(b) => is_http_error_for(e, status, b@),
            None => is_http_error_for(e, status, blob_download_fallback()),
        },
{
    match body {
        Some(b) => http_json_error(status, &b),
        None => {
            let mut fields: Vec<(String, Json)> = Vec::new();
            proof {
                assert(field_views(fields@) =~= Seq::empty());
            }
            push_field(&mut fields, "message", Json::string("blob download failed"));
            let b = Json::Object(fields);
            proof {
                assert(b@ == blob_download_fallback());
            }
            http_json_error(status, &b)
        },
    }
}

/// A downloaded blob: its bytes, and its content type when the header is
/// visible ASCII.
pub fn blob_download(content_type: Option<Vec<u8>>, bytes: Vec<u8>) -> (r: BlobDownload)
    ensures
        r.bytes@ == bytes@,
        match content_type {
            Some(h) => if header_is_visible(h@) {
                r.content_type matches Some(t) && t@ == header_chars(h@)
            } else {
                r.content_type is None
            },
            None => r.content_type is None,
        },
{
    let content_type = match content_type {
        Some(h) => match header_to_chars(&h) {
            Some(v) => {
                let t = string_from_chars(&v, 0, v.len());
                proof {
                    assert(v@.subrange(0, v@.len() as int) =~= v@);
                }
                Some(t)
            },
            None => None,
        },
        None => None,
    };
    BlobDownload { bytes, content_type }
}

/// The body of a magic-link sign-in: the e-mail, the one-time token and, when
/// given, the callback URL.
pub open spec fn magic_link_payload_spec(
    email: Seq<char>,
    token: Seq<char>,
    callback_url: Option<Seq<char>>,
) -> JsonV {
    JsonV::Object(
        push_opt_str(
            seq![("email"@, JsonV::Str(email)), ("token"@, JsonV::Str(token))],
            "callbackUrl"@,
            callback_url,
        ),
    )
}

/// The body of a magic-link sign-in.
pub fn magic_link_payload(email: &str, token: &str, callback_url: Option<&str>) -> (r: Json)
    ensures
        r@ == magic_link_payload_spec(email@, token@, opt_text(callback_url)),
{
    let mut fields: Vec<(String, Json)> = Vec::new();
    proof {
        assert(field_views(fields@) =~= Seq::empty());
    }
    push_field(&mut fields, "email", Json::string(email));
    push_field(&mut fields, "token", Json::string(token));
    proof {
        assert(field_views(fields@) =~= seq![("email"@, JsonV::Str(email@)), ("token"@, JsonV::Str(token@))]);
    }
    push_opt_str_field(&mut fields, "callbackUrl", callback_url);
    Json::Object(fields)
}

/// The string-valued fields of an object, in order: the headers a presigned
/// upload plan asks the PUT to carry. Anything that is not an object gives none.
pub open spec fn string_fields(v: JsonV) -> Seq<(Seq<char>, Seq<char>)>
    decreases v,
{
    match v {
        JsonV::Object(fs) => string_pairs(fs),
        _ => Seq::empty(),
    }
}

/// The fields of `fs` whose values are strings, with those strings.
pub open spec fn string_pairs(fs: Seq<(Seq<char>, JsonV)>) -> Seq<(Seq<char>, Seq<char>)>
    decreases fs.len(),
{
    if fs.len() == 0 {
        Seq::empty()
    } else {
        let rest = string_pairs(fs.drop_last());
        match fs.last().1 {
            JsonV::Str(t) => rest.push((fs.last().0, t)),
            _ => rest,
        }
    }
}

/// The (name, value) views of header pairs.
pub open spec fn header_pair_views(hs: Seq<(String, String)>) -> Seq<(Seq<char>, Seq<char>)> {
    hs.map_values(|h: (String, String)| (h.0@, h.1@))
}

/// The headers a presigned PUT carries: the string fields of the plan's
/// `headers` object.
pub fn presigned_headers(headers: &Json) -> (r: Vec<(String, String)>)
    ensures
        header_pair_views(r@) == string_fields(headers@),
{
    let mut r: Vec<(String, String)> = Vec::new();
    match headers {
        Json::Object(fields) => {
            let ghost fs = field_views(fields@);
            proof {
                lemma_field_views(fields@);
            }
            let mut i: usize = 0;
            while i < fields.len()
                invariant
                    0 <= i <= fields@.len(),
                    fs == field_views(fields@),
                    fs.len() == fields@.len(),
                    forall|j: int| 0 <= j < fields@.len() ==> #[trigger] fs[j] == (fields@[j].0@, json_view(fields@[j].1)),
                    header_pair_views(r@) == string_pairs(fs.take(i as int)),
                decreases fields.len() - i,
            {
                proof {
                    assert(fs.take(i + 1).drop_last() =~= fs.take(i as int));
                    assert(fs.take(i + 1).last() == fs[i as int]);
                }
                match &fields[i].1 {
                    Json::Str(t) => {
                        let ghost before = r@;
                        r.push((fields[i].0.clone(), t.clone()));
                        proof {
                            assert(header_pair_views(r@) =~= header_pair_views(before).push(
                                (fields@[i as int].0@, t@),
                            ));
                        }
                    },
                    _ => {},
                }
                i += 1;
            }
            proof {
                assert(fs.take(i as int) =~= fs);
            }
        },
        _ => {},
    }
    r
}

/// What a presigned PUT answered: its status and, when it sent one that is
/// visible ASCII, its ETag.
#[derive(Debug, PartialEq)]
pub struct PutOutcome {
    pub status: u16,
    pub etag: Option<String>,
}

/// Reads the answer to a presigned PUT: an error status is an error (the
/// storage service's body is not read); otherwise the status and the ETag.
pub fn put_outcome(status: u16, etag: Option<Vec<u8>>) -> (r: Result<PutOutcome, ClientError>)
    ensures
        if is_success_status(status) {
            r matches Ok(o) && o.status == status && match etag {
                Some(h) => if header_is_visible(h@) {
                    o.etag matches Some(t) && t@ == header_chars(h@)
                } else {
                    o.etag is None
                },
                None => o.etag is None,
            }
        } else {
            r matches Err(e) && is_http_error_for(e, status, JsonV::Object(seq![
                ("message"@, JsonV::Str("presigned upload failed"@)),
            ]))
        },
{
    if !is_success(status) {
        let mut fields: Vec<(String, Json)> = Vec::new();
        proof {
            assert(field_views(fields@) =~= Seq::empty());
        }
        push_field(&mut fields, "message", Json::string("presigned upload failed"));
        let b = Json::Object(fields);
        proof {
            assert(field_views(fields@) =~= seq![("message"@, JsonV::Str("presigned upload failed"@))]);
        }
        return Err(http_json_error(status, &b));
    }
    let etag = match etag {
        Some(h) => match header_to_chars(&h) {
            Some(v) => {
                proof {
                    assert(v@.subrange(0, v@.len() as int) =~= v@);
                }
                Some(string_from_chars(&v, 0, v.len()))
            },
            None => None,
        },
        None => None,
    };
    Ok(PutOutcome { status, etag })
}

/// The text of a header value when it is visible ASCII.
pub open spec fn header_text_of(h: Option<Seq<u8>>) -> Option<Seq<char>> {
    match h {
        Some(b) => if header_is_visible(b) {
            Some(header_chars(b))
        } else {
            None
        },
        None => None,
    }
}

/// The bytes of an optional header value.
pub open spec fn opt_bytes(h: Option<Vec<u8>>) -> Option<Seq<u8>> {
    match h {
        Some(b) => Some(b@),
        None => None,
    }
}

/// The text of an optional string.
pub open spec fn opt_string(s: Option<String>) -> Option<Seq<char>> {
    match s {
        Some(t) => Some(t@),
        None => None,
    }
}

/// A header value as text, when it is visible ASCII.
pub fn header_string(h: Option<Vec<u8>>) -> (r: Option<String>)
    ensures
        opt_string(r) == header_text_of(opt_bytes(h)),
{
    match h {
        Some(b) => match header_to_chars(&b) {
            Some(v) => {
                proof {
                    assert(v@.subrange(0, v@.len() as int) =~= v@);
                }
                Some(string_from_chars(&v, 0, v.len()))
            },
            None => None,
        },
        None => None,
    }
}

/// The report of a blob download:
/// `{"key", "output", "bytes", "contentType"}`, the content type `null` when
/// the server sent none.
pub fn download_report(key: &str, output: &str, bytes: usize, content_type: Option<&str>) -> (r: Json)
    ensures
        r@ == JsonV::Object(
            seq![
                ("key"@, JsonV::Str(key@)),
                ("output"@, JsonV::Str(output@)),
                ("bytes"@, if bytes <= i64::MAX {
                    JsonV::Int(bytes as int)
                } else {
                    JsonV::UInt(bytes as nat)
                }),
                ("contentType"@, crate::cli::str_or_null(opt_text(content_type))),
            ],
        ),
{
    let wide = bytes as u64;
    let n = if wide <= 0x7fff_ffff_ffff_ffffu64 {
        Json::Int(wide as i64)
    } else {
        Json::UInt(wide)
    };
    let ghost nv = n@;
    let t = match content_type {
        Some(t) => Json::string(t),
        None => Json::Null,
    };
    let ghost tv = t@;
    let mut f: Vec<(String, Json)> = Vec::new();
    proof {
        assert(field_views(f@) =~= Seq::empty());
    }
    push_field(&mut f, "key", Json::string(key));
    push_field(&mut f, "output", Json::string(output));
    push_field(&mut f, "bytes", n);
    push_field(&mut f, "contentType", t);
    proof {
        assert(field_views(f@) =~= seq![
            ("key"@, JsonV::Str(key@)),
            ("output"@, JsonV::Str(output@)),
            ("bytes"@, nv),
            ("contentType"@, tv),
        ]);
    }
    Json::Object(f)
}

} // verus!

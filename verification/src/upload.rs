//! Blob uploads: which path an upload takes, and how a multipart upload is cut
//! into parts.
use vstd::prelude::*;
use crate::json::{Json, JsonV, bool_of, clone_json, field_views, get_field, get_path, get_path_at, i64_of, path_views, push_field, str_field, u64_of, views_of};
use crate::text::str_equal;

verus! {

/// Below this size, `auto` uploads through the single GraphQL mutation.
pub const LARGE_BLOB_BYTES: u64 = 5 * 1024 * 1024;

/// The part size used when the server does not set one.
pub const DEFAULT_PART_SIZE: u64 = 8 * 1024 * 1024;

/// How a blob is uploaded.
#[derive(Clone, Copy, Debug, PartialEq, Eq, Structural)]
pub enum BlobUploadMode {
    /// By size: GraphQL for small files, a presigned PUT for large ones.
    Auto,
    /// The GraphQL multipart mutation.
    Graphql,
    /// `createBlobUpload` and one presigned PUT.
    Presigned,
    /// `createBlobUpload` and one presigned PUT per part.
    Multipart,
}

/// The upload path for a requested mode and a file size.
pub open spec fn resolved_mode(requested: BlobUploadMode, size: u64) -> BlobUploadMode {
    match requested {
        BlobUploadMode::Auto => if size < LARGE_BLOB_BYTES {
            BlobUploadMode::Graphql
        } else {
            BlobUploadMode::Presigned
        },
        other => other,
    }
}

/// Resolves `auto`: GraphQL below 5 MiB, a presigned PUT from 5 MiB on; any
/// other mode stays as requested.
pub fn resolve_upload_mode(requested: &BlobUploadMode, size: u64) -> (r: BlobUploadMode)
    ensures
        r == resolved_mode(*requested, size),
        r != BlobUploadMode::Auto,
{
    match requested {
        BlobUploadMode::Auto => {
            if size < LARGE_BLOB_BYTES {
                BlobUploadMode::Graphql
            } else {
                BlobUploadMode::Presigned
            }
        },
        BlobUploadMode::Graphql => BlobUploadMode::Graphql,
        BlobUploadMode::Presigned => BlobUploadMode::Presigned,
        BlobUploadMode::Multipart => BlobUploadMode::Multipart,
    }
}

/// Resolving is final: a resolved mode is never `auto`, and resolving it
/// again, for any size, keeps it.
pub proof fn law_resolved_mode_is_final(requested: BlobUploadMode, size: u64, other_size: u64)
    ensures
        resolved_mode(requested, size) != BlobUploadMode::Auto,
        resolved_mode(resolved_mode(requested, size), other_size) == resolved_mode(requested, size),
{
}

/// Why an upload could not go on.
#[derive(Debug, PartialEq)]
pub enum UploadError {
    /// No key was given and the file has no name to use.
    NoBlobKey,
    /// `createBlobUpload` answered without its payload.
    NoCreatePayload,
    /// The upload plan has no `method`.
    NoMethod,
    /// The server can only take a GraphQL upload, and another mode was asked for.
    GraphqlOnly,
    /// A presigned upload plan has no `uploadUrl`.
    NoPresignedUrl,
    /// A multipart upload plan has no `uploadId`.
    NoUploadId,
    /// The server asked for parts of size zero.
    ZeroPartSize,
    /// `blobUploadPartUrl` answered without its payload.
    NoPartUrlPayload,
    /// A part URL answer has no `uploadUrl`.
    NoPartUrl,
    /// The PUT of a part answered without an ETag, so the upload cannot be completed.
    NoPartEtag,
}

/// The text that describes an upload error.
pub open spec fn upload_error_text(e: UploadError) -> Seq<char> {
    match e {
        UploadError::NoBlobKey => "unable to derive a blob key; pass --key"@,
        UploadError::NoCreatePayload => "createBlobUpload returned no payload"@,
        UploadError::NoMethod => "createBlobUpload response missing `method`"@,
        UploadError::GraphqlOnly =>
            "server responded with upload method GRAPHQL; rerun with `--mode graphql` or `auto`"@,
        UploadError::NoPresignedUrl => "createBlobUpload/PRESIGNED response missing uploadUrl"@,
        UploadError::NoUploadId => "createBlobUpload/MULTIPART missing uploadId"@,
        UploadError::ZeroPartSize => "server returned partSize=0"@,
        UploadError::NoPartUrlPayload => "blobUploadPartUrl returned no payload"@,
        UploadError::NoPartUrl => "blobUploadPartUrl missing uploadUrl"@,
        UploadError::NoPartEtag => "presigned PUT returned no ETag; cannot complete multipart"@,
    }
}

impl UploadError {
    /// The text that describes the error.
    pub fn message(&self) -> (r: String)
        ensures
            r@ == upload_error_text(*self),
    {
        match self {
            UploadError::NoBlobKey => "unable to derive a blob key; pass --key".to_owned(),
            UploadError::NoCreatePayload => "createBlobUpload returned no payload".to_owned(),
            UploadError::NoMethod => "createBlobUpload response missing `method`".to_owned(),
            UploadError::GraphqlOnly =>
                "server responded with upload method GRAPHQL; rerun with `--mode graphql` or `auto`".to_owned(),
            UploadError::NoPresignedUrl => "createBlobUpload/PRESIGNED response missing uploadUrl".to_owned(),
            UploadError::NoUploadId => "createBlobUpload/MULTIPART missing uploadId".to_owned(),
            UploadError::ZeroPartSize => "server returned partSize=0".to_owned(),
            UploadError::NoPartUrlPayload => "blobUploadPartUrl returned no payload".to_owned(),
            UploadError::NoPartUrl => "blobUploadPartUrl missing uploadUrl".to_owned(),
            UploadError::NoPartEtag =>
                "presigned PUT returned no ETag; cannot complete multipart".to_owned(),
        }
    }
}

/// The blob key: the one given, else the file's name.
pub fn derive_blob_key(explicit: Option<String>, file_name: Option<String>) -> (r: Result<
    String,
    UploadError,
>)
    ensures
        match explicit {
            Some(k) => r matches Ok(key) && key@ == k@,
            None => match file_name {
                Some(n) => r matches Ok(key) && key@ == n@,
                None => r matches Err(UploadError::NoBlobKey),
            },
        },
{
    match explicit {
        Some(k) => Ok(k),
        None => match file_name {
            Some(n) => Ok(n),
            None => Err(UploadError::NoBlobKey),
        },
    }
}

/// The MIME type that `mime_guess` gives a path: that of the first type known
/// for its extension, or `application/octet-stream`.
pub uninterp spec fn guessed_mime(path: Seq<char>) -> Seq<char>;

/// The MIME type guessed from a path's extension
/// (`mime_guess::from_path(..).first_or_octet_stream().to_string()`). The guess
/// reads only the path, never the file. A path with no `.` has no extension,
/// and gets `application/octet-stream`; which type an extension maps to is
/// `mime_guess`'s table and is left unsaid.
#[verifier::external_body]
fn guess_mime(path: &str) -> (r: String)
    ensures
        r@ == guessed_mime(path@),
        (forall|i: int| 0 <= i < path@.len() ==> path@[i] != '.') ==> r@
            == "application/octet-stream"@,
{
    mime_guess::from_path(path).first_or_octet_stream().to_string()
}

/// The content type of an upload: the one given, else the guess from the path.
pub fn resolve_mime(explicit: Option<String>, path: &str) -> (r: String)
    ensures
        match explicit {
            Some(m) => r@ == m@,
            None => r@ == guessed_mime(path@),
        },
{
    match explicit {
        Some(m) => m,
        None => guess_mime(path),
    }
}

/// What to do once the server answered `createBlobUpload`.
#[derive(Debug, PartialEq)]
pub enum UploadStep {
    /// The blob is already stored; report this.
    AlreadyUploaded { report: Json },
    /// Upload through the GraphQL mutation instead.
    Graphql,
    /// One presigned PUT of the whole file.
    Presigned { blob_key: String, init: Json },
    /// Presigned PUTs part by part.
    Multipart { blob_key: String, init: Json },
}

/// The key to report for an upload that was already done: the server's
/// `blobKey` when it sent one, else the requested key.
pub open spec fn reported_key(init: JsonV, key: Seq<char>) -> JsonV {
    match get_field(init, "blobKey"@) {
        Some(k) => k,
        None => JsonV::Str(key),
    }
}

/// The decision after `createBlobUpload`, as a function of the requested mode,
/// the resolved mode, the key and the answer's payload.
pub open spec fn upload_step_ok(
    requested: BlobUploadMode,
    mode: BlobUploadMode,
    key: Seq<char>,
    init: JsonV,
    r: Result<UploadStep, UploadError>,
) -> bool {
    if bool_of_field(init, "alreadyUploaded"@) == Some(true) {
        r matches Ok(UploadStep::AlreadyUploaded { report }) && report@ == JsonV::Object(
            seq![("key"@, reported_key(init, key)), ("alreadyUploaded"@, JsonV::Bool(true))],
        )
    } else if str_field(init, "method"@) is None {
        r matches Err(UploadError::NoMethod)
    } else if str_field(init, "method"@) == Some("GRAPHQL"@) {
        if requested == BlobUploadMode::Presigned || requested == BlobUploadMode::Multipart {
            r matches Err(UploadError::GraphqlOnly)
        } else {
            r matches Ok(UploadStep::Graphql)
        }
    } else {
        let blob_key = match str_field(init, "blobKey"@) {
            Some(k) => k,
            None => key,
        };
        if str_field(init, "method"@) == Some("MULTIPART"@) || mode == BlobUploadMode::Multipart {
            r matches Ok(UploadStep::Multipart { blob_key: b, init: i }) && b@ == blob_key && i@
                == init
        } else {
            r matches Ok(UploadStep::Presigned { blob_key: b, init: i }) && b@ == blob_key && i@
                == init
        }
    }
}

/// The blob key of an upload step that uploads (presigned or multipart).
pub open spec fn step_blob_key(r: Result<UploadStep, UploadError>) -> Option<Seq<char>> {
    match r {
        Ok(UploadStep::Presigned { blob_key, .. }) => Some(blob_key@),
        Ok(UploadStep::Multipart { blob_key, .. }) => Some(blob_key@),
        _ => None,
    }
}

/// An upload that goes on by PUT (presigned or multipart) is done under the
/// server's `blobKey` when the plan names one, else under the requested key;
/// which of the two kinds of PUT it is does not change the key. The plan is
/// handed on as the server sent it.
pub proof fn law_upload_key_is_the_servers(
    requested: BlobUploadMode,
    mode: BlobUploadMode,
    key: Seq<char>,
    init: JsonV,
    r: Result<UploadStep, UploadError>,
)
    requires
        upload_step_ok(requested, mode, key, init, r),
        step_blob_key(r) is Some,
    ensures
        step_blob_key(r) == Some(
            match str_field(init, "blobKey"@) {
                Some(b) => b,
                None => key,
            },
        ),
        r matches Ok(UploadStep::Presigned { init: i, .. }) ==> i@ == init,
        r matches Ok(UploadStep::Multipart { init: i, .. }) ==> i@ == init,
{
}

/// `get_field` followed by `bool_of`.
pub open spec fn bool_of_field(v: JsonV, k: Seq<char>) -> Option<bool> {
    match get_field(v, k) {
        Some(x) => bool_of(x),
        None => None,
    }
}

fn str_field_of(v: &Json, k: &str) -> (r: Option<String>)
    ensures
        match r {
            Some(s) => str_field(v@, k@) == Some(s@),
            None => str_field(v@, k@) is None,
        },
{
    match v.get(k) {
        Some(x) => match x.as_str() {
            Some(s) => Some(s.clone()),
            None => None,
        },
        None => None,
    }
}

/// Decides how an upload goes on from the `createBlobUpload` answer `data`:
/// report an upload already done; fall back to GraphQL when the server can
/// only take that and the mode was `auto`; otherwise upload by presigned PUT,
/// in parts when the server or the mode asks for it.
pub fn plan_upload(requested: BlobUploadMode, mode: BlobUploadMode, key: String, data: Json) -> (r:
    Result<UploadStep, UploadError>)
    ensures
        match get_field(data@, "createBlobUpload"@) {
            Some(init) => upload_step_ok(requested, mode, key@, init, r),
            None => r matches Err(UploadError::NoCreatePayload),
        },
{
    let init = match data.take_field("createBlobUpload") {
        Some(i) => i,
        None => {
            return Err(UploadError::NoCreatePayload);
        },
    };
    let already = match init.get("alreadyUploaded") {
        Some(b) => match b.as_bool() {
            Some(true) => true,
            _ => false,
        },
        None => false,
    };
    if already {
        let ghost iv = init@;
        let reported = match init.take_field("blobKey") {
            Some(k) => k,
            None => Json::Str(key),
        };
        let ghost rv = reported@;
        let mut fields: Vec<(String, Json)> = Vec::new();
        proof {
            assert(crate::json::field_views(fields@) =~= Seq::empty());
        }
        crate::json::push_field(&mut fields, "key", reported);
        crate::json::push_field(&mut fields, "alreadyUploaded", Json::Bool(true));
        proof {
            assert(crate::json::field_views(fields@) =~= seq![
                ("key"@, rv),
                ("alreadyUploaded"@, JsonV::Bool(true)),
            ]);
            assert(rv == reported_key(iv, key@));
        }
        return Ok(UploadStep::AlreadyUploaded { report: Json::Object(fields) });
    }
    let method = match str_field_of(&init, "method") {
        Some(m) => m,
        None => {
            return Err(UploadError::NoMethod);
        },
    };
    let graphql = str_equal(method.as_str(), "GRAPHQL");
    if graphql {
        match requested {
            BlobUploadMode::Presigned | BlobUploadMode::Multipart => {
                return Err(UploadError::GraphqlOnly);
            },
            _ => {
                return Ok(UploadStep::Graphql);
            },
        }
    }
    let blob_key = match str_field_of(&init, "blobKey") {
        Some(k) => k,
        None => key,
    };
    let multipart = str_equal(method.as_str(), "MULTIPART");
    if multipart || mode == BlobUploadMode::Multipart {
        Ok(UploadStep::Multipart { blob_key, init })
    } else {
        Ok(UploadStep::Presigned { blob_key, init })
    }
}

/// The presigned URL of a single-PUT upload plan.
pub fn presigned_url(init: &Json) -> (r: Result<String, UploadError>)
    ensures
        match str_field(init@, "uploadUrl"@) {
            Some(u) => r matches Ok(s) && s@ == u,
            None => r matches Err(UploadError::NoPresignedUrl),
        },
{
    match str_field_of(init, "uploadUrl") {
        Some(u) => Ok(u),
        None => Err(UploadError::NoPresignedUrl),
    }
}

/// The upload id of a multipart upload plan.
pub fn multipart_upload_id(init: &Json) -> (r: Result<String, UploadError>)
    ensures
        match str_field(init@, "uploadId"@) {
            Some(u) => r matches Ok(s) && s@ == u,
            None => r matches Err(UploadError::NoUploadId),
        },
{
    match str_field_of(init, "uploadId") {
        Some(u) => Ok(u),
        None => Err(UploadError::NoUploadId),
    }
}

/// `get_field` followed by `u64_of`.
pub open spec fn u64_field(v: JsonV, k: Seq<char>) -> Option<nat> {
    match get_field(v, k) {
        Some(x) => u64_of(x),
        None => None,
    }
}

/// The part size of a multipart plan: the server's `partSize`, else 8 MiB;
/// zero is refused.
pub fn part_size_of(init: &Json) -> (r: Result<usize, UploadError>)
    ensures
        ({
            let n: u64 = match u64_field(init@, "partSize"@) {
                Some(n) => n as u64,
                None => DEFAULT_PART_SIZE,
            };
            if n as usize == 0 {
                r matches Err(UploadError::ZeroPartSize)
            } else {
                r == Ok::<usize, UploadError>(n as usize)
            }
        }),
{
    let n: u64 = match init.get("partSize") {
        Some(v) => match v.as_u64() {
            Some(n) => n,
            None => DEFAULT_PART_SIZE,
        },
        None => DEFAULT_PART_SIZE,
    };
    let size = n as usize;
    if size == 0 {
        Err(UploadError::ZeroPartSize)
    } else {
        Ok(size)
    }
}

/// `get_field` followed by `i64_of`.
pub open spec fn i64_field(v: JsonV, k: Seq<char>) -> Option<int> {
    match get_field(v, k) {
        Some(x) => i64_of(x),
        None => None,
    }
}

/// The (part number, ETag) of one entry of `uploadedParts`, when it has both.
pub open spec fn part_entry(p: JsonV) -> Option<(int, Seq<char>)> {
    match (i64_field(p, "partNumber"@), str_field(p, "etag"@)) {
        (Some(n), Some(e)) => Some((n, e)),
        _ => None,
    }
}

/// The entries of a list of `uploadedParts` items that have both a number and an ETag.
pub open spec fn part_entries(items: Seq<JsonV>) -> Seq<(int, Seq<char>)>
    decreases items.len(),
{
    if items.len() == 0 {
        Seq::empty()
    } else {
        match part_entry(items.last()) {
            Some(e) => part_entries(items.drop_last()).push(e),
            None => part_entries(items.drop_last()),
        }
    }
}

/// The parts that an earlier run uploaded, in the order the server lists them.
pub open spec fn uploaded_entries(init: JsonV) -> Seq<(int, Seq<char>)> {
    match get_field(init, "uploadedParts"@) {
        Some(JsonV::Array(items)) => part_entries(items),
        _ => Seq::empty(),
    }
}

/// The views of (part number, ETag) pairs.
pub open spec fn entry_views(e: Seq<(i64, String)>) -> Seq<(int, Seq<char>)> {
    e.map_values(|p: (i64, String)| (p.0 as int, p.1@))
}

/// The parts that an earlier run already uploaded: (part number, ETag) for
/// each item of `uploadedParts` that has both.
pub fn uploaded_parts(init: &Json) -> (r: Vec<(i64, String)>)
    ensures
        entry_views(r@) == uploaded_entries(init@),
{
    let mut r: Vec<(i64, String)> = Vec::new();
    match init.get("uploadedParts") {
        Some(Json::Array(items)) => {
            proof {
                crate::json::lemma_views_of(items@);
            }
            let ghost vs = crate::json::views_of(items@);
            let mut i: usize = 0;
            while i < items.len()
                invariant
                    0 <= i <= items@.len(),
                    vs == crate::json::views_of(items@),
                    vs.len() == items@.len(),
                    forall|j: int| 0 <= j < items@.len() ==> #[trigger] vs[j] == items@[j]@,
                    entry_views(r@) == part_entries(vs.take(i as int)),
                decreases items.len() - i,
            {
                let p = &items[i];
                let n = match p.get("partNumber") {
                    Some(x) => x.as_i64(),
                    None => None,
                };
                let e = str_field_of(p, "etag");
                proof {
                    assert(vs.take(i + 1).drop_last() =~= vs.take(i as int));
                    assert(vs.take(i + 1).last() == p@);
                }
                match (n, e) {
                    (Some(n), Some(e)) => {
                        let ghost before = r@;
                        r.push((n, e));
                        proof {
                            assert(entry_views(r@) =~= entry_views(before).push(
                                (n as int, e@),
                            ));
                        }
                    },
                    _ => {},
                }
                i += 1;
            }
            proof {
                assert(vs.take(i as int) =~= vs);
            }
        },
        _ => {
            proof {
                assert(entry_views(r@) =~= Seq::empty());
            }
        },
    }
    r
}

/// The ETag recorded last for part `n` (a later entry replaces an earlier one,
/// as in a map filled in order).
pub open spec fn last_etag(entries: Seq<(int, Seq<char>)>, n: int) -> Option<Seq<char>>
    decreases entries.len(),
{
    if entries.len() == 0 {
        None
    } else if entries.last().0 == n {
        Some(entries.last().1)
    } else {
        last_etag(entries.drop_last(), n)
    }
}

/// The ETag recorded for part `n`, if any.
pub fn find_uploaded(parts: &Vec<(i64, String)>, n: i64) -> (r: Option<String>)
    ensures
        match r {
            Some(e) => last_etag(entry_views(parts@), n as int) == Some(e@),
            None => last_etag(entry_views(parts@), n as int) is None,
        },
{
    let ghost es = entry_views(parts@);
    let mut j: usize = parts.len();
    assert(es.take(j as int) =~= es);
    while j > 0
        invariant
            j <= parts@.len(),
            es == entry_views(parts@),
            last_etag(es, n as int) == last_etag(es.take(j as int), n as int),
        decreases j,
    {
        proof {
            assert(es.take(j as int).drop_last() =~= es.take(j - 1));
            assert(es.take(j as int).last() == (parts@[j - 1].0 as int, parts@[j - 1].1@));
        }
        if parts[j - 1].0 == n {
            return Some(parts[j - 1].1.clone());
        }
        j -= 1;
    }
    None
}

/// How many parts a file of `len` bytes is cut into (`usize::div_ceil`).
pub open spec fn part_count(len: nat, part_size: nat) -> nat
    recommends
        part_size > 0,
{
    (len / part_size + if len % part_size != 0 {
        1nat
    } else {
        0nat
    }) as nat
}

/// One part of a multipart upload: bytes `[start, end)` of the file, numbered
/// from 1, with the ETag of an earlier upload of that part if there was one.
#[derive(Debug, PartialEq)]
pub struct PartPlan {
    pub part_number: i64,
    pub start: usize,
    pub end: usize,
    pub uploaded_etag: Option<String>,
}

/// Part `k` (from 0) of a plan for `len` bytes in parts of `part_size`.
pub open spec fn part_ok(
    p: PartPlan,
    k: int,
    len: nat,
    part_size: nat,
    uploaded: Seq<(int, Seq<char>)>,
) -> bool {
    &&& p.part_number == (k + 1) as i64
    &&& p.start == k * part_size
    &&& p.end == if (k + 1) * part_size <= len {
        (k + 1) * part_size
    } else {
        len as int
    }
    &&& match last_etag(uploaded, p.part_number as int) {
        Some(e) => p.uploaded_etag matches Some(t) && t@ == e,
        None => p.uploaded_etag is None,
    }
}

proof fn lemma_part_bounds(len: nat, ps: nat, k: nat)
    requires
        ps > 0,
        k < part_count(len, ps),
    ensures
        k * ps < len,
        k * ps + ps >= len ==> k + 1 == part_count(len, ps),
        part_count(len, ps) <= len,
{
    let q = len / ps;
    let r = len % ps;
    assert(len == q * ps + r && 0 <= r < ps) by (nonlinear_arith)
        requires
            ps > 0,
            q == len / ps,
            r == len % ps,
    ;
    if r != 0 {
        assert(k <= q);
        assert(k * ps <= q * ps) by (nonlinear_arith)
            requires
                k <= q,
        ;
        assert(k * ps + ps >= len ==> k == q) by (nonlinear_arith)
            requires
                k <= q,
                len == q * ps + r,
                0 < r < ps,
        ;
        assert(q + 1 <= len) by (nonlinear_arith)
            requires
                len == q * ps + r,
                0 < r < ps,
                ps > 0,
        ;
    } else {
        assert(k < q);
        assert(k * ps + ps <= q * ps) by (nonlinear_arith)
            requires
                k < q,
                ps > 0,
        ;
        assert(k * ps + ps >= len ==> k + 1 == q) by (nonlinear_arith)
            requires
                k < q,
                len == q * ps,
                ps > 0,
        ;
        assert(q <= len) by (nonlinear_arith)
            requires
                len == q * ps,
                ps > 0,
        ;
    }
}

/// The parts of a multipart upload of `len` bytes in parts of `part_size`:
/// part `k` (numbered `k + 1`) covers bytes `[k * part_size, min((k + 1) *
/// part_size, len))`, and carries the ETag an earlier run recorded for it.
pub fn plan_parts(len: usize, part_size: usize, uploaded: &Vec<(i64, String)>) -> (r: Vec<PartPlan>)
    requires
        part_size > 0,
    ensures
        r@.len() == part_count(len as nat, part_size as nat),
        forall|k: int|
            0 <= k < r@.len() ==> part_ok(
                #[trigger] r@[k],
                k,
                len as nat,
                part_size as nat,
                entry_views(uploaded@),
            ),
{
    let q = len / part_size;
    proof {
        assert(q * part_size + len % part_size == len && len % part_size < part_size && q <= len)
            by (nonlinear_arith)
            requires
                part_size > 0,
                q == len / part_size,
        ;
        if len % part_size != 0 {
            assert(q < len) by (nonlinear_arith)
                requires
                    q * part_size + len % part_size == len,
                    len % part_size > 0,
                    part_size > 0,
            ;
        }
    }
    let total = q + if len % part_size != 0 {
        1
    } else {
        0
    };
    proof {
        if total > 0 {
            lemma_part_bounds(len as nat, part_size as nat, 0);
        }
    }
    let mut r: Vec<PartPlan> = Vec::new();
    let mut k: usize = 0;
    while k < total
        invariant
            part_size > 0,
            total == part_count(len as nat, part_size as nat),
            total <= len,
            0 <= k <= total,
            r@.len() == k,
            forall|j: int|
                0 <= j < k ==> part_ok(
                    #[trigger] r@[j],
                    j,
                    len as nat,
                    part_size as nat,
                    entry_views(uploaded@),
                ),
        decreases total - k,
    {
        proof {
            lemma_part_bounds(len as nat, part_size as nat, k as nat);
        }
        let start = k * part_size;
        let end = if len - start >= part_size {
            start + part_size
        } else {
            len
        };
        let part_number = (k + 1) as i64;
        let uploaded_etag = find_uploaded(uploaded, part_number);
        r.push(PartPlan { part_number, start, end, uploaded_etag });
        proof {
            assert((k + 1) * part_size == k * part_size + part_size) by (nonlinear_arith);
        }
        k += 1;
    }
    r
}

/// The parts of a multipart plan tile the file: there are none exactly when the
/// file is empty, the first starts at byte 0, each starts where the one before
/// it ends, the last ends at the end of the file, and none is empty or longer
/// than the part size.
pub proof fn law_parts_tile_file(
    parts: Seq<PartPlan>,
    len: nat,
    part_size: nat,
    uploaded: Seq<(int, Seq<char>)>,
)
    requires
        part_size > 0,
        parts.len() == part_count(len, part_size),
        forall|k: int| 0 <= k < parts.len() ==> part_ok(#[trigger] parts[k], k, len, part_size, uploaded),
    ensures
        parts.len() == 0 <==> len == 0,
        parts.len() > 0 ==> parts[0].start == 0,
        parts.len() > 0 ==> parts[parts.len() - 1].end == len,
        forall|k: int| 0 <= k < parts.len() - 1 ==> #[trigger] parts[k].end == parts[k + 1].start,
        forall|k: int|
            0 <= k < parts.len() ==> #[trigger] parts[k].start < parts[k].end <= parts[k].start
                + part_size,
{
    let n = parts.len();
    assert(len == 0 ==> n == 0) by {
        if len == 0 {
            assert(0nat / part_size == 0 && 0nat % part_size == 0) by (nonlinear_arith)
                requires
                    part_size > 0,
            ;
        }
    }
    assert(len > 0 ==> n > 0) by {
        if len > 0 && len / part_size == 0 {
            assert(len % part_size == len) by (nonlinear_arith)
                requires
                    part_size > 0,
                    len / part_size == 0,
            ;
        }
    }
    assert forall|k: int| 0 <= k < n implies #[trigger] parts[k].start < parts[k].end
        <= parts[k].start + part_size by {
        lemma_part_bounds(len, part_size, k as nat);
        assert(part_ok(parts[k], k, len, part_size, uploaded));
        assert((k + 1) * part_size == k * part_size + part_size) by (nonlinear_arith);
    }
    assert forall|k: int| 0 <= k < n - 1 implies #[trigger] parts[k].end == parts[k + 1].start by {
        lemma_part_bounds(len, part_size, k as nat);
        assert(part_ok(parts[k], k, len, part_size, uploaded));
        assert(part_ok(parts[k + 1], k + 1, len, part_size, uploaded));
        assert((k + 1) * part_size == k * part_size + part_size) by (nonlinear_arith);
        if !((k + 1) * part_size <= len) {
            assert(k + 1 == n);
        }
    }
    if n > 0 {
        let k = n - 1;
        lemma_part_bounds(len, part_size, k as nat);
        assert(part_ok(parts[k], k, len, part_size, uploaded));
        assert(parts[0].start == 0 * part_size);
        assert(0 * part_size == 0) by (nonlinear_arith);
        assert(part_ok(parts[0], 0, len, part_size, uploaded));
        let q = len / part_size;
        let r = len % part_size;
        assert(len == q * part_size + r && r < part_size) by (nonlinear_arith)
            requires
                part_size > 0,
                q == len / part_size,
                r == len % part_size,
        ;
        if r == 0 {
            assert(k + 1 == q);
            assert((k + 1) * part_size == len);
        } else {
            assert(k == q);
            assert((k + 1) * part_size == q * part_size + part_size) by (nonlinear_arith)
                requires
                    k == q,
            ;
        }
    }
}

fn empty_fields() -> (r: Vec<(String, Json)>)
    ensures
        field_views(r@) == Seq::<(Seq<char>, JsonV)>::empty(),
{
    let r: Vec<(String, Json)> = Vec::new();
    assert(field_views(r@) =~= Seq::empty());
    r
}

/// The variables that ask the server for an upload plan:
/// `{"workspaceId", "key", "mime", "size"}`.
pub fn create_upload_variables(workspace_id: &str, key: &str, mime: &str, size: u64) -> (r: Json)
    ensures
        r@ == JsonV::Object(
            seq![
                ("workspaceId"@, JsonV::Str(workspace_id@)),
                ("key"@, JsonV::Str(key@)),
                ("mime"@, JsonV::Str(mime@)),
                ("size"@, JsonV::Int((size as i64) as int)),
            ],
        ),
{
    let mut f = empty_fields();
    push_field(&mut f, "workspaceId", Json::string(workspace_id));
    push_field(&mut f, "key", Json::string(key));
    push_field(&mut f, "mime", Json::string(mime));
    push_field(&mut f, "size", Json::Int(size as i64));
    proof {
        assert(field_views(f@) =~= seq![
            ("workspaceId"@, JsonV::Str(workspace_id@)),
            ("key"@, JsonV::Str(key@)),
            ("mime"@, JsonV::Str(mime@)),
            ("size"@, JsonV::Int((size as i64) as int)),
        ]);
    }
    Json::Object(f)
}

/// The variables that complete an upload:
/// `{"workspaceId", "key", "uploadId", "parts"}`.
pub fn complete_upload_variables(workspace_id: &str, key: &str, upload_id: Json, parts: Json) -> (r: Json)
    ensures
        r@ == JsonV::Object(
            seq![
                ("workspaceId"@, JsonV::Str(workspace_id@)),
                ("key"@, JsonV::Str(key@)),
                ("uploadId"@, upload_id@),
                ("parts"@, parts@),
            ],
        ),
{
    let ghost u = upload_id@;
    let ghost p = parts@;
    let mut f = empty_fields();
    push_field(&mut f, "workspaceId", Json::string(workspace_id));
    push_field(&mut f, "key", Json::string(key));
    push_field(&mut f, "uploadId", upload_id);
    push_field(&mut f, "parts", parts);
    proof {
        assert(field_views(f@) =~= seq![
            ("workspaceId"@, JsonV::Str(workspace_id@)),
            ("key"@, JsonV::Str(key@)),
            ("uploadId"@, u),
            ("parts"@, p),
        ]);
    }
    Json::Object(f)
}

/// The upload id to complete a single-PUT upload with: the plan's `uploadId`,
/// or `null`.
pub fn presigned_upload_id(init: &Json) -> (r: Json)
    ensures
        r@ == match get_field(init@, "uploadId"@) {
            Some(u) => u,
            None => JsonV::Null,
        },
{
    match init.get("uploadId") {
        Some(u) => clone_json(u),
        None => Json::Null,
    }
}

/// One completed part: `{"partNumber", "etag"}`.
pub fn completed_part(part_number: i64, etag: &str) -> (r: Json)
    ensures
        r@ == JsonV::Object(
            seq![("partNumber"@, JsonV::Int(part_number as int)), ("etag"@, JsonV::Str(etag@))],
        ),
{
    let mut f = empty_fields();
    push_field(&mut f, "partNumber", Json::Int(part_number));
    push_field(&mut f, "etag", Json::string(etag));
    proof {
        assert(field_views(f@) =~= seq![
            ("partNumber"@, JsonV::Int(part_number as int)),
            ("etag"@, JsonV::Str(etag@)),
        ]);
    }
    Json::Object(f)
}

/// The variables that ask for the URL of one part:
/// `{"workspaceId", "key", "uploadId", "partNumber"}`.
pub fn part_url_variables(workspace_id: &str, key: &str, upload_id: &str, part_number: i64) -> (r:
    Json)
    ensures
        r@ == JsonV::Object(
            seq![
                ("workspaceId"@, JsonV::Str(workspace_id@)),
                ("key"@, JsonV::Str(key@)),
                ("uploadId"@, JsonV::Str(upload_id@)),
                ("partNumber"@, JsonV::Int(part_number as int)),
            ],
        ),
{
    let mut f = empty_fields();
    push_field(&mut f, "workspaceId", Json::string(workspace_id));
    push_field(&mut f, "key", Json::string(key));
    push_field(&mut f, "uploadId", Json::string(upload_id));
    push_field(&mut f, "partNumber", Json::Int(part_number));
    proof {
        assert(field_views(f@) =~= seq![
            ("workspaceId"@, JsonV::Str(workspace_id@)),
            ("key"@, JsonV::Str(key@)),
            ("uploadId"@, JsonV::Str(upload_id@)),
            ("partNumber"@, JsonV::Int(part_number as int)),
        ]);
    }
    Json::Object(f)
}

/// Where to PUT one part: the URL and the headers to send (an object, when the
/// server gave one).
#[derive(Debug, PartialEq)]
pub struct PartTarget {
    pub url: String,
    pub headers: Option<Json>,
}

/// The headers field of a plan or part answer when it is an object.
pub open spec fn headers_of(v: JsonV) -> Option<JsonV> {
    match get_field(v, "headers"@) {
        Some(JsonV::Object(fs)) => Some(JsonV::Object(fs)),
        _ => None,
    }
}

/// The headers to send with a presigned PUT, when the server gave an object of them.
pub fn upload_headers(v: &Json) -> (r: Option<Json>)
    ensures
        match headers_of(v@) {
            Some(h) => r matches Some(x) && x@ == h,
            None => r is None,
        },
{
    match v.get("headers") {
        Some(h) => match h {
            Json::Object(_) => Some(clone_json(h)),
            _ => None,
        },
        None => None,
    }
}

/// Reads the answer to `blobUploadPartUrl`: the URL and headers of the part.
pub fn part_target(response: &Json) -> (r: Result<PartTarget, UploadError>)
    ensures
        match get_path(response@, seq!["workspace"@, "blobUploadPartUrl"@]) {
            None => r matches Err(UploadError::NoPartUrlPayload),
            Some(part) => match str_field(part, "uploadUrl"@) {
                None => r matches Err(UploadError::NoPartUrl),
                Some(u) => r matches Ok(t) && t.url@ == u && match headers_of(part) {
                    Some(h) => t.headers matches Some(x) && x@ == h,
                    None => t.headers is None,
                },
            },
        },
{
    let mut p: Vec<String> = Vec::new();
    p.push("workspace".to_owned());
    p.push("blobUploadPartUrl".to_owned());
    proof {
        assert(path_views(p@).skip(0) =~= seq!["workspace"@, "blobUploadPartUrl"@]);
    }
    let part = match get_path_at(response, &p, 0) {
        Some(x) => x,
        None => {
            return Err(UploadError::NoPartUrlPayload);
        },
    };
    let url = match str_field_of(part, "uploadUrl") {
        Some(u) => u,
        None => {
            return Err(UploadError::NoPartUrl);
        },
    };
    Ok(PartTarget { url, headers: upload_headers(part) })
}

/// The ETag of an uploaded part, which completing a multipart upload needs.
pub fn part_etag(etag: Option<String>) -> (r: Result<String, UploadError>)
    ensures
        match etag {
            Some(e) => r matches Ok(t) && t@ == e@,
            None => r matches Err(UploadError::NoPartEtag),
        },
{
    match etag {
        Some(e) => Ok(e),
        None => Err(UploadError::NoPartEtag),
    }
}

/// The report of a single-PUT upload:
/// `{"mode": "presigned", "key", "presignedStatus", "etag", "complete"}`.
pub fn presigned_report(key: &str, status: u16, etag: Option<&str>, complete: Json) -> (r: Json)
    ensures
        r@ == JsonV::Object(
            seq![
                ("mode"@, JsonV::Str("presigned"@)),
                ("key"@, JsonV::Str(key@)),
                ("presignedStatus"@, JsonV::Int(status as int)),
                ("etag"@, crate::cli::str_or_null(crate::client::opt_text(etag))),
                ("complete"@, complete@),
            ],
        ),
{
    let ghost c = complete@;
    let e = match etag {
        Some(t) => Json::string(t),
        None => Json::Null,
    };
    let st = status as i64;
    let mut f = empty_fields();
    push_field(&mut f, "mode", Json::string("presigned"));
    push_field(&mut f, "key", Json::string(key));
    push_field(&mut f, "presignedStatus", Json::Int(st));
    push_field(&mut f, "etag", e);
    push_field(&mut f, "complete", complete);
    proof {
        assert(field_views(f@) =~= seq![
            ("mode"@, JsonV::Str("presigned"@)),
            ("key"@, JsonV::Str(key@)),
            ("presignedStatus"@, JsonV::Int(status as int)),
            ("etag"@, crate::cli::str_or_null(crate::client::opt_text(etag))),
            ("complete"@, c),
        ]);
    }
    Json::Object(f)
}

/// The report of a multipart upload:
/// `{"mode": "multipart", "key", "uploadId", "parts", "complete"}`.
pub fn multipart_report(key: &str, upload_id: &str, parts: usize, complete: Json) -> (r: Json)
    ensures
        r@ == JsonV::Object(
            seq![
                ("mode"@, JsonV::Str("multipart"@)),
                ("key"@, JsonV::Str(key@)),
                ("uploadId"@, JsonV::Str(upload_id@)),
                ("parts"@, if parts <= i64::MAX {
                    JsonV::Int(parts as int)
                } else {
                    JsonV::UInt(parts as nat)
                }),
                ("complete"@, complete@),
            ],
        ),
{
    let ghost c = complete@;
    let wide = parts as u64;
    let n = if wide <= 0x7fff_ffff_ffff_ffffu64 {
        Json::Int(wide as i64)
    } else {
        Json::UInt(wide)
    };
    let ghost nv = n@;
    let mut f = empty_fields();
    push_field(&mut f, "mode", Json::string("multipart"));
    push_field(&mut f, "key", Json::string(key));
    push_field(&mut f, "uploadId", Json::string(upload_id));
    push_field(&mut f, "parts", n);
    push_field(&mut f, "complete", complete);
    proof {
        assert(field_views(f@) =~= seq![
            ("mode"@, JsonV::Str("multipart"@)),
            ("key"@, JsonV::Str(key@)),
            ("uploadId"@, JsonV::Str(upload_id@)),
            ("parts"@, nv),
            ("complete"@, c),
        ]);
    }
    Json::Object(f)
}

} // verus!

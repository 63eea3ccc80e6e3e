use affine_cli::client::{cookie_header_value, normalize_base_url};
use affine_cli::cookies::CookieJar;

#[test]
fn normalizes_graphql_endpoint_to_base_url() {
    assert_eq!(
        normalize_base_url("https://app.affine.pro/graphql"),
        "https://app.affine.pro"
    );
    assert_eq!(
        normalize_base_url("https://app.affine.pro/"),
        "https://app.affine.pro"
    );
}

#[test]
fn formats_cookie_header() {
    let mut cookies = CookieJar::new();
    cookies.insert("affine_csrf_token".to_owned(), "csrf".to_owned());
    cookies.insert("affine_session".to_owned(), "session".to_owned());

    assert_eq!(
        cookie_header_value(&cookies),
        "affine_csrf_token=csrf; affine_session=session"
    );
}

use affine_cli::client::{
    auth_header, blob_download, blob_download_error, check_client_version, csrf_token,
    format_graphql_errors, graphql_body, graphql_response, header_string, http_json_error,
    join_path, magic_link_payload, merge_set_cookie_headers, presigned_headers, put_outcome,
    sign_in_outcome, sign_in_payload, sign_out_outcome, upload_form, AuthState, ClientError,
    GraphQlEnvelope, GraphQlError, GraphQlExtensions,
};
use affine_cli::json::Json;

fn cl_str(t: &str) -> Json {
    Json::Str(t.to_owned())
}

fn cl_obj(fields: Vec<(&str, Json)>) -> Json {
    Json::Object(fields.into_iter().map(|(k, v)| (k.to_owned(), v)).collect())
}

fn cl_jar(pairs: &[(&str, &str)]) -> CookieJar {
    let mut jar = CookieJar::new();
    for (k, v) in pairs {
        jar.insert((*k).to_owned(), (*v).to_owned());
    }
    jar
}

fn cl_headers(hs: &[&str]) -> Vec<Vec<u8>> {
    hs.iter().map(|h| h.as_bytes().to_vec()).collect()
}

#[test]
fn base_url_drops_space_slashes_and_graphql() {
    assert_eq!(normalize_base_url("  https://x.io//  "), "https://x.io");
    assert_eq!(normalize_base_url("https://x.io/graphql/"), "https://x.io");
    assert_eq!(normalize_base_url("https://x.io/api"), "https://x.io/api");
    assert_eq!(normalize_base_url(""), "");
    assert_eq!(join_path("https://x.io", "/graphql"), "https://x.io/graphql");
}

#[test]
fn auth_headers_follow_credentials() {
    assert_eq!(auth_header(&AuthState::NoAuth), None);
    assert_eq!(
        auth_header(&AuthState::Bearer("tok".to_owned())),
        Some(("authorization".to_owned(), "Bearer tok".to_owned()))
    );
    assert_eq!(auth_header(&AuthState::Cookies(CookieJar::new())), None);
    assert_eq!(
        auth_header(&AuthState::Cookies(cl_jar(&[("b", "2"), ("a", "1")]))),
        Some(("cookie".to_owned(), "a=1; b=2".to_owned()))
    );
}

#[test]
fn client_version_must_be_a_header_value() {
    assert_eq!(check_client_version("0.25.0"), Ok(()));
    let err = check_client_version("bad\nversion").unwrap_err();
    assert_eq!(
        err,
        ClientError::InvalidClientVersion { version: "bad\nversion".to_owned() }
    );
    assert_eq!(err.message(), "invalid client version header value bad\nversion");
}

#[test]
fn set_cookie_headers_set_and_remove() {
    let mut jar = cl_jar(&[("old", "x"), ("gone", "y")]);
    let headers = cl_headers(&[
        "affine_session=s1; Path=/; HttpOnly",
        "affine_csrf_token=c1",
        "gone=; Max-Age=0",
        "noequals",
    ]);
    assert_eq!(merge_set_cookie_headers(&mut jar, &headers), Ok(()));
    assert_eq!(
        jar.to_pairs(),
        vec![
            ("affine_csrf_token".to_owned(), "c1".to_owned()),
            ("affine_session".to_owned(), "s1".to_owned()),
            ("old".to_owned(), "x".to_owned()),
        ]
    );
}

#[test]
fn non_ascii_set_cookie_is_refused() {
    let mut jar = CookieJar::new();
    let headers = vec![b"a=1".to_vec(), vec![b'b', b'=', 0xff], b"c=3".to_vec()];
    let err = merge_set_cookie_headers(&mut jar, &headers).unwrap_err();
    assert_eq!(err, ClientError::NonUtf8SetCookie);
    assert_eq!(err.message(), "received non-UTF-8 Set-Cookie header");
    assert_eq!(jar.to_pairs(), vec![("a".to_owned(), "1".to_owned())]);
}

#[test]
fn header_batches_compose() {
    let mut once = CookieJar::new();
    merge_set_cookie_headers(&mut once, &cl_headers(&["a=1", "b=2", "a=3"])).unwrap();
    let mut twice = CookieJar::new();
    merge_set_cookie_headers(&mut twice, &cl_headers(&["a=1", "b=2"])).unwrap();
    merge_set_cookie_headers(&mut twice, &cl_headers(&["a=3"])).unwrap();
    assert_eq!(once.to_pairs(), twice.to_pairs());
    assert_eq!(once.header_value(), "a=3; b=2");
}

#[test]
fn http_errors_read_message_and_name() {
    let body = cl_obj(vec![("message", cl_str("Unauthorized")), ("name", cl_str("AUTH"))]);
    let err = http_json_error(401, &body);
    assert_eq!(err.message(), "HTTP 401: Unauthorized (AUTH)");
    let err = http_json_error(500, &cl_obj(vec![]));
    assert_eq!(
        err,
        ClientError::Http { status: 500, message: "request failed".to_owned(), code: String::new() }
    );
    assert_eq!(err.message(), "HTTP 500: request failed");
}

#[test]
fn graphql_errors_are_joined() {
    let errors = vec![
        GraphQlError {
            message: "a".to_owned(),
            extensions: Some(GraphQlExtensions { code: Some("C1".to_owned()) }),
        },
        GraphQlError { message: "b".to_owned(), extensions: None },
        GraphQlError {
            message: "c".to_owned(),
            extensions: Some(GraphQlExtensions { code: None }),
        },
    ];
    assert_eq!(format_graphql_errors(&errors), "a (C1); b; c");
    assert_eq!(format_graphql_errors(&vec![]), "");
}

#[test]
fn graphql_responses_are_read() {
    let ok = graphql_response(
        200,
        GraphQlEnvelope { data: Some(cl_obj(vec![("x", Json::Int(1))])), errors: None },
    );
    assert_eq!(ok, Ok(cl_obj(vec![("x", Json::Int(1))])));
    let http = graphql_response(400, GraphQlEnvelope { data: None, errors: None }).unwrap_err();
    assert_eq!(http.message(), "GraphQL HTTP error 400: request failed");
    let listed = graphql_response(
        200,
        GraphQlEnvelope {
            data: Some(Json::Null),
            errors: Some(vec![GraphQlError { message: "boom".to_owned(), extensions: None }]),
        },
    )
    .unwrap_err();
    assert_eq!(listed, ClientError::GraphQl { errors: "boom".to_owned() });
    assert_eq!(listed.message(), "boom");
    let none = graphql_response(204, GraphQlEnvelope { data: None, errors: None }).unwrap_err();
    assert_eq!(none, ClientError::NoGraphQlData);
    assert_eq!(none.message(), "GraphQL response did not include data");
}

#[test]
fn request_bodies_are_built() {
    assert_eq!(
        sign_in_payload("me@x.io", Some("pw"), None),
        cl_obj(vec![("email", cl_str("me@x.io")), ("password", cl_str("pw"))])
    );
    assert_eq!(
        sign_in_payload("me@x.io", None, Some("https://cb")),
        cl_obj(vec![("email", cl_str("me@x.io")), ("callbackUrl", cl_str("https://cb"))])
    );
    assert_eq!(
        magic_link_payload("me@x.io", "otp", None),
        cl_obj(vec![("email", cl_str("me@x.io")), ("token", cl_str("otp"))])
    );
    assert_eq!(
        graphql_body("q", Some("op"), cl_obj(vec![])),
        cl_obj(vec![
            ("query", cl_str("q")),
            ("variables", cl_obj(vec![])),
            ("operationName", cl_str("op")),
        ])
    );
    assert_eq!(
        graphql_body("q", None, Json::Null),
        cl_obj(vec![("query", cl_str("q")), ("variables", Json::Null)])
    );
}

#[test]
fn sign_in_and_out_read_answers() {
    let resp = sign_in_outcome(200, cl_obj(vec![]), &cl_headers(&["affine_session=s"])).unwrap();
    assert_eq!(resp.cookies.to_pairs(), vec![("affine_session".to_owned(), "s".to_owned())]);
    let err = sign_in_outcome(
        400,
        cl_obj(vec![("message", cl_str("Wrong password"))]),
        &vec![],
    )
    .unwrap_err();
    assert_eq!(err.message(), "HTTP 400: Wrong password");
    let existing = cl_jar(&[("affine_session", "s"), ("affine_csrf_token", "c")]);
    assert_eq!(csrf_token(&existing), Some("c".to_owned()));
    assert_eq!(csrf_token(&CookieJar::new()), None);
    let after = sign_out_outcome(
        200,
        &cl_obj(vec![]),
        &existing,
        &cl_headers(&["affine_session=; Max-Age=0"]),
    )
    .unwrap();
    assert_eq!(after.to_pairs(), vec![("affine_csrf_token".to_owned(), "c".to_owned())]);
    assert!(sign_out_outcome(500, &cl_obj(vec![]), &existing, &vec![]).is_err());
}

#[test]
fn upload_form_nulls_the_file_variable() {
    let form = upload_form("mutation", "setBlob", cl_obj(vec![("workspaceId", cl_str("w"))]), "blob")
        .unwrap();
    assert_eq!(
        form.operations,
        cl_obj(vec![
            ("query", cl_str("mutation")),
            ("operationName", cl_str("setBlob")),
            ("variables", cl_obj(vec![("workspaceId", cl_str("w")), ("blob", Json::Null)])),
        ])
    );
    assert_eq!(
        form.map,
        cl_obj(vec![("0", Json::Array(vec![cl_str("variables.blob")]))])
    );
    let err = upload_form("m", "o", Json::Null, "blob").unwrap_err();
    assert_eq!(err, ClientError::UploadVariablesNotObject);
    assert_eq!(err.message(), "upload variables must be a JSON object");
}

#[test]
fn blob_downloads_are_read() {
    let err = blob_download_error(404, None);
    assert_eq!(err.message(), "HTTP 404: blob download failed");
    let err = blob_download_error(403, Some(cl_obj(vec![("message", cl_str("no"))])));
    assert_eq!(err.message(), "HTTP 403: no");
    let d = blob_download(Some(b"image/png".to_vec()), vec![1, 2, 3]);
    assert_eq!(d.bytes, vec![1, 2, 3]);
    assert_eq!(d.content_type, Some("image/png".to_owned()));
    let d = blob_download(Some(vec![0xff]), vec![]);
    assert_eq!(d.content_type, None);
}

#[test]
fn presigned_put_headers_and_answers() {
    let headers = cl_obj(vec![
        ("Content-Type", cl_str("image/png")),
        ("x-n", Json::Int(1)),
        ("x-amz-acl", cl_str("private")),
    ]);
    assert_eq!(
        presigned_headers(&headers),
        vec![
            ("Content-Type".to_owned(), "image/png".to_owned()),
            ("x-amz-acl".to_owned(), "private".to_owned()),
        ]
    );
    assert!(presigned_headers(&Json::Null).is_empty());
    let ok = put_outcome(200, Some(b"\"abc\"".to_vec())).unwrap();
    assert_eq!(ok.status, 200);
    assert_eq!(ok.etag, Some("\"abc\"".to_owned()));
    let err = put_outcome(403, None).unwrap_err();
    assert_eq!(err.message(), "HTTP 403: presigned upload failed");
    assert_eq!(header_string(Some(b"Tue".to_vec())), Some("Tue".to_owned()));
    assert_eq!(header_string(None), None);
}

#[test]
fn base_url_trims_unicode_white_space() {
    assert_eq!(normalize_base_url("\u{3000}https://x.io/graphql\u{a0}"), "https://x.io");
    assert_eq!(normalize_base_url("\thttps://x.io/graphql//\n"), "https://x.io");
}

use affine_cli::client::download_report;

#[test]
fn download_report_lists_what_was_written() {
    assert_eq!(
        download_report("k", "./out.png", 3, Some("image/png")),
        cl_obj(vec![
            ("key", cl_str("k")),
            ("output", cl_str("./out.png")),
            ("bytes", Json::Int(3)),
            ("contentType", cl_str("image/png")),
        ])
    );
    assert_eq!(
        download_report("k", "k", 0, None),
        cl_obj(vec![
            ("key", cl_str("k")),
            ("output", cl_str("k")),
            ("bytes", Json::Int(0)),
            ("contentType", Json::Null),
        ])
    );
}

use affine_cli::json::Json;
use affine_cli::sync::{
    delete_ack_outcome, delete_doc_payload, is_timeout_message, join_payload, leave_payload,
    load_doc_payload, payload_to_json, push_doc_update_payload, read_ack, socket_io_url,
    AckPayload, SyncError,
};
use affine_cli::tags::{extract_doc_base64, read_ack_unwrapping, DocBinary};

fn sy_obj(fields: Vec<(&str, Json)>) -> Json {
    Json::Object(fields.into_iter().map(|(k, v)| (k.to_owned(), v)).collect())
}

#[test]
fn socket_url_is_the_origin() {
    assert_eq!(
        socket_io_url("https://app.affine.pro/graphql"),
        Ok("https://app.affine.pro".to_owned())
    );
    assert_eq!(
        socket_io_url("http://localhost:3010/"),
        Ok("http://localhost:3010".to_owned())
    );
    match socket_io_url("not a url") {
        Err(SyncError::InvalidBaseUrl { base_url, reason }) => {
            assert_eq!(base_url, "not a url");
            assert!(!reason.is_empty());
        }
        other => panic!("unexpected {other:?}"),
    }
}

#[test]
fn sync_payloads_name_the_space() {
    let space = |extra: Vec<(&str, Json)>| {
        let mut f = vec![("spaceType", Json::string("workspace")), ("spaceId", Json::string("w"))];
        f.extend(extra);
        sy_obj(f)
    };
    assert_eq!(join_payload("w", "0.25.0"), space(vec![("clientVersion", Json::string("0.25.0"))]));
    assert_eq!(leave_payload("w"), space(vec![]));
    assert_eq!(delete_doc_payload("w", "d"), space(vec![("docId", Json::string("d"))]));
    assert_eq!(load_doc_payload("w"), space(vec![("docId", Json::string("w"))]));
    assert_eq!(
        push_doc_update_payload("w", "AAE="),
        space(vec![("docId", Json::string("w")), ("update", Json::string("AAE="))])
    );
}

#[test]
fn ack_payloads_become_json() {
    assert_eq!(payload_to_json(AckPayload::Text(vec![Json::Int(1)])), Json::Int(1));
    assert_eq!(
        payload_to_json(AckPayload::Text(vec![Json::Int(1), Json::Int(2)])),
        Json::Array(vec![Json::Int(1), Json::Int(2)])
    );
    assert_eq!(payload_to_json(AckPayload::Text(vec![])), Json::Array(vec![]));
    assert_eq!(
        payload_to_json(AckPayload::Binary(4)),
        sy_obj(vec![("binary_len", Json::Int(4))])
    );
    assert_eq!(
        payload_to_json(AckPayload::Raw { text: "x".to_owned(), parsed: None }),
        Json::string("x")
    );
    assert_eq!(
        payload_to_json(AckPayload::Raw { text: "1".to_owned(), parsed: Some(Json::Int(1)) }),
        Json::Int(1)
    );
}

#[test]
fn acks_give_data_or_error() {
    assert_eq!(
        read_ack("space:join", sy_obj(vec![("data", sy_obj(vec![("clientId", Json::string("c"))]))])),
        Ok(sy_obj(vec![("clientId", Json::string("c"))]))
    );
    assert_eq!(read_ack("e", Json::Int(3)), Ok(Json::Int(3)));
    assert_eq!(
        read_ack("e", sy_obj(vec![("error", Json::Null), ("data", Json::Null)])),
        Ok(Json::Null)
    );
    assert_eq!(
        read_ack("space:delete-doc", sy_obj(vec![("error", Json::string("denied"))])),
        Err(SyncError::AckFailed { event: "space:delete-doc".to_owned(), error: Json::string("denied") })
    );
}

#[test]
fn tag_acks_unwrap_one_element_arrays() {
    assert_eq!(
        read_ack_unwrapping("e", Json::Array(vec![sy_obj(vec![("data", Json::Int(5))])])),
        Ok(Json::Int(5))
    );
    assert_eq!(
        read_ack_unwrapping("e", Json::Array(vec![Json::Int(1), Json::Int(2)])),
        Ok(Json::Array(vec![Json::Int(1), Json::Int(2)]))
    );
    assert!(read_ack_unwrapping("e", sy_obj(vec![("error", Json::Bool(true))])).is_err());
}

#[test]
fn delete_timeouts_count_as_success() {
    assert!(is_timeout_message("timed out waiting for ack on space:delete-doc"));
    assert!(!is_timeout_message("timed"));
    assert!(!is_timeout_message("ack channel dropped"));
    assert_eq!(
        delete_ack_outcome(Err("timed out waiting for ack on space:delete-doc".to_owned())),
        Ok(Json::Null)
    );
    assert_eq!(
        delete_ack_outcome(Err("space:delete-doc failed: x".to_owned())),
        Err("space:delete-doc failed: x".to_owned())
    );
    assert_eq!(delete_ack_outcome(Ok(Json::Int(1))), Ok(Json::Int(1)));
}

#[test]
fn root_doc_prefers_missing_then_state() {
    assert_eq!(
        extract_doc_base64(sy_obj(vec![("missing", Json::string("M")), ("state", Json::string("S"))])),
        Ok(DocBinary { b64: "M".to_owned(), from_missing: true })
    );
    assert_eq!(
        extract_doc_base64(sy_obj(vec![("missing", Json::string("")), ("state", Json::string("S"))])),
        Ok(DocBinary { b64: "S".to_owned(), from_missing: false })
    );
    let empty = sy_obj(vec![("state", Json::string(""))]);
    assert_eq!(
        extract_doc_base64(sy_obj(vec![("state", Json::string(""))])),
        Err(SyncError::NoDocBinary { response: empty })
    );
}

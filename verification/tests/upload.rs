use affine_cli::json::Json;
use affine_cli::upload::{
    complete_upload_variables, completed_part, create_upload_variables, derive_blob_key,
    find_uploaded, multipart_report, multipart_upload_id, part_etag, part_size_of, part_target,
    part_url_variables, plan_parts, plan_upload, presigned_report, presigned_upload_id,
    presigned_url, resolve_mime, resolve_upload_mode, upload_headers, uploaded_parts,
    BlobUploadMode, PartTarget, UploadError, UploadStep, LARGE_BLOB_BYTES,
};

fn up_str(t: &str) -> Json {
    Json::Str(t.to_owned())
}

fn up_obj(fields: Vec<(&str, Json)>) -> Json {
    Json::Object(fields.into_iter().map(|(k, v)| (k.to_owned(), v)).collect())
}

#[test]
fn auto_mode_switches_at_five_mebibytes() {
    assert_eq!(LARGE_BLOB_BYTES, 5 * 1024 * 1024);
    assert_eq!(
        resolve_upload_mode(&BlobUploadMode::Auto, LARGE_BLOB_BYTES - 1),
        BlobUploadMode::Graphql
    );
    assert_eq!(
        resolve_upload_mode(&BlobUploadMode::Auto, LARGE_BLOB_BYTES),
        BlobUploadMode::Presigned
    );
    assert_eq!(resolve_upload_mode(&BlobUploadMode::Auto, 0), BlobUploadMode::Graphql);
}

#[test]
fn explicit_modes_are_kept() {
    assert_eq!(
        resolve_upload_mode(&BlobUploadMode::Multipart, 1),
        BlobUploadMode::Multipart
    );
    assert_eq!(
        resolve_upload_mode(&BlobUploadMode::Graphql, u64::MAX),
        BlobUploadMode::Graphql
    );
    assert_eq!(
        resolve_upload_mode(&BlobUploadMode::Presigned, 3),
        BlobUploadMode::Presigned
    );
}

#[test]
fn blob_key_prefers_explicit_then_file_name() {
    assert_eq!(
        derive_blob_key(Some("k".to_owned()), Some("f.png".to_owned())),
        Ok("k".to_owned())
    );
    assert_eq!(derive_blob_key(None, Some("f.png".to_owned())), Ok("f.png".to_owned()));
    let err = derive_blob_key(None, None).unwrap_err();
    assert_eq!(err, UploadError::NoBlobKey);
    assert_eq!(err.message(), "unable to derive a blob key; pass --key");
}

#[test]
fn mime_is_explicit_or_guessed_from_extension() {
    assert_eq!(resolve_mime(Some("text/x".to_owned()), "a.png"), "text/x");
    assert_eq!(resolve_mime(None, "./image.png"), "image/png");
    assert_eq!(resolve_mime(None, "notes.txt"), "text/plain");
    assert_eq!(resolve_mime(None, "README"), "application/octet-stream");
}

#[test]
fn plan_reports_already_uploaded_blob() {
    let data = up_obj(vec![(
        "createBlobUpload",
        up_obj(vec![("alreadyUploaded", Json::Bool(true)), ("blobKey", up_str("srv"))]),
    )]);
    let step = plan_upload(BlobUploadMode::Auto, BlobUploadMode::Presigned, "k".to_owned(), data)
        .unwrap();
    assert_eq!(
        step,
        UploadStep::AlreadyUploaded {
            report: up_obj(vec![("key", up_str("srv")), ("alreadyUploaded", Json::Bool(true))])
        }
    );
    let data = up_obj(vec![(
        "createBlobUpload",
        up_obj(vec![("alreadyUploaded", Json::Bool(true))]),
    )]);
    let step = plan_upload(BlobUploadMode::Auto, BlobUploadMode::Presigned, "k".to_owned(), data)
        .unwrap();
    assert_eq!(
        step,
        UploadStep::AlreadyUploaded {
            report: up_obj(vec![("key", up_str("k")), ("alreadyUploaded", Json::Bool(true))])
        }
    );
}

#[test]
fn plan_needs_payload_and_method() {
    let err = plan_upload(
        BlobUploadMode::Auto,
        BlobUploadMode::Presigned,
        "k".to_owned(),
        up_obj(vec![]),
    )
    .unwrap_err();
    assert_eq!(err, UploadError::NoCreatePayload);
    assert_eq!(err.message(), "createBlobUpload returned no payload");
    let data = up_obj(vec![("createBlobUpload", up_obj(vec![]))]);
    let err = plan_upload(BlobUploadMode::Auto, BlobUploadMode::Presigned, "k".to_owned(), data)
        .unwrap_err();
    assert_eq!(err, UploadError::NoMethod);
    assert_eq!(err.message(), "createBlobUpload response missing `method`");
}

#[test]
fn graphql_downgrade_falls_back_for_auto_only() {
    let data = || up_obj(vec![("createBlobUpload", up_obj(vec![("method", up_str("GRAPHQL"))]))]);
    assert_eq!(
        plan_upload(BlobUploadMode::Auto, BlobUploadMode::Presigned, "k".to_owned(), data()),
        Ok(UploadStep::Graphql)
    );
    let err = plan_upload(
        BlobUploadMode::Presigned,
        BlobUploadMode::Presigned,
        "k".to_owned(),
        data(),
    )
    .unwrap_err();
    assert_eq!(err, UploadError::GraphqlOnly);
    assert_eq!(
        err.message(),
        "server responded with upload method GRAPHQL; rerun with `--mode graphql` or `auto`"
    );
    assert_eq!(
        plan_upload(BlobUploadMode::Multipart, BlobUploadMode::Multipart, "k".to_owned(), data()),
        Err(UploadError::GraphqlOnly)
    );
}

#[test]
fn plan_picks_presigned_or_multipart() {
    let init = up_obj(vec![("method", up_str("MULTIPART")), ("blobKey", up_str("b"))]);
    let data = up_obj(vec![("createBlobUpload", up_obj(vec![("method", up_str("MULTIPART")), ("blobKey", up_str("b"))]))]);
    assert_eq!(
        plan_upload(BlobUploadMode::Auto, BlobUploadMode::Presigned, "k".to_owned(), data),
        Ok(UploadStep::Multipart { blob_key: "b".to_owned(), init })
    );
    let init = up_obj(vec![("method", up_str("PRESIGNED"))]);
    let data = up_obj(vec![("createBlobUpload", up_obj(vec![("method", up_str("PRESIGNED"))]))]);
    assert_eq!(
        plan_upload(BlobUploadMode::Auto, BlobUploadMode::Presigned, "k".to_owned(), data),
        Ok(UploadStep::Presigned { blob_key: "k".to_owned(), init })
    );
    let init = up_obj(vec![("method", up_str("PRESIGNED"))]);
    let data = up_obj(vec![("createBlobUpload", up_obj(vec![("method", up_str("PRESIGNED"))]))]);
    assert_eq!(
        plan_upload(BlobUploadMode::Multipart, BlobUploadMode::Multipart, "k".to_owned(), data),
        Ok(UploadStep::Multipart { blob_key: "k".to_owned(), init })
    );
}

#[test]
fn plan_fields_are_read() {
    let init = up_obj(vec![
        ("uploadUrl", up_str("https://s3/x")),
        ("uploadId", up_str("u1")),
        ("partSize", Json::Int(4)),
        ("headers", up_obj(vec![("Content-Type", up_str("image/png"))])),
    ]);
    assert_eq!(presigned_url(&init), Ok("https://s3/x".to_owned()));
    assert_eq!(multipart_upload_id(&init), Ok("u1".to_owned()));
    assert_eq!(part_size_of(&init), Ok(4));
    assert_eq!(presigned_upload_id(&init), up_str("u1"));
    assert_eq!(
        upload_headers(&init),
        Some(up_obj(vec![("Content-Type", up_str("image/png"))]))
    );
    let empty = up_obj(vec![]);
    assert_eq!(presigned_url(&empty), Err(UploadError::NoPresignedUrl));
    assert_eq!(
        UploadError::NoPresignedUrl.message(),
        "createBlobUpload/PRESIGNED response missing uploadUrl"
    );
    assert_eq!(multipart_upload_id(&empty), Err(UploadError::NoUploadId));
    assert_eq!(
        UploadError::NoUploadId.message(),
        "createBlobUpload/MULTIPART missing uploadId"
    );
    assert_eq!(part_size_of(&empty), Ok(8 * 1024 * 1024));
    assert_eq!(presigned_upload_id(&empty), Json::Null);
    assert_eq!(upload_headers(&empty), None);
}

#[test]
fn zero_part_size_is_refused() {
    let init = up_obj(vec![("partSize", Json::Int(0))]);
    assert_eq!(part_size_of(&init), Err(UploadError::ZeroPartSize));
    assert_eq!(UploadError::ZeroPartSize.message(), "server returned partSize=0");
}

#[test]
fn uploaded_parts_keep_complete_entries() {
    let init = up_obj(vec![(
        "uploadedParts",
        Json::Array(vec![
            up_obj(vec![("partNumber", Json::Int(1)), ("etag", up_str("e1"))]),
            up_obj(vec![("partNumber", Json::Int(2))]),
            up_obj(vec![("partNumber", Json::Int(3)), ("etag", up_str("e3"))]),
            up_obj(vec![("partNumber", Json::Int(1)), ("etag", up_str("e1b"))]),
        ]),
    )]);
    let parts = uploaded_parts(&init);
    assert_eq!(
        parts,
        vec![(1, "e1".to_owned()), (3, "e3".to_owned()), (1, "e1b".to_owned())]
    );
    assert_eq!(find_uploaded(&parts, 1), Some("e1b".to_owned()));
    assert_eq!(find_uploaded(&parts, 2), None);
    assert_eq!(find_uploaded(&parts, 3), Some("e3".to_owned()));
}

#[test]
fn parts_tile_the_file() {
    let uploaded = vec![(2, "etag-2".to_owned())];
    let parts = plan_parts(10, 4, &uploaded);
    let bounds: Vec<(i64, usize, usize)> =
        parts.iter().map(|p| (p.part_number, p.start, p.end)).collect();
    assert_eq!(bounds, vec![(1, 0, 4), (2, 4, 8), (3, 8, 10)]);
    assert_eq!(parts[0].uploaded_etag, None);
    assert_eq!(parts[1].uploaded_etag, Some("etag-2".to_owned()));
    assert_eq!(parts[2].uploaded_etag, None);
}

#[test]
fn exact_multiple_and_empty_file() {
    let parts = plan_parts(8, 4, &vec![]);
    let bounds: Vec<(usize, usize)> = parts.iter().map(|p| (p.start, p.end)).collect();
    assert_eq!(bounds, vec![(0, 4), (4, 8)]);
    assert!(plan_parts(0, 4, &vec![]).is_empty());
    let one = plan_parts(3, 8 * 1024 * 1024, &vec![]);
    assert_eq!(one.len(), 1);
    assert_eq!((one[0].start, one[0].end), (0, 3));
}

#[test]
fn upload_variables_are_built() {
    assert_eq!(
        create_upload_variables("w", "k", "image/png", 7),
        up_obj(vec![
            ("workspaceId", up_str("w")),
            ("key", up_str("k")),
            ("mime", up_str("image/png")),
            ("size", Json::Int(7)),
        ])
    );
    assert_eq!(
        complete_upload_variables("w", "k", Json::Null, Json::Null),
        up_obj(vec![
            ("workspaceId", up_str("w")),
            ("key", up_str("k")),
            ("uploadId", Json::Null),
            ("parts", Json::Null),
        ])
    );
    assert_eq!(
        completed_part(2, "e"),
        up_obj(vec![("partNumber", Json::Int(2)), ("etag", up_str("e"))])
    );
    assert_eq!(
        part_url_variables("w", "k", "u", 3),
        up_obj(vec![
            ("workspaceId", up_str("w")),
            ("key", up_str("k")),
            ("uploadId", up_str("u")),
            ("partNumber", Json::Int(3)),
        ])
    );
}

#[test]
fn part_target_reads_url_and_headers() {
    let resp = up_obj(vec![(
        "workspace",
        up_obj(vec![(
            "blobUploadPartUrl",
            up_obj(vec![("uploadUrl", up_str("https://p/1")), ("headers", up_obj(vec![]))]),
        )]),
    )]);
    assert_eq!(
        part_target(&resp),
        Ok(PartTarget { url: "https://p/1".to_owned(), headers: Some(up_obj(vec![])) })
    );
    let no_payload = up_obj(vec![("workspace", up_obj(vec![]))]);
    assert_eq!(part_target(&no_payload), Err(UploadError::NoPartUrlPayload));
    assert_eq!(
        UploadError::NoPartUrlPayload.message(),
        "blobUploadPartUrl returned no payload"
    );
    let no_url = up_obj(vec![("workspace", up_obj(vec![("blobUploadPartUrl", up_obj(vec![]))]))]);
    assert_eq!(part_target(&no_url), Err(UploadError::NoPartUrl));
    assert_eq!(UploadError::NoPartUrl.message(), "blobUploadPartUrl missing uploadUrl");
}

#[test]
fn part_etag_is_required() {
    assert_eq!(part_etag(Some("e".to_owned())), Ok("e".to_owned()));
    assert_eq!(part_etag(None), Err(UploadError::NoPartEtag));
    assert_eq!(
        UploadError::NoPartEtag.message(),
        "presigned PUT returned no ETag; cannot complete multipart"
    );
}

#[test]
fn upload_reports_are_built() {
    assert_eq!(
        presigned_report("k", 200, Some("e"), Json::Bool(true)),
        up_obj(vec![
            ("mode", up_str("presigned")),
            ("key", up_str("k")),
            ("presignedStatus", Json::Int(200)),
            ("etag", up_str("e")),
            ("complete", Json::Bool(true)),
        ])
    );
    assert_eq!(
        presigned_report("k", 201, None, Json::Null),
        up_obj(vec![
            ("mode", up_str("presigned")),
            ("key", up_str("k")),
            ("presignedStatus", Json::Int(201)),
            ("etag", Json::Null),
            ("complete", Json::Null),
        ])
    );
    assert_eq!(
        multipart_report("k", "u", 3, Json::Null),
        up_obj(vec![
            ("mode", up_str("multipart")),
            ("key", up_str("k")),
            ("uploadId", up_str("u")),
            ("parts", Json::Int(3)),
            ("complete", Json::Null),
        ])
    );
}

#[test]
fn resolving_twice_changes_nothing() {
    let once = resolve_upload_mode(&BlobUploadMode::Auto, 10);
    assert_eq!(resolve_upload_mode(&once, u64::MAX), once);
    let once = resolve_upload_mode(&BlobUploadMode::Auto, u64::MAX);
    assert_eq!(resolve_upload_mode(&once, 0), once);
}

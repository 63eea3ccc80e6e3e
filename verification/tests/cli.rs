use affine_cli::cli::{
    analytics_variables, client_settings, delete_blob_variables, doc_list_variables,
    login_password, logout_cookies, oauth_authorize_url, publish_variables, query_source,
    resolve_server, resolved_auth, role_change_variables, search_variables,
    token_create_variables, urlencoding_encode, workspace_update_variables, CliContext,
    CliError, DocRole, PublicDocMode, QuerySource, RoleChange, WorkspaceUpdate,
};
use affine_cli::client::AuthState;
use affine_cli::config::ConfigFile;
use affine_cli::cookies::CookieJar;
use affine_cli::json::Json;

fn ci_obj(fields: Vec<(&str, Json)>) -> Json {
    Json::Object(fields.into_iter().map(|(k, v)| (k.to_owned(), v)).collect())
}

fn ci_s(t: &str) -> Json {
    Json::Str(t.to_owned())
}

fn ci_ctx(server: Option<&str>, token: Option<&str>) -> CliContext {
    CliContext {
        server: server.map(str::to_owned),
        token: token.map(str::to_owned),
        client_version: "0.25.0".to_owned(),
    }
}

fn ci_config(server: Option<&str>, cookies: &[(&str, &str)]) -> ConfigFile {
    let mut config = ConfigFile::new();
    config.server = server.map(str::to_owned);
    for (k, v) in cookies {
        config.cookies.insert((*k).to_owned(), (*v).to_owned());
    }
    config
}

#[test]
fn server_comes_from_flag_then_config() {
    assert_eq!(resolve_server(Some("a"), Some("b")), Ok("a".to_owned()));
    assert_eq!(resolve_server(None, Some("b")), Ok("b".to_owned()));
    let err = resolve_server(None, None).unwrap_err();
    assert_eq!(err, CliError::NoServer);
    assert_eq!(
        err.message(),
        "no AFFiNE server configured; pass --server or run `affine-cli auth login`"
    );
}

#[test]
fn token_beats_saved_cookies() {
    let config = ci_config(Some("s"), &[("affine_session", "x")]);
    assert_eq!(
        resolved_auth(&ci_ctx(None, Some("tok")), &config),
        AuthState::Bearer("tok".to_owned())
    );
    match resolved_auth(&ci_ctx(None, None), &config) {
        AuthState::Cookies(c) => assert_eq!(c, config.cookies),
        other => panic!("unexpected {other:?}"),
    }
    assert_eq!(resolved_auth(&ci_ctx(None, None), &ConfigFile::new()), AuthState::NoAuth);
}

#[test]
fn client_needs_server_and_credentials() {
    let err = client_settings(&ci_ctx(None, Some("t")), &ConfigFile::new()).unwrap_err();
    assert_eq!(err, CliError::NoServer);
    let err = client_settings(&ci_ctx(Some("https://x"), None), &ConfigFile::new()).unwrap_err();
    assert_eq!(err, CliError::NoAuth);
    assert_eq!(
        err.message(),
        "no authentication configured; pass --token or run `affine-cli auth login` first"
    );
    let s = client_settings(&ci_ctx(None, Some("t")), &ci_config(Some("https://saved"), &[]))
        .unwrap();
    assert_eq!(s.server, "https://saved");
    assert_eq!(s.client_version, "0.25.0");
    assert_eq!(s.auth, AuthState::Bearer("t".to_owned()));
}

#[test]
fn login_flow_needs_password_or_magic_link() {
    assert_eq!(login_password(true, Some("pw".to_owned())), Ok(None));
    assert_eq!(login_password(false, Some("pw".to_owned())), Ok(Some("pw".to_owned())));
    let err = login_password(false, None).unwrap_err();
    assert_eq!(err, CliError::NoLoginFlow);
    assert_eq!(err.message(), "pass `--password PW` or `--magic-link` to choose an auth flow");
}

#[test]
fn logout_needs_a_session_or_token() {
    let config = ci_config(None, &[]);
    let err = logout_cookies(&AuthState::NoAuth, &config).unwrap_err();
    assert_eq!(err, CliError::NoSession);
    assert_eq!(err.message(), "no saved session found; sign in first or pass --token");
    assert_eq!(
        logout_cookies(&AuthState::Bearer("t".to_owned()), &config),
        Ok(CookieJar::new())
    );
    let saved = ci_config(None, &[("affine_session", "s")]);
    assert_eq!(logout_cookies(&AuthState::NoAuth, &saved), Ok(saved.cookies.duplicate()));
}

#[test]
fn percent_encoding_keeps_unreserved_bytes() {
    assert_eq!(urlencoding_encode("google"), "google");
    assert_eq!(urlencoding_encode("a-b_c.d~e"), "a-b_c.d~e");
    assert_eq!(urlencoding_encode("a b&c/é"), "a%20b%26c%2F%C3%A9");
    assert_eq!(urlencoding_encode(""), "");
}

#[test]
fn percent_encoding_round_trips() {
    let text = "https://example.com/cb?x=1&y=ü z";
    let encoded = urlencoding_encode(text);
    assert!(encoded
        .chars()
        .all(|c| c == '%' || c.is_ascii_alphanumeric() || "-_.~".contains(c)));
    let bytes = encoded.as_bytes();
    let mut decoded = Vec::new();
    let mut i = 0;
    while i < bytes.len() {
        if bytes[i] == b'%' {
            let hex = std::str::from_utf8(&bytes[i + 1..i + 3]).unwrap();
            decoded.push(u8::from_str_radix(hex, 16).unwrap());
            i += 3;
        } else {
            decoded.push(bytes[i]);
            i += 1;
        }
    }
    assert_eq!(decoded, text.as_bytes());
}

#[test]
fn oauth_url_encodes_provider_and_callback() {
    assert_eq!(
        oauth_authorize_url("https://x.io", "google", None),
        "https://x.io/api/oauth/authorize?provider=google"
    );
    assert_eq!(
        oauth_authorize_url("https://x.io", "git hub", Some("https://e.com/cb")),
        "https://x.io/api/oauth/authorize?provider=git%20hub&redirect_uri=https%3A%2F%2Fe.com%2Fcb"
    );
}

#[test]
fn modes_and_roles_have_graphql_names() {
    assert_eq!(PublicDocMode::Page.as_graphql(), "Page");
    assert_eq!(PublicDocMode::Edgeless.as_graphql(), "Edgeless");
    let names: Vec<&str> = [
        DocRole::Owner,
        DocRole::Manager,
        DocRole::Editor,
        DocRole::Reader,
        DocRole::Commenter,
        DocRole::External,
        DocRole::NoRole,
    ]
    .iter()
    .map(|r| r.as_graphql())
    .collect();
    assert_eq!(names, vec!["Owner", "Manager", "Editor", "Reader", "Commenter", "External", "None"]);
}

#[test]
fn workspace_update_lists_given_settings() {
    let none = WorkspaceUpdate {
        public: None,
        enable_ai: None,
        enable_sharing: None,
        enable_url_preview: None,
        enable_doc_embedding: None,
    };
    let err = workspace_update_variables("w", &none).unwrap_err();
    assert_eq!(err, CliError::NoUpdateFields);
    assert_eq!(err.message(), "no update fields were provided");
    let some = WorkspaceUpdate { public: Some(false), enable_ai: Some(true), ..none };
    assert_eq!(
        workspace_update_variables("w", &some),
        Ok(ci_obj(vec![(
            "input",
            ci_obj(vec![
                ("id", ci_s("w")),
                ("public", Json::Bool(false)),
                ("enableAi", Json::Bool(true)),
            ])
        )]))
    );
}

#[test]
fn token_and_analytics_variables() {
    assert_eq!(
        token_create_variables("ci", Some("2027-01-01T00:00:00Z")),
        ci_obj(vec![(
            "input",
            ci_obj(vec![("name", ci_s("ci")), ("expiresAt", ci_s("2027-01-01T00:00:00Z"))])
        )])
    );
    assert_eq!(
        token_create_variables("ci", None),
        ci_obj(vec![("input", ci_obj(vec![("name", ci_s("ci"))]))])
    );
    assert_eq!(
        analytics_variables("w", "d", None, None),
        ci_obj(vec![("workspaceId", ci_s("w")), ("docId", ci_s("d")), ("input", Json::Null)])
    );
    assert_eq!(
        analytics_variables("w", "d", Some(30), Some("Europe/London")),
        ci_obj(vec![
            ("workspaceId", ci_s("w")),
            ("docId", ci_s("d")),
            (
                "input",
                ci_obj(vec![("windowDays", Json::Int(30)), ("timezone", ci_s("Europe/London"))])
            ),
        ])
    );
}

#[test]
fn doc_variables_are_built() {
    assert_eq!(
        doc_list_variables("w", 20, None, 0),
        ci_obj(vec![
            ("workspaceId", ci_s("w")),
            (
                "pagination",
                ci_obj(vec![("first", Json::Int(20)), ("after", Json::Null), ("offset", Json::Int(0))])
            ),
        ])
    );
    assert_eq!(
        publish_variables("w", "d", Some(PublicDocMode::Edgeless)),
        ci_obj(vec![("workspaceId", ci_s("w")), ("docId", ci_s("d")), ("mode", ci_s("Edgeless"))])
    );
    assert_eq!(
        publish_variables("w", "d", None),
        ci_obj(vec![("workspaceId", ci_s("w")), ("docId", ci_s("d")), ("mode", Json::Null)])
    );
    assert_eq!(
        search_variables("w", "kw", 5),
        ci_obj(vec![
            ("id", ci_s("w")),
            ("input", ci_obj(vec![("keyword", ci_s("kw")), ("limit", Json::Int(5))])),
        ])
    );
    assert_eq!(
        delete_blob_variables("w", "k", true),
        ci_obj(vec![("workspaceId", ci_s("w")), ("key", ci_s("k")), ("permanently", Json::Bool(true))])
    );
}

#[test]
fn role_changes_build_inputs() {
    let base = |extra: Vec<(&str, Json)>| {
        let mut f = vec![("workspaceId", ci_s("w")), ("docId", ci_s("d"))];
        f.extend(extra);
        ci_obj(vec![("input", ci_obj(f))])
    };
    assert_eq!(
        role_change_variables(
            "w",
            "d",
            RoleChange::Grant { users: vec!["U1".to_owned(), "U2".to_owned()], role: DocRole::Editor }
        ),
        base(vec![
            ("userIds", Json::Array(vec![ci_s("U1"), ci_s("U2")])),
            ("role", ci_s("Editor")),
        ])
    );
    assert_eq!(
        role_change_variables("w", "d", RoleChange::Update { user: "U1".to_owned(), role: DocRole::Reader }),
        base(vec![("userId", ci_s("U1")), ("role", ci_s("Reader"))])
    );
    assert_eq!(
        role_change_variables("w", "d", RoleChange::Revoke { user: "U1".to_owned() }),
        base(vec![("userId", ci_s("U1"))])
    );
    assert_eq!(
        role_change_variables("w", "d", RoleChange::Default { role: DocRole::NoRole }),
        base(vec![("role", ci_s("None"))])
    );
}

#[test]
fn raw_query_needs_exactly_one_source() {
    assert_eq!(query_source(Some("q".to_owned()), None), Ok(QuerySource::Inline("q".to_owned())));
    assert_eq!(query_source(None, Some("f".to_owned())), Ok(QuerySource::File("f".to_owned())));
    let err = query_source(None, None).unwrap_err();
    assert_eq!(err, CliError::QuerySource);
    assert_eq!(err.message(), "pass exactly one of --query or --query-file");
    assert_eq!(query_source(Some("q".to_owned()), Some("f".to_owned())), Err(CliError::QuerySource));
}

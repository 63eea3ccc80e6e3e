//! What the command-line front end decides: which server and credentials to
//! use, which sign-in flow to run, and the variables of its GraphQL requests.
use vstd::prelude::*;
use vstd::string::StringSliceAdditionalSpecFns;
use crate::client::AuthState;
use crate::config::ConfigFile;
use crate::cookies::CookieJar;
use crate::json::{Json, JsonV, field_of, field_views, push_field, push_item, set_field, set_field_in, views_of};
use crate::text::{digit_char, push_char, push_str};

verus! {

/// The options of the command line that every command shares.
#[derive(Debug, PartialEq)]
pub struct CliContext {
    pub server: Option<String>,
    pub token: Option<String>,
    pub client_version: String,
}

/// Why a command could not run.
#[derive(Debug, PartialEq)]
pub enum CliError {
    /// No server was given or saved.
    NoServer,
    /// No token was given and no session is saved.
    NoAuth,
    /// Signing out needs a saved session or a token.
    NoSession,
    /// Signing in needs a password or a magic link.
    NoLoginFlow,
    /// A workspace update named no field.
    NoUpdateFields,
    /// Exactly one of `--query` and `--query-file` is needed.
    QuerySource,
}

/// The text that describes a command-line error.
pub open spec fn cli_error_text(e: CliError) -> Seq<char> {
    match e {
        CliError::NoServer =>
            "no AFFiNE server configured; pass --server or run `affine-cli auth login`"@,
        CliError::NoAuth =>
            "no authentication configured; pass --token or run `affine-cli auth login` first"@,
        CliError::NoSession => "no saved session found; sign in first or pass --token"@,
        CliError::NoLoginFlow => "pass `--password PW` or `--magic-link` to choose an auth flow"@,
        CliError::NoUpdateFields => "no update fields were provided"@,
        CliError::QuerySource => "pass exactly one of --query or --query-file"@,
    }
}

impl CliError {
    /// The text that describes the error.
    pub fn message(&self) -> (r: String)
        ensures
            r@ == cli_error_text(*self),
    {
        match self {
            CliError::NoServer =>
                "no AFFiNE server configured; pass --server or run `affine-cli auth login`".to_owned(),
            CliError::NoAuth =>
                "no authentication configured; pass --token or run `affine-cli auth login` first".to_owned(),
            CliError::NoSession => "no saved session found; sign in first or pass --token".to_owned(),
            CliError::NoLoginFlow => "pass `--password PW` or `--magic-link` to choose an auth flow".to_owned(),
            CliError::NoUpdateFields => "no update fields were provided".to_owned(),
            CliError::QuerySource => "pass exactly one of --query or --query-file".to_owned(),
        }
    }
}

/// The server to use: the one given on the command line, else the saved one.
pub fn resolve_server(cli_server: Option<&str>, config_server: Option<&str>) -> (r: Result<
    String,
    CliError,
>)
    ensures
        match cli_server {
            Some(s) => r matches Ok(t) && t@ == s@,
            None => match config_server {
                Some(s) => r matches Ok(t) && t@ == s@,
                None => r matches Err(CliError::NoServer),
            },
        },
{
    match cli_server {
        Some(s) => Ok(s.to_owned()),
        None => match config_server {
            Some(s) => Ok(s.to_owned()),
            None => Err(CliError::NoServer),
        },
    }
}

/// The credentials to use: the token given on the command line, else the saved
/// cookies when there are any, else none.
pub open spec fn resolved_auth_ok(cli: CliContext, config: ConfigFile, a: AuthState) -> bool {
    match cli.token {
        Some(t) => a matches AuthState::Bearer(b) && b@ == t@,
        None => if config.cookies@ == Map::<Seq<char>, Seq<char>>::empty() {
            a is NoAuth
        } else {
            a matches AuthState::Cookies(c) && c@ == config.cookies@
        },
    }
}

/// The credentials to use: the token given on the command line, else the saved
/// cookies when there are any, else none.
pub fn resolved_auth(cli: &CliContext, config: &ConfigFile) -> (r: AuthState)
    ensures
        resolved_auth_ok(*cli, *config, r),
{
    if let Some(token) = &cli.token {
        AuthState::Bearer(token.clone())
    } else if !config.cookies.is_empty() {
        AuthState::Cookies(config.cookies.duplicate())
    } else {
        AuthState::NoAuth
    }
}

/// Where and how an authenticated client connects.
#[derive(Debug, PartialEq)]
pub struct ClientSettings {
    pub server: String,
    pub client_version: String,
    pub auth: AuthState,
}

/// The settings of a client for commands that need credentials: the server,
/// and credentials that must be there.
pub fn client_settings(cli: &CliContext, config: &ConfigFile) -> (r: Result<ClientSettings, CliError>)
    ensures
        match (cli.server, config.server) {
            (None, None) => r matches Err(CliError::NoServer),
            _ => if cli.token is None && config.cookies@ == Map::<Seq<char>, Seq<char>>::empty() {
                r matches Err(CliError::NoAuth)
            } else {
                r matches Ok(s) && s.server@ == (match cli.server {
                    Some(x) => x@,
                    None => config.server->0@,
                }) && s.client_version@ == cli.client_version@ && resolved_auth_ok(
                    *cli,
                    *config,
                    s.auth,
                )
            },
        },
{
    let cli_server = match &cli.server {
        Some(s) => Some(s.as_str()),
        None => None,
    };
    let config_server = match &config.server {
        Some(s) => Some(s.as_str()),
        None => None,
    };
    let server = resolve_server(cli_server, config_server)?;
    let auth = resolved_auth(cli, config);
    if let AuthState::NoAuth = auth {
        return Err(CliError::NoAuth);
    }
    Ok(ClientSettings { server, client_version: cli.client_version.clone(), auth })
}

/// The password to sign in with: none for a magic link (even when a password
/// was given), the password when one was given; otherwise no flow was chosen.
pub fn login_password(magic_link: bool, password: Option<String>) -> (r: Result<
    Option<String>,
    CliError,
>)
    ensures
        if magic_link {
            r matches Ok(p) && p is None
        } else {
            match password {
                Some(p) => r matches Ok(Some(q)) && q@ == p@,
                None => r matches Err(CliError::NoLoginFlow),
            }
        },
{
    if magic_link {
        Ok(None)
    } else if let Some(p) = password {
        Ok(Some(p))
    } else {
        Err(CliError::NoLoginFlow)
    }
}

/// The cookies to send with a sign-out: those of the credentials when they are
/// cookies, else the saved ones; with neither cookies nor a token there is no
/// session to end.
pub fn logout_cookies(auth: &AuthState, config: &ConfigFile) -> (r: Result<CookieJar, CliError>)
    ensures
        ({
            let existing = match auth {
                AuthState::Cookies(c) => c@,
                _ => config.cookies@,
            };
            if existing == Map::<Seq<char>, Seq<char>>::empty() && !(auth is Bearer) {
                r matches Err(CliError::NoSession)
            } else {
                r matches Ok(c) && c@ == existing
            }
        }),
{
    let existing = match auth {
        AuthState::Cookies(c) => c.duplicate(),
        _ => config.cookies.duplicate(),
    };
    let bearer = match auth {
        AuthState::Bearer(_) => true,
        _ => false,
    };
    if existing.is_empty() && !bearer {
        return Err(CliError::NoSession);
    }
    Ok(existing)
}

// ---------------------------------------------------------------------------
// Percent-encoding
// ---------------------------------------------------------------------------

/// A byte that percent-encoding leaves as it is: ASCII letters and digits and
/// `-`, `_`, `.`, `~`.
pub open spec fn unreserved(b: u8) -> bool {
    ||| 65 <= b <= 90
    ||| 97 <= b <= 122
    ||| 48 <= b <= 57
    ||| b == 45
    ||| b == 95
    ||| b == 46
    ||| b == 126
}

/// An upper-case hexadecimal digit.
pub open spec fn hex_digit(d: nat) -> char {
    if d < 10 {
        digit_char(d)
    } else if d == 10 {
        'A'
    } else if d == 11 {
        'B'
    } else if d == 12 {
        'C'
    } else if d == 13 {
        'D'
    } else if d == 14 {
        'E'
    } else {
        'F'
    }
}

/// One byte, percent-encoded: itself when unreserved, else `%` and two
/// upper-case hexadecimal digits.
pub open spec fn encode_byte(b: u8) -> Seq<char> {
    if unreserved(b) {
        seq![b as char]
    } else {
        seq!['%', hex_digit((b / 16) as nat), hex_digit((b % 16) as nat)]
    }
}

/// Bytes, percent-encoded one by one.
pub open spec fn encode_bytes(bs: Seq<u8>) -> Seq<char>
    decreases bs.len(),
{
    if bs.len() == 0 {
        Seq::empty()
    } else {
        encode_bytes(bs.drop_last()) + encode_byte(bs.last())
    }
}

fn hex(d: u8) -> (c: char)
    requires
        d < 16,
    ensures
        c == hex_digit(d as nat),
{
    if d == 0 {
        '0'
    } else if d == 1 {
        '1'
    } else if d == 2 {
        '2'
    } else if d == 3 {
        '3'
    } else if d == 4 {
        '4'
    } else if d == 5 {
        '5'
    } else if d == 6 {
        '6'
    } else if d == 7 {
        '7'
    } else if d == 8 {
        '8'
    } else if d == 9 {
        '9'
    } else if d == 10 {
        'A'
    } else if d == 11 {
        'B'
    } else if d == 12 {
        'C'
    } else if d == 13 {
        'D'
    } else if d == 14 {
        'E'
    } else {
        'F'
    }
}

/// Percent-encodes the UTF-8 bytes of `value` for a URL query.
pub fn urlencoding_encode(value: &str) -> (r: String)
    ensures
        r@ == encode_bytes(value.spec_bytes()),
{
    let bytes = value.as_bytes();
    let mut out = String::new();
    let mut i: usize = 0;
    while i < bytes.len()
        invariant
            bytes@ == value.spec_bytes(),
            0 <= i <= bytes@.len(),
            out@ == encode_bytes(bytes@.take(i as int)),
        decreases bytes.len() - i,
    {
        let b = bytes[i];
        let ghost before = out@;
        if (65 <= b && b <= 90) || (97 <= b && b <= 122) || (48 <= b && b <= 57) || b == 45 || b
            == 95 || b == 46 || b == 126 {
            push_char(&mut out, b as char);
        } else {
            push_char(&mut out, '%');
            push_char(&mut out, hex(b / 16));
            push_char(&mut out, hex(b % 16));
        }
        proof {
            assert(bytes@.take(i + 1).drop_last() =~= bytes@.take(i as int));
            assert(bytes@.take(i + 1).last() == b);
            assert(out@ =~= before + encode_byte(b));
        }
        i += 1;
    }
    proof {
        assert(bytes@.take(i as int) =~= bytes@);
    }
    out
}

/// The value of an upper-case hexadecimal digit.
pub open spec fn hex_value(c: char) -> nat {
    if c == '0' {
        0
    } else if c == '1' {
        1
    } else if c == '2' {
        2
    } else if c == '3' {
        3
    } else if c == '4' {
        4
    } else if c == '5' {
        5
    } else if c == '6' {
        6
    } else if c == '7' {
        7
    } else if c == '8' {
        8
    } else if c == '9' {
        9
    } else if c == 'A' {
        10
    } else if c == 'B' {
        11
    } else if c == 'C' {
        12
    } else if c == 'D' {
        13
    } else if c == 'E' {
        14
    } else {
        15
    }
}

/// Percent-decoding: `%` and two hexadecimal digits stand for one byte, any
/// other character for its own code.
pub open spec fn percent_decode(s: Seq<char>) -> Seq<u8>
    decreases s.len(),
{
    if s.len() == 0 {
        Seq::empty()
    } else if s[0] == '%' && s.len() >= 3 {
        seq![(hex_value(s[1]) * 16 + hex_value(s[2])) as u8] + percent_decode(s.skip(3))
    } else {
        seq![s[0] as u8] + percent_decode(s.skip(1))
    }
}

/// A character that may stand in a URL query value without ending it: an
/// unreserved ASCII character or the `%` of an escape.
pub open spec fn query_safe(c: char) -> bool {
    c == '%' || unreserved(c as u8) && (c as u32) < 128
}

proof fn lemma_encode_front(bs: Seq<u8>)
    requires
        bs.len() > 0,
    ensures
        encode_bytes(bs) == encode_byte(bs[0]) + encode_bytes(bs.drop_first()),
    decreases bs.len(),
{
    if bs.len() == 1 {
        assert(bs.drop_last() =~= Seq::<u8>::empty());
        assert(bs.drop_first() =~= Seq::<u8>::empty());
        assert(encode_bytes(bs.drop_last()) == Seq::<char>::empty());
        assert(encode_bytes(bs.drop_first()) == Seq::<char>::empty());
        assert(encode_bytes(bs) == encode_bytes(bs.drop_last()) + encode_byte(bs.last()));
        assert(encode_bytes(bs) =~= encode_byte(bs[0]));
        assert(encode_byte(bs[0]) + encode_bytes(bs.drop_first()) =~= encode_byte(bs[0]));
    } else {
        let d = bs.drop_last();
        lemma_encode_front(d);
        assert(d.drop_first() =~= bs.drop_first().drop_last());
        assert(bs.drop_first().last() == bs.last());
        assert(d[0] == bs[0]);
        assert(encode_bytes(bs) =~= encode_byte(bs[0]) + encode_bytes(bs.drop_first()));
    }
}

proof fn lemma_hex_digit_value(d: nat)
    requires
        d < 16,
    ensures
        hex_value(hex_digit(d)) == d,
        query_safe(hex_digit(d)),
        hex_digit(d) != '%',
{
}

proof fn lemma_byte_char(b: u8)
    ensures
        (b as char) as u8 == b,
        ((b as char) as u32) == b,
{
}

/// Percent-encoding loses nothing: decoding the encoded text gives back the
/// bytes.
pub proof fn law_percent_encoding_round_trip(bs: Seq<u8>)
    ensures
        percent_decode(encode_bytes(bs)) == bs,
    decreases bs.len(),
{
    if bs.len() == 0 {
        assert(encode_bytes(bs) =~= Seq::<char>::empty());
        assert(bs =~= Seq::<u8>::empty());
    } else {
        lemma_encode_front(bs);
        let b = bs[0];
        let rest = bs.drop_first();
        law_percent_encoding_round_trip(rest);
        let s = encode_bytes(bs);
        let e = encode_byte(b);
        if unreserved(b) {
            lemma_byte_char(b);
            assert(s[0] == b as char);
            assert(s.skip(1) =~= encode_bytes(rest));
            assert(percent_decode(s) =~= seq![b] + rest);
        } else {
            lemma_hex_digit_value((b / 16) as nat);
            lemma_hex_digit_value((b % 16) as nat);
            assert(s[0] == '%' && s[1] == hex_digit((b / 16) as nat) && s[2] == hex_digit(
                (b % 16) as nat,
            ));
            assert(s.skip(3) =~= encode_bytes(rest));
            assert((b / 16) * 16 + b % 16 == b);
            assert(percent_decode(s) =~= seq![b] + rest);
        }
        assert(seq![b] + rest =~= bs);
    }
}

/// Percent-encoded text holds only unreserved characters and `%` escapes, so
/// an encoded value cannot end a query parameter early (`&`, `=`, `#`) or
/// carry a space.
pub proof fn law_percent_encoding_is_query_safe(bs: Seq<u8>)
    ensures
        forall|i: int| 0 <= i < encode_bytes(bs).len() ==> query_safe(#[trigger] encode_bytes(bs)[i]),
    decreases bs.len(),
{
    if bs.len() > 0 {
        let d = bs.drop_last();
        let b = bs.last();
        law_percent_encoding_is_query_safe(d);
        let e = encode_byte(b);
        if unreserved(b) {
            lemma_byte_char(b);
        } else {
            lemma_hex_digit_value((b / 16) as nat);
            lemma_hex_digit_value((b % 16) as nat);
        }
        assert forall|i: int| 0 <= i < encode_bytes(bs).len() implies query_safe(
            #[trigger] encode_bytes(bs)[i],
        ) by {
            if i < encode_bytes(d).len() {
                assert(encode_bytes(bs)[i] == encode_bytes(d)[i]);
            } else {
                assert(encode_bytes(bs)[i] == e[i - encode_bytes(d).len()]);
            }
        }
    }
}

/// The OAuth authorization URL for a provider, with the callback when given.
pub open spec fn oauth_url_text(server: Seq<char>, provider: Seq<u8>, callback: Option<Seq<u8>>) -> Seq<
    char,
> {
    let base = server + "/api/oauth/authorize?provider="@ + encode_bytes(provider);
    match callback {
        Some(c) => base + "&redirect_uri="@ + encode_bytes(c),
        None => base,
    }
}

/// The URL to open in a browser to sign in through an OAuth provider.
pub fn oauth_authorize_url(server: &str, provider: &str, callback_url: Option<&str>) -> (r: String)
    ensures
        r@ == oauth_url_text(
            server@,
            provider.spec_bytes(),
            match callback_url {
                Some(c) => Some(c.spec_bytes()),
                None => None,
            },
        ),
{
    let mut url = server.to_owned();
    push_str(&mut url, "/api/oauth/authorize?provider=");
    let p = urlencoding_encode(provider);
    push_str(&mut url, p.as_str());
    if let Some(c) = callback_url {
        push_str(&mut url, "&redirect_uri=");
        let e = urlencoding_encode(c);
        push_str(&mut url, e.as_str());
    }
    url
}

// ---------------------------------------------------------------------------
// Document modes and roles
// ---------------------------------------------------------------------------

/// How a published document shows.
#[derive(Clone, Copy, Debug, PartialEq, Eq, Structural)]
pub enum PublicDocMode {
    Page,
    Edgeless,
}

impl PublicDocMode {
    /// The GraphQL enum value.
    pub fn as_graphql(&self) -> (r: &'static str)
        ensures
            r@ == match *self {
                PublicDocMode::Page => "Page"@,
                PublicDocMode::Edgeless => "Edgeless"@,
            },
    {
        match self {
            PublicDocMode::Page => "Page",
            PublicDocMode::Edgeless => "Edgeless",
        }
    }
}

/// A user's role on a document.
#[derive(Clone, Copy, Debug, PartialEq, Eq, Structural)]
pub enum DocRole {
    Owner,
    Manager,
    Editor,
    Reader,
    Commenter,
    External,
    /// No access (`None` in GraphQL).
    NoRole,
}

/// The GraphQL enum value of a role.
pub open spec fn doc_role_text(r: DocRole) -> Seq<char> {
    match r {
        DocRole::Owner => "Owner"@,
        DocRole::Manager => "Manager"@,
        DocRole::Editor => "Editor"@,
        DocRole::Reader => "Reader"@,
        DocRole::Commenter => "Commenter"@,
        DocRole::External => "External"@,
        DocRole::NoRole => "None"@,
    }
}

impl DocRole {
    /// The GraphQL enum value.
    pub fn as_graphql(&self) -> (r: &'static str)
        ensures
            r@ == doc_role_text(*self),
    {
        match self {
            DocRole::Owner => "Owner",
            DocRole::Manager => "Manager",
            DocRole::Editor => "Editor",
            DocRole::Reader => "Reader",
            DocRole::Commenter => "Commenter",
            DocRole::External => "External",
            DocRole::NoRole => "None",
        }
    }
}

// ---------------------------------------------------------------------------
// GraphQL variables
// ---------------------------------------------------------------------------

fn empty_fields() -> (r: Vec<(String, Json)>)
    ensures
        field_views(r@) == Seq::<(Seq<char>, JsonV)>::empty(),
{
    let r: Vec<(String, Json)> = Vec::new();
    assert(field_views(r@) =~= Seq::empty());
    r
}

/// `fields` with `key` set to the boolean when one is given.
pub open spec fn insert_opt_bool(fields: Seq<(Seq<char>, JsonV)>, key: Seq<char>, value: Option<bool>) -> Seq<
    (Seq<char>, JsonV),
> {
    match value {
        Some(b) => set_field(fields, key, JsonV::Bool(b)),
        None => fields,
    }
}

/// Sets `key` to the boolean when one is given.
pub fn maybe_insert_bool(target: &mut Vec<(String, Json)>, key: &str, value: Option<bool>)
    ensures
        field_views(final(target)@) == insert_opt_bool(field_views(old(target)@), key@, value),
{
    if let Some(b) = value {
        set_field_in(target, key, Json::Bool(b));
    }
}

/// The settings that a workspace update changes.
#[derive(Debug, PartialEq)]
pub struct WorkspaceUpdate {
    pub public: Option<bool>,
    pub enable_ai: Option<bool>,
    pub enable_sharing: Option<bool>,
    pub enable_url_preview: Option<bool>,
    pub enable_doc_embedding: Option<bool>,
}

/// The input of a workspace update: the id, then each setting that is given.
pub open spec fn workspace_update_fields(id: Seq<char>, u: WorkspaceUpdate) -> Seq<(Seq<char>, JsonV)> {
    insert_opt_bool(
        insert_opt_bool(
            insert_opt_bool(
                insert_opt_bool(
                    insert_opt_bool(seq![("id"@, JsonV::Str(id))], "public"@, u.public),
                    "enableAi"@,
                    u.enable_ai,
                ),
                "enableSharing"@,
                u.enable_sharing,
            ),
            "enableUrlPreview"@,
            u.enable_url_preview,
        ),
        "enableDocEmbedding"@,
        u.enable_doc_embedding,
    )
}

/// What an optional setting puts under its name: the boolean when given,
/// nothing when not.
pub open spec fn setting_field(o: Option<bool>) -> Option<JsonV> {
    match o {
        Some(b) => Some(JsonV::Bool(b)),
        None => None,
    }
}

proof fn lemma_insert_opt_bool(fs: Seq<(Seq<char>, JsonV)>, k: Seq<char>, o: Option<bool>, other: Seq<char>)
    ensures
        o is Some ==> field_of(insert_opt_bool(fs, k, o), k) == setting_field(o),
        o is None ==> field_of(insert_opt_bool(fs, k, o), k) == field_of(fs, k),
        other != k ==> field_of(insert_opt_bool(fs, k, o), other) == field_of(fs, other),
{
    match o {
        Some(b) => crate::json::law_field_of_set_field(fs, k, JsonV::Bool(b), other),
        None => {},
    }
}

/// A workspace update's input names the workspace under `id`, and puts each
/// setting given under its own GraphQL name with its own value
/// (`public`, `enableAi`, `enableSharing`, `enableUrlPreview`,
/// `enableDocEmbedding`); a setting not given puts no field.
pub proof fn law_workspace_update_fields(id: Seq<char>, u: WorkspaceUpdate)
    ensures
        field_of(workspace_update_fields(id, u), "id"@) == Some(JsonV::Str(id)),
        field_of(workspace_update_fields(id, u), "public"@) == setting_field(u.public),
        field_of(workspace_update_fields(id, u), "enableAi"@) == setting_field(u.enable_ai),
        field_of(workspace_update_fields(id, u), "enableSharing"@) == setting_field(u.enable_sharing),
        field_of(workspace_update_fields(id, u), "enableUrlPreview"@) == setting_field(
            u.enable_url_preview,
        ),
        field_of(workspace_update_fields(id, u), "enableDocEmbedding"@) == setting_field(
            u.enable_doc_embedding,
        ),
{
    reveal_strlit("id");
    reveal_strlit("public");
    reveal_strlit("enableAi");
    reveal_strlit("enableSharing");
    reveal_strlit("enableUrlPreview");
    reveal_strlit("enableDocEmbedding");
    let names = seq!["id"@, "public"@, "enableAi"@, "enableSharing"@, "enableUrlPreview"@, "enableDocEmbedding"@];
    assert(names[0].len() == 2 && names[1].len() == 6 && names[2].len() == 8);
    assert(names[3].len() == 13 && names[4].len() == 16 && names[5].len() == 18);
    let f0 = seq![("id"@, JsonV::Str(id))];
    assert(f0.drop_first() =~= Seq::<(Seq<char>, JsonV)>::empty());
    let f1 = insert_opt_bool(f0, "public"@, u.public);
    let f2 = insert_opt_bool(f1, "enableAi"@, u.enable_ai);
    let f3 = insert_opt_bool(f2, "enableSharing"@, u.enable_sharing);
    let f4 = insert_opt_bool(f3, "enableUrlPreview"@, u.enable_url_preview);
    let f5 = insert_opt_bool(f4, "enableDocEmbedding"@, u.enable_doc_embedding);
    assert(f5 == workspace_update_fields(id, u));
    assert forall|j: int| 0 <= j < 6 implies (#[trigger] names[j]) == "id"@ || field_of(f0, names[j]) is None by {
        if j > 0 {
            assert(names[j].len() != "id"@.len());
            assert(f0[0].0 == "id"@);
            assert(f0.drop_first() =~= Seq::<(Seq<char>, JsonV)>::empty());
            assert(field_of(f0, names[j]) == field_of(f0.drop_first(), names[j]));
        }
    }
    assert forall|j: int| 0 <= j < 6 implies
        field_of(f1, #[trigger] names[j]) == (if j == 1 { setting_field(u.public) } else { field_of(f0, names[j]) }) by {
        lemma_insert_opt_bool(f0, "public"@, u.public, names[j]);
    }
    assert forall|j: int| 0 <= j < 6 implies
        field_of(f2, #[trigger] names[j]) == (if j == 2 { setting_field(u.enable_ai) } else { field_of(f1, names[j]) }) by {
        lemma_insert_opt_bool(f1, "enableAi"@, u.enable_ai, names[j]);
    }
    assert forall|j: int| 0 <= j < 6 implies
        field_of(f3, #[trigger] names[j]) == (if j == 3 { setting_field(u.enable_sharing) } else { field_of(f2, names[j]) }) by {
        lemma_insert_opt_bool(f2, "enableSharing"@, u.enable_sharing, names[j]);
    }
    assert forall|j: int| 0 <= j < 6 implies
        field_of(f4, #[trigger] names[j]) == (if j == 4 { setting_field(u.enable_url_preview) } else { field_of(f3, names[j]) }) by {
        lemma_insert_opt_bool(f3, "enableUrlPreview"@, u.enable_url_preview, names[j]);
    }
    assert forall|j: int| 0 <= j < 6 implies
        field_of(f5, #[trigger] names[j]) == (if j == 5 { setting_field(u.enable_doc_embedding) } else { field_of(f4, names[j]) }) by {
        lemma_insert_opt_bool(f4, "enableDocEmbedding"@, u.enable_doc_embedding, names[j]);
    }
    assert(field_of(f5, names[0]) == Some(JsonV::Str(id)));
    assert(field_of(f5, names[1]) == setting_field(u.public));
    assert(field_of(f5, names[2]) == setting_field(u.enable_ai));
    assert(field_of(f5, names[3]) == setting_field(u.enable_sharing));
    assert(field_of(f5, names[4]) == setting_field(u.enable_url_preview));
    assert(field_of(f5, names[5]) == setting_field(u.enable_doc_embedding));
}

/// The variables of a workspace update, `{"input": {...}}`; an update that
/// changes nothing is refused.
pub fn workspace_update_variables(id: &str, update: &WorkspaceUpdate) -> (r: Result<Json, CliError>)
    ensures
        if update.public is None && update.enable_ai is None && update.enable_sharing is None
            && update.enable_url_preview is None && update.enable_doc_embedding is None {
            r matches Err(CliError::NoUpdateFields)
        } else {
            r matches Ok(v) && v@ == JsonV::Object(
                seq![("input"@, JsonV::Object(workspace_update_fields(id@, *update)))],
            )
        },
{
    if update.public.is_none() && update.enable_ai.is_none() && update.enable_sharing.is_none()
        && update.enable_url_preview.is_none() && update.enable_doc_embedding.is_none() {
        return Err(CliError::NoUpdateFields);
    }
    let mut input = empty_fields();
    push_field(&mut input, "id", Json::string(id));
    proof {
        assert(field_views(input@) =~= seq![("id"@, JsonV::Str(id@))]);
    }
    maybe_insert_bool(&mut input, "public", update.public);
    maybe_insert_bool(&mut input, "enableAi", update.enable_ai);
    maybe_insert_bool(&mut input, "enableSharing", update.enable_sharing);
    maybe_insert_bool(&mut input, "enableUrlPreview", update.enable_url_preview);
    maybe_insert_bool(&mut input, "enableDocEmbedding", update.enable_doc_embedding);
    let ghost iv = field_views(input@);
    let mut vars = empty_fields();
    push_field(&mut vars, "input", Json::Object(input));
    proof {
        assert(field_views(vars@) =~= seq![("input"@, JsonV::Object(iv))]);
    }
    Ok(Json::Object(vars))
}

/// The variables that create a personal access token:
/// `{"input": {"name", "expiresAt"?}}`.
pub fn token_create_variables(name: &str, expires_at: Option<&str>) -> (r: Json)
    ensures
        r@ == JsonV::Object(
            seq![
                ("input"@, JsonV::Object(
                    match expires_at {
                        Some(e) => seq![("name"@, JsonV::Str(name@)), ("expiresAt"@, JsonV::Str(e@))],
                        None => seq![("name"@, JsonV::Str(name@))],
                    },
                )),
            ],
        ),
{
    let mut input = empty_fields();
    push_field(&mut input, "name", Json::string(name));
    if let Some(e) = expires_at {
        push_field(&mut input, "expiresAt", Json::string(e));
    }
    let ghost iv = field_views(input@);
    proof {
        match expires_at {
            Some(e) => assert(iv =~= seq![("name"@, JsonV::Str(name@)), ("expiresAt"@, JsonV::Str(e@))]),
            None => assert(iv =~= seq![("name"@, JsonV::Str(name@))]),
        }
    }
    let mut vars = empty_fields();
    push_field(&mut vars, "input", Json::Object(input));
    proof {
        assert(field_views(vars@) =~= seq![("input"@, JsonV::Object(iv))]);
    }
    Json::Object(vars)
}

/// The analytics window: `null` when neither setting is given, else the
/// settings that are.
pub open spec fn analytics_input_spec(window_days: Option<i64>, timezone: Option<Seq<char>>) -> JsonV {
    if window_days is None && timezone is None {
        JsonV::Null
    } else {
        JsonV::Object(
            match (window_days, timezone) {
                (Some(w), Some(t)) => seq![("windowDays"@, JsonV::Int(w as int)), ("timezone"@, JsonV::Str(t))],
                (Some(w), None) => seq![("windowDays"@, JsonV::Int(w as int))],
                (None, Some(t)) => seq![("timezone"@, JsonV::Str(t))],
                (None, None) => Seq::empty(),
            },
        )
    }
}

/// The variables of a document's analytics:
/// `{"workspaceId", "docId", "input"}`.
pub fn analytics_variables(
    workspace_id: &str,
    doc_id: &str,
    window_days: Option<i64>,
    timezone: Option<&str>,
) -> (r: Json)
    ensures
        r@ == JsonV::Object(
            seq![
                ("workspaceId"@, JsonV::Str(workspace_id@)),
                ("docId"@, JsonV::Str(doc_id@)),
                ("input"@, analytics_input_spec(window_days, crate::client::opt_text(timezone))),
            ],
        ),
{
    let mut input = empty_fields();
    if let Some(w) = window_days {
        push_field(&mut input, "windowDays", Json::Int(w));
    }
    if let Some(t) = timezone {
        push_field(&mut input, "timezone", Json::string(t));
    }
    let input_value = if window_days.is_none() && timezone.is_none() {
        Json::Null
    } else {
        Json::Object(input)
    };
    proof {
        match (window_days, timezone) {
            (Some(w), Some(t)) => assert(field_views(input@) =~= seq![("windowDays"@, JsonV::Int(w as int)), ("timezone"@, JsonV::Str(t@))]),
            (Some(w), None) => assert(field_views(input@) =~= seq![("windowDays"@, JsonV::Int(w as int))]),
            (None, Some(t)) => assert(field_views(input@) =~= seq![("timezone"@, JsonV::Str(t@))]),
            (None, None) => {},
        }
    }
    let ghost iv = input_value@;
    let mut vars = empty_fields();
    push_field(&mut vars, "workspaceId", Json::string(workspace_id));
    push_field(&mut vars, "docId", Json::string(doc_id));
    push_field(&mut vars, "input", input_value);
    proof {
        assert(field_views(vars@) =~= seq![
            ("workspaceId"@, JsonV::Str(workspace_id@)),
            ("docId"@, JsonV::Str(doc_id@)),
            ("input"@, iv),
        ]);
    }
    Json::Object(vars)
}

/// A string value, or `null`.
pub open spec fn str_or_null(o: Option<Seq<char>>) -> JsonV {
    match o {
        Some(s) => JsonV::Str(s),
        None => JsonV::Null,
    }
}

fn string_or_null(o: Option<&str>) -> (r: Json)
    ensures
        r@ == str_or_null(crate::client::opt_text(o)),
{
    match o {
        Some(s) => Json::string(s),
        None => Json::Null,
    }
}

/// The variables of a page of the document list:
/// `{"workspaceId", "pagination": {"first", "after", "offset"}}`.
pub fn doc_list_variables(workspace_id: &str, first: i64, after: Option<&str>, offset: i64) -> (r: Json)
    ensures
        r@ == JsonV::Object(
            seq![
                ("workspaceId"@, JsonV::Str(workspace_id@)),
                ("pagination"@, JsonV::Object(
                    seq![
                        ("first"@, JsonV::Int(first as int)),
                        ("after"@, str_or_null(crate::client::opt_text(after))),
                        ("offset"@, JsonV::Int(offset as int)),
                    ],
                )),
            ],
        ),
{
    let mut page = empty_fields();
    push_field(&mut page, "first", Json::Int(first));
    push_field(&mut page, "after", string_or_null(after));
    push_field(&mut page, "offset", Json::Int(offset));
    let ghost pv = field_views(page@);
    let mut vars = empty_fields();
    push_field(&mut vars, "workspaceId", Json::string(workspace_id));
    push_field(&mut vars, "pagination", Json::Object(page));
    proof {
        assert(pv =~= seq![
            ("first"@, JsonV::Int(first as int)),
            ("after"@, str_or_null(crate::client::opt_text(after))),
            ("offset"@, JsonV::Int(offset as int)),
        ]);
        assert(field_views(vars@) =~= seq![
            ("workspaceId"@, JsonV::Str(workspace_id@)),
            ("pagination"@, JsonV::Object(pv)),
        ]);
    }
    Json::Object(vars)
}

/// The variables that publish a document: `{"workspaceId", "docId", "mode"}`,
/// the mode `null` when none is given.
pub fn publish_variables(workspace_id: &str, doc_id: &str, mode: Option<PublicDocMode>) -> (r: Json)
    ensures
        r@ == JsonV::Object(
            seq![
                ("workspaceId"@, JsonV::Str(workspace_id@)),
                ("docId"@, JsonV::Str(doc_id@)),
                ("mode"@, match mode {
                    Some(PublicDocMode::Page) => JsonV::Str("Page"@),
                    Some(PublicDocMode::Edgeless) => JsonV::Str("Edgeless"@),
                    None => JsonV::Null,
                }),
            ],
        ),
{
    let m = match mode {
        Some(md) => Json::string(md.as_graphql()),
        None => Json::Null,
    };
    let ghost mv = m@;
    let mut vars = empty_fields();
    push_field(&mut vars, "workspaceId", Json::string(workspace_id));
    push_field(&mut vars, "docId", Json::string(doc_id));
    push_field(&mut vars, "mode", m);
    proof {
        assert(field_views(vars@) =~= seq![
            ("workspaceId"@, JsonV::Str(workspace_id@)),
            ("docId"@, JsonV::Str(doc_id@)),
            ("mode"@, mv),
        ]);
    }
    Json::Object(vars)
}

/// The role changes on a document.
pub enum RoleChange {
    /// Grant a role to users.
    Grant { users: Vec<String>, role: DocRole },
    /// Change one user's role.
    Update { user: String, role: DocRole },
    /// Remove one user's access.
    Revoke { user: String },
    /// Set the role of members not listed.
    Default { role: DocRole },
}

/// The input fields of a role change, after the workspace and document.
pub open spec fn role_change_fields(c: RoleChange) -> Seq<(Seq<char>, JsonV)> {
    match c {
        RoleChange::Grant { users, role } => seq![
            ("userIds"@, JsonV::Array(users@.map_values(|u: String| JsonV::Str(u@)))),
            ("role"@, JsonV::Str(doc_role_text(role))),
        ],
        RoleChange::Update { user, role } => seq![
            ("userId"@, JsonV::Str(user@)),
            ("role"@, JsonV::Str(doc_role_text(role))),
        ],
        RoleChange::Revoke { user } => seq![("userId"@, JsonV::Str(user@))],
        RoleChange::Default { role } => seq![("role"@, JsonV::Str(doc_role_text(role)))],
    }
}

/// The variables of a role change on a document:
/// `{"input": {"workspaceId", "docId", ...}}`.
pub fn role_change_variables(workspace_id: &str, doc_id: &str, change: RoleChange) -> (r: Json)
    ensures
        r@ == JsonV::Object(
            seq![
                ("input"@, JsonV::Object(
                    seq![
                        ("workspaceId"@, JsonV::Str(workspace_id@)),
                        ("docId"@, JsonV::Str(doc_id@)),
                    ] + role_change_fields(change),
                )),
            ],
        ),
{
    let ghost cv = role_change_fields(change);
    let mut input = empty_fields();
    push_field(&mut input, "workspaceId", Json::string(workspace_id));
    push_field(&mut input, "docId", Json::string(doc_id));
    let ghost base = field_views(input@);
    assert(base =~= seq![("workspaceId"@, JsonV::Str(workspace_id@)), ("docId"@, JsonV::Str(doc_id@))]);
    match change {
        RoleChange::Grant { users, role } => {
            let mut ids: Vec<Json> = Vec::new();
            let mut i: usize = 0;
            while i < users.len()
                invariant
                    0 <= i <= users@.len(),
                    views_of(ids@) == users@.take(i as int).map_values(|u: String| JsonV::Str(u@)),
                decreases users.len() - i,
            {
                push_item(&mut ids, Json::string(users[i].as_str()));
                proof {
                    assert(users@.take(i + 1).map_values(|u: String| JsonV::Str(u@)) =~= users@.take(
                        i as int,
                    ).map_values(|u: String| JsonV::Str(u@)).push(JsonV::Str(users@[i as int]@)));
                }
                i += 1;
            }
            proof {
                assert(users@.take(i as int) =~= users@);
            }
            push_field(&mut input, "userIds", Json::Array(ids));
            push_field(&mut input, "role", Json::string(role.as_graphql()));
        },
        RoleChange::Update { user, role } => {
            push_field(&mut input, "userId", Json::Str(user));
            push_field(&mut input, "role", Json::string(role.as_graphql()));
        },
        RoleChange::Revoke { user } => {
            push_field(&mut input, "userId", Json::Str(user));
        },
        RoleChange::Default { role } => {
            push_field(&mut input, "role", Json::string(role.as_graphql()));
        },
    }
    proof {
        assert(field_views(input@) =~= base + cv);
    }
    let ghost iv = field_views(input@);
    let mut vars = empty_fields();
    push_field(&mut vars, "input", Json::Object(input));
    proof {
        assert(field_views(vars@) =~= seq![("input"@, JsonV::Object(iv))]);
    }
    Json::Object(vars)
}

/// Where the text of a GraphQL query comes from.
#[derive(Debug, PartialEq)]
pub enum QuerySource {
    /// Given on the command line.
    Inline(String),
    /// Read from this file.
    File(String),
}

/// The source of a raw GraphQL query: exactly one of the query and the query
/// file must be given.
pub fn query_source(query: Option<String>, query_file: Option<String>) -> (r: Result<
    QuerySource,
    CliError,
>)
    ensures
        match (query, query_file) {
            (Some(q), None) => r matches Ok(QuerySource::Inline(t)) && t@ == q@,
            (None, Some(p)) => r matches Ok(QuerySource::File(t)) && t@ == p@,
            _ => r matches Err(CliError::QuerySource),
        },
{
    match (query, query_file) {
        (Some(q), None) => Ok(QuerySource::Inline(q)),
        (None, Some(p)) => Ok(QuerySource::File(p)),
        _ => Err(CliError::QuerySource),
    }
}

/// The variables of a document search:
/// `{"id", "input": {"keyword", "limit"}}`.
pub fn search_variables(workspace_id: &str, keyword: &str, limit: i64) -> (r: Json)
    ensures
        r@ == JsonV::Object(
            seq![
                ("id"@, JsonV::Str(workspace_id@)),
                ("input"@, JsonV::Object(
                    seq![("keyword"@, JsonV::Str(keyword@)), ("limit"@, JsonV::Int(limit as int))],
                )),
            ],
        ),
{
    let mut input = empty_fields();
    push_field(&mut input, "keyword", Json::string(keyword));
    push_field(&mut input, "limit", Json::Int(limit));
    let ghost iv = field_views(input@);
    let mut vars = empty_fields();
    push_field(&mut vars, "id", Json::string(workspace_id));
    push_field(&mut vars, "input", Json::Object(input));
    proof {
        assert(iv =~= seq![("keyword"@, JsonV::Str(keyword@)), ("limit"@, JsonV::Int(limit as int))]);
        assert(field_views(vars@) =~= seq![
            ("id"@, JsonV::Str(workspace_id@)),
            ("input"@, JsonV::Object(iv)),
        ]);
    }
    Json::Object(vars)
}

/// The variables that delete a blob: `{"workspaceId", "key", "permanently"}`.
pub fn delete_blob_variables(workspace_id: &str, key: &str, permanently: bool) -> (r: Json)
    ensures
        r@ == JsonV::Object(
            seq![
                ("workspaceId"@, JsonV::Str(workspace_id@)),
                ("key"@, JsonV::Str(key@)),
                ("permanently"@, JsonV::Bool(permanently)),
            ],
        ),
{
    let mut vars = empty_fields();
    push_field(&mut vars, "workspaceId", Json::string(workspace_id));
    push_field(&mut vars, "key", Json::string(key));
    push_field(&mut vars, "permanently", Json::Bool(permanently));
    proof {
        assert(field_views(vars@) =~= seq![
            ("workspaceId"@, JsonV::Str(workspace_id@)),
            ("key"@, JsonV::Str(key@)),
            ("permanently"@, JsonV::Bool(permanently)),
        ]);
    }
    Json::Object(vars)
}

} // verus!

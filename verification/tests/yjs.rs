use std::cell::RefCell;

use affine_cli::json::Json;
use affine_cli::yjs::{
    assign_tag_op, assign_tag_script, create_tag_op, delete_tag_op, delete_tag_script,
    engine_script, list_tags_op, list_tags_script, require_state, unassign_tag_op,
    unassign_tag_script, TagOpError, ENGINE_0,
};

#[test]
fn engine_script_doubles_backslashes_in_paths() {
    let s = engine_script("C:\\tmp\\b64.txt", "/s/yjs_bundle.js", "/tmp/r.json", "return 1;");
    assert!(s.starts_with(ENGINE_0));
    assert!(s.contains("fs.readFileSync('C:\\\\tmp\\\\b64.txt', 'utf8').trim();"));
    assert!(s.contains("fs.readFileSync('/s/yjs_bundle.js', 'utf8');"));
    assert!(s.contains("const result = (function() { return 1; })();"));
    assert!(s.contains("fs.writeFileSync('/tmp/r.json', JSON.stringify(result));"));
}

#[test]
fn tag_scripts_name_their_targets() {
    let a = assign_tag_script("doc-1", "tag-9");
    assert!(a.contains("let docEntry = pages.get('doc-1');"));
    assert!(a.contains("tags.forEach(t => { if (t === 'tag-9') found = true; });"));
    assert!(a.contains("if (!found) tags.push(['tag-9']);"));
    let u = unassign_tag_script("doc-1", "tag-9");
    assert!(u.contains("pages instanceof Y.Map ? pages.get('doc-1') : undefined;"));
    assert!(u.contains("if (tags.get(i) === 'tag-9') {"));
    let d = delete_tag_script("tag-9");
    assert!(d.contains("opt.get('id') === 'tag-9'"));
    assert!(d.contains("if (pageTags.get(i) === 'tag-9') {"));
    assert!(list_tags_script().contains("create_date: opt.get('createDate') || null,"));
}

#[test]
fn string_ops_hand_the_script_to_the_runner() {
    let seen = RefCell::new(String::new());
    let run = |s: &str| -> Result<Json, String> {
        *seen.borrow_mut() = s.to_owned();
        Ok(Json::Str("NEWSTATE".to_owned()))
    };
    assert_eq!(assign_tag_op(&run, "d", "t"), Ok("NEWSTATE".to_owned()));
    assert_eq!(*seen.borrow(), assign_tag_script("d", "t"));
    assert_eq!(unassign_tag_op(&run, "d", "t"), Ok("NEWSTATE".to_owned()));
    assert_eq!(*seen.borrow(), unassign_tag_script("d", "t"));
    assert_eq!(delete_tag_op(&run, "t"), Ok("NEWSTATE".to_owned()));
    assert_eq!(*seen.borrow(), delete_tag_script("t"));
}

#[test]
fn string_ops_report_failures() {
    let not_string = |_: &str| -> Result<Json, String> { Ok(Json::Int(1)) };
    let err = assign_tag_op(not_string, "d", "t").unwrap_err();
    assert_eq!(err, TagOpError::ExpectedString { op: "assign_tag_op".to_owned() });
    assert_eq!(err.message(), "assign_tag_op: expected string result");
    assert_eq!(
        unassign_tag_op(not_string, "d", "t").unwrap_err().message(),
        "unassign_tag_op: expected string result"
    );
    assert_eq!(
        delete_tag_op(not_string, "t").unwrap_err().message(),
        "delete_tag_op: expected string result"
    );
    let failing = |_: &str| -> Result<Json, String> { Err("yjs operation failed: boom".to_owned()) };
    let err = delete_tag_op(failing, "t").unwrap_err();
    assert_eq!(err, TagOpError::Engine { message: "yjs operation failed: boom".to_owned() });
    assert_eq!(err.message(), "yjs operation failed: boom");
}

#[test]
fn create_and_list_read_what_the_runner_printed() {
    let run = |_: &str| -> Result<Json, String> {
        Ok(Json::Object(vec![
            ("tag".to_owned(), Json::Object(vec![("id".to_owned(), Json::Str("x".to_owned()))])),
            ("state".to_owned(), Json::Str("S".to_owned())),
        ]))
    };
    let created = create_tag_op(run, "Work", "#f00").unwrap();
    assert_eq!(
        created.tag,
        Json::Object(vec![("id".to_owned(), Json::Str("x".to_owned()))])
    );
    assert_eq!(require_state(created.state), Ok("S".to_owned()));
    let no_state = |_: &str| -> Result<Json, String> { Ok(Json::Object(vec![])) };
    let created = create_tag_op(no_state, "Work", "#f00").unwrap();
    assert_eq!(created.tag, Json::Null);
    let err = require_state(created.state).unwrap_err();
    assert_eq!(err, TagOpError::MissingState);
    assert_eq!(err.message(), "missing state in create_tag response");
    let list = |_: &str| -> Result<Json, String> { Ok(Json::Array(vec![])) };
    assert_eq!(list_tags_op(list), Ok(Json::Array(vec![])));
}

#[test]
fn unassign_always_returns_a_state() {
    let u = unassign_tag_script("doc-1", "tag-9");
    assert!(!u.contains("return '';"));
    assert!(u.contains("const docEntry = pages instanceof Y.Map ? pages.get('doc-1') : undefined;"));
    assert!(u.trim_end().ends_with(
        "return Buffer.from(update.buffer, update.byteOffset, update.byteLength).toString('base64');"
    ));
}

#[test]
fn delete_removes_every_match() {
    let d = delete_tag_script("tag-9");
    assert!(!d.contains("break;"));
    assert!(d.contains("for (let i = options.length - 1; i >= 0; i--) {"));
    assert!(d.contains("for (let i = pageTags.length - 1; i >= 0; i--) {"));
}

//! Operations on the workspace's root Yjs document. The library writes the
//! JavaScript that a Node.js process runs on the document, and reads what the
//! process prints back; running the process is the caller's part.
use vstd::prelude::*;
use crate::json::{Json, JsonV, get_field, str_of};
use crate::text::{chars_of, push_char, push_str};

verus! {

/// `s` with every backslash doubled (`str::replace('\\', "\\\\")`).
pub open spec fn escape_backslashes(s: Seq<char>) -> Seq<char>
    decreases s.len(),
{
    if s.len() == 0 {
        Seq::empty()
    } else {
        escape_backslashes(s.drop_last()) + if s.last() == '\\' {
            seq!['\\', '\\']
        } else {
            seq![s.last()]
        }
    }
}

/// Appends `s` with every backslash doubled.
pub fn push_escaped(out: &mut String, s: &str)
    ensures
        final(out)@ == old(out)@ + escape_backslashes(s@),
{
    let v = chars_of(s);
    let ghost start = out@;
    let mut i: usize = 0;
    while i < v.len()
        invariant
            0 <= i <= v@.len(),
            v@ == s@,
            out@ == start + escape_backslashes(v@.take(i as int)),
        decreases v.len() - i,
    {
        let c = v[i];
        if c == '\\' {
            push_char(out, '\\');
            push_char(out, '\\');
        } else {
            push_char(out, c);
        }
        proof {
            assert(v@.take(i + 1).drop_last() =~= v@.take(i as int));
            assert(v@.take(i + 1).last() == c);
        }
        i += 1;
    }
    proof {
        assert(v@.take(i as int) =~= v@);
    }
}

pub const ENGINE_0: &'static str = r##"
const fs = require('fs');
const b64 = fs.readFileSync('"##;
pub const ENGINE_1: &'static str = r##"', 'utf8').trim();
const raw = Buffer.from(b64, 'base64');
const arr = new Uint8Array(raw);

// Load yjs bundle (IIFE, needs eval in global scope)
const bundleCode = fs.readFileSync('"##;
pub const ENGINE_2: &'static str = r##"', 'utf8');
eval(bundleCode);
const doc = new Y.Doc();
Y.applyUpdate(doc, arr);

// Run the operation
const result = (function() { "##;
pub const ENGINE_3: &'static str = r##" })();

fs.writeFileSync('"##;
pub const ENGINE_4: &'static str = r##"', JSON.stringify(result));
"##;

/// The script that runs an operation on the workspace document: it reads the
/// document (base64) from `b64_path`, loads the Yjs bundle from `bundle_path`,
/// applies the document, runs `op_js` as a function body and writes its result
/// as JSON to `result_path`. Backslashes in the paths are doubled.
pub open spec fn engine_script_text(b64_path: Seq<char>, bundle_path: Seq<char>, result_path: Seq<char>, op_js: Seq<char>) -> Seq<char> {
    ENGINE_0@
        + escape_backslashes(b64_path)
        + ENGINE_1@
        + escape_backslashes(bundle_path)
        + ENGINE_2@
        + op_js
        + ENGINE_3@
        + escape_backslashes(result_path)
        + ENGINE_4@
}

/// The script that runs an operation on the workspace document: it reads the
/// document (base64) from `b64_path`, loads the Yjs bundle from `bundle_path`,
/// applies the document, runs `op_js` as a function body and writes its result
/// as JSON to `result_path`. Backslashes in the paths are doubled.
pub fn engine_script(b64_path: &str, bundle_path: &str, result_path: &str, op_js: &str) -> (r: String)
    ensures
        r@ == engine_script_text(b64_path@, bundle_path@, result_path@, op_js@),
{
    let mut r = ENGINE_0.to_owned();
    push_escaped(&mut r, b64_path);
    push_str(&mut r, ENGINE_1);
    push_escaped(&mut r, bundle_path);
    push_str(&mut r, ENGINE_2);
    push_str(&mut r, op_js);
    push_str(&mut r, ENGINE_3);
    push_escaped(&mut r, result_path);
    push_str(&mut r, ENGINE_4);
    r
}

pub const LIST_0: &'static str = r##"
const meta = doc.getMap('meta');
const properties = meta.get('properties');
if (!(properties instanceof Y.Map)) return [];
const tags = properties.get('tags');
if (!(tags instanceof Y.Map)) return [];
const options = tags.get('options');
if (!(options instanceof Y.Array)) return [];
const result = [];
options.forEach(opt => {
  if (opt instanceof Y.Map) {
    result.push({
      id: opt.get('id') || '',
      value: opt.get('value') || '',
      color: opt.get('color') || '',
      create_date: opt.get('createDate') || null,
      update_date: opt.get('updateDate') || null,
    });
  }
});
return result;
"##;

/// The operation that lists the tag options of the workspace.
pub open spec fn list_tags_script_text() -> Seq<char> {
    LIST_0@
}

/// The operation that lists the tag options of the workspace.
pub fn list_tags_script() -> (r: String)
    ensures
        r@ == list_tags_script_text(),
{
    LIST_0.to_owned()
}

pub const CREATE_0: &'static str = r##"
const meta = doc.getMap('meta');
let properties = meta.get('properties');
if (!(properties instanceof Y.Map)) { properties = new Y.Map(); meta.set('properties', properties); }
let tags = properties.get('tags');
if (!(tags instanceof Y.Map)) { tags = new Y.Map(); properties.set('tags', tags); }
let options = tags.get('options');
if (!(options instanceof Y.Array)) { options = new Y.Array(); tags.set('options', options); }

const tagId = Math.random().toString(36).substring(2, 10);
const now = Date.now();
const opt = new Y.Map();
opt.set('id', tagId);
"##;
pub const CREATE_SET_VALUE: &'static str = "opt.set('value', '";
pub const CREATE_SET_COLOR: &'static str = "');\nopt.set('color', '";
pub const CREATE_CLOSE: &'static str = "');";
pub const CREATE_1: &'static str = r##"
opt.set('createDate', now);
opt.set('updateDate', now);
options.push([opt]);

// Encode the new state
const update = Y.encodeStateAsUpdate(doc);
const newB64 = Buffer.from(update.buffer, update.byteOffset, update.byteLength).toString('base64');
return { tag: { id: tagId, "##;
pub const CREATE_TAG_VALUE: &'static str = "value: '";
pub const CREATE_TAG_COLOR: &'static str = "', color: '";
pub const CREATE_TAG_END: &'static str = "', create_date: now, update_date: now }, state: newB64 };\n";

/// The operation that adds a tag option named `name` with colour `color`, and
/// returns the new tag and the new document state.
pub open spec fn create_tag_script_text(name: Seq<char>, color: Seq<char>) -> Seq<char> {
    CREATE_0@
        + CREATE_SET_VALUE@
        + name
        + CREATE_SET_COLOR@
        + color
        + CREATE_CLOSE@
        + CREATE_1@
        + CREATE_TAG_VALUE@
        + name
        + CREATE_TAG_COLOR@
        + color
        + CREATE_TAG_END@
}

/// The operation that adds a tag option named `name` with colour `color`, and
/// returns the new tag and the new document state.
pub fn create_tag_script(name: &str, color: &str) -> (r: String)
    ensures
        r@ == create_tag_script_text(name@, color@),
{
    let mut r = CREATE_0.to_owned();
    push_str(&mut r, CREATE_SET_VALUE);
    push_str(&mut r, name);
    push_str(&mut r, CREATE_SET_COLOR);
    push_str(&mut r, color);
    push_str(&mut r, CREATE_CLOSE);
    push_str(&mut r, CREATE_1);
    push_str(&mut r, CREATE_TAG_VALUE);
    push_str(&mut r, name);
    push_str(&mut r, CREATE_TAG_COLOR);
    push_str(&mut r, color);
    push_str(&mut r, CREATE_TAG_END);
    r
}

/// Whether `pat` occurs in `s` at `i`.
pub open spec fn occurs_at(s: Seq<char>, pat: Seq<char>, i: int) -> bool {
    0 <= i && i + pat.len() <= s.len() && s.subrange(i, i + pat.len()) == pat
}

proof fn lemma_occurs_in_concat(a: Seq<char>, p: Seq<char>, b: Seq<char>)
    ensures
        occurs_at(a + p + b, p, a.len() as int),
{
    assert((a + p + b).subrange(a.len() as int, a.len() + p.len() as int) =~= p);
}

/// The script that creates a tag stores the name as the new option's `value`
/// and the colour as its `color`, and returns the new tag with that value and
/// that colour.
pub proof fn law_create_tag_script_names_and_colours(name: Seq<char>, color: Seq<char>)
    ensures
        exists|i: int| occurs_at(
            create_tag_script_text(name, color),
            "opt.set('value', '"@ + name + "');\nopt.set('color', '"@ + color + "');"@,
            i,
        ),
        exists|i: int| occurs_at(
            create_tag_script_text(name, color),
            "value: '"@ + name + "', color: '"@ + color + "', create_date"@,
            i,
        ),
{
    let t = create_tag_script_text(name, color);
    assert(CREATE_SET_VALUE@ == "opt.set('value', '"@);
    assert(CREATE_SET_COLOR@ == "');\nopt.set('color', '"@);
    assert(CREATE_CLOSE@ == "');"@);
    assert(CREATE_TAG_VALUE@ == "value: '"@);
    assert(CREATE_TAG_COLOR@ == "', color: '"@);
    let p1 = CREATE_SET_VALUE@ + name + CREATE_SET_COLOR@ + color + CREATE_CLOSE@;
    let b1 = CREATE_1@ + CREATE_TAG_VALUE@ + name + CREATE_TAG_COLOR@ + color + CREATE_TAG_END@;
    assert(t =~= CREATE_0@ + p1 + b1);
    lemma_occurs_in_concat(CREATE_0@, p1, b1);
    assert(p1 =~= "opt.set('value', '"@ + name + "');\nopt.set('color', '"@ + color + "');"@);
    reveal_strlit("', create_date: now, update_date: now }, state: newB64 };\n");
    reveal_strlit("', create_date");
    let end_head = CREATE_TAG_END@.take(14);
    assert(CREATE_TAG_END@ == "', create_date: now, update_date: now }, state: newB64 };\n"@);
    assert(end_head =~= "', create_date"@);
    let a2 = CREATE_0@ + p1 + CREATE_1@;
    let p2 = CREATE_TAG_VALUE@ + name + CREATE_TAG_COLOR@ + color + end_head;
    let b2 = CREATE_TAG_END@.skip(14);
    assert(t =~= a2 + p2 + b2);
    lemma_occurs_in_concat(a2, p2, b2);
    assert(p2 =~= "value: '"@ + name + "', color: '"@ + color + "', create_date"@);
}

pub const ASSIGN_0: &'static str = r##"
const meta = doc.getMap('meta');
let pages = meta.get('pages');
if (!(pages instanceof Y.Map)) { pages = new Y.Map(); meta.set('pages', pages); }
let docEntry = pages.get('"##;
pub const ASSIGN_1: &'static str = r##"');
if (!(docEntry instanceof Y.Map)) { docEntry = new Y.Map(); pages.set('"##;
pub const ASSIGN_2: &'static str = r##"', docEntry); }
let tags = docEntry.get('tags');
if (!(tags instanceof Y.Array)) { tags = new Y.Array(); docEntry.set('tags', tags); }
let found = false;
tags.forEach(t => { if (t === '"##;
pub const ASSIGN_3: &'static str = r##"') found = true; });
if (!found) tags.push(['"##;
pub const ASSIGN_4: &'static str = r##"']);

const update = Y.encodeStateAsUpdate(doc);
return Buffer.from(update.buffer, update.byteOffset, update.byteLength).toString('base64');
"##;

/// The operation that adds tag `tag_id` to document `doc_id` (once), and
/// returns the new document state.
pub open spec fn assign_tag_script_text(doc_id: Seq<char>, tag_id: Seq<char>) -> Seq<char> {
    ASSIGN_0@
        + doc_id
        + ASSIGN_1@
        + doc_id
        + ASSIGN_2@
        + tag_id
        + ASSIGN_3@
        + tag_id
        + ASSIGN_4@
}

/// The operation that adds tag `tag_id` to document `doc_id` (once), and
/// returns the new document state.
pub fn assign_tag_script(doc_id: &str, tag_id: &str) -> (r: String)
    ensures
        r@ == assign_tag_script_text(doc_id@, tag_id@),
{
    let mut r = ASSIGN_0.to_owned();
    push_str(&mut r, doc_id);
    push_str(&mut r, ASSIGN_1);
    push_str(&mut r, doc_id);
    push_str(&mut r, ASSIGN_2);
    push_str(&mut r, tag_id);
    push_str(&mut r, ASSIGN_3);
    push_str(&mut r, tag_id);
    push_str(&mut r, ASSIGN_4);
    r
}

pub const UNASSIGN_0: &'static str = r##"
const meta = doc.getMap('meta');
const pages = meta.get('pages');
const docEntry = pages instanceof Y.Map ? pages.get('"##;
pub const UNASSIGN_1: &'static str = r##"') : undefined;
const tags = docEntry instanceof Y.Map ? docEntry.get('tags') : undefined;
if (tags instanceof Y.Array) {
  for (let i = 0; i < tags.length; i++) {
    if (tags.get(i) === '"##;
pub const UNASSIGN_2: &'static str = r##"') {
      tags.delete(i, 1);
      break;
    }
  }
}
const update = Y.encodeStateAsUpdate(doc);
return Buffer.from(update.buffer, update.byteOffset, update.byteLength).toString('base64');
"##;

/// The operation that removes tag `tag_id` from document `doc_id` and returns
/// the new document state; a document without that page or tag list is left
/// as it is, and its state is returned all the same.
pub open spec fn unassign_tag_script_text(doc_id: Seq<char>, tag_id: Seq<char>) -> Seq<char> {
    UNASSIGN_0@
        + doc_id
        + UNASSIGN_1@
        + tag_id
        + UNASSIGN_2@
}

/// The operation that removes tag `tag_id` from document `doc_id` and returns
/// the new document state; a document without that page or tag list is left
/// as it is, and its state is returned all the same.
pub fn unassign_tag_script(doc_id: &str, tag_id: &str) -> (r: String)
    ensures
        r@ == unassign_tag_script_text(doc_id@, tag_id@),
{
    let mut r = UNASSIGN_0.to_owned();
    push_str(&mut r, doc_id);
    push_str(&mut r, UNASSIGN_1);
    push_str(&mut r, tag_id);
    push_str(&mut r, UNASSIGN_2);
    r
}

pub const DELETE_0: &'static str = r##"
const meta = doc.getMap('meta');
// Remove every option with this id
const properties = meta.get('properties');
if (properties instanceof Y.Map) {
  const tags = properties.get('tags');
  if (tags instanceof Y.Map) {
    const options = tags.get('options');
    if (options instanceof Y.Array) {
      for (let i = options.length - 1; i >= 0; i--) {
        const opt = options.get(i);
        if (opt instanceof Y.Map && opt.get('id') === '"##;
pub const DELETE_1: &'static str = r##"') {
          options.delete(i, 1);
        }
      }
    }
  }
}
// Remove every occurrence from every page
const pages = meta.get('pages');
if (pages instanceof Y.Map) {
  pages.forEach(page => {
    if (page instanceof Y.Map) {
      const pageTags = page.get('tags');
      if (pageTags instanceof Y.Array) {
        for (let i = pageTags.length - 1; i >= 0; i--) {
          if (pageTags.get(i) === '"##;
pub const DELETE_2: &'static str = r##"') {
            pageTags.delete(i, 1);
          }
        }
      }
    }
  });
}
const update = Y.encodeStateAsUpdate(doc);
return Buffer.from(update.buffer, update.byteOffset, update.byteLength).toString('base64');
"##;

/// The operation that deletes tag `tag_id` from the workspace: every tag
/// option with that id, and every occurrence of it in every document's tags,
/// the rest keeping their order; it returns the new document state.
pub open spec fn delete_tag_script_text(tag_id: Seq<char>) -> Seq<char> {
    DELETE_0@
        + tag_id
        + DELETE_1@
        + tag_id
        + DELETE_2@
}

/// The operation that deletes tag `tag_id` from the workspace: every tag
/// option with that id, and every occurrence of it in every document's tags,
/// the rest keeping their order; it returns the new document state.
pub fn delete_tag_script(tag_id: &str) -> (r: String)
    ensures
        r@ == delete_tag_script_text(tag_id@),
{
    let mut r = DELETE_0.to_owned();
    push_str(&mut r, tag_id);
    push_str(&mut r, DELETE_1);
    push_str(&mut r, tag_id);
    push_str(&mut r, DELETE_2);
    r
}

/// Why an operation on the workspace document failed.
#[derive(Debug, PartialEq)]
pub enum TagOpError {
    /// Running the operation failed; the text says why.
    Engine { message: String },
    /// The operation did not print a string.
    ExpectedString { op: String },
    /// The operation that creates a tag did not print the new state.
    MissingState,
}

/// The text that describes an error.
pub open spec fn tag_op_error_text(e: TagOpError) -> Seq<char> {
    match e {
        TagOpError::Engine { message } => message@,
        TagOpError::ExpectedString { op } => op@ + ": expected string result"@,
        TagOpError::MissingState => "missing state in create_tag response"@,
    }
}

impl TagOpError {
    /// The text that describes the error.
    pub fn message(&self) -> (r: String)
        ensures
            r@ == tag_op_error_text(*self),
    {
        match self {
            TagOpError::Engine { message } => message.clone(),
            TagOpError::ExpectedString { op } => {
                let mut r = op.clone();
                push_str(&mut r, ": expected string result");
                r
            },
            TagOpError::MissingState => "missing state in create_tag response".to_owned(),
        }
    }
}

/// Whether `r` is what an operation yields when the runner was handed a
/// script with text `script`: the runner's failure, the text it printed, or,
/// when it printed no string, the error naming `op`.
pub open spec fn string_op_outcome<F: Fn(&str) -> Result<Json, String>>(
    run: F,
    script: Seq<char>,
    op: Seq<char>,
    r: Result<String, TagOpError>,
) -> bool {
    exists|s: &str, out: Result<Json, String>|
        #![trigger call_ensures(run, (s,), out)]
        s@ == script && call_ensures(run, (s,), out) && match out {
            Err(m) => r matches Err(TagOpError::Engine { message }) && message@ == m@,
            Ok(j) => match str_of(j@) {
                Some(t) => r matches Ok(state) && state@ == t,
                None => r matches Err(TagOpError::ExpectedString { op: o }) && o@ == op,
            },
        }
}

fn run_string_op<F: Fn(&str) -> Result<Json, String>>(run: &F, script: String, op: &str) -> (r:
    Result<String, TagOpError>)
    requires
        forall|s: &str| call_requires(*run, (s,)),
    ensures
        string_op_outcome(*run, script@, op@, r),
{
    let out = run(script.as_str());
    match out {
        Err(m) => Err(TagOpError::Engine { message: m }),
        Ok(j) => {
            match j {
                Json::Str(t) => Ok(t),
                _ => Err(TagOpError::ExpectedString { op: op.to_owned() }),
            }
        },
    }
}

/// Adds tag `tag_id` to document `doc_id`, running the operation with `run`,
/// and gives the new document state (base64).
pub fn assign_tag_op<F: Fn(&str) -> Result<Json, String>>(run: F, doc_id: &str, tag_id: &str) -> (r:
    Result<String, TagOpError>)
    requires
        forall|s: &str| call_requires(run, (s,)),
    ensures
        string_op_outcome(run, assign_tag_script_text(doc_id@, tag_id@), "assign_tag_op"@, r),
{
    run_string_op(&run, assign_tag_script(doc_id, tag_id), "assign_tag_op")
}

/// Removes tag `tag_id` from document `doc_id`, running the operation with
/// `run`, and gives the new document state (base64).
pub fn unassign_tag_op<F: Fn(&str) -> Result<Json, String>>(run: F, doc_id: &str, tag_id: &str) -> (r:
    Result<String, TagOpError>)
    requires
        forall|s: &str| call_requires(run, (s,)),
    ensures
        string_op_outcome(run, unassign_tag_script_text(doc_id@, tag_id@), "unassign_tag_op"@, r),
{
    run_string_op(&run, unassign_tag_script(doc_id, tag_id), "unassign_tag_op")
}

/// Deletes tag `tag_id` from the workspace (every option with that id, and every
/// occurrence in every document), running the operation with `run`,
/// and gives the new document state (base64).
pub fn delete_tag_op<F: Fn(&str) -> Result<Json, String>>(run: F, tag_id: &str) -> (r: Result<
    String,
    TagOpError,
>)
    requires
        forall|s: &str| call_requires(run, (s,)),
    ensures
        string_op_outcome(run, delete_tag_script_text(tag_id@), "delete_tag_op"@, r),
{
    run_string_op(&run, delete_tag_script(tag_id), "delete_tag_op")
}

/// Lists the tags, running the operation with `run`; gives what it printed.
pub fn list_tags_op<F: Fn(&str) -> Result<Json, String>>(run: F) -> (r: Result<Json, TagOpError>)
    requires
        forall|s: &str| call_requires(run, (s,)),
    ensures
        exists|s: &str, out: Result<Json, String>|
            #![trigger call_ensures(run, (s,), out)]
            s@ == list_tags_script_text() && call_ensures(run, (s,), out) && match out {
                Err(m) => r matches Err(TagOpError::Engine { message }) && message@ == m@,
                Ok(j) => r matches Ok(v) && v@ == j@,
            },
{
    let script = list_tags_script();
    let out = run(script.as_str());
    match out {
        Err(m) => Err(TagOpError::Engine { message: m }),
        Ok(j) => Ok(j),
    }
}

/// What creating a tag printed: the new tag (`null` when absent), and the new
/// document state when it printed one.
#[derive(Debug, PartialEq)]
pub struct CreatedTag {
    pub tag: Json,
    pub state: Option<String>,
}

/// Creates a tag named `name` with colour `color`, running the operation with
/// `run`.
pub fn create_tag_op<F: Fn(&str) -> Result<Json, String>>(run: F, name: &str, color: &str) -> (r:
    Result<CreatedTag, TagOpError>)
    requires
        forall|s: &str| call_requires(run, (s,)),
    ensures
        exists|s: &str, out: Result<Json, String>|
            #![trigger call_ensures(run, (s,), out)]
            s@ == create_tag_script_text(name@, color@) && call_ensures(run, (s,), out) && match out {
                Err(m) => r matches Err(TagOpError::Engine { message }) && message@ == m@,
                Ok(j) => r matches Ok(c) && c.tag@ == (match get_field(j@, "tag"@) {
                    Some(t) => t,
                    None => JsonV::Null,
                }) && match get_field(j@, "state"@) {
                    Some(st) => match str_of(st) {
                        Some(t) => c.state matches Some(x) && x@ == t,
                        None => c.state is None,
                    },
                    None => c.state is None,
                },
            },
{
    let script = create_tag_script(name, color);
    let out = run(script.as_str());
    match out {
        Err(m) => Err(TagOpError::Engine { message: m }),
        Ok(j) => {
            let state = match j.get("state") {
                Some(st) => match st.as_str() {
                    Some(t) => Some(t.clone()),
                    None => None,
                },
                None => None,
            };
            let tag = match j.take_field("tag") {
                Some(t) => t,
                None => Json::Null,
            };
            Ok(CreatedTag { tag, state })
        },
    }
}

/// The new document state of a created tag, or the error that it is missing.
pub fn require_state(state: Option<String>) -> (r: Result<String, TagOpError>)
    ensures
        match state {
            Some(s) => r matches Ok(t) && t@ == s@,
            None => r matches Err(TagOpError::MissingState),
        },
{
    match state {
        Some(s) => Ok(s),
        None => Err(TagOpError::MissingState),
    }
}

} // verus!

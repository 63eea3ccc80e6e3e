//! A JSON document model: what the library reads from and writes into the
//! request and response bodies, as plain values.
use vstd::prelude::*;
use crate::text::str_equal;

verus! {

/// A JSON value. Numbers that fit an `i64` are `Int`; other non-negative
/// integers are `UInt`; any other number is kept as its decimal text in `Float`.
/// Object fields keep their order; reading a key finds its first field, and
/// setting one replaces that field (or appends one).
#[derive(Debug, PartialEq)]
pub enum Json {
    Null,
    Bool(bool),
    Int(i64),
    UInt(u64),
    Float(String),
    Str(String),
    Array(Vec<Json>),
    Object(Vec<(String, Json)>),
}

/// The mathematical form of a `Json` value.
pub enum JsonV {
    Null,
    Bool(bool),
    Int(int),
    UInt(nat),
    Float(Seq<char>),
    Str(Seq<char>),
    Array(Seq<JsonV>),
    Object(Seq<(Seq<char>, JsonV)>),
}

impl View for Json {
    type V = JsonV;

    open spec fn view(&self) -> JsonV {
        json_view(*self)
    }
}

/// The mathematical form of a value.
pub open spec fn json_view(j: Json) -> JsonV
    decreases j,
{
    match j {
        Json::Null => JsonV::Null,
        Json::Bool(b) => JsonV::Bool(b),
        Json::Int(n) => JsonV::Int(n as int),
        Json::UInt(n) => JsonV::UInt(n as nat),
        Json::Float(t) => JsonV::Float(t@),
        Json::Str(s) => JsonV::Str(s@),
        Json::Array(items) => JsonV::Array(views_of(items@)),
        Json::Object(fields) => JsonV::Object(field_views(fields@)),
    }
}

/// The views of a list of values.
pub open spec fn views_of(items: Seq<Json>) -> Seq<JsonV>
    decreases items,
{
    if items.len() == 0 {
        Seq::empty()
    } else {
        seq![json_view(items[0])] + views_of(items.drop_first())
    }
}

/// The views of a list of object fields.
pub open spec fn field_views(fields: Seq<(String, Json)>) -> Seq<(Seq<char>, JsonV)>
    decreases fields,
{
    if fields.len() == 0 {
        Seq::empty()
    } else {
        seq![(fields[0].0@, json_view(fields[0].1))] + field_views(fields.drop_first())
    }
}

/// Lengths and elements of `views_of`.
pub proof fn lemma_views_of(items: Seq<Json>)
    ensures
        views_of(items).len() == items.len(),
        forall|i: int| 0 <= i < items.len() ==> #[trigger] views_of(items)[i] == json_view(items[i]),
    decreases items.len(),
{
    if items.len() > 0 {
        lemma_views_of(items.drop_first());
        assert forall|i: int| 0 <= i < items.len() implies #[trigger] views_of(items)[i] == json_view(items[i]) by {
            if i > 0 {
                assert(items.drop_first()[i - 1] == items[i]);
            }
        }
    }
}

/// Lengths and elements of `field_views`.
pub proof fn lemma_field_views(fields: Seq<(String, Json)>)
    ensures
        field_views(fields).len() == fields.len(),
        forall|i: int| 0 <= i < fields.len() ==> #[trigger] field_views(fields)[i] == (fields[i].0@, json_view(fields[i].1)),
    decreases fields.len(),
{
    if fields.len() > 0 {
        lemma_field_views(fields.drop_first());
        assert forall|i: int| 0 <= i < fields.len() implies #[trigger] field_views(fields)[i] == (fields[i].0@, json_view(fields[i].1)) by {
            if i > 0 {
                assert(fields.drop_first()[i - 1] == fields[i]);
            }
        }
    }
}

/// The first field named `k`, if any.
pub open spec fn field_of(fs: Seq<(Seq<char>, JsonV)>, k: Seq<char>) -> Option<JsonV>
    decreases fs.len(),
{
    if fs.len() == 0 {
        None
    } else if fs[0].0 == k {
        Some(fs[0].1)
    } else {
        field_of(fs.drop_first(), k)
    }
}

/// `v[k]` when `v` is an object holding `k` (`serde_json::Value::get` with a key).
pub open spec fn get_field(v: JsonV, k: Seq<char>) -> Option<JsonV> {
    match v {
        JsonV::Object(fs) => field_of(fs, k),
        _ => None,
    }
}

/// The text of a string value (`Value::as_str`).
pub open spec fn str_of(v: JsonV) -> Option<Seq<char>> {
    match v {
        JsonV::Str(s) => Some(s),
        _ => None,
    }
}

/// `get_field` followed by `str_of`.
pub open spec fn str_field(v: JsonV, k: Seq<char>) -> Option<Seq<char>> {
    match get_field(v, k) {
        Some(x) => str_of(x),
        None => None,
    }
}

/// The value of a boolean (`Value::as_bool`).
pub open spec fn bool_of(v: JsonV) -> Option<bool> {
    match v {
        JsonV::Bool(b) => Some(b),
        _ => None,
    }
}

/// The value of a non-negative integer that fits a `u64` (`Value::as_u64`).
pub open spec fn u64_of(v: JsonV) -> Option<nat> {
    match v {
        JsonV::Int(n) => if n >= 0 {
            Some(n as nat)
        } else {
            None
        },
        JsonV::UInt(n) => if n <= u64::MAX {
            Some(n)
        } else {
            None
        },
        _ => None,
    }
}

/// The value of an integer that fits an `i64` (`Value::as_i64`).
pub open spec fn i64_of(v: JsonV) -> Option<int> {
    match v {
        JsonV::Int(n) => Some(n),
        JsonV::UInt(n) => if n <= i64::MAX {
            Some(n as int)
        } else {
            None
        },
        _ => None,
    }
}

proof fn lemma_field_of_skip(fs: Seq<(Seq<char>, JsonV)>, k: Seq<char>, i: int)
    requires
        0 <= i <= fs.len(),
        forall|j: int| 0 <= j < i ==> fs[j].0 != k,
    ensures
        field_of(fs, k) == field_of(fs.skip(i), k),
    decreases i,
{
    if i > 0 {
        lemma_field_of_skip(fs, k, i - 1);
        assert(fs.skip(i - 1).drop_first() =~= fs.skip(i));
    } else {
        assert(fs.skip(0) =~= fs);
    }
}

/// Where in `fields` the first field named `key` stands.
fn position_of(fields: &Vec<(String, Json)>, key: &str) -> (r: Option<usize>)
    ensures
        match r {
            Some(i) => i < fields@.len() && field_views(fields@)[i as int].0 == key@ && field_of(
                field_views(fields@),
                key@,
            ) == Some(field_views(fields@)[i as int].1) && (forall|j: int|
                0 <= j < i ==> field_views(fields@)[j].0 != key@),
            None => field_of(field_views(fields@), key@) is None && (forall|j: int|
                0 <= j < fields@.len() ==> field_views(fields@)[j].0 != key@),
        },
{
    let ghost fs = field_views(fields@);
    proof {
        lemma_field_views(fields@);
    }
    let mut i: usize = 0;
    while i < fields.len()
        invariant
            0 <= i <= fields@.len(),
            fs == field_views(fields@),
            fs.len() == fields@.len(),
            forall|j: int| 0 <= j < fields@.len() ==> #[trigger] fs[j] == (fields@[j].0@, json_view(fields@[j].1)),
            forall|j: int| 0 <= j < i ==> fs[j].0 != key@,
        decreases fields.len() - i,
    {
        if str_equal(fields[i].0.as_str(), key) {
            proof {
                lemma_field_of_skip(fs, key@, i as int);
                assert(fs.skip(i as int)[0] == fs[i as int]);
            }
            return Some(i);
        }
        i += 1;
    }
    proof {
        lemma_field_of_skip(fs, key@, i as int);
    }
    None
}

/// The fields after setting `k` to `v`: the first field named `k` gets the new
/// value, or the field is appended when there is none (`Map::insert`).
pub open spec fn set_field(fs: Seq<(Seq<char>, JsonV)>, k: Seq<char>, v: JsonV) -> Seq<
    (Seq<char>, JsonV),
>
    decreases fs.len(),
{
    if fs.len() == 0 {
        seq![(k, v)]
    } else if fs[0].0 == k {
        seq![(k, v)] + fs.drop_first()
    } else {
        seq![fs[0]] + set_field(fs.drop_first(), k, v)
    }
}

proof fn lemma_set_field_at(fs: Seq<(Seq<char>, JsonV)>, k: Seq<char>, v: JsonV, i: int)
    requires
        0 <= i <= fs.len(),
        forall|j: int| 0 <= j < i ==> fs[j].0 != k,
        i < fs.len() ==> fs[i].0 == k,
    ensures
        i < fs.len() ==> set_field(fs, k, v) == fs.update(i, (k, v)),
        i == fs.len() ==> set_field(fs, k, v) == fs.push((k, v)),
    decreases i,
{
    if i > 0 {
        lemma_set_field_at(fs.drop_first(), k, v, i - 1);
        if i < fs.len() {
            assert(seq![fs[0]] + fs.drop_first().update(i - 1, (k, v)) =~= fs.update(i, (k, v)));
        } else {
            assert(seq![fs[0]] + fs.drop_first().push((k, v)) =~= fs.push((k, v)));
        }
    } else {
        if fs.len() > 0 {
            assert(seq![(k, v)] + fs.drop_first() =~= fs.update(0, (k, v)));
        } else {
            assert(seq![(k, v)] =~= fs.push((k, v)));
        }
    }
}

/// Reading a field just set gives the value set, and every other field reads
/// as before.
pub proof fn law_field_of_set_field(fs: Seq<(Seq<char>, JsonV)>, k: Seq<char>, v: JsonV, other: Seq<char>)
    ensures
        field_of(set_field(fs, k, v), k) == Some(v),
        other != k ==> field_of(set_field(fs, k, v), other) == field_of(fs, other),
    decreases fs.len(),
{
    if fs.len() == 0 {
        assert(seq![(k, v)].drop_first() =~= fs);
    } else if fs[0].0 == k {
        assert((seq![(k, v)] + fs.drop_first()).drop_first() =~= fs.drop_first());
    } else {
        law_field_of_set_field(fs.drop_first(), k, v, other);
        let t = seq![fs[0]] + set_field(fs.drop_first(), k, v);
        assert(t.drop_first() =~= set_field(fs.drop_first(), k, v));
    }
}

/// Reading a path just written gives the value written, wherever the path
/// leads to a value.
pub proof fn law_get_path_set_path(v: JsonV, path: Seq<Seq<char>>, x: JsonV)
    requires
        get_path(v, path) is Some,
    ensures
        get_path(set_path(v, path, x), path) == Some(x),
    decreases path.len(),
{
    if path.len() > 0 {
        let k = path[0];
        let c = get_field(v, k)->0;
        law_get_path_set_path(c, path.drop_first(), x);
        match v {
            JsonV::Object(fs) => {
                law_field_of_set_field(fs, k, set_path(c, path.drop_first(), x), k);
            },
            _ => {},
        }
    }
}

/// Writing at one path leaves the value at a sibling path (same parent,
/// another last key) as it was.
pub proof fn lemma_set_path_sibling(v: JsonV, p: Seq<Seq<char>>, q: Seq<Seq<char>>, x: JsonV)
    requires
        p.len() == q.len(),
        p.len() > 0,
        p.drop_last() == q.drop_last(),
        p.last() != q.last(),
    ensures
        get_path(set_path(v, q, x), p) == get_path(v, p),
    decreases p.len(),
{
    let k = q[0];
    match v {
        JsonV::Object(fs) => {
            match field_of(fs, k) {
                Some(c) => {
                    let w = set_path(c, q.drop_first(), x);
                    if p.len() == 1 {
                        assert(p[0] == p.last() && q[0] == q.last());
                        law_field_of_set_field(fs, k, w, p[0]);
                        assert(p.drop_first().len() == 0);
                    } else {
                        assert(p[0] == p.drop_last()[0] && q[0] == q.drop_last()[0]);
                        assert(p.drop_first().drop_last() =~= p.drop_last().drop_first());
                        assert(q.drop_first().drop_last() =~= q.drop_last().drop_first());
                        assert(p.drop_first().last() == p.last());
                        assert(q.drop_first().last() == q.last());
                        lemma_set_path_sibling(c, p.drop_first(), q.drop_first(), x);
                        law_field_of_set_field(fs, k, w, k);
                    }
                },
                None => {},
            }
        },
        _ => {},
    }
}

/// Appends the field `key: value` to a list of object fields.
pub fn push_field(fields: &mut Vec<(String, Json)>, key: &str, value: Json)
    ensures
        field_views(final(fields)@) == field_views(old(fields)@).push((key@, value@)),
{
    let ghost kv = (key@, value@);
    fields.push((key.to_owned(), value));
    proof {
        lemma_field_views(old(fields)@);
        lemma_field_views(fields@);
        assert(field_views(fields@) =~= field_views(old(fields)@).push(kv));
    }
}

/// Sets the field `key` to `value` (`serde_json::Map::insert`).
pub fn set_field_in(fields: &mut Vec<(String, Json)>, key: &str, value: Json)
    ensures
        field_views(final(fields)@) == set_field(field_views(old(fields)@), key@, value@),
{
    let ghost fs = field_views(fields@);
    let ghost kv = (key@, value@);
    proof {
        lemma_field_views(fields@);
    }
    match position_of(fields, key) {
        Some(i) => {
            proof {
                lemma_set_field_at(fs, key@, value@, i as int);
            }
            fields.set(i, (key.to_owned(), value));
            proof {
                lemma_field_views(fields@);
                assert(field_views(fields@) =~= fs.update(i as int, kv));
            }
        },
        None => {
            proof {
                lemma_set_field_at(fs, key@, value@, fs.len() as int);
            }
            fields.push((key.to_owned(), value));
            proof {
                lemma_field_views(fields@);
                assert(field_views(fields@) =~= fs.push(kv));
            }
        },
    }
}

/// Appends a value to a list of array items.
pub fn push_item(items: &mut Vec<Json>, value: Json)
    ensures
        views_of(final(items)@) == views_of(old(items)@).push(value@),
{
    let ghost x = value@;
    items.push(value);
    proof {
        lemma_views_of(old(items)@);
        lemma_views_of(items@);
        assert(views_of(items@) =~= views_of(old(items)@).push(x));
    }
}

/// A deep copy of a value.
pub fn clone_json(j: &Json) -> (r: Json)
    ensures
        r@ == j@,
    decreases j,
{
    match j {
        Json::Null => Json::Null,
        Json::Bool(b) => Json::Bool(*b),
        Json::Int(n) => Json::Int(*n),
        Json::UInt(n) => Json::UInt(*n),
        Json::Float(t) => Json::Float(t.clone()),
        Json::Str(s) => Json::Str(s.clone()),
        Json::Array(items) => {
            let mut out: Vec<Json> = Vec::new();
            let mut i: usize = 0;
            while i < items.len()
                invariant
                    0 <= i <= items@.len(),
                    *j is Array,
                    (*j)->Array_0 == *items,
                    views_of(out@) == views_of(items@.take(i as int)),
                decreases items.len() - i,
            {
                proof {
                    assert(*j is Array);
                    assert(decreases_to!(*j => (*j)->Array_0));
                    assert(decreases_to!(*items => items@));
                    assert(decreases_to!(items@ => items@[i as int]));
                    assert(decreases_to!(j => items@[i as int]));
                }
                let c = clone_json(&items[i]);
                push_item(&mut out, c);
                proof {
                    lemma_views_of(items@.take(i + 1));
                    lemma_views_of(items@.take(i as int));
                    assert(views_of(items@.take(i + 1)) =~= views_of(items@.take(i as int)).push(
                        items@[i as int]@,
                    ));
                }
                i += 1;
            }
            proof {
                assert(items@.take(i as int) =~= items@);
            }
            Json::Array(out)
        },
        Json::Object(fields) => {
            let mut out: Vec<(String, Json)> = Vec::new();
            let mut i: usize = 0;
            while i < fields.len()
                invariant
                    0 <= i <= fields@.len(),
                    *j is Object,
                    (*j)->Object_0 == *fields,
                    field_views(out@) == field_views(fields@.take(i as int)),
                decreases fields.len() - i,
            {
                proof {
                    assert(decreases_to!(*j => (*j)->Object_0));
                    assert(decreases_to!(*fields => fields@));
                    assert(decreases_to!(fields@ => fields@[i as int]));
                    assert(decreases_to!(fields@[i as int] => fields@[i as int].1));
                    assert(decreases_to!(j => fields@[i as int].1));
                }
                let c = clone_json(&fields[i].1);
                push_field(&mut out, fields[i].0.as_str(), c);
                proof {
                    lemma_field_views(fields@.take(i + 1));
                    lemma_field_views(fields@.take(i as int));
                    assert(field_views(fields@.take(i + 1)) =~= field_views(fields@.take(i as int)).push(
                        (fields@[i as int].0@, fields@[i as int].1@),
                    ));
                }
                i += 1;
            }
            proof {
                assert(fields@.take(i as int) =~= fields@);
            }
            Json::Object(out)
        },
    }
}

/// The value at a path of object keys.
pub open spec fn get_path(v: JsonV, path: Seq<Seq<char>>) -> Option<JsonV>
    decreases path.len(),
{
    if path.len() == 0 {
        Some(v)
    } else {
        match get_field(v, path[0]) {
            Some(x) => get_path(x, path.drop_first()),
            None => None,
        }
    }
}

/// The value with the value at a path of object keys replaced by `x`; the
/// value unchanged when the path leads nowhere.
pub open spec fn set_path(v: JsonV, path: Seq<Seq<char>>, x: JsonV) -> JsonV
    decreases path.len(),
{
    if path.len() == 0 {
        x
    } else {
        match v {
            JsonV::Object(fs) => match field_of(fs, path[0]) {
                Some(c) => JsonV::Object(set_field(fs, path[0], set_path(c, path.drop_first(), x))),
                None => v,
            },
            _ => v,
        }
    }
}

/// The views of a path of keys.
pub open spec fn path_views(path: Seq<String>) -> Seq<Seq<char>> {
    path.map_values(|k: String| k@)
}

/// The value at `path[from..]`.
pub fn get_path_at<'a>(v: &'a Json, path: &Vec<String>, from: usize) -> (r: Option<&'a Json>)
    requires
        from <= path@.len(),
    ensures
        match r {
            Some(x) => get_path(v@, path_views(path@).skip(from as int)) == Some(x@),
            None => get_path(v@, path_views(path@).skip(from as int)) is None,
        },
    decreases path.len() - from,
{
    if from == path.len() {
        return Some(v);
    }
    proof {
        assert(path_views(path@).skip(from as int).drop_first() =~= path_views(path@).skip(from + 1));
    }
    match v.get(path[from].as_str()) {
        Some(x) => get_path_at(x, path, from + 1),
        None => None,
    }
}

/// Replaces the value at `path[from..]` with `x`.
pub fn set_path_at(v: Json, path: &Vec<String>, from: usize, x: Json) -> (r: Json)
    requires
        from <= path@.len(),
    ensures
        r@ == set_path(v@, path_views(path@).skip(from as int), x@),
    decreases path.len() - from,
{
    if from == path.len() {
        return x;
    }
    proof {
        assert(path_views(path@).skip(from as int).drop_first() =~= path_views(path@).skip(from + 1));
    }
    let ghost vv = v@;
    match v {
        Json::Object(fields) => {
            proof {
                lemma_field_views(fields@);
            }
            match position_of(&fields, path[from].as_str()) {
                Some(i) => {
                    let ghost fs = field_views(fields@);
                    let mut fields = fields;
                    let (k, child) = fields.remove(i);
                    let ghost cv = child@;
                    let updated = set_path_at(child, path, from + 1, x);
                    let ghost uv = updated@;
                    fields.insert(i, (k, updated));
                    proof {
                        lemma_field_views(fields@);
                        lemma_set_field_at(fs, path[from as int]@, uv, i as int);
                        assert(field_views(fields@) =~= fs.update(i as int, (path[from as int]@, uv)));
                    }
                    Json::Object(fields)
                },
                None => Json::Object(fields),
            }
        },
        other => other,
    }
}

impl Json {
    /// A string value.
    pub fn string(s: &str) -> (r: Json)
        ensures
            r@ == JsonV::Str(s@),
    {
        Json::Str(s.to_owned())
    }

    /// The field `key` of an object (`Value::get`); `None` on any other value.
    pub fn get(&self, key: &str) -> (r: Option<&Json>)
        ensures
            match r {
                Some(x) => get_field(self@, key@) == Some(x@),
                None => get_field(self@, key@) is None,
            },
    {
        match self {
            Json::Object(fields) => {
                proof {
                    lemma_field_views(fields@);
                }
                match position_of(fields, key) {
                    Some(i) => Some(&fields[i].1),
                    None => None,
                }
            },
            _ => None,
        }
    }

    /// The field `key` of an object, taken out of it; `None` on any other value.
    pub fn take_field(self, key: &str) -> (r: Option<Json>)
        ensures
            match r {
                Some(x) => get_field(self@, key@) == Some(x@),
                None => get_field(self@, key@) is None,
            },
    {
        match self {
            Json::Object(fields) => {
                proof {
                    lemma_field_views(fields@);
                }
                match position_of(&fields, key) {
                    Some(i) => {
                        let mut fields = fields;
                        let x = fields.remove(i);
                        Some(x.1)
                    },
                    None => None,
                }
            },
            _ => None,
        }
    }

    /// The field `key` of an object when it has one, else the value itself
    /// (`v.get(key).cloned().unwrap_or(v)`).
    pub fn into_field_or_self(self, key: &str) -> (r: Json)
        ensures
            r@ == match get_field(self@, key@) {
                Some(x) => x,
                None => self@,
            },
    {
        let ghost sv = self@;
        match self {
            Json::Object(fields) => {
                proof {
                    lemma_field_views(fields@);
                }
                match position_of(&fields, key) {
                    Some(i) => {
                        let mut fields = fields;
                        let x = fields.remove(i);
                        x.1
                    },
                    None => Json::Object(fields),
                }
            },
            other => other,
        }
    }

    /// The text of a string value (`Value::as_str`).
    pub fn as_str(&self) -> (r: Option<&String>)
        ensures
            match r {
                Some(s) => str_of(self@) == Some(s@),
                None => str_of(self@) is None,
            },
    {
        match self {
            Json::Str(s) => Some(s),
            _ => None,
        }
    }

    /// The value of a boolean (`Value::as_bool`).
    pub fn as_bool(&self) -> (r: Option<bool>)
        ensures
            r == bool_of(self@),
    {
        match self {
            Json::Bool(b) => Some(*b),
            _ => None,
        }
    }

    /// The value of a non-negative integer (`Value::as_u64`).
    pub fn as_u64(&self) -> (r: Option<u64>)
        ensures
            match r {
                Some(n) => u64_of(self@) == Some(n as nat),
                None => u64_of(self@) is None,
            },
    {
        match self {
            Json::Int(n) => if *n >= 0 {
                Some(*n as u64)
            } else {
                None
            },
            Json::UInt(n) => Some(*n),
            _ => None,
        }
    }

    /// The value of an integer that fits an `i64` (`Value::as_i64`).
    pub fn as_i64(&self) -> (r: Option<i64>)
        ensures
            match r {
                Some(n) => i64_of(self@) == Some(n as int),
                None => i64_of(self@) is None,
            },
    {
        match self {
            Json::Int(n) => Some(*n),
            Json::UInt(n) => if *n <= 0x7fff_ffff_ffff_ffff {
                Some(*n as i64)
            } else {
                None
            },
            _ => None,
        }
    }

    /// Whether the value is `null`.
    pub fn is_null(&self) -> (b: bool)
        ensures
            b == (self@ is Null),
    {
        match self {
            Json::Null => true,
            _ => false,
        }
    }
}

/// The object whose fields are the given (name, text) pairs, in order, each
/// text a string value.
pub open spec fn string_object_spec(pairs: Seq<(&str, &str)>) -> JsonV {
    JsonV::Object(pairs.map_values(|p: (&str, &str)| (p.0@, JsonV::Str(p.1@))))
}

/// Builds an object of string fields.
pub fn string_object(pairs: &[(&str, &str)]) -> (r: Json)
    ensures
        r@ == string_object_spec(pairs@),
{
    let mut fields: Vec<(String, Json)> = Vec::new();
    proof {
        assert(field_views(fields@) =~= Seq::empty());
    }
    let mut i: usize = 0;
    while i < pairs.len()
        invariant
            0 <= i <= pairs@.len(),
            field_views(fields@) == pairs@.take(i as int).map_values(
                |p: (&str, &str)| (p.0@, JsonV::Str(p.1@)),
            ),
        decreases pairs.len() - i,
    {
        let (k, v) = pairs[i];
        let ghost before = field_views(fields@);
        push_field(&mut fields, k, Json::string(v));
        proof {
            assert(pairs@.take(i + 1).map_values(|p: (&str, &str)| (p.0@, JsonV::Str(p.1@)))
                =~= before.push((k@, JsonV::Str(v@))));
        }
        i += 1;
    }
    proof {
        assert(pairs@.take(i as int) =~= pairs@);
    }
    Json::Object(fields)
}

} // verus!

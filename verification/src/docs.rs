//! Document lists: filling in the titles and summaries that a list left out
//! (the list query returns what the indexer has cached, which may be `null`;
//! each such document is fetched on its own and its title and summary copied
//! into the list), following the list page by page, and showing it as a table.
use vstd::prelude::*;
use crate::json::{
    Json,
    JsonV,
    clone_json,
    get_field,
    get_path,
    get_path_at,
    lemma_views_of,
    law_get_path_set_path,
    lemma_set_path_sibling,
    path_views,
    set_field,
    set_field_in,
    set_path,
    set_path_at,
    str_field,
    views_of,
};
use crate::text::{join, push_char, push_str, str_equal};
use crate::client::opt_string;
use crate::upload::bool_of_field;

verus! {

/// The paths, tried in this order, at which a document list keeps its edges:
/// with or without the `data` envelope, for the full and the recent list.
pub open spec fn edge_paths() -> Seq<Seq<Seq<char>>> {
    seq![
        seq!["data"@, "workspace"@, "docs"@, "edges"@],
        seq!["data"@, "workspace"@, "recentlyUpdatedDocs"@, "edges"@],
        seq!["workspace"@, "docs"@, "edges"@],
        seq!["workspace"@, "recentlyUpdatedDocs"@, "edges"@],
    ]
}

/// Whether the value at `path` is an array.
pub open spec fn is_array_at(v: JsonV, path: Seq<Seq<char>>) -> bool {
    get_path(v, path) matches Some(JsonV::Array(_))
}

/// The first of `edge_paths()` that leads to an array, if any.
pub open spec fn edges_path_of(v: JsonV) -> Option<Seq<Seq<char>>> {
    if is_array_at(v, edge_paths()[0]) {
        Some(edge_paths()[0])
    } else if is_array_at(v, edge_paths()[1]) {
        Some(edge_paths()[1])
    } else if is_array_at(v, edge_paths()[2]) {
        Some(edge_paths()[2])
    } else if is_array_at(v, edge_paths()[3]) {
        Some(edge_paths()[3])
    } else {
        None
    }
}

fn path_of(keys: &[&str]) -> (r: Vec<String>)
    ensures
        path_views(r@) == keys@.map_values(|k: &str| k@),
{
    let mut r: Vec<String> = Vec::new();
    let mut i: usize = 0;
    while i < keys.len()
        invariant
            0 <= i <= keys@.len(),
            path_views(r@) == keys@.take(i as int).map_values(|k: &str| k@),
        decreases keys.len() - i,
    {
        let ghost before = r@;
        let k = keys[i].to_owned();
        assert(k@ == keys@[i as int]@);
        r.push(k);
        proof {
            assert(path_views(r@) =~= path_views(before).push(keys@[i as int]@));
            assert(keys@.take(i + 1).map_values(|k: &str| k@) =~= keys@.take(i as int).map_values(
                |k: &str| k@,
            ).push(keys@[i as int]@));
        }
        i += 1;
    }
    proof {
        assert(keys@.take(i as int) =~= keys@);
    }
    r
}

fn array_at(v: &Json, path: &Vec<String>) -> (b: bool)
    ensures
        b == is_array_at(v@, path_views(path@)),
{
    proof {
        assert(path_views(path@).skip(0) =~= path_views(path@));
    }
    match get_path_at(v, path, 0) {
        Some(Json::Array(_)) => true,
        _ => false,
    }
}

/// Where the edges of a document list are.
pub fn doc_edges_path(list: &Json) -> (r: Option<Vec<String>>)
    ensures
        match edges_path_of(list@) {
            Some(p) => r matches Some(q) && path_views(q@) == p,
            None => r is None,
        },
{
    let p0 = path_of(&["data", "workspace", "docs", "edges"]);
    let p1 = path_of(&["data", "workspace", "recentlyUpdatedDocs", "edges"]);
    let p2 = path_of(&["workspace", "docs", "edges"]);
    let p3 = path_of(&["workspace", "recentlyUpdatedDocs", "edges"]);
    proof {
        assert(path_views(p0@) =~= edge_paths()[0]);
        assert(path_views(p1@) =~= edge_paths()[1]);
        assert(path_views(p2@) =~= edge_paths()[2]);
        assert(path_views(p3@) =~= edge_paths()[3]);
    }
    if array_at(list, &p0) {
        Some(p0)
    } else if array_at(list, &p1) {
        Some(p1)
    } else if array_at(list, &p2) {
        Some(p2)
    } else if array_at(list, &p3) {
        Some(p3)
    } else {
        None
    }
}

/// The document an edge needs fetched: its node's id, when the node has no
/// string title.
pub open spec fn edge_target(edge: JsonV) -> Option<Seq<char>> {
    match get_field(edge, "node"@) {
        Some(node) => if str_field(node, "title"@) is Some {
            None
        } else {
            str_field(node, "id"@)
        },
        None => None,
    }
}

/// The (edge index, document id) of each edge that needs its document fetched.
pub open spec fn targets_of(edges: Seq<JsonV>) -> Seq<(int, Seq<char>)>
    decreases edges.len(),
{
    if edges.len() == 0 {
        Seq::empty()
    } else {
        match edge_target(edges.last()) {
            Some(id) => targets_of(edges.drop_last()).push(((edges.len() - 1) as int, id)),
            None => targets_of(edges.drop_last()),
        }
    }
}

/// Which documents of a list to fetch: where the edges are, and for each edge
/// that lacks a title, its index and document id.
#[derive(Debug, PartialEq)]
pub struct ResolvePlan {
    pub path: Vec<String>,
    pub targets: Vec<(usize, String)>,
}

/// The views of (index, id) pairs.
pub open spec fn target_views(t: Seq<(usize, String)>) -> Seq<(int, Seq<char>)> {
    t.map_values(|p: (usize, String)| (p.0 as int, p.1@))
}

fn str_field_of(v: &Json, k: &str) -> (r: Option<String>)
    ensures
        match r {
            Some(s) => str_field(v@, k@) == Some(s@),
            None => str_field(v@, k@) is None,
        },
{
    match v.get(k) {
        Some(x) => match x.as_str() {
            Some(s) => Some(s.clone()),
            None => None,
        },
        None => None,
    }
}

/// Plans the fetches that fill in a document list; `None` when the list has no
/// edges to fill in.
pub fn plan_title_resolution(list: &Json) -> (r: Option<ResolvePlan>)
    ensures
        match edges_path_of(list@) {
            None => r is None,
            Some(p) => r matches Some(plan) && path_views(plan.path@) == p && (get_path(list@, p)
                matches Some(JsonV::Array(edges)) && target_views(plan.targets@) == targets_of(
                edges,
            )),
        },
{
    let path = match doc_edges_path(list) {
        Some(p) => p,
        None => {
            return None;
        },
    };
    proof {
        assert(path_views(path@).skip(0) =~= path_views(path@));
    }
    let edges = match get_path_at(list, &path, 0) {
        Some(Json::Array(items)) => items,
        _ => {
            return None;
        },
    };
    proof {
        lemma_views_of(edges@);
    }
    let ghost ev = views_of(edges@);
    let mut targets: Vec<(usize, String)> = Vec::new();
    let mut i: usize = 0;
    while i < edges.len()
        invariant
            0 <= i <= edges@.len(),
            ev == views_of(edges@),
            ev.len() == edges@.len(),
            forall|j: int| 0 <= j < edges@.len() ==> #[trigger] ev[j] == edges@[j]@,
            target_views(targets@) == targets_of(ev.take(i as int)),
        decreases edges.len() - i,
    {
        let e = &edges[i];
        let target = match e.get("node") {
            Some(node) => match str_field_of(node, "title") {
                Some(_) => None,
                None => str_field_of(node, "id"),
            },
            None => None,
        };
        proof {
            assert(ev.take(i + 1).drop_last() =~= ev.take(i as int));
            assert(ev.take(i + 1).last() == e@);
        }
        if let Some(id) = target {
            let ghost before = targets@;
            targets.push((i, id));
            proof {
                assert(target_views(targets@) =~= target_views(before).push((i as int, id@)));
            }
        }
        i += 1;
    }
    proof {
        assert(ev.take(i as int) =~= ev);
    }
    Some(ResolvePlan { path, targets })
}

/// A node with field `k` of the fetched document copied in, when the document
/// has it and it is not `null`.
pub open spec fn copy_field(node: JsonV, doc: JsonV, k: Seq<char>) -> JsonV {
    match get_field(doc, k) {
        Some(v) => if v is Null {
            node
        } else {
            match node {
                JsonV::Object(fs) => JsonV::Object(set_field(fs, k, v)),
                _ => node,
            }
        },
        None => node,
    }
}

/// A node with the title and summary of a fetched `getDoc` answer copied in.
pub open spec fn merged_node(node: JsonV, fetched: JsonV) -> JsonV {
    match get_path(fetched, seq!["workspace"@, "doc"@]) {
        Some(doc) => copy_field(copy_field(node, doc, "title"@), doc, "summary"@),
        None => node,
    }
}

/// An edge with the title and summary of a fetched document copied into its node.
pub open spec fn merged_edge(edge: JsonV, fetched: JsonV) -> JsonV {
    match get_field(edge, "node"@) {
        Some(node) => set_path(edge, seq!["node"@], merged_node(node, fetched)),
        None => edge,
    }
}

/// The edges after merging each fetched document into the edge it was fetched for.
pub open spec fn merge_all(edges: Seq<JsonV>, fetched: Seq<(int, JsonV)>) -> Seq<JsonV>
    decreases fetched.len(),
{
    if fetched.len() == 0 {
        edges
    } else {
        let e = merge_all(edges, fetched.drop_last());
        let (i, f) = fetched.last();
        if 0 <= i < e.len() {
            e.update(i, merged_edge(e[i], f))
        } else {
            e
        }
    }
}

proof fn lemma_targets_need_fetch(edges: Seq<JsonV>)
    ensures
        forall|t: int|
            0 <= t < targets_of(edges).len() ==> 0 <= (#[trigger] targets_of(edges)[t]).0 < edges.len()
                && edge_target(edges[targets_of(edges)[t].0]) is Some,
    decreases edges.len(),
{
    if edges.len() > 0 {
        let d = edges.drop_last();
        lemma_targets_need_fetch(d);
        assert forall|t: int| 0 <= t < targets_of(edges).len() implies 0 <= (
        #[trigger] targets_of(edges)[t]).0 < edges.len() && edge_target(
            edges[targets_of(edges)[t].0],
        ) is Some by {
            if t < targets_of(d).len() {
                assert(targets_of(edges)[t] == targets_of(d)[t]);
                assert(edges[targets_of(d)[t].0] == d[targets_of(d)[t].0]);
            }
        }
    }
}

proof fn lemma_merge_all_elsewhere(edges: Seq<JsonV>, fetched: Seq<(int, JsonV)>, i: int)
    requires
        0 <= i < edges.len(),
        forall|k: int| 0 <= k < fetched.len() ==> (#[trigger] fetched[k]).0 != i,
    ensures
        merge_all(edges, fetched).len() == edges.len(),
        merge_all(edges, fetched)[i] == edges[i],
    decreases fetched.len(),
{
    if fetched.len() > 0 {
        let d = fetched.drop_last();
        assert forall|k: int| 0 <= k < d.len() implies (#[trigger] d[k]).0 != i by {
            assert(d[k] == fetched[k]);
        }
        lemma_merge_all_elsewhere(edges, d, i);
        assert(fetched.last() == fetched[fetched.len() - 1]);
    }
}

/// Filling in a document list leaves alone every edge whose node already had a
/// string title (or no id): only edges that the plan listed are fetched, so
/// only they change, and the list keeps its length.
pub proof fn law_titled_edges_unchanged(edges: Seq<JsonV>, fetched: Seq<(int, JsonV)>, i: int)
    requires
        0 <= i < edges.len(),
        edge_target(edges[i]) is None,
        forall|k: int|
            0 <= k < fetched.len() ==> exists|t: int|
                0 <= t < targets_of(edges).len() && #[trigger] targets_of(edges)[t].0 == (
                #[trigger] fetched[k]).0,
    ensures
        merge_all(edges, fetched).len() == edges.len(),
        merge_all(edges, fetched)[i] == edges[i],
{
    lemma_targets_need_fetch(edges);
    assert forall|k: int| 0 <= k < fetched.len() implies (#[trigger] fetched[k]).0 != i by {
        let t = choose|t: int|
            0 <= t < targets_of(edges).len() && #[trigger] targets_of(edges)[t].0 == fetched[k].0;
        assert(edge_target(edges[targets_of(edges)[t].0]) is Some);
    }
    lemma_merge_all_elsewhere(edges, fetched, i);
}

/// Whether `v` has field `k` with a value other than `null`.
pub open spec fn has_value(v: JsonV, k: Seq<char>) -> bool {
    match get_field(v, k) {
        Some(x) => !(x is Null),
        None => false,
    }
}

/// Merging a fetched `getDoc` answer into an edge whose node is an object
/// gives the node the answer's title and its summary, wherever these are not
/// `null`, and leaves every other field of the node as it was.
pub proof fn law_merged_edge_takes_title_and_summary(
    edge: JsonV,
    fetched: JsonV,
    fs: Seq<(Seq<char>, JsonV)>,
    doc: JsonV,
    k: Seq<char>,
)
    requires
        get_field(edge, "node"@) == Some(JsonV::Object(fs)),
        get_path(fetched, seq!["workspace"@, "doc"@]) == Some(doc),
    ensures
        (k == "title"@ || k == "summary"@) && has_value(doc, k) ==> get_field(
            node_of(merged_edge(edge, fetched)),
            k,
        ) == get_field(doc, k),
        k != "title"@ && k != "summary"@ ==> get_field(node_of(merged_edge(edge, fetched)), k)
            == get_field(JsonV::Object(fs), k),
{
    let node = JsonV::Object(fs);
    let merged = merged_node(node, fetched);
    let np = seq!["node"@];
    assert(np[0] == "node"@);
    assert(np.drop_first() =~= Seq::<Seq<char>>::empty());
    assert(get_path(node, np.drop_first()) == Some(node));
    assert(get_path(edge, np) == Some(node));
    law_get_path_set_path(edge, np, merged);
    let e2 = set_path(edge, np, merged);
    assert(get_path(e2, np) == Some(merged));
    match get_field(e2, "node"@) {
        Some(x) => assert(get_path(x, np.drop_first()) == Some(x)),
        None => {},
    }
    assert(get_field(e2, "node"@) == Some(merged));
    assert(node_of(merged_edge(edge, fetched)) == merged);
    assert("title"@ != "summary"@) by {
        reveal_strlit("title");
        reveal_strlit("summary");
        assert("title"@.len() != "summary"@.len());
    }
    let n1 = copy_field(node, doc, "title"@);
    // after the title, the node is still an object
    let fs1 = match n1 {
        JsonV::Object(f) => f,
        _ => fs,
    };
    assert(n1 == JsonV::Object(fs1));
    crate::json::law_field_of_set_field(fs, "title"@, JsonV::Null, k);
    match get_field(doc, "title"@) {
        Some(v) => {
            crate::json::law_field_of_set_field(fs, "title"@, v, k);
            crate::json::law_field_of_set_field(fs, "title"@, v, "summary"@);
        },
        None => {},
    }
    match get_field(doc, "summary"@) {
        Some(v) => {
            crate::json::law_field_of_set_field(fs1, "summary"@, v, k);
        },
        None => {},
    }
}

fn copy_field_exec(node: Json, doc: &Json, k: &str) -> (r: Json)
    ensures
        r@ == copy_field(node@, doc@, k@),
{
    match doc.get(k) {
        Some(v) => {
            if v.is_null() {
                node
            } else {
                match node {
                    Json::Object(fields) => {
                        let mut fields = fields;
                        set_field_in(&mut fields, k, clone_json(v));
                        Json::Object(fields)
                    },
                    other => other,
                }
            }
        },
        None => node,
    }
}

fn merge_node_exec(node: Json, fetched: &Json) -> (r: Json)
    ensures
        r@ == merged_node(node@, fetched@),
{
    let p = path_of(&["workspace", "doc"]);
    proof {
        assert(path_views(p@).skip(0) =~= seq!["workspace"@, "doc"@]);
    }
    match get_path_at(fetched, &p, 0) {
        Some(doc) => {
            let n = copy_field_exec(node, doc, "title");
            copy_field_exec(n, doc, "summary")
        },
        None => node,
    }
}

fn merge_edge_exec(edge: Json, fetched: &Json) -> (r: Json)
    ensures
        r@ == merged_edge(edge@, fetched@),
{
    let node = match edge.get("node") {
        Some(n) => clone_json(n),
        None => {
            return edge;
        },
    };
    let merged = merge_node_exec(node, fetched);
    let p = path_of(&["node"]);
    proof {
        assert(path_views(p@).skip(0) =~= seq!["node"@]);
    }
    set_path_at(edge, &p, 0, merged)
}

/// The views of fetched documents with their edge indices.
pub open spec fn fetched_views(f: Seq<(usize, Json)>) -> Seq<(int, JsonV)> {
    f.map_values(|p: (usize, Json)| (p.0 as int, p.1@))
}

/// Fills in a document list: merges each fetched `getDoc` answer into the edge
/// it was fetched for (the title and summary, where not `null`).
pub fn apply_fetched_docs(list: Json, path: &Vec<String>, fetched: Vec<(usize, Json)>) -> (r: Json)
    ensures
        match get_path(list@, path_views(path@)) {
            Some(JsonV::Array(edges)) => r@ == set_path(
                list@,
                path_views(path@),
                JsonV::Array(merge_all(edges, fetched_views(fetched@))),
            ),
            _ => r@ == list@,
        },
{
    proof {
        assert(path_views(path@).skip(0) =~= path_views(path@));
    }
    let edges_json = match get_path_at(&list, path, 0) {
        Some(j) => clone_json(j),
        None => {
            return list;
        },
    };
    let mut edges = match edges_json {
        Json::Array(v) => v,
        _ => {
            return list;
        },
    };
    let ghost start = views_of(edges@);
    let ghost fv = fetched_views(fetched@);
    let mut k: usize = 0;
    while k < fetched.len()
        invariant
            0 <= k <= fetched@.len(),
            fv == fetched_views(fetched@),
            views_of(edges@) == merge_all(start, fv.take(k as int)),
        decreases fetched.len() - k,
    {
        let i = fetched[k].0;
        proof {
            assert(fv.take(k + 1).drop_last() =~= fv.take(k as int));
            assert(fv.take(k + 1).last() == (i as int, fetched@[k as int].1@));
            lemma_views_of(edges@);
        }
        if i < edges.len() {
            let ghost before = views_of(edges@);
            let e = edges.remove(i);
            let m = merge_edge_exec(e, &fetched[k].1);
            edges.insert(i, m);
            proof {
                lemma_views_of(edges@);
                assert(views_of(edges@) =~= before.update(i as int, merged_edge(before[i as int], fetched@[k as int].1@)));
            }
        }
        k += 1;
    }
    proof {
        assert(fv.take(k as int) =~= fv);
    }
    set_path_at(list, path, 0, Json::Array(edges))
}

/// Whether a listing fills in missing titles before it is shown: the full
/// list when asked to (`--resolve` is for `list`), and the table of recently
/// updated documents always.
pub fn resolve_titles(recent: bool, resolve: bool, table: bool) -> (b: bool)
    ensures
        b == ((resolve && !recent) || (recent && table)),
{
    (resolve && !recent) || (recent && table)
}

// ---------------------------------------------------------------------------
// Following a list page by page
// ---------------------------------------------------------------------------

/// Where the page information of a list is: beside its edges.
pub open spec fn page_info_path(edges_path: Seq<Seq<char>>) -> Seq<Seq<char>> {
    edges_path.drop_last().push("pageInfo"@)
}

/// The cursor after which the next page of a list starts, when its page
/// information says that there is a next page.
pub open spec fn next_cursor_of(v: JsonV) -> Option<Seq<char>> {
    match edges_path_of(v) {
        None => None,
        Some(p) => match get_path(v, page_info_path(p)) {
            Some(info) => if bool_of_field(info, "hasNextPage"@) == Some(true) {
                str_field(info, "endCursor"@)
            } else {
                None
            },
            None => None,
        },
    }
}

fn page_info_path_of(edges_path: &Vec<String>) -> (r: Vec<String>)
    requires
        edges_path@.len() > 0,
    ensures
        path_views(r@) == page_info_path(path_views(edges_path@)),
{
    let mut r: Vec<String> = Vec::new();
    let n = edges_path.len() - 1;
    let mut i: usize = 0;
    while i < n
        invariant
            n == edges_path@.len() - 1,
            0 <= i <= n,
            path_views(r@) == path_views(edges_path@).take(i as int),
        decreases n - i,
    {
        let ghost before = r@;
        let k = edges_path[i].clone();
        assert(k@ == edges_path@[i as int]@);
        r.push(k);
        proof {
            assert(path_views(r@) =~= path_views(before).push(edges_path@[i as int]@));
            assert(path_views(edges_path@).take(i + 1) =~= path_views(edges_path@).take(i as int).push(
                edges_path@[i as int]@,
            ));
        }
        i += 1;
    }
    let ghost before = r@;
    r.push("pageInfo".to_owned());
    proof {
        assert(path_views(edges_path@).take(n as int) =~= path_views(edges_path@).drop_last());
        assert(path_views(r@) =~= path_views(before).push("pageInfo"@));
    }
    r
}

/// The cursor of the next page of a list, when there is one.
pub fn next_page_cursor(page: &Json) -> (r: Option<String>)
    ensures
        opt_string(r) == next_cursor_of(page@),
{
    let p = match doc_edges_path(page) {
        Some(p) => p,
        None => {
            return None;
        },
    };
    proof {
        assert(edge_paths()[0].len() > 0 && edge_paths()[1].len() > 0);
        assert(edge_paths()[2].len() > 0 && edge_paths()[3].len() > 0);
    }
    let info_path = page_info_path_of(&p);
    proof {
        assert(path_views(info_path@).skip(0) =~= path_views(info_path@));
    }
    let info = match get_path_at(page, &info_path, 0) {
        Some(i) => i,
        None => {
            return None;
        },
    };
    let more = match info.get("hasNextPage") {
        Some(b) => match b.as_bool() {
            Some(true) => true,
            _ => false,
        },
        None => false,
    };
    if !more {
        return None;
    }
    match info.get("endCursor") {
        Some(c) => match c.as_str() {
            Some(t) => Some(t.clone()),
            None => None,
        },
        None => None,
    }
}

/// The cursor to fetch the next page after, when there is a next page and its
/// cursor differs from the one the page itself was fetched after (so that a
/// server that keeps answering the same page does not keep the reader going).
pub fn following_cursor(page: &Json, previous: Option<&str>) -> (r: Option<String>)
    ensures
        opt_string(r) == match next_cursor_of(page@) {
            Some(c) => if previous matches Some(p) && p@ == c {
                None
            } else {
                Some(c)
            },
            None => None,
        },
{
    match next_page_cursor(page) {
        Some(c) => match previous {
            Some(p) => if str_equal(c.as_str(), p) {
                None
            } else {
                Some(c)
            },
            None => Some(c),
        },
        None => None,
    }
}

/// A list with the edges of the page that follows it appended, and that
/// page's information in place of its own; unchanged when the two do not keep
/// their edges at the same place.
pub open spec fn appended_page(acc: JsonV, page: JsonV) -> JsonV {
    match (edges_path_of(acc), edges_path_of(page)) {
        (Some(p), Some(q)) => if p == q {
            match (get_path(acc, p), get_path(page, p)) {
                (Some(JsonV::Array(a)), Some(JsonV::Array(b))) => {
                    let merged = set_path(acc, p, JsonV::Array(a + b));
                    match get_path(page, page_info_path(p)) {
                        Some(info) => set_path(merged, page_info_path(p), info),
                        None => merged,
                    }
                },
                _ => acc,
            }
        } else {
            acc
        },
        _ => acc,
    }
}

fn paths_equal(a: &Vec<String>, b: &Vec<String>) -> (r: bool)
    ensures
        r == (path_views(a@) == path_views(b@)),
{
    if a.len() != b.len() {
        proof {
            assert(path_views(a@).len() != path_views(b@).len());
        }
        return false;
    }
    let mut i: usize = 0;
    while i < a.len()
        invariant
            a@.len() == b@.len(),
            0 <= i <= a@.len(),
            forall|j: int| 0 <= j < i ==> #[trigger] path_views(a@)[j] == path_views(b@)[j],
        decreases a.len() - i,
    {
        if !str_equal(a[i].as_str(), b[i].as_str()) {
            proof {
                assert(path_views(a@)[i as int] != path_views(b@)[i as int]);
            }
            return false;
        }
        i += 1;
    }
    proof {
        assert(path_views(a@) =~= path_views(b@));
    }
    true
}

fn clone_items(items: &Vec<Json>, out: &mut Vec<Json>)
    ensures
        views_of(final(out)@) == views_of(old(out)@) + views_of(items@),
{
    let ghost start = views_of(out@);
    proof {
        lemma_views_of(out@);
        lemma_views_of(items@);
        assert(views_of(items@).take(0) =~= Seq::<JsonV>::empty());
        assert(start + views_of(items@).take(0) =~= start);
    }
    let mut i: usize = 0;
    while i < items.len()
        invariant
            0 <= i <= items@.len(),
            views_of(items@).len() == items@.len(),
            forall|j: int| 0 <= j < items@.len() ==> #[trigger] views_of(items@)[j] == items@[j]@,
            start == views_of(old(out)@),
            views_of(out@) == start + views_of(items@).take(i as int),
        decreases items.len() - i,
    {
        let ghost before = out@;
        out.push(clone_json(&items[i]));
        proof {
            lemma_views_of(before);
            lemma_views_of(out@);
            assert(views_of(out@) =~= views_of(before).push(items@[i as int]@));
            assert(views_of(items@).take(i + 1) =~= views_of(items@).take(i as int).push(
                views_of(items@)[i as int],
            ));
            assert(views_of(out@) =~= start + views_of(items@).take(i + 1));
        }
        i += 1;
    }
    proof {
        assert(views_of(items@).take(i as int) =~= views_of(items@));
    }
}

/// Appends the edges of the next page of a list to the list, and takes over
/// that page's information.
pub fn append_page(acc: Json, page: &Json) -> (r: Json)
    ensures
        r@ == appended_page(acc@, page@),
{
    let p = match doc_edges_path(&acc) {
        Some(p) => p,
        None => {
            return acc;
        },
    };
    let q = match doc_edges_path(page) {
        Some(q) => q,
        None => {
            return acc;
        },
    };
    if !paths_equal(&p, &q) {
        return acc;
    }
    proof {
        assert(path_views(p@).skip(0) =~= path_views(p@));
        assert(edge_paths()[0].len() > 0 && edge_paths()[1].len() > 0);
        assert(edge_paths()[2].len() > 0 && edge_paths()[3].len() > 0);
    }
    let mut all: Vec<Json> = Vec::new();
    proof {
        assert(views_of(all@) =~= Seq::<JsonV>::empty());
    }
    match get_path_at(&acc, &p, 0) {
        Some(Json::Array(items)) => clone_items(items, &mut all),
        _ => {
            return acc;
        },
    }
    match get_path_at(page, &p, 0) {
        Some(Json::Array(items)) => clone_items(items, &mut all),
        _ => {
            return acc;
        },
    }
    let merged = set_path_at(acc, &p, 0, Json::Array(all));
    let info_path = page_info_path_of(&p);
    proof {
        assert(path_views(info_path@).skip(0) =~= path_views(info_path@));
    }
    match get_path_at(page, &info_path, 0) {
        Some(info) => set_path_at(merged, &info_path, 0, clone_json(info)),
        None => merged,
    }
}

/// Merging the next page of a list keeps every edge: the merged list's edges
/// are the list's own followed by the page's.
pub proof fn law_append_page_keeps_edges(
    acc: JsonV,
    page: JsonV,
    p: Seq<Seq<char>>,
    a: Seq<JsonV>,
    b: Seq<JsonV>,
)
    requires
        edges_path_of(acc) == Some(p),
        edges_path_of(page) == Some(p),
        get_path(acc, p) == Some(JsonV::Array(a)),
        get_path(page, p) == Some(JsonV::Array(b)),
    ensures
        get_path(appended_page(acc, page), p) == Some(JsonV::Array(a + b)),
{
    assert(p.len() > 1) by {
        assert(edge_paths()[0].len() == 4 && edge_paths()[1].len() == 4);
        assert(edge_paths()[2].len() == 3 && edge_paths()[3].len() == 3);
    }
    let merged = set_path(acc, p, JsonV::Array(a + b));
    law_get_path_set_path(acc, p, JsonV::Array(a + b));
    match get_path(page, page_info_path(p)) {
        Some(info) => {
            let q = page_info_path(p);
            assert(q.drop_last() =~= p.drop_last());
            assert(p.last() == "edges"@) by {
                assert(edge_paths()[0].last() == "edges"@ && edge_paths()[1].last() == "edges"@);
                assert(edge_paths()[2].last() == "edges"@ && edge_paths()[3].last() == "edges"@);
            }
            assert(q.last() == "pageInfo"@);
            assert("edges"@ != "pageInfo"@) by {
                assert("edges"@.len() != "pageInfo"@.len()) by {
                    reveal_strlit("edges");
                    reveal_strlit("pageInfo");
                }
            }
            lemma_set_path_sibling(merged, p, q, info);
        },
        None => {},
    }
}

// ---------------------------------------------------------------------------
// The table view
// ---------------------------------------------------------------------------

/// The text of a table cell: a string as it is, anything else empty.
pub open spec fn cell_text(v: Option<JsonV>) -> Seq<char> {
    match v {
        Some(JsonV::Str(s)) => s,
        _ => Seq::empty(),
    }
}

/// The node of an edge, or `null`.
pub open spec fn node_of(edge: JsonV) -> JsonV {
    match get_field(edge, "node"@) {
        Some(n) => n,
        None => JsonV::Null,
    }
}

/// One row of the table: the document's id, title, summary and last update.
pub open spec fn row_text(edge: JsonV) -> Seq<char> {
    let node = node_of(edge);
    cell_text(get_field(node, "id"@)) + " | "@ + cell_text(get_field(node, "title"@)) + " | "@
        + cell_text(get_field(node, "summary"@)) + " | "@ + cell_text(get_field(node, "updatedAt"@))
}

/// The header line of the table.
pub open spec fn table_header() -> Seq<char> {
    "ID | Title | Summary | Updated"@
}

/// The rows of a list, one per edge.
pub open spec fn table_rows(v: JsonV) -> Seq<Seq<char>> {
    match edges_path_of(v) {
        Some(p) => match get_path(v, p) {
            Some(JsonV::Array(edges)) => edges.map_values(|e: JsonV| row_text(e)),
            _ => Seq::empty(),
        },
        None => Seq::empty(),
    }
}

/// The table of a list: the header, then a row per document, one per line.
pub open spec fn table_text(v: JsonV) -> Seq<char> {
    join(seq![table_header()] + table_rows(v), seq!['\n'])
}

fn push_cell(out: &mut String, v: Option<&Json>)
    ensures
        final(out)@ == old(out)@ + cell_text(
            match v {
                Some(x) => Some(x@),
                None => None,
            },
        ),
{
    match v {
        Some(Json::Str(s)) => push_str(out, s.as_str()),
        _ => {
            assert(old(out)@ + Seq::<char>::empty() =~= old(out)@);
        },
    }
}

fn push_row(out: &mut String, edge: &Json)
    ensures
        final(out)@ == old(out)@ + row_text(edge@),
{
    let ghost start = out@;
    let node = match edge.get("node") {
        Some(n) => n,
        None => &Json::Null,
    };
    assert(node@ == node_of(edge@));
    push_cell(out, node.get("id"));
    push_str(out, " | ");
    push_cell(out, node.get("title"));
    push_str(out, " | ");
    push_cell(out, node.get("summary"));
    push_str(out, " | ");
    push_cell(out, node.get("updatedAt"));
    proof {
        assert(out@ =~= start + row_text(edge@));
    }
}

/// Shows a list as a table: `ID | Title | Summary | Updated`, then one row
/// per document, one per line; a value that is not a string shows empty.
pub fn doc_table(list: &Json) -> (r: String)
    ensures
        r@ == table_text(list@),
{
    let mut out = "ID | Title | Summary | Updated".to_owned();
    let ghost rows = table_rows(list@);
    proof {
        assert(seq![table_header()] + rows.take(0) =~= seq![table_header()]);
    }
    let edges: &Vec<Json> = match doc_edges_path(list) {
        Some(p) => {
            proof {
                assert(path_views(p@).skip(0) =~= path_views(p@));
            }
            match get_path_at(list, &p, 0) {
                Some(Json::Array(items)) => items,
                _ => {
                    proof {
                        assert(seq![table_header()] + rows =~= seq![table_header()]);
                    }
                    return out;
                },
            }
        },
        None => {
            proof {
                assert(seq![table_header()] + rows =~= seq![table_header()]);
            }
            return out;
        },
    };
    proof {
        lemma_views_of(edges@);
        assert(rows =~= views_of(edges@).map_values(|e: JsonV| row_text(e)));
    }
    let mut i: usize = 0;
    while i < edges.len()
        invariant
            0 <= i <= edges@.len(),
            rows.len() == edges@.len(),
            forall|j: int| 0 <= j < edges@.len() ==> #[trigger] rows[j] == row_text(edges@[j]@),
            out@ == join(seq![table_header()] + rows.take(i as int), seq!['\n']),
        decreases edges.len() - i,
    {
        let ghost before = out@;
        push_char(&mut out, '\n');
        push_row(&mut out, &edges[i]);
        proof {
            let parts = seq![table_header()] + rows.take(i + 1);
            assert(parts.drop_last() =~= seq![table_header()] + rows.take(i as int));
            assert(parts.last() == rows[i as int]);
            assert(out@ =~= before + seq!['\n'] + rows[i as int]);
        }
        i += 1;
    }
    proof {
        assert(rows.take(i as int) =~= rows);
    }
    out
}

} // verus!

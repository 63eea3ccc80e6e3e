use affine_cli::docs::{apply_fetched_docs, doc_edges_path, plan_title_resolution};
use affine_cli::json::Json;

fn dc_obj(fields: Vec<(&str, Json)>) -> Json {
    Json::Object(fields.into_iter().map(|(k, v)| (k.to_owned(), v)).collect())
}

fn dc_s(t: &str) -> Json {
    Json::Str(t.to_owned())
}

fn dc_edge(id: &str, title: Json) -> Json {
    dc_obj(vec![("node", dc_obj(vec![("id", dc_s(id)), ("title", title), ("summary", Json::Null)]))])
}

fn dc_list(envelope: bool, field: &str, edges: Vec<Json>) -> Json {
    let ws = dc_obj(vec![("workspace", dc_obj(vec![(field, dc_obj(vec![("edges", Json::Array(edges))]))]))]);
    if envelope {
        dc_obj(vec![("data", ws)])
    } else {
        ws
    }
}

fn dc_strings(v: &[&str]) -> Vec<String> {
    v.iter().map(|s| (*s).to_owned()).collect()
}

#[test]
fn edges_are_found_with_or_without_envelope() {
    assert_eq!(
        doc_edges_path(&dc_list(true, "docs", vec![])),
        Some(dc_strings(&["data", "workspace", "docs", "edges"]))
    );
    assert_eq!(
        doc_edges_path(&dc_list(false, "docs", vec![])),
        Some(dc_strings(&["workspace", "docs", "edges"]))
    );
    assert_eq!(
        doc_edges_path(&dc_list(true, "recentlyUpdatedDocs", vec![])),
        Some(dc_strings(&["data", "workspace", "recentlyUpdatedDocs", "edges"]))
    );
    assert_eq!(
        doc_edges_path(&dc_list(false, "recentlyUpdatedDocs", vec![])),
        Some(dc_strings(&["workspace", "recentlyUpdatedDocs", "edges"]))
    );
    assert_eq!(doc_edges_path(&dc_obj(vec![("workspace", Json::Null)])), None);
    assert_eq!(plan_title_resolution(&Json::Null), None);
}

#[test]
fn only_untitled_docs_are_fetched() {
    let list = dc_list(
        false,
        "docs",
        vec![
            dc_edge("a", dc_s("Has title")),
            dc_edge("b", Json::Null),
            dc_obj(vec![("cursor", dc_s("c"))]),
            dc_edge("d", Json::Int(3)),
        ],
    );
    let plan = plan_title_resolution(&list).unwrap();
    assert_eq!(plan.path, dc_strings(&["workspace", "docs", "edges"]));
    assert_eq!(plan.targets, vec![(1, "b".to_owned()), (3, "d".to_owned())]);
}

#[test]
fn fetched_titles_fill_the_list() {
    let list = dc_list(true, "docs", vec![dc_edge("a", dc_s("A")), dc_edge("b", Json::Null)]);
    let path = dc_strings(&["data", "workspace", "docs", "edges"]);
    let fetched = dc_obj(vec![(
        "workspace",
        dc_obj(vec![("doc", dc_obj(vec![("title", dc_s("B")), ("summary", Json::Null)]))]),
    )]);
    let filled = apply_fetched_docs(list, &path, vec![(1, fetched)]);
    let expected = dc_list(
        true,
        "docs",
        vec![
            dc_edge("a", dc_s("A")),
            dc_obj(vec![("node", dc_obj(vec![("id", dc_s("b")), ("title", dc_s("B")), ("summary", Json::Null)]))]),
        ],
    );
    assert_eq!(filled, expected);
}

#[test]
fn titled_edges_stay_as_they_were() {
    let list = dc_list(false, "docs", vec![dc_edge("a", dc_s("A")), dc_edge("b", Json::Null)]);
    let path = dc_strings(&["workspace", "docs", "edges"]);
    let plan = plan_title_resolution(&list).unwrap();
    let fetched: Vec<(usize, Json)> = plan
        .targets
        .iter()
        .map(|(i, _)| {
            (
                *i,
                dc_obj(vec![("workspace", dc_obj(vec![("doc", dc_obj(vec![("title", dc_s("New"))]))]))]),
            )
        })
        .collect();
    let filled = apply_fetched_docs(list, &path, fetched);
    let expected = dc_list(false, "docs", vec![dc_edge("a", dc_s("A")), dc_edge("b", dc_s("New"))]);
    assert_eq!(filled, expected);
    let untouched = dc_list(false, "docs", vec![dc_edge("a", dc_s("A"))]);
    let same = apply_fetched_docs(dc_list(false, "docs", vec![dc_edge("a", dc_s("A"))]), &path, vec![]);
    assert_eq!(same, untouched);
    let out_of_range = apply_fetched_docs(
        dc_list(false, "docs", vec![dc_edge("a", dc_s("A"))]),
        &path,
        vec![(5, Json::Null)],
    );
    assert_eq!(out_of_range, untouched);
}

use affine_cli::docs::{append_page, doc_table, following_cursor, next_page_cursor};

fn dc_page(envelope: bool, edges: Vec<Json>, has_next: bool, end: Option<&str>) -> Json {
    let info = dc_obj(vec![
        ("hasNextPage", Json::Bool(has_next)),
        ("endCursor", end.map(dc_s).unwrap_or(Json::Null)),
    ]);
    let docs = dc_obj(vec![("pageInfo", info), ("edges", Json::Array(edges))]);
    let ws = dc_obj(vec![("workspace", dc_obj(vec![("docs", docs)]))]);
    if envelope {
        dc_obj(vec![("data", ws)])
    } else {
        ws
    }
}

#[test]
fn next_page_follows_page_info() {
    assert_eq!(next_page_cursor(&dc_page(false, vec![], true, Some("c1"))), Some("c1".to_owned()));
    assert_eq!(next_page_cursor(&dc_page(true, vec![], true, Some("c1"))), Some("c1".to_owned()));
    assert_eq!(next_page_cursor(&dc_page(false, vec![], false, Some("c1"))), None);
    assert_eq!(next_page_cursor(&dc_page(false, vec![], true, None)), None);
    assert_eq!(next_page_cursor(&Json::Null), None);
    assert_eq!(following_cursor(&dc_page(false, vec![], true, Some("c1")), Some("c1")), None);
    assert_eq!(
        following_cursor(&dc_page(false, vec![], true, Some("c2")), Some("c1")),
        Some("c2".to_owned())
    );
}

#[test]
fn pages_are_merged() {
    let first = dc_page(false, vec![dc_edge("a", dc_s("A"))], true, Some("c1"));
    let second = dc_page(false, vec![dc_edge("b", Json::Null)], false, Some("c2"));
    let merged = append_page(first, &second);
    assert_eq!(
        merged,
        dc_page(false, vec![dc_edge("a", dc_s("A")), dc_edge("b", Json::Null)], false, Some("c2"))
    );
    let other_shape = dc_page(true, vec![dc_edge("z", Json::Null)], false, None);
    let unchanged = append_page(merged, &other_shape);
    assert_eq!(
        unchanged,
        dc_page(false, vec![dc_edge("a", dc_s("A")), dc_edge("b", Json::Null)], false, Some("c2"))
    );
}

#[test]
fn lists_show_as_tables() {
    let node = dc_obj(vec![
        ("id", dc_s("d1")),
        ("title", dc_s("Plan")),
        ("summary", Json::Null),
        ("updatedAt", dc_s("2026-05-15")),
    ]);
    let list = dc_page(true, vec![dc_obj(vec![("node", node)]), dc_obj(vec![])], false, None);
    assert_eq!(
        doc_table(&list),
        "ID | Title | Summary | Updated\nd1 | Plan |  | 2026-05-15\n |  |  | "
    );
    assert_eq!(doc_table(&Json::Null), "ID | Title | Summary | Updated");
}

use affine_cli::docs::resolve_titles;

#[test]
fn recent_tables_resolve_titles() {
    assert!(resolve_titles(true, false, true));
    assert!(!resolve_titles(false, false, true));
    assert!(resolve_titles(false, true, false));
    assert!(!resolve_titles(true, false, false));
    assert!(!resolve_titles(true, true, false));
    assert!(resolve_titles(true, true, true));
}

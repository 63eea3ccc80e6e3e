use affine_cli::json::{clone_json, get_path_at, push_field, push_item, set_field_in, set_path_at, string_object, Json};

fn js_obj(fields: Vec<(&str, Json)>) -> Json {
    Json::Object(fields.into_iter().map(|(k, v)| (k.to_owned(), v)).collect())
}

#[test]
fn json_reads_fields_and_scalars() {
    let v = js_obj(vec![
        ("s", Json::string("t")),
        ("b", Json::Bool(true)),
        ("n", Json::Int(-2)),
        ("u", Json::UInt(u64::MAX)),
        ("z", Json::Null),
        ("s", Json::string("second")),
    ]);
    assert_eq!(v.get("s").and_then(|x| x.as_str()), Some(&"t".to_owned()));
    assert_eq!(v.get("b").and_then(|x| x.as_bool()), Some(true));
    assert_eq!(v.get("n").and_then(|x| x.as_i64()), Some(-2));
    assert_eq!(v.get("n").and_then(|x| x.as_u64()), None);
    assert_eq!(v.get("u").and_then(|x| x.as_u64()), Some(u64::MAX));
    assert_eq!(v.get("u").and_then(|x| x.as_i64()), None);
    assert!(v.get("z").map(|x| x.is_null()).unwrap_or(false));
    assert_eq!(v.get("missing"), None);
    assert_eq!(Json::Null.get("s"), None);
}

#[test]
fn json_take_field_and_data_or_self() {
    let v = js_obj(vec![("data", Json::Int(1)), ("other", Json::Null)]);
    assert_eq!(clone_json(&v).take_field("data"), Some(Json::Int(1)));
    assert_eq!(clone_json(&v).take_field("nope"), None);
    assert_eq!(clone_json(&v).into_field_or_self("data"), Json::Int(1));
    assert_eq!(clone_json(&v).into_field_or_self("nope"), v);
}

#[test]
fn set_field_replaces_first_or_appends() {
    let mut fields: Vec<(String, Json)> = Vec::new();
    push_field(&mut fields, "title", Json::Null);
    push_field(&mut fields, "id", Json::string("d"));
    set_field_in(&mut fields, "title", Json::string("T"));
    set_field_in(&mut fields, "summary", Json::string("S"));
    assert_eq!(
        Json::Object(fields),
        js_obj(vec![
            ("title", Json::string("T")),
            ("id", Json::string("d")),
            ("summary", Json::string("S")),
        ])
    );
}

#[test]
fn paths_read_and_write_nested_values() {
    let v = js_obj(vec![("a", js_obj(vec![("b", Json::Int(1))]))]);
    let path = vec!["a".to_owned(), "b".to_owned()];
    assert_eq!(get_path_at(&v, &path, 0), Some(&Json::Int(1)));
    let w = set_path_at(v, &path, 0, Json::Int(2));
    assert_eq!(get_path_at(&w, &path, 0), Some(&Json::Int(2)));
    let missing = vec!["a".to_owned(), "c".to_owned()];
    assert_eq!(get_path_at(&w, &missing, 0), None);
}

#[test]
fn objects_and_arrays_are_built() {
    assert_eq!(
        string_object(&[("workspaceId", "w"), ("docId", "d")]),
        js_obj(vec![("workspaceId", Json::string("w")), ("docId", Json::string("d"))])
    );
    let mut items = Vec::new();
    push_item(&mut items, Json::Int(1));
    push_item(&mut items, Json::Null);
    assert_eq!(Json::Array(items), Json::Array(vec![Json::Int(1), Json::Null]));
    let nested = js_obj(vec![("x", Json::Array(vec![Json::Float("1.5".to_owned())]))]);
    assert_eq!(clone_json(&nested), nested);
}

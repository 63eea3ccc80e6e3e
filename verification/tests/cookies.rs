use affine_cli::cookies::CookieJar;

fn ck_pairs(jar: &CookieJar) -> Vec<(String, String)> {
    jar.to_pairs()
}

#[test]
fn jar_insert_get_remove() {
    let mut jar = CookieJar::new();
    assert!(jar.is_empty());
    jar.insert("b".to_owned(), "2".to_owned());
    jar.insert("a".to_owned(), "1".to_owned());
    jar.insert("b".to_owned(), "3".to_owned());
    assert_eq!(jar.len(), 2);
    assert_eq!(jar.get("b"), Some(&"3".to_owned()));
    assert_eq!(jar.get("c"), None);
    jar.remove("a");
    jar.remove("zzz");
    assert_eq!(ck_pairs(&jar), vec![("b".to_owned(), "3".to_owned())]);
    jar.clear();
    assert!(jar.is_empty());
    assert_eq!(jar.len(), 0);
}

#[test]
fn jar_lists_names_in_order() {
    let mut jar = CookieJar::new();
    for name in ["m", "a", "z", "B", "aa"] {
        jar.insert(name.to_owned(), "v".to_owned());
    }
    let names: Vec<String> = ck_pairs(&jar).into_iter().map(|(k, _)| k).collect();
    assert_eq!(names, vec!["B", "a", "aa", "m", "z"]);
}

#[test]
fn jar_from_pairs_later_wins_and_round_trips() {
    let pairs = vec![
        ("x".to_owned(), "1".to_owned()),
        ("y".to_owned(), "2".to_owned()),
        ("x".to_owned(), "3".to_owned()),
    ];
    let jar = CookieJar::from_pairs(&pairs);
    assert_eq!(
        ck_pairs(&jar),
        vec![("x".to_owned(), "3".to_owned()), ("y".to_owned(), "2".to_owned())]
    );
    let again = CookieJar::from_pairs(&jar.to_pairs());
    assert_eq!(again, jar);
    assert_eq!(jar.duplicate(), jar);
    assert_eq!(jar.clone(), jar);
}

#[test]
fn header_ignores_insertion_order() {
    let mut one = CookieJar::new();
    one.insert("affine_session".to_owned(), "s".to_owned());
    one.insert("affine_csrf_token".to_owned(), "c".to_owned());
    let mut two = CookieJar::new();
    two.insert("affine_csrf_token".to_owned(), "c".to_owned());
    two.insert("affine_session".to_owned(), "s".to_owned());
    assert_eq!(one.header_value(), two.header_value());
    assert_eq!(one.header_value(), "affine_csrf_token=c; affine_session=s");
    assert_eq!(CookieJar::new().header_value(), "");
}

use affine_cli::colcat::{line_value, parse_u32, socket_path_of, value_count, AppArgs, DEFAULT_SOCKET_PATH};

#[test]
fn socket_path_defaults_to_collectd() {
    assert_eq!(socket_path_of(&["colcat".to_owned()]), DEFAULT_SOCKET_PATH);
    assert_eq!(DEFAULT_SOCKET_PATH, "/var/run/collectd-unixsock");
    assert_eq!(
        socket_path_of(&["colcat".to_owned(), "/tmp/s".to_owned(), "x".to_owned()]),
        "/tmp/s"
    );
}

#[test]
fn build_needs_an_existing_socket() {
    let err = AppArgs::build(&["colcat".to_owned(), "/no/such/socket/here".to_owned()]);
    assert_eq!(err.err(), Some("No file found at path"));
    let ok = AppArgs::build(&["colcat".to_owned(), "/".to_owned()]).unwrap();
    assert_eq!(ok.socket_path, "/");
}

#[test]
fn status_line_counts_values() {
    assert_eq!(value_count("2 Values found\n"), Some(2));
    assert_eq!(value_count("0 Values found"), Some(0));
    assert_eq!(value_count("nospace\n"), Some(0));
    assert_eq!(value_count("-1 Error"), None);
    assert_eq!(value_count("x y"), None);
    assert_eq!(value_count("4294967296 big"), None);
    assert_eq!(value_count("+7 ok"), Some(7));
}

#[test]
fn reply_lines_give_their_value() {
    assert_eq!(
        line_value("1700000000.123 host/cpu-0/cpu-idle\n"),
        Some("host/cpu-0/cpu-idle".to_owned())
    );
    assert_eq!(line_value("value=1.5e+01\n"), Some("value=1.5e+01".to_owned()));
    assert_eq!(line_value("  a  b  c "), Some("b".to_owned()));
    assert_eq!(line_value("   \n"), None);
}

#[test]
fn decimal_parsing_matches_str_parse() {
    let v: Vec<char> = "x4294967295y".chars().collect();
    assert_eq!(parse_u32(&v, 1, 11), Some(u32::MAX));
    let v: Vec<char> = "+".chars().collect();
    assert_eq!(parse_u32(&v, 0, 1), None);
    let v: Vec<char> = "".chars().collect();
    assert_eq!(parse_u32(&v, 0, 0), None);
    let v: Vec<char> = "007".chars().collect();
    assert_eq!(parse_u32(&v, 0, 3), Some(7));
}

use affine_cli::colcat::{add_metric, split_slash, MetricGroup};

#[test]
fn build_from_follows_the_existence_answer() {
    let args = vec!["colcat".to_owned(), "/tmp/s".to_owned()];
    let ok = AppArgs::build_from(&args, true).unwrap();
    assert_eq!(ok.socket_path, "/tmp/s");
    assert_eq!(AppArgs::build_from(&args, false).err(), Some("No file found at path"));
    let default = AppArgs::build_from(&["colcat".to_owned()], true).unwrap();
    assert_eq!(default.socket_path, DEFAULT_SOCKET_PATH);
}

#[test]
fn metric_names_split_at_slashes() {
    assert_eq!(split_slash("host/cpu-0/cpu-idle"), vec!["host", "cpu-0", "cpu-idle"]);
    assert_eq!(split_slash("a//b/"), vec!["a", "", "b", ""]);
    assert_eq!(split_slash(""), vec![""]);
    assert_eq!(split_slash("plain"), vec!["plain"]);
}

#[test]
fn metrics_group_by_plugin() {
    let mut groups: Vec<MetricGroup> = Vec::new();
    assert!(add_metric(&mut groups, "h1/cpu/idle", 0));
    assert!(add_metric(&mut groups, "h1/memory/used", 1));
    assert!(add_metric(&mut groups, "h2/cpu/user", 2));
    assert!(!add_metric(&mut groups, "h1/bad", 3));
    assert!(!add_metric(&mut groups, "a/b/c/d", 3));
    assert_eq!(
        groups,
        vec![
            MetricGroup {
                host: "h1".to_owned(),
                plugin: "cpu".to_owned(),
                plugin_instances: vec!["idle".to_owned(), "user".to_owned()],
                values: vec![0, 2],
            },
            MetricGroup {
                host: "h1".to_owned(),
                plugin: "memory".to_owned(),
                plugin_instances: vec!["used".to_owned()],
                values: vec![1],
            },
        ]
    );
}

use tapestry::output::{lies_within, status, Status, StatusMap};
use tapestry::placeholder::Placeholder;

#[test]
fn status_of_a_missing_file_is_new() {
    assert_eq!(status(None, "select 1;"), Status::New);
    assert_eq!(status(None, ""), Status::New);
}

#[test]
fn status_of_identical_content_is_unchanged() {
    assert_eq!(status(Some("select 1;".as_bytes()), "select 1;"), Status::Unchanged);
    assert_eq!(status(Some("".as_bytes()), ""), Status::Unchanged);
    assert_eq!(status(Some("größe".as_bytes()), "größe"), Status::Unchanged);
}

#[test]
fn status_of_other_content_is_changed() {
    assert_eq!(status(Some("select 2;".as_bytes()), "select 1;"), Status::Changed);
    assert_eq!(status(Some("select 1;\n".as_bytes()), "select 1;"), Status::Changed);
    assert_eq!(status(Some("select 1".as_bytes()), "select 1;"), Status::Changed);
    assert_eq!(status(Some("".as_bytes()), "select 1;"), Status::Changed);
    assert_eq!(status(Some("select 1;".as_bytes()), ""), Status::Changed);
    assert_eq!(status(Some("SELECT 1;".as_bytes()), "select 1;"), Status::Changed);
    assert_eq!(status(Some(&[0xff, 0xfe]), "ab"), Status::Changed);
}

#[test]
fn status_labels() {
    assert_eq!(Status::New.label(), "new");
    assert_eq!(Status::Changed.label(), "changed");
    assert_eq!(Status::Unchanged.label(), "unchanged");
}

#[test]
fn empty_status_map_is_all_unchanged() {
    let m = StatusMap::new();
    assert!(m.all_unchanged());
    assert_eq!(m.get("a"), None);
}

#[test]
fn status_map_keeps_the_last_status_of_a_path() {
    let mut m = StatusMap::new();
    m.insert("a".to_string(), Status::Changed);
    m.insert("b".to_string(), Status::Unchanged);
    assert_eq!(m.get("a"), Some(Status::Changed));
    assert_eq!(m.get("b"), Some(Status::Unchanged));
    assert_eq!(m.get("c"), None);
    assert!(!m.all_unchanged());
    m.insert("a".to_string(), Status::Unchanged);
    assert_eq!(m.get("a"), Some(Status::Unchanged));
    assert!(m.all_unchanged());
    m.insert("b".to_string(), Status::New);
    assert_eq!(m.get("b"), Some(Status::New));
    assert!(!m.all_unchanged());
}

#[test]
fn status_map_with_one_new_path_is_not_all_unchanged() {
    let mut m = StatusMap::new();
    m.insert("a".to_string(), Status::Unchanged);
    m.insert("b".to_string(), Status::Unchanged);
    assert!(m.all_unchanged());
    m.insert("c".to_string(), Status::New);
    assert!(!m.all_unchanged());
}

#[test]
fn prepared_statement_is_the_query_text_under_posargs() {
    assert_eq!(Placeholder::PosArgs.prepared_statement("select $1;"), Some("select $1;"));
    assert_eq!(Placeholder::PosArgs.prepared_statement(""), Some(""));
}

#[test]
fn prepared_statement_is_absent_under_variables() {
    assert_eq!(Placeholder::Variables.prepared_statement("select $1;"), None);
    assert_eq!(Placeholder::Variables.prepared_statement(""), None);
}

#[test]
fn paths_below_the_root_lie_within() {
    assert!(lies_within("output/queries", "output/queries/q1.sql"));
    assert!(lies_within("output/queries", "output/queries/a/b/q1.sql"));
    assert!(lies_within("output/queries/", "output/queries/q1.sql"));
    assert!(lies_within("output/queries", "output/queries"));
    assert!(lies_within("output", "output\\q1.sql"));
    assert!(lies_within("output", "output/..q1.sql"));
    assert!(lies_within("output", "output/q1..sql"));
    assert!(lies_within("output", "output/a../b"));
    assert!(lies_within("output", "output/..."));
    assert!(lies_within("out/../x", "out/../x/q1.sql"));
}

#[test]
fn paths_that_leave_the_root_do_not_lie_within() {
    assert!(!lies_within("output/queries", "output/queries/../q1.sql"));
    assert!(!lies_within("output/queries", "output/queries/a/../../q1.sql"));
    assert!(!lies_within("output/queries", "output/queries/.."));
    assert!(!lies_within("output/queries", "output/queries/..\\q1.sql"));
    assert!(!lies_within("output/queries", "/etc/passwd"));
    assert!(!lies_within("output/queries", "output/tests/q1.sql"));
    assert!(!lies_within("output/queries", "output/queries2/q1.sql"));
    assert!(!lies_within("output/queries", "output/querie"));
    assert!(!lies_within("output/queries", ""));
    assert!(!lies_within("output/queries", "q1.sql"));
}

#[test]
fn within_the_empty_root_lie_relative_paths() {
    assert!(lies_within("", "q1.sql"));
    assert!(lies_within("", "a/q1.sql"));
    assert!(lies_within("", ""));
    assert!(!lies_within("", "/q1.sql"));
    assert!(!lies_within("", "../q1.sql"));
    assert!(!lies_within("", "a/../../q1.sql"));
    assert!(!lies_within("", ".."));
}

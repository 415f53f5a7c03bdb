use tapestry::error::Error;
use tapestry::query::{Queries, Query};
use tapestry::test_template::{TestTemplate, TestTemplates};
use tapestry::value::{decode_pathbuf, decode_string, decode_vecstr};
use toml::Value;

fn document(text: &str) -> Value {
    Value::Table(text.parse::<toml::Table>().expect("the test's TOML is valid"))
}

fn entry(text: &str) -> Value {
    document(text)
}

fn parse_error(message: &str) -> Error {
    Error::Parse(message.to_string())
}

fn text(s: &str) -> Value {
    Value::String(s.to_string())
}

#[test]
fn decode_string_reads_a_string() {
    assert_eq!(decode_string(&text("q1")), Ok("q1".to_string()));
    assert_eq!(decode_string(&text("")), Ok(String::new()));
}

#[test]
fn decode_string_refuses_other_values() {
    let expected = Err(parse_error("Value is not a string"));
    assert_eq!(decode_string(&Value::Integer(3)), expected);
    assert_eq!(decode_string(&Value::Boolean(true)), expected);
    assert_eq!(decode_string(&Value::Array(vec![text("a")])), expected);
    assert_eq!(decode_string(&document("a = 1")), expected);
}

#[test]
fn decode_pathbuf_without_base_keeps_the_path() {
    assert_eq!(decode_pathbuf(&text("a/b.sql"), None), Ok("a/b.sql".to_string()));
}

#[test]
fn decode_pathbuf_resolves_against_the_base() {
    assert_eq!(
        decode_pathbuf(&text("b.sql"), Some("templates")),
        Ok(std::path::Path::new("templates").join("b.sql").to_string_lossy().into_owned())
    );
    assert_ne!(decode_pathbuf(&text("b.sql"), Some("templates")), Ok("b.sql".to_string()));
    assert_ne!(decode_pathbuf(&text("b.sql"), Some("templates")), Ok("templates".to_string()));
}

#[test]
fn decode_pathbuf_refuses_other_values() {
    assert_eq!(
        decode_pathbuf(&Value::Integer(1), Some("templates")),
        Err(parse_error("Value is not a string"))
    );
    assert_eq!(decode_pathbuf(&Value::Integer(1), None), Err(parse_error("Value is not a string")));
}

#[test]
fn decode_vecstr_reads_strings_in_order() {
    let v = Value::Array(vec![text("genre"), text("limit"), text("genre")]);
    assert_eq!(
        decode_vecstr(&v),
        Ok(vec!["genre".to_string(), "limit".to_string(), "genre".to_string()])
    );
    assert_eq!(decode_vecstr(&Value::Array(vec![])), Ok(vec![]));
}

#[test]
fn decode_vecstr_refuses_what_is_no_array_of_strings() {
    assert_eq!(decode_vecstr(&text("genre")), Err(parse_error("Value is not an array")));
    assert_eq!(
        decode_vecstr(&Value::Array(vec![text("genre"), Value::Integer(1)])),
        Err(parse_error("Value is not a string"))
    );
}

#[test]
fn query_decodes_with_all_fields() {
    let v = entry(
        r#"
        id = "artists_long_songs"
        template = "artists_long_songs.sql.j2"
        conds = ["genre", "limit"]
        option = "artists_long_songs.sql"
        "#,
    );
    let q = Query::decode("templates", "output", &v).expect("the entry is complete");
    assert_eq!(q.id, "artists_long_songs");
    assert_eq!(q.template, "templates/artists_long_songs.sql.j2");
    assert_eq!(q.conds, vec!["genre".to_string(), "limit".to_string()]);
    assert_eq!(q.output, Some("output/artists_long_songs.sql".to_string()));
}

#[test]
fn query_decodes_without_output() {
    let v = entry(
        r#"
        id = "q1"
        template = "q1.sql.j2"
        conds = []
        "#,
    );
    let q = Query::decode("templates", "output", &v).expect("the output may be left out");
    assert_eq!(q.id, "q1");
    assert_eq!(q.output, None);
    assert!(q.conds.is_empty());
}

fn query_error(text: &str) -> Error {
    match Query::decode("templates", "output", &entry(text)) {
        Ok(q) => panic!("decoded to {:?}", q),
        Err(e) => e,
    }
}

#[test]
fn query_entry_must_be_a_table() {
    assert_eq!(
        Query::decode("templates", "output", &text("q1")).err(),
        Some(parse_error("Invalid 'query' entry"))
    );
    assert_eq!(
        Query::decode("templates", "output", &Value::Array(vec![])).err(),
        Some(parse_error("Invalid 'query' entry"))
    );
}

#[test]
fn query_missing_fields_are_named() {
    assert_eq!(
        query_error(r#"template = "a"
conds = []"#),
        parse_error("Missing 'id' in 'query' entry")
    );
    assert_eq!(
        query_error(r#"id = "q1"
conds = []"#),
        parse_error("Missing 'template' in 'query' entry")
    );
    assert_eq!(
        query_error(r#"id = "q1"
template = "a""#),
        parse_error("Missing 'conds' in 'query' entry")
    );
    assert_eq!(query_error(""), parse_error("Missing 'id' in 'query' entry"));
}

#[test]
fn query_fields_of_the_wrong_type_fail() {
    assert_eq!(
        query_error(r#"id = 7
template = "a"
conds = []"#),
        parse_error("Value is not a string")
    );
    assert_eq!(
        query_error(r#"id = "q1"
template = ["a"]
conds = []"#),
        parse_error("Value is not a string")
    );
    assert_eq!(
        query_error(r#"id = "q1"
template = "a"
conds = "genre""#),
        parse_error("Value is not an array")
    );
    assert_eq!(
        query_error(r#"id = "q1"
template = "a"
conds = []
option = 1"#),
        parse_error("Value is not a string")
    );
}

#[test]
fn query_empty_id_fails() {
    assert_eq!(
        query_error(r#"id = ""
template = "a"
conds = []"#),
        parse_error("Empty 'id' in 'query' entry")
    );
}

#[test]
fn query_empty_id_is_reported_after_the_other_keys() {
    assert_eq!(
        query_error(r#"id = ""
conds = []"#),
        parse_error("Missing 'template' in 'query' entry")
    );
    assert_eq!(
        query_error(r#"id = ""
template = "a""#),
        parse_error("Missing 'conds' in 'query' entry")
    );
    assert_eq!(
        query_error(r#"id = ""
template = 3
conds = []"#),
        parse_error("Value is not a string")
    );
    assert_eq!(
        query_error(r#"id = ""
template = "a"
conds = "x""#),
        parse_error("Value is not an array")
    );
    assert_eq!(
        query_error(r#"id = ""
template = "a"
conds = []
option = 1"#),
        parse_error("Value is not a string")
    );
    assert_eq!(
        query_error(r#"id = ""
template = "a"
conds = []
option = "a.sql""#),
        parse_error("Empty 'id' in 'query' entry")
    );
}

#[test]
fn query_first_mistake_decides() {
    assert_eq!(query_error(r#"conds = 1"#), parse_error("Missing 'id' in 'query' entry"));
    assert_eq!(
        query_error(r#"id = "q1"
template = 1"#),
        parse_error("Value is not a string")
    );
}

#[test]
fn queries_new_is_empty() {
    let qs = Queries::new();
    assert_eq!(qs.len(), 0);
    assert!(qs.is_empty());
    assert!(qs.get(0).is_none());
    assert_eq!(qs.position("q1"), None);
    assert!(qs.find("q1").is_none());
}

const TWO_QUERIES: &str = r#"
[[queries]]
id = "q1"
template = "q1.sql.j2"
conds = ["a"]
option = "q1.sql"

[[queries]]
id = "q2"
template = "q2.sql.j2"
conds = []
"#;

fn queries_value(text: &str) -> Value {
    match document(text) {
        Value::Table(t) => t.get("queries").expect("the test has queries").clone(),
        _ => unreachable!(),
    }
}

#[test]
fn queries_decode_keeps_the_order() {
    let qs = Queries::decode("templates", "output", &queries_value(TWO_QUERIES))
        .expect("the queries are valid");
    assert_eq!(qs.len(), 2);
    assert!(!qs.is_empty());
    assert_eq!(qs.get(0).map(|q| q.id.as_str()), Some("q1"));
    assert_eq!(qs.get(1).map(|q| q.id.as_str()), Some("q2"));
    assert!(qs.get(2).is_none());
    assert_eq!(qs.get(0).and_then(|q| q.output.clone()), Some("output/q1.sql".to_string()));
    assert_eq!(qs.get(1).and_then(|q| q.output.clone()), None);
}

#[test]
fn queries_are_found_by_id() {
    let qs = Queries::decode("templates", "output", &queries_value(TWO_QUERIES))
        .expect("the queries are valid");
    assert_eq!(qs.position("q1"), Some(0));
    assert_eq!(qs.position("q2"), Some(1));
    assert_eq!(qs.position("q3"), None);
    assert_eq!(qs.position(""), None);
    assert_eq!(qs.find("q2").map(|q| q.template.as_str()), Some("templates/q2.sql.j2"));
    assert!(qs.find("Q2").is_none());
}

#[test]
fn queries_decode_of_an_empty_array_is_empty() {
    let qs = Queries::decode("templates", "output", &Value::Array(vec![]))
        .expect("no queries are valid queries");
    assert_eq!(qs.len(), 0);
}

#[test]
fn queries_must_be_an_array() {
    assert_eq!(
        Queries::decode("templates", "output", &text("q1")).err(),
        Some(parse_error("Invalid queries"))
    );
    assert_eq!(
        Queries::decode("templates", "output", &document("id = 1")).err(),
        Some(parse_error("Invalid queries"))
    );
}

#[test]
fn queries_with_a_repeated_id_fail() {
    let v = queries_value(
        r#"
        [[queries]]
        id = "q1"
        template = "a.sql.j2"
        conds = []

        [[queries]]
        id = "q2"
        template = "b.sql.j2"
        conds = []

        [[queries]]
        id = "q1"
        template = "c.sql.j2"
        conds = []
        "#,
    );
    assert_eq!(
        Queries::decode("templates", "output", &v).err(),
        Some(parse_error("Duplicate query id 'q1'"))
    );
}

#[test]
fn queries_report_the_first_repeated_id() {
    let v = queries_value(
        r#"
        [[queries]]
        id = "a"
        template = "a.sql.j2"
        conds = []

        [[queries]]
        id = "b"
        template = "b.sql.j2"
        conds = []

        [[queries]]
        id = "b"
        template = "c.sql.j2"
        conds = []

        [[queries]]
        id = "a"
        template = "d.sql.j2"
        conds = []
        "#,
    );
    assert_eq!(
        Queries::decode("templates", "output", &v).err(),
        Some(parse_error("Duplicate query id 'b'"))
    );
}

#[test]
fn queries_fail_on_the_first_bad_entry() {
    let v = queries_value(
        r#"
        [[queries]]
        id = "q1"
        template = "a.sql.j2"
        conds = []

        [[queries]]
        id = "q2"
        conds = []

        [[queries]]
        id = "q1"
        template = "c.sql.j2"
        conds = []
        "#,
    );
    assert_eq!(
        Queries::decode("templates", "output", &v).err(),
        Some(parse_error("Missing 'template' in 'query' entry"))
    );
    let repeat_first = queries_value(
        r#"
        [[queries]]
        id = "q1"
        template = "a.sql.j2"
        conds = []

        [[queries]]
        id = "q1"
        template = "b.sql.j2"
        conds = []

        [[queries]]
        id = "q3"
        template = "c.sql.j2"
        "#,
    );
    assert_eq!(
        Queries::decode("templates", "output", &repeat_first).err(),
        Some(parse_error("Missing 'conds' in 'query' entry"))
    );
    let mixed = Value::Array(vec![text("q1")]);
    assert_eq!(
        Queries::decode("templates", "output", &mixed).err(),
        Some(parse_error("Invalid 'query' entry"))
    );
}

const TEMPLATES: &str = r#"
[[test_templates]]
query = "q1"
template = "q1_a_test.sql.j2"
output = "q1_a_test.sql"

[[test_templates]]
query = "q2"
template = "q2_test.sql.j2"
output = "q2_test.sql"

[[test_templates]]
query = "q1"
template = "q1_b_test.sql.j2"
output = "q1_b_test.sql"
"#;

fn templates_value(text: &str) -> Value {
    match document(text) {
        Value::Table(t) => t.get("test_templates").expect("the test has templates").clone(),
        _ => unreachable!(),
    }
}

#[test]
fn test_template_decodes() {
    let v = entry(
        r#"
        query = "q1"
        template = "q1_test.sql.j2"
        output = "q1_test.sql"
        "#,
    );
    let t = TestTemplate::decode("templates/tests", "output/tests", &v)
        .expect("the entry is complete");
    assert_eq!(t.query_id, "q1");
    assert_eq!(t.path, "templates/tests/q1_test.sql.j2");
    assert_eq!(t.output, "output/tests/q1_test.sql");
}

fn template_error(text: &str) -> Error {
    match TestTemplate::decode("templates", "output", &entry(text)) {
        Ok(t) => panic!("decoded to {:?}", t),
        Err(e) => e,
    }
}

#[test]
fn test_template_mistakes_are_named() {
    assert_eq!(
        TestTemplate::decode("t", "o", &text("x")).err(),
        Some(parse_error("Invalid 'test_template' entry"))
    );
    assert_eq!(
        template_error(r#"template = "a"
output = "b""#),
        parse_error("Missing 'query' in 'test_template' entry")
    );
    assert_eq!(
        template_error(r#"query = "q1"
output = "b""#),
        parse_error("Missing 'template' in 'test_template' entry")
    );
    assert_eq!(
        template_error(r#"query = "q1"
template = "a""#),
        parse_error("Missing 'output' in 'test_template' entry")
    );
    assert_eq!(
        template_error(r#"query = 1
template = "a"
output = "b""#),
        parse_error("Value is not a string")
    );
    assert_eq!(
        template_error(r#"query = "q1"
template = "a"
output = false"#),
        parse_error("Value is not a string")
    );
}

#[test]
fn test_templates_new_is_empty() {
    let ts = TestTemplates::new();
    assert_eq!(ts.len(), 0);
    assert!(ts.get(0).is_none());
    assert!(ts.find_by_query("q1").is_empty());
    assert!(ts.positions_by_query("q1").is_empty());
}

#[test]
fn test_templates_are_found_by_query_in_order() {
    let ts = TestTemplates::decode("templates", "output", &templates_value(TEMPLATES))
        .expect("the templates are valid");
    assert_eq!(ts.len(), 3);
    assert_eq!(ts.get(1).map(|t| t.query_id.as_str()), Some("q2"));
    assert!(ts.get(3).is_none());
    assert_eq!(ts.positions_by_query("q1"), vec![0, 2]);
    assert_eq!(ts.positions_by_query("q2"), vec![1]);
    assert_eq!(ts.positions_by_query("q3"), Vec::<usize>::new());
    let outputs: Vec<&str> = ts.find_by_query("q1").iter().map(|t| t.output.as_str()).collect();
    assert_eq!(outputs, vec!["output/q1_a_test.sql", "output/q1_b_test.sql"]);
    assert!(ts.find_by_query("").is_empty());
}

#[test]
fn test_templates_must_be_an_array_of_entries() {
    assert_eq!(
        TestTemplates::decode("t", "o", &text("x")).err(),
        Some(parse_error("Invalid test_templates"))
    );
    assert_eq!(
        TestTemplates::decode("t", "o", &Value::Array(vec![Value::Integer(1)])).err(),
        Some(parse_error("Invalid 'test_template' entry"))
    );
}

#[test]
fn error_message_is_kept_whatever_the_kind() {
    assert_eq!(Error::parse("a").message(), "a");
    assert_eq!(Error::parse("a"), parse_error("a"));
    assert_eq!(Error::Render("b".to_string()).message(), "b");
    assert_eq!(Error::Io("c".to_string()).message(), "c");
    assert_eq!(Error::Scaffolding("d".to_string()).message(), "d");
}

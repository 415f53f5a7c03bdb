use tapestry::error::Error;
use tapestry::metadata::Metadata;
use tapestry::placeholder::Placeholder;
use toml::Value;

fn document(text: &str) -> Value {
    Value::Table(text.parse::<toml::Table>().expect("the test's TOML is valid"))
}

fn parse_error(message: &str) -> Error {
    Error::Parse(message.to_string())
}

fn failure(text: &str) -> Error {
    match Metadata::decode(&document(text)) {
        Ok(md) => panic!("decoded to {:?}", md),
        Err(e) => e,
    }
}

const HEAD: &str = r#"
placeholder = "posargs"
query_templates_dir = "templates/queries"
test_templates_dir = "templates/tests"
queries_output_dir = "output/queries"
tests_output_dir = "output/tests"
"#;

fn with_head(rest: &str) -> String {
    format!("{HEAD}{rest}")
}

#[test]
fn placeholder_names() {
    assert_eq!(Placeholder::from_name("posargs"), Some(Placeholder::PosArgs));
    assert_eq!(Placeholder::from_name("variables"), Some(Placeholder::Variables));
    assert_eq!(Placeholder::from_name("PosArgs"), None);
    assert_eq!(Placeholder::from_name("posargs "), None);
    assert_eq!(Placeholder::from_name(""), None);
    assert_eq!(Placeholder::from_name("named"), None);
}

#[test]
fn manifest_decodes() {
    let text = with_head(
        r#"
        formatter = "pg_format"

        [[queries]]
        id = "q1"
        template = "q1.sql.j2"
        conds = ["genre"]
        option = "q1.sql"

        [[test_templates]]
        query = "q1"
        template = "q1_test.sql.j2"
        output = "q1_test.sql"
        "#,
    );
    let md = Metadata::decode(&document(&text)).expect("the manifest is complete");
    assert_eq!(md.placeholder, Placeholder::PosArgs);
    assert_eq!(md.queries_output_dir, "output/queries");
    assert_eq!(md.tests_output_dir, "output/tests");
    assert_eq!(md.formatter, Some("pg_format".to_string()));
    assert_eq!(md.queries.len(), 1);
    assert_eq!(md.queries.get(0).map(|q| q.template.as_str()), Some("templates/queries/q1.sql.j2"));
    assert_eq!(
        md.queries.get(0).and_then(|q| q.output.clone()),
        Some("output/queries/q1.sql".to_string())
    );
    assert_eq!(md.test_templates.len(), 1);
    assert_eq!(
        md.test_templates.get(0).map(|t| t.path.as_str()),
        Some("templates/tests/q1_test.sql.j2")
    );
    assert_eq!(
        md.test_templates.get(0).map(|t| t.output.as_str()),
        Some("output/tests/q1_test.sql")
    );
    assert!(md.validate().is_empty());
}

#[test]
fn manifest_without_formatter_and_tests_decodes() {
    let text = format!(
        "{}",
        with_head(
            r#"
            [[queries]]
            id = "q1"
            template = "q1.sql.j2"
            conds = []
            "#
        )
        .replace("posargs", "variables")
    );
    let md = Metadata::decode(&document(&text)).expect("formatter and tests may be left out");
    assert_eq!(md.placeholder, Placeholder::Variables);
    assert_eq!(md.formatter, None);
    assert_eq!(md.test_templates.len(), 0);
    assert_eq!(md.queries.len(), 1);
}

#[test]
fn manifest_must_be_a_table() {
    assert_eq!(
        Metadata::decode(&Value::String("x".to_string())).err(),
        Some(parse_error("Invalid manifest"))
    );
    assert_eq!(Metadata::decode(&Value::Array(vec![])).err(), Some(parse_error("Invalid manifest")));
}

#[test]
fn manifest_keys_that_are_missing_are_named() {
    assert_eq!(failure(""), parse_error("Missing 'placeholder' in manifest"));
    assert_eq!(
        failure(r#"placeholder = "posargs""#),
        parse_error("Missing 'query_templates_dir' in manifest")
    );
    assert_eq!(
        failure(
            r#"placeholder = "posargs"
query_templates_dir = "a""#
        ),
        parse_error("Missing 'test_templates_dir' in manifest")
    );
    assert_eq!(
        failure(
            r#"placeholder = "posargs"
query_templates_dir = "a"
test_templates_dir = "b""#
        ),
        parse_error("Missing 'queries_output_dir' in manifest")
    );
    assert_eq!(
        failure(
            r#"placeholder = "posargs"
query_templates_dir = "a"
test_templates_dir = "b"
queries_output_dir = "c""#
        ),
        parse_error("Missing 'tests_output_dir' in manifest")
    );
    assert_eq!(failure(HEAD), parse_error("Missing 'queries' in manifest"));
}

#[test]
fn manifest_with_an_unknown_placeholder_fails() {
    assert_eq!(
        failure(&HEAD.replace("posargs", "positional")),
        parse_error("Invalid 'placeholder' in manifest")
    );
    assert_eq!(
        failure(&HEAD.replace("\"posargs\"", "1")),
        parse_error("Value is not a string")
    );
}

#[test]
fn manifest_values_of_the_wrong_type_fail() {
    assert_eq!(
        failure(&with_head("formatter = 1\nqueries = []")),
        parse_error("Value is not a string")
    );
    assert_eq!(
        failure(&HEAD.replace("\"output/tests\"", "[]")),
        parse_error("Value is not a string")
    );
    assert_eq!(failure(&with_head("queries = 1")), parse_error("Invalid queries"));
    assert_eq!(
        failure(&with_head("queries = []\ntest_templates = 1")),
        parse_error("Invalid test_templates")
    );
}

#[test]
fn manifest_with_two_queries_of_one_id_fails() {
    let text = with_head(
        r#"
        [[queries]]
        id = "q1"
        template = "a.sql.j2"
        conds = []

        [[queries]]
        id = "q1"
        template = "b.sql.j2"
        conds = []
        "#,
    );
    assert_eq!(failure(&text), parse_error("Duplicate query id 'q1'"));
}

#[test]
fn manifest_mistakes_in_queries_come_before_those_in_tests() {
    let text = with_head(
        r#"
        [[queries]]
        id = "q1"
        conds = []

        [[test_templates]]
        query = "q1"
        "#,
    );
    assert_eq!(failure(&text), parse_error("Missing 'template' in 'query' entry"));
}

#[test]
fn manifest_with_a_dangling_test_decodes_and_is_invalid() {
    let text = with_head(
        r#"
        queries = []

        [[test_templates]]
        query = "q1"
        template = "t.sql.j2"
        output = "t.sql"
        "#,
    );
    let md = Metadata::decode(&document(&text)).expect("a dangling test is found by validation");
    assert_eq!(md.validate().len(), 1);
}

#[test]
fn manifest_loads_from_text() {
    let text = with_head(
        r#"
        [[queries]]
        id = "q1"
        template = "q1.sql.j2"
        conds = ["a", "b"]
        "#,
    );
    let md = Metadata::load(&text).expect("the text is a complete manifest");
    assert_eq!(md.queries.len(), 1);
    assert_eq!(md.queries.get(0).map(|q| q.id.as_str()), Some("q1"));
    assert_eq!(
        md.queries.get(0).map(|q| q.conds.clone()),
        Some(vec!["a".to_string(), "b".to_string()])
    );
    assert_eq!(md.placeholder, Placeholder::PosArgs);
}

#[test]
fn manifest_load_decodes_what_the_text_holds() {
    assert_eq!(Metadata::load("").err(), Some(parse_error("Missing 'placeholder' in manifest")));
    assert_eq!(Metadata::load(HEAD).err(), Some(parse_error("Missing 'queries' in manifest")));
    assert_eq!(
        Metadata::load(&with_head("queries = 3")).err(),
        Some(parse_error("Invalid queries"))
    );
}

#[test]
fn manifest_text_that_is_no_toml_fails_to_load() {
    for text in ["placeholder = ", "[[queries", "= 1", "a = 1\na = 2", "placeholder posargs"] {
        match Metadata::load(text) {
            Err(Error::Parse(message)) => assert!(!message.is_empty()),
            other => panic!("loaded to {:?}", other),
        }
    }
}

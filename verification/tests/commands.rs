use tapestry::command::{init, invalid, manifest, summary, validate};
use tapestry::error::Error;
use tapestry::metadata::{Metadata, Mistake};
use tapestry::placeholder::Placeholder;
use tapestry::query::Queries;
use tapestry::test_template::TestTemplates;
use toml::Value;

fn metadata(text: &str) -> Metadata {
    let doc = text.parse::<toml::Table>().expect("the test's TOML is valid");
    let none = Value::Array(vec![]);
    Metadata {
        queries_output_dir: "output/queries".to_string(),
        tests_output_dir: "output/tests".to_string(),
        formatter: None,
        placeholder: Placeholder::Variables,
        queries: Queries::decode(
            "templates/queries",
            "output/queries",
            doc.get("queries").unwrap_or(&none),
        )
        .expect("the queries are valid"),
        test_templates: TestTemplates::decode(
            "templates/tests",
            "output/tests",
            doc.get("test_templates").unwrap_or(&none),
        )
        .expect("the test templates are valid"),
    }
}

const VALID: &str = r#"
[[queries]]
id = "q1"
template = "q1.sql.j2"
conds = []
option = "q1.sql"

[[queries]]
id = "q2"
template = "q2.sql.j2"
conds = []

[[test_templates]]
query = "q1"
template = "q1_a_test.sql.j2"
output = "q1_a_test.sql"

[[test_templates]]
query = "q1"
template = "q1_b_test.sql.j2"
output = "q1_b_test.sql"
"#;

const DANGLING: &str = r#"
[[queries]]
id = "q1"
template = "q1.sql.j2"
conds = []

[[test_templates]]
query = "q7"
template = "a.sql.j2"
output = "a.sql"

[[test_templates]]
query = "q1"
template = "b.sql.j2"
output = "b.sql"

[[test_templates]]
query = "q8"
template = "c.sql.j2"
output = "c.sql"
"#;

#[test]
fn manifest_path_is_fixed() {
    assert_eq!(manifest(), "tapestry.toml");
}

#[test]
fn valid_manifest_has_no_mistakes() {
    assert!(metadata(VALID).validate().is_empty());
    assert!(metadata("").validate().is_empty());
}

#[test]
fn every_dangling_test_template_is_a_mistake() {
    let mistakes = metadata(DANGLING).validate();
    assert_eq!(
        mistakes,
        vec![
            Mistake::UnknownQuery {
                template: "templates/tests/a.sql.j2".to_string(),
                query_id: "q7".to_string(),
            },
            Mistake::UnknownQuery {
                template: "templates/tests/c.sql.j2".to_string(),
                query_id: "q8".to_string(),
            },
        ]
    );
}

#[test]
fn mistake_message_names_template_and_query() {
    let m = Mistake::UnknownQuery { template: "t.sql.j2".to_string(), query_id: "q7".to_string() };
    assert_eq!(m.err_msg(), "Test template 't.sql.j2' is bound to unknown query 'q7'");
}

#[test]
fn validate_reports_a_valid_manifest() {
    let report = validate(&metadata(VALID));
    assert_eq!(report.exit_code, 0);
    assert_eq!(report.output, vec!["All Ok: Manifest file 'tapestry.toml' is valid".to_string()]);
    assert!(report.errors.is_empty());
}

#[test]
fn validate_reports_every_mistake() {
    let report = validate(&metadata(DANGLING));
    assert_eq!(report.exit_code, 1);
    assert_eq!(
        report.output,
        vec![
            "Invalid manifest file: 'tapestry.toml'".to_string(),
            "Test template 'templates/tests/a.sql.j2' is bound to unknown query 'q7'".to_string(),
            "Test template 'templates/tests/c.sql.j2' is bound to unknown query 'q8'".to_string(),
        ]
    );
    assert!(report.errors.is_empty());
}

#[test]
fn invalid_report_without_mistakes_has_one_line() {
    let report = invalid(&vec![]);
    assert_eq!(report.exit_code, 1);
    assert_eq!(report.output, vec!["Invalid manifest file: 'tapestry.toml'".to_string()]);
}

#[test]
fn summary_lists_queries_with_their_tests() {
    let report = summary(&metadata(VALID));
    assert_eq!(report.exit_code, 0);
    let expected = "\
+----+-----------------------+-----------------------------+----------------------------+
| Id | Query                 | Template                    | Tests                      |
+=======================================================================================+
| q1 | output/queries/q1.sql | templates/queries/q1.sql.j2 | output/tests/q1_a_test.sql |
|    |                       |                             | output/tests/q1_b_test.sql |
|----+-----------------------+-----------------------------+----------------------------|
| q2 |                       | templates/queries/q2.sql.j2 |                            |
+----+-----------------------+-----------------------------+----------------------------+";
    assert_eq!(report.output, vec![expected.to_string()]);
    assert!(report.errors.is_empty());
}

#[test]
fn summary_of_no_queries_is_the_header() {
    let report = summary(&metadata(""));
    assert_eq!(report.exit_code, 0);
    assert_eq!(report.output.len(), 1);
    assert!(report.output[0].contains("| Id | Query | Template | Tests |"));
    assert_ne!(report.output[0], "Id");
}

#[test]
fn summary_of_an_invalid_manifest_reports_the_mistakes() {
    let report = summary(&metadata(DANGLING));
    assert_eq!(report.exit_code, 1);
    assert_eq!(report.output.len(), 3);
    assert_eq!(report.output[0], "Invalid manifest file: 'tapestry.toml'");
}

#[test]
fn init_reports_the_new_project() {
    let report = init("demo", Ok(())).expect("a project that was laid out is reported");
    assert_eq!(report.exit_code, 0);
    assert_eq!(report.output, vec!["New tapestry project initialized at: demo".to_string()]);
    assert!(report.errors.is_empty());
}

#[test]
fn init_reports_why_the_layout_failed() {
    let failed = Err(Error::Scaffolding("directory is not empty".to_string()));
    let report = init("demo", failed).expect("a failed layout is reported");
    assert_eq!(report.exit_code, 1);
    assert!(report.output.is_empty());
    assert_eq!(
        report.errors,
        vec![
            "Error initializing new tapestry project".to_string(),
            "Reason: directory is not empty".to_string(),
        ]
    );
}

#[test]
fn init_hands_other_errors_on() {
    assert_eq!(
        init("demo", Err(Error::Io("disk full".to_string()))).err(),
        Some(Error::Io("disk full".to_string()))
    );
    assert_eq!(
        init("demo", Err(Error::Parse("bad".to_string()))).err(),
        Some(Error::Parse("bad".to_string()))
    );
    assert_eq!(
        init("demo", Err(Error::Render("bad".to_string()))).err(),
        Some(Error::Render("bad".to_string()))
    );
}

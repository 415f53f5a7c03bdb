use std::collections::BTreeMap;
use tapestry::command::{render, status};
use tapestry::engine::{expand, lists_for, tell, texts_for};
use tapestry::error::Error;
use tapestry::metadata::Metadata;
use tapestry::pipeline::{Action, Event, Step};

fn query(template: &str, id: &str, conds: &[&str]) -> Action {
    Action::RenderQuery {
        query: 0,
        id: id.to_string(),
        template: template.to_string(),
        conds: conds.iter().map(|c| c.to_string()).collect(),
    }
}

fn test(template: &str, query_id: &str, prepared_statement: Option<&str>) -> Action {
    Action::RenderTest {
        test: 0,
        query_id: query_id.to_string(),
        template: template.to_string(),
        prepared_statement: prepared_statement.map(|p| p.to_string()),
    }
}

fn rendered(event: Event) -> String {
    match event {
        Event::Rendered(text) => text,
        other => panic!("told {:?}", other),
    }
}

fn failure(event: Event) -> Error {
    match event {
        Event::Failed(error) => error,
        other => panic!("told {:?}", other),
    }
}

#[test]
fn query_context_holds_id_and_conds() {
    let action = query("q1.sql.j2", "q1", &["genre", "limit"]);
    assert_eq!(texts_for(&action), vec![("query_id".to_string(), "q1".to_string())]);
    assert_eq!(
        lists_for(&action),
        vec![("conds".to_string(), vec!["genre".to_string(), "limit".to_string()])]
    );
}

#[test]
fn test_context_holds_the_prepared_statement_only_where_there_is_one() {
    let with = test("t.sql.j2", "q1", Some("select 1"));
    assert_eq!(
        texts_for(&with),
        vec![
            ("query_id".to_string(), "q1".to_string()),
            ("prepared_statement".to_string(), "select 1".to_string()),
        ]
    );
    assert!(lists_for(&with).is_empty());
    let without = test("t.sql.j2", "q1", None);
    assert_eq!(texts_for(&without), vec![("query_id".to_string(), "q1".to_string())]);
    assert!(lists_for(&without).is_empty());
}

#[test]
fn other_actions_have_an_empty_context() {
    let action = Action::Finish { exit_code: 0 };
    assert!(texts_for(&action).is_empty());
    assert!(lists_for(&action).is_empty());
}

#[test]
fn query_template_is_expanded_with_its_context() {
    let source = "-- {{ query_id }}\nselect * from songs\
{% if 'genre' in conds %} where genre = $1{% endif %}\
{% if 'limit' in conds %} limit $2{% endif %};";
    let both = rendered(expand(&query("q.sql.j2", "long_songs", &["genre", "limit"]), source));
    assert_eq!(both, "-- long_songs\nselect * from songs where genre = $1 limit $2;");
    let one = rendered(expand(&query("q.sql.j2", "long_songs", &["genre"]), source));
    assert_eq!(one, "-- long_songs\nselect * from songs where genre = $1;");
    let none = rendered(expand(&query("q.sql.j2", "long_songs", &[]), source));
    assert_eq!(none, "-- long_songs\nselect * from songs;");
    assert_ne!(none, source);
}

#[test]
fn test_template_is_handed_the_prepared_statement() {
    let source = "prepare {{ query_id }} as {{ prepared_statement }};";
    let text = rendered(expand(&test("t.sql.j2", "q1", Some("select $1")), source));
    assert_eq!(text, "prepare q1 as select $1;");
}

#[test]
fn test_template_without_prepared_statement_cannot_use_it() {
    let source = "prepare {{ query_id }} as {{ prepared_statement }};";
    match failure(expand(&test("t.sql.j2", "q1", None), source)) {
        Error::Render(message) => {
            assert!(message.starts_with("t.sql.j2: "), "{message}");
            assert!(message.contains("undefined"), "{message}");
        }
        other => panic!("failed with {:?}", other),
    }
    let plain = rendered(expand(&test("t.sql.j2", "q1", None), "select {{ query_id }};"));
    assert_eq!(plain, "select q1;");
}

#[test]
fn template_with_an_unknown_placeholder_fails() {
    match failure(expand(&query("q.sql.j2", "q1", &[]), "select {{ nothing }};")) {
        Error::Render(message) => assert!(message.starts_with("q.sql.j2: "), "{message}"),
        other => panic!("failed with {:?}", other),
    }
}

#[test]
fn template_with_broken_syntax_fails() {
    for source in ["select {{ query_id ;", "{% if %}", "{% endfor %}", "{{ 1 + }}"] {
        match failure(expand(&query("q.sql.j2", "q1", &[]), source)) {
            Error::Render(message) => assert!(message.starts_with("q.sql.j2: "), "{message}"),
            other => panic!("failed with {:?}", other),
        }
    }
}

#[test]
fn template_without_placeholders_is_kept() {
    assert_eq!(rendered(expand(&query("q.sql.j2", "q1", &[]), "select 1;")), "select 1;");
    assert_eq!(rendered(expand(&query("q.sql.j2", "q1", &[]), "")), "");
}

#[test]
fn actions_that_ask_for_no_rendering_are_answered_with_a_failure() {
    let unexpected = Error::Io("Unexpected event".to_string());
    assert_eq!(failure(expand(&Action::Finish { exit_code: 0 }, "x")), unexpected);
    assert_eq!(
        failure(expand(&Action::Inspect { path: "a".to_string() }, "{{ query_id }}")),
        unexpected
    );
    assert_eq!(
        failure(expand(&Action::Write { path: "a".to_string(), text: "b".to_string() }, "x")),
        unexpected
    );
}

#[test]
fn tell_makes_the_event_of_an_answer() {
    assert_eq!(rendered(tell("t.j2", Ok("select 1".to_string()))), "select 1");
    assert_eq!(
        failure(tell("t.j2", Err("syntax error".to_string()))),
        Error::Render("t.j2: syntax error".to_string())
    );
}

const MANIFEST: &str = r#"
placeholder = "posargs"
query_templates_dir = "templates/queries"
test_templates_dir = "templates/tests"
queries_output_dir = "output/queries"
tests_output_dir = "output/tests"

[[queries]]
id = "long_songs"
template = "long_songs.sql.j2"
conds = ["genre"]
option = "long_songs.sql"

[[test_templates]]
query = "long_songs"
template = "long_songs_test.sql.j2"
output = "long_songs_test.sql"
"#;

fn templates() -> BTreeMap<&'static str, &'static str> {
    BTreeMap::from([
        (
            "templates/queries/long_songs.sql.j2",
            "select * from songs{% if 'genre' in conds %} where genre = $1{% endif %}",
        ),
        (
            "templates/tests/long_songs_test.sql.j2",
            "prepare {{ query_id }} as {{ prepared_statement }};",
        ),
    ])
}

fn run(first: Step, files: &mut BTreeMap<String, Vec<u8>>) -> Result<i32, Error> {
    let sources = templates();
    let mut step = first;
    loop {
        let event = match step.action {
            Action::Finish { exit_code } => return Ok(exit_code),
            Action::Abort { error } => return Err(error),
            Action::EnsureDirs { .. } => Event::Ready,
            Action::Format { text, .. } => Event::Formatted(text),
            Action::Write { path, text } => {
                files.insert(path, text.into_bytes());
                Event::Written
            }
            Action::Inspect { path } => Event::Found(files.get(&path).cloned()),
            action => {
                let template = match &action {
                    Action::RenderQuery { template, .. } => template.clone(),
                    Action::RenderTest { template, .. } => template.clone(),
                    other => panic!("asked for {:?}", other),
                };
                match sources.get(template.as_str()) {
                    Some(source) => expand(&action, source),
                    None => Event::Failed(Error::Render(format!("{template}: not found"))),
                }
            }
        };
        step = step.run.advance(event);
    }
}

#[test]
fn a_run_with_the_engine_threads_the_query_into_its_test() {
    let md = Metadata::load(MANIFEST).expect("the manifest is valid");
    let mut files = BTreeMap::new();
    assert_eq!(run(render(&md), &mut files), Ok(0));
    assert_eq!(
        files.get("output/queries/long_songs.sql").map(|b| b.as_slice()),
        Some("select * from songs where genre = $1".as_bytes())
    );
    assert_eq!(
        files.get("output/tests/long_songs_test.sql").map(|b| b.as_slice()),
        Some("prepare long_songs as select * from songs where genre = $1;".as_bytes())
    );
    assert_eq!(run(status(&md, true), &mut files), Ok(0));
    files.insert("output/queries/long_songs.sql".to_string(), b"select 1".to_vec());
    assert_eq!(run(status(&md, true), &mut files), Ok(1));
}

#[test]
fn a_run_with_the_engine_fails_where_variables_hide_the_statement() {
    let md = Metadata::load(&MANIFEST.replace("posargs", "variables")).expect("valid");
    let mut files = BTreeMap::new();
    match run(render(&md), &mut files) {
        Err(Error::Render(message)) => {
            assert!(message.starts_with("templates/tests/long_songs_test.sql.j2: "), "{message}")
        }
        other => panic!("ended with {:?}", other),
    }
    assert_eq!(files.len(), 1);
}

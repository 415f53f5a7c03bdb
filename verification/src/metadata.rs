//! A manifest in memory, and the mistakes that it may hold.

use vstd::prelude::*;
use crate::error::{text_result, Error, ErrorView};
use crate::placeholder::Placeholder;
use crate::query::{decode_queries, has_id, Queries, QueryView};
use crate::test_template::{decode_templates, TestTemplateView, TestTemplates};
use crate::value::{
    as_table, decode_string, doc_of, parse_document, parsed, table_docs, table_get, text_of,
    Doc,
};

verus! {

/// What a manifest says, decoded.
#[derive(Debug)]
pub struct Metadata {
    /// The directory that rendered queries are written under.
    pub queries_output_dir: String,
    /// The directory that rendered tests are written under.
    pub tests_output_dir: String,
    /// The program that rendered text is passed through before it is
    /// written or compared; `None`: the text is taken as it is.
    pub formatter: Option<String>,
    /// How the text of a rendered query reaches its tests.
    pub placeholder: Placeholder,
    /// The queries, in the manifest's order.
    pub queries: Queries,
    /// The test templates, in the manifest's order.
    pub test_templates: TestTemplates,
}

/// The mathematical value of a [`Metadata`].
pub struct MetadataView {
    pub queries_output_dir: Seq<char>,
    pub tests_output_dir: Seq<char>,
    pub formatter: Option<Seq<char>>,
    pub placeholder: Placeholder,
    pub queries: Seq<QueryView>,
    pub test_templates: Seq<TestTemplateView>,
}

impl View for Metadata {
    type V = MetadataView;

    open spec fn view(&self) -> MetadataView {
        MetadataView {
            queries_output_dir: self.queries_output_dir@,
            tests_output_dir: self.tests_output_dir@,
            formatter: match self.formatter {
                Some(f) => Some(f@),
                None => None,
            },
            placeholder: self.placeholder,
            queries: self.queries@,
            test_templates: self.test_templates@,
        }
    }
}

/// The mathematical value of a manifest or an error.
pub open spec fn metadata_result(r: Result<Metadata, Error>) -> Result<MetadataView, ErrorView> {
    match r {
        Ok(md) => Ok(md@),
        Err(e) => Err(e@),
    }
}

/// The message of the error for a key that a manifest lacks.
pub open spec fn missing_key_message(key: Seq<char>) -> Seq<char> {
    "Missing '"@ + key + "' in manifest"@
}

/// The string under `key`, which the table must have.
pub open spec fn required_text(t: Map<Seq<char>, Doc>, key: Seq<char>) -> Result<
    Seq<char>,
    ErrorView,
> {
    if t.contains_key(key) {
        text_of(t[key])
    } else {
        Err(ErrorView::Parse(missing_key_message(key)))
    }
}

/// The placeholder strategy of a manifest: the string under `placeholder`,
/// which must be `posargs` or `variables`.
pub open spec fn placeholder_of(t: Map<Seq<char>, Doc>) -> Result<Placeholder, ErrorView> {
    match required_text(t, "placeholder"@) {
        Err(e) => Err(e),
        Ok(name) => match Placeholder::named(name) {
            Some(p) => Ok(p),
            None => Err(ErrorView::Parse("Invalid 'placeholder' in manifest"@)),
        },
    }
}

/// The formatter of a manifest: the string under `formatter`, if there is
/// that key.
pub open spec fn formatter_of(t: Map<Seq<char>, Doc>) -> Result<Option<Seq<char>>, ErrorView> {
    if t.contains_key("formatter"@) {
        match text_of(t["formatter"@]) {
            Ok(f) => Ok(Some(f)),
            Err(e) => Err(e),
        }
    } else {
        Ok(None)
    }
}

/// The test templates of a manifest: what is under `test_templates`, and
/// none where the manifest has no such key.
pub open spec fn templates_of(t: Map<Seq<char>, Doc>, tbase: Seq<char>, obase: Seq<char>) -> Result<
    Seq<TestTemplateView>,
    ErrorView,
> {
    if t.contains_key("test_templates"@) {
        decode_templates(tbase, obase, t["test_templates"@])
    } else {
        Ok(Seq::empty())
    }
}

/// The queries of a manifest: what is under `queries`, which the manifest
/// must have.
pub open spec fn queries_of(t: Map<Seq<char>, Doc>, tbase: Seq<char>, obase: Seq<char>) -> Result<
    Seq<QueryView>,
    ErrorView,
> {
    if t.contains_key("queries"@) {
        decode_queries(tbase, obase, t["queries"@])
    } else {
        Err(ErrorView::Parse(missing_key_message("queries"@)))
    }
}

/// What a manifest decodes to. It is a table. Read in this order:
/// `placeholder`, `query_templates_dir`, `test_templates_dir`,
/// `queries_output_dir`, `tests_output_dir`, `formatter` (may be left out),
/// `queries`, `test_templates` (may be left out). The templates of queries
/// and tests are resolved against the two template directories, their
/// outputs against the two output directories. The first thing that is
/// wrong decides the error.
pub open spec fn decode_metadata(d: Doc) -> Result<MetadataView, ErrorView> {
    match d {
        Doc::Table(t) => {
            let placeholder = placeholder_of(t);
            let query_templates = required_text(t, "query_templates_dir"@);
            let test_templates = required_text(t, "test_templates_dir"@);
            let queries_output = required_text(t, "queries_output_dir"@);
            let tests_output = required_text(t, "tests_output_dir"@);
            let formatter = formatter_of(t);
            if placeholder is Err {
                Err(placeholder->Err_0)
            } else if query_templates is Err {
                Err(query_templates->Err_0)
            } else if test_templates is Err {
                Err(test_templates->Err_0)
            } else if queries_output is Err {
                Err(queries_output->Err_0)
            } else if tests_output is Err {
                Err(tests_output->Err_0)
            } else if formatter is Err {
                Err(formatter->Err_0)
            } else {
                let queries = queries_of(t, query_templates->Ok_0, queries_output->Ok_0);
                let tests = templates_of(t, test_templates->Ok_0, tests_output->Ok_0);
                if queries is Err {
                    Err(queries->Err_0)
                } else if tests is Err {
                    Err(tests->Err_0)
                } else {
                    Ok(
                        MetadataView {
                            queries_output_dir: queries_output->Ok_0,
                            tests_output_dir: tests_output->Ok_0,
                            formatter: formatter->Ok_0,
                            placeholder: placeholder->Ok_0,
                            queries: queries->Ok_0,
                            test_templates: tests->Ok_0,
                        },
                    )
                }
            }
        },
        _ => Err(ErrorView::Parse("Invalid manifest"@)),
    }
}

/// Reads the string under `key`, which the table must have.
fn required_string(t: &toml::map::Map<String, toml::Value>, key: &str) -> (r: Result<String, Error>)
    ensures
        text_result(r) == required_text(table_docs(*t), key@),
{
    match table_get(t, key) {
        Some(v) => decode_string(v),
        None => {
            let mut message = "Missing '".to_owned();
            message.append(key);
            message.append("' in manifest");
            Err(Error::Parse(message))
        },
    }
}

/// Something in a manifest that keeps it from being used.
#[derive(Debug, PartialEq, Eq)]
pub enum Mistake {
    /// A test template is bound to an identifier that no query has.
    UnknownQuery { template: String, query_id: String },
}

/// The mathematical value of a [`Mistake`].
pub enum MistakeView {
    UnknownQuery { template: Seq<char>, query_id: Seq<char> },
}

impl View for Mistake {
    type V = MistakeView;

    open spec fn view(&self) -> MistakeView {
        match self {
            Mistake::UnknownQuery { template, query_id } => MistakeView::UnknownQuery {
                template: template@,
                query_id: query_id@,
            },
        }
    }
}

impl MistakeView {
    /// The line that tells the user of the mistake.
    pub open spec fn err_msg(self) -> Seq<char> {
        match self {
            MistakeView::UnknownQuery { template, query_id } => "Test template '"@ + template
                + "' is bound to unknown query '"@ + query_id + "'"@,
        }
    }
}

impl Mistake {
    /// The line that tells the user of the mistake.
    pub fn err_msg(&self) -> (m: String)
        ensures
            m@ == self@.err_msg(),
    {
        match self {
            Mistake::UnknownQuery { template, query_id } => {
                let mut m = "Test template '".to_owned();
                m.append(template.as_str());
                m.append("' is bound to unknown query '");
                m.append(query_id.as_str());
                m.append("'");
                m
            },
        }
    }
}

/// The mathematical values of a sequence of mistakes.
pub open spec fn mistake_views(ms: Seq<Mistake>) -> Seq<MistakeView> {
    Seq::new(ms.len(), |i: int| ms[i]@)
}

/// The mistakes among the test templates `ts`, given the queries `qs`: one
/// for each test template whose query is not among `qs`, in the order of the
/// test templates.
pub open spec fn unbound(qs: Seq<QueryView>, ts: Seq<TestTemplateView>) -> Seq<MistakeView>
    decreases ts.len(),
{
    if ts.len() == 0 {
        Seq::empty()
    } else if has_id(qs, ts.last().query_id) {
        unbound(qs, ts.drop_last())
    } else {
        unbound(qs, ts.drop_last()).push(
            MistakeView::UnknownQuery { template: ts.last().path, query_id: ts.last().query_id },
        )
    }
}

/// There is no mistake among the test templates exactly when each of them
/// is bound to a query that there is; and there are never more mistakes
/// than test templates.
pub proof fn law_unbound(qs: Seq<QueryView>, ts: Seq<TestTemplateView>)
    ensures
        unbound(qs, ts).len() <= ts.len(),
        unbound(qs, ts).len() == 0 <==> forall|i: int|
            0 <= i < ts.len() ==> has_id(qs, (#[trigger] ts[i]).query_id),
    decreases ts.len(),
{
    if ts.len() > 0 {
        let front = ts.drop_last();
        law_unbound(qs, front);
        if unbound(qs, ts).len() == 0 {
            assert forall|i: int| 0 <= i < ts.len() implies has_id(
                qs,
                (#[trigger] ts[i]).query_id,
            ) by {
                if i < front.len() {
                    assert(front[i] == ts[i]);
                }
            }
        }
        if forall|i: int| 0 <= i < ts.len() ==> has_id(qs, (#[trigger] ts[i]).query_id) {
            assert(has_id(qs, ts[ts.len() - 1].query_id));
            assert forall|i: int| 0 <= i < front.len() implies has_id(
                qs,
                (#[trigger] front[i]).query_id,
            ) by {
                assert(front[i] == ts[i]);
            }
        }
    }
}

impl MetadataView {
    /// Every mistake of the manifest.
    pub open spec fn mistakes(self) -> Seq<MistakeView> {
        unbound(self.queries, self.test_templates)
    }

    /// Whether the manifest holds no mistake.
    pub open spec fn valid(self) -> bool {
        self.mistakes().len() == 0
    }
}

impl Metadata {
    /// Reads a manifest from its parsed document.
    pub fn decode(value: &toml::Value) -> (r: Result<Metadata, Error>)
        ensures
            metadata_result(r) == decode_metadata(doc_of(*value)),
    {
        let t = match as_table(value) {
            Some(t) => t,
            None => {
                return Err(Error::parse("Invalid manifest"));
            },
        };
        let placeholder = match required_string(t, "placeholder") {
            Ok(name) => match Placeholder::from_name(name.as_str()) {
                Some(p) => p,
                None => {
                    return Err(Error::parse("Invalid 'placeholder' in manifest"));
                },
            },
            Err(e) => {
                return Err(e);
            },
        };
        let query_templates_dir = match required_string(t, "query_templates_dir") {
            Ok(s) => s,
            Err(e) => {
                return Err(e);
            },
        };
        let test_templates_dir = match required_string(t, "test_templates_dir") {
            Ok(s) => s,
            Err(e) => {
                return Err(e);
            },
        };
        let queries_output_dir = match required_string(t, "queries_output_dir") {
            Ok(s) => s,
            Err(e) => {
                return Err(e);
            },
        };
        let tests_output_dir = match required_string(t, "tests_output_dir") {
            Ok(s) => s,
            Err(e) => {
                return Err(e);
            },
        };
        let formatter = match table_get(t, "formatter") {
            Some(v) => match decode_string(v) {
                Ok(f) => Some(f),
                Err(e) => {
                    return Err(e);
                },
            },
            None => None,
        };
        let queries = match table_get(t, "queries") {
            Some(v) => match Queries::decode(
                query_templates_dir.as_str(),
                queries_output_dir.as_str(),
                v,
            ) {
                Ok(qs) => qs,
                Err(e) => {
                    return Err(e);
                },
            },
            None => {
                let mut message = "Missing '".to_owned();
                message.append("queries");
                message.append("' in manifest");
                return Err(Error::Parse(message));
            },
        };
        let test_templates = match table_get(t, "test_templates") {
            Some(v) => match TestTemplates::decode(
                test_templates_dir.as_str(),
                tests_output_dir.as_str(),
                v,
            ) {
                Ok(ts) => ts,
                Err(e) => {
                    return Err(e);
                },
            },
            None => TestTemplates::new(),
        };
        Ok(
            Metadata {
                queries_output_dir,
                tests_output_dir,
                formatter,
                placeholder,
                queries,
                test_templates,
            },
        )
    }

    /// Reads a manifest from its text. A text that is no TOML document
    /// fails with a configuration error that holds the parser's message;
    /// any other text gives what its document decodes to.
    pub fn load(text: &str) -> (r: Result<Metadata, Error>)
        ensures
            metadata_result(r) == match parsed(text@) {
                Ok(doc) => decode_metadata(doc),
                Err(message) => Err(ErrorView::Parse(message)),
            },
    {
        match parse_document(text) {
            Ok(value) => Metadata::decode(&value),
            Err(message) => Err(Error::Parse(message)),
        }
    }

    /// Every mistake of the manifest, not only the first. An empty result
    /// means that each test template is bound to a query of the manifest.
    pub fn validate(&self) -> (r: Vec<Mistake>)
        ensures
            mistake_views(r@) == self@.mistakes(),
    {
        let ghost qs = self.queries@;
        let ghost ts = self.test_templates@;
        let mut res: Vec<Mistake> = Vec::new();
        let mut i: usize = 0;
        assert(ts.take(0) =~= Seq::<TestTemplateView>::empty());
        assert(mistake_views(res@) =~= Seq::<MistakeView>::empty());
        while i < self.test_templates.len()
            invariant
                i <= ts.len(),
                qs == self.queries@,
                ts == self.test_templates@,
                mistake_views(res@) == unbound(qs, ts.take(i as int)),
            decreases ts.len() - i,
        {
            let ghost before = mistake_views(res@);
            proof {
                assert(ts.take(i + 1).drop_last() =~= ts.take(i as int));
                assert(ts.take(i + 1).last() == ts[i as int]);
            }
            match self.test_templates.get(i) {
                Some(t) => {
                    if self.queries.position(t.query_id.as_str()).is_none() {
                        let m = Mistake::UnknownQuery {
                            template: t.path.clone(),
                            query_id: t.query_id.clone(),
                        };
                        res.push(m);
                        proof {
                            assert(mistake_views(res@) =~= before.push(
                                MistakeView::UnknownQuery {
                                    template: ts[i as int].path,
                                    query_id: ts[i as int].query_id,
                                },
                            ));
                        }
                    }
                },
                None => {},
            }
            i += 1;
        }
        proof {
            assert(ts.take(i as int) =~= ts);
        }
        res
    }
}

} // verus!

//! The order of work of a run, and the run itself as a machine that is told
//! what has happened and says what to do next.
//!
//! Reading a template, formatting text and touching the output tree are
//! done by the caller, and the template is expanded by the template engine.
//! The machine decides everything else: which item comes next, what text a
//! test is handed, whether a target is written, refused or only compared,
//! and how the run ends.

use vstd::prelude::*;
use vstd::utf8::encode_utf8;
use crate::error::{Error, ErrorView};
use crate::metadata::{Metadata, MetadataView};
use crate::output::{all_unchanged, classify, lies_within, status, within, Status, StatusMap};
use crate::placeholder::Placeholder;
use crate::query::QueryView;
use crate::test_template::{bound_to, lemma_bound_to, TestTemplateView};
use crate::text::copy_all;

verus! {

/// What a run does with rendered text.
#[derive(Debug, Clone, Copy, PartialEq, Eq, Structural)]
pub enum Mode {
    /// Write it to its target.
    Write,
    /// Compare it with its target, and write nothing.
    Check,
}

/// What an item of work renders.
#[derive(Debug, Clone, Copy, PartialEq, Eq, Structural)]
pub enum ItemKind {
    Query,
    Test,
}

/// One item of work: a query or a test template to render.
#[derive(Debug)]
pub struct Item {
    pub kind: ItemKind,
    /// The position of the query among the queries of the manifest, or of
    /// the test template among its test templates.
    pub index: usize,
    /// Where the template lies.
    pub template: String,
    /// The identifier of the query, or of the query that the test template
    /// is bound to.
    pub query_id: String,
    /// The conditions of the query; a test template has none.
    pub conds: Vec<String>,
    /// Where the rendered text belongs; `None`: nowhere.
    pub output: Option<String>,
}

/// The mathematical value of an [`Item`].
pub struct ItemView {
    pub kind: ItemKind,
    pub index: int,
    pub template: Seq<char>,
    pub query_id: Seq<char>,
    pub conds: Seq<Seq<char>>,
    pub output: Option<Seq<char>>,
}

impl View for Item {
    type V = ItemView;

    open spec fn view(&self) -> ItemView {
        ItemView {
            kind: self.kind,
            index: self.index as int,
            template: self.template@,
            query_id: self.query_id@,
            conds: self.conds.deep_view(),
            output: match self.output {
                Some(p) => Some(p@),
                None => None,
            },
        }
    }
}

/// The mathematical values of a sequence of items.
pub open spec fn item_views(items: Seq<Item>) -> Seq<ItemView> {
    Seq::new(items.len(), |i: int| items[i]@)
}

/// The item for the test template at position `i`.
pub open spec fn test_item(ts: Seq<TestTemplateView>, i: int) -> ItemView {
    ItemView {
        kind: ItemKind::Test,
        index: i,
        template: ts[i].path,
        query_id: ts[i].query_id,
        conds: Seq::empty(),
        output: Some(ts[i].output),
    }
}

/// The items for the test templates at the positions `at`.
pub open spec fn test_items(ts: Seq<TestTemplateView>, at: Seq<int>) -> Seq<ItemView> {
    Seq::new(at.len(), |k: int| test_item(ts, at[k]))
}

/// The item for the query at position `i`.
pub open spec fn query_item(qs: Seq<QueryView>, i: int) -> ItemView {
    ItemView {
        kind: ItemKind::Query,
        index: i,
        template: qs[i].template,
        query_id: qs[i].id,
        conds: qs[i].conds,
        output: qs[i].output,
    }
}

/// The work for the first `n` queries: each query in the manifest's order,
/// and right after each the test templates bound to it, in their order.
pub open spec fn plan_upto(qs: Seq<QueryView>, ts: Seq<TestTemplateView>, n: int) -> Seq<ItemView>
    decreases n,
{
    if n <= 0 {
        Seq::empty()
    } else {
        plan_upto(qs, ts, n - 1) + seq![query_item(qs, n - 1)] + test_items(
            ts,
            bound_to(ts, qs[n - 1].id),
        )
    }
}

/// The work of a run over a manifest.
pub open spec fn plan_of(md: MetadataView) -> Seq<ItemView> {
    plan_upto(md.queries, md.test_templates, md.queries.len() as int)
}

/// Lays out the work of a run: each query in the manifest's order, and right
/// after each the test templates bound to it, in their order.
pub fn plan(metadata: &Metadata) -> (r: Vec<Item>)
    ensures
        item_views(r@) == plan_of(metadata@),
{
    let ghost qs = metadata@.queries;
    let ghost ts = metadata@.test_templates;
    let n = metadata.queries.len();
    let mut items: Vec<Item> = Vec::new();
    let mut i: usize = 0;
    assert(item_views(items@) =~= plan_upto(qs, ts, 0));
    while i < n
        invariant
            i <= n,
            n == qs.len(),
            qs == metadata@.queries,
            ts == metadata@.test_templates,
            item_views(items@) == plan_upto(qs, ts, i as int),
        decreases n - i,
    {
        match metadata.queries.get(i) {
            Some(q) => {
                let ghost before = item_views(items@);
                let output = match &q.output {
                    Some(p) => Some(p.clone()),
                    None => None,
                };
                items.push(
                    Item {
                        kind: ItemKind::Query,
                        index: i,
                        template: q.template.clone(),
                        query_id: q.id.clone(),
                        conds: copy_all(&q.conds),
                        output,
                    },
                );
                proof {
                    assert(item_views(items@) =~= before + seq![query_item(qs, i as int)]);
                }
                let ghost with_query = item_views(items@);
                let ghost at = bound_to(ts, q@.id);
                let bound = metadata.test_templates.positions_by_query(q.id.as_str());
                proof {
                    lemma_bound_to(ts, q@.id);
                }
                let mut k: usize = 0;
                while k < bound.len()
                    invariant
                        k <= bound.len(),
                        ts == metadata@.test_templates,
                        at == bound_to(ts, q@.id),
                        bound.len() == at.len(),
                        forall|l: int| 0 <= l < bound.len() ==> (#[trigger] bound[l]) as int == at[l],
                        forall|l: int| 0 <= l < at.len() ==> 0 <= (#[trigger] at[l]) < ts.len(),
                        item_views(items@) == with_query + test_items(ts, at.take(k as int)),
                    decreases bound.len() - k,
                {
                    let ghost so_far = item_views(items@);
                    let j = bound[k];
                    assert(j as int == at[k as int]);
                    match metadata.test_templates.get(j) {
                        Some(t) => {
                            let conds: Vec<String> = Vec::new();
                            assert(conds.deep_view() =~= Seq::<Seq<char>>::empty());
                            items.push(
                                Item {
                                    kind: ItemKind::Test,
                                    index: j,
                                    template: t.path.clone(),
                                    query_id: t.query_id.clone(),
                                    conds,
                                    output: Some(t.output.clone()),
                                },
                            );
                            proof {
                                let added = test_item(ts, at[k as int]);
                                assert(t@ == ts[j as int]);
                                assert(item_views(items@) =~= so_far.push(added));
                                assert(test_items(ts, at.take(k + 1)) =~= test_items(
                                    ts,
                                    at.take(k as int),
                                ).push(added));
                            }
                        },
                        None => {},
                    }
                    k += 1;
                }
                proof {
                    assert(at.take(k as int) =~= at);
                }
            },
            None => {},
        }
        i += 1;
    }
    items
}

/// What a run waits for.
#[derive(Debug, Clone, Copy, PartialEq, Eq, Structural)]
pub enum Phase {
    /// For the output directories to be there.
    Preparing,
    /// For the current item to be rendered.
    Rendering,
    /// For the text of the current item to be formatted.
    Formatting,
    /// For the text of the current item to be written, or for what its
    /// target holds.
    Reconciling,
    /// For nothing: the run has ended.
    Done,
}

/// What the caller is to do next.
#[derive(Debug)]
pub enum Action {
    /// Make sure that the two output directories exist, then say `Ready`.
    EnsureDirs { queries: String, tests: String },
    /// Render the template of the query at this position, with the
    /// identifier and the conditions of the query in its context, then say
    /// `Rendered`: read the template and say what `engine::expand` makes of
    /// it.
    RenderQuery { query: usize, id: String, template: String, conds: Vec<String> },
    /// Render the template of the test template at this position, with
    /// the prepared statement in its context if there is one, then say
    /// `Rendered`, in the same way.
    RenderTest {
        test: usize,
        query_id: String,
        template: String,
        prepared_statement: Option<String>,
    },
    /// Pass the text through the formatter, then say `Formatted`.
    Format { formatter: String, text: String },
    /// Write the text to the path, which lies within the output directory
    /// of the item, then say `Written`.
    Write { path: String, text: String },
    /// Read the file at the path, if there is one, then say `Found`.
    Inspect { path: String },
    /// End with this exit code.
    Finish { exit_code: i32 },
    /// End with this error.
    Abort { error: Error },
}

/// The mathematical value of an [`Action`].
pub enum ActionView {
    EnsureDirs { queries: Seq<char>, tests: Seq<char> },
    RenderQuery { query: int, id: Seq<char>, template: Seq<char>, conds: Seq<Seq<char>> },
    RenderTest {
        test: int,
        query_id: Seq<char>,
        template: Seq<char>,
        prepared_statement: Option<Seq<char>>,
    },
    Format { formatter: Seq<char>, text: Seq<char> },
    Write { path: Seq<char>, text: Seq<char> },
    Inspect { path: Seq<char> },
    Finish { exit_code: int },
    Abort { error: ErrorView },
}

impl View for Action {
    type V = ActionView;

    open spec fn view(&self) -> ActionView {
        match self {
            Action::EnsureDirs { queries, tests } => ActionView::EnsureDirs {
                queries: queries@,
                tests: tests@,
            },
            Action::RenderQuery { query, id, template, conds } => ActionView::RenderQuery {
                query: *query as int,
                id: id@,
                template: template@,
                conds: conds.deep_view(),
            },
            Action::RenderTest { test, query_id, template, prepared_statement } => ActionView::RenderTest {
                test: *test as int,
                query_id: query_id@,
                template: template@,
                prepared_statement: match prepared_statement {
                    Some(p) => Some(p@),
                    None => None,
                },
            },
            Action::Format { formatter, text } => ActionView::Format {
                formatter: formatter@,
                text: text@,
            },
            Action::Write { path, text } => ActionView::Write { path: path@, text: text@ },
            Action::Inspect { path } => ActionView::Inspect { path: path@ },
            Action::Finish { exit_code } => ActionView::Finish { exit_code: *exit_code as int },
            Action::Abort { error } => ActionView::Abort { error: error@ },
        }
    }
}

/// What the caller says has happened.
#[derive(Debug)]
pub enum Event {
    /// The output directories exist.
    Ready,
    /// The item was rendered to this text.
    Rendered(String),
    /// The formatter made this of the text.
    Formatted(String),
    /// The text was written.
    Written,
    /// The file at the path holds these bytes; `None`: there is no file.
    Found(Option<Vec<u8>>),
    /// What was asked for could not be done.
    Failed(Error),
}

/// The mathematical value of an [`Event`].
pub enum EventView {
    Ready,
    Rendered(Seq<char>),
    Formatted(Seq<char>),
    Written,
    Found(Option<Seq<u8>>),
    Failed(ErrorView),
}

impl View for Event {
    type V = EventView;

    open spec fn view(&self) -> EventView {
        match self {
            Event::Ready => EventView::Ready,
            Event::Rendered(t) => EventView::Rendered(t@),
            Event::Formatted(t) => EventView::Formatted(t@),
            Event::Written => EventView::Written,
            Event::Found(existing) => EventView::Found(
                match existing {
                    Some(bytes) => Some(bytes@),
                    None => None,
                },
            ),
            Event::Failed(e) => EventView::Failed(e@),
        }
    }
}

/// The mathematical value of a [`Run`].
pub struct RunView {
    pub mode: Mode,
    /// Whether a run that compares fails unless everything is unchanged.
    pub assert_no_changes: bool,
    pub placeholder: Placeholder,
    /// The formatter of the manifest, if it has one.
    pub formatter: Option<Seq<char>>,
    /// The directory that rendered queries are written under.
    pub queries_dir: Seq<char>,
    /// The directory that rendered tests are written under.
    pub tests_dir: Seq<char>,
    /// The work, in order.
    pub plan: Seq<ItemView>,
    /// The position in `plan` of the current item.
    pub at: int,
    pub phase: Phase,
    /// The text that the last query was rendered to, as the template
    /// engine gave it.
    pub query_text: Seq<char>,
    /// The position in `plan` of that query.
    pub query_at: int,
    /// The text of the current item, as far as it has come.
    pub text: Seq<char>,
    /// The status of each path that was compared.
    pub found: Map<Seq<char>, Status>,
}

/// The mathematical value of a [`Step`].
pub struct StepView {
    pub run: RunView,
    pub action: ActionView,
    pub report: Seq<Seq<char>>,
}

/// The line that reports the status of a target.
pub open spec fn report_line(kind: ItemKind, status: Status, path: Seq<char>) -> Seq<char> {
    let lead = match kind {
        ItemKind::Query => "Query: "@,
        ItemKind::Test => "  Test: "@,
    };
    lead + status.label_text() + ": "@ + path
}

/// What is asked for when `item` is to be rendered: for a query, its
/// template with its identifier and conditions; for a test template, its
/// template with the prepared statement, if there is one.
pub open spec fn request(item: ItemView, prepared_statement: Option<Seq<char>>) -> ActionView {
    match item.kind {
        ItemKind::Query => ActionView::RenderQuery {
            query: item.index,
            id: item.query_id,
            template: item.template,
            conds: item.conds,
        },
        ItemKind::Test => ActionView::RenderTest {
            test: item.index,
            query_id: item.query_id,
            template: item.template,
            prepared_statement,
        },
    }
}

/// The error for a text that is to be written to `path`, which does not lie
/// within the output directory `root`.
pub open spec fn outside_root(path: Seq<char>, root: Seq<char>) -> ErrorView {
    ErrorView::Io("Output path '"@ + path + "' is outside '"@ + root + "'"@)
}

/// The error for an event that does not answer what was asked for.
pub open spec fn unexpected_event() -> ErrorView {
    ErrorView::Io("Unexpected event"@)
}

impl RunView {
    /// The current item, while there is one.
    pub open spec fn current(self) -> Option<ItemView> {
        if 0 <= self.at < self.plan.len() {
            Some(self.plan[self.at])
        } else {
            None
        }
    }

    /// Where the text of the current item belongs.
    pub open spec fn target(self) -> Option<Seq<char>> {
        match self.current() {
            Some(item) => item.output,
            None => None,
        }
    }

    /// The exit code of a run that has come to its end: 1 where the run
    /// compares, is to fail on changes, and some path is not unchanged; else
    /// 0.
    pub open spec fn verdict(self) -> int {
        if self.mode == Mode::Check && self.assert_no_changes && !all_unchanged(self.found) {
            1
        } else {
            0
        }
    }

    /// The run ends with an error.
    pub open spec fn abort(self, error: ErrorView) -> StepView {
        StepView {
            run: RunView { phase: Phase::Done, ..self },
            action: ActionView::Abort { error },
            report: Seq::empty(),
        }
    }

    /// The run turns to the item at position `at`: a query is rendered; a
    /// test template is rendered with what the placeholder strategy makes of
    /// the text of the last query; past the last item the run ends.
    pub open spec fn enter(self, at: int) -> StepView {
        if 0 <= at < self.plan.len() {
            StepView {
                run: RunView { at, phase: Phase::Rendering, ..self },
                action: request(self.plan[at], self.placeholder.select(self.query_text)),
                report: Seq::empty(),
            }
        } else {
            StepView {
                run: RunView { at, phase: Phase::Done, ..self },
                action: ActionView::Finish { exit_code: self.verdict() },
                report: Seq::empty(),
            }
        }
    }

    /// The output directory of the items of a kind.
    pub open spec fn root(self, kind: ItemKind) -> Seq<char> {
        match kind {
            ItemKind::Query => self.queries_dir,
            ItemKind::Test => self.tests_dir,
        }
    }

    /// The text of an item of the kind `kind` goes to `path`. A run that
    /// compares asks for what the path holds. A run that writes asks for
    /// the text to be written where the path lies within the output
    /// directory of the kind, and ends with an error where it does not.
    pub open spec fn reconcile(self, kind: ItemKind, path: Seq<char>) -> StepView {
        match self.mode {
            Mode::Write => if within(self.root(kind), path) {
                StepView {
                    run: RunView { phase: Phase::Reconciling, ..self },
                    action: ActionView::Write { path, text: self.text },
                    report: Seq::empty(),
                }
            } else {
                self.abort(outside_root(path, self.root(kind)))
            },
            Mode::Check => StepView {
                run: RunView { phase: Phase::Reconciling, ..self },
                action: ActionView::Inspect { path },
                report: Seq::empty(),
            },
        }
    }

    /// The current item `item` was rendered to `text`. The text of a query
    /// is kept for its tests. An item without output is done; the text of
    /// any other is formatted where the manifest has a formatter, and goes
    /// to its path as it is where it has none.
    pub open spec fn rendered(self, item: ItemView, text: Seq<char>) -> StepView {
        let kept = RunView {
            text,
            query_text: if item.kind == ItemKind::Query {
                text
            } else {
                self.query_text
            },
            query_at: if item.kind == ItemKind::Query {
                self.at
            } else {
                self.query_at
            },
            ..self
        };
        match item.output {
            None => kept.enter(self.at + 1),
            Some(path) => match self.formatter {
                Some(formatter) => StepView {
                    run: RunView { phase: Phase::Formatting, ..kept },
                    action: ActionView::Format { formatter, text },
                    report: Seq::empty(),
                },
                None => kept.reconcile(item.kind, path),
            },
        }
    }

    /// The path of the current item `item` holds `existing`: the status is
    /// recorded and reported, and the run turns to the next item.
    pub open spec fn compared(self, item: ItemView, path: Seq<char>, existing: Option<Seq<u8>>) -> StepView {
        let status = classify(existing, encode_utf8(self.text));
        let next = (RunView { found: self.found.insert(path, status), ..self }).enter(self.at + 1);
        StepView { report: seq![report_line(item.kind, status, path)], ..next }
    }

    /// What the run does when `event` has happened. An event that does not
    /// answer what the run waits for ends it with an error, and so does a
    /// failure.
    pub open spec fn step(self, event: EventView) -> StepView {
        match event {
            EventView::Failed(error) => self.abort(error),
            EventView::Ready => if self.phase == Phase::Preparing {
                self.enter(0)
            } else {
                self.abort(unexpected_event())
            },
            EventView::Rendered(text) => if self.phase == Phase::Rendering && self.current() is Some {
                self.rendered(self.current()->Some_0, text)
            } else {
                self.abort(unexpected_event())
            },
            EventView::Formatted(text) => if self.phase == Phase::Formatting && self.target() is Some {
                (RunView { text, ..self }).reconcile(
                    self.current()->Some_0.kind,
                    self.target()->Some_0,
                )
            } else {
                self.abort(unexpected_event())
            },
            EventView::Written => if self.phase == Phase::Reconciling && self.mode == Mode::Write
                && self.current() is Some {
                self.enter(self.at + 1)
            } else {
                self.abort(unexpected_event())
            },
            EventView::Found(existing) => if self.phase == Phase::Reconciling && self.mode
                == Mode::Check && self.target() is Some {
                self.compared(self.current()->Some_0, self.target()->Some_0, existing)
            } else {
                self.abort(unexpected_event())
            },
        }
    }
}

/// How a run over the manifest `md` begins: a run that writes first has the
/// output directories made; a run that compares turns to the first item at
/// once.
pub open spec fn start_of(md: MetadataView, mode: Mode, assert_no_changes: bool) -> StepView {
    let run = RunView {
        mode,
        assert_no_changes,
        placeholder: md.placeholder,
        formatter: md.formatter,
        queries_dir: md.queries_output_dir,
        tests_dir: md.tests_output_dir,
        plan: plan_of(md),
        at: 0,
        phase: Phase::Preparing,
        query_text: Seq::empty(),
        query_at: 0,
        text: Seq::empty(),
        found: Map::empty(),
    };
    match mode {
        Mode::Write => StepView {
            run,
            action: ActionView::EnsureDirs {
                queries: md.queries_output_dir,
                tests: md.tests_output_dir,
            },
            report: Seq::empty(),
        },
        Mode::Check => run.enter(0),
    }
}

/// A run that ends before it has begun, with `exit_code` and `report`.
pub open spec fn ended(mode: Mode, exit_code: int, report: Seq<Seq<char>>) -> StepView {
    StepView {
        run: RunView {
            mode,
            assert_no_changes: false,
            placeholder: Placeholder::Variables,
            formatter: None,
            queries_dir: Seq::empty(),
            tests_dir: Seq::empty(),
            plan: Seq::empty(),
            at: 0,
            phase: Phase::Done,
            query_text: Seq::empty(),
            query_at: 0,
            text: Seq::empty(),
            found: Map::empty(),
        },
        action: ActionView::Finish { exit_code },
        report,
    }
}

/// A run: where it stands in its work and what it has kept.
#[derive(Debug)]
pub struct Run {
    mode: Mode,
    assert_no_changes: bool,
    placeholder: Placeholder,
    formatter: Option<String>,
    queries_dir: String,
    tests_dir: String,
    plan: Vec<Item>,
    at: usize,
    phase: Phase,
    query_text: String,
    query_at: usize,
    text: String,
    found: StatusMap,
}

impl View for Run {
    type V = RunView;

    closed spec fn view(&self) -> RunView {
        RunView {
            mode: self.mode,
            assert_no_changes: self.assert_no_changes,
            placeholder: self.placeholder,
            formatter: match self.formatter {
                Some(f) => Some(f@),
                None => None,
            },
            queries_dir: self.queries_dir@,
            tests_dir: self.tests_dir@,
            plan: item_views(self.plan@),
            at: self.at as int,
            phase: self.phase,
            query_text: self.query_text@,
            query_at: self.query_at as int,
            text: self.text@,
            found: self.found@,
        }
    }
}

/// What a run says after an event: itself as it now stands, what to do
/// next, and the lines to show.
#[derive(Debug)]
pub struct Step {
    pub run: Run,
    pub action: Action,
    pub report: Vec<String>,
}

impl View for Step {
    type V = StepView;

    open spec fn view(&self) -> StepView {
        StepView { run: self.run@, action: self.action@, report: self.report.deep_view() }
    }
}

/// Writes the line that reports the status of a target.
fn report(kind: ItemKind, status: Status, path: &str) -> (r: String)
    ensures
        r@ == report_line(kind, status, path@),
{
    let mut line = match kind {
        ItemKind::Query => "Query: ".to_owned(),
        ItemKind::Test => "  Test: ".to_owned(),
    };
    line.append(status.label().as_str());
    line.append(": ");
    line.append(path);
    line
}

/// No lines.
fn silent() -> (r: Vec<String>)
    ensures
        r.deep_view() == Seq::<Seq<char>>::empty(),
{
    let r: Vec<String> = Vec::new();
    assert(r.deep_view() =~= Seq::<Seq<char>>::empty());
    r
}

impl Run {
    /// Begins a run over a manifest. `assert_no_changes` counts only for a
    /// run that compares.
    pub fn start(metadata: &Metadata, mode: Mode, assert_no_changes: bool) -> (r: Step)
        ensures
            r@ == start_of(metadata@, mode, assert_no_changes),
    {
        let run = Run {
            mode,
            assert_no_changes,
            placeholder: metadata.placeholder,
            formatter: match &metadata.formatter {
                Some(f) => Some(f.clone()),
                None => None,
            },
            queries_dir: metadata.queries_output_dir.clone(),
            tests_dir: metadata.tests_output_dir.clone(),
            plan: plan(metadata),
            at: 0,
            phase: Phase::Preparing,
            query_text: String::new(),
            query_at: 0,
            text: String::new(),
            found: StatusMap::new(),
        };
        match mode {
            Mode::Write => Step {
                run,
                action: Action::EnsureDirs {
                    queries: metadata.queries_output_dir.clone(),
                    tests: metadata.tests_output_dir.clone(),
                },
                report: silent(),
            },
            Mode::Check => run.enter(0),
        }
    }

    /// A run that ends before it has begun.
    pub fn ended(mode: Mode, exit_code: i32, report: Vec<String>) -> (r: Step)
        ensures
            r@ == ended(mode, exit_code as int, report.deep_view()),
    {
        let plan: Vec<Item> = Vec::new();
        assert(item_views(plan@) =~= Seq::<ItemView>::empty());
        let run = Run {
            mode,
            assert_no_changes: false,
            placeholder: Placeholder::Variables,
            formatter: None,
            queries_dir: String::new(),
            tests_dir: String::new(),
            plan,
            at: 0,
            phase: Phase::Done,
            query_text: String::new(),
            query_at: 0,
            text: String::new(),
            found: StatusMap::new(),
        };
        Step { run, action: Action::Finish { exit_code }, report }
    }

    /// What the run waits for.
    pub fn phase(&self) -> (p: Phase)
        ensures
            p == self@.phase,
    {
        self.phase
    }

    /// Whether the run has ended.
    pub fn is_done(&self) -> (b: bool)
        ensures
            b == (self@.phase == Phase::Done),
    {
        self.phase == Phase::Done
    }

    /// The status that the run has recorded for `path`.
    pub fn found(&self, path: &str) -> (r: Option<Status>)
        ensures
            match r {
                Some(s) => self@.found.contains_key(path@) && self@.found[path@] == s,
                None => !self@.found.contains_key(path@),
            },
    {
        self.found.get(path)
    }

    /// The exit code of the run, were it to end now.
    fn verdict(&self) -> (code: i32)
        ensures
            code == self@.verdict(),
    {
        if self.mode == Mode::Check && self.assert_no_changes && !self.found.all_unchanged() {
            1
        } else {
            0
        }
    }

    /// Ends the run with an error.
    fn abort(self, error: Error) -> (r: Step)
        ensures
            r@ == self@.abort(error@),
    {
        let mut run = self;
        run.phase = Phase::Done;
        Step { run, action: Action::Abort { error }, report: silent() }
    }

    /// Ends the run because of an event that was not asked for.
    fn unexpected(self) -> (r: Step)
        ensures
            r@ == self@.abort(unexpected_event()),
    {
        self.abort(Error::Io("Unexpected event".to_owned()))
    }

    /// Turns to the item at position `at`, or ends the run past the last.
    fn enter(self, at: usize) -> (r: Step)
        ensures
            r@ == self@.enter(at as int),
    {
        let mut run = self;
        run.at = at;
        if at < run.plan.len() {
            run.phase = Phase::Rendering;
            let action = match run.plan[at].kind {
                ItemKind::Query => Action::RenderQuery {
                    query: run.plan[at].index,
                    id: run.plan[at].query_id.clone(),
                    template: run.plan[at].template.clone(),
                    conds: copy_all(&run.plan[at].conds),
                },
                ItemKind::Test => Action::RenderTest {
                    test: run.plan[at].index,
                    query_id: run.plan[at].query_id.clone(),
                    template: run.plan[at].template.clone(),
                    prepared_statement: match run.placeholder.prepared_statement(
                        run.query_text.as_str(),
                    ) {
                        Some(text) => Some(text.to_owned()),
                        None => None,
                    },
                },
            };
            Step { run, action, report: silent() }
        } else {
            let exit_code = run.verdict();
            run.phase = Phase::Done;
            Step { run, action: Action::Finish { exit_code }, report: silent() }
        }
    }

    /// Sends the text of an item of the kind `kind` to `path`, or ends the
    /// run where the text would be written outside its output directory.
    fn reconcile(self, kind: ItemKind, path: String) -> (r: Step)
        ensures
            r@ == self@.reconcile(kind, path@),
    {
        let mut run = self;
        match run.mode {
            Mode::Write => {
                let inside = match kind {
                    ItemKind::Query => lies_within(run.queries_dir.as_str(), path.as_str()),
                    ItemKind::Test => lies_within(run.tests_dir.as_str(), path.as_str()),
                };
                if inside {
                    run.phase = Phase::Reconciling;
                    let text = run.text.clone();
                    Step { run, action: Action::Write { path, text }, report: silent() }
                } else {
                    let mut message = "Output path '".to_owned();
                    message.append(path.as_str());
                    message.append("' is outside '");
                    match kind {
                        ItemKind::Query => message.append(run.queries_dir.as_str()),
                        ItemKind::Test => message.append(run.tests_dir.as_str()),
                    }
                    message.append("'");
                    run.abort(Error::Io(message))
                }
            },
            Mode::Check => {
                run.phase = Phase::Reconciling;
                Step { run, action: Action::Inspect { path }, report: silent() }
            },
        }
    }

    /// Takes the text that the current item was rendered to.
    fn rendered(self, text: String) -> (r: Step)
        requires
            self@.current() is Some,
        ensures
            r@ == self@.rendered(self@.current()->Some_0, text@),
    {
        let mut run = self;
        if run.plan[run.at].kind == ItemKind::Query {
            run.query_text = text.clone();
            run.query_at = run.at;
        }
        let target = match &run.plan[run.at].output {
            Some(path) => Some(path.clone()),
            None => None,
        };
        match target {
            None => {
                run.text = text;
                assert(run.at < run.plan.len());
                let next = run.at + 1;
                run.enter(next)
            },
            Some(path) => {
                let formatter = match &run.formatter {
                    Some(f) => Some(f.clone()),
                    None => None,
                };
                match formatter {
                    Some(formatter) => {
                        run.text = text.clone();
                        run.phase = Phase::Formatting;
                        Step { run, action: Action::Format { formatter, text }, report: silent() }
                    },
                    None => {
                        run.text = text;
                        let kind = run.plan[run.at].kind;
                        run.reconcile(kind, path)
                    },
                }
            },
        }
    }

    /// Takes what the path of the current item holds.
    fn compared(self, existing: Option<Vec<u8>>) -> (r: Step)
        requires
            self@.target() is Some,
        ensures
            r@ == self@.compared(
                self@.current()->Some_0,
                self@.target()->Some_0,
                match existing {
                    Some(bytes) => Some(bytes@),
                    None => None,
                },
            ),
    {
        let mut run = self;
        let kind = run.plan[run.at].kind;
        let path = match &run.plan[run.at].output {
            Some(path) => path.clone(),
            None => String::new(),
        };
        let found = match &existing {
            Some(bytes) => status(Some(bytes.as_slice()), run.text.as_str()),
            None => status(None, run.text.as_str()),
        };
        let line = report(kind, found, path.as_str());
        run.found.insert(path, found);
        assert(run.at < run.plan.len());
        let next = run.at + 1;
        let step = run.enter(next);
        let mut lines: Vec<String> = Vec::new();
        lines.push(line);
        assert(lines.deep_view() =~= seq![line@]);
        Step { run: step.run, action: step.action, report: lines }
    }

    /// Tells the run what has happened, and learns what to do next. A
    /// failure ends the run with that error; an event that does not answer
    /// what the run asked for ends it with an error of its own.
    pub fn advance(self, event: Event) -> (r: Step)
        ensures
            r@ == self@.step(event@),
    {
        match event {
            Event::Failed(error) => self.abort(error),
            Event::Ready => if self.phase == Phase::Preparing {
                self.enter(0)
            } else {
                self.unexpected()
            },
            Event::Rendered(text) => if self.phase == Phase::Rendering && self.at
                < self.plan.len() {
                self.rendered(text)
            } else {
                self.unexpected()
            },
            Event::Formatted(text) => {
                if self.phase == Phase::Formatting && self.at < self.plan.len() {
                    let target = match &self.plan[self.at].output {
                        Some(path) => Some(path.clone()),
                        None => None,
                    };
                    match target {
                        Some(path) => {
                            let mut run = self;
                            run.text = text;
                            let kind = run.plan[run.at].kind;
                            run.reconcile(kind, path)
                        },
                        None => self.unexpected(),
                    }
                } else {
                    self.unexpected()
                }
            },
            Event::Written => if self.phase == Phase::Reconciling && self.mode == Mode::Write
                && self.at < self.plan.len() {
                let next = self.at + 1;
                self.enter(next)
            } else {
                self.unexpected()
            },
            Event::Found(existing) => if self.phase == Phase::Reconciling && self.mode
                == Mode::Check && self.at < self.plan.len() && self.plan[self.at].output.is_some() {
                self.compared(existing)
            } else {
                self.unexpected()
            },
        }
    }
}

/// Whether the item at position `q` of `plan` is the query that the test
/// template at position `p` is bound to, with nothing but test templates
/// from the one to the other.
pub open spec fn owns(plan: Seq<ItemView>, q: int, p: int) -> bool {
    &&& 0 <= q < p < plan.len()
    &&& plan[q].kind == ItemKind::Query
    &&& plan[q].query_id == plan[p].query_id
    &&& forall|r: int| q < r <= p ==> (#[trigger] plan[r]).kind == ItemKind::Test
}

/// Whether every test template of `plan` comes after the query that it is
/// bound to, with nothing but test templates between the two.
pub open spec fn orderly(plan: Seq<ItemView>) -> bool {
    forall|p: int|
        0 <= p < plan.len() && (#[trigger] plan[p]).kind == ItemKind::Test ==> exists|q: int|
            #[trigger] owns(plan, q, p)
}

/// In the work for the first `n` queries, every item is what the manifest
/// says of the query or test template at its position, and every test
/// template comes after the query that it is bound to, with nothing but
/// test templates between the two; so the first item of all is a query.
pub proof fn law_plan_binds(qs: Seq<QueryView>, ts: Seq<TestTemplateView>, n: int)
    requires
        0 <= n <= qs.len(),
    ensures
        forall|p: int|
            0 <= p < plan_upto(qs, ts, n).len() ==> (#[trigger] plan_upto(qs, ts, n)[p])
                == match plan_upto(qs, ts, n)[p].kind {
                ItemKind::Query => query_item(qs, plan_upto(qs, ts, n)[p].index),
                ItemKind::Test => test_item(ts, plan_upto(qs, ts, n)[p].index),
            },
        forall|p: int|
            0 <= p < plan_upto(qs, ts, n).len() ==> 0 <= (#[trigger] plan_upto(qs, ts, n)[p]).index
                < match plan_upto(qs, ts, n)[p].kind {
                ItemKind::Query => n,
                ItemKind::Test => ts.len() as int,
            },
        orderly(plan_upto(qs, ts, n)),
    decreases n,
{
    if n > 0 {
        let plan = plan_upto(qs, ts, n);
        let front = plan_upto(qs, ts, n - 1);
        let at = bound_to(ts, qs[n - 1].id);
        let tests = test_items(ts, at);
        let here = front.len() as int;
        assert(plan == front + seq![query_item(qs, n - 1)] + tests);
        lemma_bound_to(ts, qs[n - 1].id);
        law_plan_binds(qs, ts, n - 1);
        assert forall|p: int| 0 <= p < plan.len() implies {
            &&& (#[trigger] plan[p]) == match plan[p].kind {
                ItemKind::Query => query_item(qs, plan[p].index),
                ItemKind::Test => test_item(ts, plan[p].index),
            }
            &&& 0 <= plan[p].index < match plan[p].kind {
                ItemKind::Query => n,
                ItemKind::Test => ts.len() as int,
            }
            &&& plan[p].kind == ItemKind::Test ==> exists|q: int| #[trigger] owns(plan, q, p)
        } by {
            if p < here {
                assert(plan[p] == front[p]);
                if plan[p].kind == ItemKind::Test {
                    let q = choose|q: int| #[trigger] owns(front, q, p);
                    assert(plan[q] == front[q]);
                    assert forall|r: int| q < r <= p implies (#[trigger] plan[r]).kind
                        == ItemKind::Test by {
                        assert(plan[r] == front[r]);
                    }
                    assert(owns(plan, q, p));
                }
            } else if p == here {
                assert(plan[p] == query_item(qs, n - 1));
            } else {
                assert(plan[here] == query_item(qs, n - 1));
                assert(plan[p] == tests[p - here - 1]);
                assert(plan[p].index == at[p - here - 1]);
                assert forall|r: int| here < r <= p implies (#[trigger] plan[r]).kind
                    == ItemKind::Test by {
                    assert(plan[r] == tests[r - here - 1]);
                }
                assert(owns(plan, here, p));
            }
        }
    }
}

/// A test is handed what the placeholder strategy makes of the text that
/// the last query was rendered to: that very text under `PosArgs`, nothing
/// under `Variables`. The text that is kept changes only when a query has
/// been rendered, and then to what it was rendered to; the strategy never
/// changes.
pub proof fn law_prepared_statement(run: RunView, event: EventView)
    ensures
        ({
            let next = run.step(event);
            let query_rendered = run.phase == Phase::Rendering && run.current() is Some
                && run.current()->Some_0.kind == ItemKind::Query && event is Rendered;
            &&& next.run.placeholder == run.placeholder
            &&& next.action matches ActionView::RenderTest { prepared_statement, .. }
                ==> prepared_statement == match run.placeholder {
                Placeholder::PosArgs => Some(next.run.query_text),
                Placeholder::Variables => None,
            }
            &&& next.run.query_text == if query_rendered {
                event->Rendered_0
            } else {
                run.query_text
            }
            &&& next.run.query_at == if query_rendered {
                run.at
            } else {
                run.query_at
            }
        }),
{
}

impl RunView {
    /// Whether the run is at work on an item.
    pub open spec fn at_work(self) -> bool {
        self.phase == Phase::Rendering || self.phase == Phase::Formatting || self.phase
            == Phase::Reconciling
    }

    /// Whether the run stands as a run can stand: its work is orderly; while
    /// it is at work there is a current item; once a query is rendered it is
    /// the query whose text is kept; and while a test template is the
    /// current item, the query whose text is kept is the one that the test
    /// template is bound to.
    pub open spec fn coherent(self) -> bool {
        &&& orderly(self.plan)
        &&& self.at_work() ==> {
            &&& 0 <= self.at < self.plan.len()
            &&& self.plan[self.at].kind == ItemKind::Test ==> owns(self.plan, self.query_at, self.at)
            &&& self.plan[self.at].kind == ItemKind::Query && self.phase != Phase::Rendering
                ==> self.query_at == self.at
            &&& self.phase != Phase::Rendering ==> self.plan[self.at].output is Some
        }
    }
}

/// The query before a test template is the one that owns it.
proof fn lemma_owner_is_next_to(plan: Seq<ItemView>, at: int, kept: int)
    requires
        orderly(plan),
        0 <= at,
        at + 1 < plan.len(),
        plan[at + 1].kind == ItemKind::Test,
        plan[at].kind == ItemKind::Query ==> kept == at,
        plan[at].kind == ItemKind::Test ==> owns(plan, kept, at),
    ensures
        owns(plan, kept, at + 1),
{
    let p = at + 1;
    assert(plan[p].kind == ItemKind::Test);
    let q = choose|q: int| #[trigger] owns(plan, q, p);
    if plan[at].kind == ItemKind::Query {
        if q < at {
            assert(plan[at].kind == ItemKind::Test);
        }
    } else {
        if q < kept {
            assert(plan[kept].kind == ItemKind::Test);
        }
        if kept < q {
            assert(q != p);
            assert(plan[q].kind == ItemKind::Test);
        }
    }
}

/// The work for one query or more begins with the first query.
proof fn lemma_plan_begins(qs: Seq<QueryView>, ts: Seq<TestTemplateView>, n: int)
    requires
        1 <= n <= qs.len(),
    ensures
        plan_upto(qs, ts, n).len() > 0,
        plan_upto(qs, ts, n)[0] == query_item(qs, 0),
    decreases n,
{
    if n > 1 {
        lemma_plan_begins(qs, ts, n - 1);
    } else {
        assert(plan_upto(qs, ts, 0).len() == 0);
    }
}

/// How a run begins: a run that writes asks for the two output directories
/// of the manifest; a run that compares asks for the first query of the
/// manifest to be rendered, and where the manifest has no query it ends at
/// once, with the exit code 0.
pub proof fn law_beginning(md: MetadataView, assert_no_changes: bool)
    ensures
        start_of(md, Mode::Write, assert_no_changes).action == (ActionView::EnsureDirs {
            queries: md.queries_output_dir,
            tests: md.tests_output_dir,
        }),
        md.queries.len() == 0 ==> start_of(md, Mode::Check, assert_no_changes).action == (
        ActionView::Finish { exit_code: 0 }),
        md.queries.len() > 0 ==> start_of(md, Mode::Check, assert_no_changes).action == (
        ActionView::RenderQuery {
            query: 0,
            id: md.queries[0].id,
            template: md.queries[0].template,
            conds: md.queries[0].conds,
        }),
{
    if md.queries.len() > 0 {
        lemma_plan_begins(md.queries, md.test_templates, md.queries.len() as int);
    }
}

/// A run begins coherent.
pub proof fn law_begins_coherent(md: MetadataView, mode: Mode, assert_no_changes: bool)
    ensures
        start_of(md, mode, assert_no_changes).run.coherent(),
{
    law_plan_binds(md.queries, md.test_templates, md.queries.len() as int);
    let plan = plan_of(md);
    if plan.len() > 0 && plan[0].kind == ItemKind::Test {
        let q = choose|q: int| #[trigger] owns(plan, q, 0);
    }
}

/// A run stays coherent whatever happens. So whenever a test is to be
/// rendered, the text that its prepared statement is made of is the text
/// that the query it is bound to was rendered to: the query before it in
/// the work, with nothing but test templates of the same query between.
pub proof fn law_stays_coherent(run: RunView, event: EventView)
    requires
        run.coherent(),
    ensures
        run.step(event).run.coherent(),
        run.step(event).action is RenderTest ==> owns(
            run.plan,
            run.step(event).run.query_at,
            run.step(event).run.at,
        ),
{
    let next = run.step(event);
    assert(next.run.plan == run.plan);
    if next.run.at_work() && next.run.at == run.at + 1 && run.at_work() {
        let plan = run.plan;
        let kept = next.run.query_at;
        if plan[run.at + 1].kind == ItemKind::Test {
            lemma_owner_is_next_to(plan, run.at, kept);
        }
    }
    if next.run.at_work() && run.phase == Phase::Preparing {
        if run.plan[0].kind == ItemKind::Test {
            let q = choose|q: int| #[trigger] owns(run.plan, q, 0);
        }
    }
}

/// A run that compares asks for nothing to be written, and a run that
/// writes asks for nothing to be compared; nothing is asked to be written
/// but within the output directory of the current item; the output
/// directories are asked for at the beginning or never; text is formatted
/// only by the formatter of the manifest; a run keeps its mode, its work
/// and its directories to the end.
pub proof fn law_modes(run: RunView, event: EventView)
    ensures
        ({
            let next = run.step(event);
            &&& next.run.mode == run.mode
            &&& next.run.plan == run.plan
            &&& next.run.assert_no_changes == run.assert_no_changes
            &&& next.run.formatter == run.formatter
            &&& !(next.action is EnsureDirs)
            &&& next.run.queries_dir == run.queries_dir
            &&& next.run.tests_dir == run.tests_dir
            &&& run.mode == Mode::Check ==> !(next.action is Write)
            &&& next.action matches ActionView::Write { path, .. } ==> run.current() is Some
                && within(run.root(run.current()->Some_0.kind), path)
            &&& run.mode == Mode::Write ==> !(next.action is Inspect) && next.run.found == run.found
            &&& next.action matches ActionView::Format { formatter, .. } ==> run.formatter == Some(
                formatter,
            )
        }),
{
}

/// A run that has ended stays ended, whatever happens; a failure ends a
/// run with the error that failed it; and a run ends exactly when it says
/// `Finish` or `Abort`.
pub proof fn law_end(run: RunView, event: EventView)
    ensures
        ({
            let next = run.step(event);
            &&& run.phase == Phase::Done ==> next.run.phase == Phase::Done && next.action is Abort
            &&& event matches EventView::Failed(error) ==> next.action == (ActionView::Abort {
                error,
            })
            &&& next.run.phase == Phase::Done <==> next.action is Finish || next.action is Abort
        }),
{
}

/// How a run finishes: a run that writes, and a run that compares without
/// being told to fail on changes, with 0; a run that compares and is told
/// to fail on changes with 0 where every path that it has compared is
/// unchanged, and with 1 where one is not.
pub proof fn law_verdict(run: RunView, event: EventView)
    ensures
        ({
            let next = run.step(event);
            next.action matches ActionView::Finish { exit_code } ==> {
                &&& exit_code == next.run.verdict()
                &&& exit_code == 0 || exit_code == 1
                &&& exit_code == 1 <==> run.mode == Mode::Check && run.assert_no_changes
                    && exists|p: Seq<char>| #[trigger]
                    next.run.found.contains_key(p) && next.run.found[p] != Status::Unchanged
            }
        }),
{
}

/// What a comparison records: the status of the path of the current item,
/// for the text as it stands, and nothing else changes in the record.
pub proof fn law_comparison(run: RunView, existing: Option<Seq<u8>>)
    requires
        run.phase == Phase::Reconciling,
        run.mode == Mode::Check,
        run.target() is Some,
    ensures
        ({
            let next = run.step(EventView::Found(existing));
            let path = run.target()->Some_0;
            &&& next.run.found == run.found.insert(path, classify(existing, encode_utf8(run.text)))
            &&& existing is None ==> next.run.found[path] == Status::New
            &&& existing == Some(encode_utf8(run.text)) ==> next.run.found[path]
                == Status::Unchanged
            &&& existing is Some && existing != Some(encode_utf8(run.text)) ==> next.run.found[path]
                == Status::Changed
        }),
{
}

} // verus!

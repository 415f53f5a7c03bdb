//! The commands: what each reports and how it ends, given the manifest.

use vstd::prelude::*;
use crate::coverage::{count_tested, exit_code, has_tests, has_tests_text, total_text, Tally};
use crate::error::{Error, ErrorView};
use crate::metadata::{Metadata, MetadataView, Mistake, MistakeView, mistake_views};
use crate::pipeline::{ended, start_of, Mode, Run, Step, StepView};
use crate::query::QueryView;
use crate::table::{draw, table_text};
use crate::test_template::{bound_to, TestTemplateView};
use crate::text::{join, joined_text};

verus! {

/// What a command leaves behind.
#[derive(Debug)]
pub struct Outcome {
    /// The exit code of the process: 0 for success.
    pub exit_code: i32,
    /// What goes to standard output, piece by piece, each on a line of its
    /// own.
    pub output: Vec<String>,
    /// What goes to standard error, in the same way.
    pub errors: Vec<String>,
}

/// The mathematical value of an [`Outcome`].
pub struct OutcomeView {
    pub exit_code: int,
    pub output: Seq<Seq<char>>,
    pub errors: Seq<Seq<char>>,
}

impl View for Outcome {
    type V = OutcomeView;

    open spec fn view(&self) -> OutcomeView {
        OutcomeView {
            exit_code: self.exit_code as int,
            output: self.output.deep_view(),
            errors: self.errors.deep_view(),
        }
    }
}

/// Where the manifest lies, seen from the directory that a command runs in.
pub open spec fn manifest_path() -> Seq<char> {
    "tapestry.toml"@
}

/// Where the manifest lies, seen from the directory that a command runs in.
pub fn manifest() -> (r: &'static str)
    ensures
        r@ == manifest_path(),
{
    "tapestry.toml"
}

/// What every command but `init` reports of a manifest with mistakes: that
/// it is invalid, then each mistake, and the exit code 1.
pub open spec fn invalid_outcome(mistakes: Seq<MistakeView>) -> OutcomeView {
    OutcomeView {
        exit_code: 1,
        output: seq!["Invalid manifest file: '"@ + manifest_path() + "'"@] + Seq::new(
            mistakes.len(),
            |i: int| mistakes[i].err_msg(),
        ),
        errors: Seq::empty(),
    }
}

/// Reports the mistakes of a manifest.
pub fn invalid(mistakes: &Vec<Mistake>) -> (r: Outcome)
    ensures
        r@ == invalid_outcome(mistake_views(mistakes@)),
{
    let ghost ms = mistake_views(mistakes@);
    let mut first = "Invalid manifest file: '".to_owned();
    first.append(manifest());
    first.append("'");
    let mut output: Vec<String> = Vec::new();
    output.push(first);
    let mut i: usize = 0;
    while i < mistakes.len()
        invariant
            i <= mistakes.len(),
            ms == mistake_views(mistakes@),
            output.len() == i + 1,
            output[0]@ == "Invalid manifest file: '"@ + manifest_path() + "'"@,
            forall|j: int| 0 <= j < i ==> (#[trigger] output[j + 1])@ == ms[j].err_msg(),
        decreases mistakes.len() - i,
    {
        output.push(mistakes[i].err_msg());
        i += 1;
    }
    let errors: Vec<String> = Vec::new();
    let r = Outcome { exit_code: 1, output, errors };
    proof {
        let want = invalid_outcome(ms);
        assert(r@.output.len() == want.output.len());
        assert forall|j: int| 0 <= j < want.output.len() implies r@.output[j] == want.output[j] by {
            if j > 0 {
                assert(r.output[(j - 1) + 1]@ == ms[j - 1].err_msg());
            }
        }
        assert(r@.output =~= want.output);
        assert(r@.errors =~= want.errors);
    }
    r
}

/// An outcome with one piece of output and nothing else.
fn shown(exit_code: i32, piece: String) -> (r: Outcome)
    ensures
        r@ == (OutcomeView {
            exit_code: exit_code as int,
            output: seq![piece@],
            errors: Seq::empty(),
        }),
{
    let mut output: Vec<String> = Vec::new();
    output.push(piece);
    let errors: Vec<String> = Vec::new();
    let r = Outcome { exit_code, output, errors };
    proof {
        assert(r@.output =~= seq![piece@]);
        assert(r@.errors =~= Seq::<Seq<char>>::empty());
    }
    r
}

/// What `validate` reports: that the manifest is valid, with the exit code
/// 0, or its mistakes.
pub open spec fn validate_outcome(md: MetadataView) -> OutcomeView {
    if md.valid() {
        OutcomeView {
            exit_code: 0,
            output: seq!["All Ok: Manifest file '"@ + manifest_path() + "' is valid"@],
            errors: Seq::empty(),
        }
    } else {
        invalid_outcome(md.mistakes())
    }
}

/// Checks a manifest and reports every mistake in it.
pub fn validate(metadata: &Metadata) -> (r: Outcome)
    ensures
        r@ == validate_outcome(metadata@),
{
    let mistakes = metadata.validate();
    if mistakes.len() == 0 {
        let mut line = "All Ok: Manifest file '".to_owned();
        line.append(manifest());
        line.append("' is valid");
        shown(0, line)
    } else {
        invalid(&mistakes)
    }
}

/// What `init` reports, given how laying out the project in `dir` went: the
/// place of the new project, with the exit code 0; for a failure of the
/// layout its reason on standard error, with the exit code 1; any other
/// failure is handed on.
pub open spec fn init_outcome(dir: Seq<char>, scaffolded: Result<(), ErrorView>) -> Result<
    OutcomeView,
    ErrorView,
> {
    match scaffolded {
        Ok(_) => Ok(
            OutcomeView {
                exit_code: 0,
                output: seq!["New tapestry project initialized at: "@ + dir],
                errors: Seq::empty(),
            },
        ),
        Err(ErrorView::Scaffolding(reason)) => Ok(
            OutcomeView {
                exit_code: 1,
                output: Seq::empty(),
                errors: seq!["Error initializing new tapestry project"@, "Reason: "@ + reason],
            },
        ),
        Err(e) => Err(e),
    }
}

/// The mathematical value of how a layout went.
pub open spec fn scaffolded_view(r: Result<(), Error>) -> Result<(), ErrorView> {
    match r {
        Ok(_) => Ok(()),
        Err(e) => Err(e@),
    }
}

/// The mathematical value of an outcome or an error.
pub open spec fn outcome_result(r: Result<Outcome, Error>) -> Result<OutcomeView, ErrorView> {
    match r {
        Ok(o) => Ok(o@),
        Err(e) => Err(e@),
    }
}

/// Reports how laying out a new project in `dir` went.
pub fn init(dir: &str, scaffolded: Result<(), Error>) -> (r: Result<Outcome, Error>)
    ensures
        outcome_result(r) == init_outcome(dir@, scaffolded_view(scaffolded)),
{
    match scaffolded {
        Ok(_) => {
            let mut line = "New tapestry project initialized at: ".to_owned();
            line.append(dir);
            Ok(shown(0, line))
        },
        Err(Error::Scaffolding(reason)) => {
            let mut second = "Reason: ".to_owned();
            second.append(reason.as_str());
            let output: Vec<String> = Vec::new();
            let mut errors: Vec<String> = Vec::new();
            errors.push("Error initializing new tapestry project".to_owned());
            errors.push(second);
            let o = Outcome { exit_code: 1, output, errors };
            proof {
                assert(o@.output =~= Seq::<Seq<char>>::empty());
                assert(o@.errors =~= seq![
                    "Error initializing new tapestry project"@,
                    "Reason: "@ + reason@,
                ]);
            }
            Ok(o)
        },
        Err(e) => Err(e),
    }
}

/// How a run over a manifest begins: as the run itself begins, or, for a
/// manifest with mistakes, with its end: the mistakes and the exit code 1.
pub open spec fn begin(md: MetadataView, mode: Mode, assert_no_changes: bool) -> StepView {
    if md.valid() {
        start_of(md, mode, assert_no_changes)
    } else {
        ended(mode, 1, invalid_outcome(md.mistakes()).output)
    }
}

/// Begins a run over a manifest, or reports its mistakes.
fn begin_run(metadata: &Metadata, mode: Mode, assert_no_changes: bool) -> (r: Step)
    ensures
        r@ == begin(metadata@, mode, assert_no_changes),
{
    let mistakes = metadata.validate();
    if mistakes.len() == 0 {
        Run::start(metadata, mode, assert_no_changes)
    } else {
        Run::ended(mode, 1, invalid(&mistakes).output)
    }
}

/// Begins the run that renders every query and test of a manifest and
/// writes each to its output. The run is carried on with
/// [`Run::advance`].
pub fn render(metadata: &Metadata) -> (r: Step)
    ensures
        r@ == begin(metadata@, Mode::Write, false),
{
    begin_run(metadata, Mode::Write, false)
}

/// Begins the run that renders every query and test of a manifest and
/// compares each with its output, writing nothing. With
/// `assert_no_changes` the run fails unless every output is unchanged. The
/// run is carried on with [`Run::advance`].
pub fn status(metadata: &Metadata, assert_no_changes: bool) -> (r: Step)
    ensures
        r@ == begin(metadata@, Mode::Check, assert_no_changes),
{
    begin_run(metadata, Mode::Check, assert_no_changes)
}

/// The header of the summary.
pub open spec fn summary_header() -> Seq<Seq<char>> {
    seq!["Id"@, "Query"@, "Template"@, "Tests"@]
}

/// The outputs of the test templates bound to the query `id`, in the
/// manifest's order.
pub open spec fn test_outputs(ts: Seq<TestTemplateView>, id: Seq<char>) -> Seq<Seq<char>> {
    Seq::new(bound_to(ts, id).len(), |k: int| ts[bound_to(ts, id)[k]].output)
}

/// The row of the summary for one query: its identifier, its output (empty
/// where it has none), its template, and the outputs of its tests, one on
/// each line.
pub open spec fn summary_row(ts: Seq<TestTemplateView>, q: QueryView) -> Seq<Seq<char>> {
    seq![
        q.id,
        match q.output {
            Some(p) => p,
            None => Seq::empty(),
        },
        q.template,
        joined_text(test_outputs(ts, q.id), "\n"@),
    ]
}

/// The rows of the summary: one for each query, in the manifest's order.
pub open spec fn summary_rows(md: MetadataView) -> Seq<Seq<Seq<char>>> {
    Seq::new(md.queries.len(), |i: int| summary_row(md.test_templates, md.queries[i]))
}

/// What `summary` reports: the table of the queries, with the exit code 0, or
/// the mistakes of the manifest.
pub open spec fn summary_outcome(md: MetadataView) -> OutcomeView {
    if md.valid() {
        OutcomeView {
            exit_code: 0,
            output: seq![table_text(Some(summary_header()), summary_rows(md))],
            errors: Seq::empty(),
        }
    } else {
        invalid_outcome(md.mistakes())
    }
}

/// A row of cells, from four texts.
fn row_of_four(a: String, b: String, c: String, d: String) -> (r: Vec<String>)
    ensures
        r.deep_view() == seq![a@, b@, c@, d@],
{
    let mut r: Vec<String> = Vec::new();
    r.push(a);
    r.push(b);
    r.push(c);
    r.push(d);
    assert(r.deep_view() =~= seq![a@, b@, c@, d@]);
    r
}

/// A row of cells, from two texts.
fn row_of_two(a: String, b: String) -> (r: Vec<String>)
    ensures
        r.deep_view() == seq![a@, b@],
{
    let mut r: Vec<String> = Vec::new();
    r.push(a);
    r.push(b);
    assert(r.deep_view() =~= seq![a@, b@]);
    r
}

/// Lists the queries of a manifest with their outputs, templates and tests.
/// Nothing is rendered.
pub fn summary(metadata: &Metadata) -> (r: Outcome)
    ensures
        r@ == summary_outcome(metadata@),
{
    let mistakes = metadata.validate();
    if mistakes.len() != 0 {
        return invalid(&mistakes);
    }
    let ghost qs = metadata@.queries;
    let ghost ts = metadata@.test_templates;
    let header = row_of_four(
        "Id".to_owned(),
        "Query".to_owned(),
        "Template".to_owned(),
        "Tests".to_owned(),
    );
    let n = metadata.queries.len();
    let mut rows: Vec<Vec<String>> = Vec::new();
    let mut i: usize = 0;
    while i < n
        invariant
            i <= n,
            n == qs.len(),
            qs == metadata@.queries,
            ts == metadata@.test_templates,
            rows.len() == i,
            forall|j: int| 0 <= j < i ==> (#[trigger] rows[j]).deep_view() == summary_row(ts, qs[j]),
        decreases n - i,
    {
        match metadata.queries.get(i) {
            Some(q) => {
                let tests = metadata.test_templates.find_by_query(q.id.as_str());
                let mut outputs: Vec<String> = Vec::new();
                let mut k: usize = 0;
                while k < tests.len()
                    invariant
                        k <= tests.len(),
                        outputs.len() == k,
                        forall|l: int| 0 <= l < k ==> (#[trigger] outputs[l])@ == tests[l]@.output,
                    decreases tests.len() - k,
                {
                    outputs.push(tests[k].output.clone());
                    k += 1;
                }
                proof {
                    assert(outputs.deep_view() =~= test_outputs(ts, q@.id));
                }
                let path = match &q.output {
                    Some(p) => p.clone(),
                    None => String::new(),
                };
                let row = row_of_four(q.id.clone(), path, q.template.clone(), join(&outputs, "\n"));
                rows.push(row);
            },
            None => {},
        }
        i += 1;
    }
    proof {
        assert(rows.deep_view() =~= summary_rows(metadata@));
    }
    shown(0, draw(&header, &rows))
}

/// The header of the coverage report.
pub open spec fn coverage_header() -> Seq<Seq<char>> {
    seq!["Query"@, "Has tests?"@]
}

/// The row of the coverage report for one query: its identifier, and
/// whether it has tests.
pub open spec fn coverage_row(ts: Seq<TestTemplateView>, q: QueryView) -> Seq<Seq<char>> {
    seq![q.id, has_tests_text(bound_to(ts, q.id).len())]
}

/// The rows of the coverage report: one for each query, in the manifest's
/// order, and the total.
pub open spec fn coverage_rows(md: MetadataView) -> Seq<Seq<Seq<char>>> {
    Seq::new(md.queries.len(), |i: int| coverage_row(md.test_templates, md.queries[i])).push(
        seq![
            "Total"@,
            total_text(count_tested(md.queries, md.test_templates), md.queries.len()),
        ],
    )
}

/// What `coverage` reports: the table of the queries and the total, with the
/// exit code that the threshold gives, or the mistakes of the manifest.
pub open spec fn coverage_outcome(md: MetadataView, fail_under: Option<u8>) -> OutcomeView {
    if md.valid() {
        OutcomeView {
            exit_code: exit_code(
                count_tested(md.queries, md.test_templates),
                md.queries.len(),
                fail_under,
            ),
            output: seq![table_text(Some(coverage_header()), coverage_rows(md))],
            errors: Seq::empty(),
        }
    } else {
        invalid_outcome(md.mistakes())
    }
}

/// Reports which queries of a manifest have tests and how many of all do,
/// and fails where a threshold is given and the coverage is less.
pub fn coverage(metadata: &Metadata, fail_under: Option<u8>) -> (r: Outcome)
    ensures
        r@ == coverage_outcome(metadata@, fail_under),
{
    let mistakes = metadata.validate();
    if mistakes.len() != 0 {
        return invalid(&mistakes);
    }
    let ghost qs = metadata@.queries;
    let ghost ts = metadata@.test_templates;
    let header = row_of_two("Query".to_owned(), "Has tests?".to_owned());
    let n = metadata.queries.len();
    let mut rows: Vec<Vec<String>> = Vec::new();
    let mut i: usize = 0;
    while i < n
        invariant
            i <= n,
            n == qs.len(),
            qs == metadata@.queries,
            ts == metadata@.test_templates,
            rows.len() == i,
            forall|j: int|
                0 <= j < i ==> (#[trigger] rows[j]).deep_view() == coverage_row(ts, qs[j]),
        decreases n - i,
    {
        match metadata.queries.get(i) {
            Some(q) => {
                let bound = metadata.test_templates.positions_by_query(q.id.as_str());
                rows.push(row_of_two(q.id.clone(), has_tests(bound.len())));
            },
            None => {},
        }
        i += 1;
    }
    let tally = Tally::of(metadata);
    let ghost before = rows.deep_view();
    let total = row_of_two("Total".to_owned(), tally.total_text());
    rows.push(total);
    proof {
        assert(rows.deep_view() =~= before.push(total.deep_view()));
        assert(before =~= Seq::new(qs.len(), |i: int| coverage_row(ts, qs[i])));
    }
    shown(tally.exit_code(fail_under), draw(&header, &rows))
}

/// Whether a character is one of the ten decimal digits.
pub open spec fn is_digit(c: char) -> bool {
    '0' <= c <= '9'
}

/// The number that a decimal digit stands for.
pub open spec fn digit_value(c: char) -> nat {
    (c as int - '0' as int) as nat
}

/// Whether a text is made of decimal digits alone.
pub open spec fn all_digits(s: Seq<char>) -> bool {
    forall|i: int| 0 <= i < s.len() ==> is_digit(#[trigger] s[i])
}

/// The number that a text of decimal digits stands for.
pub open spec fn digits_value(s: Seq<char>) -> nat
    decreases s.len(),
{
    if s.len() == 0 {
        0
    } else {
        digits_value(s.drop_last()) * 10 + digit_value(s.last())
    }
}

/// The number that a text stands for: one or more decimal digits, with or
/// without a `+` before them. Any other text stands for none.
pub open spec fn number_of(s: Seq<char>) -> Option<nat> {
    let digits = if s.len() > 0 && s[0] == '+' {
        s.drop_first()
    } else {
        s
    };
    if digits.len() > 0 && all_digits(digits) {
        Some(digits_value(digits))
    } else {
        None
    }
}

/// The threshold that a text stands for: a number from 0 to 100. A text that
/// stands for no number, or for one too large for the machine, is no number;
/// a larger number than 100 is out of range.
pub open spec fn threshold_of(s: Seq<char>) -> Result<u8, Seq<char>> {
    match number_of(s) {
        Some(n) => if n > usize::MAX {
            Err("threshold is not a number"@)
        } else if n > 100 {
            Err("threshold not in range 0..100"@)
        } else {
            Ok(n as u8)
        },
        None => Err("threshold is not a number"@),
    }
}

/// The mathematical value of a threshold or a message.
pub open spec fn threshold_result(r: Result<u8, String>) -> Result<u8, Seq<char>> {
    match r {
        Ok(t) => Ok(t),
        Err(m) => Err(m@),
    }
}

/// The first digits of a number stand for no more than all of them.
proof fn lemma_digits_value_grows(s: Seq<char>, k: int)
    requires
        0 <= k <= s.len(),
    ensures
        digits_value(s.take(k)) <= digits_value(s),
    decreases s.len() - k,
{
    if k == s.len() {
        assert(s.take(k) =~= s);
    } else {
        assert(s.take(k + 1).drop_last() =~= s.take(k));
        lemma_digits_value_grows(s, k + 1);
    }
}

/// Reads a coverage threshold: a whole number of percent from 0 to 100.
pub fn cov_threshold_parser(value: &str) -> (r: Result<u8, String>)
    ensures
        threshold_result(r) == threshold_of(value@),
{
    let n = value.unicode_len();
    let start: usize = if n > 0 && value.get_char(0) == '+' {
        1
    } else {
        0
    };
    let ghost digits = if start == 1 {
        value@.drop_first()
    } else {
        value@
    };
    if start == n {
        return Err("threshold is not a number".to_owned());
    }
    let mut acc: usize = 0;
    let mut i: usize = start;
    assert(digits.take(0) =~= Seq::<char>::empty());
    while i < n
        invariant
            start <= i <= n,
            start <= 1,
            n == value@.len(),
            digits.len() == n - start,
            forall|j: int| 0 <= j < digits.len() ==> digits[j] == value@[j + start],
            forall|j: int| 0 <= j < i - start ==> is_digit(#[trigger] digits[j]),
            acc == digits_value(digits.take(i - start)),
            number_of(value@) == if digits.len() > 0 && all_digits(digits) {
                Some(digits_value(digits))
            } else {
                None
            },
        decreases n - i,
    {
        let c = value.get_char(i);
        proof {
            assert(digits[i - start] == c);
            assert(digits.take(i - start + 1).drop_last() =~= digits.take(i - start));
            assert(digits.take(i - start + 1).last() == c);
            lemma_digits_value_grows(digits, i - start + 1);
        }
        if !(c >= '0' && c <= '9') {
            assert(!is_digit(digits[i - start]));
            return Err("threshold is not a number".to_owned());
        }
        let d: usize = (c as u32 - '0' as u32) as usize;
        assert(d == digit_value(c));
        let next = match acc.checked_mul(10) {
            Some(tens) => tens.checked_add(d),
            None => None,
        };
        match next {
            Some(v) => {
                acc = v;
            },
            None => {
                assert(digits_value(digits.take(i - start + 1)) > usize::MAX);
                return Err("threshold is not a number".to_owned());
            },
        }
        i += 1;
    }
    proof {
        assert(digits.take(i - start) =~= digits);
    }
    if acc > 100 {
        Err("threshold not in range 0..100".to_owned())
    } else {
        Ok(acc as u8)
    }
}

} // verus!

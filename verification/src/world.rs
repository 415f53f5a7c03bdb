//! What whole runs come to, in a world that does what it is asked.
//!
//! The world is a model: an output tree, a template engine and a formatter,
//! the latter two as functions. It answers each action of a run faithfully
//! and never fails; a run in it ends early only where the run itself
//! refuses to go on. On it the two commands that render can be held against
//! each other.

use vstd::prelude::*;
use vstd::utf8::encode_utf8;
use crate::engine::{expansion, template_of};
use crate::metadata::MetadataView;
use crate::output::{all_unchanged, classify, within, Formatting, Status, Tree};
use crate::pipeline::{
    outside_root, plan_of, request, start_of, unexpected_event, ActionView, EventView, ItemKind,
    ItemView, Mode, Phase, RunView, StepView,
};

verus! {

/// The world outside a run.
pub struct World {
    /// For each path that has a file, what the file holds.
    pub tree: Tree,
    /// What the template engine makes of a request to render.
    pub engine: spec_fn(ActionView) -> Seq<char>,
    /// What the formatter makes of a text.
    pub formatter: Formatting,
}

/// The engine of a world in which each template holds what `sources` says
/// of its path: what the template engine makes of the template, and no text
/// where the engine fails.
pub open spec fn engine_over(sources: spec_fn(Seq<char>) -> Seq<char>) -> spec_fn(ActionView) -> Seq<
    char,
> {
    |action: ActionView|
        match template_of(action) {
            Some(template) => match expansion(action, sources(template)) {
                EventView::Rendered(text) => text,
                _ => Seq::empty(),
            },
            None => Seq::empty(),
        }
}

/// In a world with the engine over `sources`, a request to render that the
/// template engine does not fail on is answered as `engine::expand` answers
/// it. So what is stated here of whole runs holds of runs with the
/// template engine, as long as it fails on no template.
pub proof fn law_engine_answers(
    sources: spec_fn(Seq<char>) -> Seq<char>,
    w: World,
    action: ActionView,
)
    requires
        w.engine == engine_over(sources),
        template_of(action) is Some,
        expansion(action, sources(template_of(action)->Some_0)) is Rendered,
    ensures
        answer(w, action) == (w, expansion(action, sources(template_of(action)->Some_0))),
{
}

/// What the file at `path` holds, if there is one.
pub open spec fn held(tree: Tree, path: Seq<char>) -> Option<Seq<u8>> {
    if tree.contains_key(path) {
        Some(tree[path])
    } else {
        None
    }
}

/// The world after it has done what `action` asks for, and what it says has
/// happened. Only writing changes the world. To the end of a run there is
/// nothing to answer.
pub open spec fn answer(w: World, action: ActionView) -> (World, EventView) {
    match action {
        ActionView::EnsureDirs { .. } => (w, EventView::Ready),
        ActionView::RenderQuery { .. } => (w, EventView::Rendered((w.engine)(action))),
        ActionView::RenderTest { .. } => (w, EventView::Rendered((w.engine)(action))),
        ActionView::Format { text, .. } => (w, EventView::Formatted((w.formatter)(text))),
        ActionView::Write { path, text } => (
            World { tree: w.tree.insert(path, encode_utf8(text)), ..w },
            EventView::Written,
        ),
        ActionView::Inspect { path } => (w, EventView::Found(held(w.tree, path))),
        ActionView::Finish { .. } => (w, EventView::Failed(unexpected_event())),
        ActionView::Abort { .. } => (w, EventView::Failed(unexpected_event())),
    }
}

/// The run and the world after the world has answered what the run asked
/// for and the run has taken the answer.
pub open spec fn answered(st: StepView, w: World) -> (StepView, World) {
    (st.run.step(answer(w, st.action).1), answer(w, st.action).0)
}

/// The run and the world after the item that is to be rendered is done with:
/// rendered, formatted where the run asks for it, and written or compared
/// where the run asks for that. A run that has ended stays as it is.
pub open spec fn item_done(st: StepView, w: World) -> (StepView, World) {
    let rendered = answered(st, w);
    if st.action is Finish || st.action is Abort {
        (st, w)
    } else if rendered.0.action is Format {
        reconciled(answered(rendered.0, rendered.1))
    } else {
        reconciled(rendered)
    }
}

/// The run and the world after the text of an item is written or compared,
/// where the run asks for that.
pub open spec fn reconciled(at: (StepView, World)) -> (StepView, World) {
    if at.0.action is Write || at.0.action is Inspect {
        answered(at.0, at.1)
    } else {
        at
    }
}

/// The run and the world after `n` items are done with.
pub open spec fn items_done(st: StepView, w: World, n: nat) -> (StepView, World)
    decreases n,
{
    if n == 0 {
        (st, w)
    } else {
        let before = items_done(st, w, (n - 1) as nat);
        item_done(before.0, before.1)
    }
}

/// The run and the world after a whole run over the manifest `md`: the
/// output directories are made where the run asks for them, and then every
/// item of the work is done with.
pub open spec fn whole_run(md: MetadataView, mode: Mode, assert_no_changes: bool, w: World) -> (
    StepView,
    World,
) {
    let first = start_of(md, mode, assert_no_changes);
    let begun = if first.action is EnsureDirs {
        answered(first, w)
    } else {
        (first, w)
    };
    items_done(begun.0, begun.1, plan_of(md).len())
}

/// The text of the last query before item `i`, as the engine renders it:
/// what a run keeps for the tests when it turns to item `i`.
pub open spec fn kept(md: MetadataView, w: World, i: int) -> Seq<char>
    decreases i,
{
    if i <= 0 {
        Seq::empty()
    } else if plan_of(md)[i - 1].kind == ItemKind::Query {
        (w.engine)(request(plan_of(md)[i - 1], md.placeholder.select(kept(md, w, i - 1))))
    } else {
        kept(md, w, i - 1)
    }
}

/// The text that item `i` is rendered to.
pub open spec fn raw(md: MetadataView, w: World, i: int) -> Seq<char> {
    (w.engine)(request(plan_of(md)[i], md.placeholder.select(kept(md, w, i))))
}

/// The bytes that belong at the output of item `i`: its text, formatted
/// where the manifest has a formatter.
pub open spec fn due(md: MetadataView, w: World, i: int) -> Seq<u8> {
    encode_utf8(
        match md.formatter {
            Some(_) => (w.formatter)(raw(md, w, i)),
            None => raw(md, w, i),
        },
    )
}

/// The output tree after the first `i` items were written, from the tree
/// `tree` on.
pub open spec fn tree_after(md: MetadataView, w: World, tree: Tree, i: int) -> Tree
    decreases i,
{
    if i <= 0 {
        tree
    } else {
        match plan_of(md)[i - 1].output {
            Some(path) => tree_after(md, w, tree, i - 1).insert(path, due(md, w, i - 1)),
            None => tree_after(md, w, tree, i - 1),
        }
    }
}

/// What a run records when it compares the first `i` items with the tree
/// `tree`.
pub open spec fn found_after(md: MetadataView, w: World, tree: Tree, i: int) -> Map<
    Seq<char>,
    Status,
>
    decreases i,
{
    if i <= 0 {
        Map::empty()
    } else {
        match plan_of(md)[i - 1].output {
            Some(path) => found_after(md, w, tree, i - 1).insert(
                path,
                classify(held(tree, path), due(md, w, i - 1)),
            ),
            None => found_after(md, w, tree, i - 1),
        }
    }
}

/// The output directory of the items of a kind.
pub open spec fn root_of(md: MetadataView, kind: ItemKind) -> Seq<char> {
    match kind {
        ItemKind::Query => md.queries_output_dir,
        ItemKind::Test => md.tests_output_dir,
    }
}

/// Whether the output of item `i`, if it has one, lies within its output
/// directory.
pub open spec fn contained_at(md: MetadataView, i: int) -> bool {
    plan_of(md)[i].output matches Some(path) ==> within(root_of(md, plan_of(md)[i].kind), path)
}

/// Whether the outputs of the first `n` items lie within their output
/// directories.
pub open spec fn contained_upto(md: MetadataView, n: int) -> bool {
    forall|i: int| 0 <= i < n ==> #[trigger] contained_at(md, i)
}

/// Whether every output of the manifest lies within its output directory.
pub open spec fn contained(md: MetadataView) -> bool {
    contained_upto(md, plan_of(md).len() as int)
}

/// Whether the run `st` and the world `now` stand as they do when a run over
/// `md`, begun in the world `w`, turns to item `i`, or, past the last item,
/// ends.
pub open spec fn standing(
    md: MetadataView,
    w: World,
    mode: Mode,
    assert_no_changes: bool,
    i: int,
    st: StepView,
    now: World,
) -> bool {
    let plan = plan_of(md);
    &&& 0 <= i <= plan.len()
    &&& st.run.mode == mode
    &&& st.run.assert_no_changes == assert_no_changes
    &&& st.run.placeholder == md.placeholder
    &&& st.run.formatter == md.formatter
    &&& st.run.queries_dir == md.queries_output_dir
    &&& st.run.tests_dir == md.tests_output_dir
    &&& st.run.plan == plan
    &&& st.run.query_text == kept(md, w, i)
    &&& now.engine == w.engine
    &&& now.formatter == w.formatter
    &&& match mode {
        Mode::Write => now.tree == tree_after(md, w, w.tree, i) && st.run.found == Map::<
            Seq<char>,
            Status,
        >::empty(),
        Mode::Check => now.tree == w.tree && st.run.found == found_after(md, w, w.tree, i),
    }
    &&& if i < plan.len() {
        &&& st.run.phase == Phase::Rendering
        &&& st.run.at == i
        &&& st.action == request(plan[i], md.placeholder.select(kept(md, w, i)))
    } else {
        st.action == (ActionView::Finish { exit_code: st.run.verdict() })
    }
}

/// Doing with one item takes a run from that item to the next, where the
/// run does not refuse to write it.
pub proof fn lemma_item_done(
    md: MetadataView,
    w: World,
    mode: Mode,
    assert_no_changes: bool,
    i: int,
    st: StepView,
    now: World,
)
    requires
        standing(md, w, mode, assert_no_changes, i, st, now),
        i < plan_of(md).len(),
        mode == Mode::Write ==> contained_at(md, i),
    ensures
        standing(
            md,
            w,
            mode,
            assert_no_changes,
            i + 1,
            item_done(st, now).0,
            item_done(st, now).1,
        ),
{
    let plan = plan_of(md);
    let item = plan[i];
    let text = raw(md, w, i);
    assert(st.run.current() == Some(item));
    let rendered = answered(st, now);
    assert(answer(now, st.action).1 == EventView::Rendered(text));
    assert(rendered.0 == st.run.rendered(item, text));
    assert(kept(md, w, i + 1) == if item.kind == ItemKind::Query {
        text
    } else {
        kept(md, w, i)
    });
    match item.output {
        None => {},
        Some(path) => {
            match md.formatter {
                Some(name) => {
                    let formatted = answered(rendered.0, rendered.1);
                    assert(rendered.0.run.target() == Some(path));
                    assert(formatted.0.run.text == (w.formatter)(text));
                    assert(formatted.0.run.target() == Some(path));
                    assert(formatted.0.run.current() == Some(item));
                },
                None => {
                    assert(rendered.0.run.target() == Some(path));
                    assert(rendered.0.run.current() == Some(item));
                },
            }
        },
    }
}

/// Doing with `n` items takes a run from the first item to item `n`, where
/// the run does not refuse to write any of them.
pub proof fn lemma_items_done(
    md: MetadataView,
    w: World,
    mode: Mode,
    assert_no_changes: bool,
    st: StepView,
    n: nat,
)
    requires
        standing(md, w, mode, assert_no_changes, 0, st, w),
        n <= plan_of(md).len(),
        mode == Mode::Write ==> contained_upto(md, n as int),
    ensures
        standing(
            md,
            w,
            mode,
            assert_no_changes,
            n as int,
            items_done(st, w, n).0,
            items_done(st, w, n).1,
        ),
    decreases n,
{
    if n > 0 {
        lemma_items_done(md, w, mode, assert_no_changes, st, (n - 1) as nat);
        let before = items_done(st, w, (n - 1) as nat);
        if mode == Mode::Write {
            assert(contained_at(md, n - 1));
        }
        lemma_item_done(md, w, mode, assert_no_changes, n - 1, before.0, before.1);
    }
}

/// How a whole run begins: at the first item, in the world as it was.
pub proof fn lemma_begun(md: MetadataView, mode: Mode, assert_no_changes: bool, w: World)
    ensures
        ({
            let first = start_of(md, mode, assert_no_changes);
            let begun = if first.action is EnsureDirs {
                answered(first, w)
            } else {
                (first, w)
            };
            standing(md, w, mode, assert_no_changes, 0, begun.0, begun.1) && begun.1 == w
        }),
{
}

/// A whole run ends where its last item is done with, where the run does
/// not refuse to write any item.
pub proof fn lemma_whole_run(md: MetadataView, mode: Mode, assert_no_changes: bool, w: World)
    requires
        mode == Mode::Write ==> contained(md),
    ensures
        standing(
            md,
            w,
            mode,
            assert_no_changes,
            plan_of(md).len() as int,
            whole_run(md, mode, assert_no_changes, w).0,
            whole_run(md, mode, assert_no_changes, w).1,
        ),
{
    let first = start_of(md, mode, assert_no_changes);
    let begun = if first.action is EnsureDirs {
        answered(first, w)
    } else {
        (first, w)
    };
    lemma_begun(md, mode, assert_no_changes, w);
    lemma_items_done(md, w, mode, assert_no_changes, begun.0, plan_of(md).len());
}

/// What is recorded of a path, when the first `i` items are compared with
/// `tree`, is how what `tree` holds at the path stands to what writing
/// those items leaves at it; and the paths recorded are the paths written.
pub proof fn lemma_found_after(md: MetadataView, w: World, from: Tree, tree: Tree, i: int)
    requires
        0 <= i <= plan_of(md).len(),
    ensures
        forall|p: Seq<char>| #[trigger]
            found_after(md, w, tree, i).contains_key(p) ==> tree_after(
                md,
                w,
                from,
                i,
            ).contains_key(p) && found_after(md, w, tree, i)[p] == classify(
                held(tree, p),
                tree_after(md, w, from, i)[p],
            ),
        forall|j: int|
            0 <= j < i && (#[trigger] plan_of(md)[j]).output is Some ==> found_after(
                md,
                w,
                tree,
                i,
            ).contains_key(plan_of(md)[j].output->Some_0),
        forall|p: Seq<char>|
            from.contains_key(p) ==> #[trigger] tree_after(md, w, from, i).contains_key(p),
    decreases i,
{
    if i > 0 {
        lemma_found_after(md, w, from, tree, i - 1);
    }
}

/// Rendering a manifest whose outputs lie within its output directories,
/// and then asking for its status, the output tree untouched in between
/// and failing on changes, succeeds: both runs end with the exit code 0,
/// whatever the output tree before, the template engine and the formatter.
/// The second run leaves the world as it found it.
pub proof fn law_render_then_status(md: MetadataView, w: World)
    requires
        contained(md),
    ensures
        whole_run(md, Mode::Write, false, w).0.action == (ActionView::Finish { exit_code: 0 }),
        whole_run(md, Mode::Check, true, whole_run(md, Mode::Write, false, w).1).0.action == (
        ActionView::Finish { exit_code: 0 }),
        whole_run(md, Mode::Check, true, whole_run(md, Mode::Write, false, w).1).1 == whole_run(
            md,
            Mode::Write,
            false,
            w,
        ).1,
{
    let n = plan_of(md).len() as int;
    lemma_whole_run(md, Mode::Write, false, w);
    let rendered = whole_run(md, Mode::Write, false, w).1;
    lemma_whole_run(md, Mode::Check, true, rendered);
    let checked = whole_run(md, Mode::Check, true, rendered);
    lemma_same_texts(md, w, rendered, w.tree, n);
    lemma_found_after(md, rendered, w.tree, rendered.tree, n);
    assert(tree_after(md, rendered, w.tree, n) == rendered.tree);
    let found = found_after(md, rendered, rendered.tree, n);
    assert(all_unchanged(found)) by {
        assert forall|p: Seq<char>| found.contains_key(p) implies #[trigger] found[p]
            == Status::Unchanged by {
            assert(rendered.tree.contains_key(p));
        }
    }
    assert(checked.1.tree == rendered.tree);
    assert(checked.1 == rendered);
}

/// Two worlds with the same engine and formatter give every item the same
/// text, and writing or comparing the same items comes to the same in both.
pub proof fn lemma_same_texts(md: MetadataView, w: World, v: World, tree: Tree, i: int)
    requires
        w.engine == v.engine,
        w.formatter == v.formatter,
    ensures
        kept(md, w, i) == kept(md, v, i),
        raw(md, w, i) == raw(md, v, i),
        due(md, w, i) == due(md, v, i),
        tree_after(md, w, tree, i) == tree_after(md, v, tree, i),
        found_after(md, w, tree, i) == found_after(md, v, tree, i),
    decreases i,
{
    if i > 0 {
        lemma_same_texts(md, w, v, tree, i - 1);
    }
}

/// A run that has ended stays as it is, however many items are still to
/// do.
pub proof fn lemma_ended_stays(st: StepView, w: World, before: nat, n: nat)
    requires
        before <= n,
        items_done(st, w, before).0.action is Finish || items_done(st, w, before).0.action is Abort,
    ensures
        items_done(st, w, n) == items_done(st, w, before),
    decreases n,
{
    if before < n {
        lemma_ended_stays(st, w, before, (n - 1) as nat);
    }
}

/// A run that writes, and has come to an item whose output does not lie
/// within its output directory, ends with the error for that path and
/// leaves the world as it is.
pub proof fn lemma_item_refused(
    md: MetadataView,
    w: World,
    assert_no_changes: bool,
    i: int,
    st: StepView,
    now: World,
)
    requires
        standing(md, w, Mode::Write, assert_no_changes, i, st, now),
        i < plan_of(md).len(),
        !contained_at(md, i),
    ensures
        item_done(st, now).0.action == (ActionView::Abort {
            error: outside_root(
                plan_of(md)[i].output->Some_0,
                root_of(md, plan_of(md)[i].kind),
            ),
        }),
        item_done(st, now).1 == now,
{
    let item = plan_of(md)[i];
    let path = item.output->Some_0;
    let text = raw(md, w, i);
    let root = root_of(md, item.kind);
    assert(st.run.current() == Some(item));
    assert(st.run.root(item.kind) == root);
    assert(!within(root, path));
    let rendered = answered(st, now);
    assert(answer(now, st.action).1 == EventView::Rendered(text));
    assert(rendered.0 == st.run.rendered(item, text));
    assert(rendered.1 == now);
    match md.formatter {
        Some(name) => {
            assert(rendered.0.action == (ActionView::Format { formatter: name, text }));
            let formatted = answered(rendered.0, rendered.1);
            assert(formatted.1 == now);
            assert(rendered.0.run.phase == Phase::Formatting);
            assert(rendered.0.run.current() == Some(item));
            assert(rendered.0.run.target() == Some(path));
            assert(rendered.0.run.root(item.kind) == root);
            assert(formatted.0.action is Abort);
            assert(item_done(st, now) == formatted);
        },
        None => {
            assert(rendered.0.action is Abort);
        },
    }
}

/// Rendering a manifest stops at the first item whose output does not lie
/// within its output directory: the run ends with the error for that path,
/// the items before it are written, and neither it nor any item after it
/// is.
pub proof fn law_outside_is_refused(md: MetadataView, w: World, j: int)
    requires
        0 <= j < plan_of(md).len(),
        contained_upto(md, j),
        !contained_at(md, j),
    ensures
        whole_run(md, Mode::Write, false, w).0.action == (ActionView::Abort {
            error: outside_root(
                plan_of(md)[j].output->Some_0,
                root_of(md, plan_of(md)[j].kind),
            ),
        }),
        whole_run(md, Mode::Write, false, w).1.tree == tree_after(md, w, w.tree, j),
{
    let n = plan_of(md).len();
    let first = start_of(md, Mode::Write, false);
    let begun = answered(first, w);
    lemma_begun(md, Mode::Write, false, w);
    lemma_items_done(md, w, Mode::Write, false, begun.0, j as nat);
    let at = items_done(begun.0, w, j as nat);
    lemma_item_refused(md, w, false, j, at.0, at.1);
    let after = items_done(begun.0, w, (j + 1) as nat);
    assert(after == item_done(at.0, at.1));
    lemma_ended_stays(begun.0, w, (j + 1) as nat, n);
}

/// Rendering a manifest, then putting other content into one of the files
/// that were written, and then asking for the status, failing on changes,
/// fails: the run ends with the exit code 1. Without failing on changes it
/// ends with 0.
pub proof fn law_edit_then_status(md: MetadataView, w: World, j: int, edited: Seq<u8>)
    requires
        contained(md),
        0 <= j < plan_of(md).len(),
        plan_of(md)[j].output is Some,
        edited != whole_run(md, Mode::Write, false, w).1.tree[plan_of(md)[j].output->Some_0],
    ensures
        ({
            let path = plan_of(md)[j].output->Some_0;
            let rendered = whole_run(md, Mode::Write, false, w).1;
            let touched = World { tree: rendered.tree.insert(path, edited), ..rendered };
            &&& whole_run(md, Mode::Check, true, touched).0.action == (ActionView::Finish {
                exit_code: 1,
            })
            &&& whole_run(md, Mode::Check, false, touched).0.action == (ActionView::Finish {
                exit_code: 0,
            })
        }),
{
    let n = plan_of(md).len() as int;
    let path = plan_of(md)[j].output->Some_0;
    lemma_whole_run(md, Mode::Write, false, w);
    let rendered = whole_run(md, Mode::Write, false, w).1;
    let touched = World { tree: rendered.tree.insert(path, edited), ..rendered };
    lemma_whole_run(md, Mode::Check, true, touched);
    lemma_whole_run(md, Mode::Check, false, touched);
    lemma_same_texts(md, w, touched, w.tree, n);
    lemma_found_after(md, touched, w.tree, touched.tree, n);
    assert(tree_after(md, touched, w.tree, n) == rendered.tree);
    let found = found_after(md, touched, touched.tree, n);
    assert(found.contains_key(path));
    assert(found[path] == Status::Changed);
}

} // verus!

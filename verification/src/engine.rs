//! Expanding templates: what the template engine is handed, and what a run is
//! told of its answer.

use vstd::prelude::*;
use crate::error::{Error, ErrorView};
use crate::pipeline::{unexpected_event, Action, ActionView, Event, EventView};
use crate::text::copy_all;

verus! {

/// What the template engine makes of the template `source`, known to it as
/// `name`, when the context holds the texts `texts` and the lists `lists`
/// under their names and an undefined variable is an error: the text that
/// the template expands to, or the message of the engine's error.
pub uninterp spec fn expanded(
    name: Seq<char>,
    source: Seq<char>,
    texts: Seq<(Seq<char>, Seq<char>)>,
    lists: Seq<(Seq<char>, Seq<Seq<char>>)>,
) -> Result<Seq<char>, Seq<char>>;

/// `minijinja::Environment::render_named_str`, in a new environment in which
/// an undefined variable is an error: the text that the template `source`
/// expands to when its context holds the given texts and lists under their
/// names, or the message of the engine's error. Both depend on the four
/// arguments alone.
#[verifier::external_body]
fn call_engine(
    name: &str,
    source: &str,
    texts: &Vec<(String, String)>,
    lists: &Vec<(String, Vec<String>)>,
) -> (r: Result<String, String>)
    ensures
        answer_view(r) == expanded(name@, source@, named_texts(texts@), named_lists(lists@)),
{
    let mut context = std::collections::BTreeMap::<String, minijinja::Value>::new();
    context.extend(texts.iter().map(|(k, v)| (k.clone(), minijinja::Value::from(v.as_str()))));
    context.extend(lists.iter().map(|(k, v)| (k.clone(), v.iter().collect())));
    let mut engine = minijinja::Environment::new();
    engine.set_undefined_behavior(minijinja::UndefinedBehavior::Strict);
    engine.render_named_str(name, source, minijinja::Value::from_object(context)).map_err(
        |e| e.to_string(),
    )
}

/// The mathematical value of texts under names.
pub open spec fn named_texts(v: Seq<(String, String)>) -> Seq<(Seq<char>, Seq<char>)> {
    Seq::new(v.len(), |i: int| (v[i].0@, v[i].1@))
}

/// The mathematical value of lists under names.
pub open spec fn named_lists(v: Seq<(String, Vec<String>)>) -> Seq<(Seq<char>, Seq<Seq<char>>)> {
    Seq::new(v.len(), |i: int| (v[i].0@, v[i].1.deep_view()))
}

/// The template that an action asks to be rendered; `None` for an action
/// that asks for something else.
pub open spec fn template_of(action: ActionView) -> Option<Seq<char>> {
    match action {
        ActionView::RenderQuery { template, .. } => Some(template),
        ActionView::RenderTest { template, .. } => Some(template),
        _ => None,
    }
}

/// The texts of the context that a template is expanded in: the identifier
/// of the query under `query_id`, and for a test the prepared statement
/// under `prepared_statement`, where there is one.
pub open spec fn context_texts(action: ActionView) -> Seq<(Seq<char>, Seq<char>)> {
    match action {
        ActionView::RenderQuery { id, .. } => seq![("query_id"@, id)],
        ActionView::RenderTest { query_id, prepared_statement, .. } => match prepared_statement {
            Some(text) => seq![("query_id"@, query_id), ("prepared_statement"@, text)],
            None => seq![("query_id"@, query_id)],
        },
        _ => Seq::empty(),
    }
}

/// The lists of the context that a template is expanded in: for a query its
/// conditions under `conds`.
pub open spec fn context_lists(action: ActionView) -> Seq<(Seq<char>, Seq<Seq<char>>)> {
    match action {
        ActionView::RenderQuery { conds, .. } => seq![("conds"@, conds)],
        _ => Seq::empty(),
    }
}

/// The texts of the context for an action.
pub fn texts_for(action: &Action) -> (r: Vec<(String, String)>)
    ensures
        named_texts(r@) == context_texts(action@),
{
    let mut texts: Vec<(String, String)> = Vec::new();
    match action {
        Action::RenderQuery { id, .. } => {
            texts.push(("query_id".to_owned(), id.clone()));
        },
        Action::RenderTest { query_id, prepared_statement, .. } => {
            texts.push(("query_id".to_owned(), query_id.clone()));
            match prepared_statement {
                Some(text) => {
                    texts.push(("prepared_statement".to_owned(), text.clone()));
                },
                None => {},
            }
        },
        _ => {},
    }
    assert(named_texts(texts@) =~= context_texts(action@));
    texts
}

/// The lists of the context for an action.
pub fn lists_for(action: &Action) -> (r: Vec<(String, Vec<String>)>)
    ensures
        named_lists(r@) == context_lists(action@),
{
    let mut lists: Vec<(String, Vec<String>)> = Vec::new();
    match action {
        Action::RenderQuery { conds, .. } => {
            lists.push(("conds".to_owned(), copy_all(conds)));
        },
        _ => {},
    }
    assert(named_lists(lists@) =~= context_lists(action@));
    lists
}

/// What a run is told when the engine has answered: the text that the
/// template was expanded to, or that rendering failed, with the template
/// and the engine's message.
pub open spec fn told(template: Seq<char>, answer: Result<Seq<char>, Seq<char>>) -> EventView {
    match answer {
        Ok(text) => EventView::Rendered(text),
        Err(message) => EventView::Failed(ErrorView::Render(template + ": "@ + message)),
    }
}

/// The mathematical value of what the engine answers.
pub open spec fn answer_view(answer: Result<String, String>) -> Result<Seq<char>, Seq<char>> {
    match answer {
        Ok(text) => Ok(text@),
        Err(message) => Err(message@),
    }
}

/// Makes the event for a run of what the engine answered for `template`.
pub fn tell(template: &str, answer: Result<String, String>) -> (e: Event)
    ensures
        e@ == told(template@, answer_view(answer)),
{
    match answer {
        Ok(text) => Event::Rendered(text),
        Err(message) => {
            let mut line = template.to_owned();
            line.append(": ");
            line.append(message.as_str());
            Event::Failed(Error::Render(line))
        },
    }
}

/// What a run is told when the template that `action` asks to be rendered,
/// of which `source` is the text, has been expanded; for an action that
/// asks for no rendering, a failure.
pub open spec fn expansion(action: ActionView, source: Seq<char>) -> EventView {
    match template_of(action) {
        Some(template) => told(
            template,
            expanded(template, source, context_texts(action), context_lists(action)),
        ),
        None => EventView::Failed(unexpected_event()),
    }
}

/// Expands the template that `action` asks to be rendered, of which
/// `source` is the text, and makes the event for the run: the text that
/// the engine makes of the template in the context of the action, or the
/// failure with the engine's message. An action that asks for no rendering
/// is answered with a failure.
pub fn expand(action: &Action, source: &str) -> (e: Event)
    ensures
        e@ == expansion(action@, source@),
{
    let template = match action {
        Action::RenderQuery { template, .. } => template,
        Action::RenderTest { template, .. } => template,
        _ => {
            return Event::Failed(Error::Io("Unexpected event".to_owned()));
        },
    };
    let texts = texts_for(action);
    let lists = lists_for(action);
    let answer = call_engine(template.as_str(), source, &texts, &lists);
    proof {
        assert(template_of(action@) == Some(template@));
    }
    tell(template.as_str(), answer)
}

} // verus!

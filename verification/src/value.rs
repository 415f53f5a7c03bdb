//! Reading a parsed TOML value: what it holds, as a mathematical model, and
//! the typed decoders that the manifest's entries are read with.

use vstd::prelude::*;
use crate::error::{text_result, Error, ErrorView};

verus! {

/// A parsed TOML value of the `toml` crate. Opaque here: what it holds is
/// spoken of through [`doc_of`].
#[verifier::external_type_specification]
#[verifier::external_body]
pub struct ExValue(toml::Value);

/// The table type of the `toml` crate, from keys to values. Opaque here: what
/// it holds is spoken of through [`table_docs`].
#[verifier::external_type_specification]
#[verifier::external_body]
#[verifier::reject_recursive_types(K)]
#[verifier::reject_recursive_types(V)]
pub struct ExMap<K, V>(toml::map::Map<K, V>);

/// What a TOML value holds, as far as a manifest is read: strings, arrays and
/// tables. Integers, floats, booleans and datetimes are all `Other`.
pub enum Doc {
    Text(Seq<char>),
    List(Seq<Doc>),
    Table(Map<Seq<char>, Doc>),
    Other,
}

/// What a `toml::Value` holds.
pub uninterp spec fn doc_of(v: toml::Value) -> Doc;

/// What a `toml` table holds: for each key that it has, what the value under
/// that key holds.
pub uninterp spec fn table_docs(t: toml::map::Map<String, toml::Value>) -> Map<Seq<char>, Doc>;

/// What a text holds when it is read as a TOML document, or, for a text that
/// is no TOML document, the message of the `toml` crate's error.
pub uninterp spec fn parsed(text: Seq<char>) -> Result<Doc, Seq<char>>;

/// `str::parse` to a `toml::Table`, which the `toml` crate provides: the
/// table of a text that is a TOML document, as a value; for any other text
/// the crate's error, as the message that it shows.
#[verifier::external_body]
pub(crate) fn parse_document(text: &str) -> (r: Result<toml::Value, String>)
    ensures
        match r {
            Ok(v) => parsed(text@) == Ok::<Doc, Seq<char>>(doc_of(v)) && doc_of(v) is Table,
            Err(message) => parsed(text@) == Err::<Doc, Seq<char>>(message@),
        },
{
    text.parse::<toml::Table>().map(toml::Value::Table).map_err(|e| e.to_string())
}

/// What each value of an array holds, in order.
pub open spec fn docs_of(items: Seq<toml::Value>) -> Seq<Doc> {
    Seq::new(items.len(), |i: int| doc_of(items[i]))
}

/// `toml::Value::as_str`: the string of a value that is a string, and `None`
/// for every other value.
#[verifier::external_body]
fn as_text(v: &toml::Value) -> (r: Option<&str>)
    ensures
        match r {
            Some(s) => doc_of(*v) == Doc::Text(s@),
            None => !(doc_of(*v) is Text),
        },
{
    v.as_str()
}

/// `toml::Value::as_array`: the items of a value that is an array, and `None`
/// for every other value.
#[verifier::external_body]
pub(crate) fn as_list(v: &toml::Value) -> (r: Option<&Vec<toml::Value>>)
    ensures
        match r {
            Some(items) => doc_of(*v) == Doc::List(docs_of(items@)),
            None => !(doc_of(*v) is List),
        },
{
    v.as_array()
}

/// `toml::Value::as_table`: the table of a value that is a table, and `None`
/// for every other value.
#[verifier::external_body]
pub(crate) fn as_table(v: &toml::Value) -> (r: Option<&toml::map::Map<String, toml::Value>>)
    ensures
        match r {
            Some(t) => doc_of(*v) == Doc::Table(table_docs(*t)),
            None => !(doc_of(*v) is Table),
        },
{
    v.as_table()
}

/// `toml::map::Map::get`: the value under `key`, and `None` where the table
/// has no such key.
#[verifier::external_body]
pub(crate) fn table_get<'a>(t: &'a toml::map::Map<String, toml::Value>, key: &str) -> (r: Option<
    &'a toml::Value,
>)
    ensures
        match r {
            Some(x) => table_docs(*t).contains_key(key@) && table_docs(*t)[key@] == doc_of(*x),
            None => !table_docs(*t).contains_key(key@),
        },
{
    t.get(key)
}

/// The string that `d` holds, or the error for a value that is no string.
pub open spec fn text_of(d: Doc) -> Result<Seq<char>, ErrorView> {
    match d {
        Doc::Text(s) => Ok(s),
        _ => Err(ErrorView::Parse("Value is not a string"@)),
    }
}

/// Reads a string.
pub fn decode_string(v: &toml::Value) -> (r: Result<String, Error>)
    ensures
        text_result(r) == text_of(doc_of(*v)),
{
    match as_text(v) {
        Some(s) => Ok(s.to_owned()),
        None => Err(Error::parse("Value is not a string")),
    }
}

/// `path` as it reads when resolved against the directory `base`. It
/// depends on the two texts alone; which separator joins them is the
/// target's.
pub uninterp spec fn joined_path(base: Seq<char>, path: Seq<char>) -> Seq<char>;

/// `std::path::Path::join`, on paths that are given and returned as text: the
/// path that `base` adjoined with `path` makes.
#[verifier::external_body]
fn join_path(base: &str, path: &str) -> (r: String)
    ensures
        r@ == joined_path(base@, path@),
{
    std::path::Path::new(base).join(path).to_string_lossy().into_owned()
}

/// The path that `d` holds, resolved against `base` where there is one, or the
/// error for a value that is no string.
pub open spec fn path_of(d: Doc, base: Option<Seq<char>>) -> Result<Seq<char>, ErrorView> {
    match text_of(d) {
        Ok(s) => Ok(
            match base {
                Some(b) => joined_path(b, s),
                None => s,
            },
        ),
        Err(e) => Err(e),
    }
}

/// Reads a path, and resolves it against `base` where there is one.
pub fn decode_pathbuf(v: &toml::Value, base: Option<&str>) -> (r: Result<String, Error>)
    ensures
        text_result(r) == path_of(
            doc_of(*v),
            match base {
                Some(b) => Some(b@),
                None => None,
            },
        ),
{
    match as_text(v) {
        Some(s) => match base {
            Some(b) => Ok(join_path(b, s)),
            None => Ok(s.to_owned()),
        },
        None => Err(Error::parse("Value is not a string")),
    }
}

/// Whether every item is a string.
pub open spec fn all_text(items: Seq<Doc>) -> bool {
    forall|i: int| 0 <= i < items.len() ==> (#[trigger] items[i]) is Text
}

/// The strings that `d` holds, in order, or the error for a value that is no
/// array of strings.
pub open spec fn texts_of(d: Doc) -> Result<Seq<Seq<char>>, ErrorView> {
    match d {
        Doc::List(items) => if all_text(items) {
            Ok(Seq::new(items.len(), |i: int| items[i]->Text_0))
        } else {
            Err(ErrorView::Parse("Value is not a string"@))
        },
        _ => Err(ErrorView::Parse("Value is not an array"@)),
    }
}

/// The mathematical value of a list of strings or an error.
pub open spec fn texts_result(r: Result<Vec<String>, Error>) -> Result<Seq<Seq<char>>, ErrorView> {
    match r {
        Ok(v) => Ok(v.deep_view()),
        Err(e) => Err(e@),
    }
}

/// Reads an array of strings.
pub fn decode_vecstr(v: &toml::Value) -> (r: Result<Vec<String>, Error>)
    ensures
        texts_result(r) == texts_of(doc_of(*v)),
{
    match as_list(v) {
        Some(items) => {
            let ghost docs = docs_of(items@);
            let mut res: Vec<String> = Vec::new();
            let mut i: usize = 0;
            while i < items.len()
                invariant
                    i <= items.len(),
                    docs == docs_of(items@),
                    doc_of(*v) == Doc::List(docs),
                    res.len() == i,
                    forall|j: int| 0 <= j < i ==> docs[j] == Doc::Text(#[trigger] res[j]@),
                decreases items.len() - i,
            {
                match as_text(&items[i]) {
                    Some(s) => {
                        res.push(s.to_owned());
                    },
                    None => {
                        assert(!(docs[i as int] is Text));
                        return Err(Error::parse("Value is not a string"));
                    },
                }
                i += 1;
            }
            proof {
                assert forall|j: int| 0 <= j < docs.len() implies (#[trigger] docs[j]) is Text by {
                    assert(docs[j] == Doc::Text(res[j]@));
                }
                assert(res.deep_view() =~= Seq::new(docs.len(), |i: int| docs[i]->Text_0));
            }
            Ok(res)
        },
        None => Err(Error::parse("Value is not an array")),
    }
}

} // verus!

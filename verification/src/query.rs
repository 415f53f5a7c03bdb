//! Queries: what a manifest says of each, and the collection of them, in
//! which no identifier occurs twice.

use vstd::prelude::*;
use crate::error::{Error, ErrorView};
use crate::value::{
    as_list, as_table, decode_pathbuf, decode_string, decode_vecstr, doc_of, docs_of, path_of,
    table_get, text_of, texts_of, Doc,
};

verus! {

/// One query of a manifest.
#[derive(Debug)]
pub struct Query {
    /// What the query is known by; not empty, and unique in its manifest.
    pub id: String,
    /// Where the template of the query lies.
    pub template: String,
    /// The conditions handed to the template, in the manifest's order.
    pub conds: Vec<String>,
    /// Where the rendered query is written; `None`: nowhere.
    pub output: Option<String>,
}

/// The mathematical value of a [`Query`].
pub struct QueryView {
    pub id: Seq<char>,
    pub template: Seq<char>,
    pub conds: Seq<Seq<char>>,
    pub output: Option<Seq<char>>,
}

impl View for Query {
    type V = QueryView;

    open spec fn view(&self) -> QueryView {
        QueryView {
            id: self.id@,
            template: self.template@,
            conds: self.conds.deep_view(),
            output: match self.output {
                Some(p) => Some(p@),
                None => None,
            },
        }
    }
}

/// The mathematical value of a query or an error.
pub open spec fn query_result(r: Result<Query, Error>) -> Result<QueryView, ErrorView> {
    match r {
        Ok(q) => Ok(q@),
        Err(e) => Err(e@),
    }
}

/// What an entry of the manifest's queries decodes to. The entry is a table:
/// `id`, `template` and `conds` are required and read in this order, `option`
/// is the output path and may be left out. The first key that is missing or
/// holds a value of the wrong type decides the error. Where all four are
/// read, an empty identifier is an error.
pub open spec fn decode_query(tbase: Seq<char>, obase: Seq<char>, d: Doc) -> Result<
    QueryView,
    ErrorView,
> {
    match d {
        Doc::Table(t) => {
            if !t.contains_key("id"@) {
                Err(ErrorView::Parse("Missing 'id' in 'query' entry"@))
            } else if text_of(t["id"@]) is Err {
                Err(text_of(t["id"@])->Err_0)
            } else if !t.contains_key("template"@) {
                Err(ErrorView::Parse("Missing 'template' in 'query' entry"@))
            } else if path_of(t["template"@], Some(tbase)) is Err {
                Err(path_of(t["template"@], Some(tbase))->Err_0)
            } else if !t.contains_key("conds"@) {
                Err(ErrorView::Parse("Missing 'conds' in 'query' entry"@))
            } else if texts_of(t["conds"@]) is Err {
                Err(texts_of(t["conds"@])->Err_0)
            } else if t.contains_key("option"@) && path_of(t["option"@], Some(obase)) is Err {
                Err(path_of(t["option"@], Some(obase))->Err_0)
            } else if text_of(t["id"@])->Ok_0.len() == 0 {
                Err(ErrorView::Parse("Empty 'id' in 'query' entry"@))
            } else {
                Ok(
                    QueryView {
                        id: text_of(t["id"@])->Ok_0,
                        template: path_of(t["template"@], Some(tbase))->Ok_0,
                        conds: texts_of(t["conds"@])->Ok_0,
                        output: if t.contains_key("option"@) {
                            Some(path_of(t["option"@], Some(obase))->Ok_0)
                        } else {
                            None
                        },
                    },
                )
            }
        },
        _ => Err(ErrorView::Parse("Invalid 'query' entry"@)),
    }
}

impl Query {
    /// Reads one entry of the manifest's queries. The template path is
    /// resolved against `templates_base_dir`, the output path against
    /// `output_base_dir`.
    pub fn decode(templates_base_dir: &str, output_base_dir: &str, value: &toml::Value) -> (r:
        Result<Query, Error>)
        ensures
            query_result(r) == decode_query(
                templates_base_dir@,
                output_base_dir@,
                doc_of(*value),
            ),
    {
        let t = match as_table(value) {
            Some(t) => t,
            None => {
                return Err(Error::parse("Invalid 'query' entry"));
            },
        };
        let id = match table_get(t, "id") {
            Some(v) => match decode_string(v) {
                Ok(s) => s,
                Err(e) => {
                    return Err(e);
                },
            },
            None => {
                return Err(Error::parse("Missing 'id' in 'query' entry"));
            },
        };
        let template = match table_get(t, "template") {
            Some(v) => match decode_pathbuf(v, Some(templates_base_dir)) {
                Ok(p) => p,
                Err(e) => {
                    return Err(e);
                },
            },
            None => {
                return Err(Error::parse("Missing 'template' in 'query' entry"));
            },
        };
        let conds = match table_get(t, "conds") {
            Some(v) => match decode_vecstr(v) {
                Ok(c) => c,
                Err(e) => {
                    return Err(e);
                },
            },
            None => {
                return Err(Error::parse("Missing 'conds' in 'query' entry"));
            },
        };
        let output = match table_get(t, "option") {
            Some(v) => match decode_pathbuf(v, Some(output_base_dir)) {
                Ok(p) => Some(p),
                Err(e) => {
                    return Err(e);
                },
            },
            None => None,
        };
        if id.as_str().unicode_len() == 0 {
            return Err(Error::parse("Empty 'id' in 'query' entry"));
        }
        Ok(Query { id, template, conds, output })
    }
}

/// The mathematical values of a sequence of queries.
pub open spec fn views(qs: Seq<Query>) -> Seq<QueryView> {
    Seq::new(qs.len(), |i: int| qs[i]@)
}

/// Whether some query of `qs` has the identifier `id`.
pub open spec fn has_id(qs: Seq<QueryView>, id: Seq<char>) -> bool {
    exists|i: int| 0 <= i < qs.len() && (#[trigger] qs[i]).id == id
}

/// Whether no two queries of `qs` share an identifier.
pub open spec fn distinct_ids(qs: Seq<QueryView>) -> bool {
    forall|i: int, j: int|
        0 <= i < j < qs.len() ==> (#[trigger] qs[i]).id != (#[trigger] qs[j]).id
}

/// Whether no query of `qs` has an empty identifier.
pub open spec fn named(qs: Seq<QueryView>) -> bool {
    forall|i: int| 0 <= i < qs.len() ==> (#[trigger] qs[i]).id.len() > 0
}

/// The message of the error for an identifier that occurs a second time.
pub open spec fn duplicate_id_message(id: Seq<char>) -> Seq<char> {
    "Duplicate query id '"@ + id + "'"@
}

/// What the entries `items` decode to, each by itself, read in order. The
/// first entry that does not decode decides the error.
pub open spec fn decode_all(tbase: Seq<char>, obase: Seq<char>, items: Seq<Doc>) -> Result<
    Seq<QueryView>,
    ErrorView,
>
    decreases items.len(),
{
    if items.len() == 0 {
        Ok(Seq::empty())
    } else {
        match decode_all(tbase, obase, items.drop_last()) {
            Err(e) => Err(e),
            Ok(qs) => match decode_query(tbase, obase, items.last()) {
                Err(e) => Err(e),
                Ok(q) => Ok(qs.push(q)),
            },
        }
    }
}

/// The identifier of the first query of `qs` that has the identifier of a
/// query before it; `None` where no query has.
pub open spec fn first_repeat(qs: Seq<QueryView>) -> Option<Seq<char>>
    decreases qs.len(),
{
    if qs.len() == 0 {
        None
    } else {
        match first_repeat(qs.drop_last()) {
            Some(id) => Some(id),
            None => if has_id(qs.drop_last(), qs.last().id) {
                Some(qs.last().id)
            } else {
                None
            },
        }
    }
}

/// What the entries `items` decode to. Where an entry does not decode, the
/// first such entry decides the error. Where every entry decodes, a
/// repeated identifier is an error, and the first entry that repeats one
/// decides it.
pub open spec fn decode_each(tbase: Seq<char>, obase: Seq<char>, items: Seq<Doc>) -> Result<
    Seq<QueryView>,
    ErrorView,
> {
    match decode_all(tbase, obase, items) {
        Err(e) => Err(e),
        Ok(qs) => match first_repeat(qs) {
            Some(id) => Err(ErrorView::Parse(duplicate_id_message(id))),
            None => Ok(qs),
        },
    }
}

/// What the manifest's queries decode to: they are an array of entries.
pub open spec fn decode_queries(tbase: Seq<char>, obase: Seq<char>, d: Doc) -> Result<
    Seq<QueryView>,
    ErrorView,
> {
    match d {
        Doc::List(items) => decode_each(tbase, obase, items),
        _ => Err(ErrorView::Parse("Invalid queries"@)),
    }
}

/// An error among the first `k` entries is the error of the whole array.
pub proof fn lemma_decode_all_stops(tbase: Seq<char>, obase: Seq<char>, items: Seq<Doc>, k: int)
    requires
        0 <= k <= items.len(),
        decode_all(tbase, obase, items.take(k)) is Err,
    ensures
        decode_all(tbase, obase, items) == decode_all(tbase, obase, items.take(k)),
    decreases items.len() - k,
{
    if k == items.len() {
        assert(items.take(k) =~= items);
    } else {
        assert(items.take(k + 1).drop_last() =~= items.take(k));
        lemma_decode_all_stops(tbase, obase, items, k + 1);
    }
}

/// A repeat among the first `k` queries is the first repeat of all.
pub proof fn lemma_first_repeat_stops(qs: Seq<QueryView>, k: int)
    requires
        0 <= k <= qs.len(),
        first_repeat(qs.take(k)) is Some,
    ensures
        first_repeat(qs) == first_repeat(qs.take(k)),
    decreases qs.len() - k,
{
    if k == qs.len() {
        assert(qs.take(k) =~= qs);
    } else {
        assert(qs.take(k + 1).drop_last() =~= qs.take(k));
        lemma_first_repeat_stops(qs, k + 1);
    }
}

/// There is no repeat exactly where no two queries share an identifier.
pub proof fn lemma_no_repeat(qs: Seq<QueryView>)
    ensures
        first_repeat(qs) is None <==> distinct_ids(qs),
    decreases qs.len(),
{
    if qs.len() > 0 {
        let front = qs.drop_last();
        let last = qs.len() - 1;
        lemma_no_repeat(front);
        if first_repeat(qs) is None {
            assert forall|i: int, j: int| 0 <= i < j < qs.len() implies (#[trigger] qs[i]).id != (
            #[trigger] qs[j]).id by {
                if j < last {
                    assert(front[i] == qs[i] && front[j] == qs[j]);
                } else {
                    assert(front[i] == qs[i]);
                }
            }
        }
        if distinct_ids(qs) {
            assert forall|i: int, j: int| 0 <= i < j < front.len() implies (#[trigger] front[i]).id
                != (#[trigger] front[j]).id by {
                assert(front[i] == qs[i] && front[j] == qs[j]);
            }
            if has_id(front, qs.last().id) {
                let i = choose|i: int| 0 <= i < front.len() && (#[trigger] front[i]).id == qs.last().id;
                assert(front[i] == qs[i]);
                assert(qs[i].id != qs[last].id);
            }
        }
    }
}

/// Whatever fails to decode fails with a configuration error.
pub proof fn lemma_decode_query_error(tbase: Seq<char>, obase: Seq<char>, d: Doc)
    ensures
        decode_query(tbase, obase, d) matches Err(e) ==> e is Parse,
{
}

/// Entries that all decode give as many queries as there are entries, each
/// what its entry decodes to; an entry that does not decode makes all fail,
/// and the first such entry decides the error.
pub proof fn lemma_decode_all(tbase: Seq<char>, obase: Seq<char>, items: Seq<Doc>)
    ensures
        match decode_all(tbase, obase, items) {
            Ok(qs) => {
                &&& qs.len() == items.len()
                &&& forall|i: int|
                    0 <= i < qs.len() ==> decode_query(tbase, obase, items[i]) == Ok::<
                        QueryView,
                        ErrorView,
                    >(#[trigger] qs[i])
                &&& named(qs)
            },
            Err(e) => exists|j: int|
                {
                    &&& 0 <= j < items.len()
                    &&& #[trigger] decode_query(tbase, obase, items[j]) == Err::<
                        QueryView,
                        ErrorView,
                    >(e)
                    &&& forall|i: int|
                        0 <= i < j ==> (#[trigger] decode_query(tbase, obase, items[i])) is Ok
                },
        },
    decreases items.len(),
{
    if items.len() > 0 {
        let front_items = items.drop_last();
        lemma_decode_all(tbase, obase, front_items);
        assert forall|i: int| 0 <= i < front_items.len() implies front_items[i] == items[i] by {}
        match decode_all(tbase, obase, items) {
            Ok(qs) => {
                let front = decode_all(tbase, obase, front_items)->Ok_0;
                let q = decode_query(tbase, obase, items.last())->Ok_0;
                assert(qs == front.push(q));
                assert forall|i: int| 0 <= i < qs.len() implies decode_query(
                    tbase,
                    obase,
                    items[i],
                ) == Ok::<QueryView, ErrorView>(#[trigger] qs[i]) by {
                    if i < front.len() {
                        assert(qs[i] == front[i]);
                        assert(front_items[i] == items[i]);
                    }
                }
                assert forall|i: int| 0 <= i < qs.len() implies (#[trigger] qs[i]).id.len() > 0 by {
                    if i < front.len() {
                        assert(qs[i] == front[i]);
                    }
                }
            },
            Err(e) => {
                match decode_all(tbase, obase, front_items) {
                    Err(_) => {
                        let j = choose|j: int|
                            {
                                &&& 0 <= j < front_items.len()
                                &&& #[trigger] decode_query(tbase, obase, front_items[j]) == Err::<
                                    QueryView,
                                    ErrorView,
                                >(e)
                                &&& forall|i: int|
                                    0 <= i < j ==> (#[trigger] decode_query(
                                        tbase,
                                        obase,
                                        front_items[i],
                                    )) is Ok
                            };
                        assert(front_items[j] == items[j]);
                        assert forall|i: int| 0 <= i < j implies (#[trigger] decode_query(
                            tbase,
                            obase,
                            items[i],
                        )) is Ok by {
                            assert(front_items[i] == items[i]);
                            assert(decode_query(tbase, obase, front_items[i]) is Ok);
                        }
                        assert(decode_query(tbase, obase, items[j]) == Err::<QueryView, ErrorView>(
                            e,
                        ));
                    },
                    Ok(front) => {
                        let j = items.len() - 1;
                        assert(decode_query(tbase, obase, items[j]) == Err::<QueryView, ErrorView>(
                            e,
                        ));
                        assert forall|i: int| 0 <= i < j implies (#[trigger] decode_query(
                            tbase,
                            obase,
                            items[i],
                        )) is Ok by {
                            assert(front_items[i] == items[i]);
                            assert(decode_query(tbase, obase, front_items[i]) == Ok::<
                                QueryView,
                                ErrorView,
                            >(front[i]));
                        }
                    },
                }
            },
        }
    }
}

/// Queries that decode are as many as the entries, each is what its entry
/// decodes to, none has an empty identifier and no two share one. Whatever
/// fails to decode fails with a configuration error.
pub proof fn law_decoded_queries(tbase: Seq<char>, obase: Seq<char>, items: Seq<Doc>)
    ensures
        match decode_each(tbase, obase, items) {
            Ok(qs) => {
                &&& qs.len() == items.len()
                &&& forall|i: int|
                    0 <= i < qs.len() ==> decode_query(tbase, obase, items[i]) == Ok::<
                        QueryView,
                        ErrorView,
                    >(#[trigger] qs[i])
                &&& distinct_ids(qs)
                &&& named(qs)
            },
            Err(e) => e is Parse,
        },
{
    lemma_decode_all(tbase, obase, items);
    match decode_all(tbase, obase, items) {
        Ok(qs) => {
            lemma_no_repeat(qs);
        },
        Err(e) => {
            let j = choose|j: int|
                0 <= j < items.len() && #[trigger] decode_query(tbase, obase, items[j]) == Err::<
                    QueryView,
                    ErrorView,
                >(e);
            lemma_decode_query_error(tbase, obase, items[j]);
        },
    }
}

/// The first entry that does not decode decides the error of the whole
/// array, whatever stands before it and after it: the array fails with the
/// error of that entry.
pub proof fn law_first_failure_decides(tbase: Seq<char>, obase: Seq<char>, items: Seq<Doc>, j: int)
    requires
        0 <= j < items.len(),
        decode_query(tbase, obase, items[j]) is Err,
        forall|i: int| 0 <= i < j ==> (#[trigger] decode_query(tbase, obase, items[i])) is Ok,
    ensures
        decode_queries(tbase, obase, Doc::List(items)) == Err::<Seq<QueryView>, ErrorView>(
            decode_query(tbase, obase, items[j])->Err_0,
        ),
{
    lemma_decode_all(tbase, obase, items);
    match decode_all(tbase, obase, items) {
        Ok(qs) => {
            assert(decode_query(tbase, obase, items[j]) == Ok::<QueryView, ErrorView>(qs[j]));
        },
        Err(e) => {
            let k = choose|k: int|
                {
                    &&& 0 <= k < items.len()
                    &&& #[trigger] decode_query(tbase, obase, items[k]) == Err::<
                        QueryView,
                        ErrorView,
                    >(e)
                    &&& forall|i: int|
                        0 <= i < k ==> (#[trigger] decode_query(tbase, obase, items[i])) is Ok
                };
            if k < j {
                assert(decode_query(tbase, obase, items[k]) is Ok);
            }
            if j < k {
                assert(decode_query(tbase, obase, items[j]) is Ok);
            }
        },
    }
}

/// Two entries that decode to queries with the same identifier make the
/// whole array fail with a configuration error, wherever they stand and
/// whatever else the array holds.
pub proof fn law_duplicate_id_fails(
    tbase: Seq<char>,
    obase: Seq<char>,
    items: Seq<Doc>,
    i: int,
    j: int,
)
    requires
        0 <= i < j < items.len(),
        decode_query(tbase, obase, items[i]) is Ok,
        decode_query(tbase, obase, items[j]) is Ok,
        decode_query(tbase, obase, items[i])->Ok_0.id == decode_query(
            tbase,
            obase,
            items[j],
        )->Ok_0.id,
    ensures
        decode_queries(tbase, obase, Doc::List(items)) matches Err(e) && e is Parse,
{
    law_decoded_queries(tbase, obase, items);
    match decode_each(tbase, obase, items) {
        Ok(qs) => {
            assert(decode_query(tbase, obase, items[i]) == Ok::<QueryView, ErrorView>(qs[i]));
            assert(decode_query(tbase, obase, items[j]) == Ok::<QueryView, ErrorView>(qs[j]));
            assert(qs[i].id != qs[j].id);
        },
        Err(e) => {},
    }
}

/// The queries of a manifest, in its order.
#[derive(Debug)]
pub struct Queries {
    inner: Vec<Query>,
}

/// The mathematical value of a collection of queries or an error.
pub open spec fn queries_result(r: Result<Queries, Error>) -> Result<Seq<QueryView>, ErrorView> {
    match r {
        Ok(qs) => Ok(qs@),
        Err(e) => Err(e@),
    }
}

/// The position of the first query of `v` whose identifier is `id`.
fn find_id(v: &Vec<Query>, id: &str) -> (r: Option<usize>)
    ensures
        match r {
            Some(i) => i < v.len() && v[i as int].id@ == id@ && forall|j: int|
                0 <= j < i ==> (#[trigger] v[j]).id@ != id@,
            None => forall|j: int| 0 <= j < v.len() ==> (#[trigger] v[j]).id@ != id@,
        },
{
    let wanted = id.to_owned();
    let mut i: usize = 0;
    while i < v.len()
        invariant
            i <= v.len(),
            wanted@ == id@,
            forall|j: int| 0 <= j < i ==> (#[trigger] v[j]).id@ != id@,
        decreases v.len() - i,
    {
        if v[i].id == wanted {
            return Some(i);
        }
        i += 1;
    }
    None
}

/// Whether a query before position `i` of `v` has the identifier of the
/// query at that position.
fn seen_before(v: &Vec<Query>, i: usize) -> (b: bool)
    requires
        i < v.len(),
    ensures
        b == has_id(views(v@).take(i as int), views(v@)[i as int].id),
{
    let ghost front = views(v@).take(i as int);
    let mut j: usize = 0;
    while j < i
        invariant
            j <= i < v.len(),
            front == views(v@).take(i as int),
            forall|l: int| 0 <= l < j ==> (#[trigger] front[l]).id != v[i as int].id@,
        decreases i - j,
    {
        if v[j].id == v[i].id {
            assert(front[j as int].id == v[i as int].id@);
            return true;
        }
        assert(front[j as int].id != v[i as int].id@);
        j += 1;
    }
    false
}

impl View for Queries {
    type V = Seq<QueryView>;

    closed spec fn view(&self) -> Seq<QueryView> {
        views(self.inner@)
    }
}

impl Queries {
    /// No identifier is empty and none occurs twice.
    #[verifier::type_invariant]
    spec fn well_formed(self) -> bool {
        distinct_ids(views(self.inner@)) && named(views(self.inner@))
    }

    /// No queries.
    pub fn new() -> (r: Self)
        ensures
            r@ == Seq::<QueryView>::empty(),
    {
        let inner: Vec<Query> = Vec::new();
        assert(views(inner@) =~= Seq::<QueryView>::empty());
        Self { inner }
    }

    /// Reads the manifest's queries: an array of entries, each read by
    /// [`Query::decode`]. The first entry that does not decode decides the
    /// error; where all decode, an identifier that occurs a second time is
    /// an error.
    pub fn decode(templates_base_dir: &str, output_base_dir: &str, value: &toml::Value) -> (r:
        Result<Self, Error>)
        ensures
            queries_result(r) == decode_queries(
                templates_base_dir@,
                output_base_dir@,
                doc_of(*value),
            ),
    {
        let xs = match as_list(value) {
            Some(xs) => xs,
            None => {
                return Err(Error::parse("Invalid queries"));
            },
        };
        let ghost tbase = templates_base_dir@;
        let ghost obase = output_base_dir@;
        let ghost docs = docs_of(xs@);
        let mut res: Vec<Query> = Vec::new();
        let mut i: usize = 0;
        assert(docs.take(0) =~= Seq::<Doc>::empty());
        assert(views(res@) =~= Seq::<QueryView>::empty());
        while i < xs.len()
            invariant
                i <= xs.len(),
                tbase == templates_base_dir@,
                obase == output_base_dir@,
                docs == docs_of(xs@),
                doc_of(*value) == Doc::List(docs),
                decode_all(tbase, obase, docs.take(i as int)) == Ok::<Seq<QueryView>, ErrorView>(
                    views(res@),
                ),
                named(views(res@)),
            decreases xs.len() - i,
        {
            let ghost before = views(res@);
            proof {
                assert(docs.take(i + 1).drop_last() =~= docs.take(i as int));
                assert(docs.take(i + 1).last() == doc_of(xs[i as int]));
            }
            match Query::decode(templates_base_dir, output_base_dir, &xs[i]) {
                Ok(q) => {
                    res.push(q);
                    proof {
                        assert(views(res@) =~= before.push(q@));
                    }
                },
                Err(e) => {
                    proof {
                        lemma_decode_all_stops(tbase, obase, docs, i + 1);
                    }
                    return Err(e);
                },
            }
            i += 1;
        }
        let ghost qs = views(res@);
        proof {
            assert(docs.take(i as int) =~= docs);
            assert(qs.take(0) =~= Seq::<QueryView>::empty());
        }
        let mut k: usize = 0;
        while k < res.len()
            invariant
                k <= res.len(),
                qs == views(res@),
                doc_of(*value) == Doc::List(docs),
                tbase == templates_base_dir@,
                obase == output_base_dir@,
                decode_all(tbase, obase, docs) == Ok::<Seq<QueryView>, ErrorView>(qs),
                first_repeat(qs.take(k as int)) is None,
            decreases res.len() - k,
        {
            proof {
                assert(qs.take(k + 1).drop_last() =~= qs.take(k as int));
                assert(qs.take(k + 1).last() == qs[k as int]);
            }
            if seen_before(&res, k) {
                let mut message = "Duplicate query id '".to_owned();
                message.append(res[k].id.as_str());
                message.append("'");
                proof {
                    lemma_first_repeat_stops(qs, k + 1);
                }
                return Err(Error::Parse(message));
            }
            k += 1;
        }
        proof {
            assert(qs.take(k as int) =~= qs);
            lemma_no_repeat(qs);
        }
        Ok(Self { inner: res })
    }

    /// How many queries there are.
    pub fn len(&self) -> (n: usize)
        ensures
            n == self@.len(),
    {
        self.inner.len()
    }

    /// Whether there is no query.
    pub fn is_empty(&self) -> (b: bool)
        ensures
            b == (self@.len() == 0),
    {
        self.inner.len() == 0
    }

    /// The query at position `i` of the manifest's order.
    pub fn get(&self, i: usize) -> (r: Option<&Query>)
        ensures
            match r {
                Some(q) => i < self@.len() && q@ == self@[i as int],
                None => i >= self@.len(),
            },
    {
        if i < self.inner.len() {
            Some(&self.inner[i])
        } else {
            None
        }
    }

    /// The position of the query that `id` names: the one query with that
    /// identifier, or `None` where there is none.
    pub fn position(&self, id: &str) -> (r: Option<usize>)
        ensures
            match r {
                Some(i) => i < self@.len() && self@[i as int].id == id@ && forall|j: int|
                    0 <= j < self@.len() && (#[trigger] self@[j]).id == id@ ==> j == i,
                None => !has_id(self@, id@),
            },
    {
        proof {
            use_type_invariant(self);
        }
        let r = find_id(&self.inner, id);
        proof {
            let qs = views(self.inner@);
            match r {
                Some(i) => {
                    assert forall|j: int| 0 <= j < qs.len() && (#[trigger] qs[j]).id
                        == id@ implies j == i by {
                        if j < i {
                            assert(self.inner[j].id@ != id@);
                        } else if j > i {
                            assert(qs[i as int].id != qs[j].id);
                        }
                    }
                },
                None => {
                    assert forall|j: int| 0 <= j < qs.len() implies (#[trigger] qs[j]).id
                        != id@ by {
                        assert(self.inner[j].id@ != id@);
                    }
                },
            }
        }
        r
    }

    /// The query that `id` names.
    pub fn find(&self, id: &str) -> (r: Option<&Query>)
        ensures
            match r {
                Some(q) => exists|i: int| 0 <= i < self@.len() && q@ == #[trigger] self@[i] && q@.id == id@,
                None => !has_id(self@, id@),
            },
    {
        match self.position(id) {
            Some(i) => {
                let q = &self.inner[i];
                assert(q@ == self@[i as int]);
                Some(q)
            },
            None => None,
        }
    }
}

} // verus!

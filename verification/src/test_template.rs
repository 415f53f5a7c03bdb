//! Test templates, each bound to one query by that query's identifier.

use vstd::prelude::*;
use crate::error::{Error, ErrorView};
use crate::value::{
    as_list, as_table, decode_pathbuf, decode_string, doc_of, docs_of, path_of, table_get,
    text_of, Doc,
};

verus! {

/// One test template of a manifest.
#[derive(Debug)]
pub struct TestTemplate {
    /// Where the template of the test lies.
    pub path: String,
    /// Where the rendered test is written.
    pub output: String,
    /// The identifier of the query that the test is bound to.
    pub query_id: String,
}

/// The mathematical value of a [`TestTemplate`].
pub struct TestTemplateView {
    pub path: Seq<char>,
    pub output: Seq<char>,
    pub query_id: Seq<char>,
}

impl View for TestTemplate {
    type V = TestTemplateView;

    open spec fn view(&self) -> TestTemplateView {
        TestTemplateView { path: self.path@, output: self.output@, query_id: self.query_id@ }
    }
}

/// The mathematical value of a test template or an error.
pub open spec fn template_result(r: Result<TestTemplate, Error>) -> Result<
    TestTemplateView,
    ErrorView,
> {
    match r {
        Ok(t) => Ok(t@),
        Err(e) => Err(e@),
    }
}

/// What an entry of the manifest's test templates decodes to. The entry is a
/// table: `query`, `template` and `output` are required and read in this
/// order. The first thing that is wrong decides the error.
pub open spec fn decode_template(tbase: Seq<char>, obase: Seq<char>, d: Doc) -> Result<
    TestTemplateView,
    ErrorView,
> {
    match d {
        Doc::Table(t) => {
            if !t.contains_key("query"@) {
                Err(ErrorView::Parse("Missing 'query' in 'test_template' entry"@))
            } else if text_of(t["query"@]) is Err {
                Err(text_of(t["query"@])->Err_0)
            } else if !t.contains_key("template"@) {
                Err(ErrorView::Parse("Missing 'template' in 'test_template' entry"@))
            } else if path_of(t["template"@], Some(tbase)) is Err {
                Err(path_of(t["template"@], Some(tbase))->Err_0)
            } else if !t.contains_key("output"@) {
                Err(ErrorView::Parse("Missing 'output' in 'test_template' entry"@))
            } else if path_of(t["output"@], Some(obase)) is Err {
                Err(path_of(t["output"@], Some(obase))->Err_0)
            } else {
                Ok(
                    TestTemplateView {
                        path: path_of(t["template"@], Some(tbase))->Ok_0,
                        output: path_of(t["output"@], Some(obase))->Ok_0,
                        query_id: text_of(t["query"@])->Ok_0,
                    },
                )
            }
        },
        _ => Err(ErrorView::Parse("Invalid 'test_template' entry"@)),
    }
}

impl TestTemplate {
    /// Reads one entry of the manifest's test templates. The template path is
    /// resolved against `templates_base_dir`, the output path against
    /// `output_base_dir`.
    pub fn decode(templates_base_dir: &str, output_base_dir: &str, value: &toml::Value) -> (r:
        Result<TestTemplate, Error>)
        ensures
            template_result(r) == decode_template(
                templates_base_dir@,
                output_base_dir@,
                doc_of(*value),
            ),
    {
        let t = match as_table(value) {
            Some(t) => t,
            None => {
                return Err(Error::parse("Invalid 'test_template' entry"));
            },
        };
        let query_id = match table_get(t, "query") {
            Some(v) => match decode_string(v) {
                Ok(s) => s,
                Err(e) => {
                    return Err(e);
                },
            },
            None => {
                return Err(Error::parse("Missing 'query' in 'test_template' entry"));
            },
        };
        let path = match table_get(t, "template") {
            Some(v) => match decode_pathbuf(v, Some(templates_base_dir)) {
                Ok(p) => p,
                Err(e) => {
                    return Err(e);
                },
            },
            None => {
                return Err(Error::parse("Missing 'template' in 'test_template' entry"));
            },
        };
        let output = match table_get(t, "output") {
            Some(v) => match decode_pathbuf(v, Some(output_base_dir)) {
                Ok(p) => p,
                Err(e) => {
                    return Err(e);
                },
            },
            None => {
                return Err(Error::parse("Missing 'output' in 'test_template' entry"));
            },
        };
        Ok(TestTemplate { path, output, query_id })
    }
}

/// The mathematical values of a sequence of test templates.
pub open spec fn views(ts: Seq<TestTemplate>) -> Seq<TestTemplateView> {
    Seq::new(ts.len(), |i: int| ts[i]@)
}

/// What the entries `items` decode to, read in order. The first entry that
/// does not decode decides the error.
pub open spec fn decode_each(tbase: Seq<char>, obase: Seq<char>, items: Seq<Doc>) -> Result<
    Seq<TestTemplateView>,
    ErrorView,
>
    decreases items.len(),
{
    if items.len() == 0 {
        Ok(Seq::empty())
    } else {
        match decode_each(tbase, obase, items.drop_last()) {
            Err(e) => Err(e),
            Ok(ts) => match decode_template(tbase, obase, items.last()) {
                Err(e) => Err(e),
                Ok(t) => Ok(ts.push(t)),
            },
        }
    }
}

/// What the manifest's test templates decode to: they are an array of
/// entries.
pub open spec fn decode_templates(tbase: Seq<char>, obase: Seq<char>, d: Doc) -> Result<
    Seq<TestTemplateView>,
    ErrorView,
> {
    match d {
        Doc::List(items) => decode_each(tbase, obase, items),
        _ => Err(ErrorView::Parse("Invalid test_templates"@)),
    }
}

/// An error among the first `k` entries is the error of the whole array.
pub proof fn lemma_decode_each_stops(tbase: Seq<char>, obase: Seq<char>, items: Seq<Doc>, k: int)
    requires
        0 <= k <= items.len(),
        decode_each(tbase, obase, items.take(k)) is Err,
    ensures
        decode_each(tbase, obase, items) == decode_each(tbase, obase, items.take(k)),
    decreases items.len() - k,
{
    if k == items.len() {
        assert(items.take(k) =~= items);
    } else {
        assert(items.take(k + 1).drop_last() =~= items.take(k));
        lemma_decode_each_stops(tbase, obase, items, k + 1);
    }
}

/// The positions in `ts` of the test templates bound to the query `id`, in
/// ascending order.
pub open spec fn bound_to(ts: Seq<TestTemplateView>, id: Seq<char>) -> Seq<int>
    decreases ts.len(),
{
    if ts.len() == 0 {
        Seq::empty()
    } else if ts.last().query_id == id {
        bound_to(ts.drop_last(), id).push(ts.len() - 1)
    } else {
        bound_to(ts.drop_last(), id)
    }
}

/// Each position of `bound_to` lies in `ts` and holds a test template of the
/// query; the positions ascend; and no test template of the query is left
/// out.
pub proof fn lemma_bound_to(ts: Seq<TestTemplateView>, id: Seq<char>)
    ensures
        bound_to(ts, id).len() <= ts.len(),
        forall|k: int|
            0 <= k < bound_to(ts, id).len() ==> 0 <= (#[trigger] bound_to(ts, id)[k]) < ts.len()
                && ts[bound_to(ts, id)[k]].query_id == id,
        forall|k: int, l: int|
            0 <= k < l < bound_to(ts, id).len() ==> (#[trigger] bound_to(ts, id)[k]) < (
            #[trigger] bound_to(ts, id)[l]),
        forall|i: int|
            0 <= i < ts.len() && (#[trigger] ts[i]).query_id == id ==> bound_to(ts, id).contains(i),
    decreases ts.len(),
{
    if ts.len() > 0 {
        let front = ts.drop_last();
        lemma_bound_to(front, id);
        let b = bound_to(ts, id);
        let f = bound_to(front, id);
        assert forall|k: int| 0 <= k < b.len() implies 0 <= (#[trigger] b[k]) < ts.len()
            && ts[b[k]].query_id == id by {
            if k < f.len() {
                assert(b[k] == f[k]);
                assert(front[f[k]] == ts[f[k]]);
            }
        }
        assert forall|k: int, l: int| 0 <= k < l < b.len() implies (#[trigger] b[k]) < (
        #[trigger] b[l]) by {
            assert(b[k] == f[k]);
            if l < f.len() {
                assert(b[l] == f[l]);
            }
        }
        assert forall|i: int| 0 <= i < ts.len() && (#[trigger] ts[i]).query_id == id implies b.contains(
            i,
        ) by {
            if i < front.len() {
                assert(front[i] == ts[i]);
                assert(f.contains(i));
                let k = choose|k: int| 0 <= k < f.len() && f[k] == i;
                assert(b[k] == i);
            } else {
                assert(b[b.len() - 1] == i);
            }
        }
    }
}

/// The test templates of a manifest, in its order.
#[derive(Debug)]
pub struct TestTemplates {
    inner: Vec<TestTemplate>,
}

/// The mathematical value of a collection of test templates or an error.
pub open spec fn templates_result(r: Result<TestTemplates, Error>) -> Result<
    Seq<TestTemplateView>,
    ErrorView,
> {
    match r {
        Ok(ts) => Ok(ts@),
        Err(e) => Err(e@),
    }
}

impl View for TestTemplates {
    type V = Seq<TestTemplateView>;

    closed spec fn view(&self) -> Seq<TestTemplateView> {
        views(self.inner@)
    }
}

impl TestTemplates {
    /// No test templates.
    pub fn new() -> (r: Self)
        ensures
            r@ == Seq::<TestTemplateView>::empty(),
    {
        let inner: Vec<TestTemplate> = Vec::new();
        assert(views(inner@) =~= Seq::<TestTemplateView>::empty());
        Self { inner }
    }

    /// Reads the manifest's test templates: an array of entries, each read by
    /// [`TestTemplate::decode`].
    pub fn decode(templates_base_dir: &str, output_base_dir: &str, value: &toml::Value) -> (r:
        Result<Self, Error>)
        ensures
            templates_result(r) == decode_templates(
                templates_base_dir@,
                output_base_dir@,
                doc_of(*value),
            ),
    {
        let xs = match as_list(value) {
            Some(xs) => xs,
            None => {
                return Err(Error::parse("Invalid test_templates"));
            },
        };
        let ghost tbase = templates_base_dir@;
        let ghost obase = output_base_dir@;
        let ghost docs = docs_of(xs@);
        let mut res: Vec<TestTemplate> = Vec::new();
        let mut i: usize = 0;
        assert(docs.take(0) =~= Seq::<Doc>::empty());
        assert(views(res@) =~= Seq::<TestTemplateView>::empty());
        while i < xs.len()
            invariant
                i <= xs.len(),
                tbase == templates_base_dir@,
                obase == output_base_dir@,
                docs == docs_of(xs@),
                doc_of(*value) == Doc::List(docs),
                decode_each(tbase, obase, docs.take(i as int)) == Ok::<
                    Seq<TestTemplateView>,
                    ErrorView,
                >(views(res@)),
            decreases xs.len() - i,
        {
            let ghost before = views(res@);
            proof {
                assert(docs.take(i + 1).drop_last() =~= docs.take(i as int));
                assert(docs.take(i + 1).last() == doc_of(xs[i as int]));
            }
            match TestTemplate::decode(templates_base_dir, output_base_dir, &xs[i]) {
                Ok(t) => {
                    res.push(t);
                    proof {
                        assert(views(res@) =~= before.push(t@));
                    }
                },
                Err(e) => {
                    proof {
                        lemma_decode_each_stops(tbase, obase, docs, i + 1);
                    }
                    return Err(e);
                },
            }
            i += 1;
        }
        proof {
            assert(docs.take(i as int) =~= docs);
        }
        Ok(Self { inner: res })
    }

    /// How many test templates there are.
    pub fn len(&self) -> (n: usize)
        ensures
            n == self@.len(),
    {
        self.inner.len()
    }

    /// The test template at position `i` of the manifest's order.
    pub fn get(&self, i: usize) -> (r: Option<&TestTemplate>)
        ensures
            match r {
                Some(t) => i < self@.len() && t@ == self@[i as int],
                None => i >= self@.len(),
            },
    {
        if i < self.inner.len() {
            Some(&self.inner[i])
        } else {
            None
        }
    }

    /// The positions of the test templates bound to the query `id`, in the
    /// manifest's order.
    pub fn positions_by_query(&self, id: &str) -> (r: Vec<usize>)
        ensures
            r.len() == bound_to(self@, id@).len(),
            forall|k: int| 0 <= k < r.len() ==> (#[trigger] r[k]) as int == bound_to(self@, id@)[k],
    {
        let wanted = id.to_owned();
        let ghost ts = views(self.inner@);
        let mut res: Vec<usize> = Vec::new();
        let mut i: usize = 0;
        assert(ts.take(0) =~= Seq::<TestTemplateView>::empty());
        while i < self.inner.len()
            invariant
                i <= self.inner.len(),
                wanted@ == id@,
                ts == views(self.inner@),
                res.len() == bound_to(ts.take(i as int), id@).len(),
                forall|k: int|
                    0 <= k < res.len() ==> (#[trigger] res[k]) as int == bound_to(
                        ts.take(i as int),
                        id@,
                    )[k],
            decreases self.inner.len() - i,
        {
            proof {
                assert(ts.take(i + 1).drop_last() =~= ts.take(i as int));
                assert(ts.take(i + 1).last() == self.inner[i as int]@);
            }
            if self.inner[i].query_id == wanted {
                res.push(i);
            }
            i += 1;
        }
        proof {
            assert(ts.take(i as int) =~= ts);
        }
        res
    }

    /// The test templates bound to the query `id`, in the manifest's order.
    pub fn find_by_query(&self, id: &str) -> (r: Vec<&TestTemplate>)
        ensures
            r.len() == bound_to(self@, id@).len(),
            forall|k: int|
                0 <= k < r.len() ==> (#[trigger] r[k])@ == self@[bound_to(self@, id@)[k]],
    {
        let at = self.positions_by_query(id);
        proof {
            lemma_bound_to(self@, id@);
        }
        let mut res: Vec<&TestTemplate> = Vec::new();
        let mut k: usize = 0;
        while k < at.len()
            invariant
                k <= at.len(),
                at.len() == bound_to(self@, id@).len(),
                forall|l: int|
                    0 <= l < at.len() ==> (#[trigger] at[l]) as int == bound_to(self@, id@)[l],
                forall|l: int|
                    0 <= l < bound_to(self@, id@).len() ==> 0 <= (#[trigger] bound_to(
                        self@,
                        id@,
                    )[l]) < self@.len(),
                self@.len() == self.inner.len(),
                self@ == views(self.inner@),
                res.len() == k,
                forall|l: int|
                    0 <= l < k ==> (#[trigger] res[l])@ == self@[bound_to(self@, id@)[l]],
            decreases at.len() - k,
        {
            let i = at[k];
            assert(i as int == bound_to(self@, id@)[k as int]);
            res.push(&self.inner[i]);
            k += 1;
        }
        res
    }
}

} // verus!

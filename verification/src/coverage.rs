//! Coverage of queries by tests: which queries have a test, how many of them
//! do, and whether that is enough.

use vstd::prelude::*;
use crate::metadata::Metadata;
use crate::query::QueryView;
use crate::test_template::{bound_to, lemma_bound_to, TestTemplateView};
use crate::text::{decimal, decimal_text, two_digit_text, two_digits};

verus! {

/// Whether the query `id` has at least one test template bound to it.
pub open spec fn tested(ts: Seq<TestTemplateView>, id: Seq<char>) -> bool {
    bound_to(ts, id).len() > 0
}

/// How many of the queries `qs` have at least one test template among `ts`.
pub open spec fn count_tested(qs: Seq<QueryView>, ts: Seq<TestTemplateView>) -> nat
    decreases qs.len(),
{
    if qs.len() == 0 {
        0
    } else if tested(ts, qs.last().id) {
        count_tested(qs.drop_last(), ts) + 1
    } else {
        count_tested(qs.drop_last(), ts)
    }
}

/// A query is tested exactly when some test template names it.
pub proof fn law_tested(ts: Seq<TestTemplateView>, id: Seq<char>)
    ensures
        tested(ts, id) <==> exists|i: int| 0 <= i < ts.len() && (#[trigger] ts[i]).query_id == id,
{
    lemma_bound_to(ts, id);
    if tested(ts, id) {
        let i = bound_to(ts, id)[0];
        assert(ts[i].query_id == id);
    }
    if exists|i: int| 0 <= i < ts.len() && (#[trigger] ts[i]).query_id == id {
        let i = choose|i: int| 0 <= i < ts.len() && (#[trigger] ts[i]).query_id == id;
        assert(bound_to(ts, id).contains(i));
    }
}

/// The positions of the queries among `qs` that have at least one test
/// template among `ts`.
pub open spec fn tested_positions(qs: Seq<QueryView>, ts: Seq<TestTemplateView>) -> Set<int> {
    Set::new(|i: int| 0 <= i < qs.len() && tested(ts, qs[i].id))
}

/// `count_tested` is the number of queries that have at least one test
/// template: it counts each such query once, whatever the number of its
/// tests, and no other.
pub proof fn law_count_tested(qs: Seq<QueryView>, ts: Seq<TestTemplateView>)
    ensures
        tested_positions(qs, ts).finite(),
        count_tested(qs, ts) == tested_positions(qs, ts).len(),
    decreases qs.len(),
{
    let all = tested_positions(qs, ts);
    if qs.len() == 0 {
        assert(all =~= Set::<int>::empty());
    } else {
        let front = qs.drop_last();
        let before = tested_positions(front, ts);
        let last = qs.len() - 1;
        law_count_tested(front, ts);
        assert forall|i: int| 0 <= i < front.len() implies front[i] == qs[i] by {}
        if tested(ts, qs.last().id) {
            assert(all =~= before.insert(last)) by {
                assert forall|i: int| all.contains(i) <==> before.insert(last).contains(i) by {
                    if 0 <= i < front.len() {
                        assert(front[i] == qs[i]);
                    }
                }
            }
            assert(!before.contains(last));
            vstd::set::axiom_set_insert_finite(before, last);
            vstd::set::axiom_set_insert_len(before, last);
        } else {
            assert(all =~= before) by {
                assert forall|i: int| all.contains(i) <==> before.contains(i) by {
                    if 0 <= i < front.len() {
                        assert(front[i] == qs[i]);
                    }
                }
            }
        }
    }
}

/// No more queries are tested than there are.
pub proof fn law_tested_within(qs: Seq<QueryView>, ts: Seq<TestTemplateView>)
    ensures
        count_tested(qs, ts) <= qs.len(),
    decreases qs.len(),
{
    if qs.len() > 0 {
        law_tested_within(qs.drop_last(), ts);
    }
}

/// The coverage of `tested` queries out of `queries`, in hundredths of a
/// percent: the hundredth nearest to the exact value, the even one of two
/// that are equally near. Where there is no query, none is left without
/// test, and the coverage is full: 100.00.
pub open spec fn percent_hundredths(tested: nat, queries: nat) -> nat {
    let q = (10000 * tested) / queries;
    let r = (10000 * tested) % queries;
    if queries == 0 {
        10000
    } else if 2 * r < queries {
        q
    } else if 2 * r > queries {
        q + 1
    } else if q % 2 == 0 {
        q
    } else {
        q + 1
    }
}

/// The coverage as a report shows it: the percentage with two decimals.
pub open spec fn percent_text(tested: nat, queries: nat) -> Seq<char> {
    let h = percent_hundredths(tested, queries);
    decimal_text(h / 100) + "."@ + two_digit_text(h % 100) + "%"@
}

/// Whether the coverage of `tested` queries out of `queries` falls short of
/// `threshold` percent: whether it is less. Without queries nothing falls
/// short, whatever the threshold; of the thresholds from 0 to 100 none is
/// above the full coverage that is reported then.
pub open spec fn below(tested: nat, queries: nat, threshold: nat) -> bool {
    queries > 0 && 100 * tested < threshold * queries
}

/// The exit code of a coverage report: 1 where a threshold is given and the
/// coverage is less, else 0.
pub open spec fn exit_code(tested: nat, queries: nat, fail_under: Option<u8>) -> int {
    match fail_under {
        Some(t) => if below(tested, queries, t as nat) {
            1
        } else {
            0
        },
        None => 0,
    }
}

/// The cell that says whether a query has tests: `No`, or `Yes` and how many.
pub open spec fn has_tests_text(count: nat) -> Seq<char> {
    if count == 0 {
        "No"@
    } else {
        "Yes ("@ + decimal_text(count) + ")"@
    }
}

/// The cell that sums a report up: the percentage, and below it the counts.
pub open spec fn total_text(tested: nat, queries: nat) -> Seq<char> {
    percent_text(tested, queries) + "\n("@ + decimal_text(tested) + "/"@ + decimal_text(queries)
        + " queries have at least 1 test)"@
}

/// Where the hundredths are exact they are the coverage itself, and they are
/// never further from it than half a hundredth: with `h` hundredths,
/// `h / 100` percent of `queries` differs from `tested` by no more than
/// `queries / 20000`. Full coverage is 100.00 and none is 0.00.
pub proof fn law_percent(tested: nat, queries: nat)
    requires
        queries > 0,
        tested <= queries,
    ensures
        percent_hundredths(tested, queries) <= 10000,
        (10000 * tested) % queries == 0 ==> percent_hundredths(tested, queries) * queries == 10000
            * tested,
        2 * (percent_hundredths(tested, queries) * queries - 10000 * tested) <= queries,
        2 * (10000 * tested - percent_hundredths(tested, queries) * queries) <= queries,
        tested == queries ==> percent_hundredths(tested, queries) == 10000,
        tested == 0 ==> percent_hundredths(tested, queries) == 0,
{
    let n = queries as int;
    let x = 10000 * tested as int;
    let q = x / n;
    let r = x % n;
    assert(x == q * n + r && 0 <= r < n) by (nonlinear_arith)
        requires
            n > 0,
            q == x / n,
            r == x % n,
    ;
    assert(q <= 10000 && (q == 10000 ==> r == 0)) by (nonlinear_arith)
        requires
            n > 0,
            0 <= x <= 10000 * n,
            x == q * n + r,
            0 <= r < n,
    ;
    assert((q + 1) * n == q * n + n) by (nonlinear_arith);
    if tested == queries {
        assert(q == 10000) by (nonlinear_arith)
            requires
                n > 0,
                x == 10000 * n,
                x == q * n + r,
                0 <= r < n,
        ;
    }
    if tested == 0 {
        assert(q == 0 && r == 0) by (nonlinear_arith)
            requires
                n > 0,
                x == 0,
                x == q * n + r,
                0 <= r < n,
        ;
    }
}

/// The threshold rule speaks of the exact coverage: the run fails if and only
/// if a threshold is given, there are queries, and `tested / queries * 100`
/// is less than the threshold.
pub proof fn law_threshold(tested: nat, queries: nat, fail_under: Option<u8>)
    ensures
        exit_code(tested, queries, fail_under) == 0 || exit_code(tested, queries, fail_under) == 1,
        exit_code(tested, queries, fail_under) == 1 <==> fail_under is Some && queries > 0 && 100
            * tested < fail_under->Some_0 * queries,
        fail_under is None ==> exit_code(tested, queries, fail_under) == 0,
        fail_under == Some(0u8) ==> exit_code(tested, queries, fail_under) == 0,
{
    if fail_under == Some(0u8) {
        assert(!(100 * tested < 0 * queries)) by (nonlinear_arith);
    }
}

/// Without queries the coverage is a number like any other, 100.00, and no
/// threshold fails the run.
pub proof fn law_without_queries(fail_under: Option<u8>)
    ensures
        percent_hundredths(0, 0) == 10000,
        exit_code(0, 0, fail_under) == 0,
{
}

/// How many queries a manifest has, and how many of them are tested.
#[derive(Debug, Clone, Copy, PartialEq, Eq)]
pub struct Tally {
    queries: usize,
    tested: usize,
}

impl Tally {
    /// No more queries are tested than there are.
    #[verifier::type_invariant]
    spec fn well_formed(self) -> bool {
        self.tested <= self.queries
    }

    /// The number of queries.
    pub closed spec fn queries(self) -> nat {
        self.queries as nat
    }

    /// The number of queries with at least one test.
    pub closed spec fn tested(self) -> nat {
        self.tested as nat
    }

    /// A tally of `tested` queries out of `queries`; `None` where more would
    /// be tested than there are.
    pub fn new(queries: usize, tested: usize) -> (r: Option<Tally>)
        ensures
            match r {
                Some(t) => tested <= queries && t.queries() == queries && t.tested() == tested,
                None => tested > queries,
            },
    {
        if tested <= queries {
            Some(Tally { queries, tested })
        } else {
            None
        }
    }

    /// Counts the queries of a manifest and those among them that have at
    /// least one test template bound to them.
    pub fn of(metadata: &Metadata) -> (r: Tally)
        ensures
            r.queries() == metadata@.queries.len(),
            r.tested() == count_tested(metadata@.queries, metadata@.test_templates),
    {
        let ghost qs = metadata@.queries;
        let ghost ts = metadata@.test_templates;
        let n = metadata.queries.len();
        let mut tested: usize = 0;
        let mut i: usize = 0;
        assert(qs.take(0) =~= Seq::<QueryView>::empty());
        while i < n
            invariant
                i <= n,
                n == qs.len(),
                qs == metadata@.queries,
                ts == metadata@.test_templates,
                tested == count_tested(qs.take(i as int), ts),
                tested <= i,
            decreases n - i,
        {
            proof {
                assert(qs.take(i + 1).drop_last() =~= qs.take(i as int));
                assert(qs.take(i + 1).last() == qs[i as int]);
            }
            match metadata.queries.get(i) {
                Some(q) => {
                    if metadata.test_templates.positions_by_query(q.id.as_str()).len() > 0 {
                        tested += 1;
                    }
                },
                None => {},
            }
            i += 1;
        }
        proof {
            assert(qs.take(i as int) =~= qs);
        }
        Tally { queries: n, tested }
    }

    /// The number of queries.
    pub fn num_queries(&self) -> (n: usize)
        ensures
            n == self.queries(),
    {
        self.queries
    }

    /// The number of queries with at least one test.
    pub fn num_tested(&self) -> (n: usize)
        ensures
            n == self.tested(),
            n <= self.queries(),
    {
        proof {
            use_type_invariant(self);
        }
        self.tested
    }

    /// The number of queries without test.
    pub fn num_untested(&self) -> (n: usize)
        ensures
            n == self.queries() - self.tested(),
    {
        proof {
            use_type_invariant(self);
        }
        self.queries - self.tested
    }

    /// The coverage in hundredths of a percent, rounded to the nearest;
    /// 100.00 where there is no query.
    pub fn percent(&self) -> (h: u32)
        ensures
            h == percent_hundredths(self.tested(), self.queries()),
            h <= 10000,
    {
        proof {
            use_type_invariant(self);
        }
        if self.queries == 0 {
            return 10000;
        }
        proof {
            law_percent(self.tested as nat, self.queries as nat);
        }
        let n: u128 = self.queries as u128;
        let x: u128 = 10000 * (self.tested as u128);
        let q: u128 = x / n;
        let r: u128 = x % n;
        let h: u128 = if 2 * r < n {
            q
        } else if 2 * r > n {
            q + 1
        } else if q % 2 == 0 {
            q
        } else {
            q + 1
        };
        h as u32
    }

    /// The coverage as a report shows it.
    pub fn percent_text(&self) -> (r: String)
        ensures
            r@ == percent_text(self.tested(), self.queries()),
    {
        let h = self.percent() as usize;
        let mut s = decimal(h / 100);
        s.append(".");
        s.append(two_digits(h % 100).as_str());
        s.append("%");
        s
    }

    /// Whether the coverage falls short of `threshold` percent.
    pub fn below(&self, threshold: u8) -> (b: bool)
        ensures
            b == below(self.tested(), self.queries(), threshold as nat),
    {
        proof {
            use_type_invariant(self);
        }
        let n: u128 = self.queries as u128;
        let k: u128 = self.tested as u128;
        let t: u128 = threshold as u128;
        assert(t * n <= 255 * n) by (nonlinear_arith)
            requires
                t <= 255,
                n >= 0,
        ;
        self.queries > 0 && 100 * k < t * n
    }

    /// The exit code of a coverage report: 1 where a threshold is given and
    /// the coverage is less, else 0.
    pub fn exit_code(&self, fail_under: Option<u8>) -> (code: i32)
        ensures
            code == exit_code(self.tested(), self.queries(), fail_under),
    {
        match fail_under {
            Some(t) => if self.below(t) {
                1
            } else {
                0
            },
            None => 0,
        }
    }

    /// The cell that sums the report up.
    pub fn total_text(&self) -> (r: String)
        ensures
            r@ == total_text(self.tested(), self.queries()),
    {
        let mut s = self.percent_text();
        s.append("\n(");
        s.append(decimal(self.tested).as_str());
        s.append("/");
        s.append(decimal(self.queries).as_str());
        s.append(" queries have at least 1 test)");
        s
    }
}

/// The cell that says whether a query has tests, given how many it has.
pub fn has_tests(count: usize) -> (r: String)
    ensures
        r@ == has_tests_text(count as nat),
{
    if count == 0 {
        "No".to_owned()
    } else {
        let mut s = "Yes (".to_owned();
        s.append(decimal(count).as_str());
        s.append(")");
        s
    }
}

} // verus!

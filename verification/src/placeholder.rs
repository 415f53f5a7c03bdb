//! How the text of a rendered query reaches the tests that are bound to it.

use vstd::prelude::*;

verus! {

/// The placeholder strategy of a manifest. One strategy holds for all of its
/// queries.
#[derive(Debug, Clone, Copy, PartialEq, Eq, Structural)]
pub enum Placeholder {
    /// The rendered query is itself the prepared statement, and every test
    /// bound to the query receives it verbatim.
    PosArgs,
    /// Tests refer to named variables and receive no prepared statement.
    Variables,
}

impl Placeholder {
    /// What a test bound to a query is handed, given the text that the query
    /// was rendered to.
    pub open spec fn select(self, query_text: Seq<char>) -> Option<Seq<char>> {
        match self {
            Placeholder::PosArgs => Some(query_text),
            Placeholder::Variables => None,
        }
    }

    /// The strategy that a manifest names: `posargs` or `variables`.
    pub open spec fn named(name: Seq<char>) -> Option<Placeholder> {
        if name == "posargs"@ {
            Some(Placeholder::PosArgs)
        } else if name == "variables"@ {
            Some(Placeholder::Variables)
        } else {
            None
        }
    }

    /// The strategy that a manifest names: `posargs` or `variables`. Any
    /// other name is none.
    pub fn from_name(name: &str) -> (r: Option<Placeholder>)
        ensures
            r == Placeholder::named(name@),
    {
        let given = name.to_owned();
        if given == "posargs".to_owned() {
            Some(Placeholder::PosArgs)
        } else if given == "variables".to_owned() {
            Some(Placeholder::Variables)
        } else {
            None
        }
    }

    /// The prepared statement for the tests of a query whose rendered text is
    /// `query_text`: the text itself under `PosArgs`, nothing under `Variables`.
    pub fn prepared_statement<'a>(&self, query_text: &'a str) -> (r: Option<&'a str>)
        ensures
            match r {
                Some(s) => self.select(query_text@) == Some(s@),
                None => self.select(query_text@).is_none(),
            },
    {
        match self {
            Placeholder::PosArgs => Some(query_text),
            Placeholder::Variables => None,
        }
    }
}

} // verus!

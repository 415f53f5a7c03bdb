//! Tables as a terminal shows them.

use vstd::prelude::*;

verus! {

/// A table of the `comfy_table` crate. Opaque here: what it holds is spoken
/// of through [`header_of`] and [`rows_of`].
#[verifier::external_type_specification]
#[verifier::external_body]
pub struct ExTable(comfy_table::Table);

/// The cells of the header of a table, if it has one.
pub uninterp spec fn header_of(t: comfy_table::Table) -> Option<Seq<Seq<char>>>;

/// The cells of the rows of a table, row by row.
pub uninterp spec fn rows_of(t: comfy_table::Table) -> Seq<Seq<Seq<char>>>;

/// Whether nothing but header and rows was ever set on a table: its style,
/// arrangement and width are those of a new table, and its columns are
/// those of its one header and its rows.
pub uninterp spec fn plain_of(t: comfy_table::Table) -> bool;

/// The text of a table with this header and these rows and nothing else set,
/// as the `comfy_table` crate draws it. The table has as many columns as
/// its header or its longest row has cells: a header is set once, on a
/// table that has none, so that no column is left over from an earlier one.
pub uninterp spec fn table_text(header: Option<Seq<Seq<char>>>, rows: Seq<Seq<Seq<char>>>) -> Seq<
    char,
>;

/// `comfy_table::Table::new`: a table without header and without rows.
#[verifier::external_body]
fn new_table() -> (t: comfy_table::Table)
    ensures
        plain_of(t),
        header_of(t) is None,
        rows_of(t) == Seq::<Seq<Seq<char>>>::empty(),
{
    comfy_table::Table::new()
}

/// `comfy_table::Table::set_header`: the table has the given header from now
/// on, and the rows that it had. Only a table without header is given one:
/// the crate keeps the columns of a header that is replaced.
#[verifier::external_body]
fn set_header(t: &mut comfy_table::Table, header: &Vec<String>)
    requires
        header_of(*old(t)) is None,
    ensures
        plain_of(*final(t)) == plain_of(*old(t)),
        header_of(*final(t)) == Some(header.deep_view()),
        rows_of(*final(t)) == rows_of(*old(t)),
{
    t.set_header(header);
}

/// `comfy_table::Table::add_rows`: the given rows come after the rows that
/// the table had, and the header stays.
#[verifier::external_body]
fn add_rows(t: &mut comfy_table::Table, rows: &Vec<Vec<String>>)
    ensures
        plain_of(*final(t)) == plain_of(*old(t)),
        rows_of(*final(t)) == rows_of(*old(t)) + rows.deep_view(),
        header_of(*final(t)) == header_of(*old(t)),
{
    t.add_rows(rows);
}

/// `to_string` of a `comfy_table::Table`: the table as text. Of a table on
/// which nothing but header and rows was set the text depends on the cells
/// alone; the crate is built without its terminal support.
#[verifier::external_body]
fn to_text(t: &comfy_table::Table) -> (r: String)
    requires
        plain_of(*t),
    ensures
        r@ == table_text(header_of(*t), rows_of(*t)),
{
    t.to_string()
}

/// Draws the table with the header `header` and the rows `rows`.
pub fn draw(header: &Vec<String>, rows: &Vec<Vec<String>>) -> (r: String)
    ensures
        r@ == table_text(Some(header.deep_view()), rows.deep_view()),
{
    let mut table = new_table();
    set_header(&mut table, header);
    add_rows(&mut table, rows);
    assert(rows_of(table) =~= rows.deep_view());
    to_text(&table)
}

} // verus!

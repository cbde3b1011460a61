//! Text tables, as the `prettytable` crate draws them.
use vstd::prelude::*;

verus! {

/// The cells of rows of strings, each seen as its characters.
pub open spec fn cells_view(rows: Seq<Vec<String>>) -> Seq<Seq<Seq<char>>> {
    rows.map_values(|r: Vec<String>| r@.map_values(|c: String| c@))
}

/// The characters of each of a list of strings.
pub open spec fn strings_view(cells: Seq<String>) -> Seq<Seq<char>> {
    cells.map_values(|c: String| c@)
}

/// The text that `prettytable` draws for a table with the given title row, if any, and rows.
pub uninterp spec fn drawn_table(titles: Option<Seq<Seq<char>>>, rows: Seq<Seq<Seq<char>>>) -> Seq<char>;

/// The text that `prettytable` draws for a table of rows of cells with style specs.
pub uninterp spec fn drawn_styled_table(rows: Seq<Seq<(Seq<char>, Seq<char>)>>) -> Seq<char>;

/// Draws a table with `prettytable`: `Table::new`, `Table::set_titles` with the titles if
/// there are any, `Table::add_row` for each row, each cell made by `Cell::new`, and the
/// table's `Display`. What it draws is named, not written out: it depends on the cells alone.
#[verifier::external_body]
pub(crate) fn draw_table(titles: Option<&[String]>, rows: &[Vec<String>]) -> (r: String)
    ensures
        r@ == drawn_table(
            match titles {
                Some(t) => Some(strings_view(t@)),
                None => None,
            },
            cells_view(rows@),
        ),
{
    let mut table = prettytable::Table::new();
    if let Some(t) = titles {
        table.set_titles(prettytable::Row::new(t.iter().map(|c| prettytable::Cell::new(c)).collect()));
    }
    for row in rows {
        table.add_row(prettytable::Row::new(row.iter().map(|c| prettytable::Cell::new(c)).collect()));
    }
    table.to_string()
}

/// A cell of a table: its text, and its `prettytable` style spec (`c` centers it; the empty
/// spec leaves it as `Cell::new` makes it).
#[derive(Debug)]
pub struct TableCell {
    pub text: String,
    pub style: String,
}

/// The cells of rows of styled cells, each seen as its text and its style spec.
pub open spec fn styled_cells_view(rows: Seq<Vec<TableCell>>) -> Seq<Seq<(Seq<char>, Seq<char>)>> {
    rows.map_values(|r: Vec<TableCell>| r@.map_values(|c: TableCell| (c.text@, c.style@)))
}

/// Whether every cell is centered (style spec `c`) or left as `Cell::new` makes it (the
/// empty spec). `Cell::style_spec` panics on some other specs (`H` with no number after it).
pub open spec fn known_styles(rows: Seq<Seq<(Seq<char>, Seq<char>)>>) -> bool {
    forall|i: int, j: int|
        0 <= i < rows.len() && 0 <= j < rows[i].len() ==> (#[trigger] rows[i][j]).1 == "c"@
            || rows[i][j].1 == Seq::<char>::empty()
}

/// Draws a table of styled cells with `prettytable`: `Table::new`, `Table::add_row` for each
/// row, each cell made by `Cell::new` and given its style by `Cell::style_spec`, and the
/// table's `Display`. What it draws is named, not written out: it depends on the cells alone.
/// Only the empty spec and `c` are taken.
#[verifier::external_body]
pub(crate) fn draw_styled_table(rows: &[Vec<TableCell>]) -> (r: String)
    requires
        known_styles(styled_cells_view(rows@)),
    ensures
        r@ == drawn_styled_table(styled_cells_view(rows@)),
{
    let mut table = prettytable::Table::new();
    for row in rows {
        let cells = row.iter().map(|c| prettytable::Cell::new(&c.text).style_spec(&c.style));
        table.add_row(prettytable::Row::new(cells.collect()));
    }
    table.to_string()
}

/// How `humansize` writes a number of bytes with decimal units.
pub uninterp spec fn decimal_size_text(n: u64) -> Seq<char>;

/// Writes a number of bytes with decimal units, by `humansize::format_size` with
/// `humansize::DECIMAL`. What it writes is named, not written out: it depends on the number
/// alone.
#[verifier::external_body]
pub(crate) fn format_size_decimal(n: u64) -> (r: String)
    ensures
        r@ == decimal_size_text(n),
{
    humansize::format_size(n, humansize::DECIMAL)
}

} // verus!

//! The boundary to the table layout engine.

use vstd::prelude::*;
use tabled::builder::Builder;
use tabled::settings::Panel;
use tabled::settings::Style;

verus! {

/// The text that the layout engine draws for a grid of cells, in the
/// reStructuredText style.
pub uninterp spec fn grid_text(records: Seq<Seq<Seq<char>>>) -> Seq<char>;

/// The text that the layout engine draws for a grid of cells under a panel
/// line that spans all columns, in the reStructuredText style.
pub uninterp spec fn panel_grid_text(panel: Seq<char>, records: Seq<Seq<Seq<char>>>) -> Seq<char>;

/// `Builder::from`, `Builder::build`, `Table::with` and `Table::to_string`:
/// lays the records out as a table in the reStructuredText style. The text
/// depends on the records alone.
#[verifier::external_body]
pub(crate) fn layout_grid(records: Vec<Vec<String>>) -> (text: String)
    ensures
        text@ == grid_text(records.deep_view()),
{
    let mut table = Builder::from(records).build();
    table.with(Style::re_structured_text());
    table.to_string()
}

/// As `layout_grid`, with `Panel::header` applied before the style: the
/// panel text is drawn as a first row that spans every column.
#[verifier::external_body]
pub(crate) fn layout_panel_grid(panel: &str, records: Vec<Vec<String>>) -> (text: String)
    requires
        records@.len() > 0,
        records@[0]@.len() > 0,
    ensures
        text@ == panel_grid_text(panel@, records.deep_view()),
{
    let mut table = Builder::from(records).build();
    table.with(Panel::header(panel));
    table.with(Style::re_structured_text());
    table.to_string()
}

} // verus!

//! The trusted boundary to the HTML parser.
//!
//! Everything the feed logic reads out of a scraped page is the table
//! structure below; the parser's output is taken as plain values and the
//! row walk over them is verified in `extract`.
use vstd::prelude::*;

verus! {

/// The table structure of an HTML document: for each `tr` element, in
/// document order, the list of its `td` cells, each cell as the list of its
/// descendant text fragments. The result depends on the document text
/// alone; it carries a name here rather than a transcription of the HTML
/// parsing algorithm, which nothing could hold to the parser's code.
pub uninterp spec fn table_texts_of(html: Seq<char>) -> Seq<Seq<Seq<Seq<char>>>>;

/// Relies on scraper's `Html::parse_document`, `Selector::parse` and
/// `ElementRef::{select, text}`: the `tr` rows of the document with their
/// `td` cells' text fragments, as plain values. Parsing is error-tolerant
/// and total, and the two selectors are fixed and valid, so the call cannot
/// fail or panic.
#[verifier::external_body]
pub fn table_cell_texts(html: &str) -> (r: Vec<Vec<Vec<String>>>)
    ensures
        r.deep_view() == table_texts_of(html@),
{
    let doc = scraper::Html::parse_document(html);
    let tr = scraper::Selector::parse("tr").unwrap();
    let td = scraper::Selector::parse("td").unwrap();
    doc.select(&tr)
        .map(|row| {
            row.select(&td)
                .map(|cell| cell.text().map(String::from).collect())
                .collect()
        })
        .collect()
}

} // verus!

//! A whole conversion: comma-separated text in, JSON text out.
//!
//! Tokenizing the text is the csv crate's work; the first record is the
//! header row, and rows may hold fewer or more fields than it.

use vstd::prelude::*;
use crate::args::Args;
use crate::document::empty_doc;
use crate::mapping::{ConvertError, convert_rows, map_rows};
use crate::render::doc_text;

verus! {

/// The header row and the data rows that the csv crate reads from `text`,
/// or `None` where it reports an error.
pub uninterp spec fn csv_table(text: Seq<char>) -> Option<(Seq<Seq<char>>, Seq<Seq<Seq<char>>>)>;

/// Relies on csv's `ReaderBuilder` with `flexible(true)` and its defaults
/// otherwise (comma delimiter, first record read as headers), and on its
/// `Reader::headers` and `Reader::records`: the records are read from the
/// text alone.
#[verifier::external_body]
fn read_table(text: &str) -> (r: Option<(Vec<String>, Vec<Vec<String>>)>)
    ensures
        match r {
            Some((h, rows)) => csv_table(text@) == Some((h.deep_view(), rows.deep_view())),
            None => csv_table(text@) is None,
        },
{
    let mut rdr = csv::ReaderBuilder::new().flexible(true).from_reader(text.as_bytes());
    let headers: Vec<String> = rdr.headers().ok()?.iter().map(String::from).collect();
    let mut rows: Vec<Vec<String>> = Vec::new();
    for record in rdr.records() {
        rows.push(record.ok()?.iter().map(String::from).collect());
    }
    Some((headers, rows))
}

/// Converts a table, given as its header row and data rows, into JSON text:
/// the text of the document that the rows build, or the error of the first
/// row that fails.
pub fn convert_table(headers: &[String], rows: &Vec<Vec<String>>, args: &Args) -> (r: Result<String, ConvertError>)
    ensures
        match map_rows(empty_doc(args.is_keyed), rows.deep_view(), headers.deep_view(), args.is_nulled) {
            Some(d) => r is Ok && r->Ok_0@ == doc_text(d),
            None => r == Err::<String, ConvertError>(ConvertError::InvalidRow),
        },
{
    match convert_rows(headers, rows, args) {
        Ok(d) => Ok(d.to_json_string()),
        Err(e) => Err(e),
    }
}

/// Converts comma-separated text, whose first record is the header row, into
/// JSON text. Fails with `MalformedCsv` where the text cannot be read as
/// records, and with `InvalidRow` where a row has no key in keyed mode.
pub fn convert_csv(text: &str, args: &Args) -> (r: Result<String, ConvertError>)
    ensures
        match csv_table(text@) {
            None => r == Err::<String, ConvertError>(ConvertError::MalformedCsv),
            Some((h, rows)) => match map_rows(empty_doc(args.is_keyed), rows, h, args.is_nulled) {
                Some(d) => r is Ok && r->Ok_0@ == doc_text(d),
                None => r == Err::<String, ConvertError>(ConvertError::InvalidRow),
            },
        },
{
    match read_table(text) {
        Some((headers, rows)) => convert_table(headers.as_slice(), &rows, args),
        None => Err(ConvertError::MalformedCsv),
    }
}

} // verus!

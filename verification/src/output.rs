//! The tabular summary of a batch of records, and its encoding as CSV.

use vstd::prelude::*;
use crate::error::ScraperError;
use crate::models::{PageData, PageDataView};

verus! {

/// The character of the decimal digit `d`.
pub open spec fn digit(d: nat) -> char {
    (0x30 + d) as char
}

/// The decimal digits of `n`, without a sign or a leading zero.
pub open spec fn decimal(n: nat) -> Seq<char>
    decreases n,
{
    if n < 10 {
        seq![digit(n)]
    } else {
        decimal(n / 10).push(digit(n % 10))
    }
}

/// The text of the decimal digit `d`.
fn digit_text(d: usize) -> (text: &'static str)
    requires
        d < 10,
    ensures
        text@ == seq![digit(d as nat)],
{
    proof {
        reveal_strlit("0");
        reveal_strlit("1");
        reveal_strlit("2");
        reveal_strlit("3");
        reveal_strlit("4");
        reveal_strlit("5");
        reveal_strlit("6");
        reveal_strlit("7");
        reveal_strlit("8");
        reveal_strlit("9");
    }
    let text = if d == 0 {
        "0"
    } else if d == 1 {
        "1"
    } else if d == 2 {
        "2"
    } else if d == 3 {
        "3"
    } else if d == 4 {
        "4"
    } else if d == 5 {
        "5"
    } else if d == 6 {
        "6"
    } else if d == 7 {
        "7"
    } else if d == 8 {
        "8"
    } else {
        "9"
    };
    assert(text@ =~= seq![digit(d as nat)]);
    text
}

/// The decimal digits of `n`, without a sign or a leading zero.
pub fn decimal_string(n: usize) -> (digits: String)
    ensures
        digits@ == decimal(n as nat),
    decreases n,
{
    if n < 10 {
        String::from_str(digit_text(n))
    } else {
        let digits = decimal_string(n / 10).concat(digit_text(n % 10));
        assert(digits@ =~= decimal(n as nat));
        digits
    }
}

/// The text of a field that may be absent: empty where it is.
pub open spec fn text_or_empty(text: Option<Seq<char>>) -> Seq<char> {
    match text {
        Some(text) => text,
        None => Seq::empty(),
    }
}

/// The names of the columns of the summary.
pub open spec fn header_row() -> Seq<Seq<char>> {
    seq!["url"@, "title"@, "meta_description"@, "headings_count"@, "links_count"@]
}

/// The row of the summary for one record: its address, its title and its
/// description, each empty where absent, and the numbers of its headings and
/// of its links.
pub open spec fn summary_row(page: PageDataView) -> Seq<Seq<char>> {
    seq![
        page.url,
        text_or_empty(page.title),
        text_or_empty(page.meta_description),
        decimal(page.headings.len()),
        decimal(page.links.len()),
    ]
}

/// The summary of `data`: the header, then one row for each record, in the
/// same order.
pub open spec fn summary_rows(data: Seq<PageDataView>) -> Seq<Seq<Seq<char>>> {
    seq![header_row()] + data.map_values(|page: PageDataView| summary_row(page))
}

/// The names of the columns of the summary.
pub fn csv_header() -> (row: Vec<String>)
    ensures
        row.deep_view() == header_row(),
{
    let mut row: Vec<String> = Vec::new();
    row.push(String::from_str("url"));
    row.push(String::from_str("title"));
    row.push(String::from_str("meta_description"));
    row.push(String::from_str("headings_count"));
    row.push(String::from_str("links_count"));
    row
}

/// A copy of a field that may be absent: empty where it is.
fn owned_or_empty(text: &Option<String>) -> (field: String)
    ensures
        field@ == text_or_empty(text.deep_view()),
{
    match text {
        Some(text) => text.clone(),
        None => String::new(),
    }
}

/// The row of the summary for `page`.
pub fn csv_row(page: &PageData) -> (row: Vec<String>)
    ensures
        row.deep_view() == summary_row(page@),
{
    let mut row: Vec<String> = Vec::new();
    row.push(page.url.clone());
    row.push(owned_or_empty(&page.title));
    row.push(owned_or_empty(&page.meta_description));
    row.push(decimal_string(page.headings.len()));
    row.push(decimal_string(page.links.len()));
    row
}

/// The summary of `data`: the header, then one row for each record.
pub fn csv_rows(data: &[PageData]) -> (rows: Vec<Vec<String>>)
    ensures
        rows.deep_view() == summary_rows(data.deep_view()),
{
    let mut rows: Vec<Vec<String>> = Vec::new();
    rows.push(csv_header());
    let mut i: usize = 0;
    while i < data.len()
        invariant
            i <= data.len(),
            rows.deep_view() == summary_rows(data.deep_view().take(i as int)),
        decreases data.len() - i,
    {
        let ghost before = rows.deep_view();
        let row = csv_row(&data[i]);
        let ghost added = row.deep_view();
        rows.push(row);
        proof {
            let all = data.deep_view();
            assert(summary_rows(all.take(i + 1)) =~= before.push(added));
        }
        i += 1;
    }
    rows
}

/// The error of the CSV writer, which is carried through and not looked into.
#[verifier::external_type_specification]
#[verifier::external_body]
pub struct ExCsvError(csv::Error);

/// The bytes that the CSV writer gives in its default configuration for one
/// record of these fields: the fields, quoted where they need it and
/// separated, then the terminator.
pub uninterp spec fn record_text(record: Seq<Seq<char>>) -> Seq<u8>;

/// The CSV writer, trusted: `Writer::from_writer` on an empty vector,
/// `Writer::write_record` with the fields of `record`, and `Writer::into_inner`
/// for what was written. The writer fails where a record differs in length
/// from the first or where what it writes to fails; this one has no record
/// before and writes to a vector, so it succeeds. Of the bytes nothing is
/// claimed but that they are determined by the fields.
#[verifier::external_body]
fn encode_record(record: &Vec<String>) -> (result: Result<Vec<u8>, csv::Error>)
    ensures
        result is Ok,
        result matches Ok(bytes) ==> bytes@ == record_text(record.deep_view()),
{
    let mut writer = csv::Writer::from_writer(Vec::new());
    writer.write_record(record)?;
    writer.into_inner().map_err(|failed| csv::Error::from(failed.into_error()))
}

/// The CSV writer's own description of its error, trusted: the text that
/// `csv::Error` displays. Nothing is claimed of it.
#[verifier::external_body]
fn csv_error_text(error: &csv::Error) -> (text: String) {
    error.to_string()
}

/// The bytes of a table: those of its records, one after the other.
pub open spec fn table_text(rows: Seq<Seq<Seq<char>>>) -> Seq<u8>
    decreases rows.len(),
{
    if rows.len() == 0 {
        Seq::empty()
    } else {
        table_text(rows.drop_last()) + record_text(rows.last())
    }
}

/// Encodes a table as CSV, record by record. Each record is encoded by
/// itself: the records need not be of one length.
pub fn encode_table(rows: &Vec<Vec<String>>) -> (result: Result<Vec<u8>, ScraperError>)
    ensures
        result is Ok,
        result matches Ok(bytes) ==> bytes@ == table_text(rows.deep_view()),
{
    let mut table: Vec<u8> = Vec::new();
    let mut i: usize = 0;
    while i < rows.len()
        invariant
            i <= rows.len(),
            table@ == table_text(rows.deep_view().take(i as int)),
        decreases rows.len() - i,
    {
        proof {
            let all = rows.deep_view();
            assert(all.take(i + 1).drop_last() =~= all.take(i as int));
        }
        match encode_record(&rows[i]) {
            Ok(mut bytes) => {
                table.append(&mut bytes);
            },
            Err(error) => {
                return Err(ScraperError::CsvError(csv_error_text(&error)));
            },
        }
        i += 1;
    }
    assert(rows.deep_view().take(i as int) =~= rows.deep_view());
    Ok(table)
}

/// The summary of `data` as CSV: the header, then one row for each record,
/// with its address, its title and its description, each empty where absent,
/// and the numbers of its headings and of its links.
pub fn write_csv(data: &[PageData]) -> (result: Result<Vec<u8>, ScraperError>)
    ensures
        result is Ok,
        result matches Ok(bytes) ==> bytes@ == table_text(summary_rows(data.deep_view())),
{
    let rows = csv_rows(data);
    encode_table(&rows)
}

} // verus!

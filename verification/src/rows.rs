//! The rows of a delimited export file.
use vstd::prelude::*;

verus! {

/// The rows of an export file, as far as its reader could read them.
pub struct Rows {
    /// The rows before the reader's first error, in file order, each with its fields.
    pub rows: Vec<Vec<String>>,
    /// The reader's first error, if it met one.
    pub failure: Option<csv::Error>,
}

/// The fields of each row of `rows`.
pub open spec fn table(rows: Seq<Vec<String>>) -> Seq<Seq<Seq<char>>> {
    Seq::new(rows.len(), |i: int| crate::text::texts(rows[i]@))
}

/// What the `csv` reader makes of the bytes `data`, with the field delimiter
/// `delimiter`, the first row taken as a header or not: the rows that it reads before
/// its first error, and whether it meets an error.
pub uninterp spec fn record_reading(data: Seq<u8>, delimiter: u8, has_headers: bool) -> (
    Seq<Seq<Seq<char>>>,
    bool,
);

/// Runs a reader of `csv::ReaderBuilder`, with the given delimiter and header mode, over
/// `data`, and collects the records of `Reader::records` up to the first error.
///
/// The rows and the presence of an error are `record_reading` of the arguments; nothing
/// else is claimed of them.
#[verifier::external_body]
fn read_records(data: &[u8], delimiter: u8, has_headers: bool) -> (read: Rows)
    ensures
        table(read.rows@) == record_reading(data@, delimiter, has_headers).0,
        read.failure is Some <==> record_reading(data@, delimiter, has_headers).1,
{
    let mut reader = csv::ReaderBuilder::new().delimiter(delimiter).has_headers(
        has_headers,
    ).from_reader(data);
    let mut rows: Vec<Vec<String>> = Vec::new();
    for record in reader.records() {
        match record {
            Ok(fields) => rows.push(fields.iter().map(|f| f.to_string()).collect()),
            Err(error) => return Rows { rows, failure: Some(error) },
        }
    }
    Rows { rows, failure: None }
}

/// The rows of an export file of the accounting software: its fields are separated by
/// tabs, and its first row is a row of data like the others.
pub open spec fn export_rows(data: Seq<u8>) -> (Seq<Seq<Seq<char>>>, bool) {
    record_reading(data, 9u8, false)
}

/// Reads the rows of an export file from its bytes.
pub fn read_rows(data: &[u8]) -> (read: Rows)
    ensures
        table(read.rows@) == export_rows(data@).0,
        read.failure is Some <==> export_rows(data@).1,
{
    read_records(data, 9u8, false)
}

/// The field of `row` in column `column`, if the row is that long.
pub open spec fn column_of(row: Seq<Seq<char>>, column: int) -> Option<Seq<char>> {
    if 0 <= column < row.len() {
        Some(row[column])
    } else {
        None
    }
}

/// The field of `row` in column `column`, if the row is that long.
pub fn field(row: &Vec<String>, column: usize) -> (found: Option<&String>)
    ensures
        match found {
            Some(text) => column < row.len() && *text == row@[column as int],
            None => column >= row.len(),
        },
{
    if column < row.len() {
        Some(&row[column])
    } else {
        None
    }
}

} // verus!

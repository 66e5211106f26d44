//! Calendar dates of the export.
use vstd::prelude::*;
use chrono::NaiveDate;

verus! {

/// The calendar date of `chrono`. Dates are carried in it and never opened.
#[verifier::external_type_specification]
#[verifier::external_body]
pub struct ExNaiveDate(chrono::NaiveDate);

/// The date that `chrono` reads from `text` under the format `format`, if it reads one.
pub uninterp spec fn date_reading(text: Seq<char>, format: Seq<char>) -> Option<NaiveDate>;

/// The format of the last-sold column: year, month and day, with hyphens between.
pub open spec fn last_sold_format() -> Seq<char> {
    "%Y-%m-%d"@
}

/// Calls `NaiveDate::parse_from_str` of `chrono` and drops its error.
///
/// The result is `date_reading` of the text and the format; nothing more is claimed.
#[verifier::external_body]
fn parse_date(text: &str, format: &str) -> (date: Option<NaiveDate>)
    ensures
        date == date_reading(text@, format@),
{
    NaiveDate::parse_from_str(text, format).ok()
}

/// Reads the last-sold column. A text that is no date in the form `YYYY-MM-DD` gives
/// no date, and no error: a product that was never sold has none.
pub fn last_sold_from_str(text: &str) -> (date: Option<NaiveDate>)
    ensures
        date == date_reading(text@, last_sold_format()),
{
    parse_date(text, "%Y-%m-%d")
}

} // verus!

//! The errors of the import.
use vstd::prelude::*;
use vstd::std_specs::convert::FromSpecImpl;
use vstd::string::StringExecFns;
use crate::text::{decimal_string, decimal_text};

verus! {

/// The error of the `csv` reader. It is carried to the caller as it came.
#[verifier::external_type_specification]
#[verifier::external_body]
pub struct ExCsvError(csv::Error);

/// Why an import, or the building of a product, failed.
#[derive(Debug)]
pub enum AbcParseError {
    /// The reader of the delimited file reported an error, kept here as it came.
    CsvError(csv::Error),
    /// A required column is missing. The first value is the name of the field, the
    /// second the row of the file, counted from 1 (0 where no file is read).
    MissingField(String, usize),
    /// The two records to be combined into one product carry different skus.
    MisMatchedSkus,
    /// The two files do not describe the same number of products.
    RowCountMismatch,
    /// A product of the `item.data` file, named by its sku, is missing from the
    /// `item_posted.data` file.
    UnmatchedKey(String),
    /// Any other failure, with a sentence that names the row.
    Custom(String),
}

/// An error as contracts speak of it.
pub enum ErrorView {
    CsvError(csv::Error),
    MissingField(Seq<char>, usize),
    MisMatchedSkus,
    RowCountMismatch,
    UnmatchedKey(Seq<char>),
    Custom(Seq<char>),
}

impl View for AbcParseError {
    type V = ErrorView;

    open spec fn view(&self) -> ErrorView {
        match *self {
            AbcParseError::CsvError(e) => ErrorView::CsvError(e),
            AbcParseError::MissingField(field, row) => ErrorView::MissingField(field@, row),
            AbcParseError::MisMatchedSkus => ErrorView::MisMatchedSkus,
            AbcParseError::RowCountMismatch => ErrorView::RowCountMismatch,
            AbcParseError::UnmatchedKey(sku) => ErrorView::UnmatchedKey(sku@),
            AbcParseError::Custom(context) => ErrorView::Custom(context@),
        }
    }
}

impl From<csv::Error> for AbcParseError {
    fn from(value: csv::Error) -> (error: AbcParseError) {
        AbcParseError::CsvError(value)
    }
}

impl FromSpecImpl<csv::Error> for AbcParseError {
    open spec fn obeys_from_spec() -> bool {
        true
    }

    open spec fn from_spec(value: csv::Error) -> AbcParseError {
        AbcParseError::CsvError(value)
    }
}

/// The sentence for a missing field.
pub open spec fn missing_field_message(field: Seq<char>, row: usize) -> Seq<char> {
    "Missing field `"@ + field + "` in row "@ + decimal_text(row as nat)
}

/// The sentence for two records whose skus differ.
pub open spec fn mismatched_skus_message() -> Seq<char> {
    "Attempted to combine data from `item.data` and `item_posted.data` into a single [`AbcProduct`], but the skus do not match"@
}

/// The sentence for two files of different size.
pub open spec fn row_count_message() -> Seq<char> {
    "The item_posted.data and item.data files have a different number of items"@
}

/// The sentence for a sku that the posted file lacks.
pub open spec fn unmatched_key_message(sku: Seq<char>) -> Seq<char> {
    "item_posted.data file has no product with sku '"@ + sku + "'"@
}

/// The sentence that `message` gives for `error`, where it is fixed by the error alone.
pub open spec fn stated_message(error: ErrorView) -> Option<Seq<char>> {
    match error {
        ErrorView::MissingField(field, row) => Some(missing_field_message(field, row)),
        ErrorView::MisMatchedSkus => Some(mismatched_skus_message()),
        ErrorView::RowCountMismatch => Some(row_count_message()),
        ErrorView::UnmatchedKey(sku) => Some(unmatched_key_message(sku)),
        ErrorView::CsvError(_) => None,
        ErrorView::Custom(_) => None,
    }
}

/// Formats `error` with the `Debug` formatter of std. Nothing is claimed of the text.
#[verifier::external_body]
fn debug_text(error: &AbcParseError) -> (text: String) {
    format!("{:?}", error)
}

impl AbcParseError {
    /// A sentence for the user that describes the error.
    ///
    /// Missing fields, mismatched skus, unequal row counts and unmatched skus have
    /// sentences of their own. A reader error and a custom error are shown as the
    /// `Debug` formatter shows them.
    pub fn message(&self) -> (text: String)
        ensures
            stated_message(self@) matches Some(sentence) ==> text@ == sentence,
    {
        match self {
            AbcParseError::MissingField(field, row) => {
                let mut text = "Missing field `".to_owned();
                text.append(field.as_str());
                text.append("` in row ");
                text.append(decimal_string(*row).as_str());
                text
            },
            AbcParseError::MisMatchedSkus => {
                "Attempted to combine data from `item.data` and `item_posted.data` into a single [`AbcProduct`], but the skus do not match".to_owned()
            },
            AbcParseError::RowCountMismatch => {
                "The item_posted.data and item.data files have a different number of items".to_owned()
            },
            AbcParseError::UnmatchedKey(sku) => {
                let mut text = "item_posted.data file has no product with sku '".to_owned();
                text.append(sku.as_str());
                text.append("'");
                text
            },
            _ => debug_text(self),
        }
    }
}

} // verus!

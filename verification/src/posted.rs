//! The `item_posted.data` file: stock level and last-sold date.
use vstd::prelude::*;
use vstd::string::StringExecFns;
use chrono::NaiveDate;
use crate::date::{date_reading, last_sold_format, last_sold_from_str};
use crate::error::{AbcParseError, ErrorView};
use crate::product::text_of;
use crate::quantity::Quantity;
use crate::rows::{column_of, field, table, Rows};
use crate::sku_map::BySku;
use crate::text::{decimal_string, decimal_text, texts};

verus! {

/// The column of the sku.
pub const POSTED_SKU_COLUMN: usize = 0;

/// The column of the last-sold date.
pub const LAST_SOLD_COLUMN: usize = 1;

/// The column of the stock level.
pub const STOCK_COLUMN: usize = 19;

/// What can be had of a product from the `item_posted.data` file alone. Together with
/// the record of the same sku from the `item.data` file it makes a product.
pub struct IntermediatePostedProduct {
    pub sku: String,
    pub stock: Quantity,
    pub last_sold: Option<NaiveDate>,
}

/// A posted record as contracts speak of it.
pub struct PostedView {
    pub sku: Seq<char>,
    pub stock: Quantity,
    pub last_sold: Option<NaiveDate>,
}

impl View for IntermediatePostedProduct {
    type V = PostedView;

    open spec fn view(&self) -> PostedView {
        PostedView { sku: self.sku@, stock: self.stock, last_sold: self.last_sold }
    }
}

/// The stock text that is asked of `row`, to be read as a number.
pub open spec fn stock_question(row: Seq<Seq<char>>) -> Option<Seq<char>> {
    column_of(row, STOCK_COLUMN as int)
}

/// The stock texts that are asked of `rows`, row by row.
pub open spec fn stock_questions(rows: Seq<Seq<Seq<char>>>) -> Seq<Option<Seq<char>>> {
    Seq::new(rows.len(), |i: int| stock_question(rows[i]))
}

/// The texts of `questions`, in order.
pub open spec fn asked_stocks(questions: Seq<Option<String>>) -> Seq<Option<Seq<char>>> {
    Seq::new(questions.len(), |i: int| text_of(questions[i]))
}

/// The stock that `answers` give for the row at `position`: none where the answers
/// end before it.
pub open spec fn stock_answer(answers: Seq<Option<Quantity>>, position: int) -> Option<
    Quantity,
> {
    if 0 <= position < answers.len() {
        answers[position]
    } else {
        None
    }
}

/// The sentence for a stock column that holds no number.
pub open spec fn stock_error_message(row: usize) -> Seq<char> {
    "Cannot parse a number from stock_str in row "@ + decimal_text(row as nat)
        + " of posted items"@
}

/// The record of the row `row`, which is row number `index` of its file, whose stock
/// column reads as `stock`.
///
/// A row without a first column lacks its sku, and one that ends before the stock
/// column lacks its stock. A stock that is no number is an error; a last-sold column
/// that is no date gives a record without a date.
pub open spec fn posted_record(row: Seq<Seq<char>>, index: usize, stock: Option<Quantity>) -> Result<
    PostedView,
    ErrorView,
> {
    if row.len() <= POSTED_SKU_COLUMN {
        Err(ErrorView::MissingField("sku"@, index))
    } else if row.len() <= STOCK_COLUMN {
        Err(ErrorView::MissingField("stock"@, index))
    } else if stock is None {
        Err(ErrorView::Custom(stock_error_message(index)))
    } else {
        Ok(
            PostedView {
                sku: row[POSTED_SKU_COLUMN as int],
                stock: stock->0,
                last_sold: date_reading(row[LAST_SOLD_COLUMN as int], last_sold_format()),
            },
        )
    }
}

/// The records of `rows`, each under its sku, with `answers` holding the stock of
/// each row at the row's position. Rows are taken in file order and numbered from 1;
/// the first row that gives an error ends the extraction with that error. Of two
/// rows with one sku the later replaces the earlier.
pub open spec fn posted_records(rows: Seq<Seq<Seq<char>>>, answers: Seq<Option<Quantity>>) -> Result<
    Map<Seq<char>, PostedView>,
    ErrorView,
>
    decreases rows.len(),
{
    if rows.len() == 0 {
        Ok(Map::empty())
    } else {
        match posted_records(rows.drop_last(), answers) {
            Err(e) => Err(e),
            Ok(earlier) => match posted_record(
                rows.last(),
                rows.len() as usize,
                stock_answer(answers, rows.len() - 1),
            ) {
                Err(e) => Err(e),
                Ok(record) => Ok(earlier.insert(record.sku, record)),
            },
        }
    }
}

/// The outcome of extracting a file whose reader gave `rows` and then, perhaps, the
/// error `failure`: an error of a row comes first, the reader's error after all rows.
pub open spec fn posted_extraction(
    rows: Seq<Seq<Seq<char>>>,
    failure: Option<csv::Error>,
    answers: Seq<Option<Quantity>>,
) -> Result<Map<Seq<char>, PostedView>, ErrorView> {
    match posted_records(rows, answers) {
        Err(e) => Err(e),
        Ok(records) => match failure {
            Some(e) => Err(ErrorView::CsvError(e)),
            None => Ok(records),
        },
    }
}

/// The records of `map` as contracts speak of them.
pub open spec fn posted_views(map: Map<Seq<char>, IntermediatePostedProduct>) -> Map<
    Seq<char>,
    PostedView,
> {
    map.map_values(|record: IntermediatePostedProduct| record@)
}

/// An error among the first `n` rows is the error of the whole file.
pub proof fn lemma_posted_error_stays(
    rows: Seq<Seq<Seq<char>>>,
    answers: Seq<Option<Quantity>>,
    n: int,
)
    requires
        0 <= n <= rows.len(),
        posted_records(rows.take(n), answers) is Err,
    ensures
        posted_records(rows, answers) == posted_records(rows.take(n), answers),
    decreases rows.len() - n,
{
    if n < rows.len() {
        assert(rows.take(n + 1).drop_last() == rows.take(n));
        lemma_posted_error_stays(rows, answers, n + 1);
    } else {
        assert(rows.take(n) == rows);
    }
}

/// Turns the outcome of reading the stock column of row `row` into the outcome of the
/// import: the stock, or a custom error that names the row.
pub fn stock_or_error(stock: Option<Quantity>, row: usize) -> (outcome: Result<
    Quantity,
    AbcParseError,
>)
    ensures
        match stock {
            Some(q) => outcome == Ok::<Quantity, AbcParseError>(q),
            None => outcome matches Err(e) && e@ == ErrorView::Custom(stock_error_message(row)),
        },
{
    match stock {
        Some(q) => Ok(q),
        None => {
            let mut context = "Cannot parse a number from stock_str in row ".to_owned();
            context.append(decimal_string(row).as_str());
            context.append(" of posted items");
            Err(AbcParseError::Custom(context))
        },
    }
}

impl IntermediatePostedProduct {
    /// What has to be asked for each row of an `item_posted.data` file before its
    /// records can be made: for each row, in file order, the text of its stock
    /// column, if the row has it.
    pub fn questions(rows: &Vec<Vec<String>>) -> (questions: Vec<Option<String>>)
        ensures
            asked_stocks(questions@) == stock_questions(table(rows@)),
    {
        let mut questions: Vec<Option<String>> = Vec::new();
        let mut i: usize = 0;
        while i < rows.len()
            invariant
                i <= rows.len(),
                questions.len() == i,
                forall|j: int|
                    0 <= j < i ==> text_of(#[trigger] questions@[j]) == stock_question(
                        table(rows@)[j],
                    ),
            decreases rows.len() - i,
        {
            let row = &rows[i];
            assert(table(rows@)[i as int] == texts(row@));
            let stock_text = match field(row, STOCK_COLUMN) {
                Some(text) => Some(text.clone()),
                None => None,
            };
            questions.push(stock_text);
            i += 1;
        }
        assert(asked_stocks(questions@) =~= stock_questions(table(rows@)));
        questions
    }

    /// Makes the record of `row`, which is row number `index` of its file and whose
    /// stock column reads as `stock`.
    pub fn from_row(row: &Vec<String>, index: usize, stock: Option<Quantity>) -> (record: Result<
        IntermediatePostedProduct,
        AbcParseError,
    >)
        ensures
            match posted_record(texts(row@), index, stock) {
                Ok(expected) => record matches Ok(r) && r@ == expected,
                Err(expected) => record matches Err(e) && e@ == expected,
            },
    {
        let sku = match field(row, POSTED_SKU_COLUMN) {
            Some(text) => text.clone(),
            None => {
                return Err(AbcParseError::MissingField("sku".to_owned(), index));
            },
        };
        if field(row, STOCK_COLUMN).is_none() {
            return Err(AbcParseError::MissingField("stock".to_owned(), index));
        }
        let stock = stock_or_error(stock, index)?;
        let last_sold = match field(row, LAST_SOLD_COLUMN) {
            Some(text) => last_sold_from_str(text.as_str()),
            None => {
                return Err(AbcParseError::MissingField("last_sold".to_owned(), index));
            },
        };
        Ok(IntermediatePostedProduct { sku, stock, last_sold })
    }

    /// Extracts the records of an `item_posted.data` file from its rows, with the
    /// stock of each row: `answers` holds, at each row's position, what the row's
    /// stock column reads as, and a row beyond its end has no stock.
    ///
    /// Rows are taken in file order and numbered from 1. The first row that lacks a
    /// required column, or whose stock is no number, ends the extraction with its
    /// error; after the last row, so does the reader's error, if it met one. Of two
    /// rows with one sku the later wins.
    pub fn parse_item_posted_data(posted: Rows, answers: &Vec<Option<Quantity>>) -> (records:
        Result<BySku<IntermediatePostedProduct>, AbcParseError>)
        ensures
            match posted_extraction(table(posted.rows@), posted.failure, answers@) {
                Ok(expected) => records matches Ok(map) && posted_views(map@) == expected,
                Err(expected) => records matches Err(e) && e@ == expected,
            },
    {
        let mut map: BySku<IntermediatePostedProduct> = BySku::new();
        assert(posted_views(map@) =~= Map::<Seq<char>, PostedView>::empty());
        let mut i: usize = 0;
        while i < posted.rows.len()
            invariant
                i <= posted.rows.len(),
                posted_records(table(posted.rows@).take(i as int), answers@) == Ok::<
                    Map<Seq<char>, PostedView>,
                    ErrorView,
                >(posted_views(map@)),
            decreases posted.rows.len() - i,
        {
            let ghost shorter = table(posted.rows@).take(i as int);
            let ghost longer = table(posted.rows@).take(i + 1);
            assert(longer.drop_last() == shorter);
            assert(longer.last() == texts(posted.rows@[i as int]@));
            let stock = if i < answers.len() {
                answers[i]
            } else {
                None
            };
            match Self::from_row(&posted.rows[i], i + 1, stock) {
                Ok(record) => {
                    let ghost before = map@;
                    let sku = record.sku.clone();
                    map.insert(sku, record);
                    assert(posted_views(map@) =~= posted_views(before).insert(
                        record@.sku,
                        record@,
                    ));
                },
                Err(e) => {
                    proof {
                        assert(posted_records(longer, answers@) == Err::<
                            Map<Seq<char>, PostedView>,
                            ErrorView,
                        >(e@));
                        lemma_posted_error_stays(table(posted.rows@), answers@, i + 1);
                    }
                    return Err(e);
                },
            }
            i += 1;
        }
        assert(table(posted.rows@).take(i as int) == table(posted.rows@));
        match posted.failure {
            Some(e) => Err(AbcParseError::CsvError(e)),
            None => Ok(map),
        }
    }
}

/// The records of rows that give no error are filed each under its own sku.
pub proof fn lemma_posted_records_are_filed(
    rows: Seq<Seq<Seq<char>>>,
    answers: Seq<Option<Quantity>>,
)
    ensures
        posted_records(rows, answers) matches Ok(records) ==> {
            &&& records.dom().finite()
            &&& forall|sku: Seq<char>|
                records.contains_key(sku) ==> (#[trigger] records[sku]).sku == sku
        },
    decreases rows.len(),
{
    if rows.len() > 0 {
        lemma_posted_records_are_filed(rows.drop_last(), answers);
    }
}

} // verus!

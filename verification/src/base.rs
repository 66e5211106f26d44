//! The `item.data` file: description, prices, barcodes, group, weight and alternate skus.
use vstd::prelude::*;
use rust_decimal::Decimal;
use crate::barcode::{codes, normalized, present, upc_candidates, upc_candidates_of, Barcode};
use crate::error::{AbcParseError, ErrorView};
use crate::price::{decimal_reading, price_error_message, price_from_str, price_or_error, price_text};
use crate::product::text_of;
use crate::quantity::Quantity;
use crate::rows::{column_of, field, table, Rows};
use crate::sku_map::BySku;
use crate::text::texts;

verus! {

/// The column of the sku.
pub const SKU_COLUMN: usize = 0;

/// The column of the description.
pub const DESC_COLUMN: usize = 1;

/// The column of the list price.
pub const LIST_COLUMN: usize = 6;

/// The column of the cost.
pub const COST_COLUMN: usize = 8;

/// The column of the discount group.
pub const GROUP_COLUMN: usize = 18;

/// The column of the first of the three alternate skus.
pub const FIRST_ALT_SKU_COLUMN: usize = 40;

/// The column of the barcodes: digit runs with commas between.
pub const UPC_COLUMN: usize = 43;

/// The column of the weight.
pub const WEIGHT_COLUMN: usize = 45;

/// What can be had of a product from the `item.data` file alone. Together with the
/// record of the same sku from the `item_posted.data` file it makes a product.
pub struct IntermediateBaseProduct {
    pub sku: String,
    pub desc: String,
    pub upcs: Vec<Barcode>,
    pub list: Decimal,
    pub cost: Decimal,
    pub group: Option<String>,
    pub weight: Option<Quantity>,
    pub alt_skus: Vec<String>,
}

/// A base record as contracts speak of it.
pub struct BaseView {
    pub sku: Seq<char>,
    pub desc: Seq<char>,
    pub upcs: Seq<Seq<char>>,
    pub list: Decimal,
    pub cost: Decimal,
    pub group: Option<Seq<char>>,
    pub weight: Option<Quantity>,
    pub alt_skus: Seq<Seq<char>>,
}

impl View for IntermediateBaseProduct {
    type V = BaseView;

    open spec fn view(&self) -> BaseView {
        BaseView {
            sku: self.sku@,
            desc: self.desc@,
            upcs: codes(self.upcs@),
            list: self.list,
            cost: self.cost,
            group: text_of(self.group),
            weight: self.weight,
            alt_skus: texts(self.alt_skus@),
        }
    }
}

/// What the library cannot work out of a row by itself, and asks for: the text of the
/// weight column, to be read as a number, and the barcode candidates, each to be
/// normalized by the checksum routine.
pub struct BaseQuestion {
    /// The weight column, if the row has it.
    pub weight_text: Option<String>,
    /// The barcode candidates of the row, in order.
    pub upc_candidates: Vec<String>,
}

/// The answers to the [`BaseQuestion`] of a row.
pub struct BaseAnswer {
    /// The weight, if the weight column reads as a number.
    pub weight: Option<Quantity>,
    /// For each barcode candidate, in order, the barcode that the checksum routine
    /// made of it, if it made one.
    pub upcs: Vec<Option<Barcode>>,
}

/// The weight text that is asked of `row`.
pub open spec fn weight_question(row: Seq<Seq<char>>) -> Option<Seq<char>> {
    column_of(row, WEIGHT_COLUMN as int)
}

/// The barcode candidates that are asked of `row`.
pub open spec fn upc_question(row: Seq<Seq<char>>) -> Seq<Seq<char>> {
    match column_of(row, UPC_COLUMN as int) {
        Some(text) => upc_candidates(text),
        None => Seq::empty(),
    }
}

/// The weight that `answers` give for the row at `position`: none where the answers
/// end before it.
pub open spec fn weight_answer(answers: Seq<BaseAnswer>, position: int) -> Option<Quantity> {
    if 0 <= position < answers.len() {
        answers[position].weight
    } else {
        None
    }
}

/// The barcodes that `answers` give for the row at `position`, those that the
/// checksum routine could not make left out: none where the answers end before it.
pub open spec fn upc_answer(answers: Seq<BaseAnswer>, position: int) -> Seq<Seq<char>> {
    if 0 <= position < answers.len() {
        codes(present(answers[position].upcs@))
    } else {
        Seq::empty()
    }
}

/// The texts of `texts` that are not empty, in order.
pub open spec fn filled(texts: Seq<Seq<char>>) -> Seq<Seq<char>>
    decreases texts.len(),
{
    if texts.len() == 0 {
        Seq::empty()
    } else if texts.last().len() == 0 {
        filled(texts.drop_last())
    } else {
        filled(texts.drop_last()).push(texts.last())
    }
}

/// The group of a row: the text of its column, or none where that is empty.
pub open spec fn group_of(text: Seq<char>) -> Option<Seq<char>> {
    if text.len() == 0 {
        None
    } else {
        Some(text)
    }
}

/// The record of the row `row`, which is row number `index` of its file, with the
/// weight `weight` and the barcodes `upcs`.
///
/// A row that ends before the barcode column lacks the first of sku, description
/// and barcodes that it does not reach. Its list price and its cost are read
/// forgivingly; where one holds no price the error says which, list before cost. A
/// row that ends before the weight column lacks its weight. The group is absent
/// where its column is empty, and empty alternate skus are left out.
pub open spec fn base_record(
    row: Seq<Seq<char>>,
    index: usize,
    weight: Option<Quantity>,
    upcs: Seq<Seq<char>>,
) -> Result<BaseView, ErrorView> {
    if row.len() <= SKU_COLUMN {
        Err(ErrorView::MissingField("sku"@, index))
    } else if row.len() <= DESC_COLUMN {
        Err(ErrorView::MissingField("desc"@, index))
    } else if row.len() <= UPC_COLUMN {
        Err(ErrorView::MissingField("upcs"@, index))
    } else if decimal_reading(price_text(row[LIST_COLUMN as int])) is None {
        Err(ErrorView::Custom(price_error_message("list"@, index)))
    } else if decimal_reading(price_text(row[COST_COLUMN as int])) is None {
        Err(ErrorView::Custom(price_error_message("cost"@, index)))
    } else if row.len() <= WEIGHT_COLUMN {
        Err(ErrorView::MissingField("weight"@, index))
    } else {
        Ok(
            BaseView {
                sku: row[SKU_COLUMN as int],
                desc: row[DESC_COLUMN as int],
                upcs,
                list: decimal_reading(price_text(row[LIST_COLUMN as int]))->0,
                cost: decimal_reading(price_text(row[COST_COLUMN as int]))->0,
                group: group_of(row[GROUP_COLUMN as int]),
                weight,
                alt_skus: filled(
                    seq![
                        row[FIRST_ALT_SKU_COLUMN as int],
                        row[FIRST_ALT_SKU_COLUMN + 1],
                        row[FIRST_ALT_SKU_COLUMN + 2],
                    ],
                ),
            },
        )
    }
}

/// The records of `rows`, each under its sku, with `answers` holding the answers for
/// each row at the row's position. Rows are taken in file order and numbered from 1;
/// the first row that gives an error ends the extraction with that error. Of two
/// rows with one sku the later replaces the earlier.
pub open spec fn base_records(rows: Seq<Seq<Seq<char>>>, answers: Seq<BaseAnswer>) -> Result<
    Map<Seq<char>, BaseView>,
    ErrorView,
>
    decreases rows.len(),
{
    if rows.len() == 0 {
        Ok(Map::empty())
    } else {
        match base_records(rows.drop_last(), answers) {
            Err(e) => Err(e),
            Ok(earlier) => match base_record(
                rows.last(),
                rows.len() as usize,
                weight_answer(answers, rows.len() - 1),
                upc_answer(answers, rows.len() - 1),
            ) {
                Err(e) => Err(e),
                Ok(record) => Ok(earlier.insert(record.sku, record)),
            },
        }
    }
}

/// The skus of the records of `rows`, each once, in the order in which the rows
/// first name them: the order in which the base map of these rows is walked.
pub open spec fn base_skus(rows: Seq<Seq<Seq<char>>>, answers: Seq<BaseAnswer>) -> Seq<Seq<char>>
    decreases rows.len(),
{
    if rows.len() == 0 {
        Seq::empty()
    } else {
        let earlier = base_skus(rows.drop_last(), answers);
        match base_record(
            rows.last(),
            rows.len() as usize,
            weight_answer(answers, rows.len() - 1),
            upc_answer(answers, rows.len() - 1),
        ) {
            Ok(record) => if earlier.contains(record.sku) {
                earlier
            } else {
                earlier.push(record.sku)
            },
            Err(_) => earlier,
        }
    }
}

/// The outcome of extracting a file whose reader gave `rows` and then, perhaps, the
/// error `failure`: an error of a row comes first, the reader's error after all rows.
pub open spec fn base_extraction(
    rows: Seq<Seq<Seq<char>>>,
    failure: Option<csv::Error>,
    answers: Seq<BaseAnswer>,
) -> Result<Map<Seq<char>, BaseView>, ErrorView> {
    match base_records(rows, answers) {
        Err(e) => Err(e),
        Ok(records) => match failure {
            Some(e) => Err(ErrorView::CsvError(e)),
            None => Ok(records),
        },
    }
}

/// The records of `map` as contracts speak of them.
pub open spec fn base_views(map: Map<Seq<char>, IntermediateBaseProduct>) -> Map<
    Seq<char>,
    BaseView,
> {
    map.map_values(|record: IntermediateBaseProduct| record@)
}

/// The questions of each row of `rows`, in order.
pub open spec fn weight_questions(rows: Seq<Seq<Seq<char>>>) -> Seq<Option<Seq<char>>> {
    Seq::new(rows.len(), |i: int| weight_question(rows[i]))
}

/// The barcode candidates of each row of `rows`, in order.
pub open spec fn upc_questions(rows: Seq<Seq<Seq<char>>>) -> Seq<Seq<Seq<char>>> {
    Seq::new(rows.len(), |i: int| upc_question(rows[i]))
}

/// The weight texts of `questions`, in order.
pub open spec fn asked_weights(questions: Seq<BaseQuestion>) -> Seq<Option<Seq<char>>> {
    Seq::new(questions.len(), |i: int| text_of(questions[i].weight_text))
}

/// The barcode candidates of `questions`, in order.
pub open spec fn asked_upcs(questions: Seq<BaseQuestion>) -> Seq<Seq<Seq<char>>> {
    Seq::new(questions.len(), |i: int| texts(questions[i].upc_candidates@))
}

impl IntermediateBaseProduct {
    /// What has to be asked for each row of an `item.data` file before its records
    /// can be made: one question for each row, in file order.
    pub fn questions(rows: &Vec<Vec<String>>) -> (questions: Vec<BaseQuestion>)
        ensures
            asked_weights(questions@) == weight_questions(table(rows@)),
            asked_upcs(questions@) == upc_questions(table(rows@)),
    {
        let mut questions: Vec<BaseQuestion> = Vec::new();
        let mut i: usize = 0;
        while i < rows.len()
            invariant
                i <= rows.len(),
                questions.len() == i,
                forall|j: int|
                    0 <= j < i ==> text_of((#[trigger] questions@[j]).weight_text)
                        == weight_question(table(rows@)[j]),
                forall|j: int|
                    0 <= j < i ==> texts((#[trigger] questions@[j]).upc_candidates@)
                        == upc_question(table(rows@)[j]),
            decreases rows.len() - i,
        {
            let row = &rows[i];
            assert(table(rows@)[i as int] == texts(row@));
            let weight_text = match field(row, WEIGHT_COLUMN) {
                Some(text) => Some(text.clone()),
                None => None,
            };
            let upc_candidates = match field(row, UPC_COLUMN) {
                Some(text) => upc_candidates_of(text.as_str()),
                None => Vec::new(),
            };
            assert(texts(upc_candidates@) =~= upc_question(texts(row@)));
            questions.push(BaseQuestion { weight_text, upc_candidates });
            i += 1;
        }
        assert(asked_weights(questions@) =~= weight_questions(table(rows@)));
        assert(asked_upcs(questions@) =~= upc_questions(table(rows@)));
        questions
    }

    /// The alternate skus of `row`: its three alternate-sku columns, the empty ones
    /// left out.
    fn alt_skus_of(row: &Vec<String>) -> (alt_skus: Vec<String>)
        requires
            row.len() > FIRST_ALT_SKU_COLUMN + 2,
        ensures
            texts(alt_skus@) == filled(
                seq![
                    row@[FIRST_ALT_SKU_COLUMN as int]@,
                    row@[FIRST_ALT_SKU_COLUMN + 1]@,
                    row@[FIRST_ALT_SKU_COLUMN + 2]@,
                ],
            ),
    {
        let ghost three = seq![
            row@[FIRST_ALT_SKU_COLUMN as int]@,
            row@[FIRST_ALT_SKU_COLUMN + 1]@,
            row@[FIRST_ALT_SKU_COLUMN + 2]@,
        ];
        let mut alt_skus: Vec<String> = Vec::new();
        let mut k: usize = 0;
        while k < 3
            invariant
                k <= 3,
                row.len() > FIRST_ALT_SKU_COLUMN + 2,
                three == seq![
                    row@[FIRST_ALT_SKU_COLUMN as int]@,
                    row@[FIRST_ALT_SKU_COLUMN + 1]@,
                    row@[FIRST_ALT_SKU_COLUMN + 2]@,
                ],
                texts(alt_skus@) == filled(three.take(k as int)),
            decreases 3 - k,
        {
            let ghost before = texts(alt_skus@);
            let text = &row[FIRST_ALT_SKU_COLUMN + k];
            assert(three.take(k + 1).drop_last() == three.take(k as int));
            assert(three.take(k + 1).last() == text@);
            if !text.as_str().is_empty() {
                alt_skus.push(text.clone());
                assert(texts(alt_skus@) =~= before.push(text@));
            }
            k += 1;
        }
        assert(three.take(3) == three);
        alt_skus
    }

    /// Makes the record of `row`, which is row number `index` of its file, with the
    /// answers `answer` to its question, if there are any.
    pub fn from_row(row: &Vec<String>, index: usize, answer: Option<&BaseAnswer>) -> (record:
        Result<IntermediateBaseProduct, AbcParseError>)
        ensures
            match base_record(
                texts(row@),
                index,
                match answer {
                    Some(a) => a.weight,
                    None => None,
                },
                match answer {
                    Some(a) => codes(present(a.upcs@)),
                    None => Seq::empty(),
                },
            ) {
                Ok(expected) => record matches Ok(r) && r@ == expected,
                Err(expected) => record matches Err(e) && e@ == expected,
            },
    {
        let sku = match field(row, SKU_COLUMN) {
            Some(text) => text.clone(),
            None => {
                return Err(AbcParseError::MissingField("sku".to_owned(), index));
            },
        };
        let desc = match field(row, DESC_COLUMN) {
            Some(text) => text.clone(),
            None => {
                return Err(AbcParseError::MissingField("desc".to_owned(), index));
            },
        };
        if field(row, UPC_COLUMN).is_none() {
            return Err(AbcParseError::MissingField("upcs".to_owned(), index));
        }
        let upcs = match answer {
            Some(a) => normalized(&a.upcs),
            None => Vec::new(),
        };
        assert(answer is None ==> codes(upcs@) =~= Seq::<Seq<char>>::empty());
        let list = match field(row, LIST_COLUMN) {
            Some(text) => price_or_error(price_from_str(text.as_str()), "list", index)?,
            None => {
                return Err(AbcParseError::MissingField("list".to_owned(), index));
            },
        };
        let cost = match field(row, COST_COLUMN) {
            Some(text) => price_or_error(price_from_str(text.as_str()), "cost", index)?,
            None => {
                return Err(AbcParseError::MissingField("cost".to_owned(), index));
            },
        };
        if field(row, WEIGHT_COLUMN).is_none() {
            return Err(AbcParseError::MissingField("weight".to_owned(), index));
        }
        let weight = match answer {
            Some(a) => a.weight,
            None => None,
        };
        let group = match field(row, GROUP_COLUMN) {
            Some(text) => if text.as_str().is_empty() {
                None
            } else {
                Some(text.clone())
            },
            None => None,
        };
        let alt_skus = Self::alt_skus_of(row);
        Ok(IntermediateBaseProduct { sku, desc, upcs, list, cost, group, weight, alt_skus })
    }

    /// Extracts the records of an `item.data` file from its rows, with the answers
    /// to the questions of its rows: `answers` holds, at each row's position, the
    /// answers for that row, and a row beyond its end has none.
    ///
    /// Rows are taken in file order and numbered from 1. The first row that lacks a
    /// required column or holds no price ends the extraction with its error; after
    /// the last row, so does the reader's error, if it met one. Of two rows with one
    /// sku the later wins.
    pub fn parse_item_data(items: Rows, answers: &Vec<BaseAnswer>) -> (records: Result<
        BySku<IntermediateBaseProduct>,
        AbcParseError,
    >)
        ensures
            match base_extraction(table(items.rows@), items.failure, answers@) {
                Ok(expected) => records matches Ok(map) && base_views(map@) == expected
                    && map.keys() == base_skus(table(items.rows@), answers@),
                Err(expected) => records matches Err(e) && e@ == expected,
            },
    {
        let mut map: BySku<IntermediateBaseProduct> = BySku::new();
        assert(base_views(map@) =~= Map::<Seq<char>, BaseView>::empty());
        let mut i: usize = 0;
        while i < items.rows.len()
            invariant
                i <= items.rows.len(),
                base_records(table(items.rows@).take(i as int), answers@) == Ok::<
                    Map<Seq<char>, BaseView>,
                    ErrorView,
                >(base_views(map@)),
                map.keys() == base_skus(table(items.rows@).take(i as int), answers@),
            decreases items.rows.len() - i,
        {
            let ghost shorter = table(items.rows@).take(i as int);
            let ghost longer = table(items.rows@).take(i + 1);
            assert(longer.drop_last() == shorter);
            assert(longer.last() == texts(items.rows@[i as int]@));
            let answer = if i < answers.len() {
                Some(&answers[i])
            } else {
                None
            };
            match Self::from_row(&items.rows[i], i + 1, answer) {
                Ok(record) => {
                    let ghost before = map@;
                    let sku = record.sku.clone();
                    map.insert(sku, record);
                    assert(base_views(map@) =~= base_views(before).insert(record@.sku, record@));
                },
                Err(e) => {
                    proof {
                        assert(base_records(longer, answers@) == Err::<
                            Map<Seq<char>, BaseView>,
                            ErrorView,
                        >(e@));
                        lemma_base_error_stays(table(items.rows@), answers@, i + 1);
                    }
                    return Err(e);
                },
            }
            i += 1;
        }
        assert(table(items.rows@).take(i as int) == table(items.rows@));
        match items.failure {
            Some(e) => Err(AbcParseError::CsvError(e)),
            None => Ok(map),
        }
    }
}

/// An error among the first `n` rows is the error of the whole file.
pub proof fn lemma_base_error_stays(rows: Seq<Seq<Seq<char>>>, answers: Seq<BaseAnswer>, n: int)
    requires
        0 <= n <= rows.len(),
        base_records(rows.take(n), answers) is Err,
    ensures
        base_records(rows, answers) == base_records(rows.take(n), answers),
    decreases rows.len() - n,
{
    if n < rows.len() {
        assert(rows.take(n + 1).drop_last() == rows.take(n));
        lemma_base_error_stays(rows, answers, n + 1);
    } else {
        assert(rows.take(n) == rows);
    }
}

/// The records of rows that give no error are filed each under its own sku, and the
/// walk of their skus names each sku of the map once.
pub proof fn lemma_base_records_are_filed(rows: Seq<Seq<Seq<char>>>, answers: Seq<BaseAnswer>)
    ensures
        base_records(rows, answers) matches Ok(records) ==> {
            &&& records.dom().finite()
            &&& base_skus(rows, answers).no_duplicates()
            &&& base_skus(rows, answers).to_set() == records.dom()
            &&& forall|sku: Seq<char>|
                records.contains_key(sku) ==> (#[trigger] records[sku]).sku == sku
        },
    decreases rows.len(),
{
    if rows.len() > 0 {
        lemma_base_records_are_filed(rows.drop_last(), answers);
        if let Ok(records) = base_records(rows, answers) {
            let earlier = base_records(rows.drop_last(), answers)->Ok_0;
            let skus = base_skus(rows.drop_last(), answers);
            let record = base_record(
                rows.last(),
                rows.len() as usize,
                weight_answer(answers, rows.len() - 1),
                upc_answer(answers, rows.len() - 1),
            )->Ok_0;
            if skus.contains(record.sku) {
                assert(skus.to_set() =~= records.dom());
            } else {
                assert(skus.push(record.sku).to_set() =~= records.dom()) by {
                    assert forall|sku: Seq<char>|
                        skus.push(record.sku).contains(sku) <==> (skus.contains(sku) || sku
                            == record.sku) by {
                        if skus.push(record.sku).contains(sku) {
                            let i = choose|i: int|
                                0 <= i < skus.len() + 1 && skus.push(record.sku)[i] == sku;
                            if i < skus.len() {
                                assert(skus[i] == sku);
                            }
                        }
                        if skus.contains(sku) {
                            let i = choose|i: int| 0 <= i < skus.len() && skus[i] == sku;
                            assert(skus.push(record.sku)[i] == sku);
                        }
                        if sku == record.sku {
                            assert(skus.push(record.sku)[skus.len() as int] == sku);
                        }
                    }
                    assert forall|sku: Seq<char>| skus.to_set().contains(sku) <==> skus.contains(
                        sku,
                    ) by {}
                }
            }
        }
    } else {
        assert(base_skus(rows, answers).to_set() =~= Set::<Seq<char>>::empty());
    }
}

} // verus!

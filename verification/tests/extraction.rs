use abc_product::barcode::upc_candidates_of;
use abc_product::rows::field;
use abc_product::{
    read_rows, AbcParseError, Barcode, BaseAnswer, BySku, IntermediateBaseProduct,
    IntermediatePostedProduct, Quantity, Rows,
};
use chrono::NaiveDate;
use rust_decimal::Decimal;

fn line(fields: &[(usize, &str)], width: usize) -> String {
    let mut columns = vec![String::new(); width];
    for (column, text) in fields {
        columns[*column] = text.to_string();
    }
    columns.join("\t") + "\n"
}

fn number(text: &str) -> Option<Quantity> {
    text.parse::<f64>().ok().map(|n| Quantity::from_bits(n.to_bits()))
}

fn with_check_digit(code: &str) -> Option<Barcode> {
    if code.len() < 12 || code.len() > 13 || !code.bytes().all(|b| b.is_ascii_digit()) {
        return None;
    }
    let padded = format!("{:0>13}", code);
    let body = &padded[..12];
    let sum: u32 = body
        .bytes()
        .enumerate()
        .map(|(i, b)| u32::from(b - b'0') * if i % 2 == 0 { 1 } else { 3 })
        .sum();
    Barcode::from_digits(&format!("{}{}", body, (10 - sum % 10) % 10))
}

fn base_answers(rows: &Vec<Vec<String>>) -> Vec<BaseAnswer> {
    IntermediateBaseProduct::questions(rows)
        .iter()
        .map(|q| BaseAnswer {
            weight: q.weight_text.as_ref().and_then(|t| number(t)),
            upcs: q.upc_candidates.iter().map(|c| with_check_digit(c)).collect(),
        })
        .collect()
}

fn base_of(data: &str) -> Result<BySku<IntermediateBaseProduct>, AbcParseError> {
    let rows = read_rows(data.as_bytes());
    let answers = base_answers(&rows.rows);
    IntermediateBaseProduct::parse_item_data(rows, &answers)
}

fn posted_of(data: &str) -> Result<BySku<IntermediatePostedProduct>, AbcParseError> {
    let rows = read_rows(data.as_bytes());
    let answers: Vec<Option<Quantity>> = IntermediatePostedProduct::questions(&rows.rows)
        .iter()
        .map(|q| q.as_ref().and_then(|t| number(t)))
        .collect();
    IntermediatePostedProduct::parse_item_posted_data(rows, &answers)
}

fn base_line(sku: &str, list: &str, cost: &str) -> String {
    line(&[(0, sku), (1, "DESC"), (6, list), (8, cost)], 46)
}

#[test]
fn rows_are_cut_at_tabs_and_lines() {
    let read = read_rows(b"a\tb c\t\n1,2\t\t3\n");
    assert!(read.failure.is_none());
    assert_eq!(read.rows, vec![vec!["a", "b c", ""], vec!["1,2", "", "3"]]);
}

#[test]
fn first_row_is_data() {
    let read = read_rows(b"sku\tdesc\n");
    assert_eq!(read.rows, vec![vec!["sku", "desc"]]);
}

#[test]
fn empty_file_has_no_rows() {
    let read = read_rows(b"");
    assert!(read.failure.is_none());
    assert!(read.rows.is_empty());
}

#[test]
fn rows_stop_at_the_reader_error() {
    let read = read_rows(b"a\tb\nc\td\ne\n\nf\tg\n");
    assert_eq!(read.rows, vec![vec!["a", "b"], vec!["c", "d"]]);
    assert!(read.failure.is_some());
    let read = read_rows(b"a\tb\n\xff\tc\n");
    assert_eq!(read.rows, vec![vec!["a", "b"]]);
    assert!(read.failure.is_some());
}

#[test]
fn field_of_a_row() {
    let row = vec!["a".to_string(), "b".to_string()];
    assert_eq!(field(&row, 1), Some(&"b".to_string()));
    assert_eq!(field(&row, 2), None);
}

#[test]
fn base_questions_name_weight_and_candidates() {
    let data = line(&[(0, "A"), (43, "85875500014,123,0858755000147"), (45, "1.5")], 46)
        + &line(&[(0, "B")], 46);
    let rows = read_rows(data.as_bytes());
    let questions = IntermediateBaseProduct::questions(&rows.rows);
    assert_eq!(questions.len(), 2);
    assert_eq!(questions[0].weight_text, Some("1.5".to_string()));
    assert_eq!(questions[0].upc_candidates, vec!["858755000140", "0858755000147"]);
    assert_eq!(questions[0].upc_candidates, upc_candidates_of("85875500014,123,0858755000147"));
    assert_eq!(questions[1].weight_text, Some(String::new()));
    assert!(questions[1].upc_candidates.is_empty());
}

#[test]
fn base_questions_of_short_rows() {
    let rows = vec![vec!["A".to_string(); 44], vec!["B".to_string(); 3]];
    let questions = IntermediateBaseProduct::questions(&rows);
    assert_eq!(questions[0].weight_text, None);
    assert_eq!(questions[0].upc_candidates.len(), 0);
    assert_eq!(questions[1].weight_text, None);
    assert!(questions[1].upc_candidates.is_empty());
}

#[test]
fn base_record_of_a_full_row() {
    let data = line(
        &[
            (0, "123456"),
            (1, "PRODUCT A"),
            (6, "$5.99"),
            (8, "1.23 ea"),
            (18, "A"),
            (40, "ALT"),
            (41, ""),
            (42, "ALT 3"),
            (43, "85875500014,4006381333931"),
            (45, "2.5"),
        ],
        47,
    );
    let map = base_of(&data).unwrap();
    assert_eq!(map.len(), 1);
    let record = map.get("123456").unwrap();
    assert_eq!(record.sku, "123456");
    assert_eq!(record.desc, "PRODUCT A");
    assert_eq!(record.list, Decimal::new(599, 2));
    assert_eq!(record.cost, Decimal::new(123, 2));
    assert_eq!(record.group, Some("A".to_string()));
    assert_eq!(record.alt_skus, vec!["ALT", "ALT 3"]);
    assert_eq!(record.weight, number("2.5"));
    let upcs: Vec<String> = record.upcs.iter().map(|u| u.digits()).collect();
    assert_eq!(upcs, vec!["0858755000147", "4006381333931"]);
}

#[test]
fn base_record_with_absent_optional_fields() {
    let map = base_of(&line(&[(0, "K"), (1, "D"), (6, "1"), (8, "2"), (45, "heavy")], 46)).unwrap();
    let record = map.get("K").unwrap();
    assert_eq!(record.group, None);
    assert_eq!(record.weight, None);
    assert!(record.alt_skus.is_empty());
    assert!(record.upcs.is_empty());
}

#[test]
fn base_group_is_kept_as_written() {
    let map = base_of(&line(&[(0, "K"), (6, "1"), (8, "2"), (18, "xy")], 46)).unwrap();
    assert_eq!(map.get("K").unwrap().group, Some("xy".to_string()));
}

#[test]
fn base_rows_without_answers_have_no_weight_and_no_barcodes() {
    let data = line(&[(0, "K"), (6, "1"), (8, "2"), (43, "85875500014"), (45, "3")], 46);
    let map = IntermediateBaseProduct::parse_item_data(read_rows(data.as_bytes()), &vec![]).unwrap();
    let record = map.get("K").unwrap();
    assert_eq!(record.weight, None);
    assert!(record.upcs.is_empty());
}

#[test]
fn base_row_of_one_made_directly() {
    let row: Vec<String> = line(&[(0, "K"), (1, "D"), (6, "7"), (8, "8")], 46)
        .trim_end_matches('\n')
        .split('\t')
        .map(|f| f.to_string())
        .collect();
    let answer = BaseAnswer { weight: number("1"), upcs: vec![None, with_check_digit("858755000140")] };
    let record = IntermediateBaseProduct::from_row(&row, 9, Some(&answer)).unwrap();
    assert_eq!(record.weight, number("1"));
    assert_eq!(record.upcs.len(), 1);
    assert_eq!(record.upcs[0].digits(), "0858755000147");
    assert_eq!(record.cost, Decimal::new(8, 0));
}

#[test]
fn base_row_without_columns_misses_its_sku() {
    let record = IntermediateBaseProduct::from_row(&vec![], 5, None);
    assert!(matches!(record, Err(AbcParseError::MissingField(f, 5)) if f == "sku"));
}

#[test]
fn base_row_of_one_column_misses_its_description() {
    let result = base_of("only\n");
    assert!(matches!(result, Err(AbcParseError::MissingField(f, 1)) if f == "desc"));
}

#[test]
fn base_row_before_the_barcode_column_misses_its_barcodes() {
    let result = base_of(&line(&[(0, "K"), (6, "1"), (8, "2")], 43));
    assert!(matches!(result, Err(AbcParseError::MissingField(f, 1)) if f == "upcs"));
}

#[test]
fn base_row_before_the_weight_column_misses_its_weight() {
    let result = base_of(&line(&[(0, "K"), (6, "1"), (8, "2")], 45));
    assert!(matches!(result, Err(AbcParseError::MissingField(f, 1)) if f == "weight"));
}

#[test]
fn base_row_without_list_price_fails() {
    let result = base_of(&(base_line("A", "1", "1") + &base_line("B", "n/a", "x")));
    match result {
        Err(AbcParseError::Custom(context)) => {
            assert_eq!(context, "Cannot parse a price for list in row 2")
        },
        other => panic!("unexpected: {:?}", other.map(|m| m.len())),
    }
}

#[test]
fn base_row_without_cost_fails() {
    let result = base_of(&(base_line("A", "1", "1") + &base_line("B", "2", "1.2.3")));
    match result {
        Err(AbcParseError::Custom(context)) => {
            assert_eq!(context, "Cannot parse a price for cost in row 2")
        },
        other => panic!("unexpected: {:?}", other.map(|m| m.len())),
    }
}

#[test]
fn base_price_fails_before_missing_weight() {
    let result = base_of(&line(&[(0, "K"), (6, ""), (8, "2")], 45));
    assert!(matches!(result, Err(AbcParseError::Custom(_))));
}

#[test]
fn base_later_row_wins() {
    let data = base_line("A", "1", "1") + &base_line("B", "2", "2") + &base_line("A", "3", "3");
    let map = base_of(&data).unwrap();
    assert_eq!(map.len(), 2);
    assert_eq!(map.get("A").unwrap().list, Decimal::new(3, 0));
    assert_eq!(map.get("B").unwrap().list, Decimal::new(2, 0));
    assert_eq!(map.skus(), vec!["A", "B"]);
}

#[test]
fn base_row_error_comes_before_reader_error() {
    let data = base_line("A", "bad", "1") + "short\n";
    assert!(matches!(base_of(&data), Err(AbcParseError::Custom(_))));
}

#[test]
fn base_reader_error_is_passed_on() {
    let data = base_line("A", "1", "1") + "short\n";
    match base_of(&data) {
        Err(AbcParseError::CsvError(error)) => {
            assert!(matches!(error.kind(), csv::ErrorKind::UnequalLengths { .. }))
        },
        other => panic!("unexpected: {:?}", other.map(|m| m.len())),
    }
}

#[test]
fn reader_error_converts_into_import_error() {
    let failure = read_rows(b"a\tb\nc\n").failure.unwrap();
    assert!(matches!(AbcParseError::from(failure), AbcParseError::CsvError(_)));
}

#[test]
fn posted_questions_name_the_stock_column() {
    let data = line(&[(0, "A"), (19, "4.0")], 20) + &line(&[(0, "B"), (19, "")], 20);
    let rows = read_rows(data.as_bytes());
    assert_eq!(
        IntermediatePostedProduct::questions(&rows.rows),
        vec![Some("4.0".to_string()), Some(String::new())]
    );
    assert_eq!(IntermediatePostedProduct::questions(&vec![vec!["A".to_string(); 19]]), vec![None]);
}

#[test]
fn posted_record_of_a_full_row() {
    let map = posted_of(&line(&[(0, "123456"), (1, "2024-11-16"), (19, "0.00")], 21)).unwrap();
    let record = map.get("123456").unwrap();
    assert_eq!(record.sku, "123456");
    assert_eq!(Some(record.stock), number("0"));
    assert_eq!(record.last_sold, NaiveDate::from_ymd_opt(2024, 11, 16));
}

#[test]
fn posted_stock_may_be_negative() {
    let map = posted_of(&line(&[(0, "ABC123"), (1, ""), (19, "-6.0")], 20)).unwrap();
    let record = map.get("ABC123").unwrap();
    assert_eq!(f64::from_bits(record.stock.to_bits()), -6.0);
    assert_eq!(record.last_sold, None);
}

#[test]
fn posted_row_without_columns_misses_its_sku() {
    let record = IntermediatePostedProduct::from_row(&vec![], 2, number("1"));
    assert!(matches!(record, Err(AbcParseError::MissingField(f, 2)) if f == "sku"));
}

#[test]
fn posted_row_before_the_stock_column_misses_its_stock() {
    let data = line(&[(0, "A"), (19, "1")], 20).replace("\t1\n", "\n");
    assert_eq!(data.matches('\t').count(), 18);
    let result = posted_of(&data);
    assert!(matches!(result, Err(AbcParseError::MissingField(f, 1)) if f == "stock"));
}

#[test]
fn posted_stock_that_is_no_number_fails() {
    let data = line(&[(0, "A"), (19, "1")], 20)
        + &line(&[(0, "B"), (19, "2")], 20)
        + &line(&[(0, "C"), (19, "many")], 20);
    match posted_of(&data) {
        Err(AbcParseError::Custom(context)) => {
            assert_eq!(context, "Cannot parse a number from stock_str in row 3 of posted items")
        },
        other => panic!("unexpected: {:?}", other.map(|m| m.len())),
    }
}

#[test]
fn posted_rows_without_answers_have_no_stock() {
    let data = line(&[(0, "A"), (19, "1")], 20);
    let result = IntermediatePostedProduct::parse_item_posted_data(read_rows(data.as_bytes()), &vec![]);
    assert!(matches!(result, Err(AbcParseError::Custom(_))));
}

#[test]
fn posted_later_row_wins() {
    let data = line(&[(0, "A"), (19, "1")], 20) + &line(&[(0, "A"), (19, "2")], 20);
    let map = posted_of(&data).unwrap();
    assert_eq!(map.len(), 1);
    assert_eq!(Some(map.get("A").unwrap().stock), number("2"));
}

#[test]
fn posted_reader_error_is_passed_on() {
    let data = line(&[(0, "A"), (19, "1")], 20) + "\u{0}\tshort\n";
    assert!(matches!(posted_of(&data), Err(AbcParseError::CsvError(_))));
}

#[test]
fn rows_can_be_handed_over_without_a_file() {
    let rows = Rows { rows: vec![vec!["A".to_string(); 20]], failure: None };
    let result = IntermediatePostedProduct::parse_item_posted_data(rows, &vec![number("3")]);
    assert_eq!(Some(result.unwrap().get("A").unwrap().stock), number("3"));
}

#[test]
fn map_by_sku_replaces_and_finds() {
    let mut map: BySku<u32> = BySku::new();
    assert_eq!(map.len(), 0);
    assert!(map.get("a").is_none());
    map.insert("a".to_string(), 1);
    map.insert("b".to_string(), 2);
    map.insert("a".to_string(), 3);
    assert_eq!(map.len(), 2);
    assert_eq!(map.get("a"), Some(&3));
    assert_eq!(map.get("b"), Some(&2));
    assert!(map.contains_key("b"));
    assert!(!map.contains_key("c"));
    assert_eq!(map.skus(), vec!["a", "b"]);
    assert_eq!(map.entry_at(1).map(|e| (e.sku.as_str(), e.value)), Some(("b", 2)));
    assert!(map.entry_at(2).is_none());
}

use abc_product::{AbcParseError, AbcProduct, AbcProductBuilder, Barcode, Quantity};
use chrono::NaiveDate;
use rust_decimal::Decimal;

fn amount(value: f64) -> Quantity {
    Quantity::from_bits(value.to_bits())
}

fn complete() -> AbcProductBuilder {
    AbcProduct::new()
        .with_sku("abc-123")
        .with_desc("Test product")
        .with_list(Decimal::new(199, 2))
        .with_cost(Decimal::new(99, 2))
        .with_stock(amount(1.0))
}

fn missing_field(result: Result<AbcProduct, AbcParseError>) -> (String, usize) {
    match result {
        Err(AbcParseError::MissingField(field, row)) => (field, row),
        Err(other) => panic!("another error: {:?}", other),
        Ok(_) => panic!("built without a required field"),
    }
}

#[test]
fn build_with_required_fields_only() {
    let product = complete().build().unwrap();
    assert_eq!(product.sku(), "abc-123");
    assert_eq!(product.desc(), "Test product");
    assert_eq!(product.list(), Decimal::new(199, 2));
    assert_eq!(product.cost(), Decimal::new(99, 2));
    assert_eq!(f64::from_bits(product.stock().to_bits()), 1.0);
    assert!(product.upcs().is_empty());
    assert_eq!(product.group(), None);
    assert_eq!(product.weight(), None);
    assert_eq!(product.last_sold(), None);
    assert!(product.alt_skus().is_empty());
}

#[test]
fn build_without_sku_names_sku() {
    let builder = AbcProduct::new()
        .with_desc("d")
        .with_list(Decimal::new(1, 0))
        .with_cost(Decimal::new(1, 0))
        .with_stock(amount(1.0));
    assert_eq!(missing_field(builder.build()), ("sku".to_string(), 0));
}

#[test]
fn build_without_desc_names_desc() {
    let builder = AbcProduct::new()
        .with_sku("s")
        .with_list(Decimal::new(1, 0))
        .with_cost(Decimal::new(1, 0))
        .with_stock(amount(1.0));
    assert_eq!(missing_field(builder.build()), ("desc".to_string(), 0));
}

#[test]
fn build_without_list_names_list() {
    let builder = AbcProduct::new()
        .with_sku("s")
        .with_desc("d")
        .with_cost(Decimal::new(1, 0))
        .with_stock(amount(1.0));
    assert_eq!(missing_field(builder.build()), ("list".to_string(), 0));
}

#[test]
fn build_without_cost_names_cost() {
    let builder = AbcProduct::new()
        .with_sku("s")
        .with_desc("d")
        .with_list(Decimal::new(1, 0))
        .with_stock(amount(1.0));
    assert_eq!(missing_field(builder.build()), ("cost".to_string(), 0));
}

#[test]
fn build_without_stock_names_stock() {
    let builder = AbcProduct::new()
        .with_sku("s")
        .with_desc("d")
        .with_list(Decimal::new(1, 0))
        .with_cost(Decimal::new(1, 0));
    assert_eq!(missing_field(builder.build()), ("stock".to_string(), 0));
}

#[test]
fn build_of_empty_builder_names_the_first_missing_field() {
    assert_eq!(missing_field(AbcProduct::new().build()), ("sku".to_string(), 0));
    assert_eq!(missing_field(AbcProductBuilder::new().with_sku("s").build()), ("desc".to_string(), 0));
}

#[test]
fn group_takes_capital_letters() {
    let product = complete().with_group('Q').unwrap().build().unwrap();
    assert_eq!(product.group(), Some("Q".to_string()));
}

#[test]
fn group_turns_small_letters_into_capitals() {
    let product = complete().with_group('a').unwrap().build().unwrap();
    assert_eq!(product.group(), Some("A".to_string()));
    let product = complete().with_group('z').unwrap().build().unwrap();
    assert_eq!(product.group(), Some("Z".to_string()));
}

#[test]
fn group_refuses_what_is_no_letter() {
    assert!(complete().with_group('1').is_none());
    assert!(complete().with_group(' ').is_none());
    assert!(complete().with_group('@').is_none());
    assert!(complete().with_group('[').is_none());
    assert!(complete().with_group('`').is_none());
    assert!(complete().with_group('{').is_none());
    assert!(complete().with_group('é').is_none());
}

#[test]
fn optional_fields_are_kept() {
    let day = NaiveDate::from_ymd_opt(2024, 11, 16).unwrap();
    let first = Barcode::from_digits("0858755000147").unwrap();
    let second = Barcode::from_digits("4006381333931").unwrap();
    let product = complete()
        .with_weight(amount(2.5))
        .with_last_sold(day)
        .add_upc(first)
        .add_upc(second)
        .add_alt_sku("ALT")
        .add_alt_sku("ALT")
        .build()
        .unwrap();
    assert_eq!(product.weight().map(|w| f64::from_bits(w.to_bits())), Some(2.5));
    assert_eq!(product.last_sold(), Some(day));
    let upcs: Vec<String> = product.upcs().iter().map(|u| u.digits()).collect();
    assert_eq!(upcs, vec!["0858755000147".to_string(), "4006381333931".to_string()]);
    assert_eq!(product.alt_skus(), vec!["ALT".to_string(), "ALT".to_string()]);
}

#[test]
fn lists_can_be_set_whole() {
    let product = complete()
        .add_alt_sku("dropped")
        .with_alt_skus(&["A".to_string(), "B".to_string()])
        .add_upc(Barcode::from_digits("4006381333931").unwrap())
        .with_upcs(vec![Barcode::from_digits("0858755000147").unwrap()])
        .build()
        .unwrap();
    assert_eq!(product.alt_skus(), vec!["A".to_string(), "B".to_string()]);
    let upcs: Vec<String> = product.upcs().iter().map(|u| u.digits()).collect();
    assert_eq!(upcs, vec!["0858755000147".to_string()]);
}

#[test]
fn later_settings_replace_earlier_ones() {
    let product = complete().with_sku("other").with_stock(amount(-6.0)).build().unwrap();
    assert_eq!(product.sku(), "other");
    assert_eq!(f64::from_bits(product.stock().to_bits()), -6.0);
}

#[test]
fn rebuilding_from_a_product_gives_the_product_again() {
    let day = NaiveDate::from_ymd_opt(2019, 5, 28).unwrap();
    let product = complete()
        .with_group('b')
        .unwrap()
        .with_weight(amount(0.75))
        .with_last_sold(day)
        .add_upc(Barcode::from_digits("0858755000147").unwrap())
        .add_alt_sku("ALT SKU")
        .build()
        .unwrap();
    let again = AbcProductBuilder::from(product.clone()).build().unwrap();
    assert_eq!(again.sku(), product.sku());
    assert_eq!(again.desc(), product.desc());
    assert_eq!(again.list(), product.list());
    assert_eq!(again.cost(), product.cost());
    assert_eq!(again.stock(), product.stock());
    assert_eq!(again.group(), Some("B".to_string()));
    assert_eq!(again.weight(), product.weight());
    assert_eq!(again.last_sold(), Some(day));
    assert_eq!(again.alt_skus(), vec!["ALT SKU".to_string()]);
    let upcs: Vec<String> = again.upcs().iter().map(|u| u.digits()).collect();
    assert_eq!(upcs, vec!["0858755000147".to_string()]);
    let third = AbcProductBuilder::from_product(again).build().unwrap();
    assert_eq!(third.sku(), product.sku());
    assert_eq!(third.group(), product.group());
}

#[test]
fn quantity_keeps_its_bits() {
    assert_eq!(Quantity::from_bits(0x4004_0000_0000_0000).to_bits(), 0x4004_0000_0000_0000);
    assert_eq!(Quantity::from_bits((-0.0f64).to_bits()).to_bits(), 1u64 << 63);
}

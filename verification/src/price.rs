//! Prices: forgiving cleanup of the export's price columns, and their exact parse.
use vstd::prelude::*;
use vstd::string::StringExecFns;
use rust_decimal::Decimal;
use crate::error::{AbcParseError, ErrorView};
use crate::text::{chars_of, char_is_digit, decimal_string, decimal_text, is_digit, string_of};

verus! {

/// The decimal number of `rust_decimal`. Prices are carried in it and never opened.
#[verifier::external_type_specification]
#[verifier::external_body]
pub struct ExDecimal(rust_decimal::Decimal);

/// The error of `rust_decimal`. It is handed on as it came.
#[verifier::external_type_specification]
#[verifier::external_body]
pub struct ExDecimalError(rust_decimal::Error);

/// `c` may stand in a price: a digit, or the decimal point.
pub open spec fn is_price_char(c: char) -> bool {
    is_digit(c) || c == '.'
}

/// A price column without the characters that are neither digit nor decimal point.
pub open spec fn price_text(raw: Seq<char>) -> Seq<char> {
    raw.filter(|c: char| is_price_char(c))
}

/// The number of decimal points in `text`.
pub open spec fn points(text: Seq<char>) -> nat {
    text.filter(|c: char| c == '.').len()
}

/// The number of digits in `text`.
pub open spec fn digits(text: Seq<char>) -> nat {
    text.filter(|c: char| is_digit(c)).len()
}

/// `text` holds nothing but digits and decimal points.
pub open spec fn is_clean(text: Seq<char>) -> bool {
    forall|i: int| 0 <= i < text.len() ==> is_price_char(#[trigger] text[i])
}

/// Cleaning leaves a text of digits and decimal points as it is.
pub proof fn lemma_clean_text_is_kept(text: Seq<char>)
    requires
        is_clean(text),
    ensures
        price_text(text) == text,
    decreases text.len(),
{
    reveal(Seq::filter);
    if text.len() > 0 {
        lemma_clean_text_is_kept(text.drop_last());
        assert(is_price_char(text[text.len() - 1]));
        assert(text.drop_last().push(text.last()) == text);
    }
}

/// Cleaning leaves nothing of a text that holds neither digit nor decimal point.
pub proof fn lemma_noise_leaves_nothing(noise: Seq<char>)
    requires
        forall|i: int| 0 <= i < noise.len() ==> !is_price_char(#[trigger] noise[i]),
    ensures
        price_text(noise) == Seq::<char>::empty(),
    decreases noise.len(),
{
    reveal(Seq::filter);
    if noise.len() > 0 {
        lemma_noise_leaves_nothing(noise.drop_last());
        assert(!is_price_char(noise[noise.len() - 1]));
    }
}

/// Characters that are neither digit nor decimal point are discarded wherever they
/// stand: a text reads as it would without them.
pub proof fn lemma_noise_is_discarded(before: Seq<char>, noise: Seq<char>, after: Seq<char>)
    requires
        forall|i: int| 0 <= i < noise.len() ==> !is_price_char(#[trigger] noise[i]),
    ensures
        price_text(before + noise + after) == price_text(before + after),
{
    let kept = |c: char| is_price_char(c);
    lemma_noise_leaves_nothing(noise);
    Seq::filter_distributes_over_add(before + noise, after, kept);
    Seq::filter_distributes_over_add(before, noise, kept);
    Seq::filter_distributes_over_add(before, after, kept);
    assert(before.filter(kept) + Seq::<char>::empty() == before.filter(kept));
}

/// The decimal number that `rust_decimal` reads from `text`, if it reads one.
pub uninterp spec fn decimal_reading(text: Seq<char>) -> Option<Decimal>;

/// Calls `Decimal::from_str` of `rust_decimal` through `str::parse`.
///
/// The result is `decimal_reading` of the text. Of that reading the contract claims
/// what the parser's dispatch shows. No number is read from the empty text, and none
/// from a text of digits and decimal points that holds two points or more. A number
/// is read from a text of digits and at most one decimal point that holds a digit
/// and is shorter than eighteen characters, the length from which the parser begins
/// to guard against overflow.
#[verifier::external_body]
fn parse_decimal(text: &str) -> (parsed: Result<Decimal, rust_decimal::Error>)
    ensures
        parsed is Ok <==> decimal_reading(text@) is Some,
        parsed matches Ok(d) ==> decimal_reading(text@) == Some(d),
        text@.len() == 0 ==> parsed is Err,
        is_clean(text@) && points(text@) >= 2 ==> parsed is Err,
        is_clean(text@) && text@.len() < 18 && points(text@) <= 1 && digits(text@) >= 1
            ==> parsed is Ok,
{
    text.parse::<Decimal>()
}

/// The characters of `raw` that may stand in a price.
fn price_chars(raw: &Vec<char>) -> (kept: Vec<char>)
    ensures
        kept@ == price_text(raw@),
        is_clean(kept@),
{
    let mut kept: Vec<char> = Vec::new();
    let mut i: usize = 0;
    proof {
        reveal(Seq::filter);
    }
    while i < raw.len()
        invariant
            i <= raw.len(),
            kept@ == price_text(raw@.take(i as int)),
            is_clean(kept@),
        decreases raw.len() - i,
    {
        proof {
            reveal(Seq::filter);
            assert(raw@.take(i + 1).drop_last() == raw@.take(i as int));
        }
        let c = raw[i];
        if char_is_digit(c) || c == '.' {
            kept.push(c);
        }
        i += 1;
    }
    assert(raw@.take(i as int) == raw@);
    kept
}

/// Reads a price from a column of the export, forgivingly: every character that is
/// neither a digit nor a decimal point is discarded (currency signs, thousands
/// separators, blanks, stray markup), and what is left is parsed as an exact decimal.
///
/// The price is the decimal reading of the cleaned text. There is none, and the
/// parser's error is returned, where nothing is left after cleaning and where two or
/// more decimal points are left. There is one where a digit is left, at most one
/// decimal point, and fewer than eighteen characters in all.
pub fn price_from_str(price_str: &str) -> (price: Result<Decimal, rust_decimal::Error>)
    ensures
        price is Ok <==> decimal_reading(price_text(price_str@)) is Some,
        price matches Ok(d) ==> decimal_reading(price_text(price_str@)) == Some(d),
        price_text(price_str@).len() == 0 ==> price is Err,
        points(price_text(price_str@)) >= 2 ==> price is Err,
        price_text(price_str@).len() < 18 && points(price_text(price_str@)) <= 1 && digits(
            price_text(price_str@),
        ) >= 1 ==> price is Ok,
{
    let raw = chars_of(price_str);
    let kept = price_chars(&raw);
    let cleaned = string_of(&kept);
    parse_decimal(cleaned.as_str())
}

/// The sentence for a price column that holds no price.
pub open spec fn price_error_message(field: Seq<char>, row: usize) -> Seq<char> {
    "Cannot parse a price for "@ + field + " in row "@ + decimal_text(row as nat)
}

/// Turns the outcome of reading the price column `field` of row `row` into the
/// outcome of the import: the price, or a custom error that names column and row.
pub fn price_or_error(
    parsed: Result<Decimal, rust_decimal::Error>,
    field: &str,
    row: usize,
) -> (price: Result<Decimal, AbcParseError>)
    ensures
        match parsed {
            Ok(d) => price == Ok::<Decimal, AbcParseError>(d),
            Err(_) => price matches Err(e) && e@ == ErrorView::Custom(
                price_error_message(field@, row),
            ),
        },
{
    match parsed {
        Ok(d) => Ok(d),
        Err(_) => {
            let mut context = "Cannot parse a price for ".to_owned();
            context.append(field);
            context.append(" in row ");
            context.append(decimal_string(row).as_str());
            Err(AbcParseError::Custom(context))
        },
    }
}

} // verus!

use card_lookup::card::{parse_card, parse_card_numbers, Card, Expiration, ParsePaymentInfoError};
use card_lookup::lookup::{get_credit_card_info, CreditCardError};
use card_lookup::number::{parse_u32, NumberError};
use card_lookup::table::CardTable;
use card_lookup::text::{decimal_text, list_text_of};
use card_lookup::tokens::split_on_spaces;

fn sample_table() -> CardTable {
    let mut t = CardTable::new();
    t.insert("Amy", "1234567 04 25 123");
    t.insert("Tim", "1234567 06 27");
    t.insert("Bob", "1234567 Dec 27 123");
    t
}

#[test]
fn amy_gets_her_card() {
    let r = get_credit_card_info(&sample_table(), "Amy");
    assert_eq!(
        r,
        Ok(Card { number: 1234567, exp: Expiration { year: 25, month: 4 }, cvv: 123 })
    );
}

#[test]
fn tim_has_three_numbers() {
    let r = get_credit_card_info(&sample_table(), "Tim");
    assert_eq!(
        r,
        Err(CreditCardError::Other(
            "Tim's card could not be parsed <- Incorrect number of elements parsed <- expected `4` but got `3` <- elements: `[1234567, 6, 27]`".to_string()
        ))
    );
}

#[test]
fn bob_has_a_month_name() {
    let r = get_credit_card_info(&sample_table(), "Bob");
    assert_eq!(
        r,
        Err(CreditCardError::Other(
            "Bob's card could not be parsed <- Failed to parse input `1234567 Dec 27 123` as numbers <- `Dec` could not be parsed as u32 <- invalid digit found in string".to_string()
        ))
    );
}

#[test]
fn carol_is_not_in_the_table() {
    let r = get_credit_card_info(&sample_table(), "Carol");
    assert_eq!(
        r,
        Err(CreditCardError::InvalidInput("No credit card was found for Carol.".to_string()))
    );
}

#[test]
fn absent_name_is_named_in_the_error() {
    let r = get_credit_card_info(&CardTable::new(), "amy");
    assert_eq!(
        r,
        Err(CreditCardError::InvalidInput("No credit card was found for amy.".to_string()))
    );
}

#[test]
fn malformed_entry_is_never_invalid_input() {
    let mut t = CardTable::new();
    t.insert("Eve", "1 2 3 4 5");
    t.insert("Dan", "");
    assert!(matches!(get_credit_card_info(&t, "Eve"), Err(CreditCardError::Other(_))));
    assert!(matches!(get_credit_card_info(&t, "Dan"), Err(CreditCardError::Other(_))));
}

#[test]
fn four_numbers_fill_the_fields_in_order() {
    assert_eq!(
        parse_card("9 8 7 6"),
        Ok(Card { number: 9, exp: Expiration { year: 7, month: 8 }, cvv: 6 })
    );
    assert_eq!(
        parse_card("+0 13 4294967295 000"),
        Ok(Card { number: 0, exp: Expiration { year: 4294967295, month: 13 }, cvv: 0 })
    );
}

#[test]
fn wrong_count_reports_the_true_count() {
    assert_eq!(
        parse_card("1 2 3 4 5"),
        Err(ParsePaymentInfoError::Other { expected: 4, actual: 5, elements: vec![1, 2, 3, 4, 5] })
    );
    assert_eq!(
        parse_card("42"),
        Err(ParsePaymentInfoError::Other { expected: 4, actual: 1, elements: vec![42] })
    );
}

#[test]
fn bad_token_is_named() {
    assert_eq!(
        parse_card("1 2 x3 y"),
        Err(ParsePaymentInfoError::ParseError {
            input: "1 2 x3 y".to_string(),
            token: "x3".to_string(),
            reason: NumberError::InvalidDigit,
        })
    );
    assert_eq!(
        parse_card_numbers("1  2"),
        Err(ParsePaymentInfoError::ParseError {
            input: "1  2".to_string(),
            token: "".to_string(),
            reason: NumberError::Empty,
        })
    );
}

#[test]
fn numbers_are_read_in_order() {
    assert_eq!(parse_card_numbers("10 020 3"), Ok(vec![10, 20, 3]));
}

#[test]
fn parse_error_message_text() {
    let e = ParsePaymentInfoError::ParseError {
        input: "7 99999999999".to_string(),
        token: "99999999999".to_string(),
        reason: NumberError::PosOverflow,
    };
    assert_eq!(parse_card("7 99999999999"), Err(e.clone()));
    assert_eq!(
        e.message(),
        "Failed to parse input `7 99999999999` as numbers <- `99999999999` could not be parsed as u32 <- number too large to fit in target type"
    );
}

#[test]
fn count_error_message_text() {
    let e = ParsePaymentInfoError::Other { expected: 4, actual: 0, elements: vec![] };
    assert_eq!(
        e.message(),
        "Incorrect number of elements parsed <- expected `4` but got `0` <- elements: `[]`"
    );
}

#[test]
fn u32_tokens() {
    assert_eq!(parse_u32(""), Err(NumberError::Empty));
    assert_eq!(parse_u32("+"), Err(NumberError::InvalidDigit));
    assert_eq!(parse_u32("-1"), Err(NumberError::InvalidDigit));
    assert_eq!(parse_u32(" 1"), Err(NumberError::InvalidDigit));
    assert_eq!(parse_u32("+7"), Ok(7));
    assert_eq!(parse_u32("04"), Ok(4));
    assert_eq!(parse_u32("4294967295"), Ok(4294967295));
    assert_eq!(parse_u32("4294967296"), Err(NumberError::PosOverflow));
    assert_eq!(parse_u32("99999999999x"), Err(NumberError::PosOverflow));
    assert_eq!(parse_u32("12x99999999999"), Err(NumberError::InvalidDigit));
}

#[test]
fn u32_tokens_agree_with_std() {
    for t in ["", "+", "-", "-0", "+12", "0", "007", "4294967295", "4294967296", "1a", "é"] {
        let ours = parse_u32(t);
        let std_result = t.parse::<u32>();
        assert_eq!(ours.is_ok(), std_result.is_ok(), "{t}");
        if let (Ok(a), Ok(b)) = (ours, std_result) {
            assert_eq!(a, b);
        }
    }
}

#[test]
fn split_keeps_empty_pieces() {
    assert_eq!(split_on_spaces("a  b"), vec!["a", "", "b"]);
    assert_eq!(split_on_spaces(""), vec![""]);
    assert_eq!(split_on_spaces(" x "), vec!["", "x", ""]);
    assert_eq!(split_on_spaces("1234567 06 27"), vec!["1234567", "06", "27"]);
}

#[test]
fn numbers_in_decimal() {
    assert_eq!(decimal_text(0), "0");
    assert_eq!(decimal_text(4294967295), "4294967295");
    assert_eq!(list_text_of(&vec![]), "[]");
    assert_eq!(list_text_of(&vec![1234567, 6, 27]), "[1234567, 6, 27]");
}

#[test]
fn insert_replaces_an_entry() {
    let mut t = CardTable::new();
    t.insert("Amy", "1 2 3");
    t.insert("Amy", "1 2 3 4");
    assert_eq!(t.get("Amy"), Some("1 2 3 4"));
    assert_eq!(t.get("Bob"), None);
}

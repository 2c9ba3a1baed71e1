use vstd::prelude::*;
use vstd::string::StringExecFns;
use crate::number::{NumberError, parse_u32, parse_u32_spec, reason_text};
use crate::text::{decimal, decimal_text, lemma_parse_decimal, list_text, list_text_of};
use crate::tokens::{lemma_split_append_piece, lemma_split_single, split_on_spaces, split_spaces};

verus! {

/// When a card runs out. Neither field is checked against the calendar.
#[derive(Debug, Clone, Copy, PartialEq, Eq)]
pub struct Expiration {
    pub year: u32,
    pub month: u32,
}

#[derive(Debug, Clone, Copy, PartialEq, Eq)]
pub struct Card {
    pub number: u32,
    pub exp: Expiration,
    pub cvv: u32,
}

/// Why a stored card text could not be made into a `Card`.
#[derive(Debug, Clone, PartialEq, Eq)]
pub enum ParsePaymentInfoError {
    /// `token`, a piece of `input`, is no `u32`, for `reason`.
    ParseError { input: String, token: String, reason: NumberError },
    /// The text held `actual` numbers, `elements`, where `expected` were due.
    Other { expected: usize, actual: usize, elements: Vec<u32> },
}

/// The number of fields that a stored card text holds.
pub const CARD_FIELDS: usize = 4;

/// Every piece reads as a `u32`.
pub open spec fn tokens_valid(toks: Seq<Seq<char>>) -> bool {
    forall|i: int| 0 <= i < toks.len() ==> (#[trigger] parse_u32_spec(toks[i])) is Ok
}

/// The values of the pieces, where all of them read as a `u32`.
pub open spec fn token_values(toks: Seq<Seq<char>>) -> Seq<u32> {
    toks.map_values(|t: Seq<char>| parse_u32_spec(t)->Ok_0)
}

/// Piece `i` is the first one that is no `u32`.
pub open spec fn is_first_bad(toks: Seq<Seq<char>>, i: int) -> bool {
    &&& 0 <= i < toks.len()
    &&& parse_u32_spec(toks[i]) is Err
    &&& forall|j: int| 0 <= j < i ==> (#[trigger] parse_u32_spec(toks[j])) is Ok
}

/// `e` reports the first piece of `card` that is no `u32`, with the reason.
pub open spec fn reports_bad_token(card: Seq<char>, e: ParsePaymentInfoError) -> bool {
    match e {
        ParsePaymentInfoError::ParseError { input, token, reason } => {
            &&& input@ == card
            &&& exists|i: int| #[trigger]
                is_first_bad(split_spaces(card), i) && token@ == split_spaces(card)[i]
            &&& parse_u32_spec(token@) == Err::<u32, NumberError>(reason)
        },
        ParsePaymentInfoError::Other { .. } => false,
    }
}

/// `e` reports that the pieces of `card` are numbers, but not `CARD_FIELDS` of them.
pub open spec fn reports_wrong_count(card: Seq<char>, e: ParsePaymentInfoError) -> bool {
    match e {
        ParsePaymentInfoError::Other { expected, actual, elements } => {
            &&& expected == CARD_FIELDS
            &&& actual == split_spaces(card).len()
            &&& elements@ == token_values(split_spaces(card))
        },
        ParsePaymentInfoError::ParseError { .. } => false,
    }
}

/// The card whose fields are `v` in the order number, month, year, cvv.
pub open spec fn card_of(v: Seq<u32>) -> Card {
    Card { number: v[0], exp: Expiration { year: v[2], month: v[1] }, cvv: v[3] }
}

/// What `parse_card` makes of `card`, where it succeeds.
pub open spec fn parsed_card(card: Seq<char>) -> Option<Card> {
    let toks = split_spaces(card);
    if tokens_valid(toks) && toks.len() == CARD_FIELDS {
        Some(card_of(token_values(toks)))
    } else {
        None
    }
}

/// `c` written as its number, expiry month, expiry year and cvv, in decimal
/// and one space apart.
pub open spec fn card_text(c: Card) -> Seq<char> {
    decimal(c.number as nat) + seq![' '] + decimal(c.exp.month as nat) + seq![' '] + decimal(
        c.exp.year as nat,
    ) + seq![' '] + decimal(c.cvv as nat)
}

/// Four numbers written in decimal, one space apart, build the card that has
/// them as its number, expiry month, expiry year and cvv, in that order.
pub proof fn law_card_text_round_trip(c: Card)
    ensures
        parsed_card(card_text(c)) == Some(c),
{
    let d0 = decimal(c.number as nat);
    let d1 = decimal(c.exp.month as nat);
    let d2 = decimal(c.exp.year as nat);
    let d3 = decimal(c.cvv as nat);
    lemma_parse_decimal(c.number);
    lemma_parse_decimal(c.exp.month);
    lemma_parse_decimal(c.exp.year);
    lemma_parse_decimal(c.cvv);
    lemma_split_single(d0);
    let x1 = d0 + seq![' '] + d1;
    lemma_split_append_piece(d0, d1);
    let x2 = x1 + seq![' '] + d2;
    lemma_split_append_piece(x1, d2);
    lemma_split_append_piece(x2, d3);
    let toks = split_spaces(card_text(c));
    assert(toks =~= seq![d0, d1, d2, d3]);
    assert(tokens_valid(toks));
    let v = token_values(toks);
    assert(v[0] == c.number && v[1] == c.exp.month && v[2] == c.exp.year && v[3] == c.cvv);
}

/// Reads every space-separated piece of `card` as a `u32`.
pub fn parse_card_numbers(card: &str) -> (r: Result<Vec<u32>, ParsePaymentInfoError>)
    ensures
        r is Ok <==> tokens_valid(split_spaces(card@)),
        r matches Ok(v) ==> v@ == token_values(split_spaces(card@)),
        r matches Err(e) ==> reports_bad_token(card@, e),
{
    let pieces = split_on_spaces(card);
    let ghost toks = split_spaces(card@);
    let mut numbers: Vec<u32> = Vec::new();
    let mut i: usize = 0;
    while i < pieces.len()
        invariant
            i <= pieces@.len(),
            pieces@.map_values(|t: &str| t@) == toks,
            toks == split_spaces(card@),
            numbers@.len() == i,
            forall|j: int| 0 <= j < i ==> (#[trigger] parse_u32_spec(toks[j])) is Ok,
            forall|j: int| 0 <= j < i ==> numbers@[j] == parse_u32_spec(toks[j])->Ok_0,
        decreases pieces@.len() - i,
    {
        let piece = pieces[i];
        assert(toks[i as int] == piece@);
        match parse_u32(piece) {
            Ok(n) => {
                numbers.push(n);
            },
            Err(reason) => {
                assert(is_first_bad(toks, i as int));
                return Err(
                    ParsePaymentInfoError::ParseError {
                        input: card.to_owned(),
                        token: piece.to_owned(),
                        reason,
                    },
                );
            },
        }
        i = i + 1;
    }
    assert(numbers@ =~= token_values(toks));
    Ok(numbers)
}

/// Builds the card that `card` describes: four numbers, in the order card
/// number, expiry month, expiry year, cvv.
pub fn parse_card(card: &str) -> (r: Result<Card, ParsePaymentInfoError>)
    ensures
        !tokens_valid(split_spaces(card@)) ==> (r matches Err(e) && reports_bad_token(card@, e)),
        tokens_valid(split_spaces(card@)) && split_spaces(card@).len() != CARD_FIELDS ==> (
        r matches Err(e) && reports_wrong_count(card@, e)),
        r is Ok <==> parsed_card(card@) is Some,
        r matches Ok(c) ==> parsed_card(card@) == Some(c),
{
    let numbers = match parse_card_numbers(card) {
        Ok(numbers) => numbers,
        Err(e) => {
            return Err(e);
        },
    };
    let len = numbers.len();
    if len != CARD_FIELDS {
        return Err(ParsePaymentInfoError::Other { expected: CARD_FIELDS, actual: len, elements: numbers });
    }
    Ok(
        Card {
            number: numbers[0],
            exp: Expiration { year: numbers[2], month: numbers[1] },
            cvv: numbers[3],
        },
    )
}

/// The text of `e`, as `ParsePaymentInfoError::message` writes it.
pub open spec fn message_text(e: ParsePaymentInfoError) -> Seq<char> {
    match e {
        ParsePaymentInfoError::ParseError { input, token, reason } => "Failed to parse input `"@
            + input@ + "` as numbers <- `"@ + token@ + "` could not be parsed as u32 <- "@
            + reason_text(reason),
        ParsePaymentInfoError::Other { expected, actual, elements } =>
            "Incorrect number of elements parsed <- expected `"@ + decimal(expected as nat)
            + "` but got `"@ + decimal(actual as nat) + "` <- elements: `"@ + list_text(
            elements@,
        ) + "`"@,
    }
}

impl ParsePaymentInfoError {
    /// Says in one line what went wrong, with the input and the offending
    /// piece, or with the count and the numbers that were read.
    pub fn message(&self) -> (r: String)
        ensures
            r@ == message_text(*self),
    {
        match self {
            ParsePaymentInfoError::ParseError { input, token, reason } => {
                let mut r = String::from_str("Failed to parse input `");
                r.append(input.as_str());
                r.append("` as numbers <- `");
                r.append(token.as_str());
                r.append("` could not be parsed as u32 <- ");
                r.append(reason.text());
                r
            },
            ParsePaymentInfoError::Other { expected, actual, elements } => {
                let mut r = String::from_str("Incorrect number of elements parsed <- expected `");
                let e = decimal_text(*expected as u64);
                r.append(e.as_str());
                r.append("` but got `");
                let a = decimal_text(*actual as u64);
                r.append(a.as_str());
                r.append("` <- elements: `");
                let l = list_text_of(elements);
                r.append(l.as_str());
                r.append("`");
                r
            },
        }
    }
}

} // verus!

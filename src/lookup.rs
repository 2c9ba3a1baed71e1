use vstd::prelude::*;
use vstd::string::StringExecFns;
use crate::card::{
    Card, ParsePaymentInfoError, message_text, parse_card, parsed_card, reports_bad_token,
    reports_wrong_count, tokens_valid, CARD_FIELDS,
};
use crate::table::CardTable;
use crate::tokens::split_spaces;

verus! {

/// Why no card could be had for a name.
#[derive(Debug, Clone, PartialEq, Eq)]
pub enum CreditCardError {
    /// The name is not in the table. The text is meant for the user as it is.
    InvalidInput(String),
    /// The stored text of the name's card is malformed. The text is for the
    /// operator's log, not for the user.
    Other(String),
}

/// The text of the error for a name that is not in the table.
pub open spec fn not_found_text(name: Seq<char>) -> Seq<char> {
    "No credit card was found for "@ + name + "."@
}

/// The text of the error for a name whose stored card is malformed, as `e` says.
pub open spec fn unparsable_text(name: Seq<char>, e: ParsePaymentInfoError) -> Seq<char> {
    name + "'s card could not be parsed <- "@ + message_text(e)
}

/// Looks `name` up in `credit_cards` and builds the card stored there.
pub fn get_credit_card_info(credit_cards: &CardTable, name: &str) -> (r: Result<
    Card,
    CreditCardError,
>)
    requires
        credit_cards.wf(),
    ensures
        !credit_cards@.contains_key(name@) ==> (r matches Err(CreditCardError::InvalidInput(m))
            && m@ == not_found_text(name@)),
        credit_cards@.contains_key(name@) && parsed_card(credit_cards@[name@]) is Some ==> r
            == Ok::<Card, CreditCardError>(parsed_card(credit_cards@[name@])->Some_0),
        credit_cards@.contains_key(name@) && !tokens_valid(split_spaces(credit_cards@[name@]))
            ==> (r matches Err(CreditCardError::Other(m)) && exists|e: ParsePaymentInfoError|
            reports_bad_token(credit_cards@[name@], e) && m@ == #[trigger] unparsable_text(
            name@,
            e,
        )),
        credit_cards@.contains_key(name@) && tokens_valid(split_spaces(credit_cards@[name@]))
            && split_spaces(credit_cards@[name@]).len() != CARD_FIELDS ==> (r matches Err(
            CreditCardError::Other(m)) && exists|e: ParsePaymentInfoError|
            reports_wrong_count(credit_cards@[name@], e) && m@ == #[trigger] unparsable_text(
            name@,
            e,
        )),
{
    let card_string = match credit_cards.get(name) {
        Some(c) => c,
        None => {
            let mut msg = String::from_str("No credit card was found for ");
            msg.append(name);
            msg.append(".");
            return Err(CreditCardError::InvalidInput(msg));
        },
    };
    match parse_card(card_string) {
        Ok(card) => Ok(card),
        Err(err) => {
            let mut msg = name.to_owned();
            msg.append("'s card could not be parsed <- ");
            let detail = err.message();
            msg.append(detail.as_str());
            assert(msg@ == unparsable_text(name@, err));
            Err(CreditCardError::Other(msg))
        },
    }
}

} // verus!

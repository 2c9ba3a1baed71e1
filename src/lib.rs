//! Looks a cardholder's name up in a table of stored card texts and reads the
//! text into a card record: four space-separated numbers, in the order card
//! number, expiry month, expiry year, cvv.
pub mod card;
pub mod lookup;
pub mod number;
pub mod table;
pub mod text;
pub mod tokens;

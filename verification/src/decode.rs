//! What the venues' decoders share: the ways in which a message can fail to
//! give a price, and the steps from a document to the price in it.

use vstd::prelude::*;
use crate::json::Json;
use crate::price::{decimal_micros, is_number, parse_decimal};

verus! {

/// Why a message gave no price. None of these ends a stream: the message is
/// left out and the next one is read.
#[derive(Clone, Copy, Debug, PartialEq, Eq, Structural)]
pub enum DecodeError {
    /// The message is not a well-formed JSON document.
    Malformed,
    /// The list of records, or the price in the record, is not there, or is
    /// of another kind than expected.
    MissingField,
    /// The list of records is empty.
    EmptyBatch,
    /// The price field holds a string that is no number.
    NumericParse,
    /// The price field holds a number whose millionths are more than 64 bits
    /// hold.
    OutOfRange,
}

/// The list of records of a document: the array under `inner` in the object
/// under `outer`.
pub open spec fn records_at(doc: Json, outer: Seq<char>, inner: Seq<char>) -> Option<Seq<Json>> {
    match doc.member(outer) {
        Some(section) => match section.member(inner) {
            Some(list) => list.items(),
            None => None,
        },
        None => None,
    }
}

/// The price of a record: the price that the string under `key` stands for.
pub open spec fn record_price(record: Json, key: Seq<char>) -> Result<i64, DecodeError> {
    match record.member(key) {
        Some(field) => match field.text() {
            Some(text) => decimal_micros(text),
            None => Err(DecodeError::MissingField),
        },
        None => Err(DecodeError::MissingField),
    }
}

/// Finds the list of records of a document.
pub fn records<'a>(doc: &'a Json, outer: &str, inner: &str) -> (r: Option<&'a Vec<Json>>)
    ensures
        match r {
            Some(list) => records_at(*doc, outer@, inner@) == Some(list@),
            None => records_at(*doc, outer@, inner@) is None,
        },
{
    match doc.get(outer) {
        Some(section) => match section.get(inner) {
            Some(list) => list.as_array(),
            None => None,
        },
        None => None,
    }
}

/// Reads the price of a record from the string under `key`.
pub fn price_in(record: &Json, key: &str) -> (r: Result<i64, DecodeError>)
    ensures
        r == record_price(*record, key@),
{
    match record.get(key) {
        Some(field) => match field.as_str() {
            Some(text) => parse_decimal(text),
            None => Err(DecodeError::MissingField),
        },
        None => Err(DecodeError::MissingField),
    }
}

/// A record without a string under `key` gives a failure, never a price, and
/// so does one whose string is no number. One whose string is a number gives
/// what the number stands for.
pub proof fn law_bad_record_fails(record: Json, key: Seq<char>)
    ensures
        record.member(key) is None ==> record_price(record, key) == Err::<i64, DecodeError>(
            DecodeError::MissingField,
        ),
        forall|field: Json|
            record.member(key) == Some(field) && field.text() is None ==> record_price(record, key)
                == Err::<i64, DecodeError>(DecodeError::MissingField),
        forall|field: Json, text: Seq<char>|
            record.member(key) == Some(field) && field.text() == Some(text) && !is_number(text)
                ==> record_price(record, key) == Err::<i64, DecodeError>(DecodeError::NumericParse),
        forall|field: Json, text: Seq<char>|
            record.member(key) == Some(field) && field.text() == Some(text) && is_number(text)
                ==> record_price(record, key) == decimal_micros(text) && !(record_price(record, key)
                matches Err(DecodeError::NumericParse)),
{
}

} // verus!

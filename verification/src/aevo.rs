//! The Aevo venue: where to connect, what to subscribe to, and how to read a
//! price from one of its ticker messages.

use vstd::prelude::*;
use crate::decode::{price_in, record_price, records, records_at, DecodeError};
use crate::json::{parsed_document, Json};

verus! {

/// The endpoint and the subscription of the Aevo feed.
pub struct AevoBuilder {
    pub url: String,
    pub subscribe_message: String,
}

impl AevoBuilder {
    /// The builder for the ticker channel of the perpetual ETH instrument.
    pub fn new() -> (r: Self)
        ensures
            r.url@ == "wss://ws.aevo.xyz"@,
            r.subscribe_message@ == "{\"data\":[\"ticker:ETH:PERPETUAL\"],\"op\":\"subscribe\"}"@,
    {
        AevoBuilder {
            url: "wss://ws.aevo.xyz".to_owned(),
            subscribe_message: "{\"data\":[\"ticker:ETH:PERPETUAL\"],\"op\":\"subscribe\"}".to_owned(),
        }
    }
}

/// The price in a ticker document: the `index_price` of the first record of
/// the list `tickers` under `data`.
pub open spec fn document_price(doc: Json) -> Result<i64, DecodeError> {
    match records_at(doc, "data"@, "tickers"@) {
        Some(tickers) => if tickers.len() == 0 {
            Err(DecodeError::EmptyBatch)
        } else {
            record_price(tickers.first(), "index_price"@)
        },
        None => Err(DecodeError::MissingField),
    }
}

/// The price in a message, given what the parser made of it.
pub open spec fn message_price(parsed: Option<Json>) -> Result<i64, DecodeError> {
    match parsed {
        Some(doc) => document_price(doc),
        None => Err(DecodeError::Malformed),
    }
}

/// Reads the price from a ticker document.
pub fn decode_document(doc: &Json) -> (r: Result<i64, DecodeError>)
    ensures
        r == document_price(*doc),
{
    match records(doc, "data", "tickers") {
        Some(tickers) => {
            if tickers.len() == 0 {
                Err(DecodeError::EmptyBatch)
            } else {
                price_in(&tickers[0], "index_price")
            }
        },
        None => Err(DecodeError::MissingField),
    }
}

/// Reads the price from the text of a ticker message.
pub fn handle_message(text: &str) -> (r: Result<i64, DecodeError>)
    ensures
        r == message_price(parsed_document(text@)),
{
    match Json::parse(text) {
        Some(doc) => decode_document(&doc),
        None => Err(DecodeError::Malformed),
    }
}

/// A document without the list of records gives no price. Neither does one
/// whose first record has no string under `index_price`, or has one that is no
/// price. Each is a failure of its own kind, and so is a message that is no
/// document at all.
pub proof fn law_bad_document_fails(doc: Json)
    ensures
        records_at(doc, "data"@, "tickers"@) is None ==> document_price(doc) == Err::<
            i64,
            DecodeError,
        >(DecodeError::MissingField),
        records_at(doc, "data"@, "tickers"@) == Some(Seq::<Json>::empty()) ==> document_price(doc)
            == Err::<i64, DecodeError>(DecodeError::EmptyBatch),
        forall|records: Seq<Json>|
            records_at(doc, "data"@, "tickers"@) == Some(records) && records.len() > 0
                ==> document_price(doc) == record_price(records.first(), "index_price"@),
        message_price(None) == Err::<i64, DecodeError>(DecodeError::Malformed),
{
}

} // verus!

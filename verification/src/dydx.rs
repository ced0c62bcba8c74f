//! The DyDx venue: where to connect, what to subscribe to, and how to read a
//! price from one of its trade messages.

use vstd::prelude::*;
use crate::decode::{price_in, record_price, records, records_at, DecodeError};
use crate::json::{parsed_document, Json};

verus! {

/// The endpoint and the subscription of the DyDx feed.
pub struct DyDxBuilder {
    pub url: String,
    pub subscribe_message: String,
}

impl DyDxBuilder {
    /// The builder for the trade channel of the ETH-USD instrument.
    pub fn new() -> (r: Self)
        ensures
            r.url@ == "wss://indexer.dydx.trade/v4/ws"@,
            r.subscribe_message@
                == "{\"channel\":\"v4_trades\",\"id\":\"ETH-USD\",\"type\":\"subscribe\"}"@,
    {
        DyDxBuilder {
            url: "wss://indexer.dydx.trade/v4/ws".to_owned(),
            subscribe_message: "{\"channel\":\"v4_trades\",\"id\":\"ETH-USD\",\"type\":\"subscribe\"}".to_owned(),
        }
    }
}

/// The price in a trade document: the `price` of the last record of the list
/// `trades` under `contents`.
pub open spec fn document_price(doc: Json) -> Result<i64, DecodeError> {
    match records_at(doc, "contents"@, "trades"@) {
        Some(trades) => if trades.len() == 0 {
            Err(DecodeError::EmptyBatch)
        } else {
            record_price(trades.last(), "price"@)
        },
        None => Err(DecodeError::MissingField),
    }
}

/// The price in a message, given what the parser made of it.
pub open spec fn message_price(parsed: Option<Json>) -> Result<i64, DecodeError> {
    match parsed {
        Some(doc) => document_price(doc),
        None => Err(DecodeError::Malformed),
    }
}

/// Reads the price from a trade document.
pub fn decode_document(doc: &Json) -> (r: Result<i64, DecodeError>)
    ensures
        r == document_price(*doc),
{
    match records(doc, "contents", "trades") {
        Some(trades) => {
            if trades.len() == 0 {
                Err(DecodeError::EmptyBatch)
            } else {
                price_in(&trades[trades.len() - 1], "price")
            }
        },
        None => Err(DecodeError::MissingField),
    }
}

/// Reads the price from the text of a trade message.
pub fn handle_message(text: &str) -> (r: Result<i64, DecodeError>)
    ensures
        r == message_price(parsed_document(text@)),
{
    match Json::parse(text) {
        Some(doc) => decode_document(&doc),
        None => Err(DecodeError::Malformed),
    }
}

/// A document without the list of records gives no price. Neither does one
/// whose last record has no string under `price`, or has one that is no
/// price. Each is a failure of its own kind, and so is a message that is no
/// document at all.
pub proof fn law_bad_document_fails(doc: Json)
    ensures
        records_at(doc, "contents"@, "trades"@) is None ==> document_price(doc) == Err::<
            i64,
            DecodeError,
        >(DecodeError::MissingField),
        records_at(doc, "contents"@, "trades"@) == Some(Seq::<Json>::empty()) ==> document_price(doc)
            == Err::<i64, DecodeError>(DecodeError::EmptyBatch),
        forall|records: Seq<Json>|
            records_at(doc, "contents"@, "trades"@) == Some(records) && records.len() > 0
                ==> document_price(doc) == record_price(records.last(), "price"@),
        message_price(None) == Err::<i64, DecodeError>(DecodeError::Malformed),
{
}

} // verus!

//! The decisions of a feed: how an attempt to connect ends, and, from the
//! frames of a venue's socket to its prices, which frame gives a price, which
//! is passed over, and which is reported.

use vstd::prelude::*;
use crate::arbitrage::Venue;
use crate::decode::DecodeError;
use crate::json::{parsed_document, Json};

verus! {

/// Why a connection could not be had. Either ends the attempt: nothing is
/// tried again.
#[derive(Clone, Copy, Debug, PartialEq, Eq, Structural)]
pub enum ConnectError {
    /// The socket could not be opened.
    TransportFailure,
    /// The socket was opened, and the subscription could not be sent.
    HandshakeFailure,
}

/// How far an attempt to connect has come.
#[derive(Clone, Copy, Debug, PartialEq, Eq, Structural)]
pub enum Attempt {
    /// The socket is being opened.
    Opening,
    /// The socket is open and the subscription is being sent.
    Subscribing,
    /// The subscription was sent: the feed is live.
    Connected,
    /// The attempt is over, without a connection.
    Failed(ConnectError),
}

/// The attempt after the transport reported on the step under way: `done`
/// where the step succeeded.
pub open spec fn attempt_after(attempt: Attempt, done: bool) -> Attempt {
    match attempt {
        Attempt::Opening => if done {
            Attempt::Subscribing
        } else {
            Attempt::Failed(ConnectError::TransportFailure)
        },
        Attempt::Subscribing => if done {
            Attempt::Connected
        } else {
            Attempt::Failed(ConnectError::HandshakeFailure)
        },
        Attempt::Connected => Attempt::Connected,
        Attempt::Failed(error) => Attempt::Failed(error),
    }
}

/// Moves an attempt on by what the transport reported on its current step.
pub fn advance(attempt: Attempt, done: bool) -> (r: Attempt)
    ensures
        r == attempt_after(attempt, done),
{
    match attempt {
        Attempt::Opening => if done {
            Attempt::Subscribing
        } else {
            Attempt::Failed(ConnectError::TransportFailure)
        },
        Attempt::Subscribing => if done {
            Attempt::Connected
        } else {
            Attempt::Failed(ConnectError::HandshakeFailure)
        },
        Attempt::Connected => Attempt::Connected,
        Attempt::Failed(error) => Attempt::Failed(error),
    }
}

/// A failed attempt stays failed, with its reason, whatever the transport
/// reports afterwards; and only an opened socket followed by a sent
/// subscription gives a connection.
pub proof fn law_no_second_try(attempt: Attempt, first: bool, second: bool)
    ensures
        attempt is Failed ==> attempt_after(attempt, first) == attempt,
        attempt_after(attempt_after(Attempt::Opening, first), second) == Attempt::Connected <==> first
            && second,
        !first ==> attempt_after(attempt_after(Attempt::Opening, first), second) == Attempt::Failed(
            ConnectError::TransportFailure,
        ),
        first && !second ==> attempt_after(attempt_after(Attempt::Opening, first), second)
            == Attempt::Failed(ConnectError::HandshakeFailure),
{
}

/// What one read of a socket gave.
#[derive(Debug)]
pub enum Frame {
    /// A text frame, with its content.
    Text(String),
    /// A frame of another kind: binary, ping, pong, close.
    Other,
    /// The transport reported an error on this read.
    Failed,
}

/// What a stream does with one frame.
#[derive(Clone, Copy, Debug, PartialEq, Eq, Structural)]
pub enum Reading {
    /// The frame held a price: the stream yields it.
    Price(i64),
    /// The frame held none: the stream passes over it without a word.
    Skipped,
    /// The read failed: the stream reports it and reads on.
    TransportError,
}

/// The price in a message of `venue`, given what the parser made of it.
pub open spec fn message_price(venue: Venue, parsed: Option<Json>) -> Result<i64, DecodeError> {
    match venue {
        Venue::Aevo => crate::aevo::message_price(parsed),
        Venue::DyDx => crate::dydx::message_price(parsed),
    }
}

/// What a stream of `venue` does with `frame`.
pub open spec fn reading_of(venue: Venue, frame: Frame) -> Reading {
    match frame {
        Frame::Text(text) => match message_price(venue, parsed_document(text@)) {
            Ok(price) => Reading::Price(price),
            Err(_) => Reading::Skipped,
        },
        Frame::Other => Reading::Skipped,
        Frame::Failed => Reading::TransportError,
    }
}

/// Reads the price from the text of a message of `venue`.
pub fn handle_message(venue: Venue, text: &str) -> (r: Result<i64, DecodeError>)
    ensures
        r == message_price(venue, parsed_document(text@)),
{
    match venue {
        Venue::Aevo => crate::aevo::handle_message(text),
        Venue::DyDx => crate::dydx::handle_message(text),
    }
}

/// Decides what a stream of `venue` does with `frame`. No frame ends the
/// stream: it ends when the transport has no further frame.
pub fn listen_to_stream(venue: Venue, frame: &Frame) -> (r: Reading)
    ensures
        r == reading_of(venue, *frame),
{
    match frame {
        Frame::Text(text) => match handle_message(venue, text.as_str()) {
            Ok(price) => Reading::Price(price),
            Err(_) => Reading::Skipped,
        },
        Frame::Other => Reading::Skipped,
        Frame::Failed => Reading::TransportError,
    }
}

/// A message that does not decode never gives a price, and no frame makes a
/// stream report anything but a failed read.
pub proof fn law_decode_failure_is_skipped(venue: Venue, frame: Frame)
    ensures
        (frame matches Frame::Text(text) && message_price(venue, parsed_document(text@)) is Err)
            ==> reading_of(venue, frame) == Reading::Skipped,
        reading_of(venue, frame) == Reading::TransportError <==> frame is Failed,
{
}

/// The prices that a stream of `venue` yields for `frames`, in their order:
/// one for each frame that holds a price, none for any other.
pub open spec fn stream_prices(venue: Venue, frames: Seq<Frame>) -> Seq<i64>
    decreases frames.len(),
{
    if frames.len() == 0 {
        Seq::empty()
    } else {
        let before = stream_prices(venue, frames.drop_last());
        match reading_of(venue, frames.last()) {
            Reading::Price(price) => before.push(price),
            _ => before,
        }
    }
}

/// Reads `frames` as a stream of `venue` does, and returns the prices in the
/// order of their frames.
pub fn listen(venue: Venue, frames: &Vec<Frame>) -> (r: Vec<i64>)
    ensures
        r@ == stream_prices(venue, frames@),
{
    let mut prices: Vec<i64> = Vec::new();
    let mut i: usize = 0;
    assert(frames@.take(0) =~= Seq::<Frame>::empty());
    while i < frames.len()
        invariant
            0 <= i <= frames.len(),
            prices@ == stream_prices(venue, frames@.take(i as int)),
        decreases frames.len() - i,
    {
        proof {
            let next = frames@.take(i as int + 1);
            assert(next.drop_last() =~= frames@.take(i as int));
            assert(next.last() == frames@[i as int]);
        }
        match listen_to_stream(venue, &frames[i]) {
            Reading::Price(price) => {
                prices.push(price);
            },
            _ => {},
        }
        i = i + 1;
    }
    assert(frames@.take(i as int) =~= frames@);
    prices
}

/// A stream yields at most one price for each frame, and a frame that holds
/// no price adds nothing to what came before it.
pub proof fn law_stream_skips_what_holds_no_price(venue: Venue, frames: Seq<Frame>, frame: Frame)
    ensures
        stream_prices(venue, frames).len() <= frames.len(),
        !(reading_of(venue, frame) is Price) ==> stream_prices(venue, frames.push(frame))
            == stream_prices(venue, frames),
        reading_of(venue, frame) matches Reading::Price(price) ==> stream_prices(
            venue,
            frames.push(frame),
        ) == stream_prices(venue, frames).push(price),
    decreases frames.len(),
{
    if frames.len() > 0 {
        law_stream_skips_what_holds_no_price(venue, frames.drop_last(), frame);
    }
    assert(frames.push(frame).drop_last() =~= frames);
}

} // verus!

//! A simulator of arbitrage between two price feeds.
//!
//! Every amount of money, and every price, is an exact count of millionths of
//! the venue's currency unit, and a fee rate is a count of millionths of the
//! traded value. The decoders turn a venue's message into such a price, the
//! engine decides on each new price whether a round trip pays and books it,
//! and the orchestrator says after each event whether the run goes on.

pub mod aevo;
pub mod arbitrage;
pub mod decode;
pub mod dydx;
pub mod json;
pub mod orchestrator;
pub mod price;
pub mod report;
pub mod socket_stream;

//! The arbitrage engine: the latest price of each venue, the simulated
//! balances, and the transition that a new price triggers.

use vstd::prelude::*;

verus! {

/// How many millionths make one: the scale of prices, amounts and fee rates.
pub const PPM: u64 = 1_000_000;

/// The largest price, and the largest notional of one trade, that the engine
/// takes: a thousand million currency units, in millionths.
pub const MAX_PRICE: u64 = 1_000_000_000_000_000;

/// The largest absolute value of a balance, or of the cumulative profit, on
/// which the engine still books a trade.
pub const BALANCE_LIMIT: i128 = 10_000_000_000_000_000_000_000_000_000_000_000_000;

/// One of the two venues.
#[derive(Clone, Copy, Debug, PartialEq, Eq, Structural)]
pub enum Venue {
    DyDx,
    Aevo,
}

/// One simulated execution: where it bought and sold, how much and at which
/// prices, what each side came to, and the totals after it. All amounts are
/// counts of millionths.
#[derive(Clone, Copy, Debug, PartialEq, Eq, Structural)]
pub struct TradeRecord {
    pub buy_venue: Venue,
    pub sell_venue: Venue,
    pub amount: u128,
    pub buy_price: u64,
    pub sell_price: u64,
    pub buy_cost: i128,
    pub sell_cost: i128,
    pub profit: i128,
    pub total_profit: i128,
    pub dydx_balance: i128,
    pub aevo_balance: i128,
}

/// The state of the engine. Prices, balances, profit and notional are counts
/// of millionths of a currency unit; the fee rate is a count of millionths of
/// the traded value.
#[derive(Clone, Copy, Debug, PartialEq, Eq, Structural)]
pub struct Arbitrage {
    /// The latest price seen on DyDx; `None` until the first one arrives.
    pub dydx_btc_price: Option<u64>,
    /// The latest price seen on Aevo; `None` until the first one arrives.
    pub aevo_btc_price: Option<u64>,
    pub dydx_balance: i128,
    pub aevo_balance: i128,
    /// The sum of the profits of all trades so far.
    pub total_profit: i128,
    /// The fee rate that each side of a trade pays, below `PPM`.
    pub fees: u32,
    /// The notional of one trade.
    pub max_trade_amount: u64,
}

/// Buying at `buy` and selling at `sell` pays: what is left of the sale after
/// the fee exceeds what the purchase costs with the fee. It is the test
/// `1 - fee > buy * (1 + fee) / sell`, cleared of its division; at a selling
/// price of zero nothing pays.
pub open spec fn profitable(buy: int, sell: int, fee: int) -> bool {
    (PPM - fee) * sell > buy * (PPM + fee)
}

/// The quantity traded: the notional divided by the selling price, rounded
/// down to a millionth.
pub open spec fn trade_amount(notional: int, sell: int) -> int {
    notional * PPM / sell
}

/// What the purchase costs, fee included: `buy * (notional / sell) * (1 + fee)`,
/// rounded down to a millionth.
pub open spec fn buy_cost(buy: int, sell: int, notional: int, fee: int) -> int {
    buy * notional * (PPM + fee) / (sell * PPM)
}

/// What the sale brings, fee taken off: `sell * (notional / sell) * (1 - fee)`,
/// rounded down to a millionth.
pub open spec fn sell_cost(notional: int, fee: int) -> int {
    notional * (PPM - fee) / (PPM as int)
}

pub open spec fn other_venue(venue: Venue) -> Venue {
    match venue {
        Venue::DyDx => Venue::Aevo,
        Venue::Aevo => Venue::DyDx,
    }
}

impl Arbitrage {
    /// The fee rate is below one, and the notional and the known prices are
    /// within the engine's range.
    pub open spec fn wf(self) -> bool {
        &&& self.fees < PPM
        &&& self.max_trade_amount <= MAX_PRICE
        &&& (self.dydx_btc_price matches Some(p) ==> p <= MAX_PRICE)
        &&& (self.aevo_btc_price matches Some(p) ==> p <= MAX_PRICE)
    }

    /// The balances and the cumulative profit leave room for one more trade.
    pub open spec fn within_limits(self) -> bool {
        &&& -BALANCE_LIMIT <= self.dydx_balance <= BALANCE_LIMIT
        &&& -BALANCE_LIMIT <= self.aevo_balance <= BALANCE_LIMIT
        &&& -BALANCE_LIMIT <= self.total_profit <= BALANCE_LIMIT
    }

    pub open spec fn balance(self, venue: Venue) -> int {
        match venue {
            Venue::DyDx => self.dydx_balance as int,
            Venue::Aevo => self.aevo_balance as int,
        }
    }

    pub open spec fn price(self, venue: Venue) -> Option<u64> {
        match venue {
            Venue::DyDx => self.dydx_btc_price,
            Venue::Aevo => self.aevo_btc_price,
        }
    }

    /// The state with `price` as the latest price of `venue`.
    pub open spec fn with_price(self, venue: Venue, price: u64) -> Arbitrage {
        match venue {
            Venue::DyDx => Arbitrage { dydx_btc_price: Some(price), ..self },
            Venue::Aevo => Arbitrage { aevo_btc_price: Some(price), ..self },
        }
    }

    /// The state after one trade that buys on `buyer` at `buy` and sells on
    /// the other venue at `sell`.
    pub open spec fn after_trade(self, buyer: Venue, buy: u64, sell: u64) -> Arbitrage {
        let cost = buy_cost(buy as int, sell as int, self.max_trade_amount as int, self.fees as int);
        let gain = sell_cost(self.max_trade_amount as int, self.fees as int);
        match buyer {
            Venue::DyDx => Arbitrage {
                dydx_balance: (self.dydx_balance - cost) as i128,
                aevo_balance: (self.aevo_balance + gain) as i128,
                total_profit: (self.total_profit + (gain - cost)) as i128,
                ..self
            },
            Venue::Aevo => Arbitrage {
                aevo_balance: (self.aevo_balance - cost) as i128,
                dydx_balance: (self.dydx_balance + gain) as i128,
                total_profit: (self.total_profit + (gain - cost)) as i128,
                ..self
            },
        }
    }

    /// The record of the trade that led to `self`.
    pub open spec fn record_of(self, buyer: Venue, buy: u64, sell: u64) -> TradeRecord {
        let cost = buy_cost(buy as int, sell as int, self.max_trade_amount as int, self.fees as int);
        let gain = sell_cost(self.max_trade_amount as int, self.fees as int);
        TradeRecord {
            buy_venue: buyer,
            sell_venue: other_venue(buyer),
            amount: trade_amount(self.max_trade_amount as int, sell as int) as u128,
            buy_price: buy,
            sell_price: sell,
            buy_cost: cost as i128,
            sell_cost: gain as i128,
            profit: (gain - cost) as i128,
            total_profit: self.total_profit,
            dydx_balance: self.dydx_balance,
            aevo_balance: self.aevo_balance,
        }
    }

    /// Which venue to buy on, given the two prices: the one from which a round
    /// trip to the other pays, if there is one.
    pub open spec fn buyer(self, dydx_price: u64, aevo_price: u64) -> Option<Venue> {
        if profitable(dydx_price as int, aevo_price as int, self.fees as int) {
            Some(Venue::DyDx)
        } else if profitable(aevo_price as int, dydx_price as int, self.fees as int) {
            Some(Venue::Aevo)
        } else {
            None
        }
    }

    /// The state after the two prices were held against each other.
    pub open spec fn simulated(self, dydx_price: u64, aevo_price: u64) -> Arbitrage {
        match self.buyer(dydx_price, aevo_price) {
            Some(Venue::DyDx) => self.after_trade(Venue::DyDx, dydx_price, aevo_price),
            Some(Venue::Aevo) => self.after_trade(Venue::Aevo, aevo_price, dydx_price),
            None => self,
        }
    }

    /// The record that holding the two prices against each other gives.
    pub open spec fn simulated_record(self, dydx_price: u64, aevo_price: u64) -> Option<TradeRecord> {
        match self.buyer(dydx_price, aevo_price) {
            Some(Venue::DyDx) => Some(
                self.simulated(dydx_price, aevo_price).record_of(Venue::DyDx, dydx_price, aevo_price),
            ),
            Some(Venue::Aevo) => Some(
                self.simulated(dydx_price, aevo_price).record_of(Venue::Aevo, aevo_price, dydx_price),
            ),
            None => None,
        }
    }

    /// The state after `price` arrived from `venue`: the price is stored, and
    /// if the other venue's price is known the two are held against each other.
    pub open spec fn received(self, venue: Venue, price: u64) -> Arbitrage {
        let stored = self.with_price(venue, price);
        match (stored.dydx_btc_price, stored.aevo_btc_price) {
            (Some(d), Some(a)) => stored.simulated(d, a),
            _ => stored,
        }
    }

    /// The record that the arrival of `price` from `venue` gives.
    pub open spec fn received_record(self, venue: Venue, price: u64) -> Option<TradeRecord> {
        let stored = self.with_price(venue, price);
        match (stored.dydx_btc_price, stored.aevo_btc_price) {
            (Some(d), Some(a)) => stored.simulated_record(d, a),
            _ => None,
        }
    }

    /// The state after the prices of `prices` arrived from `venue`, one after
    /// the other.
    pub open spec fn fed(self, venue: Venue, prices: Seq<u64>) -> Arbitrage
        decreases prices.len(),
    {
        if prices.len() == 0 {
            self
        } else {
            self.fed(venue, prices.drop_last()).received(venue, prices.last())
        }
    }

    /// A new engine: no price known yet, no profit made.
    pub fn new(dydx_balance: i128, aevo_balance: i128, fees: u32, max_trade_amount: u64) -> (r: Self)
        requires
            fees < PPM,
            max_trade_amount <= MAX_PRICE,
        ensures
            r == (Arbitrage {
                dydx_btc_price: None,
                aevo_btc_price: None,
                dydx_balance,
                aevo_balance,
                total_profit: 0,
                fees,
                max_trade_amount,
            }),
            r.wf(),
    {
        Arbitrage {
            dydx_btc_price: None,
            aevo_btc_price: None,
            dydx_balance,
            aevo_balance,
            total_profit: 0,
            fees,
            max_trade_amount,
        }
    }

    /// Whether the balances and the cumulative profit leave room for a trade.
    pub fn has_room(&self) -> (r: bool)
        ensures
            r == self.within_limits(),
    {
        -BALANCE_LIMIT <= self.dydx_balance && self.dydx_balance <= BALANCE_LIMIT
            && -BALANCE_LIMIT <= self.aevo_balance && self.aevo_balance <= BALANCE_LIMIT
            && -BALANCE_LIMIT <= self.total_profit && self.total_profit <= BALANCE_LIMIT
    }

    /// Books one trade: buys on `buyer` at `buy`, sells on the other venue at
    /// `sell`.
    fn trade(&mut self, buyer: Venue, buy: u64, sell: u64) -> (r: TradeRecord)
        requires
            old(self).wf(),
            old(self).within_limits(),
            buy <= MAX_PRICE,
            sell <= MAX_PRICE,
            profitable(buy as int, sell as int, old(self).fees as int),
        ensures
            *final(self) == old(self).after_trade(buyer, buy, sell),
            r == final(self).record_of(buyer, buy, sell),
            final(self).wf(),
    {
        let fee: u128 = self.fees as u128;
        let notional: u128 = self.max_trade_amount as u128;
        let ppm: u128 = PPM as u128;
        proof {
            lemma_trade_bounds(buy as int, sell as int, notional as int, fee as int);
        }
        let amount: u128 = notional * ppm / (sell as u128);
        let cost: i128 = ((buy as u128) * notional * (ppm + fee) / ((sell as u128) * ppm)) as i128;
        let gain: i128 = (notional * (ppm - fee) / ppm) as i128;
        let profit: i128 = gain - cost;
        match buyer {
            Venue::DyDx => {
                self.dydx_balance = self.dydx_balance - cost;
                self.aevo_balance = self.aevo_balance + gain;
            },
            Venue::Aevo => {
                self.aevo_balance = self.aevo_balance - cost;
                self.dydx_balance = self.dydx_balance + gain;
            },
        }
        self.total_profit = self.total_profit + profit;
        TradeRecord {
            buy_venue: buyer,
            sell_venue: match buyer {
                Venue::DyDx => Venue::Aevo,
                Venue::Aevo => Venue::DyDx,
            },
            amount,
            buy_price: buy,
            sell_price: sell,
            buy_cost: cost,
            sell_cost: gain,
            profit,
            total_profit: self.total_profit,
            dydx_balance: self.dydx_balance,
            aevo_balance: self.aevo_balance,
        }
    }

    /// Whether buying at `buy` and selling at `sell` pays at this fee rate.
    pub fn is_profitable(&self, buy: u64, sell: u64) -> (r: bool)
        requires
            self.fees < PPM,
        ensures
            r == profitable(buy as int, sell as int, self.fees as int),
    {
        let fee: u128 = self.fees as u128;
        let ppm: u128 = PPM as u128;
        assert((ppm - fee) * (sell as u128) <= 1_000_000 * 0xffff_ffff_ffff_ffff) by (nonlinear_arith)
            requires
                ppm - fee <= 1_000_000,
                sell as u128 <= 0xffff_ffff_ffff_ffff,
        ;
        assert((buy as u128) * (ppm + fee) <= 0xffff_ffff_ffff_ffff * 2_000_000) by (nonlinear_arith)
            requires
                ppm + fee <= 2_000_000,
                buy as u128 <= 0xffff_ffff_ffff_ffff,
        ;
        (ppm - fee) * (sell as u128) > (buy as u128) * (ppm + fee)
    }

    /// Holds the two prices against each other. Where buying on one venue and
    /// selling on the other pays, the trade is booked with the configured
    /// notional, whichever venue it buys on, and its record is returned.
    /// Otherwise nothing changes.
    pub fn simulate_arbitrage(&mut self, dydx_price: u64, aevo_price: u64) -> (r: Option<TradeRecord>)
        requires
            old(self).wf(),
            old(self).within_limits(),
            dydx_price <= MAX_PRICE,
            aevo_price <= MAX_PRICE,
        ensures
            *final(self) == old(self).simulated(dydx_price, aevo_price),
            r == old(self).simulated_record(dydx_price, aevo_price),
            final(self).wf(),
            final(self).dydx_btc_price == old(self).dydx_btc_price,
            final(self).aevo_btc_price == old(self).aevo_btc_price,
            final(self).fees == old(self).fees,
            final(self).max_trade_amount == old(self).max_trade_amount,
            profitable(dydx_price as int, aevo_price as int, old(self).fees as int) ==> {
                let cost = buy_cost(
                    dydx_price as int,
                    aevo_price as int,
                    old(self).max_trade_amount as int,
                    old(self).fees as int,
                );
                let gain = sell_cost(old(self).max_trade_amount as int, old(self).fees as int);
                &&& r is Some
                &&& final(self).dydx_balance == old(self).dydx_balance - cost
                &&& final(self).aevo_balance == old(self).aevo_balance + gain
                &&& final(self).total_profit == old(self).total_profit + (gain - cost)
            },
            profitable(aevo_price as int, dydx_price as int, old(self).fees as int) ==> {
                let cost = buy_cost(
                    aevo_price as int,
                    dydx_price as int,
                    old(self).max_trade_amount as int,
                    old(self).fees as int,
                );
                let gain = sell_cost(old(self).max_trade_amount as int, old(self).fees as int);
                &&& r is Some
                &&& final(self).aevo_balance == old(self).aevo_balance - cost
                &&& final(self).dydx_balance == old(self).dydx_balance + gain
                &&& final(self).total_profit == old(self).total_profit + (gain - cost)
            },
            !profitable(dydx_price as int, aevo_price as int, old(self).fees as int) && !profitable(
                aevo_price as int,
                dydx_price as int,
                old(self).fees as int,
            ) ==> *final(self) == *old(self) && r is None,
    {
        proof {
            law_directions_exclude_each_other(dydx_price, aevo_price, self.fees);
            if profitable(dydx_price as int, aevo_price as int, self.fees as int) {
                lemma_trade_bounds(
                    dydx_price as int,
                    aevo_price as int,
                    self.max_trade_amount as int,
                    self.fees as int,
                );
            }
            if profitable(aevo_price as int, dydx_price as int, self.fees as int) {
                lemma_trade_bounds(
                    aevo_price as int,
                    dydx_price as int,
                    self.max_trade_amount as int,
                    self.fees as int,
                );
            }
        }
        if self.is_profitable(dydx_price, aevo_price) {
            Some(self.trade(Venue::DyDx, dydx_price, aevo_price))
        } else if self.is_profitable(aevo_price, dydx_price) {
            Some(self.trade(Venue::Aevo, aevo_price, dydx_price))
        } else {
            None
        }
    }

    /// Takes a new price from `venue`: stores it, and decides on a trade if
    /// the other venue's price is known. The price is a count of millionths
    /// from zero to `MAX_PRICE`; one below zero or above that range does not
    /// reach the engine, the orchestrator rejects it.
    pub fn on_price(&mut self, venue: Venue, price: u64) -> (r: Option<TradeRecord>)
        requires
            old(self).wf(),
            old(self).within_limits(),
            price <= MAX_PRICE,
        ensures
            *final(self) == old(self).received(venue, price),
            r == old(self).received_record(venue, price),
            final(self).wf(),
            final(self).price(venue) == Some(price),
            final(self).price(other_venue(venue)) == old(self).price(other_venue(venue)),
            old(self).price(other_venue(venue)) is None ==> {
                &&& r is None
                &&& final(self).dydx_balance == old(self).dydx_balance
                &&& final(self).aevo_balance == old(self).aevo_balance
                &&& final(self).total_profit == old(self).total_profit
            },
    {
        match venue {
            Venue::DyDx => {
                self.dydx_btc_price = Some(price);
            },
            Venue::Aevo => {
                self.aevo_btc_price = Some(price);
            },
        }
        match (self.dydx_btc_price, self.aevo_btc_price) {
            (Some(d), Some(a)) => self.simulate_arbitrage(d, a),
            _ => None,
        }
    }
}

/// The sizes that one trade's arithmetic reaches.
proof fn lemma_trade_bounds(buy: int, sell: int, notional: int, fee: int)
    requires
        0 <= buy <= MAX_PRICE,
        0 <= sell <= MAX_PRICE,
        0 <= notional <= MAX_PRICE,
        0 <= fee < PPM,
        profitable(buy, sell, fee),
    ensures
        sell > 0,
        sell * PPM > 0,
        notional * PPM <= 1_000_000_000_000_000_000_000,
        sell * PPM <= 1_000_000_000_000_000_000_000,
        buy * notional <= 1_000_000_000_000_000_000_000_000_000_000,
        buy * notional * (PPM + fee) <= 2_000_000_000_000_000_000_000_000_000_000_000_000,
        0 <= trade_amount(notional, sell) <= 1_000_000_000_000_000_000_000,
        0 <= buy_cost(buy, sell, notional, fee) <= 2_000_000_000_000_000_000_000_000_000_000_000_000,
        0 <= sell_cost(notional, fee) <= MAX_PRICE,
{
    assert(sell > 0) by (nonlinear_arith)
        requires
            (PPM - fee) * sell > buy * (PPM + fee),
            buy >= 0,
            0 <= fee < PPM,
            sell >= 0,
    ;
    assert(buy * notional <= 1_000_000_000_000_000_000_000_000_000_000 && buy * notional >= 0)
        by (nonlinear_arith)
        requires
            0 <= buy <= 1_000_000_000_000_000,
            0 <= notional <= 1_000_000_000_000_000,
    ;
    let bn = buy * notional;
    assert(0 <= bn * (PPM + fee) <= 2_000_000_000_000_000_000_000_000_000_000_000_000)
        by (nonlinear_arith)
        requires
            0 <= bn <= 1_000_000_000_000_000_000_000_000_000_000,
            0 <= fee < 1_000_000,
            PPM == 1_000_000,
    ;
    let num = bn * (PPM + fee);
    let den = sell * PPM;
    assert(den >= 1 && den <= 1_000_000_000_000_000_000_000);
    assert(0 <= num / den <= num) by (nonlinear_arith)
        requires
            num >= 0,
            den >= 1,
    ;
    let np = notional * PPM;
    assert(0 <= np / sell <= np) by (nonlinear_arith)
        requires
            np >= 0,
            sell >= 1,
    ;
    let nf = notional * (PPM - fee);
    assert(0 <= nf <= notional * 1_000_000) by (nonlinear_arith)
        requires
            0 <= notional,
            0 < PPM - fee <= 1_000_000,
            nf == notional * (PPM - fee),
    ;
}

/// A round trip never pays in both directions at once, so the order in which
/// the two directions are tried decides nothing.
pub proof fn law_directions_exclude_each_other(a: u64, b: u64, fee: u32)
    requires
        fee < PPM,
    ensures
        !(profitable(a as int, b as int, fee as int) && profitable(b as int, a as int, fee as int)),
{
    let f = fee as int;
    let x = a as int;
    let y = b as int;
    assert(!((PPM - f) * y > x * (PPM + f) && (PPM - f) * x > y * (PPM + f))) by (nonlinear_arith)
        requires
            0 <= f < PPM,
            0 <= x,
            0 <= y,
    ;
}

/// Where buying on `buyer` at `buy` and selling on the other venue at `sell`
/// pays, the transition takes exactly the purchase's cost from the buyer's
/// balance, adds exactly the sale's proceeds to the seller's balance, and adds
/// their difference to the cumulative profit.
pub proof fn law_trade_moves_balances(state: Arbitrage, buyer: Venue, buy: u64, sell: u64)
    requires
        state.wf(),
        state.within_limits(),
        buy <= MAX_PRICE,
        sell <= MAX_PRICE,
        profitable(buy as int, sell as int, state.fees as int),
    ensures
        ({
            let next = match buyer {
                Venue::DyDx => state.simulated(buy, sell),
                Venue::Aevo => state.simulated(sell, buy),
            };
            let cost = buy_cost(
                buy as int,
                sell as int,
                state.max_trade_amount as int,
                state.fees as int,
            );
            let gain = sell_cost(state.max_trade_amount as int, state.fees as int);
            &&& next.balance(buyer) == state.balance(buyer) - cost
            &&& next.balance(other_venue(buyer)) == state.balance(other_venue(buyer)) + gain
            &&& next.total_profit == state.total_profit + (gain - cost)
            &&& next.dydx_btc_price == state.dydx_btc_price
            &&& next.aevo_btc_price == state.aevo_btc_price
        }),
{
    law_directions_exclude_each_other(buy, sell, state.fees);
    lemma_trade_bounds(
        buy as int,
        sell as int,
        state.max_trade_amount as int,
        state.fees as int,
    );
}

/// Where neither direction pays, holding the two prices against each other
/// changes nothing and gives no record.
pub proof fn law_no_opportunity_changes_nothing(state: Arbitrage, dydx_price: u64, aevo_price: u64)
    requires
        !profitable(dydx_price as int, aevo_price as int, state.fees as int),
        !profitable(aevo_price as int, dydx_price as int, state.fees as int),
    ensures
        state.simulated(dydx_price, aevo_price) == state,
        state.simulated_record(dydx_price, aevo_price) is None,
{
}

/// A price that pays in neither direction against the other venue's known
/// price is stored, and nothing else changes: the balances and the
/// cumulative profit stay as they were.
pub proof fn law_unprofitable_price_is_only_stored(
    state: Arbitrage,
    venue: Venue,
    price: u64,
    known: u64,
)
    requires
        state.price(other_venue(venue)) == Some(known),
        !profitable(price as int, known as int, state.fees as int),
        !profitable(known as int, price as int, state.fees as int),
    ensures
        state.received(venue, price) == state.with_price(venue, price),
        state.received_record(venue, price) is None,
        state.received(venue, price).dydx_balance == state.dydx_balance,
        state.received(venue, price).aevo_balance == state.aevo_balance,
        state.received(venue, price).total_profit == state.total_profit,
{
}

/// A price that arrives while the other venue's price is unknown is stored,
/// and no decision is made.
pub proof fn law_no_decision_without_both_prices(state: Arbitrage, venue: Venue, price: u64)
    requires
        state.price(other_venue(venue)) is None,
    ensures
        state.received(venue, price) == state.with_price(venue, price),
        state.received_record(venue, price) is None,
{
}

/// However many prices one venue delivers, as long as the other has delivered
/// none there is no trade: the other price stays unknown, and the balances
/// and the cumulative profit stay as they were.
pub proof fn law_one_sided_feed_never_trades(state: Arbitrage, venue: Venue, prices: Seq<u64>)
    requires
        state.price(other_venue(venue)) is None,
    ensures
        state.fed(venue, prices).price(other_venue(venue)) is None,
        state.fed(venue, prices).dydx_balance == state.dydx_balance,
        state.fed(venue, prices).aevo_balance == state.aevo_balance,
        state.fed(venue, prices).total_profit == state.total_profit,
        prices.len() > 0 ==> state.fed(venue, prices).price(venue) == Some(prices.last()),
    decreases prices.len(),
{
    if prices.len() > 0 {
        law_one_sided_feed_never_trades(state, venue, prices.drop_last());
        law_no_decision_without_both_prices(
            state.fed(venue, prices.drop_last()),
            venue,
            prices.last(),
        );
    }
}

/// A price, once known, stays known: a transition overwrites it at most.
pub proof fn law_known_price_stays_known(state: Arbitrage, venue: Venue, price: u64, of: Venue)
    requires
        state.price(of) is Some,
    ensures
        state.received(venue, price).price(of) is Some,
        state.received(venue, price).price(venue) == Some(price),
{
}

/// A trade never loses money: where a round trip pays, the purchase costs no
/// more than the sale brings.
pub proof fn law_trade_never_loses(buy: u64, sell: u64, notional: u64, fee: u32)
    requires
        fee < PPM,
        profitable(buy as int, sell as int, fee as int),
    ensures
        0 <= buy_cost(buy as int, sell as int, notional as int, fee as int) <= sell_cost(
            notional as int,
            fee as int,
        ),
{
    let b = buy as int;
    let s = sell as int;
    let n = notional as int;
    let f = fee as int;
    let p = PPM as int;
    let kept = n * (p - f);
    assert(s > 0) by (nonlinear_arith)
        requires
            (p - f) * s > b * (p + f),
            b >= 0,
            s >= 0,
            0 <= f < p,
    ;
    assert(0 <= b * n * (p + f) <= s * kept) by (nonlinear_arith)
        requires
            (p - f) * s > b * (p + f),
            b >= 0,
            n >= 0,
            0 <= f < p,
            kept == n * (p - f),
    ;
    assert(s * p > 0) by (nonlinear_arith)
        requires
            s > 0,
            p > 0,
    ;
    assert(s * kept >= 0) by (nonlinear_arith)
        requires
            s > 0,
            kept == n * (p - f),
            n >= 0,
            f < p,
    ;
    vstd::arithmetic::div_mod::lemma_div_is_ordered(0, b * n * (p + f), s * p);
    vstd::arithmetic::div_mod::lemma_div_is_ordered(b * n * (p + f), s * kept, s * p);
    vstd::arithmetic::div_mod::lemma_div_denominator(s * kept, s, p);
    vstd::arithmetic::div_mod::lemma_div_multiples_vanish(kept, s);
}

/// The cumulative profit grows by exactly what the two balances together
/// grow by, and it never shrinks.
pub proof fn law_profit_is_balance_growth(state: Arbitrage, venue: Venue, price: u64)
    requires
        state.wf(),
        state.within_limits(),
        price <= MAX_PRICE,
    ensures
        ({
            let next = state.received(venue, price);
            &&& next.total_profit - state.total_profit == (next.dydx_balance + next.aevo_balance) - (
            state.dydx_balance + state.aevo_balance)
            &&& next.total_profit >= state.total_profit
        }),
{
    let stored = state.with_price(venue, price);
    match (stored.dydx_btc_price, stored.aevo_btc_price) {
        (Some(d), Some(a)) => {
            match stored.buyer(d, a) {
                Some(Venue::DyDx) => {
                    lemma_trade_bounds(
                        d as int,
                        a as int,
                        state.max_trade_amount as int,
                        state.fees as int,
                    );
                    law_trade_never_loses(d, a, state.max_trade_amount, state.fees);
                },
                Some(Venue::Aevo) => {
                    lemma_trade_bounds(
                        a as int,
                        d as int,
                        state.max_trade_amount as int,
                        state.fees as int,
                    );
                    law_trade_never_loses(a, d, state.max_trade_amount, state.fees);
                },
                None => {},
            }
        },
        _ => {},
    }
}

} // verus!

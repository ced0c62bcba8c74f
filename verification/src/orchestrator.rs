//! The orchestrator: it owns the engine, feeds it the prices in the order in
//! which they arrive, and says after each one how long to pause, or that the
//! run is over.

use vstd::prelude::*;
use crate::arbitrage::{Arbitrage, TradeRecord, Venue, MAX_PRICE};

verus! {

/// A price that arrived from a venue, in millionths, as it was decoded: it
/// may be below zero or above what the engine takes.
#[derive(Clone, Copy, Debug, PartialEq, Eq, Structural)]
pub struct PriceEvent {
    pub venue: Venue,
    pub price: i64,
}

/// What the orchestrator did with one event.
#[derive(Clone, Copy, Debug, PartialEq, Eq, Structural)]
pub enum Step {
    /// A balance is at or below the minimum: the run is over and the event
    /// was not looked at.
    Halted,
    /// The price is below zero or above the engine's range, or a balance has
    /// left the range in which a trade can be booked: the price was not
    /// stored and nothing was decided.
    Rejected,
    /// The event went through the engine. `cooldown_secs` is the pause that a
    /// trade asks for, zero where there was none; `pacing_secs` the pause
    /// after every event.
    Processed { record: Option<TradeRecord>, cooldown_secs: u64, pacing_secs: u64 },
}

/// The engine with the settings of a run.
#[derive(Clone, Copy, Debug, PartialEq, Eq, Structural)]
pub struct Orchestrator {
    pub engine: Arbitrage,
    pub min_balance: i128,
    pub cooldown_secs: u64,
    pub pacing_secs: u64,
}

impl Orchestrator {
    pub open spec fn wf(self) -> bool {
        self.engine.wf()
    }

    /// Both balances exceed the minimum.
    pub open spec fn running(self) -> bool {
        self.engine.dydx_balance > self.min_balance && self.engine.aevo_balance > self.min_balance
    }

    /// The event is one that the engine can take in this state: its price is
    /// within the engine's range, from zero to `MAX_PRICE`, and the balances
    /// leave room for a trade.
    pub open spec fn accepts(self, event: PriceEvent) -> bool {
        0 <= event.price <= MAX_PRICE && self.engine.within_limits()
    }

    /// The orchestrator after one event.
    pub open spec fn stepped(self, event: PriceEvent) -> Orchestrator {
        if self.running() && self.accepts(event) {
            Orchestrator { engine: self.engine.received(event.venue, event.price as u64), ..self }
        } else {
            self
        }
    }

    /// What one event gives.
    pub open spec fn step_of(self, event: PriceEvent) -> Step {
        if !self.running() {
            Step::Halted
        } else if !self.accepts(event) {
            Step::Rejected
        } else {
            let record = self.engine.received_record(event.venue, event.price as u64);
            Step::Processed {
                record,
                cooldown_secs: if record is Some { self.cooldown_secs } else { 0 },
                pacing_secs: self.pacing_secs,
            }
        }
    }

    /// The orchestrator after the events of `events`, in their order.
    pub open spec fn ran(self, events: Seq<PriceEvent>) -> Orchestrator
        decreases events.len(),
    {
        if events.len() == 0 {
            self
        } else {
            self.ran(events.drop_last()).stepped(events.last())
        }
    }

    /// The trades that the events of `events` lead to, in their order.
    pub open spec fn trades(self, events: Seq<PriceEvent>) -> Seq<TradeRecord>
        decreases events.len(),
    {
        if events.len() == 0 {
            Seq::empty()
        } else {
            let before = self.trades(events.drop_last());
            match self.ran(events.drop_last()).step_of(events.last()) {
                Step::Processed { record: Some(record), .. } => before.push(record),
                _ => before,
            }
        }
    }

    /// An orchestrator around `engine`.
    pub fn new(engine: Arbitrage, min_balance: i128, cooldown_secs: u64, pacing_secs: u64) -> (r: Self)
        requires
            engine.wf(),
        ensures
            r == (Orchestrator { engine, min_balance, cooldown_secs, pacing_secs }),
            r.wf(),
    {
        Orchestrator { engine, min_balance, cooldown_secs, pacing_secs }
    }

    /// Whether the run goes on: both balances exceed the minimum.
    pub fn should_continue(&self) -> (r: bool)
        ensures
            r == self.running(),
    {
        self.engine.dydx_balance > self.min_balance && self.engine.aevo_balance > self.min_balance
    }

    /// Takes one event. Once a balance is at or below the minimum nothing is
    /// processed any more. A price below zero, or above `MAX_PRICE`, is
    /// rejected: the engine trades at no such price and does not store it.
    pub fn step(&mut self, event: PriceEvent) -> (r: Step)
        requires
            old(self).wf(),
        ensures
            *final(self) == old(self).stepped(event),
            r == old(self).step_of(event),
            final(self).wf(),
            !old(self).running() ==> *final(self) == *old(self) && r == Step::Halted,
            r is Halted <==> !old(self).running(),
    {
        if !self.should_continue() {
            return Step::Halted;
        }
        if event.price < 0 || event.price > MAX_PRICE as i64 || !self.engine.has_room() {
            return Step::Rejected;
        }
        let record = self.engine.on_price(event.venue, event.price as u64);
        let cooldown_secs: u64 = if record.is_some() {
            self.cooldown_secs
        } else {
            0
        };
        Step::Processed { record, cooldown_secs, pacing_secs: self.pacing_secs }
    }

    /// Takes the events of `events` in their order, without pausing, and
    /// returns the trades made.
    pub fn run(&mut self, events: &Vec<PriceEvent>) -> (r: Vec<TradeRecord>)
        requires
            old(self).wf(),
        ensures
            *final(self) == old(self).ran(events@),
            r@ == old(self).trades(events@),
            final(self).wf(),
            !old(self).running() ==> *final(self) == *old(self) && r@.len() == 0,
    {
        proof {
            if !self.running() {
                law_halted_run_processes_nothing(*self, events@);
            }
        }
        let mut records: Vec<TradeRecord> = Vec::new();
        let mut i: usize = 0;
        assert(events@.take(0) =~= Seq::<PriceEvent>::empty());
        while i < events.len()
            invariant
                0 <= i <= events.len(),
                self.wf(),
                *self == old(self).ran(events@.take(i as int)),
                records@ == old(self).trades(events@.take(i as int)),
            decreases events.len() - i,
        {
            let event = events[i];
            proof {
                let next = events@.take(i as int + 1);
                assert(next.drop_last() =~= events@.take(i as int));
                assert(next.last() == event);
            }
            match self.step(event) {
                Step::Processed { record: Some(record), .. } => {
                    records.push(record);
                },
                _ => {},
            }
            i = i + 1;
        }
        assert(events@.take(i as int) =~= events@);
        records
    }
}

/// Once a balance is at or below the minimum, no event is processed any more:
/// whatever arrives, the state stays as it is and no trade is made.
pub proof fn law_halted_run_processes_nothing(state: Orchestrator, events: Seq<PriceEvent>)
    requires
        !state.running(),
    ensures
        state.ran(events) == state,
        state.trades(events) == Seq::<TradeRecord>::empty(),
    decreases events.len(),
{
    if events.len() > 0 {
        law_halted_run_processes_nothing(state, events.drop_last());
    }
}

/// The settings of a run never change, whatever arrives.
pub proof fn law_settings_are_kept(state: Orchestrator, event: PriceEvent)
    ensures
        state.stepped(event).min_balance == state.min_balance,
        state.stepped(event).cooldown_secs == state.cooldown_secs,
        state.stepped(event).pacing_secs == state.pacing_secs,
        state.stepped(event).engine.fees == state.engine.fees,
        state.stepped(event).engine.max_trade_amount == state.engine.max_trade_amount,
{
}

} // verus!

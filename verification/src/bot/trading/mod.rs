use crate::bot::trading::broker::Broker;
use crate::utils::config::Coin;
use crate::utils::registry::Registry;
use vstd::prelude::*;

pub mod broker;

verus! {

/// What a tick asks of the brokers.
#[derive(Debug, Clone, Copy, PartialEq, Eq, Structural)]
pub enum Tick {
    Silent,
    Actionable,
    Output,
}

impl Tick {
    /// The pulse for a tick: actionable outranks output, and a tick that is
    /// neither is silent.
    pub open spec fn of(debug: bool, actionable: bool) -> Tick {
        if actionable {
            Tick::Actionable
        } else if debug {
            Tick::Output
        } else {
            Tick::Silent
        }
    }

    pub fn from_flags(debug: bool, actionable: bool) -> (tick: Tick)
        ensures
            tick == Tick::of(debug, actionable),
    {
        let mut tick = Tick::Silent;
        if debug {
            tick = Tick::Output;
        }
        if actionable {
            tick = Tick::Actionable;
        }
        tick
    }
}

/// How many of `brokers` have no desk.
pub open spec fn idle(brokers: Seq<Broker>) -> nat
    decreases brokers.len(),
{
    if brokers.len() == 0 {
        0
    } else {
        idle(brokers.drop_last()) + if brokers.last().started() {
            0nat
        } else {
            1nat
        }
    }
}

/// No more brokers are idle than there are brokers.
pub proof fn lemma_idle_bound(brokers: Seq<Broker>)
    ensures
        idle(brokers) <= brokers.len(),
    decreases brokers.len(),
{
    if brokers.len() > 0 {
        lemma_idle_bound(brokers.drop_last());
    }
}

/// The brokers of one exchange, by symbol.
pub struct Trader {
    brokers: Registry<Broker>,
}

impl Trader {
    pub closed spec fn wf(&self) -> bool {
        self.brokers.wf()
    }

    /// The symbols that have a broker, in order of registration.
    pub closed spec fn symbols(&self) -> Seq<Seq<char>> {
        self.brokers.names()
    }

    /// The brokers, each at the place of its symbol.
    pub closed spec fn brokers(&self) -> Seq<Broker> {
        self.brokers.items()
    }

    pub fn new() -> (trader: Trader)
        ensures
            trader.wf(),
            trader.symbols().len() == 0,
            trader.brokers().len() == 0,
    {
        Trader { brokers: Registry::new() }
    }

    /// Gives `symbol` a new broker, in place of the one it had.
    pub fn register_book(&mut self, symbol: String)
        requires
            old(self).wf(),
        ensures
            final(self).wf(),
            final(self).symbols().len() == final(self).brokers().len(),
            final(self).symbols().contains(symbol@),
            forall|i: int|
                0 <= i < old(self).symbols().len() ==> final(self).symbols()[i] == old(self).symbols()[i],
            final(self).symbols().len() == if old(self).symbols().contains(symbol@) {
                old(self).symbols().len()
            } else {
                old(self).symbols().len() + 1
            },
            forall|i: int|
                0 <= i < final(self).symbols().len() ==> if final(self).symbols()[i] == symbol@ {
                    (#[trigger] final(self).brokers()[i]).name() == symbol@ && !final(self).brokers()[i].started()
                } else {
                    i < old(self).brokers().len() && final(self).brokers()[i] == old(self).brokers()[i]
                },
    {
        let broker = Broker::new(symbol.clone());
        proof {
            if self.brokers.names().contains(symbol@) {
                let at = self.brokers.names().index_of(symbol@);
                self.brokers.lemma_place(at);
            }
        }
        self.brokers.insert(symbol, broker);
        proof {
            let last = self.brokers.names().len() - 1;
            if !old(self).brokers.names().contains(symbol@) {
                assert(self.brokers.names()[last] == symbol@);
            } else {
                let at = old(self).brokers.names().index_of(symbol@);
                assert(self.brokers.names()[at] == symbol@);
            }
            assert forall|i: int| 0 <= i < self.symbols().len() implies if self.symbols()[i]
                == symbol@ {
                (#[trigger] self.brokers()[i]).name() == symbol@ && !self.brokers()[i].started()
            } else {
                i < old(self).brokers().len() && self.brokers()[i] == old(self).brokers()[i]
            } by {
                self.brokers.lemma_place(i);
                if old(self).brokers.names().contains(symbol@) {
                    old(self).brokers.lemma_place(i);
                }
            }
        }
    }

    /// Starts every broker on its coin's band. Returns how many brokers were
    /// left without one because `coins` does not list their symbol.
    pub fn start(&mut self, coins: &Vec<Coin>, max_transactions: i64) -> (idle: usize)
        requires
            old(self).wf(),
        ensures
            final(self).wf(),
            final(self).symbols() == old(self).symbols(),
            final(self).brokers().len() == old(self).brokers().len(),
            forall|i: int|
                0 <= i < final(self).brokers().len() ==> (#[trigger] final(self).brokers()[i])
                    == old(self).brokers()[i].begun(coins@, max_transactions),
            forall|i: int|
                0 <= i < final(self).brokers().len() ==> (#[trigger] final(self).brokers()[i]).name()
                    == old(self).brokers()[i].name() && final(self).brokers()[i].desk()
                    == Broker::desk_from(coins@, old(self).brokers()[i].name(), max_transactions),
            idle == self::idle(final(self).brokers()),
    {
        let n = self.brokers.len();
        let mut idle: usize = 0;
        let mut i: usize = 0;
        assert(self.brokers.items().take(0) =~= Seq::<Broker>::empty());
        while i < n
            invariant
                i <= n,
                idle <= i,
                idle == self::idle(self.brokers.items().take(i as int)),
                n == self.brokers.items().len(),
                self.brokers.wf(),
                self.brokers.names() == old(self).brokers.names(),
                forall|k: int|
                    0 <= k < i ==> (#[trigger] self.brokers.items()[k]) == old(self).brokers.items()[k].begun(coins@, max_transactions),
                forall|k: int|
                    0 <= k < i ==> (#[trigger] self.brokers.items()[k]).name() == old(self).brokers.items()[k].name()
                        && self.brokers.items()[k].desk() == Broker::desk_from(
                        coins@,
                        old(self).brokers.items()[k].name(),
                        max_transactions,
                    ),
                forall|k: int|
                    i <= k < n ==> (#[trigger] self.brokers.items()[k]) == old(self).brokers.items()[k],
            decreases n - i,
        {
            let ghost before = self.brokers.items();
            let broker = self.brokers.item_mut(i);
            let found = broker.start(coins, max_transactions);
            if !found {
                idle += 1;
            }
            proof {
                let now = self.brokers.items();
                assert(now.take(i + 1).drop_last() =~= before.take(i as int));
                assert(now.take(i + 1).last() == now[i as int]);
            }
            i += 1;
        }
        assert(self.brokers.items().take(i as int) =~= self.brokers.items());
        idle
    }

    pub fn len(&self) -> (len: usize)
        requires
            self.wf(),
        ensures
            len == self.brokers().len(),
    {
        self.brokers.len()
    }

    /// The broker at `slot`.
    pub fn broker(&self, slot: usize) -> (broker: &Broker)
        requires
            self.wf(),
            slot < self.brokers().len(),
        ensures
            *broker == self.brokers()[slot as int],
    {
        self.brokers.item(slot)
    }
}

} // verus!

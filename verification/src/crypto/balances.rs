use crate::utils::registry::Registry;
use vstd::prelude::*;

verus! {

/// What an account holds of one currency.
#[derive(Debug)]
pub struct Balance {
    pub symbol: String,
    pub available: i64,
    pub locked: i64,
}

impl Balance {
    pub fn new(symbol: String, available: i64, locked: i64) -> (balance: Balance)
        ensures
            balance == (Balance { symbol, available, locked }),
    {
        Balance { symbol, available, locked }
    }
}

/// The last balance that `balances` reports for `symbol`.
pub open spec fn latest(balances: Seq<Balance>, symbol: Seq<char>) -> Option<Balance>
    decreases balances.len(),
{
    if balances.len() == 0 {
        None
    } else if balances.last().symbol@ == symbol {
        Some(balances.last())
    } else {
        latest(balances.drop_last(), symbol)
    }
}

/// The balances of one account, by currency.
pub struct BalanceMap {
    inner: Registry<Balance>,
}

impl BalanceMap {
    /// The balance held for `symbol`, if the venue reported one.
    pub closed spec fn balance_of(&self, symbol: Seq<char>) -> Option<Balance> {
        self.inner.lookup(symbol)
    }

    pub closed spec fn wf(&self) -> bool {
        self.inner.wf()
    }

    pub fn new() -> (balances: BalanceMap)
        ensures
            balances.wf(),
            forall|symbol: Seq<char>| balances.balance_of(symbol).is_none(),
    {
        let balances = BalanceMap { inner: Registry::new() };
        assert forall|symbol: Seq<char>| balances.balance_of(symbol).is_none() by {
            assert(!balances.inner.names().contains(symbol));
        }
        balances
    }

    /// Replaces all balances by those that the venue has just reported; of
    /// two reports for one currency the later counts.
    pub fn reload(&mut self, inner: Vec<Balance>)
        ensures
            final(self).wf(),
            forall|symbol: Seq<char>| #[trigger]
                final(self).balance_of(symbol) == latest(inner@, symbol),
    {
        let mut fresh: Registry<Balance> = Registry::new();
        let mut inner = inner;
        let ghost reported = inner@;
        assert forall|symbol: Seq<char>| #[trigger]
            fresh.lookup(symbol) == latest(reported.take(0), symbol) by {
            assert(!fresh.names().contains(symbol));
        }
        let mut rest: Vec<Balance> = Vec::new();
        // Reverse once, so that the balances can be moved out front to back.
        while inner.len() > 0
            invariant
                inner@.len() + rest@.len() == reported.len(),
                forall|i: int| 0 <= i < inner@.len() ==> inner@[i] == reported[i],
                forall|i: int|
                    0 <= i < rest@.len() ==> rest@[i] == reported[reported.len() - 1 - i],
            decreases inner.len(),
        {
            let balance = inner.pop().unwrap();
            rest.push(balance);
        }
        let ghost mut done: int = 0;
        while rest.len() > 0
            invariant
                fresh.wf(),
                0 <= done,
                done + rest@.len() == reported.len(),
                forall|i: int|
                    0 <= i < rest@.len() ==> rest@[i] == reported[reported.len() - 1 - i],
                forall|symbol: Seq<char>| #[trigger]
                    fresh.lookup(symbol) == latest(reported.take(done), symbol),
            decreases rest.len(),
        {
            let balance = rest.pop().unwrap();
            let name = balance.symbol.clone();
            proof {
                assert(balance == reported[done]);
                assert(reported.take(done + 1).drop_last() =~= reported.take(done));
                assert(reported.take(done + 1).last() == balance);
            }
            fresh.insert(name, balance);
            proof {
                done = done + 1;
            }
        }
        assert(reported.take(done) =~= reported);
        self.inner = fresh;
    }

    pub fn get_balance_for_symbol(&self, symbol: &String) -> (balance: Option<&Balance>)
        requires
            self.wf(),
        ensures
            match balance {
                Some(balance) => self.balance_of(symbol@) == Some(*balance),
                None => self.balance_of(symbol@).is_none(),
            },
    {
        self.inner.get(symbol)
    }
}

} // verus!

use crate::bot::trading::broker::configured;
use crate::bot::trading::Tick;
use crate::crypto::balances::{latest, Balance, BalanceMap};
use crate::crypto::treasury::{ExecutableTransaction, Treasured};
use crate::exchanges::kraken::bookkeeper::Bookkeeper;
use crate::exchanges::kraken::client::Client;
use crate::exchanges::Exchange;
use crate::utils::config::Config;
use crate::utils::listed;
use vstd::prelude::*;
use vstd::string::StringExecFns;

pub mod bookkeeper;
pub mod client;

verus! {

/// A pair that the venue lists.
#[derive(Debug)]
pub struct Asset {
    pub altname: String,
    pub wsname: Option<String>,
    pub base: String,
    pub quote: String,
}

impl Asset {
    /// Both assets read the same in every field.
    pub open spec fn same(&self, other: &Asset) -> bool {
        &&& self.altname@ == other.altname@
        &&& crate::database::text(self.wsname) == crate::database::text(other.wsname)
        &&& self.base@ == other.base@
        &&& self.quote@ == other.quote@
    }

    pub fn eq(&self, other: &Asset) -> (equal: bool)
        ensures
            equal == self.same(other),
    {
        let names = match (&self.wsname, &other.wsname) {
            (Some(a), Some(b)) => *a == *b,
            (None, None) => true,
            _ => false,
        };
        names && self.altname == other.altname && self.base == other.base && self.quote == other.quote
    }
}

/// The pair has a name on the stream, its base is configured, and it
/// trades against the quote currency.
pub open spec fn is_tradable(asset: Asset, coins: Seq<crate::utils::config::Coin>, quote: Seq<char>) -> bool {
    &&& asset.wsname.is_some()
    &&& configured(coins, asset.base@).is_some()
    &&& asset.quote@ == quote
}

/// One of `assets` reads like `asset`.
pub open spec fn holds(assets: Seq<Asset>, asset: Asset) -> bool {
    exists|i: int| 0 <= i < assets.len() && (#[trigger] assets[i]).same(&asset)
}

/// The pairs to trade among `pairs`: the tradable ones, without those that
/// read like one picked before.
pub open spec fn picked(pairs: Seq<Asset>, coins: Seq<crate::utils::config::Coin>, quote: Seq<char>) -> Seq<
    Asset,
>
    decreases pairs.len(),
{
    if pairs.len() == 0 {
        Seq::empty()
    } else {
        let earlier = picked(pairs.drop_last(), coins, quote);
        if is_tradable(pairs.last(), coins, quote) && !holds(earlier, pairs.last()) {
            earlier.push(pairs.last())
        } else {
            earlier
        }
    }
}

/// The driver of the venue.
pub struct Kraken {
    client: Client,
    bookkeeper: Bookkeeper,
    balances: BalanceMap,
}

impl Kraken {
    pub closed spec fn wf(&self) -> bool {
        &&& self.bookkeeper.wf()
        &&& self.balances.wf()
    }

    pub closed spec fn spec_client(&self) -> Client {
        self.client
    }

    pub closed spec fn spec_bookkeeper(&self) -> Bookkeeper {
        self.bookkeeper
    }

    pub closed spec fn balance_map(&self) -> BalanceMap {
        self.balances
    }

    pub fn new(api_key: String, api_secret: String) -> (kraken: Kraken)
        ensures
            kraken.wf(),
            kraken.spec_client().api_key() == api_key@,
            kraken.spec_client().api_secret() == api_secret@,
            kraken.spec_bookkeeper().symbols().len() == 0,
            forall|symbol: Seq<char>| kraken.balance_map().balance_of(symbol).is_none(),
    {
        Kraken {
            client: Client::new(api_key, api_secret),
            bookkeeper: Bookkeeper::new(),
            balances: BalanceMap::new(),
        }
    }

    pub fn client(&self) -> (client: &Client)
        ensures
            *client == self.spec_client(),
    {
        &self.client
    }

    pub fn bookkeeper(&self) -> (bookkeeper: &Bookkeeper)
        requires
            self.wf(),
        ensures
            bookkeeper.wf(),
            *bookkeeper == self.spec_bookkeeper(),
    {
        &self.bookkeeper
    }

    /// Replaces the balances by what the venue reports: an amount for each
    /// currency, all of it available.
    pub fn reload_balances(&mut self, amounts: Vec<(String, i64)>)
        requires
            old(self).wf(),
        ensures
            final(self).wf(),
            final(self).spec_client() == old(self).spec_client(),
            final(self).spec_bookkeeper() == old(self).spec_bookkeeper(),
            forall|symbol: Seq<char>| #[trigger]
                final(self).balance_map().balance_of(symbol) == latest(Self::reported(amounts@), symbol),
    {
        let mut balances: Vec<Balance> = Vec::new();
        let mut i: usize = 0;
        while i < amounts.len()
            invariant
                i <= amounts.len(),
                balances@.len() == i,
                forall|k: int| 0 <= k < i ==> balances@[k] == Self::reported(amounts@)[k],
            decreases amounts.len() - i,
        {
            balances.push(Balance::new(amounts[i].0.clone(), amounts[i].1, 0));
            i += 1;
        }
        assert(balances@ =~= Self::reported(amounts@));
        self.balances.reload(balances);
    }

    /// The balances that a list of amounts by currency reports.
    pub open spec fn reported(amounts: Seq<(String, i64)>) -> Seq<Balance> {
        Seq::new(
            amounts.len(),
            |i: int| Balance { symbol: amounts[i].0, available: amounts[i].1, locked: 0 },
        )
    }

    /// Picks from the venue's pairs those to trade: the ones with a name on
    /// the stream whose base is configured and which trade against the
    /// quote currency, none twice.
    pub fn get_tradable_pairs(pairs: &Vec<Asset>, config: &Config) -> (tradable: Vec<Asset>)
        ensures
            tradable@.len() == picked(pairs@, config.coins@, config.quote_currency@).len(),
            forall|i: int|
                0 <= i < tradable@.len() ==> (#[trigger] tradable@[i]).same(
                    &picked(pairs@, config.coins@, config.quote_currency@)[i],
                ),
            forall|i: int| 0 <= i < tradable@.len() ==> (#[trigger] tradable@[i]).wsname.is_some(),
    {
        let mut tradable: Vec<Asset> = Vec::new();
        let mut i: usize = 0;
        assert(pairs@.take(0) =~= Seq::<Asset>::empty());
        while i < pairs.len()
            invariant
                i <= pairs.len(),
                tradable@.len() == picked(
                    pairs@.take(i as int),
                    config.coins@,
                    config.quote_currency@,
                ).len(),
                forall|k: int|
                    0 <= k < tradable@.len() ==> (#[trigger] tradable@[k]).same(
                        &picked(pairs@.take(i as int), config.coins@, config.quote_currency@)[k],
                    ),
                forall|k: int| 0 <= k < tradable@.len() ==> (#[trigger] tradable@[k]).wsname.is_some(),
            decreases pairs.len() - i,
        {
            let asset = &pairs[i];
            let ghost earlier = picked(pairs@.take(i as int), config.coins@, config.quote_currency@);
            proof {
                assert(pairs@.take(i + 1).drop_last() =~= pairs@.take(i as int));
                assert(pairs@.take(i + 1).last() == pairs@[i as int]);
            }
            if let Some(wsname) = &asset.wsname {
                if Self::is_configured(&config.coins, &asset.base) && asset.quote
                    == config.quote_currency {
                    let mut known = false;
                    let mut k: usize = 0;
                    while k < tradable.len()
                        invariant
                            k <= tradable.len(),
                            tradable@.len() == earlier.len(),
                            forall|j: int|
                                0 <= j < tradable@.len() ==> (#[trigger] tradable@[j]).same(&earlier[j]),
                            known <==> exists|j: int| 0 <= j < k && (#[trigger] earlier[j]).same(asset),
                        decreases tradable.len() - k,
                    {
                        if tradable[k].eq(asset) {
                            known = true;
                            assert(tradable@[k as int].same(&earlier[k as int]));
                            assert(earlier[k as int].same(asset));
                        } else {
                            assert(tradable@[k as int].same(&earlier[k as int]));
                            assert(!earlier[k as int].same(asset));
                        }
                        k += 1;
                    }
                    assert(known <==> holds(earlier, *asset));
                    if !known {
                        tradable.push(
                            Asset {
                                altname: asset.altname.clone(),
                                wsname: Some(wsname.clone()),
                                base: asset.base.clone(),
                                quote: asset.quote.clone(),
                            },
                        );
                    }
                }
            }
            i += 1;
        }
        assert(pairs@.take(i as int) =~= pairs@);
        tradable
    }

    fn is_configured(coins: &Vec<crate::utils::config::Coin>, symbol: &String) -> (found: bool)
        ensures
            found == configured(coins@, symbol@).is_some(),
    {
        let mut i: usize = 0;
        assert(coins@.skip(0) =~= coins@);
        while i < coins.len()
            invariant
                i <= coins.len(),
                configured(coins@, symbol@) == configured(coins@.skip(i as int), symbol@),
            decreases coins.len() - i,
        {
            if coins[i].symbol == *symbol {
                return true;
            }
            assert(coins@.skip(i as int).drop_first() =~= coins@.skip(i + 1));
            i += 1;
        }
        false
    }

    /// Starts the driver: the pairs to trade among the venue's get their
    /// bookies. Returns the names of those pairs on the stream.
    pub fn boot(&mut self, pairs: &Vec<Asset>, config: &Config) -> (names: Vec<String>)
        requires
            old(self).wf(),
        ensures
            final(self).wf(),
            final(self).spec_client() == old(self).spec_client(),
            final(self).balance_map() == old(self).balance_map(),
            names@.len() == picked(pairs@, config.coins@, config.quote_currency@).len(),
            forall|i: int|
                0 <= i < names@.len() ==> Some((#[trigger] names@[i])@) == crate::database::text(
                    picked(pairs@, config.coins@, config.quote_currency@)[i].wsname,
                ),
            forall|symbol: Seq<char>|
                #![trigger final(self).spec_bookkeeper().symbols().contains(symbol)]
                #![trigger listed(names@, symbol)]
                final(self).spec_bookkeeper().symbols().contains(symbol) <==> old(self).spec_bookkeeper().symbols().contains(symbol)
                    || listed(names@, symbol),
            forall|k: int|
                0 <= k < final(self).spec_bookkeeper().symbols().len() && listed(
                    names@,
                    #[trigger] final(self).spec_bookkeeper().symbols()[k],
                ) ==> final(self).spec_bookkeeper().bookies()[k].is_fresh(
                    final(self).spec_bookkeeper().symbols()[k],
                ),
            forall|k: int|
                0 <= k < final(self).spec_bookkeeper().symbols().len() && !listed(
                    names@,
                    #[trigger] final(self).spec_bookkeeper().symbols()[k],
                ) ==> k < old(self).spec_bookkeeper().symbols().len() && final(self).spec_bookkeeper().bookies()[k] === old(self).spec_bookkeeper().bookies()[k],
    {
        let tradable = Self::get_tradable_pairs(pairs, config);
        let ghost wanted = picked(pairs@, config.coins@, config.quote_currency@);
        let mut names: Vec<String> = Vec::new();
        let mut i: usize = 0;
        while i < tradable.len()
            invariant
                i <= tradable.len(),
                names@.len() == i,
                tradable@.len() == wanted.len(),
                forall|k: int| 0 <= k < tradable@.len() ==> (#[trigger] tradable@[k]).same(&wanted[k]),
                forall|k: int| 0 <= k < tradable@.len() ==> (#[trigger] tradable@[k]).wsname.is_some(),
                forall|k: int|
                    0 <= k < i ==> Some((#[trigger] names@[k])@) == crate::database::text(
                        wanted[k].wsname,
                    ),
            decreases tradable.len() - i,
        {
            assert(tradable@[i as int].same(&wanted[i as int]));
            match &tradable[i].wsname {
                Some(name) => {
                    names.push(name.clone());
                },
                None => {},
            }
            i += 1;
        }
        self.bookkeeper.boot(&names);
        names
    }

    /// The answer to an order: the stand-in id that the driver gives while
    /// it places no orders.
    pub fn execute_transaction(&mut self, transaction: &ExecutableTransaction) -> (id: String)
        ensures
            id@ == "test ser"@,
            *final(self) == *old(self),
    {
        String::from_str("test ser")
    }
}

impl Exchange for Kraken {
    fn get_identifier(&self) -> (identifier: String)
        ensures
            identifier@ == "kraken"@,
    {
        String::from_str("kraken")
    }

    fn get_display_name(&self) -> (name: String)
        ensures
            name@ == "Kraken"@,
    {
        String::from_str("Kraken")
    }

    fn tick(&self, debug: bool, actionable: bool) -> (tick: Tick) {
        Tick::from_flags(debug, actionable)
    }
}

impl Treasured for Kraken {
    fn request_balances(&self) -> (balances: &BalanceMap)
        ensures
            *balances == self.balance_map(),
    {
        &self.balances
    }
}

} // verus!

use itertools::Itertools;
use std::cmp::Ordering;
use crate::utils::{rounded, rounded_text};
use vstd::prelude::*;
use vstd::string::StringExecFns;

verus! {

/// `hashbrown::HashMap`, which the ledgers and the registries keep their
/// entries in. Nothing is known of what is inside one but what the
/// functions around it say.
#[verifier::external_type_specification]
#[verifier::external_body]
#[verifier::reject_recursive_types(K)]
#[verifier::reject_recursive_types(V)]
#[verifier::reject_recursive_types(S)]
pub struct ExHashMap<K, V, S>(hashbrown::HashMap<K, V, S>);

/// `hashbrown::hash_map::DefaultHashBuilder`, the hasher of those maps.
#[verifier::external_type_specification]
#[verifier::external_body]
pub struct ExDefaultHashBuilder(hashbrown::hash_map::DefaultHashBuilder);

/// The price levels that a ledger's hash map holds, each with its quantity.
pub uninterp spec fn levels(map: hashbrown::HashMap<i64, i64>) -> Map<i64, i64>;

/// The ledger without price levels.
pub open spec fn no_levels() -> Map<i64, i64> {
    Map::empty()
}

/// `hashbrown::HashMap::new`: the map it returns holds nothing.
#[verifier::external_body]
fn levels_new() -> (fresh: hashbrown::HashMap<i64, i64>)
    ensures
        levels(fresh) == no_levels(),
{
    hashbrown::HashMap::new()
}

/// `hashbrown::HashMap::insert`: the key then maps to the new value, every
/// other key is untouched, and the value that the key had before comes back.
#[verifier::external_body]
fn levels_insert(map: &mut hashbrown::HashMap<i64, i64>, price: i64, quantity: i64) -> (previous:
    Option<i64>)
    ensures
        levels(*final(map)) == levels(*old(map)).insert(price, quantity),
        previous == lookup(levels(*old(map)), price),
{
    map.insert(price, quantity)
}

/// `hashbrown::HashMap::remove`: the key is gone afterwards, every other key
/// is untouched, and the value that the key had comes back.
#[verifier::external_body]
fn levels_remove(map: &mut hashbrown::HashMap<i64, i64>, price: i64) -> (previous: Option<i64>)
    ensures
        levels(*final(map)) == levels(*old(map)).remove(price),
        previous == lookup(levels(*old(map)), price),
{
    map.remove(&price)
}

/// `hashbrown::HashMap::clear`: the map holds nothing afterwards.
#[verifier::external_body]
fn levels_clear(map: &mut hashbrown::HashMap<i64, i64>)
    ensures
        levels(*final(map)) == no_levels(),
{
    map.clear()
}

/// `hashbrown::HashMap::keys`: every key of the map is visited, once, in an
/// order that the map does not promise.
#[verifier::external_body]
fn levels_keys(map: &hashbrown::HashMap<i64, i64>) -> (keys: Vec<i64>)
    ensures
        keys@.no_duplicates(),
        forall|price: i64| keys@.contains(price) <==> levels(*map).dom().contains(price),
{
    map.keys().copied().collect()
}

/// `itertools::Itertools::sorted_by` over `hashbrown::HashMap::iter`: every
/// entry of the map comes out once, arranged so that the comparison handed in
/// (`ordering.cmp` with its arguments swapped) never puts a later entry before
/// an earlier one; as no two entries share a price, each price lies strictly
/// beyond all that follow it.
#[verifier::external_body]
fn levels_sorted(map: &hashbrown::HashMap<i64, i64>, ordering: &TailOrdering) -> (entries: Vec<
    (i64, i64),
>)
    ensures
        holds_exactly(entries@, levels(*map)),
        descends(entries@, *ordering),
{
    map.iter()
        .sorted_by(|a, b| ordering.cmp(b.0, a.0))
        .map(|(price, quantity)| (*price, *quantity))
        .collect()
}

/// What a map lookup returns for `price`.
pub open spec fn lookup(map: Map<i64, i64>, price: i64) -> Option<i64> {
    if map.dom().contains(price) {
        Some(map[price])
    } else {
        None
    }
}

/// `entries` lists the pairs of `map`, all of them and nothing else.
pub open spec fn holds_exactly(entries: Seq<(i64, i64)>, map: Map<i64, i64>) -> bool {
    &&& forall|i: int|
        0 <= i < entries.len() ==> map.dom().contains((#[trigger] entries[i]).0) && map[entries[i].0]
            == entries[i].1
    &&& forall|price: i64|
        map.dom().contains(price) ==> exists|i: int|
            0 <= i < entries.len() && (#[trigger] entries[i]).0 == price
}

/// Each price of `entries` lies strictly beyond every later one.
pub open spec fn descends(entries: Seq<(i64, i64)>, ordering: TailOrdering) -> bool {
    forall|i: int, j: int|
        0 <= i < j < entries.len() ==> ordering.beyond(
            (#[trigger] entries[i]).0,
            (#[trigger] entries[j]).0,
        )
}

/// `tail` is the extremum of `keys` under `ordering`: absent exactly when
/// there are no keys, else a key that no other key lies beyond.
pub open spec fn is_extremum(keys: Set<i64>, ordering: TailOrdering, tail: Option<i64>) -> bool {
    match tail {
        None => forall|price: i64| !keys.contains(price),
        Some(best) => keys.contains(best) && forall|price: i64|
            keys.contains(price) ==> !ordering.beyond(price, best),
    }
}

/// A set of keys has at most one extremum.
pub proof fn lemma_extremum_unique(
    keys: Set<i64>,
    ordering: TailOrdering,
    first: Option<i64>,
    second: Option<i64>,
)
    requires
        is_extremum(keys, ordering, first),
        is_extremum(keys, ordering, second),
    ensures
        first == second,
{
    match (first, second) {
        (Some(a), Some(b)) => {
            assert(!ordering.beyond(a, b));
            assert(!ordering.beyond(b, a));
        },
        (Some(a), None) => {
            assert(keys.contains(a));
        },
        (None, Some(b)) => {
            assert(keys.contains(b));
        },
        (None, None) => {},
    }
}

/// The levels after `upserts`, applied front to back.
pub open spec fn upserted(map: Map<i64, i64>, upserts: Seq<(i64, i64)>) -> Map<i64, i64>
    decreases upserts.len(),
{
    if upserts.len() == 0 {
        map
    } else {
        upserted(map.insert(upserts.first().0, upserts.first().1), upserts.drop_first())
    }
}

/// No two of `upserts` name the same price.
pub open spec fn distinct_prices(upserts: Seq<(i64, i64)>) -> bool {
    forall|i: int, j: int|
        0 <= i < upserts.len() && 0 <= j < upserts.len() && i != j ==> (#[trigger] upserts[i]).0 != (
        #[trigger] upserts[j]).0
}

/// One of `upserts` names `price`.
pub open spec fn touches(upserts: Seq<(i64, i64)>, price: i64) -> bool {
    exists|i: int| 0 <= i < upserts.len() && (#[trigger] upserts[i]).0 == price
}

/// After upserts at distinct prices, each of them holds its own quantity and
/// every other price holds what it held before.
pub proof fn lemma_upserted(map: Map<i64, i64>, upserts: Seq<(i64, i64)>)
    requires
        distinct_prices(upserts),
    ensures
        forall|price: i64| #[trigger]
            upserted(map, upserts).dom().contains(price) <==> map.dom().contains(price) || touches(
                upserts,
                price,
            ),
        forall|i: int|
            0 <= i < upserts.len() ==> upserted(map, upserts)[(#[trigger] upserts[i]).0]
                == upserts[i].1,
        forall|price: i64|
            !touches(upserts, price) ==> #[trigger] upserted(map, upserts)[price] == map[price],
    decreases upserts.len(),
{
    if upserts.len() > 0 {
        let head = upserts.first();
        let rest = upserts.drop_first();
        let next = map.insert(head.0, head.1);
        assert(distinct_prices(rest)) by {
            assert forall|i: int, j: int|
                0 <= i < rest.len() && 0 <= j < rest.len() && i != j implies (#[trigger] rest[i]).0 != (
            #[trigger] rest[j]).0 by {
                assert(rest[i] == upserts[i + 1]);
                assert(rest[j] == upserts[j + 1]);
            }
        }
        lemma_upserted(next, rest);
        assert(!touches(rest, head.0)) by {
            if touches(rest, head.0) {
                let i = choose|i: int| 0 <= i < rest.len() && (#[trigger] rest[i]).0 == head.0;
                assert(rest[i] == upserts[i + 1]);
                assert(upserts[0].0 != upserts[i + 1].0);
            }
        }
        assert forall|price: i64| touches(upserts, price) <==> price == head.0 || touches(
            rest,
            price,
        ) by {
            if touches(upserts, price) {
                let i = choose|i: int| 0 <= i < upserts.len() && (#[trigger] upserts[i]).0 == price;
                if i > 0 {
                    assert(rest[i - 1] == upserts[i]);
                }
            }
            if touches(rest, price) {
                let i = choose|i: int| 0 <= i < rest.len() && (#[trigger] rest[i]).0 == price;
                assert(rest[i] == upserts[i + 1]);
            }
            if price == head.0 {
                assert(upserts[0].0 == price);
            }
        }
        let after = upserted(next, rest);
        assert(upserted(map, upserts) == after);
        assert forall|i: int| 0 <= i < upserts.len() implies after[(#[trigger] upserts[i]).0]
            == upserts[i].1 by {
            if i > 0 {
                assert(rest[i - 1] == upserts[i]);
            } else {
                assert(after[head.0] == next[head.0]);
            }
        }
        assert forall|price: i64| #[trigger]
            after.dom().contains(price) <==> map.dom().contains(price) || touches(upserts, price) by {
            assert(after.dom().contains(price) <==> next.dom().contains(price) || touches(rest, price));
        }
        assert forall|price: i64| !touches(upserts, price) implies #[trigger] after[price]
            == map[price] by {
            assert(!touches(rest, price));
            assert(after[price] == next[price]);
        }
    }
}

/// Upserts at distinct prices give the same levels in whatever order they
/// are applied.
pub proof fn lemma_upsert_order(map: Map<i64, i64>, first: Seq<(i64, i64)>, second: Seq<(i64, i64)>)
    requires
        distinct_prices(first),
        distinct_prices(second),
        first.to_multiset() == second.to_multiset(),
    ensures
        upserted(map, first) == upserted(map, second),
{
    lemma_upserted(map, first);
    lemma_upserted(map, second);
    first.to_multiset_ensures();
    second.to_multiset_ensures();
    assert forall|price: i64| touches(first, price) <==> touches(second, price) by {
        if touches(first, price) {
            let i = choose|i: int| 0 <= i < first.len() && (#[trigger] first[i]).0 == price;
            assert(first.contains(first[i]));
            assert(first.to_multiset().count(first[i]) > 0);
            assert(second.to_multiset().count(first[i]) > 0);
            assert(second.contains(first[i]));
            let j = choose|j: int| 0 <= j < second.len() && second[j] == first[i];
            assert(second[j].0 == price);
        }
        if touches(second, price) {
            let i = choose|i: int| 0 <= i < second.len() && (#[trigger] second[i]).0 == price;
            assert(second.contains(second[i]));
            assert(second.to_multiset().count(second[i]) > 0);
            assert(first.to_multiset().count(second[i]) > 0);
            assert(first.contains(second[i]));
            let j = choose|j: int| 0 <= j < first.len() && first[j] == second[i];
            assert(first[j].0 == price);
        }
    }
    let a = upserted(map, first);
    let b = upserted(map, second);
    assert forall|price: i64| a.dom().contains(price) implies #[trigger] a[price] == b[price] by {
        if touches(first, price) {
            let i = choose|i: int| 0 <= i < first.len() && (#[trigger] first[i]).0 == price;
            assert(first.contains(first[i]));
            assert(first.to_multiset().count(first[i]) > 0);
            assert(second.to_multiset().count(first[i]) > 0);
            assert(second.contains(first[i]));
            let j = choose|j: int| 0 <= j < second.len() && second[j] == first[i];
            assert(b[second[j].0] == second[j].1);
            assert(a[first[i].0] == first[i].1);
        }
    }
    assert(a =~= b);
}

/// Which end of the price axis a ledger tracks as its tail.
#[derive(Debug, Clone, Copy)]
pub enum TailOrdering {
    Lowest,
    Highest,
}

impl TailOrdering {
    /// `a` lies strictly further toward the tracked end than `b`.
    pub open spec fn beyond(self, a: i64, b: i64) -> bool {
        match self {
            TailOrdering::Lowest => a < b,
            TailOrdering::Highest => a > b,
        }
    }

    /// Compares two prices so that `Greater` means "further toward the
    /// tracked end": the natural order for `Highest`, its reverse for
    /// `Lowest`.
    pub fn cmp(&self, a: &i64, b: &i64) -> (o: Ordering)
        ensures
            o == Ordering::Greater <==> self.beyond(*a, *b),
            o == Ordering::Less <==> self.beyond(*b, *a),
            o == Ordering::Equal <==> *a == *b,
    {
        let toward_tail = match self {
            TailOrdering::Lowest => *a < *b,
            TailOrdering::Highest => *a > *b,
        };
        if toward_tail {
            Ordering::Greater
        } else if *a == *b {
            Ordering::Equal
        } else {
            Ordering::Less
        }
    }
}

/// A change to a ledger's key set that its tail has yet to follow.
#[derive(Debug)]
pub enum TailUpdate {
    Insert(i64),
    Remove(i64),
}

/// One side of an order book: quantity by price, with the best price cached.
#[derive(Debug)]
pub struct Ledger {
    map: hashbrown::HashMap<i64, i64>,
    tail: Option<i64>,
    ordering: TailOrdering,
}

impl View for Ledger {
    type V = Map<i64, i64>;

    closed spec fn view(&self) -> Map<i64, i64> {
        levels(self.map)
    }
}

impl Ledger {
    /// The cached best price.
    pub closed spec fn tail_value(&self) -> Option<i64> {
        self.tail
    }

    /// The end of the price axis that the tail tracks.
    pub closed spec fn order(&self) -> TailOrdering {
        self.ordering
    }

    /// The cached tail is the extremum of the prices held.
    pub open spec fn wf(&self) -> bool {
        is_extremum(self@.dom(), self.order(), self.tail_value())
    }

    /// The tail that `maybe_update_tail` leaves where it does not have to
    /// search the keys; `None` stands for "search".
    pub open spec fn tail_without_search(&self, update: TailUpdate) -> Option<Option<i64>> {
        match update {
            TailUpdate::Insert(at) => match self.tail_value() {
                Some(current) if !self.order().beyond(at, current) => Some(Some(current)),
                _ => Some(Some(at)),
            },
            TailUpdate::Remove(at) => if self.tail_value() == Some(at) {
                None
            } else {
                Some(self.tail_value())
            },
        }
    }

    /// Two ledgers that track the same end and hold the same levels show
    /// the same tail, however they came to hold them.
    pub proof fn lemma_same_levels_same_tail(&self, other: &Ledger)
        requires
            self.wf(),
            other.wf(),
            self@ == other@,
            self.order() == other.order(),
        ensures
            self.tail_value() == other.tail_value(),
    {
        lemma_extremum_unique(self@.dom(), self.order(), self.tail_value(), other.tail_value());
    }

    /// Two ledgers that started from the same levels and took the same
    /// upserts at distinct prices, each in its own order, hold the same
    /// levels and show the same tail.
    pub proof fn lemma_upserts_commute(
        &self,
        other: &Ledger,
        start: Map<i64, i64>,
        first: Seq<(i64, i64)>,
        second: Seq<(i64, i64)>,
    )
        requires
            self.wf(),
            other.wf(),
            self.order() == other.order(),
            distinct_prices(first),
            distinct_prices(second),
            first.to_multiset() == second.to_multiset(),
            self@ == upserted(start, first),
            other@ == upserted(start, second),
        ensures
            self@ == other@,
            self.tail_value() == other.tail_value(),
    {
        lemma_upsert_order(start, first, second);
        self.lemma_same_levels_same_tail(other);
    }

    pub fn new(ordering: TailOrdering) -> (ledger: Ledger)
        ensures
            ledger.wf(),
            ledger@ == no_levels(),
            ledger.order() == ordering,
            ledger.tail_value().is_none(),
    {
        Ledger { map: levels_new(), tail: None, ordering }
    }

    /// `Some(quantity)` inserts or overwrites the level at `price`, zero
    /// included; `None` deletes it. The tail follows.
    pub fn put(&mut self, price: i64, quantity: Option<i64>)
        requires
            old(self).wf(),
        ensures
            final(self).wf(),
            final(self).order() == old(self).order(),
            final(self)@ == match quantity {
                Some(q) => old(self)@.insert(price, q),
                None => old(self)@.remove(price),
            },
    {
        match quantity {
            Some(q) => {
                self.set(price, q);
                self.maybe_update_tail(TailUpdate::Insert(price));
            },
            None => {
                if self.remove(price) {
                    self.maybe_update_tail(TailUpdate::Remove(price));
                } else {
                    assert(self@ == old(self)@);
                }
            },
        }
    }

    /// Brings the tail up to date after the key set changed as `update` says.
    ///
    /// A removal beyond the current tail means the tail was wrong before, and
    /// is excluded.
    pub fn maybe_update_tail(&mut self, update: TailUpdate)
        requires
            match update {
                TailUpdate::Insert(_) => true,
                TailUpdate::Remove(at) => match old(self).tail_value() {
                    Some(tail) => !old(self).order().beyond(at, tail),
                    None => true,
                },
            },
        ensures
            final(self)@ == old(self)@,
            final(self).order() == old(self).order(),
            match old(self).tail_without_search(update) {
                Some(tail) => final(self).tail_value() == tail,
                None => final(self).wf(),
            },
    {
        match update {
            TailUpdate::Insert(at) => {
                let replace = match self.tail {
                    None => true,
                    Some(current) => match self.ordering.cmp(&at, &current) {
                        Ordering::Greater => true,
                        _ => false,
                    },
                };
                if replace {
                    self.tail = Some(at);
                }
            },
            TailUpdate::Remove(at) => {
                if let Some(current) = self.tail {
                    match self.ordering.cmp(&current, &at) {
                        Ordering::Equal => {
                            self.tail = self.find_new_tail();
                        },
                        _ => {},
                    }
                }
            },
        }
    }

    /// The extremum of the prices held, by a pass over all of them.
    fn find_new_tail(&self) -> (tail: Option<i64>)
        ensures
            is_extremum(self@.dom(), self.order(), tail),
    {
        let keys = levels_keys(&self.map);
        let mut best: Option<i64> = None;
        let mut i: usize = 0;
        while i < keys.len()
            invariant
                i <= keys.len(),
                best.is_none() <==> i == 0,
                match best {
                    Some(b) => keys@.contains(b) && forall|j: int|
                        0 <= j < i ==> !self.ordering.beyond(#[trigger] keys@[j], b),
                    None => true,
                },
            decreases keys.len() - i,
        {
            let key = keys[i];
            let better = match best {
                None => true,
                Some(b) => match self.ordering.cmp(&key, &b) {
                    Ordering::Greater => true,
                    _ => false,
                },
            };
            if better {
                best = Some(key);
            }
            i += 1;
        }
        proof {
            match best {
                Some(b) => {
                    assert forall|price: i64| self@.dom().contains(price) implies !self.order().beyond(
                        price,
                        b,
                    ) by {
                        assert(keys@.contains(price));
                        let j = choose|j: int| 0 <= j < keys@.len() && keys@[j] == price;
                        assert(!self.ordering.beyond(keys@[j], b));
                    }
                },
                None => {
                    assert forall|price: i64| !self@.dom().contains(price) by {
                        if self@.dom().contains(price) {
                            assert(keys@.contains(price));
                        }
                    }
                },
            }
        }
        best
    }

    #[inline]
    pub fn tail(&self) -> (tail: Option<i64>)
        ensures
            tail == self.tail_value(),
    {
        self.tail
    }

    #[inline]
    fn set(&mut self, at: i64, with: i64)
        ensures
            final(self)@ == old(self)@.insert(at, with),
            final(self).order() == old(self).order(),
            final(self).tail_value() == old(self).tail_value(),
    {
        levels_insert(&mut self.map, at, with);
    }

    #[inline]
    fn remove(&mut self, at: i64) -> (existed: bool)
        ensures
            final(self)@ == old(self)@.remove(at),
            final(self).order() == old(self).order(),
            final(self).tail_value() == old(self).tail_value(),
            existed == old(self)@.dom().contains(at),
    {
        levels_remove(&mut self.map, at).is_some()
    }

    pub fn clear(&mut self)
        ensures
            final(self).wf(),
            final(self)@ == no_levels(),
            final(self).order() == old(self).order(),
            final(self).tail_value().is_none(),
    {
        levels_clear(&mut self.map);
        self.tail = None;
    }

    /// The levels held, best price first.
    pub fn iter(&self) -> (entries: Vec<(i64, i64)>)
        ensures
            holds_exactly(entries@, self@),
            descends(entries@, self.order()),
    {
        levels_sorted(&self.map, &self.ordering)
    }
}

/// The side of the book that an order belongs to.
#[derive(Debug, Clone, Copy, PartialEq, Eq, Structural)]
pub enum OrderSide {
    Buy,
    Sell,
}

#[derive(Debug, Clone, Copy, PartialEq, Eq, Structural)]
pub enum OrderType {
    Limit,
    Market,
}

/// One change to a book: the quantity now resting at a price on one side,
/// zero meaning that the level is gone.
#[derive(Debug, Clone, Copy)]
pub struct Order {
    side: OrderSide,
    quantity: i64,
    price: i64,
}

impl Order {
    pub closed spec fn side(&self) -> OrderSide {
        self.side
    }

    pub closed spec fn quantity(&self) -> i64 {
        self.quantity
    }

    pub closed spec fn price(&self) -> i64 {
        self.price
    }

    /// What the order asks a ledger to hold at its price.
    pub open spec fn level(&self) -> Option<i64> {
        if self.quantity() == 0 {
            None
        } else {
            Some(self.quantity())
        }
    }

    /// The order for `quantity` at `price` on `side`.
    pub closed spec fn of(side: OrderSide, quantity: i64, price: i64) -> Order {
        Order { side, quantity, price }
    }

    pub fn new(side: OrderSide, quantity: i64, price: i64) -> (order: Order)
        ensures
            order == Order::of(side, quantity, price),
            order.side() == side,
            order.quantity() == quantity,
            order.price() == price,
    {
        Order { side, quantity, price }
    }
}

/// The levels of both sides of a book.
pub ghost struct Depth {
    pub bids: Map<i64, i64>,
    pub asks: Map<i64, i64>,
}

/// `map` after a `put` of `level` at `price`.
pub open spec fn put_level(map: Map<i64, i64>, price: i64, level: Option<i64>) -> Map<i64, i64> {
    match level {
        Some(quantity) => map.insert(price, quantity),
        None => map.remove(price),
    }
}

impl Depth {
    pub open spec fn empty() -> Depth {
        Depth { bids: no_levels(), asks: no_levels() }
    }

    /// The book after one order: buys go to the bids, sells to the asks.
    pub open spec fn apply(self, order: Order) -> Depth {
        match order.side() {
            OrderSide::Buy => Depth {
                bids: put_level(self.bids, order.price(), order.level()),
                asks: self.asks,
            },
            OrderSide::Sell => Depth {
                bids: self.bids,
                asks: put_level(self.asks, order.price(), order.level()),
            },
        }
    }

    /// The book after `orders`, applied front to back.
    pub open spec fn apply_all(self, orders: Seq<Order>) -> Depth
        decreases orders.len(),
    {
        if orders.len() == 0 {
            self
        } else {
            self.apply(orders.first()).apply_all(orders.drop_first())
        }
    }

    /// Applying a batch and then one more order is applying the longer batch.
    pub proof fn lemma_apply_all_push(self, orders: Seq<Order>, last: Order)
        ensures
            self.apply_all(orders.push(last)) == self.apply_all(orders).apply(last),
        decreases orders.len(),
    {
        if orders.len() == 0 {
            assert(orders.push(last).drop_first() =~= orders);
            assert(self.apply(last).apply_all(orders) == self.apply(last));
        } else {
            assert(orders.push(last).drop_first() =~= orders.drop_first().push(last));
            self.apply(orders.first()).lemma_apply_all_push(orders.drop_first(), last);
        }
    }
}

/// The bids and asks of one symbol.
#[derive(Debug)]
pub struct OrderBook {
    symbol: String,
    pub asks: Ledger,
    pub bids: Ledger,
}

impl View for OrderBook {
    type V = Depth;

    closed spec fn view(&self) -> Depth {
        Depth { bids: self.bids@, asks: self.asks@ }
    }
}

impl OrderBook {
    pub closed spec fn symbol(&self) -> Seq<char> {
        self.symbol@
    }

    /// The cached best ask.
    pub closed spec fn best_ask(&self) -> Option<i64> {
        self.asks.tail_value()
    }

    /// The cached best bid.
    pub closed spec fn best_bid(&self) -> Option<i64> {
        self.bids.tail_value()
    }

    /// The asks track the lowest price and the bids the highest.
    pub closed spec fn sides_set(&self) -> bool {
        &&& self.asks.order() == TailOrdering::Lowest
        &&& self.bids.order() == TailOrdering::Highest
    }

    /// The best ask is the lowest ask held and the best bid the highest bid
    /// held.
    pub open spec fn wf(&self) -> bool {
        &&& self.sides_set()
        &&& is_extremum(self@.asks.dom(), TailOrdering::Lowest, self.best_ask())
        &&& is_extremum(self@.bids.dom(), TailOrdering::Highest, self.best_bid())
    }

    pub fn new(symbol: String) -> (book: OrderBook)
        ensures
            book.wf(),
            book@ == Depth::empty(),
            book.symbol() == symbol@,
    {
        OrderBook {
            symbol,
            asks: Ledger::new(TailOrdering::Lowest),
            bids: Ledger::new(TailOrdering::Highest),
        }
    }

    #[inline]
    pub fn lowest_ask(&self) -> (ask: Option<i64>)
        ensures
            ask == self.best_ask(),
    {
        self.asks.tail()
    }

    #[inline]
    pub fn highest_bid(&self) -> (bid: Option<i64>)
        ensures
            bid == self.best_bid(),
    {
        self.bids.tail()
    }

    /// Best bid minus best ask, where both exist; negative on a crossed book.
    pub fn spread(&self) -> (spread: Option<i128>)
        ensures
            spread == match (self.best_bid(), self.best_ask()) {
                (Some(bid), Some(ask)) => Some((bid - ask) as i128),
                _ => None,
            },
    {
        if let (Some(bid), Some(ask)) = (self.highest_bid(), self.lowest_ask()) {
            let wide_bid: i128 = bid as i128;
            let wide_ask: i128 = ask as i128;
            return Some(wide_bid - wide_ask);
        }
        None
    }

    /// Whether the best ask lies below the best bid, an absent ask counting
    /// as below every bid.
    pub fn is_crossed(&self) -> (crossed: bool)
        ensures
            crossed == match (self.best_ask(), self.best_bid()) {
                (Some(ask), Some(bid)) => ask < bid,
                (None, Some(_)) => true,
                _ => false,
            },
    {
        match (self.lowest_ask(), self.highest_bid()) {
            (Some(ask), Some(bid)) => ask < bid,
            (None, Some(_)) => true,
            _ => false,
        }
    }

    /// The top of the book as text: the best bid and the best ask with three
    /// decimals between the names of their sides, or a note that a side is
    /// empty.
    pub open spec fn summary(&self) -> Seq<char> {
        match (self.best_bid(), self.best_ask()) {
            (Some(bid), Some(ask)) => "OB: bids | "@ + rounded(bid as int) + "   "@ + rounded(
                ask as int,
            ) + " | asks"@,
            _ => "OB: empty"@,
        }
    }

    /// The top of the book as text.
    pub fn to_string(&self) -> (text: String)
        ensures
            text@ == self.summary(),
    {
        match (self.highest_bid(), self.lowest_ask()) {
            (Some(bid), Some(ask)) => {
                let mut text = String::from_str("OB: bids | ");
                text.append(rounded_text(bid).as_str());
                text.append("   ");
                text.append(rounded_text(ask).as_str());
                text.append(" | asks");
                text
            },
            _ => String::from_str("OB: empty"),
        }
    }

    /// Applies one order to the side it names.
    pub fn execute(&mut self, order: &Order)
        requires
            old(self).wf(),
        ensures
            final(self).wf(),
            final(self).symbol() == old(self).symbol(),
            final(self)@ == old(self)@.apply(*order),
    {
        let level = if order.quantity == 0 {
            None
        } else {
            Some(order.quantity)
        };
        match order.side {
            OrderSide::Buy => self.bids.put(order.price, level),
            OrderSide::Sell => self.asks.put(order.price, level),
        }
    }

    /// Empties both sides, then applies `bids` and `asks`.
    pub fn reload(&mut self, bids: Vec<Order>, asks: Vec<Order>)
        requires
            old(self).wf(),
        ensures
            final(self).wf(),
            final(self).symbol() == old(self).symbol(),
            final(self)@ == Depth::empty().apply_all(bids@).apply_all(asks@),
    {
        self.bids.clear();
        self.asks.clear();
        self.update(bids, asks);
    }

    /// Applies every order of `bids`, then every order of `asks`, each to the
    /// side that the order itself names.
    pub fn update(&mut self, bids: Vec<Order>, asks: Vec<Order>)
        requires
            old(self).wf(),
        ensures
            final(self).wf(),
            final(self).symbol() == old(self).symbol(),
            final(self)@ == old(self)@.apply_all(bids@).apply_all(asks@),
    {
        self.execute_all(&bids);
        self.execute_all(&asks);
    }

    fn execute_all(&mut self, orders: &Vec<Order>)
        requires
            old(self).wf(),
        ensures
            final(self).wf(),
            final(self).symbol() == old(self).symbol(),
            final(self)@ == old(self)@.apply_all(orders@),
    {
        let mut i: usize = 0;
        while i < orders.len()
            invariant
                i <= orders.len(),
                self.wf(),
                self.symbol() == old(self).symbol(),
                self@ == old(self)@.apply_all(orders@.take(i as int)),
            decreases orders.len() - i,
        {
            proof {
                old(self)@.lemma_apply_all_push(orders@.take(i as int), orders@[i as int]);
                assert(orders@.take(i as int).push(orders@[i as int]) =~= orders@.take(i + 1));
            }
            self.execute(&orders[i]);
            i += 1;
        }
        assert(orders@.take(i as int) =~= orders@);
    }
}

} // verus!

use crate::crypto::coin::Coin;
use crate::crypto::orderbook::{Depth, Order, OrderBook, OrderSide};
use crate::exchanges::mandala::utils::{DepthSnapshot, DepthUpdate, Order as MandalaOrder, WebsocketRequest};
use crate::utils::registry::Registry;
use vstd::prelude::*;
use vstd::string::StringExecFns;

verus! {

/// The text without the occurrences of a pattern, as `str::replace` with an
/// empty replacement returns it.
pub uninterp spec fn without(text: Seq<char>, pattern: Seq<char>) -> Seq<char>;

/// `str::replace` with an empty replacement.
#[verifier::external_body]
fn strip(text: &String, pattern: &String) -> (stripped: String)
    ensures
        stripped@ == without(text@, pattern@),
{
    text.replace(pattern.as_str(), "")
}

/// The text in lower case, as `str::to_lowercase` returns it.
pub uninterp spec fn lowercase(text: Seq<char>) -> Seq<char>;

/// `str::to_lowercase`.
#[verifier::external_body]
fn to_lowercase(text: &String) -> (lowered: String)
    ensures
        lowered@ == lowercase(text@),
{
    text.to_lowercase()
}

/// The orders that the levels of one side of a depth message stand for.
pub open spec fn orders_of(levels: Seq<MandalaOrder>, side: OrderSide) -> Seq<Order> {
    Seq::new(levels.len(), |i: int| Order::of(side, levels[i].1, levels[i].0))
}

/// A book and the id of the last update that went into it.
pub ghost struct Feed {
    pub depth: Depth,
    pub last: i64,
}

impl Feed {
    /// The feed that a snapshot starts.
    pub open spec fn after_snapshot(snapshot: DepthSnapshot) -> Feed {
        Feed {
            depth: Depth::empty().apply_all(orders_of(snapshot.bids@, OrderSide::Buy)).apply_all(
                orders_of(snapshot.asks@, OrderSide::Sell),
            ),
            last: snapshot.last_update_id,
        }
    }

    /// The update is newer than all that the feed holds.
    pub open spec fn accepts(self, update: DepthUpdate) -> bool {
        update.last_id > self.last
    }

    /// The book with the update's levels applied, bids first.
    pub open spec fn merged(depth: Depth, update: DepthUpdate) -> Depth {
        depth.apply_all(orders_of(update.bids@, OrderSide::Buy)).apply_all(
            orders_of(update.asks@, OrderSide::Sell),
        )
    }

    /// The feed after one update: applied if it is newer, else dropped.
    pub open spec fn after_update(self, update: DepthUpdate) -> Feed {
        if self.accepts(update) {
            Feed { depth: Self::merged(self.depth, update), last: update.last_id }
        } else {
            self
        }
    }

    /// The feed after `updates`, in their order.
    pub open spec fn replay(self, updates: Seq<DepthUpdate>) -> Feed
        decreases updates.len(),
    {
        if updates.len() == 0 {
            self
        } else {
            self.after_update(updates.first()).replay(updates.drop_first())
        }
    }

    /// Replaying two runs one after the other is replaying them as one: what
    /// was held back before the snapshot and what came after it make one
    /// stream.
    pub proof fn lemma_replay_concat(self, first: Seq<DepthUpdate>, second: Seq<DepthUpdate>)
        ensures
            self.replay(first + second) == self.replay(first).replay(second),
        decreases first.len(),
    {
        if first.len() == 0 {
            assert(first + second =~= second);
        } else {
            assert((first + second).drop_first() =~= first.drop_first() + second);
            assert((first + second).first() == first.first());
            self.after_update(first.first()).lemma_replay_concat(first.drop_first(), second);
        }
    }

    /// Replaying a run and then one more update is replaying the longer run.
    pub proof fn lemma_replay_push(self, updates: Seq<DepthUpdate>, next: DepthUpdate)
        ensures
            self.replay(updates.push(next)) == self.replay(updates).after_update(next),
        decreases updates.len(),
    {
        if updates.len() == 0 {
            assert(updates.push(next).drop_first() =~= updates);
            assert(self.after_update(next).replay(updates) == self.after_update(next));
        } else {
            assert(updates.push(next).drop_first() =~= updates.drop_first().push(next));
            self.after_update(updates.first()).lemma_replay_push(updates.drop_first(), next);
        }
    }
}

/// The updates of `updates` whose last id lies above `since`, in their order.
pub open spec fn newer(updates: Seq<DepthUpdate>, since: i64) -> Seq<DepthUpdate>
    decreases updates.len(),
{
    if updates.len() == 0 {
        Seq::empty()
    } else if updates.first().last_id > since {
        seq![updates.first()] + newer(updates.drop_first(), since)
    } else {
        newer(updates.drop_first(), since)
    }
}

/// The book after every one of `updates` has gone into it, in their order.
pub open spec fn merged_all(depth: Depth, updates: Seq<DepthUpdate>) -> Depth
    decreases updates.len(),
{
    if updates.len() == 0 {
        depth
    } else {
        merged_all(Feed::merged(depth, updates.first()), updates.drop_first())
    }
}

/// Each update's last id lies above that of every earlier update.
pub open spec fn ascending(updates: Seq<DepthUpdate>) -> bool {
    forall|i: int, j: int|
        0 <= i < j < updates.len() ==> (#[trigger] updates[i]).last_id < (#[trigger] updates[j]).last_id
}

/// Every update with a last id above `since` is among the newer ones.
proof fn lemma_newer_holds(updates: Seq<DepthUpdate>, since: i64, at: int)
    requires
        0 <= at < updates.len(),
        updates[at].last_id > since,
    ensures
        newer(updates, since).contains(updates[at]),
    decreases updates.len(),
{
    let rest = updates.drop_first();
    if at == 0 {
        let all = seq![updates.first()] + newer(rest, since);
        assert(all[0] == updates[0]);
    } else {
        lemma_newer_holds(rest, since, at - 1);
        let inner = newer(rest, since);
        let found = choose|i: int| 0 <= i < inner.len() && inner[i] == rest[at - 1];
        if updates.first().last_id > since {
            let all = seq![updates.first()] + inner;
            assert(all[found + 1] == updates[at]);
        }
    }
}

/// Where nothing lies between two bounds, both select the same updates.
proof fn lemma_newer_same(updates: Seq<DepthUpdate>, since: i64, later: i64)
    requires
        forall|i: int|
            0 <= i < updates.len() && (#[trigger] updates[i]).last_id > since ==> updates[i].last_id
                > later,
        since <= later,
    ensures
        newer(updates, since) == newer(updates, later),
    decreases updates.len(),
{
    if updates.len() > 0 {
        let rest = updates.drop_first();
        assert forall|i: int| 0 <= i < rest.len() && (#[trigger] rest[i]).last_id > since implies rest[i].last_id
            > later by {
            assert(rest[i] == updates[i + 1]);
        }
        lemma_newer_same(rest, since, later);
        assert(updates[0] == updates.first());
    }
}

impl Feed {
    /// Where the updates that are newer than the feed come with ascending
    /// last ids, a replay lets every one of them into the book and nothing
    /// else: none is lost, and none goes in twice.
    pub proof fn lemma_replay_keeps_newer(self, updates: Seq<DepthUpdate>)
        requires
            ascending(newer(updates, self.last)),
        ensures
            self.replay(updates).depth == merged_all(self.depth, newer(updates, self.last)),
        decreases updates.len(),
    {
        if updates.len() > 0 {
            let head = updates.first();
            let rest = updates.drop_first();
            if head.last_id > self.last {
                let kept = newer(updates, self.last);
                let tail = newer(rest, self.last);
                assert(kept == seq![head] + tail);
                assert(kept.first() == head);
                assert(kept.drop_first() =~= tail);
                assert forall|i: int|
                    0 <= i < rest.len() && (#[trigger] rest[i]).last_id > self.last implies rest[i].last_id
                    > head.last_id by {
                    lemma_newer_holds(rest, self.last, i);
                    let found = choose|k: int| 0 <= k < tail.len() && tail[k] == rest[i];
                    assert(kept[found + 1] == rest[i]);
                    assert(kept[0].last_id < kept[found + 1].last_id);
                }
                lemma_newer_same(rest, self.last, head.last_id);
                let next = self.after_update(head);
                assert(ascending(newer(rest, next.last))) by {
                    assert forall|i: int, j: int| 0 <= i < j < tail.len() implies (#[trigger] tail[i]).last_id
                        < (#[trigger] tail[j]).last_id by {
                        assert(kept[i + 1] == tail[i]);
                        assert(kept[j + 1] == tail[j]);
                    }
                }
                next.lemma_replay_keeps_newer(rest);
            } else {
                self.lemma_replay_keeps_newer(rest);
            }
        }
    }
}

/// What became of an update that was handed to a bookie.
#[derive(Debug, Clone, Copy, PartialEq, Eq, Structural)]
pub enum Delivery {
    /// It went into the book.
    Applied,
    /// It was not newer than the book and was discarded.
    Dropped,
    /// It waits for the snapshot.
    Buffered,
    /// No bookie keeps a book for its symbol.
    Unknown,
}

/// Keeps one symbol's book in step with the venue: holds back the updates
/// that arrive before the snapshot, and lets into the book only what is
/// newer than the book.
#[derive(Debug)]
pub struct Bookie {
    symbol: String,
    can_process: bool,
    last_update_id: i64,
    book: OrderBook,
    pending: Vec<DepthUpdate>,
}

impl Bookie {
    pub closed spec fn name(&self) -> Seq<char> {
        self.symbol@
    }

    /// The snapshot has been taken in.
    pub closed spec fn can_process(&self) -> bool {
        self.can_process
    }

    /// The book and the id of the last update or snapshot in it.
    pub closed spec fn feed(&self) -> Feed {
        Feed { depth: self.book@, last: self.last_update_id }
    }

    /// The best ask of the book.
    pub closed spec fn best_ask(&self) -> Option<i64> {
        self.book.best_ask()
    }

    /// The best bid of the book.
    pub closed spec fn best_bid(&self) -> Option<i64> {
        self.book.best_bid()
    }

    /// The updates held back until the snapshot comes.
    pub closed spec fn pending(&self) -> Seq<DepthUpdate> {
        self.pending@
    }

    pub closed spec fn wf(&self) -> bool {
        &&& self.book.wf()
        &&& self.book.symbol() == self.symbol@
        &&& self.can_process ==> self.pending@.len() == 0
    }

    /// A bookie as `new` makes it for `symbol`.
    pub open spec fn is_fresh(&self, symbol: Seq<char>) -> bool {
        &&& self.wf()
        &&& self.name() == symbol
        &&& !self.can_process()
        &&& self.feed() == (Feed { depth: Depth::empty(), last: 0 })
        &&& self.pending().len() == 0
    }

    /// `next` is this bookie after `boot` with `snapshot`.
    pub open spec fn boots_to(&self, snapshot: DepthSnapshot, next: &Bookie) -> bool {
        &&& next.wf()
        &&& next.name() == self.name()
        &&& next.can_process()
        &&& next.pending().len() == 0
        &&& next.feed() == Feed::after_snapshot(snapshot).replay(self.pending())
    }

    /// What `start` returns for `update`.
    pub open spec fn delivery(&self, update: DepthUpdate) -> Delivery {
        if !self.can_process() {
            Delivery::Buffered
        } else if self.feed().accepts(update) {
            Delivery::Applied
        } else {
            Delivery::Dropped
        }
    }

    /// `next` is this bookie after `start` with `update`.
    pub open spec fn steps_to(&self, update: DepthUpdate, next: &Bookie) -> bool {
        &&& next.wf()
        &&& next.name() == self.name()
        &&& next.can_process() == self.can_process()
        &&& next.pending() == if self.can_process() {
            self.pending()
        } else {
            self.pending().push(update)
        }
        &&& next.feed() == if self.can_process() {
            self.feed().after_update(update)
        } else {
            self.feed()
        }
    }

    pub fn new(symbol: String) -> (bookie: Bookie)
        ensures
            bookie.is_fresh(symbol@),
    {
        let book = OrderBook::new(symbol.clone());
        Bookie { symbol, can_process: false, last_update_id: 0, book, pending: Vec::new() }
    }

    pub fn book(&self) -> (book: &OrderBook)
        requires
            self.wf(),
        ensures
            book.wf(),
            book@ == self.feed().depth,
            book.symbol() == self.name(),
            book.best_ask() == self.best_ask(),
            book.best_bid() == self.best_bid(),
    {
        &self.book
    }

    pub fn last_update_id(&self) -> (id: i64)
        ensures
            id == self.feed().last,
    {
        self.last_update_id
    }

    fn convert_record(order: &MandalaOrder, side: OrderSide) -> (converted: Order)
        ensures
            converted == Order::of(side, order.1, order.0),
    {
        Order::new(side, order.1, order.0)
    }

    fn convert_records(levels: &Vec<MandalaOrder>, side: OrderSide) -> (orders: Vec<Order>)
        ensures
            orders@ == orders_of(levels@, side),
    {
        let mut orders: Vec<Order> = Vec::new();
        let mut i: usize = 0;
        while i < levels.len()
            invariant
                i <= levels.len(),
                orders@.len() == i,
                forall|k: int|
                    0 <= k < i ==> orders@[k] == Order::of(side, levels@[k].1, levels@[k].0),
            decreases levels.len() - i,
        {
            orders.push(Self::convert_record(&levels[i], side));
            i += 1;
        }
        assert(orders@ =~= orders_of(levels@, side));
        orders
    }

    /// Takes in the snapshot: the book is reloaded from it, the updates that
    /// were held back are replayed over it, and from now on updates go
    /// straight to the book.
    pub fn boot(&mut self, snapshot: &DepthSnapshot)
        requires
            old(self).wf(),
        ensures
            old(self).boots_to(*snapshot, final(self)),
    {
        let bids = Self::convert_records(&snapshot.bids, OrderSide::Buy);
        let asks = Self::convert_records(&snapshot.asks, OrderSide::Sell);
        self.last_update_id = snapshot.last_update_id;
        self.book.reload(bids, asks);
        self.can_process = true;
        let mut held: Vec<DepthUpdate> = Vec::new();
        std::mem::swap(&mut held, &mut self.pending);
        let mut i: usize = 0;
        while i < held.len()
            invariant
                i <= held.len(),
                held@ == old(self).pending@,
                self.book.wf(),
                self.book.symbol() == self.symbol@,
                self.symbol == old(self).symbol,
                self.can_process,
                self.pending@.len() == 0,
                self.feed() == Feed::after_snapshot(*snapshot).replay(held@.take(i as int)),
            decreases held.len() - i,
        {
            proof {
                Feed::after_snapshot(*snapshot).lemma_replay_push(
                    held@.take(i as int),
                    held@[i as int],
                );
                assert(held@.take(i as int).push(held@[i as int]) =~= held@.take(i + 1));
            }
            self.merge(&held[i]);
            i += 1;
        }
        assert(held@.take(i as int) =~= held@);
    }

    /// Lets the update into the book if it is newer than the book.
    fn merge(&mut self, update: &DepthUpdate) -> (applied: bool)
        requires
            old(self).book.wf(),
        ensures
            final(self).book.wf(),
            final(self).book.symbol() == old(self).book.symbol(),
            final(self).symbol == old(self).symbol,
            final(self).can_process == old(self).can_process,
            final(self).pending == old(self).pending,
            final(self).feed() == old(self).feed().after_update(*update),
            applied == old(self).feed().accepts(*update),
    {
        if update.last_id <= self.last_update_id {
            return false;
        }
        self.last_update_id = update.last_id;
        let bids = Self::convert_records(&update.bids, OrderSide::Buy);
        let asks = Self::convert_records(&update.asks, OrderSide::Sell);
        self.book.update(bids, asks);
        true
    }

    /// Takes one update off the stream. Before the snapshot it is held back;
    /// after it, it goes into the book if its last id is above that of the
    /// book, and is dropped otherwise.
    pub fn start(&mut self, update: DepthUpdate) -> (delivery: Delivery)
        requires
            old(self).wf(),
        ensures
            delivery == old(self).delivery(update),
            old(self).steps_to(update, final(self)),
    {
        if !self.can_process {
            self.pending.push(update);
            return Delivery::Buffered;
        }
        if self.merge(&update) {
            Delivery::Applied
        } else {
            Delivery::Dropped
        }
    }
}

/// One of `coins` has `symbol`.
pub open spec fn names(coins: Seq<Coin>, symbol: Seq<char>) -> bool {
    exists|i: int| 0 <= i < coins.len() && (#[trigger] coins[i]).symbol@ == symbol
}

/// A message off the depth stream.
#[derive(Debug)]
pub enum Frame {
    Text(String),
    Binary,
    Ping,
    Pong,
    Close,
}

/// What to do about a message off the depth stream.
#[derive(Debug)]
pub enum Reading {
    /// Decode the text and hand the update on.
    Update(String),
    /// Nothing.
    Ignore,
    /// The stream has ended: the books go stale from here.
    Fail,
}

/// The bookies of one venue, by symbol.
pub struct Bookkeeper {
    coins: Vec<Coin>,
    bookies: Registry<Bookie>,
}

impl Bookkeeper {
    /// The symbols that have a bookie, in order of registration.
    pub closed spec fn symbols(&self) -> Seq<Seq<char>> {
        self.bookies.names()
    }

    /// The bookies, each at the place of its symbol.
    pub closed spec fn bookies(&self) -> Seq<Bookie> {
        self.bookies.items()
    }

    /// The coins of the last `boot`.
    pub closed spec fn coins(&self) -> Seq<Coin> {
        self.coins@
    }

    pub closed spec fn registered(&self) -> bool {
        self.bookies.wf()
    }

    /// Every symbol has its bookie, in good order and under its own name.
    pub open spec fn wf(&self) -> bool {
        &&& self.registered()
        &&& self.symbols().len() == self.bookies().len()
        &&& self.symbols().no_duplicates()
        &&& forall|i: int|
            0 <= i < self.bookies().len() ==> (#[trigger] self.bookies()[i]).wf()
                && self.bookies()[i].name() == self.symbols()[i]
    }

    /// The place of the bookie for `symbol`.
    pub open spec fn place(&self, symbol: Seq<char>) -> Option<int> {
        if self.symbols().contains(symbol) {
            Some(self.symbols().index_of(symbol))
        } else {
            None
        }
    }

    /// The parameter that subscribes to the depth of `symbol` against
    /// `quote_currency`.
    pub open spec fn stream_name(symbol: Seq<char>, quote_currency: Seq<char>) -> Seq<char> {
        lowercase(symbol + quote_currency + "@depth@100ms"@)
    }

    pub fn new() -> (keeper: Bookkeeper)
        ensures
            keeper.wf(),
            keeper.symbols().len() == 0,
            keeper.coins().len() == 0,
    {
        Bookkeeper { coins: Vec::new(), bookies: Registry::new() }
    }

    /// Gives every coin a new bookie with an empty book, in place of the one
    /// its symbol had.
    pub fn boot(&mut self, coins: Vec<Coin>)
        requires
            old(self).wf(),
        ensures
            final(self).wf(),
            final(self).coins() == coins@,
            forall|symbol: Seq<char>|
                #![trigger final(self).symbols().contains(symbol)]
                #![trigger names(coins@, symbol)]
                final(self).symbols().contains(symbol) <==> old(self).symbols().contains(symbol)
                    || names(coins@, symbol),
            forall|k: int|
                0 <= k < final(self).symbols().len() && names(coins@, #[trigger] final(self).symbols()[k])
                    ==> final(self).bookies()[k].is_fresh(final(self).symbols()[k]),
            forall|k: int|
                0 <= k < final(self).symbols().len() && !names(coins@, #[trigger] final(self).symbols()[k])
                    ==> k < old(self).symbols().len() && final(self).bookies()[k] === old(self).bookies()[k],
    {
        let ghost all = coins@;
        let mut i: usize = 0;
        while i < coins.len()
            invariant
                i <= coins.len(),
                coins@ == all,
                self.wf(),
                self.coins == old(self).coins,
                old(self).symbols().len() <= self.symbols().len(),
                forall|k: int|
                    0 <= k < old(self).symbols().len() ==> self.symbols()[k] == old(self).symbols()[k],
                forall|symbol: Seq<char>|
                    self.symbols().contains(symbol) <==> old(self).symbols().contains(symbol)
                        || names(all.take(i as int), symbol),
                forall|k: int|
                    0 <= k < self.symbols().len() && names(
                        all.take(i as int),
                        #[trigger] self.symbols()[k],
                    ) ==> self.bookies()[k].is_fresh(self.symbols()[k]),
                forall|k: int|
                    0 <= k < self.symbols().len() && !names(
                        all.take(i as int),
                        #[trigger] self.symbols()[k],
                    ) ==> k < old(self).symbols().len() && self.bookies()[k] === old(self).bookies()[k],
            decreases coins.len() - i,
        {
            let ghost before = *self;
            let ghost next = all.take(i + 1);
            let symbol = coins[i].symbol.clone();
            let bookie = Bookie::new(symbol.clone());
            proof {
                if self.bookies.names().contains(symbol@) {
                    self.bookies.lemma_place(self.bookies.names().index_of(symbol@));
                }
            }
            self.bookies.insert(symbol, bookie);
            proof {
                let name = all[i as int].symbol@;
                let done = all.take(i as int);
                assert forall|other: Seq<char>| names(next, other) <==> names(done, other) || other
                    == name by {
                    if names(done, other) {
                        let j = choose|j: int| 0 <= j < done.len() && (#[trigger] done[j]).symbol@ == other;
                        assert(next[j].symbol@ == other);
                    }
                    if other == name {
                        assert(next[i as int].symbol@ == other);
                    }
                    if names(next, other) {
                        let j = choose|j: int| 0 <= j < next.len() && (#[trigger] next[j]).symbol@ == other;
                        if j < i {
                            assert(done[j].symbol@ == other);
                        }
                    }
                }
                let now = self.symbols();
                let orig = old(self).symbols();
                assert forall|other: Seq<char>|
                    (now.contains(other) <==> (orig.contains(other) || names(
                        next,
                        other,
                    ))) by {
                    if before.symbols().contains(other) {
                        let at = before.symbols().index_of(other);
                        assert(self.symbols()[at] == other);
                    }
                    if other == name {
                        if !before.symbols().contains(name) {
                            assert(self.symbols()[before.symbols().len() as int] == name);
                        }
                    }
                    if self.symbols().contains(other) && other != name {
                        let at = self.symbols().index_of(other);
                        assert(before.symbols()[at] == other);
                    }
                }
                assert forall|k: int| 0 <= k < self.symbols().len() implies (names(
                    next,
                    #[trigger] self.symbols()[k],
                ) ==> self.bookies()[k].is_fresh(self.symbols()[k])) && (!names(
                    next,
                    self.symbols()[k],
                ) ==> k < old(self).symbols().len() && self.bookies()[k] === old(self).bookies()[k]) by {
                    if self.symbols()[k] == name {
                        if before.symbols().contains(name) {
                            before.bookies.lemma_place(k);
                        } else if k < before.symbols().len() {
                            assert(before.symbols()[k] == name);
                        }
                        assert(self.bookies()[k].is_fresh(name));
                    } else {
                        assert(k < before.symbols().len());
                        assert(before.symbols()[k] == self.symbols()[k]);
                        if before.symbols().contains(name) {
                            let at = before.symbols().index_of(name);
                            assert(at != k);
                        }
                        assert(self.bookies()[k] == before.bookies()[k]);
                    }
                }
            }
            i += 1;
            assert(all.take(i as int) == next);
        }
        assert(all.take(i as int) =~= all);
        self.coins = coins;
    }

    /// The request that subscribes to the depth stream of every coin of the
    /// last `boot`, against `quote_currency`.
    pub fn subscription(&self, quote_currency: &String) -> (request: WebsocketRequest)
        ensures
            request.id() == 1,
            request.method() == "SUBSCRIBE"@,
            request.params().len() == self.coins().len(),
            forall|i: int|
                0 <= i < self.coins().len() ==> (#[trigger] request.params()[i])@ == Self::stream_name(
                    self.coins()[i].symbol@,
                    quote_currency@,
                ),
    {
        let mut params: Vec<String> = Vec::new();
        let mut i: usize = 0;
        while i < self.coins.len()
            invariant
                i <= self.coins.len(),
                params@.len() == i,
                forall|k: int|
                    0 <= k < i ==> (#[trigger] params@[k])@ == Self::stream_name(
                        self.coins@[k].symbol@,
                        quote_currency@,
                    ),
            decreases self.coins.len() - i,
        {
            let mut name = self.coins[i].symbol.clone();
            name.append(quote_currency.as_str());
            name.append("@depth@100ms");
            params.push(to_lowercase(&name));
            i += 1;
        }
        WebsocketRequest::new(1, String::from_str("SUBSCRIBE"), params)
    }

    /// Sorts a message off the stream: text carries an update, a close ends
    /// the stream, and the rest is noise.
    pub fn read(frame: Frame) -> (reading: Reading)
        ensures
            match frame {
                Frame::Text(text) => reading matches Reading::Update(update) && update@ == text@,
                Frame::Close => reading is Fail,
                _ => reading is Ignore,
            },
    {
        match frame {
            Frame::Text(text) => Reading::Update(text),
            Frame::Close => Reading::Fail,
            _ => Reading::Ignore,
        }
    }

    /// Hands `update` to the bookie for `symbol`.
    pub fn deliver(&mut self, symbol: &String, update: DepthUpdate) -> (delivery: Delivery)
        requires
            old(self).wf(),
        ensures
            final(self).wf(),
            final(self).symbols() == old(self).symbols(),
            final(self).coins() == old(self).coins(),
            final(self).bookies().len() == old(self).bookies().len(),
            match old(self).place(symbol@) {
                None => delivery == Delivery::Unknown && final(self).bookies() == old(self).bookies(),
                Some(at) => {
                    &&& delivery == old(self).bookies()[at].delivery(update)
                    &&& old(self).bookies()[at].steps_to(update, &final(self).bookies()[at])
                    &&& forall|k: int|
                        0 <= k < old(self).bookies().len() && k != at ==> final(self).bookies()[k]
                            == old(self).bookies()[k]
                },
            },
    {
        match self.bookies.position(symbol) {
            None => Delivery::Unknown,
            Some(slot) => {
                proof {
                    self.bookies.lemma_place(slot as int);
                }
                let bookie = self.bookies.item_mut(slot);
                bookie.start(update)
            },
        }
    }

    /// Hands an update off the stream to the bookie of its symbol, which is
    /// the update's own symbol without the quote currency.
    pub fn handle_update(&mut self, update: DepthUpdate, quote_currency: &String) -> (delivery:
        Delivery)
        requires
            old(self).wf(),
        ensures
            final(self).wf(),
            final(self).symbols() == old(self).symbols(),
            final(self).coins() == old(self).coins(),
            final(self).bookies().len() == old(self).bookies().len(),
            match old(self).place(without(update.symbol@, quote_currency@)) {
                None => delivery == Delivery::Unknown && final(self).bookies() == old(self).bookies(),
                Some(at) => {
                    &&& delivery == old(self).bookies()[at].delivery(update)
                    &&& old(self).bookies()[at].steps_to(update, &final(self).bookies()[at])
                    &&& forall|k: int|
                        0 <= k < old(self).bookies().len() && k != at ==> final(self).bookies()[k]
                            == old(self).bookies()[k]
                },
            },
    {
        let symbol = strip(&update.symbol, quote_currency);
        self.deliver(&symbol, update)
    }

    /// Hands the snapshot of `symbol`'s book to its bookie. Returns whether
    /// there is one.
    pub fn load(&mut self, symbol: &String, snapshot: &DepthSnapshot) -> (known: bool)
        requires
            old(self).wf(),
        ensures
            final(self).wf(),
            final(self).symbols() == old(self).symbols(),
            final(self).coins() == old(self).coins(),
            final(self).bookies().len() == old(self).bookies().len(),
            known == old(self).place(symbol@).is_some(),
            match old(self).place(symbol@) {
                None => final(self).bookies() == old(self).bookies(),
                Some(at) => {
                    &&& old(self).bookies()[at].boots_to(*snapshot, &final(self).bookies()[at])
                    &&& forall|k: int|
                        0 <= k < old(self).bookies().len() && k != at ==> final(self).bookies()[k]
                            == old(self).bookies()[k]
                },
            },
    {
        match self.bookies.position(symbol) {
            None => false,
            Some(slot) => {
                proof {
                    self.bookies.lemma_place(slot as int);
                }
                let bookie = self.bookies.item_mut(slot);
                bookie.boot(snapshot);
                true
            },
        }
    }

    /// The symbols whose best ask lies below their best bid, in the order of
    /// their registration.
    pub fn sanity_check(&self) -> (crossed: Vec<String>)
        requires
            self.wf(),
        ensures
            crossed@.len() == Self::crossed(self.symbols(), self.bookies()).len(),
            forall|i: int|
                0 <= i < crossed@.len() ==> (#[trigger] crossed@[i])@ == Self::crossed(
                    self.symbols(),
                    self.bookies(),
                )[i],
    {
        let mut crossed: Vec<String> = Vec::new();
        let n = self.bookies.len();
        let mut i: usize = 0;
        assert(self.symbols().take(0) =~= Seq::<Seq<char>>::empty());
        while i < n
            invariant
                i <= n,
                n == self.symbols().len(),
                self.wf(),
                crossed@.len() == Self::crossed(self.symbols().take(i as int), self.bookies()).len(),
                forall|k: int|
                    0 <= k < crossed@.len() ==> (#[trigger] crossed@[k])@ == Self::crossed(
                        self.symbols().take(i as int),
                        self.bookies(),
                    )[k],
            decreases n - i,
        {
            proof {
                assert(self.symbols().take(i + 1).drop_last() =~= self.symbols().take(i as int));
                assert(self.symbols().take(i + 1).last() == self.symbols()[i as int]);
            }
            let bookie = self.bookies.item(i);
            if bookie.book().is_crossed() {
                crossed.push(self.bookies.name(i).clone());
            }
            i += 1;
        }
        assert(self.symbols().take(i as int) =~= self.symbols());
        crossed
    }

    /// Those of `symbols` whose bookie, at the same place in `bookies`, has a
    /// crossed book.
    pub open spec fn crossed(symbols: Seq<Seq<char>>, bookies: Seq<Bookie>) -> Seq<Seq<char>>
        decreases symbols.len(),
    {
        if symbols.len() == 0 {
            Seq::empty()
        } else {
            let earlier = Self::crossed(symbols.drop_last(), bookies);
            if Self::is_crossed(bookies[symbols.len() - 1]) {
                earlier.push(symbols.last())
            } else {
                earlier
            }
        }
    }

    /// The bookie's best ask lies below its best bid.
    pub open spec fn is_crossed(bookie: Bookie) -> bool {
        match (bookie.best_ask(), bookie.best_bid()) {
            (Some(ask), Some(bid)) => ask < bid,
            (None, Some(_)) => true,
            _ => false,
        }
    }

    /// The book kept for `coin`.
    pub fn get_book(&self, coin: &String) -> (book: Option<&OrderBook>)
        requires
            self.wf(),
        ensures
            match (book, self.place(coin@)) {
                (Some(book), Some(at)) => {
                    &&& book.wf()
                    &&& book@ == self.bookies()[at].feed().depth
                    &&& book.symbol() == coin@
                    &&& book.best_ask() == self.bookies()[at].best_ask()
                    &&& book.best_bid() == self.bookies()[at].best_bid()
                },
                (None, None) => true,
                _ => false,
            },
    {
        match self.bookies.position(coin) {
            None => None,
            Some(slot) => {
                proof {
                    self.bookies.lemma_place(slot as int);
                }
                Some(self.bookies.item(slot).book())
            },
        }
    }

    pub fn len(&self) -> (len: usize)
        requires
            self.wf(),
        ensures
            len == self.symbols().len(),
    {
        self.bookies.len()
    }

    /// The symbols and their bookies, in order of registration.
    pub fn iter_bookies(&self) -> (bookies: Vec<(String, &Bookie)>)
        requires
            self.wf(),
        ensures
            bookies@.len() == self.symbols().len(),
            forall|i: int|
                0 <= i < bookies@.len() ==> (#[trigger] bookies@[i]).0@ == self.symbols()[i]
                    && *bookies@[i].1 == self.bookies()[i],
    {
        let mut bookies: Vec<(String, &Bookie)> = Vec::new();
        let n = self.bookies.len();
        let mut i: usize = 0;
        while i < n
            invariant
                i <= n,
                n == self.symbols().len(),
                self.wf(),
                bookies@.len() == i,
                forall|k: int|
                    0 <= k < i ==> (#[trigger] bookies@[k]).0@ == self.symbols()[k] && *bookies@[k].1
                        == self.bookies()[k],
            decreases n - i,
        {
            bookies.push((self.bookies.name(i).clone(), self.bookies.item(i)));
            i += 1;
        }
        bookies
    }

    /// The symbols and their books, in order of registration.
    pub fn iter_books(&self) -> (books: Vec<(String, &OrderBook)>)
        requires
            self.wf(),
        ensures
            books@.len() == self.symbols().len(),
            forall|i: int|
                0 <= i < books@.len() ==> (#[trigger] books@[i]).0@ == self.symbols()[i]
                    && books@[i].1.wf() && books@[i].1@ == self.bookies()[i].feed().depth,
    {
        let mut books: Vec<(String, &OrderBook)> = Vec::new();
        let n = self.bookies.len();
        let mut i: usize = 0;
        while i < n
            invariant
                i <= n,
                n == self.symbols().len(),
                self.wf(),
                books@.len() == i,
                forall|k: int|
                    0 <= k < i ==> (#[trigger] books@[k]).0@ == self.symbols()[k] && books@[k].1.wf()
                        && books@[k].1@ == self.bookies()[k].feed().depth,
            decreases n - i,
        {
            books.push((self.bookies.name(i).clone(), self.bookies.item(i).book()));
            i += 1;
        }
        books
    }
}

} // verus!


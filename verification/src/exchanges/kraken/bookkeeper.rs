use crate::crypto::orderbook::{Depth, OrderBook};
use crate::utils::listed;
use crate::utils::registry::Registry;
use vstd::prelude::*;
use vstd::string::StringExecFns;

verus! {

/// What to subscribe to on the stream.
#[derive(Debug)]
pub struct SubObj {
    pub depth: i32,
    pub name: String,
    pub token: String,
}

/// A request to the stream for the books of some pairs.
#[derive(Debug)]
pub struct Subscription {
    pub event: String,
    pub pair: Vec<String>,
    pub subscription: SubObj,
}

/// Keeps the book of one pair.
#[derive(Debug)]
pub struct Bookie {
    symbol: String,
    can_process: bool,
    book: OrderBook,
}

impl Bookie {
    pub closed spec fn name(&self) -> Seq<char> {
        self.symbol@
    }

    pub closed spec fn can_process(&self) -> bool {
        self.can_process
    }

    pub closed spec fn depth(&self) -> Depth {
        self.book@
    }

    pub closed spec fn wf(&self) -> bool {
        &&& self.book.wf()
        &&& self.book.symbol() == self.symbol@
    }

    /// A bookie as `new` makes it for `symbol`.
    pub open spec fn is_fresh(&self, symbol: Seq<char>) -> bool {
        &&& self.wf()
        &&& self.name() == symbol
        &&& !self.can_process()
        &&& self.depth() == Depth::empty()
    }

    pub fn new(symbol: String) -> (bookie: Bookie)
        ensures
            bookie.is_fresh(symbol@),
    {
        let book = OrderBook::new(symbol.clone());
        Bookie { symbol, can_process: false, book }
    }

    /// Nothing yet: the venue sends its snapshot over the stream.
    pub fn boot(&mut self)
        ensures
            *final(self) == *old(self),
    {
    }

    pub fn book(&self) -> (book: &OrderBook)
        requires
            self.wf(),
        ensures
            book.wf(),
            book@ == self.depth(),
            book.symbol() == self.name(),
    {
        &self.book
    }
}

/// The bookies of the venue, by the name of their pair on the stream.
pub struct Bookkeeper {
    bookies: Registry<Bookie>,
}

impl Bookkeeper {
    pub closed spec fn symbols(&self) -> Seq<Seq<char>> {
        self.bookies.names()
    }

    pub closed spec fn bookies(&self) -> Seq<Bookie> {
        self.bookies.items()
    }

    pub closed spec fn registered(&self) -> bool {
        self.bookies.wf()
    }

    pub open spec fn wf(&self) -> bool {
        &&& self.registered()
        &&& self.symbols().len() == self.bookies().len()
        &&& self.symbols().no_duplicates()
        &&& forall|i: int|
            0 <= i < self.symbols().len() ==> (#[trigger] self.bookies()[i]).wf()
                && self.bookies()[i].name() == self.symbols()[i]
    }

    pub fn new() -> (keeper: Bookkeeper)
        ensures
            keeper.wf(),
            keeper.symbols().len() == 0,
    {
        Bookkeeper { bookies: Registry::new() }
    }

    /// Gives every pair of `names` a new bookie with an empty book, in place
    /// of the one it had.
    pub fn boot(&mut self, names: &Vec<String>)
        requires
            old(self).wf(),
        ensures
            final(self).wf(),
            forall|symbol: Seq<char>|
                #![trigger final(self).symbols().contains(symbol)]
                #![trigger listed(names@, symbol)]
                final(self).symbols().contains(symbol) <==> old(self).symbols().contains(symbol)
                    || listed(names@, symbol),
            forall|k: int|
                0 <= k < final(self).symbols().len() && listed(names@, #[trigger] final(self).symbols()[k])
                    ==> final(self).bookies()[k].is_fresh(final(self).symbols()[k]),
            forall|k: int|
                0 <= k < final(self).symbols().len() && !listed(names@, #[trigger] final(self).symbols()[k])
                    ==> k < old(self).symbols().len() && final(self).bookies()[k] === old(self).bookies()[k],
    {
        let mut i: usize = 0;
        while i < names.len()
            invariant
                i <= names.len(),
                self.wf(),
                old(self).symbols().len() <= self.symbols().len(),
                forall|k: int|
                    0 <= k < old(self).symbols().len() ==> self.symbols()[k] == old(self).symbols()[k],
                forall|symbol: Seq<char>|
                    self.symbols().contains(symbol) <==> old(self).symbols().contains(symbol)
                        || listed(names@.take(i as int), symbol),
                forall|k: int|
                    0 <= k < self.symbols().len() && listed(
                        names@.take(i as int),
                        #[trigger] self.symbols()[k],
                    ) ==> self.bookies()[k].is_fresh(self.symbols()[k]),
                forall|k: int|
                    0 <= k < self.symbols().len() && !listed(
                        names@.take(i as int),
                        #[trigger] self.symbols()[k],
                    ) ==> k < old(self).symbols().len() && self.bookies()[k] === old(self).bookies()[k],
            decreases names.len() - i,
        {
            let ghost before = *self;
            let ghost next = names@.take(i + 1);
            let name = names[i].clone();
            let bookie = Bookie::new(name.clone());
            proof {
                if self.bookies.names().contains(name@) {
                    self.bookies.lemma_place(self.bookies.names().index_of(name@));
                }
            }
            self.bookies.insert(name, bookie);
            proof {
                let added = names@[i as int]@;
                let done = names@.take(i as int);
                assert forall|other: Seq<char>| listed(next, other) <==> listed(done, other) || other
                    == added by {
                    if listed(done, other) {
                        let j = choose|j: int| 0 <= j < done.len() && (#[trigger] done[j])@ == other;
                        assert(next[j]@ == other);
                    }
                    if other == added {
                        assert(next[i as int]@ == other);
                    }
                    if listed(next, other) {
                        let j = choose|j: int| 0 <= j < next.len() && (#[trigger] next[j])@ == other;
                        if j < i {
                            assert(done[j]@ == other);
                        }
                    }
                }
                let now = self.symbols();
                let orig = old(self).symbols();
                assert forall|other: Seq<char>|
                    (now.contains(other) <==> (orig.contains(other) || listed(next, other))) by {
                    if before.symbols().contains(other) {
                        let at = before.symbols().index_of(other);
                        assert(self.symbols()[at] == other);
                    }
                    if other == added {
                        if !before.symbols().contains(added) {
                            assert(self.symbols()[before.symbols().len() as int] == added);
                        }
                    }
                    if self.symbols().contains(other) && other != added {
                        let at = self.symbols().index_of(other);
                        assert(before.symbols()[at] == other);
                    }
                }
                assert forall|k: int| 0 <= k < self.symbols().len() implies (listed(
                    next,
                    #[trigger] self.symbols()[k],
                ) ==> self.bookies()[k].is_fresh(self.symbols()[k])) && (!listed(
                    next,
                    self.symbols()[k],
                ) ==> k < old(self).symbols().len() && self.bookies()[k] === old(self).bookies()[k]) by {
                    if self.symbols()[k] == added {
                        if before.symbols().contains(added) {
                            before.bookies.lemma_place(k);
                        } else if k < before.symbols().len() {
                            assert(before.symbols()[k] == added);
                        }
                        assert(self.bookies()[k].is_fresh(added));
                    } else {
                        assert(k < before.symbols().len());
                        assert(before.symbols()[k] == self.symbols()[k]);
                        if before.symbols().contains(added) {
                            let at = before.symbols().index_of(added);
                            assert(at != k);
                        }
                        assert(self.bookies()[k] == before.bookies()[k]);
                    }
                }
            }
            i += 1;
            assert(names@.take(i as int) == next);
        }
        assert(names@.take(i as int) =~= names@);
    }

    /// The request that subscribes to the books of `pairs`.
    pub fn subscription(pairs: Vec<String>) -> (request: Subscription)
        ensures
            request.event@ == "subscribe"@,
            request.pair@ == pairs@,
            request.subscription.depth == 500,
            request.subscription.name@ == "book"@,
            request.subscription.token@ == "xyz"@,
    {
        Subscription {
            event: String::from_str("subscribe"),
            pair: pairs,
            subscription: SubObj {
                depth: 500,
                name: String::from_str("book"),
                token: String::from_str("xyz"),
            },
        }
    }

    /// The book kept for `pair`.
    pub fn get_book(&self, pair: &String) -> (book: Option<&OrderBook>)
        requires
            self.wf(),
        ensures
            book.is_some() <==> self.symbols().contains(pair@),
            match book {
                Some(book) => book.wf() && book.symbol() == pair@ && book@ == self.bookies()[self.symbols().index_of(
                    pair@,
                )].depth(),
                None => true,
            },
    {
        match self.bookies.position(pair) {
            None => None,
            Some(slot) => {
                proof {
                    self.bookies.lemma_place(slot as int);
                }
                Some(self.bookies.item(slot).book())
            },
        }
    }
}

} // verus!

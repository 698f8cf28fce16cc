//! The order book of one instrument: fifteen levels a side, kept in price
//! order, fed by sequenced updates.

use vstd::prelude::*;
use crate::decimal::Decimal;
use crate::market_data_type::OrderbookData;
use crate::market_data_type::PUBLISHED_DEPTH;
use crate::parsing::parsing_fast_orderbook::LevelBuffer;
use crate::parsing::parsing_fast_orderbook::OrderbookUpdateDataRaw;
use crate::parsing::parsing_fast_orderbook::level_items;
use crate::parsing::parsing_orderbook::OrderbookAction;
use crate::parsing::parsing_orderbook::OrderbookLevel;

verus! {

/// How many levels a side keeps.
pub const SIDE_CAPACITY: usize = 15;

/// Why a book did not take an update.
#[derive(Debug)]
pub enum OrderbookError {
    /// A change did not follow the change that the book saw last.
    SequenceGap { expected: u64, received: u64 },
    /// A level that a book cannot hold. The book of this module takes every
    /// level.
    InvalidLevel(String),
    /// The book has seen no snapshot. The book of this module starts empty
    /// and needs none.
    NotInitialized,
}

/// A level that the book holds.
#[derive(Debug, Clone, Copy)]
pub struct PriceLevel {
    pub price: Decimal,
    pub size: Decimal,
}

/// Whether price `a` is nearer the top of a side than price `b`: higher for
/// bids, lower for asks.
pub open spec fn better(a: Decimal, b: Decimal, is_bid: bool) -> bool {
    if is_bid {
        a.value() > b.value()
    } else {
        a.value() < b.value()
    }
}

/// Whether every level is better than all that follow it.
pub open spec fn ordered(levels: Seq<PriceLevel>, is_bid: bool) -> bool {
    forall|i: int, j: int|
        0 <= i < j < levels.len() ==> better(
            #[trigger] levels[i].price,
            #[trigger] levels[j].price,
            is_bid,
        )
}

/// Whether every level has a size above zero.
pub open spec fn sized(levels: Seq<PriceLevel>) -> bool {
    forall|i: int| 0 <= i < levels.len() ==> (#[trigger] levels[i]).size.positive()
}

/// What holds of each side of a book at all times.
pub open spec fn side_valid(levels: Seq<PriceLevel>, is_bid: bool) -> bool {
    &&& levels.len() <= SIDE_CAPACITY
    &&& ordered(levels, is_bid)
    &&& sized(levels)
}

/// The number of leading levels that are better than `price`. On an ordered
/// side this is where `price` stands, or would stand.
pub open spec fn rank(levels: Seq<PriceLevel>, price: Decimal, is_bid: bool) -> int
    decreases levels.len(),
{
    if levels.len() == 0 || !better(levels[0].price, price, is_bid) {
        0
    } else {
        1 + rank(levels.subrange(1, levels.len() as int), price, is_bid)
    }
}

/// Whether the side holds a level at `price`.
pub open spec fn holds(levels: Seq<PriceLevel>, price: Decimal, is_bid: bool) -> bool {
    let k = rank(levels, price, is_bid);
    k < levels.len() && levels[k].price.value() == price.value()
}

/// The side without its level at `price`, if it had one.
pub open spec fn removed(levels: Seq<PriceLevel>, price: Decimal, is_bid: bool) -> Seq<
    PriceLevel,
> {
    if holds(levels, price, is_bid) {
        levels.remove(rank(levels, price, is_bid))
    } else {
        levels
    }
}

/// The side after `size` was set at `price`. A full side ignores a price that
/// is no better than its last level, and gives up its last level for any other.
pub open spec fn inserted(
    levels: Seq<PriceLevel>,
    price: Decimal,
    size: Decimal,
    is_bid: bool,
) -> Seq<PriceLevel> {
    if levels.len() >= SIDE_CAPACITY && !better(
        price,
        levels[SIDE_CAPACITY - 1].price,
        is_bid,
    ) {
        levels
    } else {
        let kept = if levels.len() >= SIDE_CAPACITY {
            levels.subrange(0, SIDE_CAPACITY - 1)
        } else {
            levels
        };
        let k = rank(kept, price, is_bid);
        if holds(kept, price, is_bid) {
            kept.update(k, PriceLevel { price: kept[k].price, size })
        } else {
            kept.insert(k, PriceLevel { price, size })
        }
    }
}

/// The side after one incoming level.
pub open spec fn level_applied(levels: Seq<PriceLevel>, level: OrderbookLevel, is_bid: bool) -> Seq<
    PriceLevel,
> {
    if level.action != OrderbookAction::Delete && level.size.positive() {
        inserted(levels, level.price, level.size, is_bid)
    } else {
        removed(levels, level.price, is_bid)
    }
}

/// The level as the book takes it: from a snapshot as a new level, whatever
/// action it names, and from a change as it is.
pub open spec fn taken(level: OrderbookLevel, snapshot: bool) -> OrderbookLevel {
    if snapshot {
        OrderbookLevel { action: OrderbookAction::New, price: level.price, size: level.size }
    } else {
        level
    }
}

/// The side after the incoming levels of a snapshot or of a change, taken in
/// order.
pub open spec fn levels_applied(
    levels: Seq<PriceLevel>,
    updates: Seq<OrderbookLevel>,
    is_bid: bool,
    snapshot: bool,
) -> Seq<PriceLevel>
    decreases updates.len(),
{
    if updates.len() == 0 {
        levels
    } else {
        level_applied(
            levels_applied(levels, updates.drop_last(), is_bid, snapshot),
            taken(updates.last(), snapshot),
            is_bid,
        )
    }
}

/// The price that slot `i` of the published view shows.
pub open spec fn shown_price(levels: Seq<PriceLevel>, i: int) -> Decimal {
    if i < levels.len() {
        levels[i].price
    } else {
        Decimal::spec_zero()
    }
}

/// The size that slot `i` of the published view shows.
pub open spec fn shown_size(levels: Seq<PriceLevel>, i: int) -> Decimal {
    if i < levels.len() {
        levels[i].size
    } else {
        Decimal::spec_zero()
    }
}

/// Whether `data` is the published view of the two sides.
pub open spec fn shows(data: OrderbookData, bids: Seq<PriceLevel>, asks: Seq<PriceLevel>) -> bool {
    &&& forall|i: int| 0 <= i < 10 ==> #[trigger] data.bid_prices[i] == shown_price(bids, i)
    &&& forall|i: int| 0 <= i < 10 ==> #[trigger] data.bid_sizes[i] == shown_size(bids, i)
    &&& forall|i: int| 0 <= i < 10 ==> #[trigger] data.ask_prices[i] == shown_price(asks, i)
    &&& forall|i: int| 0 <= i < 10 ==> #[trigger] data.ask_sizes[i] == shown_size(asks, i)
}

/// A book as a value: its two sides, best level first, and the id of the last
/// update applied.
pub struct Book {
    pub bids: Seq<PriceLevel>,
    pub asks: Seq<PriceLevel>,
    pub last_change_id: u64,
}

impl Book {
    /// Whether both sides are valid.
    pub open spec fn valid(self) -> bool {
        side_valid(self.bids, true) && side_valid(self.asks, false)
    }

    /// Whether the update may be applied: a snapshot always, a change only
    /// behind the change that the book saw last.
    pub open spec fn accepts(self, update: OrderbookUpdateDataRaw) -> bool {
        update.is_snapshot() || update.prev_change_id == self.last_change_id
    }

    /// The book after the update, given that the book accepts it. A snapshot
    /// starts from empty sides and takes every level as a new level.
    pub open spec fn updated(self, update: OrderbookUpdateDataRaw, change_id: u64) -> Book {
        let bids = if update.is_snapshot() {
            Seq::empty()
        } else {
            self.bids
        };
        let asks = if update.is_snapshot() {
            Seq::empty()
        } else {
            self.asks
        };
        Book {
            bids: levels_applied(bids, update.bids(), true, update.is_snapshot()),
            asks: levels_applied(asks, update.asks(), false, update.is_snapshot()),
            last_change_id: change_id,
        }
    }
}

/// The order book of one instrument.
#[derive(Debug)]
pub struct OrderbookManagerV2 {
    instrument: String,
    bids: Vec<PriceLevel>,
    asks: Vec<PriceLevel>,
    last_change_id: u64,
}

impl View for OrderbookManagerV2 {
    type V = Book;

    closed spec fn view(&self) -> Book {
        Book { bids: self.bids@, asks: self.asks@, last_change_id: self.last_change_id }
    }
}

impl OrderbookManagerV2 {
    #[verifier::type_invariant]
    spec fn well_formed(self) -> bool {
        side_valid(self.bids@, true) && side_valid(self.asks@, false)
    }

    /// The symbol that the book was made for.
    pub closed spec fn symbol(self) -> Seq<char> {
        self.instrument@
    }

    /// An empty book that has seen no update. The depth is fixed: the second
    /// argument is not used.
    pub fn new(instrument: String, _max_depth: usize) -> (book: Self)
        ensures
            book@.bids == Seq::<PriceLevel>::empty(),
            book@.asks == Seq::<PriceLevel>::empty(),
            book@.last_change_id == 0,
            book@.valid(),
            book.symbol() == instrument@,
    {
        Self {
            instrument,
            bids: Vec::with_capacity(SIDE_CAPACITY),
            asks: Vec::with_capacity(SIDE_CAPACITY),
            last_change_id: 0,
        }
    }

    /// Where `price` stands on an ordered side: `Ok` with the position of the
    /// level at that price, or `Err` with the position at which a level at that
    /// price would be inserted.
    fn find_price_index_binary(levels: &Vec<PriceLevel>, price: &Decimal, is_bid: bool) -> (found:
        Result<usize, usize>)
        requires
            ordered(levels@, is_bid),
        ensures
            match found {
                Ok(i) => holds(levels@, *price, is_bid) && i == rank(levels@, *price, is_bid),
                Err(i) => !holds(levels@, *price, is_bid) && i == rank(levels@, *price, is_bid),
            },
    {
        let count = levels.len();
        if count == 0 {
            return Err(0);
        }
        if is_better(price, &levels[0].price, is_bid) {
            return Err(0);
        }
        let mut lo: usize = 0;
        let mut hi: usize = count;
        while lo < hi
            invariant
                lo <= hi <= count,
                count == levels.len(),
                ordered(levels@, is_bid),
                forall|i: int| 0 <= i < lo ==> better((#[trigger] levels@[i]).price, *price, is_bid),
                forall|i: int|
                    hi <= i < count ==> !better((#[trigger] levels@[i]).price, *price, is_bid),
            decreases hi - lo,
        {
            let mid = lo + (hi - lo) / 2;
            if is_better(&levels[mid].price, price, is_bid) {
                assert forall|i: int| 0 <= i < mid + 1 implies better(
                    (#[trigger] levels@[i]).price,
                    *price,
                    is_bid,
                ) by {
                    if i < mid {
                        assert(better(levels@[i].price, levels@[mid as int].price, is_bid));
                    }
                }
                lo = mid + 1;
            } else {
                assert forall|i: int| mid <= i < count implies !better(
                    (#[trigger] levels@[i]).price,
                    *price,
                    is_bid,
                ) by {
                    if i > mid {
                        assert(better(levels@[mid as int].price, levels@[i].price, is_bid));
                    }
                }
                hi = mid;
            }
        }
        proof {
            lemma_rank_is(levels@, *price, is_bid, lo as int);
        }
        if lo < count && levels[lo].price.same_as(price) {
            Ok(lo)
        } else {
            Err(lo)
        }
    }

    /// Sets `size` at `price`: in place where the side holds the price, else as
    /// a new level at its place in the order.
    fn insert_level(levels: &mut Vec<PriceLevel>, price: Decimal, size: Decimal, is_bid: bool)
        requires
            side_valid(old(levels)@, is_bid),
            size.positive(),
        ensures
            final(levels)@ == inserted(old(levels)@, price, size, is_bid),
            side_valid(final(levels)@, is_bid),
    {
        proof {
            lemma_inserted_valid(levels@, price, size, is_bid);
        }
        if levels.len() >= SIDE_CAPACITY {
            let worst = levels[SIDE_CAPACITY - 1].price;
            if !is_better(&price, &worst, is_bid) {
                return ;
            }
            levels.truncate(SIDE_CAPACITY - 1);
        }
        assert(forall|i: int| 0 <= i < levels@.len() ==> levels@[i] == old(levels)@[i]);
        match Self::find_price_index_binary(levels, &price, is_bid) {
            Ok(idx) => {
                let stored = levels[idx].price;
                levels[idx] = PriceLevel { price: stored, size };
            },
            Err(idx) => {
                proof {
                    lemma_rank_bounds(levels@, price, is_bid);
                }
                levels.insert(idx, PriceLevel { price, size });
            },
        }
    }

    /// Takes out the level at `price`, if the side holds one.
    fn remove_level(levels: &mut Vec<PriceLevel>, price: Decimal, is_bid: bool)
        requires
            side_valid(old(levels)@, is_bid),
        ensures
            final(levels)@ == removed(old(levels)@, price, is_bid),
            side_valid(final(levels)@, is_bid),
    {
        proof {
            lemma_removed_valid(levels@, price, is_bid);
        }
        if let Ok(idx) = Self::find_price_index_binary(levels, &price, is_bid) {
            levels.remove(idx);
        }
    }

    /// Applies one incoming level to a side.
    fn apply_level_update(levels: &mut Vec<PriceLevel>, level: OrderbookLevel, is_bid: bool)
        requires
            side_valid(old(levels)@, is_bid),
        ensures
            final(levels)@ == level_applied(old(levels)@, level, is_bid),
            side_valid(final(levels)@, is_bid),
    {
        match level.action {
            OrderbookAction::New | OrderbookAction::Change => {
                if level.size.is_positive() {
                    Self::insert_level(levels, level.price, level.size, is_bid);
                } else {
                    Self::remove_level(levels, level.price, is_bid);
                }
            },
            OrderbookAction::Delete => {
                Self::remove_level(levels, level.price, is_bid);
            },
        }
    }

    /// Applies the incoming levels of one side, in the order received.
    fn apply_side(levels: &mut Vec<PriceLevel>, updates: &LevelBuffer, is_bid: bool, snapshot: bool)
        requires
            side_valid(old(levels)@, is_bid),
        ensures
            final(levels)@ == levels_applied(
                old(levels)@,
                level_items(*updates),
                is_bid,
                snapshot,
            ),
            side_valid(final(levels)@, is_bid),
    {
        let n = updates.len();
        let mut i: usize = 0;
        while i < n
            invariant
                i <= n,
                n == level_items(*updates).len(),
                side_valid(levels@, is_bid),
                levels@ == levels_applied(
                    old(levels)@,
                    level_items(*updates).take(i as int),
                    is_bid,
                    snapshot,
                ),
            decreases n - i,
        {
            let received = updates.item(i);
            let level = if snapshot {
                OrderbookLevel {
                    action: OrderbookAction::New,
                    price: received.price,
                    size: received.size,
                }
            } else {
                received
            };
            proof {
                let all = level_items(*updates);
                assert(all.take(i + 1).drop_last() =~= all.take(i as int));
                assert(all.take(i + 1).last() == all[i as int]);
            }
            Self::apply_level_update(levels, level, is_bid);
            i += 1;
        }
        proof {
            let all = level_items(*updates);
            assert(all.take(n as int) =~= all);
        }
    }

    /// Applies one message to the book and returns the view to publish.
    ///
    /// A snapshot empties the book first and is always accepted. A change is
    /// accepted only if it follows the change that the book saw last; else the
    /// book stays as it was and the gap is reported.
    pub fn apply_update(&mut self, update: OrderbookUpdateDataRaw, change_id: u64) -> (result:
        Result<OrderbookData, OrderbookError>)
        ensures
            old(self)@.valid(),
            final(self)@.valid(),
            final(self).symbol() == old(self).symbol(),
            match result {
                Ok(data) => {
                    &&& old(self)@.accepts(update)
                    &&& final(self)@ == old(self)@.updated(update, change_id)
                    &&& shows(data, final(self)@.bids, final(self)@.asks)
                },
                Err(e) => {
                    &&& !old(self)@.accepts(update)
                    &&& e == (OrderbookError::SequenceGap {
                        expected: old(self)@.last_change_id,
                        received: update.prev_change_id,
                    })
                    &&& final(self)@ == old(self)@
                },
            },
    {
        proof {
            use_type_invariant(&*self);
        }
        let snapshot = update.prev_change_id == 0;
        if !snapshot && update.prev_change_id != self.last_change_id {
            return Err(
                OrderbookError::SequenceGap {
                    expected: self.last_change_id,
                    received: update.prev_change_id,
                },
            );
        }
        let mut bids: Vec<PriceLevel> = Vec::new();
        let mut asks: Vec<PriceLevel> = Vec::new();
        core::mem::swap(&mut bids, &mut self.bids);
        core::mem::swap(&mut asks, &mut self.asks);
        if snapshot {
            bids.clear();
            asks.clear();
        }
        Self::apply_side(&mut bids, &update.bid_updates, true, snapshot);
        Self::apply_side(&mut asks, &update.ask_updates, false, snapshot);
        core::mem::swap(&mut bids, &mut self.bids);
        core::mem::swap(&mut asks, &mut self.asks);
        self.last_change_id = change_id;
        Ok(self.get_orderbook())
    }

    /// The view to publish: the best ten levels of each side.
    pub fn get_orderbook(&self) -> (data: OrderbookData)
        ensures
            shows(data, self@.bids, self@.asks),
    {
        let zero = Decimal::zero();
        let mut data = OrderbookData {
            bid_prices: [zero;10],
            ask_prices: [zero;10],
            bid_sizes: [zero;10],
            ask_sizes: [zero;10],
        };
        let bid_levels = if self.bids.len() < PUBLISHED_DEPTH {
            self.bids.len()
        } else {
            PUBLISHED_DEPTH
        };
        let mut i: usize = 0;
        while i < bid_levels
            invariant
                i <= bid_levels <= 10,
                bid_levels <= self.bids@.len(),
                forall|j: int| 0 <= j < i ==> data.bid_prices[j] == self.bids@[j].price,
                forall|j: int| 0 <= j < i ==> data.bid_sizes[j] == self.bids@[j].size,
                forall|j: int| i <= j < 10 ==> data.bid_prices[j] == Decimal::spec_zero(),
                forall|j: int| i <= j < 10 ==> data.bid_sizes[j] == Decimal::spec_zero(),
                forall|j: int| 0 <= j < 10 ==> data.ask_prices[j] == Decimal::spec_zero(),
                forall|j: int| 0 <= j < 10 ==> data.ask_sizes[j] == Decimal::spec_zero(),
            decreases bid_levels - i,
        {
            data.bid_prices[i] = self.bids[i].price;
            data.bid_sizes[i] = self.bids[i].size;
            i += 1;
        }
        let ask_levels = if self.asks.len() < PUBLISHED_DEPTH {
            self.asks.len()
        } else {
            PUBLISHED_DEPTH
        };
        let mut k: usize = 0;
        while k < ask_levels
            invariant
                k <= ask_levels <= 10,
                ask_levels <= self.asks@.len(),
                forall|j: int| 0 <= j < 10 ==> data.bid_prices[j] == shown_price(self.bids@, j),
                forall|j: int| 0 <= j < 10 ==> data.bid_sizes[j] == shown_size(self.bids@, j),
                forall|j: int| 0 <= j < k ==> data.ask_prices[j] == self.asks@[j].price,
                forall|j: int| 0 <= j < k ==> data.ask_sizes[j] == self.asks@[j].size,
                forall|j: int| k <= j < 10 ==> data.ask_prices[j] == Decimal::spec_zero(),
                forall|j: int| k <= j < 10 ==> data.ask_sizes[j] == Decimal::spec_zero(),
            decreases ask_levels - k,
        {
            data.ask_prices[k] = self.asks[k].price;
            data.ask_sizes[k] = self.asks[k].size;
            k += 1;
        }
        data
    }

    /// The id of the last update applied; 0 before the first.
    pub fn last_change_id(&self) -> (id: u64)
        ensures
            id == self@.last_change_id,
    {
        self.last_change_id
    }

    /// The number of bid levels held.
    pub fn bid_count(&self) -> (n: usize)
        ensures
            n == self@.bids.len(),
            n <= SIDE_CAPACITY,
    {
        proof {
            use_type_invariant(self);
        }
        self.bids.len()
    }

    /// The number of ask levels held.
    pub fn ask_count(&self) -> (n: usize)
        ensures
            n == self@.asks.len(),
            n <= SIDE_CAPACITY,
    {
        proof {
            use_type_invariant(self);
        }
        self.asks.len()
    }

    /// Whether the best bid is not below the best ask. The book takes such
    /// updates as they come; the caller may want to report them.
    pub fn is_crossed(&self) -> (crossed: bool)
        ensures
            crossed == (self@.bids.len() > 0 && self@.asks.len() > 0 && self@.bids[0].price.value()
                >= self@.asks[0].price.value()),
    {
        if self.bids.len() == 0 || self.asks.len() == 0 {
            false
        } else {
            !self.bids[0].price.less_than(&self.asks[0].price)
        }
    }
}

/// Whether price `a` is nearer the top of a side than price `b`.
fn is_better(a: &Decimal, b: &Decimal, is_bid: bool) -> (r: bool)
    ensures
        r == better(*a, *b, is_bid),
{
    if is_bid {
        b.less_than(a)
    } else {
        a.less_than(b)
    }
}

impl Book {
    /// The book after a run of messages with their change ids, each applied
    /// to what the one before it left.
    pub open spec fn updated_all(self, updates: Seq<(OrderbookUpdateDataRaw, u64)>) -> Book
        decreases updates.len(),
    {
        if updates.len() == 0 {
            self
        } else {
            self.updated_all(updates.drop_last()).updated(updates.last().0, updates.last().1)
        }
    }

    /// Whether each message of the run is accepted by what the one before it
    /// left: a snapshot, or a change that names the change id before it.
    pub open spec fn chained(self, updates: Seq<(OrderbookUpdateDataRaw, u64)>) -> bool
        decreases updates.len(),
    {
        updates.len() == 0 || (self.chained(updates.drop_last()) && self.updated_all(
            updates.drop_last(),
        ).accepts(updates.last().0))
    }
}

/// One message leaves a valid book valid.
pub proof fn lemma_updated_valid(book: Book, update: OrderbookUpdateDataRaw, change_id: u64)
    requires
        book.valid(),
    ensures
        book.updated(update, change_id).valid(),
{
    let bids = if update.is_snapshot() {
        Seq::<PriceLevel>::empty()
    } else {
        book.bids
    };
    let asks = if update.is_snapshot() {
        Seq::<PriceLevel>::empty()
    } else {
        book.asks
    };
    lemma_levels_applied_valid(bids, update.bids(), true, update.is_snapshot());
    lemma_levels_applied_valid(asks, update.asks(), false, update.is_snapshot());
}

/// After any run of messages in which each follows the one before it, the
/// bids are strictly descending, the asks strictly ascending, every size is
/// above zero and no side holds more than fifteen levels.
pub proof fn lemma_book_stays_valid(book: Book, updates: Seq<(OrderbookUpdateDataRaw, u64)>)
    requires
        book.valid(),
        book.chained(updates),
    ensures
        book.updated_all(updates).valid(),
    decreases updates.len(),
{
    if updates.len() > 0 {
        lemma_book_stays_valid(book, updates.drop_last());
        lemma_updated_valid(
            book.updated_all(updates.drop_last()),
            updates.last().0,
            updates.last().1,
        );
    }
}

/// A change that does not name the change id that the book saw last is not
/// accepted, whatever else it holds.
pub proof fn lemma_gap_not_accepted(book: Book, update: OrderbookUpdateDataRaw)
    requires
        !update.is_snapshot(),
        update.prev_change_id != book.last_change_id,
    ensures
        !book.accepts(update),
{
}

/// On a full side, a price that is no better than the last level changes
/// nothing, whatever its size.
pub proof fn lemma_full_side_ignores_worse(
    levels: Seq<PriceLevel>,
    level: OrderbookLevel,
    is_bid: bool,
)
    requires
        side_valid(levels, is_bid),
        levels.len() == SIDE_CAPACITY,
        level.action != OrderbookAction::Delete,
        level.size.positive(),
        !better(level.price, levels[SIDE_CAPACITY - 1].price, is_bid),
    ensures
        level_applied(levels, level, is_bid) == levels,
{
}

/// The rank of a price lies inside the side; every level before it is better
/// than the price, and the level at it is not.
pub proof fn lemma_rank_bounds(levels: Seq<PriceLevel>, price: Decimal, is_bid: bool)
    ensures
        0 <= rank(levels, price, is_bid) <= levels.len(),
        forall|i: int|
            0 <= i < rank(levels, price, is_bid) ==> better(
                (#[trigger] levels[i]).price,
                price,
                is_bid,
            ),
        rank(levels, price, is_bid) < levels.len() ==> !better(
            levels[rank(levels, price, is_bid)].price,
            price,
            is_bid,
        ),
    decreases levels.len(),
{
    if levels.len() == 0 || !better(levels[0].price, price, is_bid) {
    } else {
        let rest = levels.subrange(1, levels.len() as int);
        lemma_rank_bounds(rest, price, is_bid);
        let r = rank(rest, price, is_bid);
        assert forall|i: int| 0 <= i < r + 1 implies better(
            (#[trigger] levels[i]).price,
            price,
            is_bid,
        ) by {
            if i > 0 {
                assert(levels[i] == rest[i - 1]);
            }
        }
        if r + 1 < levels.len() {
            assert(levels[r + 1] == rest[r]);
        }
    }
}

/// The rank of `price` is the one position before which all levels are better
/// and at which the level is not.
pub proof fn lemma_rank_is(levels: Seq<PriceLevel>, price: Decimal, is_bid: bool, k: int)
    requires
        0 <= k <= levels.len(),
        forall|i: int| 0 <= i < k ==> better((#[trigger] levels[i]).price, price, is_bid),
        k < levels.len() ==> !better(levels[k].price, price, is_bid),
    ensures
        rank(levels, price, is_bid) == k,
    decreases levels.len(),
{
    if k == 0 {
    } else {
        let rest = levels.subrange(1, levels.len() as int);
        assert(better(levels[0].price, price, is_bid));
        assert forall|i: int| 0 <= i < k - 1 implies better(
            (#[trigger] rest[i]).price,
            price,
            is_bid,
        ) by {
            assert(rest[i] == levels[i + 1]);
        }
        if k - 1 < rest.len() {
            assert(rest[k - 1] == levels[k]);
        }
        lemma_rank_is(rest, price, is_bid, k - 1);
    }
}

/// Removing a price keeps a side valid.
pub proof fn lemma_removed_valid(levels: Seq<PriceLevel>, price: Decimal, is_bid: bool)
    requires
        side_valid(levels, is_bid),
    ensures
        side_valid(removed(levels, price, is_bid), is_bid),
{
    let k = rank(levels, price, is_bid);
    lemma_rank_bounds(levels, price, is_bid);
    if holds(levels, price, is_bid) {
        let out = levels.remove(k);
        assert forall|i: int, j: int| 0 <= i < j < out.len() implies better(
            #[trigger] out[i].price,
            #[trigger] out[j].price,
            is_bid,
        ) by {
            let si = if i < k { i } else { i + 1 };
            let sj = if j < k { j } else { j + 1 };
            assert(out[i] == levels[si]);
            assert(out[j] == levels[sj]);
        }
        assert forall|i: int| 0 <= i < out.len() implies (#[trigger] out[i]).size.positive() by {
            let si = if i < k { i } else { i + 1 };
            assert(out[i] == levels[si]);
        }
    }
}

/// Setting a size above zero at a price keeps a side valid.
pub proof fn lemma_inserted_valid(
    levels: Seq<PriceLevel>,
    price: Decimal,
    size: Decimal,
    is_bid: bool,
)
    requires
        side_valid(levels, is_bid),
        size.positive(),
    ensures
        side_valid(inserted(levels, price, size, is_bid), is_bid),
{
    if levels.len() >= SIDE_CAPACITY && !better(
        price,
        levels[SIDE_CAPACITY - 1].price,
        is_bid,
    ) {
    } else {
        let kept = if levels.len() >= SIDE_CAPACITY {
            levels.subrange(0, SIDE_CAPACITY - 1)
        } else {
            levels
        };
        assert(forall|i: int| 0 <= i < kept.len() ==> kept[i] == levels[i]);
        assert(ordered(kept, is_bid));
        assert(sized(kept));
        let k = rank(kept, price, is_bid);
        lemma_rank_bounds(kept, price, is_bid);
        if holds(kept, price, is_bid) {
            let out = kept.update(k, PriceLevel { price: kept[k].price, size });
            assert forall|i: int, j: int| 0 <= i < j < out.len() implies better(
                #[trigger] out[i].price,
                #[trigger] out[j].price,
                is_bid,
            ) by {
                assert(out[i].price == kept[i].price);
                assert(out[j].price == kept[j].price);
            }
            assert forall|i: int| 0 <= i < out.len() implies (#[trigger] out[i]).size.positive() by {
                if i != k {
                    assert(out[i] == kept[i]);
                }
            }
        } else {
            let out = kept.insert(k, PriceLevel { price, size });
            assert forall|i: int, j: int| 0 <= i < j < out.len() implies better(
                #[trigger] out[i].price,
                #[trigger] out[j].price,
                is_bid,
            ) by {
                let si = if i < k { i } else { i - 1 };
                let sj = if j < k { j } else { j - 1 };
                if i != k {
                    assert(out[i] == kept[si]);
                }
                if j != k {
                    assert(out[j] == kept[sj]);
                }
                if j == k {
                    assert(better(kept[i].price, price, is_bid));
                } else if i == k {
                    // kept[k] is not better than price and differs from it,
                    // and every later level is worse than kept[k]
                    assert(!better(kept[k].price, price, is_bid));
                    assert(kept[k].price.value() != price.value());
                    if sj > k {
                        assert(better(kept[k].price, kept[sj].price, is_bid));
                    }
                }
            }
            assert forall|i: int| 0 <= i < out.len() implies (#[trigger] out[i]).size.positive() by {
                let si = if i < k { i } else { i - 1 };
                if i != k {
                    assert(out[i] == kept[si]);
                }
            }
        }
    }
}

/// One incoming level keeps a side valid.
pub proof fn lemma_level_applied_valid(levels: Seq<PriceLevel>, level: OrderbookLevel, is_bid: bool)
    requires
        side_valid(levels, is_bid),
    ensures
        side_valid(level_applied(levels, level, is_bid), is_bid),
{
    if level.action != OrderbookAction::Delete && level.size.positive() {
        lemma_inserted_valid(levels, level.price, level.size, is_bid);
    } else {
        lemma_removed_valid(levels, level.price, is_bid);
    }
}

/// Any run of incoming levels keeps a side valid.
pub proof fn lemma_levels_applied_valid(
    levels: Seq<PriceLevel>,
    updates: Seq<OrderbookLevel>,
    is_bid: bool,
    snapshot: bool,
)
    requires
        side_valid(levels, is_bid),
    ensures
        side_valid(levels_applied(levels, updates, is_bid, snapshot), is_bid),
    decreases updates.len(),
{
    if updates.len() > 0 {
        lemma_levels_applied_valid(levels, updates.drop_last(), is_bid, snapshot);
        lemma_level_applied_valid(
            levels_applied(levels, updates.drop_last(), is_bid, snapshot),
            taken(updates.last(), snapshot),
            is_bid,
        );
    }
}

} // verus!

//! The writer: it owns the book of every instrument, applies the book
//! messages to them and says what to publish. The task that drains the
//! channels and writes to shared memory calls into this module.
//!
//! Publication policy: every update that a book takes is published, with the
//! time of its message, also when it touched only levels below the ten that
//! the view shows. An update that a book does not take is not published, and
//! the slot keeps what it held.

use vstd::prelude::*;
use crate::market_data_type::OrderbookData;
use crate::orderbook_management::shows;
use crate::orderbook_management::Book;
use crate::orderbook_management::OrderbookError;
use crate::orderbook_management::OrderbookManagerV2;
use crate::parsing::parsing_fast_orderbook::OrderbookResult;

verus! {

/// Seconds between two reports of the write statistics.
pub const STATS_INTERVAL_SECS: u64 = 10;

/// How many write latencies are kept for the statistics.
pub const LATENCY_SAMPLES: usize = 1000;

/// The depth that the books are made with.
pub const BOOK_DEPTH: usize = 10;

/// What the writer does with a book message.
#[derive(Debug)]
pub enum BookOutcome {
    /// Write the view to the slot of the instrument, with the time of the
    /// message and the flag that says which sides it touched.
    Publish { instrument_idx: usize, data: OrderbookData, timestamp_ns: u64, flag: u8 },
    /// Report the gap and leave the slot as it is. The book waits for the
    /// next snapshot.
    Gap { instrument_idx: usize, expected: u64, received: u64 },
    /// Report a message for an instrument that the writer has no book for.
    UnknownInstrument { instrument_idx: usize },
}

/// What the writer does after a pass over its channels.
#[derive(Debug, Clone, Copy, PartialEq, Eq, Structural)]
pub enum DrainStep {
    /// Pass over the channels again at once.
    Again,
    /// Wait for a trade, a book message, the statistics timer or shutdown.
    Wait,
}

/// What the writer does when a write did not succeed.
#[derive(Debug, Clone, Copy, PartialEq, Eq, Structural)]
pub enum FailurePolicy {
    /// Report it, drop the item and go on.
    Drop,
    /// Stop the task.
    Abort,
}

/// The books of all instruments, by the number of the instrument.
#[derive(Debug)]
pub struct BookKeeper {
    books: Vec<OrderbookManagerV2>,
}

impl View for BookKeeper {
    type V = Seq<Book>;

    closed spec fn view(&self) -> Seq<Book> {
        Seq::new(self.books@.len(), |i: int| self.books@[i]@)
    }
}

impl BookKeeper {
    /// Empty books for the instruments `0..nb_instrument`.
    pub fn new(nb_instrument: usize) -> (keeper: Self)
        ensures
            keeper@.len() == nb_instrument,
            forall|i: int|
                0 <= i < nb_instrument ==> (#[trigger] keeper@[i]) == (Book {
                    bids: Seq::empty(),
                    asks: Seq::empty(),
                    last_change_id: 0,
                }),
    {
        let mut books: Vec<OrderbookManagerV2> = Vec::new();
        let mut i: usize = 0;
        while i < nb_instrument
            invariant
                i <= nb_instrument,
                books@.len() == i,
                forall|j: int|
                    0 <= j < i ==> (#[trigger] books@[j])@ == (Book {
                        bids: Seq::empty(),
                        asks: Seq::empty(),
                        last_change_id: 0,
                    }),
            decreases nb_instrument - i,
        {
            books.push(OrderbookManagerV2::new(String::new(), BOOK_DEPTH));
            i += 1;
        }
        BookKeeper { books }
    }

    /// The number of books.
    pub fn len(&self) -> (n: usize)
        ensures
            n == self@.len(),
    {
        self.books.len()
    }

    /// Applies a book message to the book of its instrument.
    pub fn on_book_update(&mut self, update: OrderbookResult) -> (outcome: BookOutcome)
        ensures
            final(self)@.len() == old(self)@.len(),
            forall|i: int|
                0 <= i < old(self)@.len() && i != update.instrument_idx ==> (
                #[trigger] final(self)@[i]) == old(self)@[i],
            match outcome {
                BookOutcome::UnknownInstrument { instrument_idx } => {
                    &&& update.instrument_idx >= old(self)@.len()
                    &&& instrument_idx == update.instrument_idx
                },
                BookOutcome::Gap { instrument_idx, expected, received } => {
                    &&& update.instrument_idx < old(self)@.len()
                    &&& !old(self)@[update.instrument_idx as int].accepts(update.update_data)
                    &&& final(self)@ == old(self)@
                    &&& instrument_idx == update.instrument_idx
                    &&& expected == old(self)@[update.instrument_idx as int].last_change_id
                    &&& received == update.update_data.prev_change_id
                },
                BookOutcome::Publish { instrument_idx, data, timestamp_ns, flag } => {
                    &&& update.instrument_idx < old(self)@.len()
                    &&& old(self)@[update.instrument_idx as int].accepts(update.update_data)
                    &&& final(self)@[update.instrument_idx as int] == old(
                        self,
                    )@[update.instrument_idx as int].updated(update.update_data, update.change_id)
                    &&& final(self)@[update.instrument_idx as int].valid()
                    &&& shows(
                        data,
                        final(self)@[update.instrument_idx as int].bids,
                        final(self)@[update.instrument_idx as int].asks,
                    )
                    &&& instrument_idx == update.instrument_idx
                    &&& timestamp_ns == update.timestamp
                    &&& flag == update.update_data.flag
                },
            },
    {
        let idx = update.instrument_idx;
        if idx >= self.books.len() {
            return BookOutcome::UnknownInstrument { instrument_idx: idx };
        }
        let flag = update.update_data.flag;
        let timestamp_ns = update.timestamp;
        let change_id = update.change_id;
        let ghost before = self.books@;
        let result = self.books[idx].apply_update(update.update_data, change_id);
        assert(self@.len() == old(self)@.len());
        match result {
            Ok(data) => BookOutcome::Publish { instrument_idx: idx, data, timestamp_ns, flag },
            Err(OrderbookError::SequenceGap { expected, received }) => {
                assert(self@ =~= old(self)@);
                BookOutcome::Gap { instrument_idx: idx, expected, received }
            },
            Err(_) => BookOutcome::UnknownInstrument { instrument_idx: idx },
        }
    }
}

/// What to do after a pass over the channels: a pass that took anything is
/// followed by another at once, so that a burst is written without waiting.
pub fn after_pass(processed_any: bool) -> (step: DrainStep)
    ensures
        step == if processed_any {
            DrainStep::Again
        } else {
            DrainStep::Wait
        },
{
    if processed_any {
        DrainStep::Again
    } else {
        DrainStep::Wait
    }
}

/// What to do when the ring buffer did not take a trade: report and drop it.
pub fn on_trade_push_failed() -> (policy: FailurePolicy)
    ensures
        policy == FailurePolicy::Drop,
{
    FailurePolicy::Drop
}

/// What to do when shared memory did not take a view: stop, since the region
/// can no longer be relied on.
pub fn on_publish_failed() -> (policy: FailurePolicy)
    ensures
        policy == FailurePolicy::Abort,
{
    FailurePolicy::Abort
}

} // verus!

//! Order-book messages on the hot path.

use vstd::prelude::*;
use vstd::string::StringSliceAdditionalSpecFns;
use smallvec::SmallVec;
use crate::parsing::bytes::find_from;
use crate::parsing::bytes::first_at;
use crate::parsing::bytes::holds_at;
use crate::parsing::bytes::matches_at;
use crate::parsing::parsing_fast::data_at;
use crate::parsing::parsing_fast::instrument_at;
use crate::parsing::parsing_fast::StreamingParser;
use crate::parsing::parsing_fast::COMMA;
use crate::parsing::parsing_fast::ENVELOPE_PREFIX;
use crate::parsing::parsing_fast::INSTRUMENT_NAME_KEY;
use crate::parsing::parsing_fast::LIST_CLOSE;
use crate::parsing::parsing_orderbook::OrderbookAction;
use crate::parsing::parsing_orderbook::OrderbookLevel;
use crate::parsing::scan::after_literal;
use crate::parsing::scan::decimal_at;
use crate::parsing::scan::expect_literal;
use crate::parsing::scan::lemma_decimal_at_bounds;
use crate::parsing::scan::u64_at;
use crate::parsing::Field;
use crate::parsing::FormatIssue;
use crate::parsing::ParseError;

verus! {

/// The levels of one side of an update, in the order received. Up to sixteen
/// are stored inline.
#[verifier::external_body]
#[derive(Debug)]
pub struct LevelBuffer {
    inner: SmallVec<[OrderbookLevel; 16]>,
}

/// The levels that a buffer holds, first received first.
pub uninterp spec fn level_items(buffer: LevelBuffer) -> Seq<OrderbookLevel>;

impl LevelBuffer {
    /// `SmallVec::new`: a vector that holds nothing.
    #[verifier::external_body]
    pub(crate) fn new() -> (buffer: LevelBuffer)
        ensures
            level_items(buffer) == Seq::<OrderbookLevel>::empty(),
    {
        LevelBuffer { inner: SmallVec::new() }
    }

    /// `SmallVec::push`: the item is appended behind those already held. The
    /// call grows the storage where needed, which fails only when the length
    /// would pass `usize::MAX`.
    #[verifier::external_body]
    pub(crate) fn push(&mut self, level: OrderbookLevel)
        requires
            level_items(*old(self)).len() < usize::MAX,
        ensures
            level_items(*final(self)) == level_items(*old(self)).push(level),
    {
        self.inner.push(level)
    }

    /// `SmallVec::len`: the number of items held.
    #[verifier::external_body]
    pub(crate) fn count(&self) -> (n: usize)
        ensures
            n == level_items(*self).len(),
    {
        self.inner.len()
    }

    /// Indexing a `SmallVec`, which derefs to the slice of its items: the item
    /// at position `i`.
    #[verifier::external_body]
    pub(crate) fn item(&self, i: usize) -> (level: OrderbookLevel)
        requires
            i < level_items(*self).len(),
        ensures
            level == level_items(*self)[i as int],
    {
        self.inner[i]
    }

    /// The number of levels held.
    pub fn len(&self) -> (n: usize)
        ensures
            n == level_items(*self).len(),
    {
        self.count()
    }

    /// The level at position `i`, if there is one.
    pub fn get(&self, i: usize) -> (level: Option<OrderbookLevel>)
        ensures
            level == if i < level_items(*self).len() {
                Some(level_items(*self)[i as int])
            } else {
                None
            },
    {
        if i < self.count() {
            Some(self.item(i))
        } else {
            None
        }
    }
}

/// The content of one order-book message: the levels of both sides, the id of
/// the change it follows, and which sides it touches.
#[derive(Debug)]
pub struct OrderbookUpdateDataRaw {
    pub prev_change_id: u64,
    pub bid_updates: LevelBuffer,
    pub ask_updates: LevelBuffer,
    /// Bit 0: the message carries bids. Bit 1: it carries asks.
    pub flag: u8,
}

/// An order-book message with its place in the stream.
#[derive(Debug)]
pub struct OrderbookResult {
    pub change_id: u64,
    pub timestamp: u64,
    pub instrument_idx: usize,
    pub update_data: OrderbookUpdateDataRaw,
}

impl OrderbookUpdateDataRaw {
    /// The bid levels, in the order received.
    pub open spec fn bids(self) -> Seq<OrderbookLevel> {
        level_items(self.bid_updates)
    }

    /// The ask levels, in the order received.
    pub open spec fn asks(self) -> Seq<OrderbookLevel> {
        level_items(self.ask_updates)
    }

    /// Whether the message is a snapshot: it follows no earlier change.
    pub open spec fn is_snapshot(self) -> bool {
        self.prev_change_id == 0
    }

    /// A message without levels, which follows no change.
    pub fn new() -> (update: Self)
        ensures
            update.prev_change_id == 0,
            update.bids() == Seq::<OrderbookLevel>::empty(),
            update.asks() == Seq::<OrderbookLevel>::empty(),
            update.flag == 0,
    {
        Self {
            prev_change_id: 0,
            bid_updates: LevelBuffer::new(),
            ask_updates: LevelBuffer::new(),
            flag: 0,
        }
    }

    /// Appends a bid level and marks the bids as touched.
    pub fn add_bid(&mut self, level: OrderbookLevel)
        requires
            old(self).bids().len() < usize::MAX,
        ensures
            final(self).bids() == old(self).bids().push(level),
            final(self).asks() == old(self).asks(),
            final(self).flag == old(self).flag | 0b01,
            final(self).prev_change_id == old(self).prev_change_id,
    {
        self.bid_updates.push(level);
        self.flag = self.flag | 0b01;
    }

    /// Appends an ask level and marks the asks as touched.
    pub fn add_ask(&mut self, level: OrderbookLevel)
        requires
            old(self).asks().len() < usize::MAX,
        ensures
            final(self).asks() == old(self).asks().push(level),
            final(self).bids() == old(self).bids(),
            final(self).flag == old(self).flag | 0b10,
            final(self).prev_change_id == old(self).prev_change_id,
    {
        self.ask_updates.push(level);
        self.flag = self.flag | 0b10;
    }

    /// Whether the bids are marked as touched.
    pub fn has_bids(&self) -> (b: bool)
        ensures
            b == (self.flag & 0b01 != 0),
    {
        self.flag & 0b01 != 0
    }

    /// Whether the asks are marked as touched.
    pub fn has_asks(&self) -> (b: bool)
        ensures
            b == (self.flag & 0b10 != 0),
    {
        self.flag & 0b10 != 0
    }

    /// Names the change that the message follows.
    pub fn set_prev_change_id(&mut self, id: u64)
        ensures
            final(self).prev_change_id == id,
            final(self).bids() == old(self).bids(),
            final(self).asks() == old(self).asks(),
            final(self).flag == old(self).flag,
    {
        self.prev_change_id = id;
    }
}

impl OrderbookResult {
    /// A message with its change id, its time and its instrument.
    pub fn new(
        change_id: u64,
        timestamp: u64,
        instrument_idx: usize,
        update_data: OrderbookUpdateDataRaw,
    ) -> (result: Self)
        ensures
            result.change_id == change_id,
            result.timestamp == timestamp,
            result.instrument_idx == instrument_idx,
            result.update_data == update_data,
    {
        Self { change_id, timestamp, instrument_idx, update_data }
    }
}

/// What stands between `data` and the timestamp of a book message.
pub const BOOK_OPEN: &'static str = "\":{\"timestamp\":";

/// The keys of a book message stand between its values, in this order.
pub const TYPE_KEY: &'static str = ",\"type\":\"";

pub const SNAPSHOT: &'static str = "snapshot";

pub const CHANGE: &'static str = "change";

pub const CHANGE_ID_KEY: &'static str = "\",\"change_id\":";

pub const BIDS_KEY: &'static str = "\",\"bids\":[";

/// What stands between the bids and the asks of a change.
pub const ASKS_KEY: &'static str = "],\"asks\":[";

/// What a snapshot is searched for, behind the bids that were read.
pub const ASKS_PATTERN: &'static str = "\"asks\":[";

pub const PREV_CHANGE_ID_KEY: &'static str = "],\"prev_change_id\":";

/// How a level starts: the bracket and the quote before its action.
pub const LEVEL_OPEN: &'static str = "[\"";

pub const NEW: &'static str = "new";

pub const DELETE: &'static str = "delete";

pub const ACTION_CLOSE: &'static str = "\",";

pub const NUMBER_SEPARATOR: &'static str = ",";

pub const LEVEL_CLOSE: &'static str = "]";

/// How many levels of each side are read from a snapshot.
pub const SNAPSHOT_DEPTH: usize = 10;

/// What a book message says, as plain values.
pub struct BookMessage {
    pub change_id: u64,
    pub timestamp: u64,
    pub instrument_idx: usize,
    pub prev_change_id: u64,
    pub bids: Seq<OrderbookLevel>,
    pub asks: Seq<OrderbookLevel>,
    pub flag: u8,
}

/// The first fields of a book message, and where they end.
pub struct BookHeader {
    pub timestamp: u64,
    pub snapshot: bool,
    pub change_id: u64,
    pub instrument_idx: usize,
    pub end: usize,
}

/// The two-bit flag of a message with these sides.
pub open spec fn side_flags(bids: Seq<OrderbookLevel>, asks: Seq<OrderbookLevel>) -> u8 {
    if bids.len() > 0 && asks.len() > 0 {
        0b11
    } else if bids.len() > 0 {
        0b01
    } else if asks.len() > 0 {
        0b10
    } else {
        0
    }
}

/// The action written at `pos`, and the position behind it.
pub open spec fn action_at(buf: Seq<u8>, pos: usize) -> Result<(OrderbookAction, usize), ParseError> {
    if holds_at(buf, pos as int, NEW.spec_bytes()) {
        Ok((OrderbookAction::New, (pos + NEW.spec_bytes().len()) as usize))
    } else if holds_at(buf, pos as int, CHANGE.spec_bytes()) {
        Ok((OrderbookAction::Change, (pos + CHANGE.spec_bytes().len()) as usize))
    } else if holds_at(buf, pos as int, DELETE.spec_bytes()) {
        Ok((OrderbookAction::Delete, (pos + DELETE.spec_bytes().len()) as usize))
    } else {
        Err(ParseError::InvalidFormat(FormatIssue::UnknownAction))
    }
}

/// The level written at `pos`, from its opening bracket to its closing
/// bracket, and the position behind it.
#[verifier::opaque]
pub open spec fn level_at(buf: Seq<u8>, pos: usize) -> Result<(OrderbookLevel, usize), ParseError> {
    match after_literal(buf, pos, LEVEL_OPEN.spec_bytes(), Field::Level) {
        Err(e) => Err(e),
        Ok(p1) => match action_at(buf, p1) {
            Err(e) => Err(e),
            Ok((action, p2)) => match after_literal(
                buf,
                p2,
                ACTION_CLOSE.spec_bytes(),
                Field::Level,
            ) {
                Err(e) => Err(e),
                Ok(p3) => match decimal_at(buf, p3) {
                    Err(e) => Err(e),
                    Ok((price, p4)) => match after_literal(
                        buf,
                        p4,
                        NUMBER_SEPARATOR.spec_bytes(),
                        Field::Level,
                    ) {
                        Err(e) => Err(e),
                        Ok(p5) => match decimal_at(buf, p5) {
                            Err(e) => Err(e),
                            Ok((size, p6)) => match after_literal(
                                buf,
                                p6,
                                LEVEL_CLOSE.spec_bytes(),
                                Field::Level,
                            ) {
                                Err(e) => Err(e),
                                Ok(p7) => Ok((OrderbookLevel { action, price, size }, p7)),
                            },
                        },
                    },
                },
            },
        },
    }
}

/// A level that was read ends behind its start and inside the buffer.
pub proof fn lemma_level_at_bounds(buf: Seq<u8>, pos: usize)
    requires
        buf.len() <= usize::MAX,
    ensures
        level_at(buf, pos) matches Ok((_, end)) ==> pos < end <= buf.len(),
{
    reveal(level_at);
    if let Ok(p1) = after_literal(buf, pos, LEVEL_OPEN.spec_bytes(), Field::Level) {
        if let Ok((_, p2)) = action_at(buf, p1) {
            if let Ok(p3) = after_literal(buf, p2, ACTION_CLOSE.spec_bytes(), Field::Level) {
                lemma_decimal_at_bounds(buf, p3);
                if let Ok((_, p4)) = decimal_at(buf, p3) {
                    if let Ok(p5) = after_literal(
                        buf,
                        p4,
                        NUMBER_SEPARATOR.spec_bytes(),
                        Field::Level,
                    ) {
                        lemma_decimal_at_bounds(buf, p5);
                    }
                }
            }
        }
    }
}

/// The levels of a list from `pos` on, behind the levels `seen`, and the
/// position at which reading stopped: at the `]` that closes the list, or
/// where `limit` levels were read. A `,` behind a level is passed over.
pub open spec fn levels_from(
    buf: Seq<u8>,
    pos: usize,
    seen: Seq<OrderbookLevel>,
    limit: nat,
) -> Result<(Seq<OrderbookLevel>, usize), ParseError>
    decreases buf.len() - pos,
    when buf.len() <= usize::MAX
{
    if seen.len() >= limit {
        Ok((seen, pos))
    } else if pos >= buf.len() {
        Err(ParseError::BufferTooShort(buf.len() as usize))
    } else if buf[pos as int] == LIST_CLOSE {
        Ok((seen, pos))
    } else {
        match level_at(buf, pos) {
            Err(e) => Err(e),
            Ok((level, after)) => {
                let next = if after < buf.len() && buf[after as int] == COMMA {
                    after + 1
                } else {
                    after as int
                };
                proof {
                    lemma_level_at_bounds(buf, pos);
                }
                levels_from(buf, next as usize, seen.push(level), limit)
            },
        }
    }
}

/// Whether a book message is a snapshot, by the type written at `pos`, and the
/// position behind the type.
pub open spec fn book_type_at(buf: Seq<u8>, pos: usize) -> Result<(bool, usize), ParseError> {
    if holds_at(buf, pos as int, SNAPSHOT.spec_bytes()) {
        Ok((true, (pos + SNAPSHOT.spec_bytes().len()) as usize))
    } else if holds_at(buf, pos as int, CHANGE.spec_bytes()) {
        Ok((false, (pos + CHANGE.spec_bytes().len()) as usize))
    } else {
        Err(ParseError::UnknownMessageType)
    }
}

/// The fields of a book message from behind `data` to the opening bracket of
/// its bids.
#[verifier::opaque]
pub open spec fn book_header_at(index: Map<Seq<u8>, usize>, buf: Seq<u8>, pos: usize) -> Result<
    BookHeader,
    ParseError,
> {
    match after_literal(buf, pos, BOOK_OPEN.spec_bytes(), Field::Timestamp) {
        Err(e) => Err(e),
        Ok(p1) => match u64_at(buf, p1) {
            Err(e) => Err(e),
            Ok((timestamp, p2)) => match after_literal(buf, p2, TYPE_KEY.spec_bytes(), Field::Type) {
                Err(e) => Err(e),
                Ok(p3) => match book_type_at(buf, p3) {
                    Err(e) => Err(e),
                    Ok((snapshot, p4)) => match after_literal(
                        buf,
                        p4,
                        CHANGE_ID_KEY.spec_bytes(),
                        Field::ChangeId,
                    ) {
                        Err(e) => Err(e),
                        Ok(p5) => match u64_at(buf, p5) {
                            Err(e) => Err(e),
                            Ok((change_id, p6)) => match after_literal(
                                buf,
                                p6,
                                INSTRUMENT_NAME_KEY.spec_bytes(),
                                Field::InstrumentName,
                            ) {
                                Err(e) => Err(e),
                                Ok(p7) => match instrument_at(index, buf, p7) {
                                    Err(e) => Err(e),
                                    Ok((instrument_idx, p8)) => match after_literal(
                                        buf,
                                        p8,
                                        BIDS_KEY.spec_bytes(),
                                        Field::Bids,
                                    ) {
                                        Err(e) => Err(e),
                                        Ok(p9) => Ok(
                                            BookHeader {
                                                timestamp,
                                                snapshot,
                                                change_id,
                                                instrument_idx,
                                                end: p9,
                                            },
                                        ),
                                    },
                                },
                            },
                        },
                    },
                },
            },
        },
    }
}

/// The sides of a change, whose bids start at `pos`, and the id of the change
/// that it follows: every level of both sides.
pub open spec fn change_at(buf: Seq<u8>, pos: usize) -> Result<
    (Seq<OrderbookLevel>, Seq<OrderbookLevel>, u64),
    ParseError,
> {
    match levels_from(buf, pos, Seq::empty(), usize::MAX as nat) {
        Err(e) => Err(e),
        Ok((bids, p1)) => match after_literal(buf, p1, ASKS_KEY.spec_bytes(), Field::Asks) {
            Err(e) => Err(e),
            Ok(p2) => match levels_from(buf, p2, Seq::empty(), usize::MAX as nat) {
                Err(e) => Err(e),
                Ok((asks, p3)) => match after_literal(
                    buf,
                    p3,
                    PREV_CHANGE_ID_KEY.spec_bytes(),
                    Field::PrevChangeId,
                ) {
                    Err(e) => Err(e),
                    Ok(p4) => match u64_at(buf, p4) {
                        Err(e) => Err(e),
                        Ok((prev_change_id, _)) => Ok((bids, asks, prev_change_id)),
                    },
                },
            },
        },
    }
}

/// The position behind the first `"asks":[` at or after `start`.
pub open spec fn asks_at(buf: Seq<u8>, start: usize) -> Result<usize, ParseError> {
    let at = first_at(buf, start as int, ASKS_PATTERN.spec_bytes());
    if at < buf.len() {
        Ok((at + ASKS_PATTERN.spec_bytes().len()) as usize)
    } else {
        Err(ParseError::InvalidFormat(FormatIssue::AsksNotFound))
    }
}

/// The sides of a snapshot, whose bids start at `pos`: the first ten levels of
/// each side. What stands between the bids that were read and the asks is
/// passed over.
pub open spec fn snapshot_at(buf: Seq<u8>, pos: usize) -> Result<
    (Seq<OrderbookLevel>, Seq<OrderbookLevel>, u64),
    ParseError,
> {
    match levels_from(buf, pos, Seq::empty(), SNAPSHOT_DEPTH as nat) {
        Err(e) => Err(e),
        Ok((bids, p1)) => match asks_at(buf, p1) {
            Err(e) => Err(e),
            Ok(p2) => match levels_from(buf, p2, Seq::empty(), SNAPSHOT_DEPTH as nat) {
                Err(e) => Err(e),
                Ok((asks, _)) => Ok((bids, asks, 0u64)),
            },
        },
    }
}

/// What a book message says: what `parse_orderbook_fast` returns.
pub open spec fn book_in(index: Map<Seq<u8>, usize>, buf: Seq<u8>) -> Result<
    BookMessage,
    ParseError,
> {
    match data_at(buf, ENVELOPE_PREFIX.spec_bytes().len() as usize) {
        Err(e) => Err(e),
        Ok(p0) => match book_header_at(index, buf, p0) {
            Err(e) => Err(e),
            Ok(header) => match (if header.snapshot {
                snapshot_at(buf, header.end)
            } else {
                change_at(buf, header.end)
            }) {
                Err(e) => Err(e),
                Ok((bids, asks, prev_change_id)) => Ok(
                    BookMessage {
                        change_id: header.change_id,
                        timestamp: header.timestamp,
                        instrument_idx: header.instrument_idx,
                        prev_change_id,
                        bids,
                        asks,
                        flag: side_flags(bids, asks),
                    },
                ),
            },
        },
    }
}

impl OrderbookResult {
    /// What the message says, as plain values.
    pub open spec fn message(self) -> BookMessage {
        BookMessage {
            change_id: self.change_id,
            timestamp: self.timestamp,
            instrument_idx: self.instrument_idx,
            prev_change_id: self.update_data.prev_change_id,
            bids: self.update_data.bids(),
            asks: self.update_data.asks(),
            flag: self.update_data.flag,
        }
    }
}

impl StreamingParser {
    /// Reads the action of a level.
    fn parse_action(buffer: &[u8], pos: usize) -> (out: Result<(OrderbookAction, usize), ParseError>)
        ensures
            out == action_at(buffer@, pos),
            out matches Ok((_, end)) ==> pos <= end <= buffer.len(),
    {
        let new = NEW.as_bytes();
        let change = CHANGE.as_bytes();
        let delete = DELETE.as_bytes();
        let _ = buffer.len();
        if matches_at(buffer, pos, new) {
            Ok((OrderbookAction::New, pos + new.len()))
        } else if matches_at(buffer, pos, change) {
            Ok((OrderbookAction::Change, pos + change.len()))
        } else if matches_at(buffer, pos, delete) {
            Ok((OrderbookAction::Delete, pos + delete.len()))
        } else {
            Err(ParseError::InvalidFormat(FormatIssue::UnknownAction))
        }
    }

    /// Reads the level at `pos`, from its opening bracket to its closing
    /// bracket: an action, a price and a size.
    pub fn parse_orderbook_entry(&self, buffer: &[u8], pos: usize) -> (out: Result<
        (OrderbookLevel, usize),
        ParseError,
    >)
        ensures
            out == level_at(buffer@, pos),
            out matches Ok((_, end)) ==> pos < end <= buffer.len(),
    {
        reveal(level_at);
        let p1 = expect_literal(buffer, pos, LEVEL_OPEN, Field::Level)?;
        let (action, p2) = Self::parse_action(buffer, p1)?;
        let p3 = expect_literal(buffer, p2, ACTION_CLOSE, Field::Level)?;
        let (price, p4) = Self::parse_number(buffer, p3)?;
        let p5 = expect_literal(buffer, p4, NUMBER_SEPARATOR, Field::Level)?;
        let (size, p6) = Self::parse_number(buffer, p5)?;
        let p7 = expect_literal(buffer, p6, LEVEL_CLOSE, Field::Level)?;
        Ok((OrderbookLevel { action, price, size }, p7))
    }

    /// Reads the levels of a list from `pos` on, at most `limit` of them.
    fn parse_levels(&self, buffer: &[u8], pos: usize, limit: usize) -> (out: Result<
        (LevelBuffer, usize),
        ParseError,
    >)
        ensures
            match out {
                Ok((levels, end)) => levels_from(buffer@, pos, Seq::empty(), limit as nat) == Ok::<
                    (Seq<OrderbookLevel>, usize),
                    ParseError,
                >((level_items(levels), end)) && (pos <= buffer.len() ==> end <= buffer.len()),
                Err(e) => levels_from(buffer@, pos, Seq::empty(), limit as nat) == Err::<
                    (Seq<OrderbookLevel>, usize),
                    ParseError,
                >(e),
            },
    {
        let mut levels = LevelBuffer::new();
        let mut at = pos;
        if pos > buffer.len() {
            if limit == 0 {
                return Ok((levels, pos));
            }
            return Err(ParseError::BufferTooShort(buffer.len()));
        }
        loop
            invariant
                at <= buffer.len(),
                level_items(levels).len() <= at,
                levels_from(buffer@, pos, Seq::empty(), limit as nat) == levels_from(
                    buffer@,
                    at,
                    level_items(levels),
                    limit as nat,
                ),
            decreases buffer.len() - at,
        {
            if levels.count() >= limit {
                return Ok((levels, at));
            }
            if at >= buffer.len() {
                return Err(ParseError::BufferTooShort(buffer.len()));
            }
            if buffer[at] == LIST_CLOSE {
                return Ok((levels, at));
            }
            let (level, after) = self.parse_orderbook_entry(buffer, at)?;
            levels.push(level);
            at = if after < buffer.len() && buffer[after] == COMMA {
                after + 1
            } else {
                after
            };
        }
    }

    /// Whether the message is a snapshot.
    fn parse_book_type(buffer: &[u8], pos: usize) -> (out: Result<(bool, usize), ParseError>)
        ensures
            out == book_type_at(buffer@, pos),
            out matches Ok((_, end)) ==> pos <= end <= buffer.len(),
    {
        let snapshot = SNAPSHOT.as_bytes();
        let change = CHANGE.as_bytes();
        let _ = buffer.len();
        if matches_at(buffer, pos, snapshot) {
            Ok((true, pos + snapshot.len()))
        } else if matches_at(buffer, pos, change) {
            Ok((false, pos + change.len()))
        } else {
            Err(ParseError::UnknownMessageType)
        }
    }

    /// Reads a book message from behind `data` to the opening bracket of its
    /// bids.
    fn parse_book_header(&self, buffer: &[u8], pos: usize) -> (out: Result<BookHeader, ParseError>)
        ensures
            out == book_header_at(self.instruments(), buffer@, pos),
            out matches Ok(header) ==> header.end <= buffer.len(),
    {
        reveal(book_header_at);
        let p1 = expect_literal(buffer, pos, BOOK_OPEN, Field::Timestamp)?;
        let (timestamp, p2) = Self::parse_u64(buffer, p1)?;
        let p3 = expect_literal(buffer, p2, TYPE_KEY, Field::Type)?;
        let (snapshot, p4) = Self::parse_book_type(buffer, p3)?;
        let p5 = expect_literal(buffer, p4, CHANGE_ID_KEY, Field::ChangeId)?;
        let (change_id, p6) = Self::parse_u64(buffer, p5)?;
        let p7 = expect_literal(buffer, p6, INSTRUMENT_NAME_KEY, Field::InstrumentName)?;
        let (instrument_idx, p8) = self.parse_instrument(buffer, p7)?;
        let p9 = expect_literal(buffer, p8, BIDS_KEY, Field::Bids)?;
        Ok(BookHeader { timestamp, snapshot, change_id, instrument_idx, end: p9 })
    }

    /// The position behind the first `"asks":[` at or after `start_pos`.
    pub fn skip_to_asks_section(&self, buffer: &[u8], start_pos: usize) -> (after: Result<
        usize,
        ParseError,
    >)
        ensures
            after == asks_at(buffer@, start_pos),
            after matches Ok(p) ==> start_pos <= p <= buffer.len(),
    {
        let pattern = ASKS_PATTERN.as_bytes();
        let _ = buffer.len();
        match find_from(buffer, start_pos, pattern) {
            Some(at) => Ok(at + pattern.len()),
            None => Err(ParseError::InvalidFormat(FormatIssue::AsksNotFound)),
        }
    }

    /// Puts the two sides of a message together, with the flag that says which
    /// of them hold a level.
    fn assemble(bids: LevelBuffer, asks: LevelBuffer, prev_change_id: u64) -> (data:
        OrderbookUpdateDataRaw)
        ensures
            data.bids() == level_items(bids),
            data.asks() == level_items(asks),
            data.prev_change_id == prev_change_id,
            data.flag == side_flags(level_items(bids), level_items(asks)),
    {
        let has_bids = bids.count() > 0;
        let has_asks = asks.count() > 0;
        let flag: u8 = if has_bids && has_asks {
            0b11
        } else if has_bids {
            0b01
        } else if has_asks {
            0b10
        } else {
            0
        };
        OrderbookUpdateDataRaw { prev_change_id, bid_updates: bids, ask_updates: asks, flag }
    }

    /// Reads the sides of a change, whose bids start at `pos`, and the id of
    /// the change that it follows.
    pub fn parse_order_book_update(&self, buffer: &[u8], pos: usize) -> (out: Result<
        OrderbookUpdateDataRaw,
        ParseError,
    >)
        ensures
            match out {
                Ok(data) => change_at(buffer@, pos) == Ok::<
                    (Seq<OrderbookLevel>, Seq<OrderbookLevel>, u64),
                    ParseError,
                >((data.bids(), data.asks(), data.prev_change_id)) && data.flag == side_flags(
                    data.bids(),
                    data.asks(),
                ),
                Err(e) => change_at(buffer@, pos) == Err::<
                    (Seq<OrderbookLevel>, Seq<OrderbookLevel>, u64),
                    ParseError,
                >(e),
            },
    {
        let (bids, p1) = self.parse_levels(buffer, pos, usize::MAX)?;
        let p2 = expect_literal(buffer, p1, ASKS_KEY, Field::Asks)?;
        let (asks, p3) = self.parse_levels(buffer, p2, usize::MAX)?;
        let p4 = expect_literal(buffer, p3, PREV_CHANGE_ID_KEY, Field::PrevChangeId)?;
        let (prev_change_id, _) = Self::parse_u64(buffer, p4)?;
        Ok(Self::assemble(bids, asks, prev_change_id))
    }

    /// Reads the sides of a snapshot, whose bids start at `pos`: the first ten
    /// levels of each.
    pub fn parse_orderbook_snapshot_direct(&self, buffer: &[u8], pos: usize) -> (out: Result<
        OrderbookUpdateDataRaw,
        ParseError,
    >)
        ensures
            match out {
                Ok(data) => snapshot_at(buffer@, pos) == Ok::<
                    (Seq<OrderbookLevel>, Seq<OrderbookLevel>, u64),
                    ParseError,
                >((data.bids(), data.asks(), data.prev_change_id)) && data.flag == side_flags(
                    data.bids(),
                    data.asks(),
                ),
                Err(e) => snapshot_at(buffer@, pos) == Err::<
                    (Seq<OrderbookLevel>, Seq<OrderbookLevel>, u64),
                    ParseError,
                >(e),
            },
    {
        let (bids, p1) = self.parse_levels(buffer, pos, SNAPSHOT_DEPTH)?;
        let p2 = self.skip_to_asks_section(buffer, p1)?;
        let (asks, _) = self.parse_levels(buffer, p2, SNAPSHOT_DEPTH)?;
        Ok(Self::assemble(bids, asks, 0))
    }

    /// Reads a book message: a snapshot or a change of one instrument's book.
    pub fn parse_orderbook_fast(&self, buffer: &[u8]) -> (out: Result<OrderbookResult, ParseError>)
        ensures
            match out {
                Ok(result) => book_in(self.instruments(), buffer@) == Ok::<
                    BookMessage,
                    ParseError,
                >(result.message()),
                Err(e) => book_in(self.instruments(), buffer@) == Err::<BookMessage, ParseError>(e),
            },
    {
        let p0 = Self::find_data_array_fast(buffer, ENVELOPE_PREFIX.as_bytes().len())?;
        let header = self.parse_book_header(buffer, p0)?;
        let data = if header.snapshot {
            self.parse_orderbook_snapshot_direct(buffer, header.end)?
        } else {
            self.parse_order_book_update(buffer, header.end)?
        };
        Ok(OrderbookResult::new(header.change_id, header.timestamp, header.instrument_idx, data))
    }
}

} // verus!

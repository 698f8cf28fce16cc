//! Trade messages on the hot path, and the entry point of the hot path.

use vstd::prelude::*;
use vstd::slice::slice_subrange;
use vstd::string::StringSliceAdditionalSpecFns;
use vstd::utf8::valid_utf8;
use smallvec::SmallVec;
use crate::decimal::Decimal;
use crate::market_data_type::TradeEvent;
use crate::parsing::bytes::find_from;
use crate::parsing::bytes::first_at;
use crate::parsing::bytes::holds_at;
use crate::parsing::bytes::matches_at;
use crate::parsing::instrument_index::InstrumentIndex;
use crate::parsing::parsing_fast_orderbook::book_in;
use crate::parsing::parsing_fast_orderbook::BookMessage;
use crate::parsing::parsing_fast_orderbook::OrderbookResult;
use crate::parsing::scan::after_literal;
use crate::parsing::scan::decimal_at;
use crate::parsing::scan::expect_literal;
use crate::parsing::scan::is_utf8;
use crate::parsing::scan::lemma_decimal_at_bounds;
use crate::parsing::scan::lemma_string_at_bounds;
use crate::parsing::scan::lemma_u64_at_bounds;
use crate::parsing::scan::parse_trade_id;
use crate::parsing::scan::string_at;
use crate::parsing::scan::trade_id_of;
use crate::parsing::scan::u64_at;
use crate::parsing::scan::whitespace_end;
use crate::parsing::scan::lemma_whitespace_end_bounds;
use crate::parsing::Field;
use crate::parsing::FormatIssue;
use crate::parsing::ParseError;

verus! {

/// How every frame of the hot path starts, up to the name of its channel.
pub const ENVELOPE_PREFIX: &'static str =
    "{\"jsonrpc\":\"2.0\",\"method\":\"subscription\",\"params\":{\"channel\":\"";

/// How the name of a trade channel starts.
pub const TRADES_PATTERN: &'static str = "trades.";

/// How the name of a book channel starts.
pub const BOOK_PATTERN: &'static str = "book.";

/// The member behind which the trades, or the book, stand.
pub const DATA_PATTERN: &'static str = "data";

/// What stands between `data` and the first trade.
pub const LIST_OPEN: &'static str = "\":[";

/// How a trade starts, up to its time. The keys that follow stand between
/// the values of a trade, in this order.
pub const TIMESTAMP_KEY: &'static str = "{\"timestamp\":";

pub const PRICE_KEY: &'static str = ",\"price\":";

pub const AMOUNT_KEY: &'static str = ",\"amount\":";

pub const DIRECTION_KEY: &'static str = ",\"direction\":\"";

pub const BUY: &'static str = "buy";

pub const SELL: &'static str = "sell";

pub const INDEX_PRICE_KEY: &'static str = "\",\"index_price\":";

pub const INSTRUMENT_NAME_KEY: &'static str = ",\"instrument_name\":\"";

pub const TRADE_SEQ_KEY: &'static str = "\",\"trade_seq\":";

pub const MARK_PRICE_KEY: &'static str = ",\"mark_price\":";

pub const TICK_DIRECTION_KEY: &'static str = ",\"tick_direction\":";

pub const TRADE_ID_KEY: &'static str = ",\"trade_id\":\"";

pub const CONTRACTS_KEY: &'static str = "\",\"contracts\":";

pub const OBJECT_CLOSE: &'static str = "}";

/// `]`
pub const LIST_CLOSE: u8 = 93;

/// `,`
pub const COMMA: u8 = 44;

/// The shortest frame that the hot path takes.
pub const MIN_FRAME_LEN: usize = 100;

/// The kind of stream that a frame belongs to.
#[derive(Debug, Clone, Copy, PartialEq, Eq, Structural)]
pub enum ChannelType {
    Trades,
    Orderbook,
    Unknown,
}

/// The trades of one message, in the order received. Up to four are stored
/// inline.
#[verifier::external_body]
#[derive(Debug)]
pub struct TradeBuffer {
    inner: SmallVec<[TradeEvent; 4]>,
}

/// The trades that a buffer holds, first received first.
pub uninterp spec fn trade_items(buffer: TradeBuffer) -> Seq<TradeEvent>;

impl TradeBuffer {
    /// `SmallVec::new`: a vector that holds nothing.
    #[verifier::external_body]
    pub(crate) fn new() -> (buffer: TradeBuffer)
        ensures
            trade_items(buffer) == Seq::<TradeEvent>::empty(),
    {
        TradeBuffer { inner: SmallVec::new() }
    }

    /// `SmallVec::push`: the item is appended behind those already held. The
    /// call grows the storage where needed, which fails only when the length
    /// would pass `usize::MAX`.
    #[verifier::external_body]
    pub(crate) fn push(&mut self, trade: TradeEvent)
        requires
            trade_items(*old(self)).len() < usize::MAX,
        ensures
            trade_items(*final(self)) == trade_items(*old(self)).push(trade),
    {
        self.inner.push(trade)
    }

    /// `SmallVec::len`: the number of items held.
    #[verifier::external_body]
    pub(crate) fn count(&self) -> (n: usize)
        ensures
            n == trade_items(*self).len(),
    {
        self.inner.len()
    }

    /// Indexing a `SmallVec`, which derefs to the slice of its items: the item
    /// at position `i`.
    #[verifier::external_body]
    pub(crate) fn item(&self, i: usize) -> (trade: TradeEvent)
        requires
            i < trade_items(*self).len(),
        ensures
            trade == trade_items(*self)[i as int],
    {
        self.inner[i]
    }

    /// The number of trades held.
    pub fn len(&self) -> (n: usize)
        ensures
            n == trade_items(*self).len(),
    {
        self.count()
    }

    /// The trade at position `i`, if there is one.
    pub fn get(&self, i: usize) -> (trade: Option<TradeEvent>)
        ensures
            trade == if i < trade_items(*self).len() {
                Some(trade_items(*self)[i as int])
            } else {
                None
            },
    {
        if i < self.count() {
            Some(self.item(i))
        } else {
            None
        }
    }
}

/// What the hot path reads from a frame.
#[derive(Debug)]
pub enum FastMarketData {
    /// The trades of a trade message: at least one.
    Trade(TradeBuffer),
    OrderbookUpdate(OrderbookResult),
}

impl FastMarketData {
    /// The number of the instrument that the frame is about: that of the first
    /// trade, or that of the book.
    pub open spec fn instrument(self) -> usize {
        match self {
            FastMarketData::Trade(trades) => trade_items(trades)[0].instrument_idx as usize,
            FastMarketData::OrderbookUpdate(update) => update.instrument_idx,
        }
    }

    /// The number of the instrument that the frame is about.
    pub fn instrument_idx(&self) -> (idx: usize)
        requires
            self matches FastMarketData::Trade(trades) ==> trade_items(*trades).len() > 0,
        ensures
            idx == self.instrument(),
    {
        match self {
            FastMarketData::Trade(trades) => trades.item(0).instrument_idx as usize,
            FastMarketData::OrderbookUpdate(update) => update.instrument_idx,
        }
    }
}

/// The first fields of a trade, and where they end.
pub struct TradeHead {
    pub timestamp: u64,
    pub price: Decimal,
    pub amount: Decimal,
    pub side: u8,
    pub end: usize,
}

/// The trade id of a trade as it is written, and where the trade ends.
pub struct TradeTail {
    pub id_start: usize,
    pub id_end: usize,
    pub end: usize,
}

/// The side that is written at `pos`, 1 for `buy` and 0 for `sell`, and the
/// position behind it.
pub open spec fn direction_at(buf: Seq<u8>, pos: usize) -> Result<(u8, usize), ParseError> {
    if holds_at(buf, pos as int, BUY.spec_bytes()) {
        Ok((1u8, (pos + BUY.spec_bytes().len()) as usize))
    } else if holds_at(buf, pos as int, SELL.spec_bytes()) {
        Ok((0u8, (pos + SELL.spec_bytes().len()) as usize))
    } else {
        Err(ParseError::BadDirection)
    }
}

/// The fields of a trade from its opening brace to the opening quote of its
/// direction: its time, its price and its amount, and where they end.
#[verifier::opaque]
pub open spec fn trade_lead_at(buf: Seq<u8>, pos: usize) -> Result<
    (u64, Decimal, Decimal, usize),
    ParseError,
> {
    match after_literal(buf, pos, TIMESTAMP_KEY.spec_bytes(), Field::Timestamp) {
        Err(e) => Err(e),
        Ok(p1) => match u64_at(buf, p1) {
            Err(e) => Err(e),
            Ok((timestamp, p2)) => match after_literal(
                buf,
                p2,
                PRICE_KEY.spec_bytes(),
                Field::Price,
            ) {
                Err(e) => Err(e),
                Ok(p3) => match decimal_at(buf, p3) {
                    Err(e) => Err(e),
                    Ok((price, p4)) => match after_literal(
                        buf,
                        p4,
                        AMOUNT_KEY.spec_bytes(),
                        Field::Amount,
                    ) {
                        Err(e) => Err(e),
                        Ok(p5) => match decimal_at(buf, p5) {
                            Err(e) => Err(e),
                            Ok((amount, p6)) => match after_literal(
                                buf,
                                p6,
                                DIRECTION_KEY.spec_bytes(),
                                Field::Direction,
                            ) {
                                Err(e) => Err(e),
                                Ok(p7) => Ok((timestamp, price, amount, p7)),
                            },
                        },
                    },
                },
            },
        },
    }
}

/// The fields of a trade from its opening brace to its direction.
pub open spec fn trade_head_at(buf: Seq<u8>, pos: usize) -> Result<TradeHead, ParseError> {
    match trade_lead_at(buf, pos) {
        Err(e) => Err(e),
        Ok((timestamp, price, amount, p7)) => match direction_at(buf, p7) {
            Err(e) => Err(e),
            Ok((side, p8)) => Ok(TradeHead { timestamp, price, amount, side, end: p8 }),
        },
    }
}

/// The number of the instrument named at `pos`, behind the opening quote of
/// the name, and the position of the closing quote.
pub open spec fn instrument_at(index: Map<Seq<u8>, usize>, buf: Seq<u8>, pos: usize) -> Result<
    (usize, usize),
    ParseError,
> {
    match string_at(buf, pos) {
        Err(e) => Err(e),
        Ok((start, end)) => {
            let name = buf.subrange(start as int, end as int);
            if !valid_utf8(name) {
                Err(ParseError::InvalidFormat(FormatIssue::InvalidUtf8))
            } else if !index.contains_key(name) {
                Err(ParseError::UnknownInstrument)
            } else {
                Ok((index[name], end))
            }
        },
    }
}

/// The fields of a trade from its index price to its mark price: the number of
/// its instrument, and where they end.
#[verifier::opaque]
pub open spec fn trade_middle_at(index: Map<Seq<u8>, usize>, buf: Seq<u8>, pos: usize) -> Result<
    (usize, usize),
    ParseError,
> {
    match after_literal(buf, pos, INDEX_PRICE_KEY.spec_bytes(), Field::IndexPrice) {
        Err(e) => Err(e),
        Ok(p1) => match decimal_at(buf, p1) {
            Err(e) => Err(e),
            Ok((_, p2)) => match after_literal(
                buf,
                p2,
                INSTRUMENT_NAME_KEY.spec_bytes(),
                Field::InstrumentName,
            ) {
                Err(e) => Err(e),
                Ok(p3) => match instrument_at(index, buf, p3) {
                    Err(e) => Err(e),
                    Ok((instrument, p4)) => match after_literal(
                        buf,
                        p4,
                        TRADE_SEQ_KEY.spec_bytes(),
                        Field::TradeSeq,
                    ) {
                        Err(e) => Err(e),
                        Ok(p5) => match decimal_at(buf, p5) {
                            Err(e) => Err(e),
                            Ok((_, p6)) => match after_literal(
                                buf,
                                p6,
                                MARK_PRICE_KEY.spec_bytes(),
                                Field::MarkPrice,
                            ) {
                                Err(e) => Err(e),
                                Ok(p7) => match decimal_at(buf, p7) {
                                    Err(e) => Err(e),
                                    Ok((_, p8)) => Ok((instrument, p8)),
                                },
                            },
                        },
                    },
                },
            },
        },
    }
}

/// The position behind the tick direction at `pos`: one of the digits 0 to 3.
pub open spec fn tick_direction_at(buf: Seq<u8>, pos: usize) -> Result<usize, ParseError> {
    if pos >= buf.len() {
        Err(ParseError::BufferTooShort(buf.len() as usize))
    } else if buf[pos as int] < 48 || buf[pos as int] > 51 {
        Err(ParseError::InvalidFormat(FormatIssue::TickDirection))
    } else {
        Ok((pos + 1) as usize)
    }
}

/// The fields of a trade from its tick direction to its closing brace.
#[verifier::opaque]
pub open spec fn trade_tail_at(buf: Seq<u8>, pos: usize) -> Result<TradeTail, ParseError> {
    match after_literal(buf, pos, TICK_DIRECTION_KEY.spec_bytes(), Field::TickDirection) {
        Err(e) => Err(e),
        Ok(p1) => match tick_direction_at(buf, p1) {
            Err(e) => Err(e),
            Ok(p2) => match after_literal(buf, p2, TRADE_ID_KEY.spec_bytes(), Field::TradeId) {
                Err(e) => Err(e),
                Ok(p3) => match string_at(buf, p3) {
                    Err(e) => Err(e),
                    Ok((id_start, id_end)) => if !valid_utf8(
                        buf.subrange(id_start as int, id_end as int),
                    ) {
                        Err(ParseError::InvalidFormat(FormatIssue::InvalidUtf8))
                    } else {
                        match after_literal(
                            buf,
                            id_end,
                            CONTRACTS_KEY.spec_bytes(),
                            Field::Contracts,
                        ) {
                            Err(e) => Err(e),
                            Ok(p4) => match decimal_at(buf, p4) {
                                Err(e) => Err(e),
                                Ok((_, p5)) => match after_literal(
                                    buf,
                                    p5,
                                    OBJECT_CLOSE.spec_bytes(),
                                    Field::Contracts,
                                ) {
                                    Err(e) => Err(e),
                                    Ok(p6) => Ok(TradeTail { id_start, id_end, end: p6 }),
                                },
                            },
                        }
                    },
                },
            },
        },
    }
}

/// The trade written at `pos`, from its opening brace to its closing brace,
/// and the position behind it.
#[verifier::opaque]
pub open spec fn trade_at(index: Map<Seq<u8>, usize>, buf: Seq<u8>, pos: usize) -> Result<
    (TradeEvent, usize),
    ParseError,
> {
    match trade_head_at(buf, pos) {
        Err(e) => Err(e),
        Ok(head) => match trade_middle_at(index, buf, head.end) {
            Err(e) => Err(e),
            Ok((instrument, p)) => match trade_tail_at(buf, p) {
                Err(e) => Err(e),
                Ok(tail) => match trade_id_of(
                    buf.subrange(tail.id_start as int, tail.id_end as int),
                ) {
                    None => Err(ParseError::BadTradeId),
                    Some(trade_id) => Ok(
                        (
                            TradeEvent {
                                instrument_idx: instrument as u8,
                                price: head.price,
                                size: head.amount,
                                side: head.side,
                                timestamp_ns: head.timestamp,
                                trade_id,
                            },
                            tail.end,
                        ),
                    ),
                },
            },
        },
    }
}

/// A direction that is neither `buy` nor `sell` makes the trade an error:
/// where the fields before the direction are read, the trade is refused with
/// `BadDirection`.
pub proof fn lemma_bad_direction_refused(index: Map<Seq<u8>, usize>, buf: Seq<u8>, pos: usize)
    requires
        trade_lead_at(buf, pos) is Ok,
        !holds_at(buf, trade_lead_at(buf, pos)->Ok_0.3 as int, BUY.spec_bytes()),
        !holds_at(buf, trade_lead_at(buf, pos)->Ok_0.3 as int, SELL.spec_bytes()),
    ensures
        trade_at(index, buf, pos) == Err::<(TradeEvent, usize), ParseError>(
            ParseError::BadDirection,
        ),
{
    reveal(trade_at);
}

/// A trade that was read ends behind its start and inside the buffer.
pub proof fn lemma_trade_at_bounds(index: Map<Seq<u8>, usize>, buf: Seq<u8>, pos: usize)
    requires
        buf.len() <= usize::MAX,
    ensures
        trade_at(index, buf, pos) matches Ok((_, end)) ==> pos < end <= buf.len(),
{
    reveal(trade_at);
    if let Ok(head) = trade_head_at(buf, pos) {
        lemma_trade_head_bounds(buf, pos);
        if let Ok((_, p)) = trade_middle_at(index, buf, head.end) {
            lemma_trade_middle_bounds(index, buf, head.end);
            lemma_trade_tail_bounds(buf, p);
        }
    }
}

proof fn lemma_trade_head_bounds(buf: Seq<u8>, pos: usize)
    requires
        buf.len() <= usize::MAX,
    ensures
        trade_head_at(buf, pos) matches Ok(head) ==> pos <= head.end <= buf.len(),
{
    reveal(trade_lead_at);
    if let Ok(p1) = after_literal(buf, pos, TIMESTAMP_KEY.spec_bytes(), Field::Timestamp) {
        lemma_u64_at_bounds(buf, p1);
        if let Ok((_, p2)) = u64_at(buf, p1) {
            if let Ok(p3) = after_literal(buf, p2, PRICE_KEY.spec_bytes(), Field::Price) {
                lemma_decimal_at_bounds(buf, p3);
                if let Ok((_, p4)) = decimal_at(buf, p3) {
                    if let Ok(p5) = after_literal(buf, p4, AMOUNT_KEY.spec_bytes(), Field::Amount) {
                        lemma_decimal_at_bounds(buf, p5);
                    }
                }
            }
        }
    }
}

proof fn lemma_trade_middle_bounds(index: Map<Seq<u8>, usize>, buf: Seq<u8>, pos: usize)
    requires
        buf.len() <= usize::MAX,
    ensures
        trade_middle_at(index, buf, pos) matches Ok((_, end)) ==> pos <= end <= buf.len(),
{
    reveal(trade_middle_at);
    if let Ok(p1) = after_literal(buf, pos, INDEX_PRICE_KEY.spec_bytes(), Field::IndexPrice) {
        lemma_decimal_at_bounds(buf, p1);
        if let Ok((_, p2)) = decimal_at(buf, p1) {
            if let Ok(p3) = after_literal(
                buf,
                p2,
                INSTRUMENT_NAME_KEY.spec_bytes(),
                Field::InstrumentName,
            ) {
                lemma_string_at_bounds(buf, p3);
                if let Ok((_, p4)) = instrument_at(index, buf, p3) {
                    if let Ok(p5) = after_literal(
                        buf,
                        p4,
                        TRADE_SEQ_KEY.spec_bytes(),
                        Field::TradeSeq,
                    ) {
                        lemma_decimal_at_bounds(buf, p5);
                        if let Ok((_, p6)) = decimal_at(buf, p5) {
                            if let Ok(p7) = after_literal(
                                buf,
                                p6,
                                MARK_PRICE_KEY.spec_bytes(),
                                Field::MarkPrice,
                            ) {
                                lemma_decimal_at_bounds(buf, p7);
                            }
                        }
                    }
                }
            }
        }
    }
}

proof fn lemma_trade_tail_bounds(buf: Seq<u8>, pos: usize)
    requires
        buf.len() <= usize::MAX,
    ensures
        trade_tail_at(buf, pos) matches Ok(tail) ==> pos < tail.end <= buf.len(),
{
    reveal(trade_tail_at);
    if let Ok(p1) = after_literal(
        buf,
        pos,
        TICK_DIRECTION_KEY.spec_bytes(),
        Field::TickDirection,
    ) {
        if let Ok(p2) = tick_direction_at(buf, p1) {
            if let Ok(p3) = after_literal(buf, p2, TRADE_ID_KEY.spec_bytes(), Field::TradeId) {
                lemma_string_at_bounds(buf, p3);
                if let Ok((_, id_end)) = string_at(buf, p3) {
                    if let Ok(p4) = after_literal(
                        buf,
                        id_end,
                        CONTRACTS_KEY.spec_bytes(),
                        Field::Contracts,
                    ) {
                        lemma_decimal_at_bounds(buf, p4);
                    }
                }
            }
        }
    }
}

/// The trades of a list from `pos` on, behind the trades `seen`: trades with a
/// `,` between them, up to the `]` that closes the list, with any whitespace
/// around the `,` and before the `]`.
pub open spec fn trades_from(
    index: Map<Seq<u8>, usize>,
    buf: Seq<u8>,
    pos: usize,
    seen: Seq<TradeEvent>,
) -> Result<Seq<TradeEvent>, ParseError>
    decreases buf.len() - pos,
    when buf.len() <= usize::MAX
{
    match trade_at(index, buf, pos) {
        Err(e) => Err(e),
        Ok((trade, after)) => {
            let sep = whitespace_end(buf, after as int);
            if sep >= buf.len() {
                Err(ParseError::BufferTooShort(buf.len() as usize))
            } else if buf[sep] == LIST_CLOSE {
                Ok(seen.push(trade))
            } else if buf[sep] != COMMA {
                Err(ParseError::InvalidFormat(FormatIssue::ExpectedSeparator))
            } else {
                proof {
                    lemma_trade_at_bounds(index, buf, pos);
                    lemma_whitespace_end_bounds(buf, after as int);
                    lemma_whitespace_end_bounds(buf, sep + 1);
                }
                trades_from(index, buf, whitespace_end(buf, sep + 1) as usize, seen.push(trade))
            }
        },
    }
}

/// The position behind the first `data` at or after `start`.
pub open spec fn data_at(buf: Seq<u8>, start: usize) -> Result<usize, ParseError> {
    let at = first_at(buf, start as int, DATA_PATTERN.spec_bytes());
    if at < buf.len() {
        Ok((at + DATA_PATTERN.spec_bytes().len()) as usize)
    } else {
        Err(ParseError::InvalidFormat(FormatIssue::DataNotFound))
    }
}

/// Whether the frame starts as the frames of the hot path do, with a channel
/// whose name starts with `pattern`.
pub open spec fn on_channel(buf: Seq<u8>, pattern: Seq<u8>) -> bool {
    holds_at(buf, 0, ENVELOPE_PREFIX.spec_bytes()) && holds_at(
        buf,
        ENVELOPE_PREFIX.spec_bytes().len() as int,
        pattern,
    )
}

/// The kind of stream that a frame belongs to. A frame of fewer than 100
/// bytes belongs to none.
pub open spec fn channel_type_of(buf: Seq<u8>) -> ChannelType {
    if buf.len() < MIN_FRAME_LEN {
        ChannelType::Unknown
    } else if on_channel(buf, TRADES_PATTERN.spec_bytes()) {
        ChannelType::Trades
    } else if on_channel(buf, BOOK_PATTERN.spec_bytes()) {
        ChannelType::Orderbook
    } else {
        ChannelType::Unknown
    }
}

/// The trades of a trade message: what `parse_trade_fast` returns.
pub open spec fn trades_in(index: Map<Seq<u8>, usize>, buf: Seq<u8>) -> Result<
    Seq<TradeEvent>,
    ParseError,
> {
    if !on_channel(buf, TRADES_PATTERN.spec_bytes()) {
        Err(ParseError::MissingField(Field::Channel))
    } else {
        match data_at(buf, ENVELOPE_PREFIX.spec_bytes().len() as usize) {
            Err(e) => Err(e),
            Ok(p1) => match after_literal(buf, p1, LIST_OPEN.spec_bytes(), Field::Data) {
                Err(e) => Err(e),
                Ok(p2) => {
                    let first = whitespace_end(buf, p2 as int);
                    if first < buf.len() && buf[first] == LIST_CLOSE {
                        Err(ParseError::InvalidFormat(FormatIssue::NoTrades))
                    } else {
                        trades_from(index, buf, first as usize, Seq::empty())
                    }
                },
            },
        }
    }
}

/// A list of trades that was read holds at least one trade.
pub proof fn lemma_trades_from_some(
    index: Map<Seq<u8>, usize>,
    buf: Seq<u8>,
    pos: usize,
    seen: Seq<TradeEvent>,
)
    requires
        buf.len() <= usize::MAX,
    ensures
        trades_from(index, buf, pos, seen) matches Ok(trades) ==> trades.len() > seen.len(),
    decreases buf.len() - pos,
{
    if let Ok((trade, after)) = trade_at(index, buf, pos) {
        let sep = whitespace_end(buf, after as int);
        if sep < buf.len() && buf[sep] == COMMA {
            lemma_trade_at_bounds(index, buf, pos);
            lemma_whitespace_end_bounds(buf, after as int);
            lemma_whitespace_end_bounds(buf, sep + 1);
            lemma_trades_from_some(
                index,
                buf,
                whitespace_end(buf, sep + 1) as usize,
                seen.push(trade),
            );
        }
    }
}

/// The parser of the hot path. It owns the instrument index and nothing else.
#[derive(Debug)]
pub struct StreamingParser {
    pub(crate) instrument_map: InstrumentIndex,
}

impl StreamingParser {
    /// The instrument index, by the bytes of the symbol.
    pub closed spec fn instruments(self) -> Map<Seq<u8>, usize> {
        self.instrument_map@
    }

    /// A parser that knows the instruments of `instrument_map`.
    pub fn new(instrument_map: InstrumentIndex) -> (parser: Self)
        ensures
            parser.instruments() == instrument_map@,
    {
        Self { instrument_map }
    }

    /// Reads a frame of the hot path. `None` for every other frame, which is
    /// then left to the general decoder.
    pub fn parse_fast_new(&self, buffer: &[u8]) -> (out: Result<Option<FastMarketData>, ParseError>)
        ensures
            buffer@.len() < MIN_FRAME_LEN ==> out matches Ok(None),
            (out matches Ok(None)) <==> channel_type_of(buffer@) == ChannelType::Unknown,
            channel_type_of(buffer@) == ChannelType::Trades ==> match out {
                Ok(Some(FastMarketData::Trade(trades))) => trades_in(self.instruments(), buffer@)
                    == Ok::<Seq<TradeEvent>, ParseError>(trade_items(trades)) && trade_items(
                    trades,
                ).len() > 0,
                Err(e) => trades_in(self.instruments(), buffer@) == Err::<
                    Seq<TradeEvent>,
                    ParseError,
                >(e),
                _ => false,
            },
            channel_type_of(buffer@) == ChannelType::Orderbook ==> match out {
                Ok(Some(FastMarketData::OrderbookUpdate(update))) => book_in(
                    self.instruments(),
                    buffer@,
                ) == Ok::<BookMessage, ParseError>(update.message()),
                Err(e) => book_in(self.instruments(), buffer@) == Err::<BookMessage, ParseError>(
                    e,
                ),
                _ => false,
            },
    {
        match self.detect_channel_type_fast(buffer)? {
            ChannelType::Trades => Ok(Some(FastMarketData::Trade(self.parse_trade_fast(buffer)?))),
            ChannelType::Orderbook => Ok(
                Some(FastMarketData::OrderbookUpdate(self.parse_orderbook_fast(buffer)?)),
            ),
            ChannelType::Unknown => Ok(None),
        }
    }

    /// The kind of stream that the frame belongs to. Never an error.
    pub fn detect_channel_type_fast(&self, buffer: &[u8]) -> (channel: Result<
        ChannelType,
        ParseError,
    >)
        ensures
            channel == Ok::<ChannelType, ParseError>(channel_type_of(buffer@)),
    {
        let prefix = ENVELOPE_PREFIX.as_bytes();
        if buffer.len() < MIN_FRAME_LEN || !matches_at(buffer, 0, prefix) {
            return Ok(ChannelType::Unknown);
        }
        let channel_start = prefix.len();
        if matches_at(buffer, channel_start, TRADES_PATTERN.as_bytes()) {
            Ok(ChannelType::Trades)
        } else if matches_at(buffer, channel_start, BOOK_PATTERN.as_bytes()) {
            Ok(ChannelType::Orderbook)
        } else {
            Ok(ChannelType::Unknown)
        }
    }

    /// The position behind the first `data` at or after `start`.
    pub fn find_data_array_fast(buffer: &[u8], start: usize) -> (after: Result<usize, ParseError>)
        ensures
            after == data_at(buffer@, start),
            after matches Ok(p) ==> start <= p <= buffer.len(),
    {
        let pattern = DATA_PATTERN.as_bytes();
        let _ = buffer.len();
        match find_from(buffer, start, pattern) {
            Some(at) => Ok(at + pattern.len()),
            None => Err(ParseError::InvalidFormat(FormatIssue::DataNotFound)),
        }
    }

    /// The trades of a trade message, in the order in which they stand.
    pub fn parse_trade_fast(&self, buffer: &[u8]) -> (out: Result<TradeBuffer, ParseError>)
        ensures
            match out {
                Ok(trades) => trades_in(self.instruments(), buffer@) == Ok::<
                    Seq<TradeEvent>,
                    ParseError,
                >(trade_items(trades)) && trade_items(trades).len() > 0,
                Err(e) => trades_in(self.instruments(), buffer@) == Err::<
                    Seq<TradeEvent>,
                    ParseError,
                >(e),
            },
    {
        let prefix = ENVELOPE_PREFIX.as_bytes();
        if !matches_at(buffer, 0, prefix) || !matches_at(
            buffer,
            prefix.len(),
            TRADES_PATTERN.as_bytes(),
        ) {
            return Err(ParseError::MissingField(Field::Channel));
        }
        let p1 = Self::find_data_array_fast(buffer, prefix.len())?;
        let p2 = expect_literal(buffer, p1, LIST_OPEN, Field::Data)?;
        let first = Self::skip_whitespace(buffer, p2);
        if first < buffer.len() && buffer[first] == LIST_CLOSE {
            return Err(ParseError::InvalidFormat(FormatIssue::NoTrades));
        }
        let mut trades = TradeBuffer::new();
        let mut pos = first;
        proof {
            lemma_trades_from_some(self.instruments(), buffer@, first, Seq::empty());
        }
        loop
            invariant
                pos <= buffer.len(),
                trade_items(trades).len() <= pos,
                trades_in(self.instruments(), buffer@) == trades_from(
                    self.instruments(),
                    buffer@,
                    pos,
                    trade_items(trades),
                ),
                trades_in(self.instruments(), buffer@) matches Ok(all) ==> all.len() > 0,
            decreases buffer.len() - pos,
        {
            let (trade, after) = self.parse_trade_object_optimized(buffer, pos)?;
            trades.push(trade);
            let sep = Self::skip_whitespace(buffer, after);
            if sep >= buffer.len() {
                return Err(ParseError::BufferTooShort(buffer.len()));
            }
            if buffer[sep] == LIST_CLOSE {
                return Ok(trades);
            }
            if buffer[sep] != COMMA {
                return Err(ParseError::InvalidFormat(FormatIssue::ExpectedSeparator));
            }
            pos = Self::skip_whitespace(buffer, sep + 1);
        }
    }

    /// Reads the side of a trade.
    fn parse_direction(buffer: &[u8], pos: usize) -> (out: Result<(u8, usize), ParseError>)
        ensures
            out == direction_at(buffer@, pos),
            out matches Ok((_, end)) ==> pos <= end <= buffer.len(),
    {
        let buy = BUY.as_bytes();
        let sell = SELL.as_bytes();
        let _ = buffer.len();
        if matches_at(buffer, pos, buy) {
            Ok((1u8, pos + buy.len()))
        } else if matches_at(buffer, pos, sell) {
            Ok((0u8, pos + sell.len()))
        } else {
            Err(ParseError::BadDirection)
        }
    }

    /// Reads a trade from its opening brace to its direction.
    fn parse_trade_head(buffer: &[u8], pos: usize) -> (out: Result<TradeHead, ParseError>)
        ensures
            out == trade_head_at(buffer@, pos),
            out matches Ok(head) ==> pos < head.end <= buffer.len(),
    {
        reveal(trade_lead_at);
        let p1 = expect_literal(buffer, pos, TIMESTAMP_KEY, Field::Timestamp)?;
        let (timestamp, p2) = Self::parse_u64(buffer, p1)?;
        let p3 = expect_literal(buffer, p2, PRICE_KEY, Field::Price)?;
        let (price, p4) = Self::parse_number(buffer, p3)?;
        let p5 = expect_literal(buffer, p4, AMOUNT_KEY, Field::Amount)?;
        let (amount, p6) = Self::parse_number(buffer, p5)?;
        let p7 = expect_literal(buffer, p6, DIRECTION_KEY, Field::Direction)?;
        let (side, p8) = Self::parse_direction(buffer, p7)?;
        Ok(TradeHead { timestamp, price, amount, side, end: p8 })
    }

    /// Reads the name of an instrument and looks it up.
    pub(crate) fn parse_instrument(&self, buffer: &[u8], pos: usize) -> (out: Result<
        (usize, usize),
        ParseError,
    >)
        ensures
            out == instrument_at(self.instruments(), buffer@, pos),
            out matches Ok((_, end)) ==> pos <= end < buffer.len(),
    {
        let (start, end) = Self::parse_string(buffer, pos)?;
        let name = slice_subrange(buffer, start, end);
        if !is_utf8(name) {
            return Err(ParseError::InvalidFormat(FormatIssue::InvalidUtf8));
        }
        match self.instrument_map.get(name) {
            None => Err(ParseError::UnknownInstrument),
            Some(instrument) => Ok((instrument, end)),
        }
    }

    /// Reads a trade from its index price to its mark price.
    fn parse_trade_middle(&self, buffer: &[u8], pos: usize) -> (out: Result<
        (usize, usize),
        ParseError,
    >)
        ensures
            out == trade_middle_at(self.instruments(), buffer@, pos),
            out matches Ok((_, end)) ==> pos < end <= buffer.len(),
    {
        reveal(trade_middle_at);
        let p1 = expect_literal(buffer, pos, INDEX_PRICE_KEY, Field::IndexPrice)?;
        let (_, p2) = Self::parse_number(buffer, p1)?;
        let p3 = expect_literal(buffer, p2, INSTRUMENT_NAME_KEY, Field::InstrumentName)?;
        let (instrument, p4) = self.parse_instrument(buffer, p3)?;
        let p5 = expect_literal(buffer, p4, TRADE_SEQ_KEY, Field::TradeSeq)?;
        let (_, p6) = Self::parse_number(buffer, p5)?;
        let p7 = expect_literal(buffer, p6, MARK_PRICE_KEY, Field::MarkPrice)?;
        let (_, p8) = Self::parse_number(buffer, p7)?;
        Ok((instrument, p8))
    }

    /// Reads the tick direction of a trade.
    fn parse_tick_direction(buffer: &[u8], pos: usize) -> (out: Result<usize, ParseError>)
        ensures
            out == tick_direction_at(buffer@, pos),
            out matches Ok(end) ==> pos < end <= buffer.len(),
    {
        if pos >= buffer.len() {
            Err(ParseError::BufferTooShort(buffer.len()))
        } else if buffer[pos] < 48 || buffer[pos] > 51 {
            Err(ParseError::InvalidFormat(FormatIssue::TickDirection))
        } else {
            Ok(pos + 1)
        }
    }

    /// Reads a trade from its tick direction to its closing brace.
    fn parse_trade_tail(buffer: &[u8], pos: usize) -> (out: Result<TradeTail, ParseError>)
        ensures
            out == trade_tail_at(buffer@, pos),
            out matches Ok(tail) ==> pos < tail.end <= buffer.len() && tail.id_start
                <= tail.id_end <= buffer.len(),
    {
        reveal(trade_tail_at);
        let p1 = expect_literal(buffer, pos, TICK_DIRECTION_KEY, Field::TickDirection)?;
        let p2 = Self::parse_tick_direction(buffer, p1)?;
        let p3 = expect_literal(buffer, p2, TRADE_ID_KEY, Field::TradeId)?;
        let (id_start, id_end) = Self::parse_string(buffer, p3)?;
        if !is_utf8(slice_subrange(buffer, id_start, id_end)) {
            return Err(ParseError::InvalidFormat(FormatIssue::InvalidUtf8));
        }
        let p4 = expect_literal(buffer, id_end, CONTRACTS_KEY, Field::Contracts)?;
        let (_, p5) = Self::parse_number(buffer, p4)?;
        let p6 = expect_literal(buffer, p5, OBJECT_CLOSE, Field::Contracts)?;
        Ok(TradeTail { id_start, id_end, end: p6 })
    }

    /// Reads the trade at `pos`, from its opening brace to its closing brace.
    /// Of its eleven fields, which stand in a fixed order, six make the event.
    pub fn parse_trade_object_optimized(&self, buffer: &[u8], pos: usize) -> (out: Result<
        (TradeEvent, usize),
        ParseError,
    >)
        ensures
            out == trade_at(self.instruments(), buffer@, pos),
            out matches Ok((_, end)) ==> pos < end <= buffer.len(),
    {
        reveal(trade_at);
        let head = Self::parse_trade_head(buffer, pos)?;
        let (instrument, p) = self.parse_trade_middle(buffer, head.end)?;
        let tail = Self::parse_trade_tail(buffer, p)?;
        match parse_trade_id(slice_subrange(buffer, tail.id_start, tail.id_end)) {
            None => Err(ParseError::BadTradeId),
            Some(trade_id) => Ok(
                (
                    TradeEvent {
                        instrument_idx: #[verifier::truncate]
                        (instrument as u8),
                        price: head.price,
                        size: head.amount,
                        side: head.side,
                        timestamp_ns: head.timestamp,
                        trade_id,
                    },
                    tail.end,
                ),
            ),
        }
    }
}

} // verus!

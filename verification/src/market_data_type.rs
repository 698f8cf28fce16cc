//! The records that leave the feed handler.

use vstd::prelude::*;
use crate::decimal::Decimal;

verus! {

/// How many levels of each side are published.
pub const PUBLISHED_DEPTH: usize = 10;

/// One trade, as published.
#[derive(Clone, Copy, Debug)]
pub struct TradeEvent {
    pub instrument_idx: u8,
    pub price: Decimal,
    pub size: Decimal,
    /// 0 for a sell, 1 for a buy.
    pub side: u8,
    pub timestamp_ns: u64,
    /// The number behind the last `-` of the exchange's trade id.
    pub trade_id: u64,
}

/// The published view of a book: the best ten levels of each side, best first,
/// with zero in the slots that hold no level.
#[derive(Clone, Copy, Debug)]
pub struct OrderbookData {
    pub bid_prices: [Decimal; 10],
    pub ask_prices: [Decimal; 10],
    pub bid_sizes: [Decimal; 10],
    pub ask_sizes: [Decimal; 10],
}

} // verus!

//! The kinds of frame that the general decoder tells apart.

use vstd::prelude::*;
use crate::parsing::parsing_admin::AuthMessage;
use crate::parsing::parsing_admin::PongMessage;
use crate::parsing::parsing_admin::SubscriptionMessage;
use crate::parsing::parsing_orderbook::OrderbookSnapshotMessage;
use crate::parsing::parsing_orderbook::OrderbookUpdateMessage;
use crate::parsing::parsing_trade::TradeUpdateMessage;

verus! {

/// The kinds of frame.
#[derive(Debug, Clone, Copy, PartialEq, Eq, Structural)]
pub enum MessageType {
    Auth,
    Subscription,
    TradeUpdate,
    OrderbookSnapshot,
    OrderbookUpdate,
    Unknown,
    Pong,
}

/// A frame that the general decoder read.
#[derive(Debug, Clone)]
pub enum DeribitMessage {
    Auth(AuthMessage),
    Subscription(SubscriptionMessage),
    TradeUpdate(TradeUpdateMessage),
    OrderbookSnapshot(OrderbookSnapshotMessage),
    OrderbookUpdate(OrderbookUpdateMessage),
    Unknown,
    Pong(PongMessage),
}

} // verus!

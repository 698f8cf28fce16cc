//! Errors and results of the connection.

use vstd::prelude::*;

verus! {

/// What can go wrong with the connection.
#[derive(Debug, Clone, PartialEq, Eq)]
pub enum DeribitError {
    Rpc { code: i32, message: String },
    InvalidFormat(String),
    MissingField(String),
    InvalidMessageType(String),
    /// The transport failed; its message is kept.
    ConnectionError(String),
    AuthError(String),
    SubscriptionError(String),
    WsError(String),
    /// No frame, or no reply, came in time.
    Timeout,
    /// The task that would have replied is gone.
    ChannelClosed,
}

/// The channels that the exchange confirmed.
#[derive(Debug, Clone, PartialEq, Eq)]
pub struct SubscriptionResult {
    pub channels: Vec<String>,
    pub success: bool,
}

/// The token that the exchange granted.
#[derive(Debug, Clone, PartialEq, Eq)]
pub struct AuthResult {
    pub access_token: String,
    pub expires_in: u64,
}

} // verus!

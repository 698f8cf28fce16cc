//! The entry point of the general decoder: telling the kinds of frame apart.

use vstd::prelude::*;
use vstd::string::StringSliceAdditionalSpecFns;
use vstd::utf8::encode_utf8;
use crate::parsing::bytes::holds_at;
use crate::parsing::bytes::matches_at;
use crate::parsing::bytes::same_bytes;
use crate::parsing::exchange_message_type::DeribitMessage;
use crate::parsing::exchange_message_type::MessageType;
use crate::parsing::json::decoded;
use crate::parsing::json::nesting;
use crate::parsing::json::JsonValue;
use crate::parsing::json::MAX_DEPTH;
use crate::parsing::parsing_admin::auth_of;
use crate::parsing::parsing_admin::pong_of;
use crate::parsing::parsing_admin::reads_subscription;
use crate::parsing::parsing_orderbook::reads_book;
use crate::parsing::parsing_trade::reads_trade_update;
use crate::parsing::Field;
use crate::parsing::FormatIssue;
use crate::parsing::MessageParser;
use crate::parsing::ParseError;

verus! {

/// The bytes of the member `field` of a value that may be there, where the
/// member is a string.
pub open spec fn text_in(parent: Option<JsonValue>, field: Field) -> Option<Seq<u8>> {
    match parent {
        None => None,
        Some(value) => match value.member(field.key()) {
            Some(JsonValue::Text(s)) => Some(encode_utf8(s@)),
            _ => None,
        },
    }
}

/// The member `field` of a value that may be there.
pub open spec fn member_in(parent: Option<JsonValue>, field: Field) -> Option<JsonValue> {
    match parent {
        None => None,
        Some(value) => value.member(field.key()),
    }
}

/// The kind of a subscription frame on the channel `channel` whose data has
/// the type `data_type`.
pub open spec fn stream_type(channel: Option<Seq<u8>>, data_type: Option<Seq<u8>>) -> MessageType {
    match channel {
        None => MessageType::Unknown,
        Some(name) => if holds_at(name, 0, "trades.".spec_bytes()) {
            MessageType::TradeUpdate
        } else if holds_at(name, 0, "book.".spec_bytes()) {
            match data_type {
                None => MessageType::Unknown,
                Some(kind) => if kind == "snapshot".spec_bytes() {
                    MessageType::OrderbookSnapshot
                } else if kind == "change".spec_bytes() {
                    MessageType::OrderbookUpdate
                } else {
                    MessageType::Unknown
                },
            }
        } else {
            MessageType::Unknown
        },
    }
}

/// The kind of a frame without a `method`, by its `result`: an object with an
/// `access_token` is an authentication reply, a list a subscription reply,
/// the string `pong` a pong.
pub open spec fn reply_type(result: Option<JsonValue>) -> MessageType {
    match result {
        None => MessageType::Unknown,
        Some(found) => if found.member(Field::AccessToken.key()) is Some {
            MessageType::Auth
        } else if found.items() is Some {
            MessageType::Subscription
        } else if found matches JsonValue::Text(s) && encode_utf8(s@) == "pong".spec_bytes() {
            MessageType::Pong
        } else {
            MessageType::Unknown
        },
    }
}

/// The kind of a frame. A frame with a `method` that is a string is a stream
/// frame or of no known kind; any other is told by its `result`.
#[verifier::opaque]
pub open spec fn message_type_of(value: JsonValue) -> MessageType {
    match text_in(Some(value), Field::Method) {
        Some(method) => if method == "subscription".spec_bytes() {
            let params = value.member(Field::Params.key());
            stream_type(
                text_in(params, Field::Channel),
                text_in(member_in(params, Field::Data), Field::Type),
            )
        } else {
            MessageType::Unknown
        },
        None => reply_type(value.member(Field::Result.key())),
    }
}

/// Whether `out` is what reading the decoded frame `value` gives: what its
/// kind is read as, and `Unknown` for a frame of no known kind.
pub open spec fn reads(value: JsonValue, out: Result<DeribitMessage, ParseError>) -> bool {
    match message_type_of(value) {
        MessageType::Auth => out == auth_of(value),
        MessageType::Subscription => reads_subscription(value, out),
        MessageType::TradeUpdate => reads_trade_update(value, out),
        MessageType::OrderbookSnapshot => reads_book(value, true, out),
        MessageType::OrderbookUpdate => reads_book(value, false, out),
        MessageType::Unknown => out == Ok::<DeribitMessage, ParseError>(DeribitMessage::Unknown),
        MessageType::Pong => out == pong_of(value),
    }
}

/// Whether `out` is what decoding the bytes of a frame and reading the
/// document gives: `TooDeep` for a frame nested deeper than `MAX_DEPTH`, the
/// decoder's error where the bytes write no document, and else what reading a
/// value gives that says what the document says.
pub open spec fn parses(bytes: Seq<u8>, out: Result<DeribitMessage, ParseError>) -> bool {
    if nesting(bytes) > MAX_DEPTH {
        out == Err::<DeribitMessage, ParseError>(ParseError::InvalidFormat(FormatIssue::TooDeep))
    } else {
        match decoded(bytes) {
            None => out matches Err(ParseError::JsonError(_)),
            Some(model) => exists|json: JsonValue| #[trigger]
                json.models(model, MAX_DEPTH as nat) && reads(json, out),
        }
    }
}

impl MessageParser {
    /// Decodes a frame and reads it by its kind. The decoder rewrites the
    /// buffer as it goes.
    pub fn parse_bytes(buffer: &mut [u8]) -> (out: Result<DeribitMessage, ParseError>)
        ensures
            parses(old(buffer)@, out),
    {
        let json = JsonValue::from_bytes(buffer)?;
        let out = Self::parse_owned(&json);
        assert(json.models(decoded(old(buffer)@)->Some_0, MAX_DEPTH as nat) && reads(json, out));
        out
    }

    /// Reads a decoded frame by its kind. A frame of no known kind is no
    /// error.
    pub fn parse_owned(value: &JsonValue) -> (out: Result<DeribitMessage, ParseError>)
        ensures
            reads(*value, out),
    {
        match Self::detect_message_type_fast(value)? {
            MessageType::Auth => Self::parse_auth_owned(value),
            MessageType::Subscription => Self::parse_subscription_owned(value),
            MessageType::TradeUpdate => Self::parse_trade_update_owned(value),
            MessageType::OrderbookSnapshot => Self::parse_orderbook_snapshot_owned(value),
            MessageType::OrderbookUpdate => Self::parse_orderbook_update_owned(value),
            MessageType::Unknown => Ok(DeribitMessage::Unknown),
            MessageType::Pong => Self::parse_ping_pong(value),
        }
    }

    /// The `field` of `parent`, where both are there and the field is a
    /// string.
    fn text_of<'a>(parent: Option<&'a JsonValue>, field: Field) -> (found: Option<&'a [u8]>)
        ensures
            match found {
                Some(bytes) => text_in(
                    match parent {
                        Some(p) => Some(*p),
                        None => None,
                    },
                    field,
                ) == Some(bytes@),
                None => text_in(
                    match parent {
                        Some(p) => Some(*p),
                        None => None,
                    },
                    field,
                ) is None,
            },
    {
        match parent {
            None => None,
            Some(value) => match value.get(field.name()) {
                Some(JsonValue::Text(s)) => Some(s.as_str().as_bytes()),
                _ => None,
            },
        }
    }

    /// The kind of a stream frame.
    fn detect_stream_type(value: &JsonValue) -> (kind: MessageType)
        ensures
            kind == stream_type(
                text_in(value.member(Field::Params.key()), Field::Channel),
                text_in(
                    member_in(value.member(Field::Params.key()), Field::Data),
                    Field::Type,
                ),
            ),
    {
        let params = value.get(Field::Params.name());
        let channel = match Self::text_of(params, Field::Channel) {
            Some(name) => name,
            None => {
                return MessageType::Unknown;
            },
        };
        if matches_at(channel, 0, "trades.".as_bytes()) {
            return MessageType::TradeUpdate;
        }
        if !matches_at(channel, 0, "book.".as_bytes()) {
            return MessageType::Unknown;
        }
        let data = match params {
            Some(found) => found.get(Field::Data.name()),
            None => None,
        };
        match Self::text_of(data, Field::Type) {
            None => MessageType::Unknown,
            Some(kind) => if same_bytes(kind, "snapshot".as_bytes()) {
                MessageType::OrderbookSnapshot
            } else if same_bytes(kind, "change".as_bytes()) {
                MessageType::OrderbookUpdate
            } else {
                MessageType::Unknown
            },
        }
    }

    /// The kind of a decoded frame. Never an error.
    pub fn detect_message_type_fast(value: &JsonValue) -> (out: Result<MessageType, ParseError>)
        ensures
            out == Ok::<MessageType, ParseError>(message_type_of(*value)),
    {
        reveal(message_type_of);
        if let Some(method) = Self::text_of(Some(value), Field::Method) {
            if same_bytes(method, "subscription".as_bytes()) {
                return Ok(Self::detect_stream_type(value));
            }
            return Ok(MessageType::Unknown);
        }
        let result = match value.get(Field::Result.name()) {
            Some(found) => found,
            None => {
                return Ok(MessageType::Unknown);
            },
        };
        if result.get(Field::AccessToken.name()).is_some() {
            return Ok(MessageType::Auth);
        }
        if result.as_list().is_some() {
            return Ok(MessageType::Subscription);
        }
        match result {
            JsonValue::Text(word) => if same_bytes(word.as_str().as_bytes(), "pong".as_bytes()) {
                Ok(MessageType::Pong)
            } else {
                Ok(MessageType::Unknown)
            },
            _ => Ok(MessageType::Unknown),
        }
    }
}

} // verus!
